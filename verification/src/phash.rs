//! Perceptual fingerprinting: hashing an already-opened image with the
//! outside perceptual-hash crate, and the distance oracle between two
//! encoded fingerprints.
use vstd::prelude::*;
use image::GenericImageView;
use crate::model::DigestDto;

verus! {

/// Outside type of a decoded image; opaque to the engine, which only
/// carries it from the caller to the hasher.
#[verifier::external_type_specification]
#[verifier::external_body]
pub struct ExDynamicImage(image::DynamicImage);

/// The perceptual-hash algorithms one image is fingerprinted with.
#[derive(Clone, Copy, Debug, PartialEq, Eq, Structural)]
pub enum PerceptualAlg {
    Mean,
    DoubleGradient,
}

/// The algorithm identifier stored beside each fingerprint.
pub open spec fn alg_name(a: PerceptualAlg) -> Seq<char> {
    match a {
        PerceptualAlg::Mean => "Mean"@,
        PerceptualAlg::DoubleGradient => "DoubleGradient"@,
    }
}

/// The width of an image in pixels, as the outside crate reports it.
pub uninterp spec fn image_width(img: image::DynamicImage) -> u32;

/// The height of an image in pixels, as the outside crate reports it.
pub uninterp spec fn image_height(img: image::DynamicImage) -> u32;

/// The base64-encoded perceptual hash of an image under one algorithm, as
/// the outside hasher computes it: a function of the image and the
/// algorithm alone.
pub uninterp spec fn phash_of(img: image::DynamicImage, alg: PerceptualAlg) -> Seq<char>;

/// Whether an encoded fingerprint decodes back into hash bits, as the
/// outside decoder judges it: a function of the string alone.
pub uninterp spec fn phash_decodes(s: Seq<char>) -> bool;

/// The distance between two decodable encoded fingerprints, as the
/// outside oracle computes it: a function of the two strings alone.
pub uninterp spec fn phash_distance(a: Seq<char>, b: Seq<char>) -> u32;

/// A stored fingerprint could not be decoded when a distance was asked
/// for; the single comparison is reported as absent, nothing aborts.
#[derive(Clone, Copy, Debug, PartialEq, Eq, Structural)]
pub enum DistanceError {
    Decode,
}

/// Relies on GenericImageView::width for DynamicImage.
#[verifier::external_body]
fn width_of(image: &image::DynamicImage) -> (r: u32)
    ensures
        r == image_width(*image),
{
    image.width()
}

/// Relies on GenericImageView::height for DynamicImage.
#[verifier::external_body]
fn height_of(image: &image::DynamicImage) -> (r: u32)
    ensures
        r == image_height(*image),
{
    image.height()
}

/// Perceptual hasher and distance oracle.
pub struct PHashImageHashing {}

impl PHashImageHashing {
    /// Relies on img_hash's HasherConfig, Hasher::hash_image and
    /// ImageHash::to_base64: configure the chosen algorithm, hash the
    /// image, and encode the hash bits in base64. The hash is a function
    /// of the image and the algorithm alone, and its encoding always
    /// decodes back (ImageHash::from_base64 undoes the same base64
    /// alphabet, and a Box-backed hash accepts any byte length). Hashing
    /// resamples the image to the hash size, which requires both
    /// dimensions to be nonzero.
    #[verifier::external_body]
    fn hash_image_base64(&self, image: &image::DynamicImage, alg: PerceptualAlg) -> (r:
        String)
        requires
            image_width(*image) > 0,
            image_height(*image) > 0,
        ensures
            r@ == phash_of(*image, alg),
            phash_decodes(r@),
    {
        let hash_alg = match alg {
            PerceptualAlg::Mean => img_hash::HashAlg::Mean,
            PerceptualAlg::DoubleGradient => img_hash::HashAlg::DoubleGradient,
        };
        let hasher = img_hash::HasherConfig::new().hash_alg(hash_alg).to_hasher();
        hasher.hash_image(image).to_base64()
    }

    /// One fingerprint of a non-empty image under one algorithm.
    pub fn create_hash(
        &self,
        image: &image::DynamicImage,
        alg: PerceptualAlg,
        elapsed_ms: u128,
    ) -> (r: DigestDto)
        requires
            image_width(*image) > 0,
            image_height(*image) > 0,
        ensures
            r.algorithm@ == alg_name(alg),
            r.value@ == phash_of(*image, alg),
            phash_decodes(r.value@),
            r.elapsed_time == elapsed_ms,
    {
        let algorithm: String = match alg {
            PerceptualAlg::Mean => "Mean".to_owned(),
            PerceptualAlg::DoubleGradient => "DoubleGradient".to_owned(),
        };
        DigestDto {
            algorithm,
            value: self.hash_image_base64(image, alg),
            elapsed_time: elapsed_ms,
        }
    }

    /// Fingerprint a non-empty image: the Mean hash, then the
    /// DoubleGradient hash.
    pub fn digest_image(&self, image: &image::DynamicImage, elapsed_ms: u128) -> (r: Vec<
        DigestDto,
    >)
        requires
            image_width(*image) > 0,
            image_height(*image) > 0,
        ensures
            r@.len() == 2,
            r@[0].algorithm@ == "Mean"@,
            r@[0].value@ == phash_of(*image, PerceptualAlg::Mean),
            r@[1].algorithm@ == "DoubleGradient"@,
            r@[1].value@ == phash_of(*image, PerceptualAlg::DoubleGradient),
            phash_decodes(r@[0].value@),
            phash_decodes(r@[1].value@),
            r@[0].elapsed_time == elapsed_ms,
            r@[1].elapsed_time == elapsed_ms,
    {
        let mut r: Vec<DigestDto> = Vec::new();
        r.push(self.create_hash(image, PerceptualAlg::Mean, elapsed_ms));
        r.push(self.create_hash(image, PerceptualAlg::DoubleGradient, elapsed_ms));
        r
    }

    /// Fingerprint an image when its dimensions permit hashing, `None`
    /// otherwise: the caller need not test the dimensions first.
    pub fn try_digest_image(&self, image: &image::DynamicImage, elapsed_ms: u128) -> (r:
        Option<Vec<DigestDto>>)
        ensures
            (r is Some) <==> (image_width(*image) > 0 && image_height(*image) > 0),
            r matches Some(v) ==> (v@.len() == 2 && v@[0].algorithm@ == "Mean"@
                && v@[1].algorithm@ == "DoubleGradient"@ && v@[0].value@ == phash_of(
                *image,
                PerceptualAlg::Mean,
            ) && v@[1].value@ == phash_of(*image, PerceptualAlg::DoubleGradient)
                && phash_decodes(v@[0].value@) && phash_decodes(v@[1].value@)),
    {
        if width_of(image) > 0 && height_of(image) > 0 {
            Some(self.digest_image(image, elapsed_ms))
        } else {
            None
        }
    }

    /// Relies on ImageHash::from_base64 and ImageHash::dist: decoding and
    /// the hamming distance are functions of the encoded strings alone,
    /// and a decode failure of either side is the only way to fail. The
    /// distance is an XOR bit count over the two decoded hashes, so it is
    /// symmetric and zero between equal strings.
    #[verifier::external_body]
    fn distance_raw(&self, hash1: &str, hash2: &str) -> (r: Option<u32>)
        ensures
            r is Some <==> (phash_decodes(hash1@) && phash_decodes(hash2@)),
            r is Some ==> r->0 == phash_distance(hash1@, hash2@),
            r is Some ==> r->0 == phash_distance(hash2@, hash1@),
            (r is Some && hash1@ == hash2@) ==> r->0 == 0,
    {
        let first: Result<img_hash::ImageHash, _> = img_hash::ImageHash::from_base64(hash1);
        let second: Result<img_hash::ImageHash, _> = img_hash::ImageHash::from_base64(hash2);
        match (first, second) {
            (Ok(a), Ok(b)) => Some(a.dist(&b)),
            _ => None,
        }
    }

    /// The similarity distance between two encoded fingerprints of one
    /// algorithm, or the decode error when either string is not a valid
    /// fingerprint. The distance does not depend on the order of the two
    /// arguments, and two equal fingerprints are at distance zero.
    pub fn distance(&self, hash1: &str, hash2: &str) -> (r: Result<u32, DistanceError>)
        ensures
            r matches Ok(d) ==> (phash_decodes(hash1@) && phash_decodes(hash2@)
                && d == phash_distance(hash1@, hash2@)),
            r matches Ok(d) ==> d == phash_distance(hash2@, hash1@),
            r matches Ok(d) ==> (hash1@ == hash2@ ==> d == 0),
            (r is Err) <==> !(phash_decodes(hash1@) && phash_decodes(hash2@)),
    {
        match self.distance_raw(hash1, hash2) {
            Some(d) => Ok(d),
            None => Err(DistanceError::Decode),
        }
    }
}

} // verus!
