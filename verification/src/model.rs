//! Data model of the duplicate-detection engine: the description of one
//! scanned file, the fingerprint and digest records attached to it, and the
//! report assembled at the end of a scan, together with the mathematical
//! views that the contracts speak of.
use vstd::prelude::*;

verus! {

/// Media category of a scanned file, judged from its path suffix.
#[derive(Clone, Copy, Debug, PartialEq, Eq, Structural)]
pub enum FileType {
    VIDEO,
    IMAGE,
    OTHER,
}

/// One hash result: the algorithm that produced it, its encoded value
/// (hex for content digests, base64 for perceptual fingerprints), and how
/// long the computation took.
#[derive(Clone, Debug)]
pub struct DigestDto {
    pub algorithm: String,
    pub value: String,
    pub elapsed_time: u128,
}

/// Mathematical view of a `DigestDto`.
#[verifier::ext_equal]
pub ghost struct FpView {
    pub algorithm: Seq<char>,
    pub value: Seq<char>,
    pub elapsed_time: u128,
}

impl View for DigestDto {
    type V = FpView;

    open spec fn view(&self) -> FpView {
        FpView {
            algorithm: self.algorithm@,
            value: self.value@,
            elapsed_time: self.elapsed_time,
        }
    }
}

/// Immutable description of one discovered filesystem entry, plus the
/// perceptual fingerprints of images that were successfully hashed.
#[derive(Clone, Debug)]
pub struct FileMetadata {
    pub path: String,
    pub folder: Option<String>,
    pub name: String,
    pub is_dir: bool,
    pub size: u64,
    pub file_type: FileType,
    pub phash: Option<Vec<DigestDto>>,
}

/// Mathematical view of a `FileMetadata`.
#[verifier::ext_equal]
pub ghost struct RecView {
    pub path: Seq<char>,
    pub folder: Option<Seq<char>>,
    pub name: Seq<char>,
    pub is_dir: bool,
    pub size: u64,
    pub file_type: FileType,
    pub phash: Option<Seq<FpView>>,
}

impl View for FileMetadata {
    type V = RecView;

    open spec fn view(&self) -> RecView {
        RecView {
            path: self.path@,
            folder: match self.folder {
                Some(f) => Some(f@),
                None => None,
            },
            name: self.name@,
            is_dir: self.is_dir,
            size: self.size,
            file_type: self.file_type,
            phash: match self.phash {
                Some(v) => Some(v@.map_values(|d: DigestDto| d@)),
                None => None,
            },
        }
    }
}

/// The directory-index key of a record: its parent directory, or the root
/// marker for entries whose path carries no separator.
pub open spec fn dir_key_of(r: RecView) -> Seq<char> {
    match r.folder {
        Some(f) => f,
        None => "/"@,
    }
}

/// Count and accumulated size of the files of one media category.
#[derive(Clone, Copy, Debug)]
pub struct MediaInfoDto {
    pub count: u64,
    pub size: u64,
}

/// Result of the statistics-only walk: images and videos found under a root.
#[derive(Clone, Copy, Debug)]
pub struct AnalysisResponseDto {
    pub images: MediaInfoDto,
    pub videos: MediaInfoDto,
    pub elapsed_time: u128,
}

/// One filesystem entry as the surrounding program hands it to the engine:
/// the walker's data, the content digest (absent when digestion failed),
/// and the perceptual fingerprints (absent for non-images and for images
/// whose hashing failed).
#[derive(Clone, Debug)]
pub struct ScanEntry {
    pub path: String,
    pub is_dir: bool,
    pub size: u64,
    pub digest: Option<DigestDto>,
    pub phash: Option<Vec<DigestDto>>,
}

/// Mathematical view of a `ScanEntry`.
#[verifier::ext_equal]
pub ghost struct EntryView {
    pub path: Seq<char>,
    pub is_dir: bool,
    pub size: u64,
    pub digest: Option<FpView>,
    pub phash: Option<Seq<FpView>>,
}

impl View for ScanEntry {
    type V = EntryView;

    open spec fn view(&self) -> EntryView {
        EntryView {
            path: self.path@,
            is_dir: self.is_dir,
            size: self.size,
            digest: match self.digest {
                Some(d) => Some(d@),
                None => None,
            },
            phash: match self.phash {
                Some(v) => Some(v@.map_values(|d: DigestDto| d@)),
                None => None,
            },
        }
    }
}

/// An exact-duplicate group: every member shares the keying content digest.
#[derive(Clone, Debug)]
pub struct DuplicateGroup {
    pub digest: String,
    pub members: Vec<FileMetadata>,
}

impl View for DuplicateGroup {
    type V = (Seq<char>, Seq<RecView>);

    open spec fn view(&self) -> (Seq<char>, Seq<RecView>) {
        (self.digest@, self.members@.map_values(|m: FileMetadata| m@))
    }
}

impl DigestDto {
    /// A copy that provably equals the original.
    pub fn duplicate(&self) -> (r: DigestDto)
        ensures
            r == *self,
    {
        DigestDto {
            algorithm: self.algorithm.clone(),
            value: self.value.clone(),
            elapsed_time: self.elapsed_time,
        }
    }
}

/// An elementwise copy of a fingerprint list that provably equals it.
pub fn duplicate_digests(v: &Vec<DigestDto>) -> (r: Vec<DigestDto>)
    ensures
        r@ =~= v@,
{
    let mut r: Vec<DigestDto> = Vec::new();
    let mut i: usize = 0;
    while i < v.len()
        invariant
            i <= v@.len(),
            r@ =~= v@.subrange(0, i as int),
        decreases v@.len() - i,
    {
        r.push(v[i].duplicate());
        assert(r@ =~= v@.subrange(0, i + 1));
        i += 1;
    }
    r
}

impl FileMetadata {
    /// A copy whose view provably equals the original's. The two indexes
    /// each hold one such copy of every registered record, in place of one
    /// shared reference-counted handle; records are never mutated after
    /// insertion, so the copies cannot diverge.
    pub fn duplicate(&self) -> (r: FileMetadata)
        ensures
            r@ == self@,
    {
        let r = FileMetadata {
            path: self.path.clone(),
            folder: match &self.folder {
                Some(f) => Some(f.clone()),
                None => None,
            },
            name: self.name.clone(),
            is_dir: self.is_dir,
            size: self.size,
            file_type: self.file_type,
            phash: match &self.phash {
                Some(v) => Some(duplicate_digests(v)),
                None => None,
            },
        };
        proof {
            assert(r@ =~= self@);
        }
        r
    }
}

/// One reported comparison of two same-directory files: the fingerprint
/// algorithm and the perceptual distance at one fingerprint position, or
/// an absent distance when a stored fingerprint could not be decoded.
#[derive(Clone, Debug)]
pub struct NearDuplicateObservation {
    pub directory: String,
    pub a_name: String,
    pub b_name: String,
    pub algorithm: String,
    pub distance: Option<u32>,
}

/// Mathematical view of a `NearDuplicateObservation`.
#[verifier::ext_equal]
pub ghost struct ObsView {
    pub directory: Seq<char>,
    pub a_name: Seq<char>,
    pub b_name: Seq<char>,
    pub algorithm: Seq<char>,
    pub distance: Option<u32>,
}

impl View for NearDuplicateObservation {
    type V = ObsView;

    open spec fn view(&self) -> ObsView {
        ObsView {
            directory: self.directory@,
            a_name: self.a_name@,
            b_name: self.b_name@,
            algorithm: self.algorithm@,
            distance: self.distance,
        }
    }
}

/// The full result of a duplicate-detection scan.
#[derive(Clone, Debug)]
pub struct AnalysisReport {
    pub images: MediaInfoDto,
    pub videos: MediaInfoDto,
    pub other: MediaInfoDto,
    pub elapsed_time: u128,
    pub duplicate_groups: Vec<DuplicateGroup>,
    pub near_duplicates: Vec<NearDuplicateObservation>,
    pub approx_memory: u128,
}

/// Fatal validation errors: anything else that goes wrong during a scan is
/// absorbed per file and degrades the result instead of aborting it.
#[derive(Clone, Copy, Debug, PartialEq, Eq, Structural)]
pub enum MediaError {
    /// The root path does not exist or is not a directory.
    InvalidRoot,
    /// The media-type selector is none of `all`, `images`, `video`.
    InvalidMediaType,
}

/// The resolved media-type selector: which suffix patterns pass the walk
/// filter.
#[derive(Clone, Copy, Debug, PartialEq, Eq, Structural)]
pub enum MediaFilter {
    All,
    Images,
    Video,
}

} // verus!
