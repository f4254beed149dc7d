//! Media classification: one authoritative suffix table per category, the
//! pure classifier built on it, and the resolution of the media-type
//! selector to a walk filter.
use vstd::prelude::*;
use vstd::string::StrSliceExecFns;
use crate::model::{FileType, MediaError, MediaFilter};

verus! {

/// `s` ends with the characters of `suffix`.
pub open spec fn has_suffix(s: Seq<char>, suffix: Seq<char>) -> bool {
    s.len() >= suffix.len() && s.subrange(s.len() - suffix.len(), s.len() as int)
        == suffix
}

/// The image suffix table: gif, jpg, jpeg, bmp, png.
pub open spec fn is_image_path(s: Seq<char>) -> bool {
    ||| has_suffix(s, ".gif"@)
    ||| has_suffix(s, ".jpg"@)
    ||| has_suffix(s, ".jpeg"@)
    ||| has_suffix(s, ".bmp"@)
    ||| has_suffix(s, ".png"@)
}

/// The video suffix table: mpg, avi, mp4.
pub open spec fn is_video_path(s: Seq<char>) -> bool {
    ||| has_suffix(s, ".mpg"@)
    ||| has_suffix(s, ".avi"@)
    ||| has_suffix(s, ".mp4"@)
}

/// The media category of a path: images win over videos, everything that
/// matches neither table is `OTHER`. Matching is case-sensitive.
pub open spec fn classify_spec(s: Seq<char>) -> FileType {
    if is_image_path(s) {
        FileType::IMAGE
    } else if is_video_path(s) {
        FileType::VIDEO
    } else {
        FileType::OTHER
    }
}

/// Which paths pass the walk filter under a resolved media-type selector.
pub open spec fn matches_filter_spec(s: Seq<char>, f: MediaFilter) -> bool {
    match f {
        MediaFilter::All => is_image_path(s) || is_video_path(s),
        MediaFilter::Images => is_image_path(s),
        MediaFilter::Video => is_video_path(s),
    }
}

/// The resolved filter of a media-type selector, or `None` for an
/// unrecognized selector.
pub open spec fn filter_of(m: Seq<char>) -> Option<MediaFilter> {
    if m == "all"@ {
        Some(MediaFilter::All)
    } else if m == "images"@ {
        Some(MediaFilter::Images)
    } else if m == "video"@ {
        Some(MediaFilter::Video)
    } else {
        None
    }
}

/// Character-for-character string equality.
pub fn str_eq(a: &str, b: &str) -> (r: bool)
    ensures
        r == (a@ == b@),
{
    let n = a.unicode_len();
    let m = b.unicode_len();
    if n != m {
        assert(a@ != b@) by {
            assert(a@.len() != b@.len());
        }
        return false;
    }
    let mut i: usize = 0;
    while i < n
        invariant
            n == a@.len(),
            n == b@.len(),
            i <= n,
            forall|j: int| 0 <= j < i ==> a@[j] == b@[j],
        decreases n - i,
    {
        if a.get_char(i) != b.get_char(i) {
            return false;
        }
        i += 1;
    }
    proof {
        assert(a@ =~= b@);
    }
    true
}

/// Does `s` end with `suffix`, character for character?
pub fn ends_with(s: &str, suffix: &str) -> (r: bool)
    ensures
        r == has_suffix(s@, suffix@),
{
    let n = s.unicode_len();
    let m = suffix.unicode_len();
    if m > n {
        return false;
    }
    let mut i: usize = 0;
    while i < m
        invariant
            n == s@.len(),
            m == suffix@.len(),
            m <= n,
            i <= m,
            forall|j: int| 0 <= j < i ==> s@[n - m + j] == suffix@[j],
        decreases m - i,
    {
        if s.get_char(n - m + i) != suffix.get_char(i) {
            return false;
        }
        i += 1;
    }
    proof {
        assert(s@.subrange(s@.len() - suffix@.len(), s@.len() as int) =~= suffix@);
    }
    true
}

/// Is the path an image by the suffix table?
pub fn is_image(path: &str) -> (r: bool)
    ensures
        r == is_image_path(path@),
{
    ends_with(path, ".gif") || ends_with(path, ".jpg") || ends_with(path, ".jpeg")
        || ends_with(path, ".bmp") || ends_with(path, ".png")
}

/// Is the path a video by the suffix table?
pub fn is_video(path: &str) -> (r: bool)
    ensures
        r == is_video_path(path@),
{
    ends_with(path, ".mpg") || ends_with(path, ".avi") || ends_with(path, ".mp4")
}

/// Map a path to its media category by matching its suffix against the
/// fixed pattern tables. Pure, no error cases.
pub fn classify(path: &str) -> (r: FileType)
    ensures
        r == classify_spec(path@),
{
    if is_image(path) {
        FileType::IMAGE
    } else if is_video(path) {
        FileType::VIDEO
    } else {
        FileType::OTHER
    }
}

/// Does the path pass the walk filter of a resolved selector?
pub fn matches_filter(path: &str, f: MediaFilter) -> (r: bool)
    ensures
        r == matches_filter_spec(path@, f),
{
    match f {
        MediaFilter::All => is_image(path) || is_video(path),
        MediaFilter::Images => is_image(path),
        MediaFilter::Video => is_video(path),
    }
}

/// Resolve the media-type selector: `all`, `images` or `video`; anything
/// else is a configuration error that stops a scan before it starts.
pub fn validate_media_type(media_type: &str) -> (r: Result<MediaFilter, MediaError>)
    ensures
        r == match filter_of(media_type@) {
            Some(f) => Ok::<MediaFilter, MediaError>(f),
            None => Err::<MediaFilter, MediaError>(MediaError::InvalidMediaType),
        },
{
    if str_eq(media_type, "all") {
        Ok(MediaFilter::All)
    } else if str_eq(media_type, "images") {
        Ok(MediaFilter::Images)
    } else if str_eq(media_type, "video") {
        Ok(MediaFilter::Video)
    } else {
        Err(MediaError::InvalidMediaType)
    }
}

} // verus!
