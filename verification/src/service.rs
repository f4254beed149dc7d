//! The scan orchestrator: builds one record per walked entry, registers it
//! in the digest-keyed and the directory-keyed index, accumulates the
//! per-category counters, and assembles the final report.
use vstd::prelude::*;
use vstd::string::StrSliceExecFns;
use crate::classify::{classify, classify_spec, matches_filter, matches_filter_spec,
    filter_of, validate_media_type};
use crate::compare::{near_duplicates, obs_all};
use crate::index::{index_after, lemma_index_after_facts, dup_groups_spec, total_records,
    wf_index, GroupIndex, IndexView};
use crate::model::{AnalysisReport, AnalysisResponseDto, DigestDto, DuplicateGroup,
    EntryView, FileMetadata, FileType, MediaError, MediaFilter, MediaInfoDto,
    NearDuplicateObservation, RecView, ScanEntry, duplicate_digests, dir_key_of};

verus! {

/// Index of the last path separator in `s`, or -1 when there is none.
pub open spec fn last_slash(s: Seq<char>) -> int
    decreases s.len(),
{
    if s.len() == 0 {
        -1
    } else if s.last() == '/' {
        s.len() - 1
    } else {
        last_slash(s.drop_last())
    }
}

/// The parent-directory part of a path, separator included; absent for a
/// path without separator.
pub open spec fn folder_spec(s: Seq<char>) -> Option<Seq<char>> {
    if last_slash(s) >= 0 {
        Some(s.subrange(0, last_slash(s) + 1))
    } else {
        None
    }
}

/// The base-name part of a path: everything after the last separator.
pub open spec fn name_spec(s: Seq<char>) -> Seq<char> {
    s.subrange(last_slash(s) + 1, s.len() as int)
}

/// A separator with none after it is the last one.
proof fn lemma_last_slash_at(s: Seq<char>, p: int)
    requires
        0 <= p < s.len(),
        s[p] == '/',
        forall|j: int| p < j < s.len() ==> s[j] != '/',
    ensures
        last_slash(s) == p,
    decreases s.len(),
{
    if s.last() == '/' {
        assert(p == s.len() - 1);
    } else {
        assert(p < s.len() - 1);
        assert(forall|j: int| 0 <= j < s.len() - 1 ==> s[j] == s.drop_last()[j]);
        lemma_last_slash_at(s.drop_last(), p);
    }
}

/// A path without separators has no last one.
proof fn lemma_no_slash(s: Seq<char>)
    requires
        forall|j: int| 0 <= j < s.len() ==> s[j] != '/',
    ensures
        last_slash(s) == -1,
    decreases s.len(),
{
    if s.len() > 0 {
        assert(forall|j: int| 0 <= j < s.len() - 1 ==> s[j] == s.drop_last()[j]);
        lemma_no_slash(s.drop_last());
    }
}

/// Split a path at its last separator into parent directory (separator
/// included) and base name, as the records store them.
pub fn split_path(path: &str) -> (r: (Option<String>, String))
    ensures
        (r.0 is Some) == (folder_spec(path@) is Some),
        r.0 matches Some(f) ==> Some(f@) == folder_spec(path@),
        r.1@ == name_spec(path@),
{
    let n = path.unicode_len();
    let mut i: usize = n;
    while i > 0
        invariant
            i <= n,
            n == path@.len(),
            forall|j: int| i <= j < n ==> path@[j] != '/',
        decreases i,
    {
        if path.get_char(i - 1) == '/' {
            proof {
                lemma_last_slash_at(path@, i - 1);
            }
            let folder = path.substring_char(0, i).to_owned();
            let name = path.substring_char(i, n).to_owned();
            return (Some(folder), name);
        }
        i -= 1;
    }
    proof {
        lemma_no_slash(path@);
        assert(name_spec(path@) =~= path@);
    }
    (None, path.to_owned())
}

/// The record built for a walked entry before fingerprints are attached.
pub open spec fn meta_spec(path: Seq<char>, is_dir: bool, size: u64) -> RecView {
    RecView {
        path: path,
        folder: folder_spec(path),
        name: name_spec(path),
        is_dir: is_dir,
        size: size,
        file_type: classify_spec(path),
        phash: None,
    }
}

/// Describe one walked entry: split its path, classify it, record its size.
/// Fingerprints are attached separately.
pub fn get_file_metadata(path: &str, is_dir: bool, size: u64) -> (r: FileMetadata)
    ensures
        r@ == meta_spec(path@, is_dir, size),
{
    let (folder, name) = split_path(path);
    let file_type = classify(path);
    let r = FileMetadata {
        path: path.to_owned(),
        folder,
        name,
        is_dir,
        size,
        file_type,
        phash: None,
    };
    proof {
        assert(r@ =~~= meta_spec(path@, is_dir, size));
    }
    r
}

/// The record that a processed entry contributes to both indexes:
/// fingerprints are kept only for images, exactly as the hasher is only
/// consulted for images.
pub open spec fn record_of_entry(e: EntryView) -> RecView {
    RecView {
        phash: if classify_spec(e.path) == FileType::IMAGE {
            e.phash
        } else {
            None
        },
        ..meta_spec(e.path, e.is_dir, e.size)
    }
}

/// An entry contributes to the scan exactly when it is a file, passes the
/// walk filter, and was successfully digested.
pub open spec fn entry_processed(e: EntryView, f: MediaFilter) -> bool {
    &&& !e.is_dir
    &&& matches_filter_spec(e.path, f)
    &&& e.digest is Some
}

/// Everything a scan accumulates, as one mathematical value.
#[verifier::ext_equal]
pub ghost struct ScanState {
    pub digests: IndexView,
    pub dirs: IndexView,
    pub images_count: int,
    pub images_size: int,
    pub videos_count: int,
    pub videos_size: int,
    pub other_count: int,
    pub other_size: int,
}

/// The state before any entry was processed.
pub open spec fn init_state() -> ScanState {
    ScanState {
        digests: Seq::empty(),
        dirs: Seq::empty(),
        images_count: 0,
        images_size: 0,
        videos_count: 0,
        videos_size: 0,
        other_count: 0,
        other_size: 0,
    }
}

/// What processing one entry does to the scan state: nothing for skipped
/// entries; otherwise the entry's record joins the group of its digest and
/// the group of its directory, and its category's counters grow.
pub open spec fn step_state(s: ScanState, e: EntryView, f: MediaFilter) -> ScanState {
    if !entry_processed(e, f) {
        s
    } else {
        let r = record_of_entry(e);
        ScanState {
            digests: index_after(s.digests, e.digest->0.value, r),
            dirs: index_after(s.dirs, dir_key_of(r), r),
            images_count: s.images_count
                + (if r.file_type == FileType::IMAGE { 1int } else { 0int }),
            images_size: s.images_size
                + (if r.file_type == FileType::IMAGE { e.size as int } else { 0int }),
            videos_count: s.videos_count
                + (if r.file_type == FileType::VIDEO { 1int } else { 0int }),
            videos_size: s.videos_size
                + (if r.file_type == FileType::VIDEO { e.size as int } else { 0int }),
            other_count: s.other_count
                + (if r.file_type == FileType::OTHER { 1int } else { 0int }),
            other_size: s.other_size
                + (if r.file_type == FileType::OTHER { e.size as int } else { 0int }),
        }
    }
}

/// The state after processing a whole entry sequence in order.
pub open spec fn fold_scan(es: Seq<EntryView>, f: MediaFilter) -> ScanState
    decreases es.len(),
{
    if es.len() == 0 {
        init_state()
    } else {
        step_state(fold_scan(es.drop_last(), f), es.last(), f)
    }
}

/// The views of a vector of entries.
pub open spec fn entry_views(es: Seq<ScanEntry>) -> Seq<EntryView> {
    es.map_values(|e: ScanEntry| e@)
}

/// The duplicate-detection engine: one instance per scan, owning both
/// indexes and the per-category counters for the scan's duration.
pub struct DefaultMediaService {
    pub path: String,
    pub verbose: bool,
    pub store_hash_map: GroupIndex,
    pub directory_map: GroupIndex,
    pub images_count: u64,
    pub images_size: u64,
    pub videos_count: u64,
    pub videos_size: u64,
    pub other_count: u64,
    pub other_size: u64,
}

/// The mathematical content of a service's mutable scan state.
pub open spec fn scan_state_of(s: &DefaultMediaService) -> ScanState {
    ScanState {
        digests: s.store_hash_map@,
        dirs: s.directory_map@,
        images_count: s.images_count as int,
        images_size: s.images_size as int,
        videos_count: s.videos_count as int,
        videos_size: s.videos_size as int,
        other_count: s.other_count as int,
        other_size: s.other_size as int,
    }
}

impl DefaultMediaService {
    pub open spec fn wf(&self) -> bool {
        &&& self.store_hash_map.wf()
        &&& self.directory_map.wf()
    }

    /// A fresh engine for one scan of `folder`.
    pub fn new(folder: &str, verbose: bool) -> (r: DefaultMediaService)
        ensures
            r.path@ == folder@,
            r.verbose == verbose,
            scan_state_of(&r) =~~= init_state(),
            r.wf(),
    {
        DefaultMediaService {
            path: folder.to_owned(),
            verbose,
            store_hash_map: GroupIndex::new(),
            directory_map: GroupIndex::new(),
            images_count: 0,
            images_size: 0,
            videos_count: 0,
            videos_size: 0,
            other_count: 0,
            other_size: 0,
        }
    }

    /// Process one walked entry: skip directories, entries outside the
    /// filter, and entries whose digestion failed; register everything
    /// else in both indexes and count it under its category.
    pub fn process_entry(&mut self, e: &ScanEntry, f: MediaFilter)
        requires
            old(self).wf(),
            old(self).images_count + old(self).videos_count + old(self).other_count
                < u64::MAX,
            old(self).images_size + old(self).videos_size + old(self).other_size + e.size
                <= u64::MAX,
        ensures
            final(self).wf(),
            scan_state_of(final(self)) =~~= step_state(scan_state_of(old(self)), e@, f),
            final(self).path == old(self).path,
            final(self).verbose == old(self).verbose,
    {
        if e.is_dir {
            return;
        }
        if !matches_filter(e.path.as_str(), f) {
            return;
        }
        let digest = match &e.digest {
            None => {
                return;
            },
            Some(d) => d,
        };
        let base = get_file_metadata(e.path.as_str(), e.is_dir, e.size);
        let phash: Option<Vec<DigestDto>> = match (&base.file_type, &e.phash) {
            (FileType::IMAGE, Some(v)) => Some(duplicate_digests(v)),
            _ => None,
        };
        let rec = FileMetadata { phash, ..base };
        proof {
            assert(rec@ =~~= record_of_entry(e@));
        }
        let ghost rv = rec@;
        let dir_key: String = match &rec.folder {
            Some(d) => d.clone(),
            None => "/".to_owned(),
        };
        proof {
            assert(dir_key@ == dir_key_of(rv));
        }
        let rec2 = rec.duplicate();
        let category = rec.file_type;
        let key = digest.value.clone();
        self.store_hash_map.record(key, rec);
        self.directory_map.record(dir_key, rec2);
        match category {
            FileType::IMAGE => {
                self.images_count = self.images_count + 1;
                self.images_size = self.images_size + e.size;
            },
            FileType::VIDEO => {
                self.videos_count = self.videos_count + 1;
                self.videos_size = self.videos_size + e.size;
            },
            FileType::OTHER => {
                self.other_count = self.other_count + 1;
                self.other_size = self.other_size + e.size;
            },
        }
        proof {
            assert(scan_state_of(self) =~~= step_state(scan_state_of(old(self)), e@, f));
        }
    }
}


/// Sum of the sizes of all entries, processed or not.
pub open spec fn sum_sizes(es: Seq<EntryView>) -> int
    decreases es.len(),
{
    if es.len() == 0 {
        0
    } else {
        sum_sizes(es.drop_last()) + es.last().size
    }
}

/// A prefix never weighs more than the whole.
proof fn lemma_sum_sizes_prefix(es: Seq<EntryView>, i: int)
    requires
        0 <= i <= es.len(),
    ensures
        sum_sizes(es.take(i)) <= sum_sizes(es),
    decreases es.len() - i,
{
    if i < es.len() {
        lemma_sum_sizes_prefix(es, i + 1);
        assert(es.take(i + 1).drop_last() =~= es.take(i));
        assert(es.take(i + 1).last() == es[i]);
    } else {
        assert(es.take(i) =~= es);
    }
}

/// Bounds and bookkeeping of the scan fold: counters never exceed the
/// entry count and total size, both indexes stay well-formed, and each
/// holds exactly one record per processed entry.
pub proof fn lemma_fold_bounds(es: Seq<EntryView>, f: MediaFilter)
    ensures
        0 <= fold_scan(es, f).images_count,
        0 <= fold_scan(es, f).videos_count,
        0 <= fold_scan(es, f).other_count,
        0 <= fold_scan(es, f).images_size,
        0 <= fold_scan(es, f).videos_size,
        0 <= fold_scan(es, f).other_size,
        fold_scan(es, f).images_count + fold_scan(es, f).videos_count + fold_scan(
            es,
            f,
        ).other_count <= es.len(),
        fold_scan(es, f).images_size + fold_scan(es, f).videos_size + fold_scan(
            es,
            f,
        ).other_size <= sum_sizes(es),
        wf_index(fold_scan(es, f).digests),
        wf_index(fold_scan(es, f).dirs),
        total_records(fold_scan(es, f).digests) == fold_scan(es, f).images_count
            + fold_scan(es, f).videos_count + fold_scan(es, f).other_count,
        total_records(fold_scan(es, f).dirs) == fold_scan(es, f).images_count + fold_scan(
            es,
            f,
        ).videos_count + fold_scan(es, f).other_count,
    decreases es.len(),
{
    if es.len() > 0 {
        lemma_fold_bounds(es.drop_last(), f);
        let st0 = fold_scan(es.drop_last(), f);
        let e = es.last();
        if entry_processed(e, f) {
            let r = record_of_entry(e);
            lemma_index_after_facts(st0.digests, e.digest->0.value, r);
            lemma_index_after_facts(st0.dirs, dir_key_of(r), r);
        }
    }
}

/// Estimated handle footprint of one shared record, in bytes.
pub const RECORD_HANDLE_BYTES: u64 = 8;

/// Estimated footprint of one record's fields, in bytes.
pub const RECORD_BYTES: u64 = 112;

/// Estimated footprint of one stored key string, in bytes.
pub const STRING_BYTES: u64 = 24;

/// The diagnostic memory estimate: per-record footprints times the number
/// of records, plus one key string per record and per extra duplicate.
pub open spec fn mem_estimate(count: int, extra: int) -> int {
    count * ((RECORD_HANDLE_BYTES + RECORD_BYTES) as int) + (STRING_BYTES as int) * count
        + (STRING_BYTES as int) * extra
}

/// Everything the report promises about a finished scan's state.
pub open spec fn report_matches(rep: AnalysisReport, st: ScanState, elapsed_ms: u128) -> bool {
    &&& rep.images.count == st.images_count
    &&& rep.images.size == st.images_size
    &&& rep.videos.count == st.videos_count
    &&& rep.videos.size == st.videos_size
    &&& rep.other.count == st.other_count
    &&& rep.other.size == st.other_size
    &&& rep.elapsed_time == elapsed_ms
    &&& rep.duplicate_groups@.map_values(|g: DuplicateGroup| g@) == dup_groups_spec(
        st.digests,
    )
    &&& rep.near_duplicates@.map_values(|o: NearDuplicateObservation| o@) == obs_all(st.dirs)
    &&& rep.approx_memory == mem_estimate(
        st.images_count + st.videos_count + st.other_count,
        total_records(st.digests) - st.digests.len(),
    )
}

/// Count of entries of one category seen by the statistics walk: files
/// only, judged by the suffix tables.
pub open spec fn info_count(es: Seq<EntryView>, cat: FileType) -> int
    decreases es.len(),
{
    if es.len() == 0 {
        0
    } else {
        info_count(es.drop_last(), cat) + (if !es.last().is_dir && classify_spec(
            es.last().path,
        ) == cat {
            1int
        } else {
            0int
        })
    }
}

/// Accumulated size of the entries counted by `info_count`.
pub open spec fn info_size(es: Seq<EntryView>, cat: FileType) -> int
    decreases es.len(),
{
    if es.len() == 0 {
        0
    } else {
        info_size(es.drop_last(), cat) + (if !es.last().is_dir && classify_spec(
            es.last().path,
        ) == cat {
            es.last().size as int
        } else {
            0int
        })
    }
}

impl DefaultMediaService {
    /// Run a whole scan over the walked entries: validate the root and the
    /// media-type selector, register every processed entry in both
    /// indexes, and assemble the report of duplicate groups, near
    /// duplicates, per-category counters and the memory estimate.
    pub fn analyze_folder(
        &mut self,
        root_is_dir: bool,
        media_type: &str,
        entries: &Vec<ScanEntry>,
        elapsed_ms: u128,
    ) -> (r: Result<AnalysisReport, MediaError>)
        requires
            old(self).wf(),
            scan_state_of(old(self)) == init_state(),
            sum_sizes(entry_views(entries@)) <= u64::MAX,
            entries@.len() < u64::MAX,
        ensures
            final(self).wf(),
            !root_is_dir ==> (r == Err::<AnalysisReport, MediaError>(MediaError::InvalidRoot)
                && *final(self) == *old(self)),
            root_is_dir && filter_of(media_type@) is None ==> (r == Err::<
                AnalysisReport,
                MediaError,
            >(MediaError::InvalidMediaType) && *final(self) == *old(self)),
            root_is_dir ==> (filter_of(media_type@) matches Some(f) ==> ({
                &&& scan_state_of(final(self)) =~~= fold_scan(entry_views(entries@), f)
                &&& r matches Ok(rep) && report_matches(
                    rep,
                    fold_scan(entry_views(entries@), f),
                    elapsed_ms,
                )
            })),
    {
        if !root_is_dir {
            return Err(MediaError::InvalidRoot);
        }
        let filter = match validate_media_type(media_type) {
            Ok(filter) => filter,
            Err(e) => {
                return Err(e);
            },
        };
        let ghost f = filter;
        let ghost evs = entry_views(entries@);
        let n = entries.len();
        let mut i: usize = 0;
        while i < n
            invariant
                n == entries@.len(),
                i <= n,
                evs == entry_views(entries@),
                evs.len() == entries@.len(),
                filter == f,
                sum_sizes(evs) <= u64::MAX,
                entries@.len() < u64::MAX,
                self.wf(),
                scan_state_of(self) =~~= fold_scan(evs.take(i as int), f),
            decreases n - i,
        {
            let ghost st0 = fold_scan(evs.take(i as int), f);
            proof {
                assert(entries@[i as int]@ == evs[i as int]);
                lemma_fold_bounds(evs.take(i as int), f);
                assert(evs.take(i as int).len() == i);
                lemma_sum_sizes_prefix(evs, i + 1);
                assert(evs.take(i + 1).drop_last() =~= evs.take(i as int));
                assert(evs.take(i + 1).last() == evs[i as int]);
                assert(sum_sizes(evs.take(i + 1)) == sum_sizes(evs.take(i as int))
                    + evs[i as int].size);
            }
            let e = &entries[i];
            self.process_entry(e, filter);
            proof {
                assert(scan_state_of(self) =~~= step_state(st0, evs[i as int], f));
                assert(fold_scan(evs.take(i + 1), f) == step_state(st0, evs[i as int], f));
            }
            i += 1;
        }
        proof {
            assert(evs.take(n as int) =~= evs);
        }
        let ghost st = fold_scan(evs, f);
        proof {
            lemma_fold_bounds(evs, f);
        }
        let duplicate_groups = self.store_hash_map.duplicate_groups();
        let near = near_duplicates(&self.directory_map);
        let dups_counter = self.store_hash_map.extra_records();
        let count_total = self.images_count + self.videos_count + self.other_count;
        proof {
            let c = count_total as int;
            let d = dups_counter as int;
            assert(0 <= c * 120 && 0 <= 24 * c && 0 <= 24 * d && c * 120 + 24 * c + 24 * d
                < u128::MAX) by (nonlinear_arith)
                requires
                    0 <= c < 0x10000000000000000,
                    0 <= d < 0x10000000000000000,
            ;
        }
        let approx: u128 = (count_total as u128) * ((RECORD_HANDLE_BYTES + RECORD_BYTES)
            as u128) + (STRING_BYTES as u128) * (count_total as u128) + (STRING_BYTES
            as u128) * (dups_counter as u128);
        let report = AnalysisReport {
            images: MediaInfoDto { count: self.images_count, size: self.images_size },
            videos: MediaInfoDto { count: self.videos_count, size: self.videos_size },
            other: MediaInfoDto { count: self.other_count, size: self.other_size },
            elapsed_time: elapsed_ms,
            duplicate_groups,
            near_duplicates: near,
            approx_memory: approx,
        };
        Ok(report)
    }

    /// Count images and videos under the root: file count and accumulated
    /// size per category, plus the elapsed time the caller measured.
    pub fn get_info(
        &self,
        root_is_dir: bool,
        entries: &Vec<ScanEntry>,
        elapsed_ms: u128,
    ) -> (r: Result<AnalysisResponseDto, MediaError>)
        requires
            sum_sizes(entry_views(entries@)) <= u64::MAX,
            entries@.len() < u64::MAX,
        ensures
            !root_is_dir <==> r == Err::<AnalysisResponseDto, MediaError>(
                MediaError::InvalidRoot,
            ),
            root_is_dir ==> (r matches Ok(info) && {
                let evs = entry_views(entries@);
                &&& info.images.count == info_count(evs, FileType::IMAGE)
                &&& info.images.size == info_size(evs, FileType::IMAGE)
                &&& info.videos.count == info_count(evs, FileType::VIDEO)
                &&& info.videos.size == info_size(evs, FileType::VIDEO)
                &&& info.elapsed_time == elapsed_ms
            }),
    {
        if !root_is_dir {
            return Err(MediaError::InvalidRoot);
        }
        let ghost evs = entry_views(entries@);
        let mut images_count: u64 = 0;
        let mut images_size: u64 = 0;
        let mut videos_count: u64 = 0;
        let mut videos_size: u64 = 0;
        let n = entries.len();
        let mut i: usize = 0;
        while i < n
            invariant
                n == entries@.len(),
                i <= n,
                evs == entry_views(entries@),
                evs.len() == entries@.len(),
                sum_sizes(evs) <= u64::MAX,
                entries@.len() < u64::MAX,
                images_count == info_count(evs.take(i as int), FileType::IMAGE),
                images_size == info_size(evs.take(i as int), FileType::IMAGE),
                videos_count == info_count(evs.take(i as int), FileType::VIDEO),
                videos_size == info_size(evs.take(i as int), FileType::VIDEO),
                images_count + videos_count <= i,
                images_size + videos_size <= sum_sizes(evs.take(i as int)),
            decreases n - i,
        {
            proof {
                assert(entries@[i as int]@ == evs[i as int]);
                lemma_sum_sizes_prefix(evs, i + 1);
                assert(evs.take(i + 1).drop_last() =~= evs.take(i as int));
                assert(evs.take(i + 1).last() == evs[i as int]);
                assert(sum_sizes(evs.take(i + 1)) == sum_sizes(evs.take(i as int))
                    + evs[i as int].size);
            }
            let e = &entries[i];
            if !e.is_dir {
                match classify(e.path.as_str()) {
                    FileType::IMAGE => {
                        images_count = images_count + 1;
                        images_size = images_size + e.size;
                    },
                    FileType::VIDEO => {
                        videos_count = videos_count + 1;
                        videos_size = videos_size + e.size;
                    },
                    FileType::OTHER => {},
                }
            }
            i += 1;
        }
        proof {
            assert(evs.take(n as int) =~= evs);
        }
        Ok(AnalysisResponseDto {
            images: MediaInfoDto { count: images_count, size: images_size },
            videos: MediaInfoDto { count: videos_count, size: videos_size },
            elapsed_time: elapsed_ms,
        })
    }
}

} // verus!
