//! The engine's laws, each proved against the scan model: what the digest
//! groups of a finished scan hold, why near-duplicate comparison never
//! crosses a directory or pairs a file with itself, how the counters
//! relate to the processed entries, and that the scan is a function of
//! the walked entry sequence.
use vstd::prelude::*;
use crate::compare::{obs_all, obs_group, obs_pair, obs_row, obs_rows};
use crate::index::{group_of, lemma_index_after_facts, total_records, IndexView};
use crate::model::{dir_key_of, EntryView, MediaFilter, ObsView, RecView};
use crate::service::{entry_processed, fold_scan, lemma_fold_bounds, record_of_entry,
    scan_state_of, DefaultMediaService};

verus! {

/// The records contributed by the processed entries whose digest value is
/// `k`, in walk order.
pub open spec fn records_with_digest(
    es: Seq<EntryView>,
    f: MediaFilter,
    k: Seq<char>,
) -> Seq<RecView>
    decreases es.len(),
{
    if es.len() == 0 {
        Seq::empty()
    } else {
        records_with_digest(es.drop_last(), f, k) + (
        if entry_processed(es.last(), f) && es.last().digest->0.value == k {
            seq![record_of_entry(es.last())]
        } else {
            Seq::empty()
        })
    }
}

/// The records contributed by the processed entries whose directory key is
/// `k`, in walk order.
pub open spec fn records_with_dir(
    es: Seq<EntryView>,
    f: MediaFilter,
    k: Seq<char>,
) -> Seq<RecView>
    decreases es.len(),
{
    if es.len() == 0 {
        Seq::empty()
    } else {
        records_with_dir(es.drop_last(), f, k) + (
        if entry_processed(es.last(), f) && dir_key_of(record_of_entry(es.last())) == k {
            seq![record_of_entry(es.last())]
        } else {
            Seq::empty()
        })
    }
}

/// Exact-duplicate grouping, exhaustively: under every key, the digest
/// index of a finished scan holds exactly the records of the processed
/// entries with that digest value, in walk order.
pub proof fn lemma_digest_groups(es: Seq<EntryView>, f: MediaFilter)
    ensures
        forall|k: Seq<char>|
            group_of(fold_scan(es, f).digests, k) == records_with_digest(es, f, k),
    decreases es.len(),
{
    if es.len() == 0 {
        assert forall|k: Seq<char>|
            group_of(fold_scan(es, f).digests, k) == records_with_digest(es, f, k) by {
            assert(records_with_digest(es, f, k) =~= Seq::<RecView>::empty());
        }
    } else {
        lemma_digest_groups(es.drop_last(), f);
        lemma_fold_bounds(es.drop_last(), f);
        let st0 = fold_scan(es.drop_last(), f);
        let e = es.last();
        if entry_processed(e, f) {
            let r = record_of_entry(e);
            let d = e.digest->0.value;
            lemma_index_after_facts(st0.digests, d, r);
            assert forall|k: Seq<char>|
                group_of(fold_scan(es, f).digests, k) == records_with_digest(es, f, k) by {
                if k == d {
                    assert(records_with_digest(es, f, k) =~= records_with_digest(
                        es.drop_last(),
                        f,
                        k,
                    ).push(r));
                } else {
                    assert(records_with_digest(es, f, k) =~= records_with_digest(
                        es.drop_last(),
                        f,
                        k,
                    ));
                }
            }
        } else {
            assert forall|k: Seq<char>|
                group_of(fold_scan(es, f).digests, k) == records_with_digest(es, f, k) by {
                assert(records_with_digest(es, f, k) =~= records_with_digest(
                    es.drop_last(),
                    f,
                    k,
                ));
            }
        }
    }
}

/// Directory grouping, exhaustively: under every key, the directory index
/// of a finished scan holds exactly the records of the processed entries
/// whose parent directory is that key, in walk order.
pub proof fn lemma_dir_groups(es: Seq<EntryView>, f: MediaFilter)
    ensures
        forall|k: Seq<char>|
            group_of(fold_scan(es, f).dirs, k) == records_with_dir(es, f, k),
    decreases es.len(),
{
    if es.len() == 0 {
        assert forall|k: Seq<char>|
            group_of(fold_scan(es, f).dirs, k) == records_with_dir(es, f, k) by {
            assert(records_with_dir(es, f, k) =~= Seq::<RecView>::empty());
        }
    } else {
        lemma_dir_groups(es.drop_last(), f);
        lemma_fold_bounds(es.drop_last(), f);
        let st0 = fold_scan(es.drop_last(), f);
        let e = es.last();
        if entry_processed(e, f) {
            let r = record_of_entry(e);
            let d = dir_key_of(r);
            lemma_index_after_facts(st0.dirs, d, r);
            assert forall|k: Seq<char>|
                group_of(fold_scan(es, f).dirs, k) == records_with_dir(es, f, k) by {
                if k == d {
                    assert(records_with_dir(es, f, k) =~= records_with_dir(
                        es.drop_last(),
                        f,
                        k,
                    ).push(r));
                } else {
                    assert(records_with_dir(es, f, k) =~= records_with_dir(
                        es.drop_last(),
                        f,
                        k,
                    ));
                }
            }
        } else {
            assert forall|k: Seq<char>|
                group_of(fold_scan(es, f).dirs, k) == records_with_dir(es, f, k) by {
                assert(records_with_dir(es, f, k) =~= records_with_dir(es.drop_last(), f, k));
            }
        }
    }
}

/// A processed entry's record stands in the record list of its own key.
proof fn lemma_records_with_digest_contains(
    es: Seq<EntryView>,
    f: MediaFilter,
    k: Seq<char>,
    i: int,
)
    requires
        0 <= i < es.len(),
        entry_processed(es[i], f),
        es[i].digest->0.value == k,
    ensures
        records_with_digest(es, f, k).contains(record_of_entry(es[i])),
    decreases es.len(),
{
    let base = records_with_digest(es.drop_last(), f, k);
    let r = record_of_entry(es[i]);
    if i == es.len() - 1 {
        assert(records_with_digest(es, f, k)[base.len() as int] == r);
        assert(records_with_digest(es, f, k).contains(r));
    } else {
        assert(es.drop_last()[i] == es[i]);
        lemma_records_with_digest_contains(es.drop_last(), f, k, i);
        let idx = choose|idx: int| 0 <= idx < base.len() && base[idx] == r;
        assert(records_with_digest(es, f, k)[idx] == r);
        assert(records_with_digest(es, f, k).contains(r));
    }
}

/// Exact-duplicate correctness: every processed entry's record joins the
/// digest-index group keyed by its own digest value; two processed
/// entries with equal digest values therefore share one group, and two
/// with different digest values stand in groups with different keys.
pub proof fn lemma_exact_duplicate_grouping(
    es: Seq<EntryView>,
    f: MediaFilter,
    i1: int,
    i2: int,
)
    requires
        0 <= i1 < es.len(),
        0 <= i2 < es.len(),
        entry_processed(es[i1], f),
        entry_processed(es[i2], f),
    ensures
        group_of(fold_scan(es, f).digests, es[i1].digest->0.value).contains(
            record_of_entry(es[i1]),
        ),
        es[i1].digest->0.value == es[i2].digest->0.value ==> group_of(
            fold_scan(es, f).digests,
            es[i1].digest->0.value,
        ).contains(record_of_entry(es[i2])),
{
    lemma_digest_groups(es, f);
    lemma_records_with_digest_contains(es, f, es[i1].digest->0.value, i1);
    if es[i1].digest->0.value == es[i2].digest->0.value {
        lemma_records_with_digest_contains(es, f, es[i1].digest->0.value, i2);
    }
}

/// Every record grouped under a directory key has that key as its parent.
proof fn lemma_records_with_dir_key(es: Seq<EntryView>, f: MediaFilter, k: Seq<char>)
    ensures
        forall|j: int|
            0 <= j < records_with_dir(es, f, k).len() ==> dir_key_of(
                #[trigger] records_with_dir(es, f, k)[j],
            ) == k,
    decreases es.len(),
{
    if es.len() > 0 {
        lemma_records_with_dir_key(es.drop_last(), f, k);
        let base = records_with_dir(es.drop_last(), f, k);
        let whole = records_with_dir(es, f, k);
        assert forall|j: int|
            0 <= j < whole.len() implies dir_key_of(#[trigger] whole[j]) == k by {
            if j < base.len() {
                assert(whole[j] == base[j]);
            } else {
                assert(whole[j] == record_of_entry(es.last()));
            }
        }
    }
}

/// An observation names two (distinct-name) members of one group of the
/// index, the group keyed by the observation's directory.
pub open spec fn obs_in_group(es: IndexView, o: ObsView) -> bool {
    exists|g: int|
        0 <= g < es.len() && (#[trigger] es[g]).0 == o.directory && (exists|x: int|
            0 <= x < es[g].1.len() && (#[trigger] es[g].1[x]).name == o.a_name) && (
        exists|y: int| 0 <= y < es[g].1.len() && (#[trigger] es[g].1[y]).name == o.b_name)
}

/// Soundness of one comparison row: every observation of `a` against the
/// members names `a` and some member, and the two names differ.
proof fn lemma_obs_row_sound(dir: Seq<char>, a: RecView, members: Seq<RecView>)
    ensures
        forall|i: int|
            0 <= i < obs_row(dir, a, members).len() ==> {
                let o = #[trigger] obs_row(dir, a, members)[i];
                &&& o.directory == dir
                &&& o.a_name == a.name
                &&& exists|y: int|
                    0 <= y < members.len() && (#[trigger] members[y]).name == o.b_name
                &&& o.a_name != o.b_name
            },
    decreases members.len(),
{
    if members.len() > 0 {
        lemma_obs_row_sound(dir, a, members.drop_last());
        let base = obs_row(dir, a, members.drop_last());
        let tail = obs_pair(dir, a, members.last());
        assert forall|i: int| #![trigger obs_row(dir, a, members)[i]]
            0 <= i < obs_row(dir, a, members).len() implies {
            let o = obs_row(dir, a, members)[i];
            &&& o.directory == dir
            &&& o.a_name == a.name
            &&& exists|y: int|
                0 <= y < members.len() && (#[trigger] members[y]).name == o.b_name
            &&& o.a_name != o.b_name
        } by {
            let o = obs_row(dir, a, members)[i];
            if i < base.len() {
                assert(o == base[i]);
                let y = choose|y: int|
                    0 <= y < members.drop_last().len() && members.drop_last()[y].name
                        == o.b_name;
                assert(members[y].name == o.b_name);
            } else {
                assert(o == tail[i - base.len()]);
                assert(members[members.len() - 1].name == o.b_name);
            }
        }
    }
}

/// Soundness of the row stack: every observation of members compared so
/// far names two members of the group and never one name twice.
proof fn lemma_obs_rows_sound(dir: Seq<char>, sofar: Seq<RecView>, members: Seq<RecView>)
    requires
        forall|j: int| 0 <= j < sofar.len() ==> members.contains(#[trigger] sofar[j]),
    ensures
        forall|i: int|
            0 <= i < obs_rows(dir, sofar, members).len() ==> {
                let o = #[trigger] obs_rows(dir, sofar, members)[i];
                &&& o.directory == dir
                &&& exists|x: int|
                    0 <= x < members.len() && (#[trigger] members[x]).name == o.a_name
                &&& exists|y: int|
                    0 <= y < members.len() && (#[trigger] members[y]).name == o.b_name
                &&& o.a_name != o.b_name
            },
    decreases sofar.len(),
{
    if sofar.len() > 0 {
        assert(forall|j: int|
            0 <= j < sofar.len() - 1 ==> members.contains(#[trigger] sofar.drop_last()[j]));
        lemma_obs_rows_sound(dir, sofar.drop_last(), members);
        let a = sofar.last();
        lemma_obs_row_sound(dir, a, members);
        let base = obs_rows(dir, sofar.drop_last(), members);
        let tail = obs_row(dir, a, members);
        assert(members.contains(a));
        let xa = choose|x: int| 0 <= x < members.len() && members[x] == a;
        assert forall|i: int| #![trigger obs_rows(dir, sofar, members)[i]]
            0 <= i < obs_rows(dir, sofar, members).len() implies {
            let o = obs_rows(dir, sofar, members)[i];
            &&& o.directory == dir
            &&& exists|x: int|
                0 <= x < members.len() && (#[trigger] members[x]).name == o.a_name
            &&& exists|y: int|
                0 <= y < members.len() && (#[trigger] members[y]).name == o.b_name
            &&& o.a_name != o.b_name
        } by {
            let o = obs_rows(dir, sofar, members)[i];
            if i < base.len() {
                assert(o == base[i]);
            } else {
                assert(o == tail[i - base.len()]);
                assert(members[xa].name == o.a_name);
            }
        }
    }
}

/// Every near-duplicate observation arises inside one directory group:
/// its two names are names of members of the group keyed by its
/// directory, and they differ.
pub proof fn lemma_observations_scoped(es: IndexView)
    ensures
        forall|i: int|
            0 <= i < obs_all(es).len() ==> obs_in_group(es, #[trigger] obs_all(es)[i])
                && obs_all(es)[i].a_name != obs_all(es)[i].b_name,
    decreases es.len(),
{
    if es.len() > 0 {
        lemma_observations_scoped(es.drop_last());
        let base = obs_all(es.drop_last());
        let g = es.len() - 1;
        let dir = es[g].0;
        let members = es[g].1;
        assert(forall|j: int| 0 <= j < members.len() ==> members.contains(#[trigger] members[j]));
        lemma_obs_rows_sound(dir, members, members);
        let tail = obs_group(dir, members);
        assert forall|i: int|
            0 <= i < obs_all(es).len() implies obs_in_group(es, #[trigger] obs_all(es)[i])
                && obs_all(es)[i].a_name != obs_all(es)[i].b_name by {
            let o = obs_all(es)[i];
            if i < base.len() {
                assert(o == base[i]);
                assert(obs_in_group(es.drop_last(), o));
                let prev = es.drop_last();
                let g0 = choose|g0: int|
                    0 <= g0 < prev.len() && (#[trigger] prev[g0]).0 == o.directory && (
                    exists|x: int|
                        0 <= x < prev[g0].1.len() && (#[trigger] prev[g0].1[x]).name
                            == o.a_name) && (exists|y: int|
                        0 <= y < prev[g0].1.len() && (#[trigger] prev[g0].1[y]).name
                            == o.b_name);
                assert(es[g0] == prev[g0]);
                assert(obs_in_group(es, o));
            } else {
                assert(o == tail[i - base.len()]);
                assert(es[g].0 == o.directory);
                assert(obs_in_group(es, o));
            }
        }
    }
}

/// No observation pairs a file with itself: the two reported names always
/// differ.
pub proof fn lemma_self_exclusion(es: IndexView)
    ensures
        forall|i: int|
            0 <= i < obs_all(es).len() ==> (#[trigger] obs_all(es)[i]).a_name
                != obs_all(es)[i].b_name,
{
    lemma_observations_scoped(es);
}

/// Directory scoping: every observation of a finished scan names two
/// members of the directory group keyed by its directory, and every
/// record in that group really has that directory as its parent; two
/// files in different parent directories are therefore never paired.
pub proof fn lemma_directory_scoping(es: Seq<EntryView>, f: MediaFilter)
    ensures
        forall|i: int|
            0 <= i < obs_all(fold_scan(es, f).dirs).len() ==> obs_in_group(
                fold_scan(es, f).dirs,
                #[trigger] obs_all(fold_scan(es, f).dirs)[i],
            ) && obs_all(fold_scan(es, f).dirs)[i].a_name != obs_all(
                fold_scan(es, f).dirs,
            )[i].b_name,
        forall|k: Seq<char>, j: int|
            0 <= j < group_of(fold_scan(es, f).dirs, k).len() ==> dir_key_of(
                #[trigger] group_of(fold_scan(es, f).dirs, k)[j],
            ) == k,
{
    lemma_observations_scoped(fold_scan(es, f).dirs);
    lemma_dir_groups(es, f);
    assert forall|k: Seq<char>, j: int|
        0 <= j < group_of(fold_scan(es, f).dirs, k).len() implies dir_key_of(
        #[trigger] group_of(fold_scan(es, f).dirs, k)[j],
    ) == k by {
        lemma_records_with_dir_key(es, f, k);
        assert(group_of(fold_scan(es, f).dirs, k) == records_with_dir(es, f, k));
    }
}

/// How many entries a scan processes.
pub open spec fn processed_count(es: Seq<EntryView>, f: MediaFilter) -> int
    decreases es.len(),
{
    if es.len() == 0 {
        0
    } else {
        processed_count(es.drop_last(), f) + (if entry_processed(es.last(), f) {
            1int
        } else {
            0int
        })
    }
}

/// Count conservation: the per-category counts of a finished scan sum to
/// exactly the number of successfully digested, filter-matching file
/// entries — which is also the record total of the digest index.
pub proof fn lemma_count_conservation(es: Seq<EntryView>, f: MediaFilter)
    ensures
        fold_scan(es, f).images_count + fold_scan(es, f).videos_count + fold_scan(
            es,
            f,
        ).other_count == processed_count(es, f),
        total_records(fold_scan(es, f).digests) == processed_count(es, f),
    decreases es.len(),
{
    lemma_fold_bounds(es, f);
    if es.len() > 0 {
        lemma_count_conservation(es.drop_last(), f);
        lemma_fold_bounds(es.drop_last(), f);
        let st0 = fold_scan(es.drop_last(), f);
        if entry_processed(es.last(), f) {
            let r = record_of_entry(es.last());
            lemma_index_after_facts(st0.digests, es.last().digest->0.value, r);
        }
    }
}

/// The scan is a function of the walked entry sequence: two finished
/// scans of the same entries under the same filter hold identical digest
/// and directory indexes, counters included.
pub proof fn lemma_scan_deterministic(
    s1: &DefaultMediaService,
    s2: &DefaultMediaService,
    es: Seq<EntryView>,
    f: MediaFilter,
)
    requires
        scan_state_of(s1) == fold_scan(es, f),
        scan_state_of(s2) == fold_scan(es, f),
    ensures
        s1.store_hash_map@ == s2.store_hash_map@,
        s1.directory_map@ == s2.directory_map@,
        s1.images_count == s2.images_count,
        s1.videos_count == s2.videos_count,
        s1.other_count == s2.other_count,
{
}

} // verus!
