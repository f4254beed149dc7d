//! The grouping index: an append-only multimap from a string key to the
//! ordered list of file records registered under it. One instance keyed by
//! content digest yields the exact-duplicate groups; one keyed by parent
//! directory bounds the near-duplicate comparison.
use vstd::prelude::*;
use crate::model::{DuplicateGroup, FileMetadata, RecView};

verus! {

/// The mathematical model of an index: key/group pairs in insertion order
/// of the keys, each group in insertion order of its records.
pub type IndexView = Seq<(Seq<char>, Seq<RecView>)>;

/// Some pair carries this key.
pub open spec fn has_key(es: IndexView, k: Seq<char>) -> bool {
    exists|i: int| 0 <= i < es.len() && es[i].0 == k
}

/// The position of the pair carrying `k` (meaningful only under
/// `wf_index`, which makes it unique).
pub open spec fn key_index(es: IndexView, k: Seq<char>) -> int {
    choose|i: int| 0 <= i < es.len() && es[i].0 == k
}

/// The group registered under `k`; empty when no record was.
pub open spec fn group_of(es: IndexView, k: Seq<char>) -> Seq<RecView> {
    if has_key(es, k) {
        es[key_index(es, k)].1
    } else {
        Seq::empty()
    }
}

/// Well-formedness: every key occurs in one pair only, and a pair exists
/// only because a record was registered under its key.
pub open spec fn wf_index(es: IndexView) -> bool {
    &&& forall|i: int, j: int|
        0 <= i < es.len() && 0 <= j < es.len() && i != j ==> es[i].0 != es[j].0
    &&& forall|i: int| 0 <= i < es.len() ==> #[trigger] es[i].1.len() >= 1
}

/// Total number of records registered, over all groups.
pub open spec fn total_records(es: IndexView) -> nat
    decreases es.len(),
{
    if es.len() == 0 {
        0
    } else {
        total_records(es.drop_last()) + es.last().1.len()
    }
}

/// The groups holding two or more records, in index order: the
/// exact-duplicate sets when the index is keyed by content digest.
pub open spec fn dup_groups_spec(es: IndexView) -> IndexView
    decreases es.len(),
{
    if es.len() == 0 {
        Seq::empty()
    } else if es.last().1.len() >= 2 {
        dup_groups_spec(es.drop_last()).push(es.last())
    } else {
        dup_groups_spec(es.drop_last())
    }
}

/// The index after one registration of `r` under `k`: the group grows in
/// place, or a fresh singleton group is appended for a new key.
pub open spec fn index_after(es: IndexView, k: Seq<char>, r: RecView) -> IndexView {
    if has_key(es, k) {
        es.update(key_index(es, k), (k, group_of(es, k).push(r)))
    } else {
        es.push((k, seq![r]))
    }
}

/// What one registration does to a well-formed index, key by key.
pub proof fn lemma_index_after_facts(es: IndexView, k: Seq<char>, r: RecView)
    requires
        wf_index(es),
    ensures
        wf_index(index_after(es, k, r)),
        group_of(index_after(es, k, r), k) =~= group_of(es, k).push(r),
        forall|k2: Seq<char>|
            k2 != k ==> group_of(index_after(es, k, r), k2) == group_of(es, k2),
        forall|k2: Seq<char>|
            has_key(index_after(es, k, r), k2) <==> (has_key(es, k2) || k2 == k),
        total_records(index_after(es, k, r)) == total_records(es) + 1,
        index_after(es, k, r).len() == es.len() + (if has_key(es, k) { 0int } else { 1int }),
{
    let post = index_after(es, k, r);
    if has_key(es, k) {
        let i = key_index(es, k);
        assert(0 <= i < es.len() && es[i].0 == k);
        assert(wf_index(post));
        assert(has_key(post, k) && key_index(post, k) == i) by {
            assert(post[i].0 == k);
            let j = key_index(post, k);
            assert(0 <= j < post.len() && post[j].0 == k);
        }
        assert(group_of(post, k) =~= group_of(es, k).push(r));
        assert forall|k2: Seq<char>| k2 != k implies group_of(post, k2) == group_of(es, k2) by {
            lemma_group_unchanged_update(es, post, i, k2);
        }
        assert forall|k2: Seq<char>|
            has_key(post, k2) <==> (has_key(es, k2) || k2 == k) by {
            if has_key(es, k2) {
                let j = choose|j: int| 0 <= j < es.len() && es[j].0 == k2;
                assert(post[j].0 == k2);
            }
            if has_key(post, k2) {
                let j = choose|j: int| 0 <= j < post.len() && post[j].0 == k2;
                assert(es[j].0 == k2);
            }
            if k2 == k {
                assert(post[i].0 == k2);
            }
        }
        lemma_total_records_update(es, i, (k, group_of(es, k).push(r)));
    } else {
        assert(post =~~= es.push((k, seq![r])));
        assert(wf_index(post)) by {
            assert(forall|j: int| 0 <= j < es.len() ==> post[j] == es[j]);
        }
        assert(has_key(post, k) && key_index(post, k) == es.len() as int) by {
            assert(post[es.len() as int].0 == k);
            let j = key_index(post, k);
            assert(0 <= j < post.len() && post[j].0 == k);
            if j < es.len() {
                assert(es[j].0 == k);
                assert(has_key(es, k));
            }
        }
        assert(group_of(post, k) =~= group_of(es, k).push(r)) by {
            assert(group_of(es, k) =~= Seq::<RecView>::empty());
            assert(group_of(post, k) =~~= seq![r]);
        }
        assert forall|k2: Seq<char>| k2 != k implies group_of(post, k2) == group_of(es, k2) by {
            lemma_group_unchanged_push(es, post, k2);
        }
        assert forall|k2: Seq<char>|
            has_key(post, k2) <==> (has_key(es, k2) || k2 == k) by {
            if has_key(es, k2) {
                let j = choose|j: int| 0 <= j < es.len() && es[j].0 == k2;
                assert(post[j].0 == k2);
            }
            if has_key(post, k2) {
                let j = choose|j: int| 0 <= j < post.len() && post[j].0 == k2;
                if j < es.len() {
                    assert(es[j].0 == k2);
                } else {
                    assert(k2 == k);
                }
            }
            if k2 == k {
                assert(post[es.len() as int].0 == k2);
            }
        }
        assert(total_records(post) == total_records(es) + 1) by {
            assert(post.drop_last() =~~= es);
            assert(total_records(post.drop_last()) == total_records(es));
            assert(post.last().1.len() == 1);
        }
    }
}

/// Append-only multimap from string key to the ordered list of records
/// registered under it.
pub struct GroupIndex {
    pub entries: Vec<(String, Vec<FileMetadata>)>,
}

impl View for GroupIndex {
    type V = IndexView;

    open spec fn view(&self) -> IndexView {
        self.entries@.map_values(
            |e: (String, Vec<FileMetadata>)|
                (e.0@, e.1@.map_values(|m: FileMetadata| m@)),
        )
    }
}

impl GroupIndex {
    pub open spec fn wf(&self) -> bool {
        wf_index(self@)
    }

    /// A fresh, empty index.
    pub fn new() -> (r: GroupIndex)
        ensures
            r@ =~= Seq::<(Seq<char>, Seq<RecView>)>::empty(),
            r.wf(),
    {
        GroupIndex { entries: Vec::new() }
    }

    /// Insert `rec` into the group keyed by `key`, creating the group at
    /// the end of the index if the key is new.
    pub fn record(&mut self, key: String, rec: FileMetadata)
        requires
            old(self).wf(),
        ensures
            final(self).wf(),
            final(self)@ =~~= index_after(old(self)@, key@, rec@),
            has_key(old(self)@, key@) ==> final(self)@ =~~= old(self)@.update(
                key_index(old(self)@, key@),
                (key@, group_of(old(self)@, key@).push(rec@)),
            ),
            !has_key(old(self)@, key@) ==> final(self)@ =~~= old(self)@.push(
                (key@, seq![rec@]),
            ),
            group_of(final(self)@, key@) =~= group_of(old(self)@, key@).push(rec@),
            forall|k: Seq<char>|
                k != key@ ==> group_of(final(self)@, k) == group_of(old(self)@, k),
            forall|k: Seq<char>|
                has_key(final(self)@, k) <==> (has_key(old(self)@, k) || k == key@),
            total_records(final(self)@) == total_records(old(self)@) + 1,
            final(self)@.len() == old(self)@.len()
                + (if has_key(old(self)@, key@) { 0int } else { 1int }),
    {
        let ghost k = key@;
        let ghost rv = rec@;
        let ghost pre = self@;
        let n = self.entries.len();
        let mut i: usize = 0;
        while i < n
            invariant
                n == self.entries@.len(),
                i <= n,
                self@ == pre,
                pre == old(self)@,
                key@ == k,
                rec@ == rv,
                wf_index(pre),
                forall|j: int| 0 <= j < i ==> pre[j].0 != k,
            decreases n - i,
        {
            proof {
                assert(pre[i as int] == (
                    self.entries@[i as int].0@,
                    self.entries@[i as int].1@.map_values(|m: FileMetadata| m@),
                ));
            }
            if self.entries[i].0 == key {
                proof {
                    assert(pre[i as int].0 == k);
                    assert(has_key(pre, k));
                    assert(key_index(pre, k) == i) by {
                        let j = key_index(pre, k);
                        assert(0 <= j < pre.len() && pre[j].0 == k);
                    }
                }
                let (k_stored, mut members) = self.entries.remove(i);
                members.push(rec);
                self.entries.insert(i, (k_stored, members));
                proof {
                    assert(self@ =~~= pre.update(i as int, (k, group_of(pre, k).push(rv))));
                    assert(self@ =~~= index_after(pre, k, rv));
                    lemma_index_after_facts(pre, k, rv);
                }
                return;
            }
            i += 1;
        }
        proof {
            assert(!has_key(pre, k));
        }
        let mut members: Vec<FileMetadata> = Vec::new();
        members.push(rec);
        self.entries.push((key, members));
        proof {
            assert(self@ =~~= pre.push((k, seq![rv])));
            assert(self@ =~~= index_after(pre, k, rv));
            lemma_index_after_facts(pre, k, rv);
        }
    }

    /// Every group with two or more members, in index order, as owned
    /// values: the exact-duplicate sets of a digest-keyed index.
    pub fn duplicate_groups(&self) -> (r: Vec<DuplicateGroup>)
        ensures
            r@.map_values(|g: DuplicateGroup| g@) =~~= dup_groups_spec(self@),
    {
        let mut r: Vec<DuplicateGroup> = Vec::new();
        let n = self.entries.len();
        let mut i: usize = 0;
        while i < n
            invariant
                n == self.entries@.len(),
                i <= n,
                r@.map_values(|g: DuplicateGroup| g@) =~~= dup_groups_spec(
                    self@.subrange(0, i as int),
                ),
            decreases n - i,
        {
            let ghost prefix = self@.subrange(0, i as int);
            let ghost grown = self@.subrange(0, i + 1);
            proof {
                assert(grown.drop_last() =~= prefix);
                assert(grown.last() == self@[i as int]);
            }
            if self.entries[i].1.len() >= 2 {
                let key = self.entries[i].0.clone();
                let members = duplicate_records(&self.entries[i].1);
                r.push(DuplicateGroup { digest: key, members });
            }
            proof {
                assert(r@.map_values(|g: DuplicateGroup| g@) =~~= dup_groups_spec(grown));
            }
            i += 1;
        }
        proof {
            assert(self@.subrange(0, n as int) =~= self@);
        }
        r
    }

    /// How many registrations landed in an already-existing group: the
    /// running duplication counter of the scan.
    pub fn extra_records(&self) -> (r: u64)
        requires
            self.wf(),
            total_records(self@) <= u64::MAX,
        ensures
            r == total_records(self@) - self@.len(),
    {
        let mut r: u64 = 0;
        let n = self.entries.len();
        let mut i: usize = 0;
        while i < n
            invariant
                n == self.entries@.len(),
                wf_index(self@),
                total_records(self@) <= u64::MAX,
                i <= n,
                r == total_records(self@.subrange(0, i as int)) - i,
            decreases n - i,
        {
            let glen = self.entries[i].1.len();
            proof {
                lemma_total_records_prefix_bound(self@, i + 1);
                assert(self@.subrange(0, i + 1).drop_last() =~= self@.subrange(0, i as int));
                assert(self@.subrange(0, i + 1).last() == self@[i as int]);
                assert(total_records(self@.subrange(0, i + 1)) == total_records(
                    self@.subrange(0, i as int),
                ) + self@[i as int].1.len());
                assert(self@[i as int].1.len() >= 1);
                assert(glen == self@[i as int].1.len());
            }
            r = r + (glen as u64) - 1;
            i += 1;
        }
        proof {
            assert(self@.subrange(0, n as int) =~= self@);
        }
        r
    }
}

/// An elementwise copy of a record list whose views provably coincide.
pub fn duplicate_records(v: &Vec<FileMetadata>) -> (r: Vec<FileMetadata>)
    ensures
        r@.len() == v@.len(),
        forall|j: int| 0 <= j < v@.len() ==> #[trigger] r@[j]@ == v@[j]@,
        r@.map_values(|m: FileMetadata| m@) =~~= v@.map_values(|m: FileMetadata| m@),
{
    let mut r: Vec<FileMetadata> = Vec::new();
    let mut i: usize = 0;
    while i < v.len()
        invariant
            i <= v@.len(),
            r@.len() == i,
            forall|j: int| 0 <= j < i ==> #[trigger] r@[j]@ == v@[j]@,
        decreases v@.len() - i,
    {
        r.push(v[i].duplicate());
        i += 1;
    }
    assert(r@.map_values(|m: FileMetadata| m@) =~~= v@.map_values(|m: FileMetadata| m@));
    r
}

/// Updating one pair in place leaves every other key's group unchanged.
proof fn lemma_group_unchanged_update(pre: IndexView, post: IndexView, i: int, k2: Seq<char>)
    requires
        0 <= i < pre.len(),
        post.len() == pre.len(),
        forall|j: int| 0 <= j < pre.len() && j != i ==> post[j] == pre[j],
        post[i].0 == pre[i].0,
        k2 != pre[i].0,
        forall|p: int, q: int|
            0 <= p < pre.len() && 0 <= q < pre.len() && p != q ==> pre[p].0 != pre[q].0,
    ensures
        group_of(post, k2) == group_of(pre, k2),
{
    if has_key(pre, k2) {
        let jp = key_index(pre, k2);
        assert(0 <= jp < pre.len() && pre[jp].0 == k2);
        assert(jp != i);
        assert(post[jp].0 == k2);
        assert(has_key(post, k2));
        let jq = key_index(post, k2);
        assert(0 <= jq < post.len() && post[jq].0 == k2);
        assert(jq != i);
        assert(pre[jq].0 == k2);
        assert(jq == jp);
        assert(group_of(post, k2) == post[jq].1);
        assert(group_of(pre, k2) == pre[jp].1);
    } else {
        if has_key(post, k2) {
            let jq = key_index(post, k2);
            assert(0 <= jq < post.len() && post[jq].0 == k2);
            assert(jq != i);
            assert(pre[jq].0 == k2);
            assert(has_key(pre, k2));
        }
    }
}

/// Appending a pair with a fresh key leaves every other key's group
/// unchanged.
proof fn lemma_group_unchanged_push(pre: IndexView, post: IndexView, k2: Seq<char>)
    requires
        post.len() == pre.len() + 1,
        forall|j: int| 0 <= j < pre.len() ==> post[j] == pre[j],
        k2 != post[pre.len() as int].0,
        forall|p: int, q: int|
            0 <= p < pre.len() && 0 <= q < pre.len() && p != q ==> pre[p].0 != pre[q].0,
    ensures
        group_of(post, k2) == group_of(pre, k2),
{
    if has_key(pre, k2) {
        let jp = key_index(pre, k2);
        assert(0 <= jp < pre.len() && pre[jp].0 == k2);
        assert(post[jp].0 == k2);
        assert(has_key(post, k2));
        let jq = key_index(post, k2);
        assert(0 <= jq < post.len() && post[jq].0 == k2);
        assert(jq != pre.len());
        assert(pre[jq].0 == k2);
        assert(jq == jp);
        assert(group_of(post, k2) == post[jq].1);
        assert(group_of(pre, k2) == pre[jp].1);
    } else {
        if has_key(post, k2) {
            let jq = key_index(post, k2);
            assert(0 <= jq < post.len() && post[jq].0 == k2);
            assert(jq != pre.len());
            assert(pre[jq].0 == k2);
            assert(has_key(pre, k2));
        }
    }
}

/// Growing one group by one record grows the record total by one.
proof fn lemma_total_records_update(pre: IndexView, i: int, pair: (Seq<char>, Seq<RecView>))
    requires
        0 <= i < pre.len(),
        pair.1.len() == pre[i].1.len() + 1,
    ensures
        total_records(pre.update(i, pair)) == total_records(pre) + 1,
    decreases pre.len(),
{
    let post = pre.update(i, pair);
    if i == pre.len() - 1 {
        assert(post.drop_last() =~= pre.drop_last());
        assert(post.last() == pair);
    } else {
        assert(post.drop_last() =~= pre.drop_last().update(i, pair));
        assert(post.last() == pre.last());
        lemma_total_records_update(pre.drop_last(), i, pair);
    }
}

/// A prefix of the index never holds more records than the whole.
proof fn lemma_total_records_prefix_bound(es: IndexView, i: int)
    requires
        0 <= i <= es.len(),
    ensures
        total_records(es.subrange(0, i)) <= total_records(es),
    decreases es.len() - i,
{
    if i < es.len() {
        lemma_total_records_prefix_bound(es, i + 1);
        assert(es.subrange(0, i + 1).drop_last() =~= es.subrange(0, i));
    } else {
        assert(es.subrange(0, i) =~= es);
    }
}

} // verus!
