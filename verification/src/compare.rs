//! The near-duplicate comparator: within each directory group, every
//! ordered pair of distinct-name members with comparable fingerprint
//! lists is compared position by position through the distance oracle.
use vstd::prelude::*;
use crate::classify::str_eq;
use crate::index::{GroupIndex, IndexView};
use crate::model::{FileMetadata, NearDuplicateObservation, ObsView, RecView};
use crate::phash::{phash_decodes, phash_distance, PHashImageHashing};

verus! {

/// Two records of one directory qualify for comparison: distinct names,
/// both fingerprinted, fingerprint lists of equal length with the same
/// algorithm at every position.
pub open spec fn pair_qualifies(a: RecView, b: RecView) -> bool {
    &&& a.name != b.name
    &&& a.phash is Some
    &&& b.phash is Some
    &&& a.phash->0.len() == b.phash->0.len()
    &&& forall|i: int|
        0 <= i < a.phash->0.len() ==> #[trigger] a.phash->0[i].algorithm
            == b.phash->0[i].algorithm
}

/// The observation emitted at position `i` of a qualifying pair: the
/// oracle's distance, or an absent one when either fingerprint does not
/// decode.
pub open spec fn obs_at(dir: Seq<char>, a: RecView, b: RecView, i: int) -> ObsView {
    ObsView {
        directory: dir,
        a_name: a.name,
        b_name: b.name,
        algorithm: a.phash->0[i].algorithm,
        distance: if phash_decodes(a.phash->0[i].value) && phash_decodes(
            b.phash->0[i].value,
        ) {
            Some(phash_distance(a.phash->0[i].value, b.phash->0[i].value))
        } else {
            None
        },
    }
}

/// All observations of one ordered pair: one per fingerprint position
/// when the pair qualifies, none otherwise.
pub open spec fn obs_pair(dir: Seq<char>, a: RecView, b: RecView) -> Seq<ObsView> {
    if pair_qualifies(a, b) {
        Seq::new(a.phash->0.len(), |i: int| obs_at(dir, a, b, i))
    } else {
        Seq::empty()
    }
}

/// Observations of `a` against each of `members`, in order.
pub open spec fn obs_row(dir: Seq<char>, a: RecView, members: Seq<RecView>) -> Seq<ObsView>
    decreases members.len(),
{
    if members.len() == 0 {
        Seq::empty()
    } else {
        obs_row(dir, a, members.drop_last()) + obs_pair(dir, a, members.last())
    }
}

/// Observations of each of `sofar` against the whole group, in order.
pub open spec fn obs_rows(dir: Seq<char>, sofar: Seq<RecView>, members: Seq<RecView>) -> Seq<
    ObsView,
>
    decreases sofar.len(),
{
    if sofar.len() == 0 {
        Seq::empty()
    } else {
        obs_rows(dir, sofar.drop_last(), members) + obs_row(dir, sofar.last(), members)
    }
}

/// All observations of one directory group: every ordered pair, both
/// directions, self-pairs excluded by the name test.
pub open spec fn obs_group(dir: Seq<char>, members: Seq<RecView>) -> Seq<ObsView> {
    obs_rows(dir, members, members)
}

/// All observations of the whole directory index, group by group.
pub open spec fn obs_all(es: IndexView) -> Seq<ObsView>
    decreases es.len(),
{
    if es.len() == 0 {
        Seq::empty()
    } else {
        obs_all(es.drop_last()) + obs_group(es.last().0, es.last().1)
    }
}

/// Does this ordered pair of records qualify for comparison?
pub fn qualifies(a: &FileMetadata, b: &FileMetadata) -> (r: bool)
    ensures
        r == pair_qualifies(a@, b@),
{
    if str_eq(a.name.as_str(), b.name.as_str()) {
        return false;
    }
    let (va, vb) = match (&a.phash, &b.phash) {
        (Some(va), Some(vb)) => (va, vb),
        _ => {
            return false;
        },
    };
    if va.len() != vb.len() {
        return false;
    }
    let n = va.len();
    let mut i: usize = 0;
    while i < n
        invariant
            n == va@.len(),
            n == vb@.len(),
            i <= n,
            a.phash == Some(*va),
            b.phash == Some(*vb),
            forall|j: int|
                0 <= j < i ==> #[trigger] va@[j]@.algorithm == vb@[j]@.algorithm,
        decreases n - i,
    {
        if !str_eq(va[i].algorithm.as_str(), vb[i].algorithm.as_str()) {
            assert(a@.phash->0[i as int].algorithm != b@.phash->0[i as int].algorithm);
            return false;
        }
        i += 1;
    }
    proof {
        assert(forall|j: int|
            0 <= j < n ==> #[trigger] a@.phash->0[j].algorithm == b@.phash->0[j].algorithm);
    }
    true
}

/// Compare one qualifying ordered pair position by position.
fn observe_pair(dir: &String, a: &FileMetadata, b: &FileMetadata) -> (r: Vec<
    NearDuplicateObservation,
>)
    ensures
        r@.map_values(|o: NearDuplicateObservation| o@) =~~= obs_pair(dir@, a@, b@),
{
    let mut r: Vec<NearDuplicateObservation> = Vec::new();
    if !qualifies(a, b) {
        return r;
    }
    let phash_image = PHashImageHashing {};
    let (va, vb) = match (&a.phash, &b.phash) {
        (Some(va), Some(vb)) => (va, vb),
        _ => {
            return r;
        },
    };
    let n = va.len();
    let mut i: usize = 0;
    while i < n
        invariant
            n == va@.len(),
            a.phash == Some(*va),
            b.phash == Some(*vb),
            pair_qualifies(a@, b@),
            i <= n,
            r@.map_values(|o: NearDuplicateObservation| o@) =~~= obs_pair(dir@, a@, b@)
                .subrange(0, i as int),
        decreases n - i,
    {
        let first = &va[i];
        let second = &vb[i];
        let distance: Option<u32> = match phash_image.distance(
            first.value.as_str(),
            second.value.as_str(),
        ) {
            Ok(d) => Some(d),
            Err(_) => None,
        };
        let obs = NearDuplicateObservation {
            directory: dir.clone(),
            a_name: a.name.clone(),
            b_name: b.name.clone(),
            algorithm: first.algorithm.clone(),
            distance,
        };
        proof {
            assert(obs@ =~~= obs_at(dir@, a@, b@, i as int));
        }
        let ghost prev = r@;
        r.push(obs);
        proof {
            prev.lemma_push_map_commute(|o: NearDuplicateObservation| o@, obs);
            assert(obs_pair(dir@, a@, b@).subrange(0, i + 1) =~= obs_pair(dir@, a@, b@)
                .subrange(0, i as int).push(obs_pair(dir@, a@, b@)[i as int]));
            assert(r@.map_values(|o: NearDuplicateObservation| o@) =~~= obs_pair(
                dir@,
                a@,
                b@,
            ).subrange(0, i + 1));
        }
        i += 1;
    }
    proof {
        assert(obs_pair(dir@, a@, b@).subrange(0, n as int) =~= obs_pair(dir@, a@, b@));
    }
    r
}

/// Report every near-duplicate observation of a directory-keyed index:
/// for each directory group, every ordered pair of distinct-name members
/// with comparable fingerprints, at every fingerprint position.
pub fn near_duplicates(index: &GroupIndex) -> (r: Vec<NearDuplicateObservation>)
    ensures
        r@.map_values(|o: NearDuplicateObservation| o@) =~~= obs_all(index@),
{
    let mut r: Vec<NearDuplicateObservation> = Vec::new();
    let gn = index.entries.len();
    let mut gi: usize = 0;
    while gi < gn
        invariant
            gn == index.entries@.len(),
            gi <= gn,
            r@.map_values(|o: NearDuplicateObservation| o@) =~~= obs_all(
                index@.subrange(0, gi as int),
            ),
        decreases gn - gi,
    {
        let dir = &index.entries[gi].0;
        let members = &index.entries[gi].1;
        let ghost mview = members@.map_values(|m: FileMetadata| m@);
        proof {
            assert(index@[gi as int] == (dir@, mview));
        }
        let mn = members.len();
        let mut j: usize = 0;
        while j < mn
            invariant
                mn == members@.len(),
                mview == members@.map_values(|m: FileMetadata| m@),
                mn == mview.len(),
                j <= mn,
                r@.map_values(|o: NearDuplicateObservation| o@) =~~= obs_all(
                    index@.subrange(0, gi as int),
                ) + obs_rows(dir@, mview.subrange(0, j as int), mview),
            decreases mn - j,
        {
            let a = &members[j];
            let mut k: usize = 0;
            while k < mn
                invariant
                    mn == members@.len(),
                    mview == members@.map_values(|m: FileMetadata| m@),
                    mn == mview.len(),
                    j < mn,
                    k <= mn,
                    a == &members[j as int],
                    r@.map_values(|o: NearDuplicateObservation| o@) =~~= obs_all(
                        index@.subrange(0, gi as int),
                    ) + obs_rows(dir@, mview.subrange(0, j as int), mview) + obs_row(
                        dir@,
                        mview[j as int],
                        mview.subrange(0, k as int),
                    ),
                decreases mn - k,
            {
                let b = &members[k];
                proof {
                    assert(a@ == mview[j as int]);
                    assert(b@ == mview[k as int]);
                }
                let mut pair_obs = observe_pair(dir, a, b);
                let ghost pov = pair_obs@;
                let ghost prev = r@;
                r.append(&mut pair_obs);
                proof {
                    assert(r@ == prev + pov);
                    assert(r@.map_values(|o: NearDuplicateObservation| o@) =~~= prev
                        .map_values(|o: NearDuplicateObservation| o@) + pov.map_values(
                        |o: NearDuplicateObservation| o@,
                    ));
                    let kk = mview.subrange(0, k + 1);
                    assert(kk.drop_last() =~= mview.subrange(0, k as int));
                    assert(kk.last() == mview[k as int]);
                    assert(obs_row(dir@, mview[j as int], kk) == obs_row(
                        dir@,
                        mview[j as int],
                        mview.subrange(0, k as int),
                    ) + obs_pair(dir@, mview[j as int], mview[k as int]));
                }
                k += 1;
            }
            proof {
                assert(mview.subrange(0, mn as int) =~= mview);
                let jj = mview.subrange(0, j + 1);
                assert(jj.drop_last() =~= mview.subrange(0, j as int));
                assert(jj.last() == mview[j as int]);
                assert(obs_rows(dir@, jj, mview) == obs_rows(
                    dir@,
                    mview.subrange(0, j as int),
                    mview,
                ) + obs_row(dir@, mview[j as int], mview));
            }
            j += 1;
        }
        proof {
            assert(mview.subrange(0, mn as int) =~= mview);
            if mn == 0 {
                assert(obs_rows(dir@, mview, mview) =~= Seq::<ObsView>::empty());
            }
            let gg = index@.subrange(0, gi + 1);
            assert(gg.drop_last() =~= index@.subrange(0, gi as int));
            assert(gg.last() == index@[gi as int]);
            assert(obs_all(gg) == obs_all(index@.subrange(0, gi as int)) + obs_group(
                index@[gi as int].0,
                index@[gi as int].1,
            ));
            assert(index@[gi as int].0 == dir@);
            assert(index@[gi as int].1 == mview);
        }
        gi += 1;
    }
    proof {
        assert(index@.subrange(0, gn as int) =~= index@);
    }
    r
}

} // verus!
