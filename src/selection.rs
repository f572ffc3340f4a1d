//! Picking one tag among candidates: the latest by commit time, or the
//! highest by semantic version.

use crate::patterns::{semver_order, TagVersion};
use core::cmp::Ordering;
use vstd::prelude::*;

verus! {

/// A candidate `(commit time, tag name)` as the specifications see it.
pub open spec fn timed_view(c: Seq<(i64, String)>) -> Seq<(i64, Seq<char>)> {
    c.map_values(|p: (i64, String)| (p.0, p.1@))
}

/// `c[i]` has the latest commit time of `c`, and no earlier member has it.
pub open spec fn is_latest(c: Seq<(i64, Seq<char>)>, i: int) -> bool {
    &&& 0 <= i < c.len()
    &&& forall|j: int| 0 <= j < c.len() ==> #[trigger] c[j].0 <= c[i].0
    &&& forall|j: int| 0 <= j < i ==> #[trigger] c[j].0 < c[i].0
}

/// The index of the first candidate with the latest commit time.
pub open spec fn latest_index(c: Seq<(i64, Seq<char>)>) -> int {
    choose|i: int| is_latest(c, i)
}

/// At most one index is the latest.
pub proof fn lemma_latest_unique(c: Seq<(i64, Seq<char>)>, i: int, k: int)
    requires
        is_latest(c, i),
        is_latest(c, k),
    ensures
        i == k,
{
    if i < k {
        assert(c[i].0 < c[k].0);
        assert(c[k].0 <= c[i].0);
    } else if k < i {
        assert(c[k].0 < c[i].0);
        assert(c[i].0 <= c[k].0);
    }
}

/// The first candidate with the latest commit time, if there is any.
pub fn latest_by_time(c: &Vec<(i64, String)>) -> (r: Option<usize>)
    ensures
        r is None <==> c.len() == 0,
        r matches Some(i) ==> is_latest(timed_view(c@), i as int) && i as int == latest_index(
            timed_view(c@),
        ),
{
    if c.len() == 0 {
        return None;
    }
    let ghost v = timed_view(c@);
    let mut best: usize = 0;
    let mut i: usize = 1;
    while i < c.len()
        invariant
            v == timed_view(c@),
            0 <= best < i <= c.len(),
            forall|j: int| 0 <= j < i ==> #[trigger] v[j].0 <= v[best as int].0,
            forall|j: int| 0 <= j < best ==> #[trigger] v[j].0 < v[best as int].0,
        decreases c.len() - i,
    {
        if c[i].0 > c[best].0 {
            best = i;
        }
        i = i + 1;
    }
    proof {
        assert(is_latest(v, best as int));
        lemma_latest_unique(v, best as int, latest_index(v));
    }
    Some(best)
}

/// A candidate `(version text, commit time, tag name)` as the specifications
/// see it.
pub open spec fn versioned_view(c: Seq<(TagVersion, i64, String)>) -> Seq<
    (Seq<char>, i64, Seq<char>),
> {
    c.map_values(|p: (TagVersion, i64, String)| (p.0.text(), p.1, p.2@))
}

/// `a` comes before `b`: a higher version, or the same version committed
/// later.
pub open spec fn beats(a: (Seq<char>, i64, Seq<char>), b: (Seq<char>, i64, Seq<char>)) -> bool {
    ||| semver_order(a.0, b.0) == Ordering::Greater
    ||| (semver_order(a.0, b.0) == Ordering::Equal && a.1 > b.1)
}

/// The candidate kept by a pass from first to last that replaces the one it
/// holds by each candidate that beats it.
pub open spec fn semver_pick(c: Seq<(Seq<char>, i64, Seq<char>)>) -> Option<int>
    decreases c.len(),
{
    if c.len() == 0 {
        None
    } else {
        match semver_pick(c.drop_last()) {
            None => Some(c.len() - 1),
            Some(b) => if beats(c.last(), c[b]) {
                Some(c.len() - 1)
            } else {
                Some(b)
            },
        }
    }
}

pub proof fn lemma_semver_pick_in_range(c: Seq<(Seq<char>, i64, Seq<char>)>)
    ensures
        semver_pick(c) is None <==> c.len() == 0,
        semver_pick(c) matches Some(i) ==> 0 <= i < c.len(),
    decreases c.len(),
{
    if c.len() > 0 {
        lemma_semver_pick_in_range(c.drop_last());
    }
}

/// The candidate that `semver_pick` names, if there is any.
pub fn pick_semver(c: &Vec<(TagVersion, i64, String)>) -> (r: Option<usize>)
    ensures
        match r {
            Some(i) => semver_pick(versioned_view(c@)) == Some(i as int),
            None => semver_pick(versioned_view(c@)) is None,
        },
{
    let ghost v = versioned_view(c@);
    let mut best: Option<usize> = None;
    let mut i: usize = 0;
    while i < c.len()
        invariant
            v == versioned_view(c@),
            i <= c.len(),
            match best {
                Some(b) => b < i && semver_pick(v.take(i as int)) == Some(b as int),
                None => i == 0,
            },
        decreases c.len() - i,
    {
        proof {
            assert(v.take(i + 1).drop_last() =~= v.take(i as int));
        }
        match best {
            None => {
                best = Some(i);
            },
            Some(b) => {
                let o = c[i].0.compare(&c[b].0);
                proof {
                    assert(v.take(i + 1)[b as int] == v[b as int]);
                }
                let wins = match o {
                    Ordering::Greater => true,
                    Ordering::Equal => c[i].1 > c[b].1,
                    Ordering::Less => false,
                };
                if wins {
                    best = Some(i);
                }
            },
        }
        i = i + 1;
    }
    proof {
        assert(v.take(i as int) =~= v);
    }
    best
}

/// `semver_order` behaves as the comparison of a total order does: each text
/// equals itself, and a chain of "not below" keeps its strictest link.
pub open spec fn semver_order_is_consistent() -> bool {
    &&& forall|a: Seq<char>| #[trigger] semver_order(a, a) == Ordering::Equal
    &&& forall|a: Seq<char>, b: Seq<char>, c: Seq<char>|
        #![trigger semver_order(a, b), semver_order(b, c)]
        semver_order(a, b) != Ordering::Less && semver_order(b, c) != Ordering::Less
            ==> semver_order(a, c) == if semver_order(a, b) == Ordering::Equal && semver_order(
            b,
            c,
        ) == Ordering::Equal {
            Ordering::Equal
        } else {
            Ordering::Greater
        }
}

/// Where the versions are ordered as `Ord` demands, the pick is a highest
/// version, and among equal versions one with the latest commit time: no
/// candidate beats it.
pub proof fn lemma_semver_pick_is_highest(c: Seq<(Seq<char>, i64, Seq<char>)>)
    requires
        semver_order_is_consistent(),
    ensures
        semver_pick(c) matches Some(p) ==> forall|j: int|
            0 <= j < c.len() ==> !beats(#[trigger] c[j], c[p]),
    decreases c.len(),
{
    if c.len() > 0 {
        let d = c.drop_last();
        lemma_semver_pick_is_highest(d);
        lemma_semver_pick_in_range(d);
        let n = c.len() - 1;
        match semver_pick(d) {
            None => {
                assert(semver_order(c[n].0, c[n].0) == Ordering::Equal);
            },
            Some(b) => {
                if beats(c.last(), c[b]) {
                    assert forall|j: int| 0 <= j < c.len() implies !beats(#[trigger] c[j], c[n]) by {
                        assert(semver_order(c[n].0, c[n].0) == Ordering::Equal);
                        if j < n && beats(c[j], c[n]) {
                            assert(d[j] == c[j]);
                            assert(semver_order(c[j].0, c[n].0) != Ordering::Less);
                            assert(semver_order(c[n].0, c[b].0) != Ordering::Less);
                            assert(beats(c[j], c[b]));
                        }
                    }
                } else {
                    assert forall|j: int| 0 <= j < c.len() implies !beats(#[trigger] c[j], c[b]) by {
                        if j < n {
                            assert(d[j] == c[j]);
                        }
                    }
                }
            },
        }
    }
}

} // verus!
