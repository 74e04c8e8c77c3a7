//! The default way to pick among the candidates of one theme.

use crate::theme::{IconInfo, Ranker};
use vstd::prelude::*;

verus! {

/// Picks the first candidate whose directory fits the wanted size and scale exactly;
/// where none fits, the first of those at the least distance.
#[derive(Clone, Copy, Debug, PartialEq, Eq, Structural)]
pub struct BestFit {
    pub size: u16,
    pub scale: u16,
}

/// The first position from `from` on whose directory fits exactly.
pub open spec fn first_match(c: Seq<IconInfo>, size: u16, scale: u16, from: nat) -> Option<usize>
    decreases c.len() - from,
{
    if from >= c.len() {
        None
    } else if c[from as int].directory.matches(size, scale) {
        Some(from as usize)
    } else {
        first_match(c, size, scale, from + 1)
    }
}

/// Among the first `n` candidates, the first position at the least distance.
pub open spec fn nearest(c: Seq<IconInfo>, size: u16, scale: u16, n: nat) -> nat
    decreases n,
{
    if n <= 1 {
        0
    } else {
        let best = nearest(c, size, scale, (n - 1) as nat);
        if c[n - 1].directory.distance(size, scale) < c[best as int].directory.distance(
            size,
            scale,
        ) {
            (n - 1) as nat
        } else {
            best
        }
    }
}

/// The pick of the default strategy.
pub open spec fn best_fit(c: Seq<IconInfo>, size: u16, scale: u16) -> Option<usize> {
    match first_match(c, size, scale, 0) {
        Some(at) => Some(at),
        None => if c.len() == 0 {
            None
        } else {
            Some(nearest(c, size, scale, c.len()) as usize)
        },
    }
}

/// `first_match` finds a fitting candidate with none fitting before it, from `from`
/// on; it finds nothing only where nothing fits.
pub proof fn first_match_is_first(c: Seq<IconInfo>, size: u16, scale: u16, from: nat)
    requires
        c.len() <= usize::MAX,
    ensures
        match first_match(c, size, scale, from) {
            Some(at) => {
                &&& from <= at < c.len()
                &&& c[at as int].directory.matches(size, scale)
                &&& forall|j: int| from <= j < at ==> !(#[trigger] c[j]).directory.matches(size, scale)
            },
            None => forall|j: int| from <= j < c.len() ==> !(#[trigger] c[j]).directory.matches(size, scale),
        },
    decreases c.len() - from,
{
    if from < c.len() && !c[from as int].directory.matches(size, scale) {
        first_match_is_first(c, size, scale, from + 1);
    }
}

/// `nearest` is at the least distance among the first `n` candidates, and every
/// candidate before it is strictly further away.
pub proof fn nearest_is_least(c: Seq<IconInfo>, size: u16, scale: u16, n: nat)
    requires
        1 <= n <= c.len(),
    ensures
        nearest(c, size, scale, n) < n,
        forall|j: int|
            0 <= j < n ==> c[nearest(c, size, scale, n) as int].directory.distance(size, scale)
                <= (#[trigger] c[j]).directory.distance(size, scale),
        forall|j: int|
            0 <= j < nearest(c, size, scale, n) ==> c[nearest(
                c,
                size,
                scale,
                n,
            ) as int].directory.distance(size, scale) < (#[trigger] c[j]).directory.distance(size, scale),
    decreases n,
{
    if n > 1 {
        nearest_is_least(c, size, scale, (n - 1) as nat);
    }
}

/// The default strategy picks a candidate whenever there is one: an exact fit where
/// one exists, the first of them; otherwise one at the least distance, the first of
/// those.
pub proof fn best_fit_is_exact_or_nearest(c: Seq<IconInfo>, size: u16, scale: u16)
    requires
        c.len() <= usize::MAX,
    ensures
        match best_fit(c, size, scale) {
            None => c.len() == 0,
            Some(at) => {
                &&& at < c.len()
                &&& (exists|j: int| 0 <= j < c.len() && (#[trigger] c[j]).directory.matches(size, scale))
                    ==> {
                    &&& c[at as int].directory.matches(size, scale)
                    &&& forall|j: int| 0 <= j < at ==> !(#[trigger] c[j]).directory.matches(size, scale)
                }
                &&& !c[at as int].directory.matches(size, scale) ==> {
                    &&& forall|j: int|
                        0 <= j < c.len() ==> c[at as int].directory.distance(size, scale)
                            <= (#[trigger] c[j]).directory.distance(size, scale)
                    &&& forall|j: int|
                        0 <= j < at ==> c[at as int].directory.distance(size, scale)
                            < (#[trigger] c[j]).directory.distance(size, scale)
                }
            },
        },
{
    first_match_is_first(c, size, scale, 0);
    if c.len() > 0 {
        nearest_is_least(c, size, scale, c.len());
    }
}

impl Ranker for BestFit {
    open spec fn choice(&self, candidates: Seq<IconInfo>) -> Option<usize> {
        best_fit(candidates, self.size, self.scale)
    }

    fn rank(&self, candidates: &[IconInfo]) -> (picked: Option<usize>) {
        let mut i: usize = 0;
        while i < candidates.len()
            invariant
                i <= candidates@.len(),
                first_match(candidates@, self.size, self.scale, 0) == first_match(
                    candidates@,
                    self.size,
                    self.scale,
                    i as nat,
                ),
            decreases candidates@.len() - i,
        {
            if candidates[i].directory().is_matches(self.size, self.scale) {
                return Some(i);
            }
            i += 1;
        }
        if candidates.len() == 0 {
            return None;
        }
        let mut best: usize = 0;
        let mut least: u32 = candidates[0].directory().size_distance(self.size, self.scale);
        let mut n: usize = 1;
        while n < candidates.len()
            invariant
                1 <= n <= candidates@.len(),
                best == nearest(candidates@, self.size, self.scale, n as nat),
                best < n,
                least == candidates@[best as int].directory.distance(self.size, self.scale),
            decreases candidates@.len() - n,
        {
            let d: u32 = candidates[n].directory().size_distance(self.size, self.scale);
            if d < least {
                best = n;
                least = d;
            }
            n += 1;
        }
        Some(best)
    }
}

} // verus!
