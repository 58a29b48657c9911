//! Which of the hits of a ray is the closest.
//!
//! A distance is given by its key: the bits of the number, read as an
//! integer. Among distances above zero a smaller key is a smaller distance,
//! and the key of every other number, and of what is not a number, lies
//! above the key of infinity.

use vstd::prelude::*;

verus! {

/// The key of infinity: above it lie no distances.
pub const INFINITY_KEY: u64 = 0x7FF0_0000_0000_0000;

/// A hit with the key `key` is taken: it lies beyond the bias, and closer
/// than the closest hit so far.
pub open spec fn takes(bias: u64, bound: u64, key: u64) -> bool {
    bias < key && key < bound
}

/// The key of the closest hit after a hit with the key `key` was offered.
pub open spec fn bound_step(bias: u64, bound: u64, key: u64) -> u64 {
    if takes(bias, bound, key) {
        key
    } else {
        bound
    }
}

/// The key of the closest hit after the hits with the keys `keys` were
/// offered one after the other; the key of infinity where none was taken.
pub open spec fn bound_after(bias: u64, keys: Seq<u64>) -> u64
    decreases keys.len(),
{
    if keys.len() == 0 {
        INFINITY_KEY
    } else {
        bound_step(bias, bound_after(bias, keys.drop_last()), keys.last())
    }
}

/// The place of the hit that was taken last, after the hits with the keys
/// `keys` were offered one after the other.
pub open spec fn winner(bias: u64, keys: Seq<u64>) -> Option<int>
    decreases keys.len(),
{
    if keys.len() == 0 {
        None
    } else if takes(bias, bound_after(bias, keys.drop_last()), keys.last()) {
        Some(keys.len() - 1)
    } else {
        winner(bias, keys.drop_last())
    }
}

/// A hit with the key `key` counts: it lies beyond the bias, and is a
/// distance.
pub open spec fn counts(bias: u64, key: u64) -> bool {
    bias < key && key < INFINITY_KEY
}

/// The hit that was taken last is the closest of the hits that count, and
/// the first of those that are as close; its key is the bound. No hit was
/// taken only where none counts.
pub proof fn lemma_winner_is_closest(bias: u64, keys: Seq<u64>)
    ensures
        bound_after(bias, keys) <= INFINITY_KEY,
        match winner(bias, keys) {
            Some(w) => {
                &&& 0 <= w < keys.len()
                &&& counts(bias, keys[w])
                &&& bound_after(bias, keys) == keys[w]
                &&& forall|j: int|
                    0 <= j < keys.len() && counts(bias, #[trigger] keys[j]) ==> keys[w] <= keys[j]
                &&& forall|j: int| 0 <= j < w && counts(bias, #[trigger] keys[j]) ==> keys[w] < keys[j]
            },
            None => {
                &&& bound_after(bias, keys) == INFINITY_KEY
                &&& forall|j: int| 0 <= j < keys.len() ==> !counts(bias, #[trigger] keys[j])
            },
        },
    decreases keys.len(),
{
    if keys.len() > 0 {
        let earlier = keys.drop_last();
        lemma_winner_is_closest(bias, earlier);
        assert forall|j: int| 0 <= j < earlier.len() implies earlier[j] == keys[j] by {}
        match winner(bias, keys) {
            Some(w) => {
                assert forall|j: int|
                    0 <= j < keys.len() && counts(bias, #[trigger] keys[j]) implies keys[w]
                    <= keys[j] by {
                    if j < earlier.len() {
                        assert(earlier[j] == keys[j]);
                    }
                }
                assert forall|j: int| 0 <= j < w && counts(bias, #[trigger] keys[j]) implies keys[w]
                    < keys[j] by {
                    assert(earlier[j] == keys[j]);
                }
            },
            None => {
                assert forall|j: int| 0 <= j < keys.len() implies !counts(
                    bias,
                    #[trigger] keys[j],
                ) by {
                    if j < earlier.len() {
                        assert(earlier[j] == keys[j]);
                    }
                }
            },
        }
    }
}

/// Keeps the closest of the hits that are offered to it.
#[derive(Debug, Clone, Copy)]
pub struct Nearest {
    bias: u64,
    bound: u64,
}

impl Nearest {
    /// The key beyond which a hit must lie.
    pub closed spec fn bias_key(&self) -> u64 {
        self.bias
    }

    /// The key of the closest hit so far.
    pub closed spec fn bound_key(&self) -> u64 {
        self.bound
    }

    /// A keeper to which no hit was offered yet.
    pub fn new(bias: u64) -> (r: Self)
        ensures
            r.bias_key() == bias,
            r.bound_key() == INFINITY_KEY,
    {
        Nearest { bias, bound: INFINITY_KEY }
    }

    /// The key of the closest hit so far; the key of infinity before any
    /// hit was taken.
    pub fn bound(&self) -> (r: u64)
        ensures
            r == self.bound_key(),
    {
        self.bound
    }

    /// Offers a hit with the key `key`, and says whether it was taken: it is
    /// where it lies beyond the bias and is closer than the closest so far.
    /// Of two hits that are as close the first stays.
    pub fn offer(&mut self, key: u64) -> (taken: bool)
        ensures
            taken == takes(old(self).bias_key(), old(self).bound_key(), key),
            final(self).bias_key() == old(self).bias_key(),
            final(self).bound_key() == bound_step(
                old(self).bias_key(),
                old(self).bound_key(),
                key,
            ),
    {
        if self.bias < key && key < self.bound {
            self.bound = key;
            true
        } else {
            false
        }
    }
}

} // verus!
