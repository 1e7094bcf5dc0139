//! Nearest-surface resolution.
//!
//! A distance along a ray is carried as a depth key: an unsigned integer
//! chosen so that a nearer surface has a smaller key. Every key at or beyond
//! [`HORIZON`] stands for a surface too far away to be seen. A renderer
//! measures distances in IEEE-754 doubles; [`depth_key`] makes the key from
//! the 64 bits of one.

use vstd::prelude::*;

verus! {

/// The depth that a pixel has before any surface was met. A surface is seen
/// only if its key is strictly below it.
pub const HORIZON: u64 = u64::MAX;

/// The bit that holds the sign of a double.
pub const SIGN: u64 = 0x8000_0000_0000_0000;

/// The bits of positive infinity. A double is infinite when the bits after
/// its sign are these, and not a number when they are greater.
pub const INFINITE: u64 = 0x7ff0_0000_0000_0000;

/// The bits of a double without its sign.
pub open spec fn magnitude(bits: u64) -> int {
    if bits >= SIGN {
        bits - SIGN
    } else {
        bits as int
    }
}

/// Whether the bits are those of no number.
pub open spec fn is_nan(bits: u64) -> bool {
    magnitude(bits) > INFINITE
}

/// The place of a double among the doubles: an integer that is less for
/// the lesser double. It is the magnitude with the sign of the double, so
/// both zeros have the place zero, and the largest finite double has the
/// place just below that of infinity.
pub open spec fn rank(bits: u64) -> int {
    if bits >= SIGN {
        -magnitude(bits)
    } else {
        magnitude(bits)
    }
}

/// The depth key of the distance with the given bits. A distance that is no
/// number, or that is not below the largest finite double, lies at the
/// horizon; any other has its rank, moved up so that it is not negative.
pub open spec fn key_of(bits: u64) -> u64 {
    if is_nan(bits) || rank(bits) >= INFINITE - 1 {
        HORIZON
    } else {
        (SIGN + rank(bits)) as u64
    }
}

/// Makes the depth key of a distance from the bits of the double that
/// holds it.
pub fn depth_key(bits: u64) -> (key: u64)
    ensures
        key == key_of(bits),
{
    if bits >= SIGN {
        let unsigned: u64 = bits - SIGN;
        if unsigned > INFINITE {
            HORIZON
        } else {
            SIGN - unsigned
        }
    } else if bits >= INFINITE - 1 {
        HORIZON
    } else {
        SIGN + bits
    }
}

/// The keys keep the order of the distances. Of two distances that are
/// numbers, the one with the smaller key is the lesser; a lesser distance
/// never has the greater key, and has the smaller one where it can be seen.
/// A distance can be seen exactly if it is below the largest finite double.
pub proof fn lemma_keys_keep_order(a: u64, b: u64)
    requires
        !is_nan(a),
        !is_nan(b),
    ensures
        key_of(a) < key_of(b) ==> rank(a) < rank(b),
        rank(a) < rank(b) ==> key_of(a) <= key_of(b),
        rank(a) < rank(b) && key_of(a) < HORIZON ==> key_of(a) < key_of(b),
        key_of(a) < HORIZON <==> rank(a) < INFINITE - 1,
        rank(a) == rank(b) ==> key_of(a) == key_of(b),
{
}

/// What is no number is never seen.
pub proof fn lemma_nan_is_never_seen(bits: u64)
    requires
        is_nan(bits),
    ensures
        key_of(bits) == HORIZON,
{
}

/// Whether the `k`-th object was hit at a depth that can be seen.
pub open spec fn visible(depths: Seq<Option<u64>>, k: int) -> bool {
    0 <= k < depths.len() && depths[k] is Some && depths[k].unwrap() < HORIZON
}

/// Whether the `i`-th object is the one a ray sees: it is visible, no other
/// hit lies nearer, and no earlier hit lies as near.
pub open spec fn is_nearest(depths: Seq<Option<u64>>, i: int) -> bool {
    &&& visible(depths, i)
    &&& forall|k: int|
        0 <= k < depths.len() && depths[k] is Some ==> depths[i].unwrap() <= (#[trigger] depths[k]).unwrap()
    &&& forall|k: int|
        0 <= k < i && depths[k] is Some ==> depths[i].unwrap() < (#[trigger] depths[k]).unwrap()
}

/// Picks, among the hits of one ray on each object of a scene, the one that
/// is seen. `depths[k]` is the depth at which the ray met object `k`, or
/// `None` where it missed. A hit replaces an earlier one only when it is
/// strictly nearer, so of two hits at one depth the earlier object wins.
pub fn nearest_hit(depths: &Vec<Option<u64>>) -> (winner: Option<usize>)
    ensures
        match winner {
            Some(i) => is_nearest(depths@, i as int),
            None => forall|k: int| 0 <= k < depths@.len() ==> !visible(depths@, k),
        },
{
    let mut best: u64 = HORIZON;
    let mut winner: Option<usize> = None;
    let mut k: usize = 0;
    while k < depths.len()
        invariant
            0 <= k <= depths@.len(),
            forall|j: int| 0 <= j < k && depths@[j] is Some ==> best <= (#[trigger] depths@[j]).unwrap(),
            match winner {
                Some(i) => {
                    &&& i < k
                    &&& visible(depths@, i as int)
                    &&& depths@[i as int].unwrap() == best
                    &&& forall|j: int|
                        0 <= j < i && depths@[j] is Some ==> best < (#[trigger] depths@[j]).unwrap()
                },
                None => best == HORIZON,
            },
        decreases depths@.len() - k,
    {
        match depths[k] {
            Some(d) => {
                if d < best {
                    best = d;
                    winner = Some(k);
                }
            },
            None => {},
        }
        k += 1;
    }
    winner
}

/// One hit offered to a pixel: its depth key and the colour it would give.
pub struct Offer {
    pub depth: u64,
    pub color: crate::color::Color,
}

/// What a pixel holds after one more hit was offered to it: the offer where
/// it is strictly nearer than what the pixel held, else what it held.
pub open spec fn settle_one(held: Offer, offer: Offer) -> Offer {
    if offer.depth < held.depth {
        offer
    } else {
        held
    }
}

/// What a pixel holds after the hits of `offers` were offered to it in order.
pub open spec fn settle(held: Offer, offers: Seq<Offer>) -> Offer
    decreases offers.len(),
{
    if offers.len() == 0 {
        held
    } else {
        settle_one(settle(held, offers.drop_last()), offers.last())
    }
}

/// The pixel that no surface has reached yet: the background at the horizon.
pub open spec fn unseen(background: crate::color::Color) -> Offer {
    Offer { depth: HORIZON, color: background }
}

/// After any hits were offered, the pixel holds either what it held before
/// or one of the offers, and nothing that was offered lies nearer than what
/// it holds.
pub proof fn lemma_settle_keeps_nearest(held: Offer, offers: Seq<Offer>)
    ensures
        settle(held, offers).depth <= held.depth,
        forall|k: int| 0 <= k < offers.len() ==> settle(held, offers).depth <= (#[trigger] offers[k]).depth,
        settle(held, offers) == held || offers.contains(settle(held, offers)),
        settle(held, offers).depth == held.depth ==> settle(held, offers) == held,
    decreases offers.len(),
{
    if offers.len() > 0 {
        let front = offers.drop_last();
        lemma_settle_keeps_nearest(held, front);
        let mid = settle(held, front);
        assert forall|k: int| 0 <= k < offers.len() implies settle(held, offers).depth <= (#[trigger] offers[k]).depth by {
            if k < front.len() {
                assert(front[k] == offers[k]);
            }
        }
        if settle(held, offers) == offers.last() {
            assert(offers[offers.len() - 1] == offers.last());
        } else if mid != held {
            let w = choose|w: int| 0 <= w < front.len() && front[w] == mid;
            assert(offers[w] == mid);
        }
    }
}

/// The depth that a pixel ends with does not depend on the order in which
/// the objects were tried: two sequences that hold the same offers, each as
/// often as the other, leave the same depth.
pub proof fn lemma_depth_ignores_order(held: Offer, first: Seq<Offer>, second: Seq<Offer>)
    requires
        first.to_multiset() == second.to_multiset(),
    ensures
        settle(held, first).depth == settle(held, second).depth,
{
    lemma_settle_keeps_nearest(held, first);
    lemma_settle_keeps_nearest(held, second);
    lemma_depth_not_above(held, first, second);
    lemma_depth_not_above(held, second, first);
}

proof fn lemma_depth_not_above(held: Offer, first: Seq<Offer>, second: Seq<Offer>)
    requires
        first.to_multiset() == second.to_multiset(),
    ensures
        settle(held, second).depth <= settle(held, first).depth,
{
    lemma_settle_keeps_nearest(held, first);
    lemma_settle_keeps_nearest(held, second);
    let a = settle(held, first);
    if a != held {
        first.to_multiset_ensures();
        second.to_multiset_ensures();
        assert(first.contains(a));
        assert(first.to_multiset().count(a) > 0);
        assert(second.contains(a));
        let w = choose|w: int| 0 <= w < second.len() && second[w] == a;
        assert(settle(held, second).depth <= second[w].depth);
    }
}

/// Where a single offer lies nearest, the colour too is the same whatever
/// the order: the pixel ends with that offer.
pub proof fn lemma_unique_nearest_wins(held: Offer, offers: Seq<Offer>, w: int)
    requires
        0 <= w < offers.len(),
        offers[w].depth < held.depth,
        forall|k: int| 0 <= k < offers.len() && k != w ==> offers[w].depth < (#[trigger] offers[k]).depth,
    ensures
        settle(held, offers) == offers[w],
    decreases offers.len(),
{
    let front = offers.drop_last();
    lemma_settle_keeps_nearest(held, front);
    if w == offers.len() - 1 {
        let mid = settle(held, front);
        if mid != held {
            let j = choose|j: int| 0 <= j < front.len() && front[j] == mid;
            assert(offers[j] == mid);
        }
    } else {
        assert(front[w] == offers[w]);
        assert forall|k: int| 0 <= k < front.len() && k != w implies front[w].depth < (#[trigger] front[k]).depth by {
            assert(front[k] == offers[k]);
        }
        lemma_unique_nearest_wins(held, front, w);
        assert(offers[offers.len() - 1] == offers.last());
    }
}

/// Where the pixel ends with an offer, it is the first of those that lie
/// nearest: every offer before it lies strictly farther.
pub proof fn lemma_settle_first_nearest(held: Offer, offers: Seq<Offer>) -> (w: int)
    ensures
        settle(held, offers) != held ==> 0 <= w < offers.len() && offers[w] == settle(held, offers),
        settle(held, offers) != held ==> forall|k: int|
            0 <= k < w ==> settle(held, offers).depth < (#[trigger] offers[k]).depth,
    decreases offers.len(),
{
    if offers.len() == 0 {
        0
    } else {
        let front = offers.drop_last();
        let mid = settle(held, front);
        lemma_settle_keeps_nearest(held, front);
        let v = lemma_settle_first_nearest(held, front);
        if offers.last().depth < mid.depth {
            assert forall|k: int| 0 <= k < offers.len() - 1 implies offers.last().depth < (#[trigger] offers[k]).depth by {
                assert(front[k] == offers[k]);
            }
            offers.len() - 1
        } else {
            if mid != held {
                assert(offers[v] == front[v]);
                assert forall|k: int| 0 <= k < v implies mid.depth < (#[trigger] offers[k]).depth by {
                    assert(front[k] == offers[k]);
                }
            }
            v
        }
    }
}

/// The hits of one ray as offers to its pixel: object `k` offers
/// `colors[k]` at the depth where the ray met it, and a miss is an offer at
/// the horizon, which is never taken.
pub open spec fn offers_of(depths: Seq<Option<u64>>, colors: Seq<crate::color::Color>) -> Seq<Offer> {
    Seq::new(
        depths.len(),
        |k: int|
            Offer {
                depth: match depths[k] {
                    Some(d) => d,
                    None => HORIZON,
                },
                color: colors[k],
            },
    )
}

/// Trying the objects one after another against a depth buffer shows the
/// same surface as picking the nearest hit of the ray: the pixel ends with
/// the depth and colour of the object that is seen, and stays as it was
/// where none is.
pub proof fn lemma_buffer_shows_nearest(
    background: crate::color::Color,
    depths: Seq<Option<u64>>,
    colors: Seq<crate::color::Color>,
    winner: Option<int>,
)
    requires
        colors.len() == depths.len(),
        match winner {
            Some(i) => is_nearest(depths, i),
            None => forall|k: int| 0 <= k < depths.len() ==> !visible(depths, k),
        },
    ensures
        settle(unseen(background), offers_of(depths, colors)) == match winner {
            Some(i) => Offer { depth: depths[i].unwrap(), color: colors[i] },
            None => unseen(background),
        },
{
    let held = unseen(background);
    let offers = offers_of(depths, colors);
    let end = settle(held, offers);
    lemma_settle_keeps_nearest(held, offers);
    let w = lemma_settle_first_nearest(held, offers);
    match winner {
        Some(i) => {
            assert(end.depth <= offers[i].depth);
            assert(end != held);
            assert(depths[w] is Some);
            if w < i {
                assert(depths[i].unwrap() < depths[w].unwrap());
            } else if i < w {
                assert(end.depth < offers[i].depth);
            }
        },
        None => {
            if end != held {
                assert(!visible(depths, w));
            }
        },
    }
}

} // verus!
