//! What the renderer needs to know of ray-surface hits beyond their geometry:
//! the side a surface is hit from, and which of several hits is the nearest.

use vstd::prelude::*;

verus! {

/// Whether a ray meets a surface from its inside or its outside.
#[derive(Clone, Copy, Debug, PartialEq, Eq, Structural)]
pub enum IntersectionSide {
    Inside,
    Outside,
}

/// The position of a double-precision value, given by its IEEE 754 bit
/// pattern, in the standard's total order: non-negative patterns keep their
/// value, patterns with the sign bit set count down from -1.
pub open spec fn order_key(bits: u64) -> int {
    if bits < 0x8000_0000_0000_0000 {
        bits as int
    } else {
        0x7fff_ffff_ffff_ffff - bits as int
    }
}

/// `i` holds a hit whose parameter is minimal in the total order among all
/// hits, and no earlier hit has the same parameter.
pub open spec fn is_nearest(candidates: Seq<Option<u64>>, i: int) -> bool {
    &&& 0 <= i < candidates.len()
    &&& candidates[i] is Some
    &&& forall|j: int|
        0 <= j < candidates.len() && #[trigger] candidates[j] is Some ==> order_key(
            candidates[i]->0,
        ) <= order_key(candidates[j]->0)
    &&& forall|j: int|
        0 <= j < i && #[trigger] candidates[j] is Some ==> order_key(candidates[i]->0) < order_key(
            candidates[j]->0,
        )
}

/// The nearest hit is unique: ties go to the earliest shape, so the scan's
/// answer does not depend on anything but the candidates.
pub proof fn lemma_nearest_unique(candidates: Seq<Option<u64>>, i: int, j: int)
    requires
        is_nearest(candidates, i),
        is_nearest(candidates, j),
    ensures
        i == j,
{
    if i < j {
        assert(candidates[i] is Some);
    } else if j < i {
        assert(candidates[j] is Some);
    }
}

fn order_key_of(bits: u64) -> (r: i64)
    ensures
        r == order_key(bits),
{
    if bits < 0x8000_0000_0000_0000 {
        bits as i64
    } else {
        -1 - ((bits - 0x8000_0000_0000_0000) as i64)
    }
}

/// Picks the nearest hit of a scan over every shape of a scene.
///
/// `candidates[i]` is the ray parameter `t` of shape `i`'s hit, as its IEEE 754
/// bit pattern, or `None` where shape `i` is missed. The result is the index
/// of the hit with the smallest `t` in the standard's total order, the first
/// one where several tie; `None` where every shape is missed.
pub fn nearest_hit(candidates: &Vec<Option<u64>>) -> (r: Option<usize>)
    ensures
        r is None <==> forall|j: int| 0 <= j < candidates@.len() ==> #[trigger] candidates@[j] is None,
        r matches Some(i) ==> is_nearest(candidates@, i as int),
{
    let mut best: Option<usize> = None;
    let mut best_key: i64 = 0;
    let mut i: usize = 0;
    while i < candidates.len()
        invariant
            i <= candidates@.len(),
            best is None <==> forall|j: int| 0 <= j < i ==> #[trigger] candidates@[j] is None,
            best matches Some(b) ==> {
                &&& b < i
                &&& candidates@[b as int] is Some
                &&& best_key == order_key(candidates@[b as int]->0)
                &&& forall|j: int|
                    0 <= j < i && #[trigger] candidates@[j] is Some ==> best_key <= order_key(
                        candidates@[j]->0,
                    )
                &&& forall|j: int|
                    0 <= j < b && #[trigger] candidates@[j] is Some ==> best_key < order_key(
                        candidates@[j]->0,
                    )
            },
        decreases candidates@.len() - i,
    {
        if let Some(bits) = candidates[i] {
            let key = order_key_of(bits);
            match best {
                None => {
                    best = Some(i);
                    best_key = key;
                },
                Some(_) => {
                    if key < best_key {
                        best = Some(i);
                        best_key = key;
                    }
                },
            }
        }
        i = i + 1;
    }
    best
}

} // verus!
