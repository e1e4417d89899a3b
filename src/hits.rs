//! Scene-wide nearest hit and shadow-ray occlusion.
//!
//! Distances reach this module as keys: the IEEE-754 bit pattern of a non-negative
//! single-precision distance, read as an unsigned integer. For non-negative values
//! that are not NaN the bit patterns order exactly as the values do, so comparing
//! keys is comparing distances.
use vstd::prelude::*;

verus! {

/// Whether `i` is the hit that the scene-wide search keeps: a hit whose distance is
/// no greater than any other, and strictly smaller than that of every earlier hit
/// (of equal distances the first one wins).
pub open spec fn is_nearest(keys: Seq<Option<u32>>, i: int) -> bool {
    &&& 0 <= i < keys.len()
    &&& keys[i] is Some
    &&& forall|j: int|
        0 <= j < keys.len() && #[trigger] keys[j] is Some ==> keys[i]->0 <= keys[j]->0
    &&& forall|j: int| 0 <= j < i && #[trigger] keys[j] is Some ==> keys[i]->0 < keys[j]->0
}

/// Whether `key` is a hit strictly nearer than `limit`.
pub open spec fn hit_before(key: Option<u32>, limit: u32) -> bool {
    key matches Some(d) && d < limit
}

/// Whether no object was hit at all.
pub open spec fn no_hit(keys: Seq<Option<u32>>) -> bool {
    forall|j: int| 0 <= j < keys.len() ==> #[trigger] keys[j] is None
}

/// The nearest hit over the objects of a scene, scanned in order: `keys[j]` is the
/// distance key of object `j`'s hit, `None` where the ray misses it. The result is
/// the index of the hit with the smallest distance, the first of equal ones, or
/// `None` where every object is missed.
pub fn nearest_hit(keys: &Vec<Option<u32>>) -> (r: Option<usize>)
    ensures
        r is None <==> no_hit(keys@),
        r matches Some(i) ==> is_nearest(keys@, i as int),
{
    let mut best: Option<usize> = None;
    let mut j: usize = 0;
    while j < keys.len()
        invariant
            j <= keys.len(),
            best is None <==> no_hit(keys@.subrange(0, j as int)),
            best matches Some(i) ==> is_nearest(keys@.subrange(0, j as int), i as int),
        decreases keys.len() - j,
    {
        let ghost prefix = keys@.subrange(0, j as int);
        let ghost next = keys@.subrange(0, j + 1);
        assert(forall|m: int| 0 <= m < j ==> next[m] == prefix[m]);
        if let Some(d) = keys[j] {
            match best {
                Some(b) => {
                    if d < keys[b].unwrap() {
                        best = Some(j);
                    }
                },
                None => {
                    best = Some(j);
                },
            }
        }
        proof {
            assert(next[j as int] == keys@[j as int]);
            if best is None {
                assert forall|m: int| 0 <= m < next.len() implies #[trigger] next[m] is None by {
                    if m < j {
                        assert(prefix[m] is None);
                    }
                }
            } else {
                let i = best->0 as int;
                assert(next[i] == keys@[i]);
                assert(next[i] is Some);
            }
        }
        j = j + 1;
    }
    assert(keys@.subrange(0, keys.len() as int) == keys@);
    best
}

/// Whether a light is hidden from a shading point: `keys` are the distance keys of
/// the shadow ray's hits, `light_distance` the key of the distance to the light. The
/// light is hidden exactly when the nearest hit is strictly nearer than the light.
pub fn is_occluded(keys: &Vec<Option<u32>>, light_distance: u32) -> (r: bool)
    ensures
        r <==> exists|j: int| 0 <= j < keys@.len() && #[trigger] hit_before(keys@[j], light_distance),
{
    match nearest_hit(keys) {
        Some(i) => {
            let d = keys[i].unwrap();
            proof {
                if d >= light_distance {
                    assert forall|j: int| 0 <= j < keys@.len() implies !#[trigger] hit_before(keys@[j], light_distance) by {
                        if keys@[j] is Some {
                            assert(d <= keys@[j]->0);
                        }
                    }
                }
            }
            proof {
                if d < light_distance {
                    assert(hit_before(keys@[i as int], light_distance));
                }
            }
            d < light_distance
        },
        None => {
            proof {
                assert forall|j: int| 0 <= j < keys@.len() implies !#[trigger] hit_before(keys@[j], light_distance) by {
                    assert(keys@[j] is None);
                }
            }
            false
        },
    }
}

} // verus!
