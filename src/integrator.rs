//! The decisions of the recursive light-transport estimator.
//!
//! Each step of a path looks at the depth it was reached at and at the scene's hits
//! along its ray, and decides what the step contributes: nothing (the path is past
//! the depth limit), the sky, or a surface with possibly one more bounce.
use vstd::prelude::*;

use crate::hits::{is_nearest, nearest_hit, no_hit};

verus! {

/// The deepest step of a path that still looks at the scene; every step past it
/// contributes zero radiance.
pub const MAX_DEPTH: u16 = 20;

/// The reflectance models of a material.
#[derive(Clone, Copy, Debug, PartialEq, Eq, Structural)]
pub enum BrdfKind {
    /// Diffuse reflection, bounced into a sampled direction around the normal.
    Lambertian,
    /// Perfect mirror reflection.
    Glossy,
    /// A pure emitter: the path ends at it.
    BlackBody,
}

impl BrdfKind {
    /// Whether a path goes on after a surface with this model.
    pub open spec fn continues(self) -> bool {
        self != BrdfKind::BlackBody
    }

    /// Whether a path goes on after a surface with this model: every model
    /// bounces but the black body, which absorbs.
    pub fn bounces(&self) -> (r: bool)
        ensures
            r == self.continues(),
    {
        match self {
            BrdfKind::BlackBody => false,
            _ => true,
        }
    }
}

/// What one step of a path contributes.
#[derive(Clone, Copy, Debug, PartialEq, Eq, Structural)]
pub enum Step {
    /// The path is past `MAX_DEPTH`: zero radiance, whatever the scene holds.
    CutOff,
    /// The ray hits nothing: the sky gradient along its direction.
    Sky,
    /// The ray's nearest hit is on object `object`: its emission and direct light, and,
    /// where `bounce` holds a depth, the indirect light of a bounce ray traced at it.
    Surface { object: usize, bounce: Option<u16> },
}

/// The index of the nearest hit among `keys`, where there is one.
pub open spec fn nearest_of(keys: Seq<Option<u32>>) -> int {
    choose|i: int| is_nearest(keys, i)
}

/// The step taken at `depth` along a ray whose hits have the distance keys `keys`,
/// in a scene whose objects have the reflectance models `kinds`.
pub open spec fn step_for(depth: u16, keys: Seq<Option<u32>>, kinds: Seq<BrdfKind>) -> Step {
    if depth > MAX_DEPTH {
        Step::CutOff
    } else if no_hit(keys) {
        Step::Sky
    } else {
        let object = nearest_of(keys);
        Step::Surface {
            object: object as usize,
            bounce: if kinds[object].continues() {
                Some((depth + 1) as u16)
            } else {
                None
            },
        }
    }
}

/// The depth of the bounce ray that a step traces, where it traces one.
pub open spec fn bounce_of(step: Step) -> Option<u16> {
    match step {
        Step::Surface { bounce, .. } => bounce,
        _ => None,
    }
}

/// Of equal distances the first wins, so at most one hit is the nearest.
pub proof fn lemma_nearest_unique(keys: Seq<Option<u32>>, i: int, j: int)
    requires
        is_nearest(keys, i),
        is_nearest(keys, j),
    ensures
        i == j,
{
    if i < j {
        assert(keys[i] is Some);
    } else if j < i {
        assert(keys[j] is Some);
    }
}

/// Whether a path at `depth` is past the depth limit. A step checks this before it
/// looks at the scene.
pub fn is_cut_off(depth: u16) -> (r: bool)
    ensures
        r == (depth > MAX_DEPTH),
{
    depth > MAX_DEPTH
}

/// Decides the step at `depth`: `keys[j]` is the distance key of the ray's hit on
/// object `j` (`None` where it misses), `kinds[j]` that object's reflectance model.
pub fn plan_step(depth: u16, keys: &Vec<Option<u32>>, kinds: &Vec<BrdfKind>) -> (r: Step)
    requires
        keys.len() == kinds.len(),
    ensures
        r == step_for(depth, keys@, kinds@),
        depth > MAX_DEPTH ==> r == Step::CutOff,
        depth <= MAX_DEPTH && no_hit(keys@) ==> r == Step::Sky,
        depth <= MAX_DEPTH && !no_hit(keys@) ==> (r matches Step::Surface { object, bounce }
            && is_nearest(keys@, object as int) && bounce == if kinds@[object as int].continues() {
            Some((depth + 1) as u16)
        } else {
            None
        }),
{
    if is_cut_off(depth) {
        return Step::CutOff;
    }
    match nearest_hit(keys) {
        None => Step::Sky,
        Some(object) => {
            proof {
                lemma_nearest_unique(keys@, object as int, nearest_of(keys@));
            }
            let bounce = if kinds[object].bounces() {
                Some(depth + 1)
            } else {
                None
            };
            Step::Surface { object, bounce }
        },
    }
}

proof fn lemma_path_depth(depths: Seq<u16>, scans: Seq<Seq<Option<u32>>>, kinds: Seq<BrdfKind>, k: int)
    requires
        0 <= k < depths.len(),
        depths.len() == scans.len(),
        depths[0] == 0,
        forall|m: int|
            0 <= m < depths.len() - 1 ==> bounce_of(#[trigger] step_for(depths[m], scans[m], kinds))
                == Some(depths[m + 1]),
    ensures
        depths[k] == k,
        k >= 1 ==> depths[k - 1] <= MAX_DEPTH,
    decreases k,
{
    if k > 0 {
        lemma_path_depth(depths, scans, kinds, k - 1);
        assert(bounce_of(step_for(depths[k - 1], scans[k - 1], kinds)) == Some(depths[k]));
    }
}

/// Paths are bounded: along a path that starts at depth 0 and in which each step
/// traces the next one as its bounce ray, the `k`-th step is at depth `k`. So a path
/// reaches at most `MAX_DEPTH + 1` surfaces, even in a scene where every ray hits a
/// mirror, and a step after that many is cut off whatever the scene holds.
pub proof fn lemma_path_bounded(
    depths: Seq<u16>,
    scans: Seq<Seq<Option<u32>>>,
    kinds: Seq<BrdfKind>,
)
    requires
        depths.len() >= 1,
        depths.len() == scans.len(),
        depths[0] == 0,
        forall|k: int|
            0 <= k < depths.len() - 1 ==> bounce_of(#[trigger] step_for(depths[k], scans[k], kinds))
                == Some(depths[k + 1]),
    ensures
        forall|k: int| 0 <= k < depths.len() ==> depths[k] == k,
        depths.len() <= MAX_DEPTH + 2,
        depths.len() == MAX_DEPTH + 2 ==> step_for(depths.last(), scans.last(), kinds)
            == Step::CutOff,
{
    assert forall|k: int| 0 <= k < depths.len() implies depths[k] == k by {
        lemma_path_depth(depths, scans, kinds, k);
    }
    lemma_path_depth(depths, scans, kinds, depths.len() - 1);
}

} // verus!
