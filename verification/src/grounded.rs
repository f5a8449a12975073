//! The relation between a body and the terrain it rests on, and the pass
//! that ends it.

use vstd::prelude::*;
use crate::physics::Body;
use crate::collision::{
    in_range, is_mover, is_terrain, oriented, resolve_step, resolves_on_x, world_in_range, Resolving,
    SeparationVector, SCALAR_LIMIT,
};
use crate::vector::fits;
use crate::separation::{axis_collision, axis_separation};

verus! {

/// Whether a body rests on terrain, and on which.
#[derive(Clone, Copy, Debug, PartialEq, Eq, Structural)]
pub enum GroundedState {
    NotGrounded,
    /// The identity of the static body that this one rests on.
    GroundedTo(u64),
}

/// The index of the first terrain with identity `id` among the bodies from
/// index `from` on.
pub open spec fn first_terrain_from(all: Seq<Body>, id: u64, from: int) -> Option<int>
    decreases all.len() - from,
{
    if from < 0 || from >= all.len() {
        None
    } else if is_terrain(all[from]) && all[from].id == id {
        Some(from)
    } else {
        first_terrain_from(all, id, from + 1)
    }
}

/// Which terrain has an identity depends on the identities of the bodies and
/// on which of them are terrain, and on nothing else.
pub proof fn lemma_lookup_reads_identities_only(a: Seq<Body>, b: Seq<Body>, id: u64, from: int)
    requires
        a.len() == b.len(),
        forall|k: int|
            0 <= k < a.len() ==> (#[trigger] a[k]).id == b[k].id && is_terrain(a[k]) == is_terrain(
                b[k],
            ),
    ensures
        first_terrain_from(a, id, from) == first_terrain_from(b, id, from),
    decreases a.len() - from,
{
    if 0 <= from < a.len() {
        assert(a[from].id == b[from].id);
        lemma_lookup_reads_identities_only(a, b, id, from + 1);
    }
}

/// Finds the first terrain with the given identity.
pub fn find_terrain(bodies: &Vec<Body>, id: u64) -> (found: Option<usize>)
    ensures
        found is Some <==> first_terrain_from(bodies@, id, 0) is Some,
        found is Some ==> found->Some_0 as int == first_terrain_from(bodies@, id, 0)->Some_0,
        found is Some ==> found->Some_0 < bodies@.len() && is_terrain(bodies@[found->Some_0 as int])
            && bodies@[found->Some_0 as int].id == id,
{
    let mut k: usize = 0;
    while k < bodies.len()
        invariant
            k <= bodies.len(),
            first_terrain_from(bodies@, id, 0) == first_terrain_from(bodies@, id, k as int),
        decreases bodies.len() - k,
    {
        let other = &bodies[k];
        if other.is_static && other.collider.is_some() && other.id == id {
            return Some(k);
        }
        k += 1;
    }
    None
}

/// The low and the high bound of a colliding body's box on the y-axis.
pub open spec fn y_extent(b: Body) -> (int, int) {
    let c = b.collider->Some_0;
    (c.min.y + b.position.y + c.offset.y, c.max.y + b.position.y + c.offset.y)
}

/// Whether a body still rests on a piece of terrain: their boxes overlap on
/// the y-axis once the body's box is widened by `padding` at both ends.
pub open spec fn rests_on(b: Body, ground: Body, padding: int) -> bool {
    axis_separation(
        y_extent(b).0 - padding,
        y_extent(b).1 + padding,
        y_extent(ground).0,
        y_extent(ground).1,
    ) != 0
}

/// A body after the pass that re-validates grounded relations.
///
/// A colliding body that is not static and is grounded to terrain that is
/// still in the world loses the relation where it no longer rests on that
/// terrain. Where no terrain has the identity it is grounded to, the relation
/// stays as it is.
pub open spec fn revalidated(b: Body, all: Seq<Body>, padding: int) -> Body {
    if is_mover(b) && b.grounded is Some && b.grounded->Some_0 is GroundedTo {
        match first_terrain_from(all, b.grounded->Some_0->GroundedTo_0, 0) {
            Some(k) => if rests_on(b, all[k], padding) {
                b
            } else {
                Body { grounded: Some(GroundedState::NotGrounded), ..b }
            },
            None => b,
        }
    } else {
        b
    }
}

/// The low and the high bound of a colliding body's box on the y-axis.
fn vertical_extent(b: &Body) -> (e: (i64, i64))
    requires
        b.collider is Some,
        in_range(*b),
    ensures
        (e.0 as int, e.1 as int) == y_extent(*b),
{
    let c = b.collider.unwrap();
    (c.min.y + b.position.y + c.offset.y, c.max.y + b.position.y + c.offset.y)
}

/// Ends the grounded relation of every body that no longer rests on the
/// terrain it is grounded to, as [`revalidated`] says.
pub fn clear_grounded(bodies: &mut Vec<Body>, padding: i64)
    requires
        world_in_range(old(bodies)@),
        0 <= padding <= SCALAR_LIMIT,
    ensures
        final(bodies)@.len() == old(bodies)@.len(),
        forall|i: int|
            0 <= i < old(bodies)@.len() ==> #[trigger] final(bodies)@[i] == revalidated(
                old(bodies)@[i],
                old(bodies)@,
                padding as int,
            ),
{
    let mut i: usize = 0;
    while i < bodies.len()
        invariant
            i <= bodies.len(),
            world_in_range(old(bodies)@),
            0 <= padding <= SCALAR_LIMIT,
            bodies@.len() == old(bodies)@.len(),
            forall|k: int|
                0 <= k < i ==> #[trigger] bodies@[k] == revalidated(
                    old(bodies)@[k],
                    old(bodies)@,
                    padding as int,
                ),
            forall|k: int| i <= k < bodies@.len() ==> #[trigger] bodies@[k] == old(bodies)@[k],
            forall|k: int|
                0 <= k < bodies@.len() ==> {
                    &&& (#[trigger] bodies@[k]).id == old(bodies)@[k].id
                    &&& is_terrain(bodies@[k]) == is_terrain(old(bodies)@[k])
                    &&& is_terrain(bodies@[k]) ==> bodies@[k] == old(bodies)@[k]
                },
        decreases bodies.len() - i,
    {
        let body = bodies[i];
        assert(in_range(old(bodies)@[i as int]));
        if !body.is_static && body.collider.is_some() {
            if let Some(GroundedState::GroundedTo(gs)) = body.grounded {
                proof {
                    lemma_lookup_reads_identities_only(bodies@, old(bodies)@, gs, 0);
                }
                if let Some(k) = find_terrain(bodies, gs) {
                    assert(in_range(old(bodies)@[k as int]));
                    let mine = vertical_extent(&body);
                    let theirs = vertical_extent(&bodies[k]);
                    let sv_y = axis_collision(
                        mine.0 - padding,
                        mine.1 + padding,
                        theirs.0,
                        theirs.1,
                    );
                    if sv_y == 0 {
                        let mut freed = body;
                        freed.grounded = Some(GroundedState::NotGrounded);
                        bodies.set(i, freed);
                    }
                }
            }
        }
        i += 1;
    }
}

/// A grounded relation lasts exactly as long as the body rests on the terrain
/// it names: the pass that re-validates it keeps it where the two boxes still
/// overlap on the y-axis within the padding, ends it where they do not, and
/// leaves it alone where the terrain is no longer in the world.
pub proof fn lemma_grounding_lasts_while_resting(b: Body, all: Seq<Body>, padding: int, ground: u64)
    requires
        is_mover(b),
        b.grounded == Some(GroundedState::GroundedTo(ground)),
    ensures
        first_terrain_from(all, ground, 0) is None ==> revalidated(b, all, padding) == b,
        first_terrain_from(all, ground, 0) is Some ==> {
            let k = first_terrain_from(all, ground, 0)->Some_0;
            &&& rests_on(b, all[k], padding) ==> revalidated(b, all, padding).grounded == Some(
                GroundedState::GroundedTo(ground),
            )
            &&& !rests_on(b, all[k], padding) ==> revalidated(b, all, padding).grounded == Some(
                GroundedState::NotGrounded,
            )
        },
{
}

/// A body that a response has just grounded rests on the terrain: where the
/// separation is that of the box the body has, the collision is resolved on
/// the y-axis and the oriented separation is positive, the body overlaps the
/// terrain on the y-axis afterwards within any positive padding.
pub proof fn lemma_grounded_body_rests(r: Resolving, sv: SeparationVector, other: Body, padding: int)
    requires
        r.body.collider is Some,
        other.collider is Some,
        r.body.wf(),
        other.wf(),
        sv.collides(),
        !resolves_on_x(sv),
        sv.y == axis_separation(
            y_extent(r.body).0,
            y_extent(r.body).1,
            y_extent(other).0,
            y_extent(other).1,
        ),
        oriented(sv.y as int, r.body.position.y as int, other.position.y as int) > 0,
        fits(r.body.position.y + sv.y),
        fits(r.body.position.y - sv.y),
        padding > 0,
    ensures
        rests_on(resolve_step(r, sv, other).body, other, padding),
{
}

} // verus!
