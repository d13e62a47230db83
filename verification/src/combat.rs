//! Who hits whom: the regions of two entities on one tick, held against
//! each other.

use vstd::prelude::*;
use crate::animation::Animations;
use crate::geometry::{
    lemma_mirror_then_translate, lemma_reflection_and_translation_keep_order, Direction, AABB,
};
use crate::player::{lemma_hit_preserves_wf, Player};

verus! {

/// What the regions of two entities, A and B, say about one tick.
#[derive(Clone, Copy, PartialEq, Eq, Debug, Structural)]
pub enum HitOutcome {
    /// Neither entity reaches the other.
    NoHit,
    /// A reaches B, and B does not reach A.
    AHitsB,
    /// B reaches A, and A does not reach B.
    BHitsA,
    /// Each reaches the other on the same tick.
    MutualHit,
}

/// The attacker has a region that deals damage, the defender has a region
/// that can be hit, and the two intersect.
pub open spec fn spec_reaches(attacker: Player, defender: Player, anims: &Animations) -> bool {
    match (attacker.spec_hitbox(anims), defender.spec_hurtbox(anims)) {
        (Some(hit), Some(hurt)) => hit.spec_intersects(hurt),
        _ => false,
    }
}

pub open spec fn spec_resolve(a: Player, b: Player, anims: &Animations) -> HitOutcome {
    match (spec_reaches(a, b, anims), spec_reaches(b, a, anims)) {
        (true, true) => HitOutcome::MutualHit,
        (true, false) => HitOutcome::AHitsB,
        (false, true) => HitOutcome::BHitsA,
        (false, false) => HitOutcome::NoHit,
    }
}

/// The two entities after the outcome has taken effect. A one-sided hit is
/// handled by the entity that was hit. A mutual hit throws both back and
/// costs neither anything, which is not what two one-sided hits would do.
pub open spec fn spec_apply_outcome(
    a: Player,
    b: Player,
    outcome: HitOutcome,
    anims: &Animations,
) -> (Player, Player) {
    match outcome {
        HitOutcome::MutualHit => (a.spec_start_recoil(anims), b.spec_start_recoil(anims)),
        HitOutcome::AHitsB => (a, b.spec_handle_hit(anims)),
        HitOutcome::BHitsA => (a.spec_handle_hit(anims), b),
        HitOutcome::NoHit => (a, b),
    }
}

/// Whether the attacker's hit region intersects the defender's hurt region.
pub fn reaches(attacker: &Player, defender: &Player, anims: &Animations) -> (hit: bool)
    requires
        anims.wf(),
        attacker.animation.wf(anims),
        defender.animation.wf(anims),
    ensures
        hit == spec_reaches(*attacker, *defender, anims),
{
    match attacker.hitbox(anims) {
        Some(hit) => match defender.hurtbox(anims) {
            Some(hurt) => hit.intersects(&hurt),
            None => false,
        },
        None => false,
    }
}

/// Holds the regions of the two entities against each other.
pub fn resolve(a: &Player, b: &Player, anims: &Animations) -> (outcome: HitOutcome)
    requires
        anims.wf(),
        a.animation.wf(anims),
        b.animation.wf(anims),
    ensures
        outcome == spec_resolve(*a, *b, anims),
{
    let a_reaches: bool = reaches(a, b, anims);
    let b_reaches: bool = reaches(b, a, anims);
    if a_reaches && b_reaches {
        HitOutcome::MutualHit
    } else if a_reaches {
        HitOutcome::AHitsB
    } else if b_reaches {
        HitOutcome::BHitsA
    } else {
        HitOutcome::NoHit
    }
}

/// Lets the outcome take effect on the two entities.
pub fn apply_outcome(a: &mut Player, b: &mut Player, outcome: HitOutcome, anims: &Animations)
    requires
        anims.wf(),
        old(a).wf(anims),
        old(b).wf(anims),
    ensures
        (*final(a), *final(b)) == spec_apply_outcome(*old(a), *old(b), outcome, anims),
        final(a).wf(anims),
        final(b).wf(anims),
{
    match outcome {
        HitOutcome::MutualHit => {
            a.start_recoil(anims);
            b.start_recoil(anims);
        },
        HitOutcome::AHitsB => b.handle_hit(anims),
        HitOutcome::BHitsA => a.handle_hit(anims),
        HitOutcome::NoHit => {},
    }
}

/// Swapping the two entities swaps the one-sided outcomes and leaves the
/// other two as they are.
pub proof fn lemma_resolve_antisymmetric(a: Player, b: Player, anims: &Animations)
    ensures
        spec_resolve(a, b, anims) == HitOutcome::AHitsB <==> spec_resolve(b, a, anims)
            == HitOutcome::BHitsA,
        spec_resolve(a, b, anims) == HitOutcome::BHitsA <==> spec_resolve(b, a, anims)
            == HitOutcome::AHitsB,
        spec_resolve(a, b, anims) == HitOutcome::MutualHit <==> spec_resolve(b, a, anims)
            == HitOutcome::MutualHit,
        spec_resolve(a, b, anims) == HitOutcome::NoHit <==> spec_resolve(b, a, anims)
            == HitOutcome::NoHit,
{
}

/// An entity has a region exactly when the frame that it shows has one. The
/// region of an entity that faces east is the frame's box moved to the
/// entity's position. The region of an entity that faces west is the region
/// that it would have facing east, reflected about the vertical line through
/// its position. Either way the region has its corners in their order.
pub proof fn lemma_west_regions_are_east_regions_reflected(p: Player, anims: &Animations)
    requires
        anims.wf(),
        p.animation.wf(anims),
    ensures
        ({
            let east = Player { facing: Direction::East, ..p };
            let west = Player { facing: Direction::West, ..p };
            let frame = p.spec_frame(anims);
            &&& east.spec_hitbox(anims) == match frame.hitbox {
                Some(local) => Some(local.spec_translated(p.loc)),
                None => None::<AABB>,
            }
            &&& east.spec_hurtbox(anims) == match frame.hurtbox {
                Some(local) => Some(local.spec_translated(p.loc)),
                None => None::<AABB>,
            }
            &&& west.spec_hitbox(anims) == match east.spec_hitbox(anims) {
                Some(region) => Some(region.spec_reflected_about(p.loc.x as int)),
                None => None::<AABB>,
            }
            &&& west.spec_hurtbox(anims) == match east.spec_hurtbox(anims) {
                Some(region) => Some(region.spec_reflected_about(p.loc.x as int)),
                None => None::<AABB>,
            }
            &&& (east.spec_hitbox(anims) matches Some(region) ==> region.spec_ordered())
            &&& (west.spec_hitbox(anims) matches Some(region) ==> region.spec_ordered())
            &&& (east.spec_hurtbox(anims) matches Some(region) ==> region.spec_ordered())
            &&& (west.spec_hurtbox(anims) matches Some(region) ==> region.spec_ordered())
        }),
{
    let frame = p.spec_frame(anims);
    assert(anims.clips()[p.animation.data as int].wf());
    assert(frame.wf());
    if let Some(local) = frame.hitbox {
        lemma_mirror_then_translate(local, p.loc);
        lemma_reflection_and_translation_keep_order(local, p.loc.x as int, p.loc);
    }
    if let Some(local) = frame.hurtbox {
        lemma_mirror_then_translate(local, p.loc);
        lemma_reflection_and_translation_keep_order(local, p.loc.x as int, p.loc);
    }
}

/// Whatever the outcome, both entities stay well formed, neither gains
/// endurance, and an entity that did what it played before does so after.
pub proof fn lemma_apply_outcome_preserves_wf(
    a: Player,
    b: Player,
    outcome: HitOutcome,
    anims: &Animations,
)
    requires
        anims.wf(),
        a.wf(anims),
        b.wf(anims),
    ensures
        spec_apply_outcome(a, b, outcome, anims).0.wf(anims),
        spec_apply_outcome(a, b, outcome, anims).1.wf(anims),
        spec_apply_outcome(a, b, outcome, anims).0.endurance <= a.endurance,
        spec_apply_outcome(a, b, outcome, anims).1.endurance <= b.endurance,
        a.settled(anims) ==> spec_apply_outcome(a, b, outcome, anims).0.settled(anims),
        b.settled(anims) ==> spec_apply_outcome(a, b, outcome, anims).1.settled(anims),
        outcome == HitOutcome::MutualHit ==> spec_apply_outcome(a, b, outcome, anims).0.endurance
            == a.endurance && spec_apply_outcome(a, b, outcome, anims).1.endurance == b.endurance,
{
    lemma_hit_preserves_wf(a, anims);
    lemma_hit_preserves_wf(b, anims);
}

} // verus!
