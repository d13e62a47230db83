//! One round between two entities, advanced tick by tick.
//!
//! A tick is a function of the round before it, the two inputs and the
//! catalog, and of nothing else. Its parts run in a fixed order: each
//! entity's endurance drops and an entity at zero ends the round; then its
//! cursor moves on; then both turn to face each other; then each idle
//! entity takes its input; then both move; then hits are resolved.

use vstd::prelude::*;
use crate::animation::Animations;
use crate::combat::{
    apply_outcome, lemma_apply_outcome_preserves_wf, resolve, spec_apply_outcome, spec_resolve,
};
use crate::geometry::{Direction, Vec2};
use crate::input::Input;
use crate::player::{
    lemma_act_preserves_wf, lemma_fresh_cursors_are_valid, lemma_idle_entity_rests,
    lemma_jumps_stay_in_envelope, lemma_tick_preserves_wf, Player, PlayerState, Tint,
    MAX_ENDURANCE, PLAYFIELD_HALF_WIDTH,
};

verus! {

/// A round in play: exactly two entities and nothing else.
#[derive(Clone, Copy, PartialEq, Eq, Debug)]
pub struct PlayingState {
    pub players: [Player; 2],
}

/// A round in play, or what is shown once it has ended. `winner` is the
/// slot, `0` or `1`, of the entity that still had endurance.
#[derive(Clone, Copy, PartialEq, Eq, Debug)]
pub enum GameState {
    Playing(PlayingState),
    ScoreScreen { winner: usize },
}

/// The directions in which two entities look after turning to each other:
/// the one further west looks east and the other looks west. Entities at
/// the same `x` keep looking where they looked.
pub open spec fn spec_facings(a: Player, b: Player) -> (Direction, Direction) {
    if a.loc.x < b.loc.x {
        (Direction::East, Direction::West)
    } else if a.loc.x > b.loc.x {
        (Direction::West, Direction::East)
    } else {
        (a.facing, b.facing)
    }
}

impl PlayingState {
    /// Both entities are well formed.
    pub open spec fn wf(&self, anims: &Animations) -> bool {
        &&& self.players[0].wf(anims)
        &&& self.players[1].wf(anims)
    }

    /// For both entities, what they do and what they play agree.
    pub open spec fn settled(&self, anims: &Animations) -> bool {
        &&& self.players[0].settled(anims)
        &&& self.players[1].settled(anims)
    }

    /// The round at its start: both entities idle and standing, with full
    /// endurance, half way between the centre and their edge of the
    /// playfield, looking at each other.
    pub open spec fn spec_new(anims: &Animations) -> PlayingState {
        PlayingState {
            players: [
                Player {
                    tint: Tint { r: 255, g: 204, b: 204 },
                    facing: Direction::East,
                    animation: anims.clips()[anims.standing_id() as int].spec_to_anim(),
                    loc: Vec2 { x: -2000i32, y: 0 },
                    velocity: Vec2 { x: 0, y: 0 },
                    state: PlayerState::Idle,
                    endurance: MAX_ENDURANCE,
                },
                Player {
                    tint: Tint { r: 204, g: 204, b: 255 },
                    facing: Direction::West,
                    animation: anims.clips()[anims.standing_id() as int].spec_to_anim(),
                    loc: Vec2 { x: 2000, y: 0 },
                    velocity: Vec2 { x: 0, y: 0 },
                    state: PlayerState::Idle,
                    endurance: MAX_ENDURANCE,
                },
            ],
        }
    }

    /// The round one tick later, and the state that takes its place if the
    /// tick ended it.
    ///
    /// When an entity runs out of endurance the tick stops there: entity 0
    /// is looked at first, so that entity 1 wins if both run out on the same
    /// tick, and what the tick has done up to that point stays done.
    pub open spec fn spec_update(self, inputs: [Input; 2], anims: &Animations) -> (
        PlayingState,
        Option<GameState>,
    ) {
        let (a, a_out) = self.players[0].spec_tick(anims);
        if a_out {
            (
                PlayingState { players: [a, self.players[1]] },
                Some(GameState::ScoreScreen { winner: 1 }),
            )
        } else {
            let (b, b_out) = self.players[1].spec_tick(anims);
            if b_out {
                (PlayingState { players: [a, b] }, Some(GameState::ScoreScreen { winner: 0 }))
            } else {
                let (a_facing, b_facing) = spec_facings(a, b);
                let a = Player { facing: a_facing, ..a }.spec_act(inputs[0], anims);
                let b = Player { facing: b_facing, ..b }.spec_act(inputs[1], anims);
                let (a, b) = spec_apply_outcome(a, b, spec_resolve(a, b, anims), anims);
                (PlayingState { players: [a, b] }, None)
            }
        }
    }

    /// The round at its start.
    pub fn new(anims: &Animations) -> (round: PlayingState)
        requires
            anims.wf(),
        ensures
            round == Self::spec_new(anims),
            round.wf(anims),
            round.settled(anims),
    {
        let standing = anims.standing();
        proof {
            lemma_fresh_cursors_are_valid(anims);
        }
        PlayingState {
            players: [
                Player {
                    tint: Tint { r: 255, g: 204, b: 204 },
                    facing: Direction::East,
                    animation: standing.to_anim(),
                    loc: Vec2 { x: -2000i32, y: 0 },
                    velocity: Vec2 { x: 0, y: 0 },
                    state: PlayerState::Idle,
                    endurance: MAX_ENDURANCE,
                },
                Player {
                    tint: Tint { r: 204, g: 204, b: 255 },
                    facing: Direction::West,
                    animation: standing.to_anim(),
                    loc: Vec2 { x: 2000, y: 0 },
                    velocity: Vec2 { x: 0, y: 0 },
                    state: PlayerState::Idle,
                    endurance: MAX_ENDURANCE,
                },
            ],
        }
    }

    /// Whether the round is well formed with respect to the catalog.
    pub fn is_valid(&self, anims: &Animations) -> (valid: bool)
        ensures
            valid == self.wf(anims),
    {
        self.players[0].is_valid(anims) && self.players[1].is_valid(anims)
    }

    /// The regions in which the two entities deal damage on this tick.
    pub fn hitboxes(&self, anims: &Animations) -> (regions: [Option<crate::geometry::AABB>; 2])
        requires
            anims.wf(),
            self.wf(anims),
        ensures
            regions[0] == self.players[0].spec_hitbox(anims),
            regions[1] == self.players[1].spec_hitbox(anims),
    {
        [self.players[0].hitbox(anims), self.players[1].hitbox(anims)]
    }

    /// The regions in which the two entities can be hit on this tick.
    pub fn hurtboxes(&self, anims: &Animations) -> (regions: [Option<crate::geometry::AABB>; 2])
        requires
            anims.wf(),
            self.wf(anims),
        ensures
            regions[0] == self.players[0].spec_hurtbox(anims),
            regions[1] == self.players[1].spec_hurtbox(anims),
    {
        [self.players[0].hurtbox(anims), self.players[1].hurtbox(anims)]
    }

    /// Advances the round by one tick. Returns the state that takes the
    /// round's place if the tick ended it, and `None` if the round goes on.
    pub fn update(&mut self, inputs: [Input; 2], anims: &Animations) -> (next: Option<GameState>)
        requires
            anims.wf(),
            old(self).wf(anims),
        ensures
            (*final(self), next) == old(self).spec_update(inputs, anims),
            final(self).wf(anims),
            next is None && old(self).settled(anims) ==> final(self).settled(anims),
    {
        proof {
            lemma_update_preserves_wf(*old(self), inputs, anims);
        }
        let mut a: Player = self.players[0];
        let mut b: Player = self.players[1];

        // Endurance, end of round, cursors.
        if a.tick(anims) {
            self.players = [a, b];
            return Some(GameState::ScoreScreen { winner: 1 });
        }
        if b.tick(anims) {
            self.players = [a, b];
            return Some(GameState::ScoreScreen { winner: 0 });
        }

        // Facing.
        if a.loc.x < b.loc.x {
            a.facing = Direction::East;
            b.facing = Direction::West;
        } else if a.loc.x > b.loc.x {
            a.facing = Direction::West;
            b.facing = Direction::East;
        }

        // Input and movement.
        a.act(inputs[0], anims);
        b.act(inputs[1], anims);

        // Hits.
        let outcome = resolve(&a, &b, anims);
        apply_outcome(&mut a, &mut b, outcome, anims);
        self.players = [a, b];
        None
    }
}

/// A tick is a function of the round, the inputs and the catalog: equal
/// rounds with equal inputs give equal rounds and equal outcomes.
pub proof fn lemma_update_is_deterministic(
    first: PlayingState,
    second: PlayingState,
    first_inputs: [Input; 2],
    second_inputs: [Input; 2],
    anims: &Animations,
)
    requires
        first == second,
        first_inputs == second_inputs,
    ensures
        first.spec_update(first_inputs, anims) == second.spec_update(second_inputs, anims),
{
}

/// A tick keeps a round well formed, so that no entity ever has more than
/// [`MAX_ENDURANCE`]; and in a round that goes on, both entities do what
/// they play if they did so before.
pub proof fn lemma_update_preserves_wf(round: PlayingState, inputs: [Input; 2], anims: &Animations)
    requires
        anims.wf(),
        round.wf(anims),
    ensures
        round.spec_update(inputs, anims).0.wf(anims),
        round.spec_update(inputs, anims).0.players[0].endurance <= MAX_ENDURANCE,
        round.spec_update(inputs, anims).0.players[1].endurance <= MAX_ENDURANCE,
        round.spec_update(inputs, anims).1 is None && round.settled(anims) ==> round.spec_update(
            inputs,
            anims,
        ).0.settled(anims),
{
    let (a, a_out) = round.players[0].spec_tick(anims);
    lemma_tick_preserves_wf(round.players[0], anims);
    if !a_out {
        let (b, b_out) = round.players[1].spec_tick(anims);
        lemma_tick_preserves_wf(round.players[1], anims);
        if !b_out {
            let (a_facing, b_facing) = spec_facings(a, b);
            let a_turned = Player { facing: a_facing, ..a };
            let b_turned = Player { facing: b_facing, ..b };
            lemma_act_preserves_wf(a_turned, inputs[0], anims);
            lemma_act_preserves_wf(b_turned, inputs[1], anims);
            let a_moved = a_turned.spec_act(inputs[0], anims);
            let b_moved = b_turned.spec_act(inputs[1], anims);
            lemma_apply_outcome_preserves_wf(
                a_moved,
                b_moved,
                spec_resolve(a_moved, b_moved, anims),
                anims,
            );
        }
    }
}

/// A round starts with both entities where jumping can take them, and a
/// tick keeps them there: in play, no entity rises above 2401 units or falls
/// faster than 192 units a tick.
pub proof fn lemma_update_keeps_jump_envelope(
    round: PlayingState,
    inputs: [Input; 2],
    anims: &Animations,
)
    requires
        round.players[0].spec_in_jump_envelope(),
        round.players[1].spec_in_jump_envelope(),
    ensures
        PlayingState::spec_new(anims).players[0].spec_in_jump_envelope(),
        PlayingState::spec_new(anims).players[1].spec_in_jump_envelope(),
        round.spec_update(inputs, anims).0.players[0].spec_in_jump_envelope(),
        round.spec_update(inputs, anims).0.players[1].spec_in_jump_envelope(),
{
    let (a, a_out) = round.players[0].spec_tick(anims);
    let (b, b_out) = round.players[1].spec_tick(anims);
    let (a_facing, b_facing) = spec_facings(a, b);
    let a_turned = Player { facing: a_facing, ..a };
    let b_turned = Player { facing: b_facing, ..b };
    assert(a_turned.loc == round.players[0].loc && a_turned.velocity == round.players[0].velocity);
    assert(b_turned.loc == round.players[1].loc && b_turned.velocity == round.players[1].velocity);
    assert(a_turned.spec_flight_energy() == round.players[0].spec_flight_energy());
    assert(b_turned.spec_flight_energy() == round.players[1].spec_flight_energy());
    lemma_jumps_stay_in_envelope(a_turned, inputs[0], anims);
    lemma_jumps_stay_in_envelope(b_turned, inputs[1], anims);
    let a_moved = a_turned.spec_act(inputs[0], anims);
    let b_moved = b_turned.spec_act(inputs[1], anims);
    let (a_done, b_done) = spec_apply_outcome(
        a_moved,
        b_moved,
        spec_resolve(a_moved, b_moved, anims),
        anims,
    );
    assert(a_done.loc == a_moved.loc && a_done.velocity == a_moved.velocity);
    assert(b_done.loc == b_moved.loc && b_done.velocity == b_moved.velocity);
    assert(a_done.spec_flight_energy() == a_moved.spec_flight_energy());
    assert(b_done.spec_flight_energy() == b_moved.spec_flight_energy());
    assert(0 * 0 - 8 * 0 + 16 * 0 == 0);
}

/// A tick ends the round exactly when an entity starts it with an
/// endurance of one or less, which the tick takes to zero: entity 1 wins
/// if that is entity 0, and entity 0 wins if it is entity 1 alone.
pub proof fn lemma_round_ends_at_zero_endurance(
    round: PlayingState,
    inputs: [Input; 2],
    anims: &Animations,
)
    ensures
        round.spec_update(inputs, anims).1 == if round.players[0].endurance <= 1 {
            Some(GameState::ScoreScreen { winner: 1 })
        } else if round.players[1].endurance <= 1 {
            Some(GameState::ScoreScreen { winner: 0 })
        } else {
            None
        },
        round.players[0].endurance <= 1 ==> round.spec_update(inputs, anims).0.players[0].endurance
            == 0,
        round.players[0].endurance > 1 && round.players[1].endurance <= 1 ==> round.spec_update(
            inputs,
            anims,
        ).0.players[1].endurance == 0,
{
}

/// An entity that is idle, rests on the ground inside the playfield and has
/// more than one tick of endurance left.
pub open spec fn spec_at_rest(p: Player) -> bool {
    &&& p.state == PlayerState::Idle
    &&& p.spec_grounded()
    &&& -PLAYFIELD_HALF_WIDTH <= p.loc.x <= PLAYFIELD_HALF_WIDTH
    &&& p.endurance > 1
}

/// While both entities are at rest and get no input, and standing deals no
/// damage, a tick moves nobody and does not end the round: it only takes
/// one tick of endurance from each. The round then ends for want of
/// endurance, not before.
pub proof fn lemma_quiet_tick(round: PlayingState, inputs: [Input; 2], anims: &Animations)
    requires
        anims.wf(),
        round.wf(anims),
        spec_at_rest(round.players[0]),
        spec_at_rest(round.players[1]),
        inputs[0].input_bits & 15 == 0,
        inputs[1].input_bits & 15 == 0,
        forall|k: int|
            0 <= k < anims.clips()[anims.standing_id() as int].sprites@.len() ==> (
            #[trigger] anims.clips()[anims.standing_id() as int].sprites@[k]).hitbox is None,
    ensures
        round.spec_update(inputs, anims).1 is None,
        forall|slot: int|
            0 <= slot < 2 ==> {
                let before = round.players[slot];
                let after = #[trigger] round.spec_update(inputs, anims).0.players[slot];
                &&& after.loc == before.loc
                &&& after.velocity == (Vec2 { x: 0, y: 0 })
                &&& after.state == PlayerState::Idle
                &&& after.endurance == before.endurance - 1
                &&& after.animation.data == anims.standing_id()
            },
{
    lemma_no_flags(inputs[0]);
    lemma_no_flags(inputs[1]);
    let (a, a_out) = round.players[0].spec_tick(anims);
    let (b, b_out) = round.players[1].spec_tick(anims);
    lemma_tick_preserves_wf(round.players[0], anims);
    lemma_tick_preserves_wf(round.players[1], anims);
    let (a_facing, b_facing) = spec_facings(a, b);
    let a_turned = Player { facing: a_facing, ..a };
    let b_turned = Player { facing: b_facing, ..b };
    lemma_idle_entity_rests(a_turned, inputs[0], anims);
    lemma_idle_entity_rests(b_turned, inputs[1], anims);
    lemma_act_preserves_wf(a_turned, inputs[0], anims);
    lemma_act_preserves_wf(b_turned, inputs[1], anims);
    let a_moved = a_turned.spec_act(inputs[0], anims);
    let b_moved = b_turned.spec_act(inputs[1], anims);
    assert(a_moved.spec_frame(anims).hitbox is None);
    assert(b_moved.spec_frame(anims).hitbox is None);
    assert(a_moved.spec_hitbox(anims) is None);
    assert(b_moved.spec_hitbox(anims) is None);
}

proof fn lemma_no_flags(input: Input)
    requires
        input.input_bits & 15 == 0,
    ensures
        !input.spec_left(),
        !input.spec_right(),
        !input.spec_attack(),
        !input.spec_jump(),
{
    let bits = input.input_bits;
    assert(bits & 1 == 0 && bits & 2 == 0 && bits & 4 == 0 && bits & 8 == 0) by (bit_vector)
        requires
            bits & 15 == 0,
    ;
}

} // verus!
