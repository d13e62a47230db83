//! One entity of a round: where it is, how it moves, what it is doing, and
//! how much endurance it has left.

use vstd::prelude::*;
use std::ops::ControlFlow;
use crate::animation::{
    lemma_next_frame_steps, Animation, AnimationData, Animations, SpriteDraw,
};
use crate::input::Input;
use crate::geometry::{saturating_add, spec_saturating_add, Direction, Vec2, AABB, BOX_LIMIT};

verus! {

/// Endurance at the start of a round, and the most an entity can have.
pub const MAX_ENDURANCE: u32 = 600;

/// Endurance gained by starting an attack.
pub const ENDURANCE_ADD_ATTACK: u32 = 60;

/// Endurance lost by taking a hit.
pub const ENDURANCE_SUB_HIT: u32 = 180;

/// Horizontal speed of an entity that walks on the ground, per tick.
pub const PLAYER_SPEED: i32 = 40;

/// Change of horizontal speed per tick of an entity that steers in the air.
pub const AIR_NUDGE: i32 = 4;

/// Loss of vertical speed per tick of an entity in the air.
pub const GRAVITY: i32 = 8;

/// Vertical speed at the start of a jump.
pub const JUMP_SPEED: i32 = 200;

/// Distance from the centre of the playfield to either edge.
pub const PLAYFIELD_HALF_WIDTH: i32 = 4000;

/// The flight energy of an entity at the start of a jump, which it keeps
/// until it lands: see [`Player::spec_flight_energy`].
pub const JUMP_ENERGY: i32 = 38400;

/// What an entity is doing.
#[derive(Clone, Copy, PartialEq, Eq, Debug, Structural)]
pub enum PlayerState {
    Idle,
    Recoiling,
    Attacking,
}

/// Which way an entity walks, seen from where it looks.
#[derive(Clone, Copy, PartialEq, Eq, Debug, Structural)]
pub enum Stride {
    Still,
    Forward,
    Backward,
}

/// Colour that the entity is drawn in. The simulation carries it along and
/// never reads it.
#[derive(Clone, Copy, PartialEq, Eq, Debug, Structural)]
pub struct Tint {
    pub r: u8,
    pub g: u8,
    pub b: u8,
}

/// One of the two entities of a round.
#[derive(Clone, Copy, PartialEq, Eq, Debug, Structural)]
pub struct Player {
    pub facing: Direction,
    pub loc: Vec2,
    pub endurance: u32,
    pub velocity: Vec2,
    pub tint: Tint,
    /// Counts the frames of what the entity is doing; nothing else does.
    pub animation: Animation,
    pub state: PlayerState,
}

/// The sign of a walk along the x axis: `1` towards east, `-1` towards west.
pub open spec fn spec_heading(facing: Direction, stride: Stride) -> int {
    match (stride, facing) {
        (Stride::Still, _) => 0,
        (Stride::Forward, Direction::East) => 1,
        (Stride::Forward, Direction::West) => -1,
        (Stride::Backward, Direction::East) => -1,
        (Stride::Backward, Direction::West) => 1,
    }
}

/// A local box of an entity put where the entity is: reflected about the
/// entity's vertical axis if it faces west, then moved to its position.
pub open spec fn spec_place(local: AABB, facing: Direction, at: Vec2) -> AABB {
    match facing {
        Direction::East => local.spec_translated(at),
        Direction::West => local.spec_mirrored().spec_translated(at),
    }
}

/// The value `v` held inside `[lo, hi]`.
pub open spec fn spec_clamp(v: int, lo: int, hi: int) -> int {
    if v < lo {
        lo
    } else if v > hi {
        hi
    } else {
        v
    }
}

fn heading(facing: Direction, stride: Stride) -> (sign: i32)
    ensures
        sign == spec_heading(facing, stride),
{
    match stride {
        Stride::Still => 0,
        Stride::Forward => match facing {
            Direction::East => 1,
            Direction::West => -1,
        },
        Stride::Backward => match facing {
            Direction::East => -1,
            Direction::West => 1,
        },
    }
}

fn place(local: &AABB, facing: Direction, at: Vec2) -> (placed: AABB)
    requires
        local.within(BOX_LIMIT as int),
    ensures
        placed == spec_place(*local, facing, at),
        local.spec_ordered() ==> placed.spec_ordered(),
{
    match facing {
        Direction::East => local.translated(at),
        Direction::West => local.mirrored().translated(at),
    }
}

impl Player {
    /// The cursor is a position in the catalog and the endurance is within
    /// its range.
    pub open spec fn wf(&self, anims: &Animations) -> bool {
        &&& self.animation.wf(anims)
        &&& self.endurance <= MAX_ENDURANCE
    }

    /// What the entity does and what it plays agree: an attack plays the
    /// attack, a recoil plays the recoil or the block, and an idle entity
    /// stands or walks one way.
    pub open spec fn settled(&self, anims: &Animations) -> bool {
        match self.state {
            PlayerState::Idle => self.animation.data == anims.standing_id() || self.animation.data
                == anims.forward_id() || self.animation.data == anims.backward_id(),
            PlayerState::Attacking => self.animation.data == anims.attack_id(),
            PlayerState::Recoiling => self.animation.data == anims.recoil_id()
                || self.animation.data == anims.block_id(),
        }
    }

    /// The frame that the entity shows.
    pub open spec fn spec_frame(self, anims: &Animations) -> crate::animation::AnnotatedSprite {
        anims.clips()[self.animation.data as int].sprites@[self.animation.sprite_index as int]
    }

    pub open spec fn spec_hitbox(self, anims: &Animations) -> Option<AABB> {
        match self.spec_frame(anims).hitbox {
            Some(local) => Some(spec_place(local, self.facing, self.loc)),
            None => None,
        }
    }

    pub open spec fn spec_hurtbox(self, anims: &Animations) -> Option<AABB> {
        match self.spec_frame(anims).hurtbox {
            Some(local) => Some(spec_place(local, self.facing, self.loc)),
            None => None,
        }
    }

    /// The entity with the cursor at the start of the definition `id`.
    pub open spec fn spec_playing(self, id: usize) -> Player {
        Player { animation: Animation { data: id, sprite_index: 0, frame_counter: 0 }, ..self }
    }

    /// The entity playing the definition `id`: from the start, unless it
    /// plays that definition already.
    pub open spec fn spec_ensure(self, id: usize) -> Player {
        if self.animation.data == id {
            self
        } else {
            self.spec_playing(id)
        }
    }

    pub open spec fn spec_start_attack(self, anims: &Animations) -> Player {
        Player {
            state: PlayerState::Attacking,
            endurance: if self.endurance + ENDURANCE_ADD_ATTACK > MAX_ENDURANCE {
                MAX_ENDURANCE
            } else {
                (self.endurance + ENDURANCE_ADD_ATTACK) as u32
            },
            ..self.spec_playing(anims.attack_id())
        }
    }

    pub open spec fn spec_start_idle(self) -> Player {
        Player { state: PlayerState::Idle, ..self }
    }

    pub open spec fn spec_start_recoil(self, anims: &Animations) -> Player {
        Player { state: PlayerState::Recoiling, ..self.spec_playing(anims.recoil_id()) }
    }

    pub open spec fn spec_start_block(self, anims: &Animations) -> Player {
        Player { state: PlayerState::Recoiling, ..self.spec_playing(anims.block_id()) }
    }

    pub open spec fn spec_is_walking_backwards(self, anims: &Animations) -> bool {
        self.animation.data == anims.backward_id()
    }

    /// A hit on an entity that walks backwards is blocked and costs nothing;
    /// any other hit costs endurance, down to zero at most.
    pub open spec fn spec_handle_hit(self, anims: &Animations) -> Player {
        if self.spec_is_walking_backwards(anims) {
            self.spec_start_block(anims)
        } else {
            Player {
                endurance: if self.endurance < ENDURANCE_SUB_HIT {
                    0
                } else {
                    (self.endurance - ENDURANCE_SUB_HIT) as u32
                },
                ..self
            }.spec_start_recoil(anims)
        }
    }

    /// Whether the entity stands on the ground and does not move up or down.
    pub open spec fn spec_grounded(self) -> bool {
        self.loc.y == 0 && self.velocity.y == 0
    }

    /// On the ground the horizontal velocity is set outright: the walking
    /// speed along the stride, or nothing. In the air the stride only nudges
    /// it, and gravity takes from the vertical velocity.
    pub open spec fn spec_accelerate(self, stride: Stride) -> Player {
        let sign = spec_heading(self.facing, stride);
        if self.spec_grounded() {
            Player {
                velocity: Vec2 { x: (PLAYER_SPEED * sign) as i32, y: self.velocity.y },
                ..self
            }
        } else {
            Player {
                velocity: Vec2 {
                    x: spec_saturating_add(self.velocity.x, (AIR_NUDGE * sign) as i32),
                    y: spec_saturating_add(self.velocity.y, (-GRAVITY) as i32),
                },
                ..self
            }
        }
    }

    /// The position moves by the velocity. It stays inside the playfield,
    /// and an entity that would sink below the ground lands on it.
    pub open spec fn spec_update_loc(self) -> Player {
        let x = spec_clamp(
            self.loc.x + self.velocity.x,
            -PLAYFIELD_HALF_WIDTH as int,
            PLAYFIELD_HALF_WIDTH as int,
        ) as i32;
        let y = spec_saturating_add(self.loc.y, self.velocity.y);
        if y < 0 {
            Player { loc: Vec2 { x, y: 0 }, velocity: Vec2 { x: self.velocity.x, y: 0 }, ..self }
        } else {
            Player { loc: Vec2 { x, y }, ..self }
        }
    }

    /// What a flight conserves from tick to tick: it grows with the height
    /// and with the vertical speed, and is zero for an entity at rest on the
    /// ground.
    pub open spec fn spec_flight_energy(self) -> int {
        self.velocity.y * self.velocity.y - GRAVITY * self.velocity.y + 2 * GRAVITY * self.loc.y
    }

    /// The entity is not below the ground and has no more flight energy
    /// than a jump gives: it is where jumping from the ground can take it.
    pub open spec fn spec_in_jump_envelope(self) -> bool {
        self.loc.y >= 0 && self.spec_flight_energy() <= JUMP_ENERGY
    }

    /// The first part of a tick: the endurance drops by one. An entity whose
    /// endurance is then zero is out, and nothing else happens to it.
    /// Otherwise its cursor moves on by one tick, and an entity whose
    /// definition has come to its end is idle again.
    pub open spec fn spec_tick(self, anims: &Animations) -> (Player, bool) {
        let endurance = if self.endurance >= 1 {
            (self.endurance - 1) as u32
        } else {
            0
        };
        if endurance == 0 {
            (Player { endurance, ..self }, true)
        } else {
            let (animation, ended) = self.animation.spec_next_frame(
                anims.clips()[self.animation.data as int],
            );
            (
                Player {
                    endurance,
                    animation,
                    state: if ended {
                        PlayerState::Idle
                    } else {
                        self.state
                    },
                    ..self
                },
                false,
            )
        }
    }

    /// The walk that the input asks for: "left" and "right" are directions
    /// on the screen, a stride is relative to where the entity looks. Both
    /// at once, or neither, is no walk at all.
    pub open spec fn spec_stride(self, input: Input) -> Stride {
        let forwards = (input.spec_left() && self.facing == Direction::West) || (input.spec_right()
            && self.facing == Direction::East);
        let backwards = (input.spec_left() && self.facing == Direction::East) || (
        input.spec_right() && self.facing == Direction::West);
        if forwards && !backwards {
            Stride::Forward
        } else if backwards && !forwards {
            Stride::Backward
        } else {
            Stride::Still
        }
    }

    /// What the input does to an entity, and the stride that it then takes.
    /// Only an idle entity listens. An attack comes before everything else;
    /// a jump, which needs the entity to rest on the ground, comes before a
    /// walk.
    pub open spec fn spec_control(self, input: Input, anims: &Animations) -> (Player, Stride) {
        if self.state != PlayerState::Idle {
            (self, Stride::Still)
        } else if input.spec_attack() {
            (self.spec_start_attack(anims), Stride::Still)
        } else if input.spec_jump() && self.spec_grounded() {
            (
                Player {
                    velocity: Vec2 { x: self.velocity.x, y: JUMP_SPEED },
                    ..self
                }.spec_ensure(anims.standing_id()),
                Stride::Still,
            )
        } else {
            match self.spec_stride(input) {
                Stride::Forward => (self.spec_ensure(anims.forward_id()), Stride::Forward),
                Stride::Backward => (self.spec_ensure(anims.backward_id()), Stride::Backward),
                Stride::Still => (self.spec_ensure(anims.standing_id()), Stride::Still),
            }
        }
    }

    /// The entity after it has taken its input and moved.
    pub open spec fn spec_act(self, input: Input, anims: &Animations) -> Player {
        let (heard, stride) = self.spec_control(input, anims);
        heard.spec_accelerate(stride).spec_update_loc()
    }

    /// Whether the entity is well formed with respect to the catalog.
    pub fn is_valid(&self, anims: &Animations) -> (valid: bool)
        ensures
            valid == self.wf(anims),
    {
        self.animation.is_valid(anims) && self.endurance <= MAX_ENDURANCE
    }

    /// Runs the first part of a tick and tells whether the entity is out.
    pub fn tick(&mut self, anims: &Animations) -> (out: bool)
        requires
            anims.wf(),
            old(self).wf(anims),
        ensures
            (*final(self), out) == old(self).spec_tick(anims),
            final(self).wf(anims),
    {
        self.endurance = self.endurance.saturating_sub(1);
        if self.endurance == 0 {
            return true;
        }
        match self.animation.next_frame(anims) {
            ControlFlow::Break(_) => {
                self.start_idle();
            },
            ControlFlow::Continue(_) => {},
        }
        false
    }

    /// The walk that the input asks for.
    pub fn stride(&self, input: Input) -> (walk: Stride)
        ensures
            walk == self.spec_stride(input),
    {
        let left: bool = input.is_left_pressed();
        let right: bool = input.is_right_pressed();
        let west: bool = match self.facing {
            Direction::West => true,
            Direction::East => false,
        };
        let forwards: bool = (left && west) || (right && !west);
        let backwards: bool = (left && !west) || (right && west);
        if forwards && !backwards {
            Stride::Forward
        } else if backwards && !forwards {
            Stride::Backward
        } else {
            Stride::Still
        }
    }

    /// Lets the entity take its input and returns the stride to move with.
    pub fn control(&mut self, input: Input, anims: &Animations) -> (walk: Stride)
        requires
            anims.wf(),
        ensures
            (*final(self), walk) == old(self).spec_control(input, anims),
            old(self).wf(anims) ==> final(self).wf(anims),
    {
        match self.state {
            PlayerState::Idle => {},
            _ => {
                return Stride::Still;
            },
        }
        if input.is_attack_pressed() {
            self.start_attack(anims);
            return Stride::Still;
        }
        if input.is_jump_pressed() && self.loc.y == 0 && self.velocity.y == 0 {
            self.velocity.y = JUMP_SPEED;
            self.ensure_standing(anims);
            return Stride::Still;
        }
        let walk: Stride = self.stride(input);
        match walk {
            Stride::Forward => self.ensure_walking_forwards(anims),
            Stride::Backward => self.ensure_walking_backwards(anims),
            Stride::Still => self.ensure_standing(anims),
        }
        walk
    }

    /// Lets the entity take its input and move.
    pub fn act(&mut self, input: Input, anims: &Animations)
        requires
            anims.wf(),
            old(self).wf(anims),
        ensures
            *final(self) == old(self).spec_act(input, anims),
            final(self).wf(anims),
    {
        let walk: Stride = self.control(input, anims);
        self.accelerate(walk);
        self.update_loc();
    }

    /// Sets the velocity for this tick: outright on the ground, by a nudge
    /// and by gravity in the air.
    pub fn accelerate(&mut self, stride: Stride)
        ensures
            *final(self) == old(self).spec_accelerate(stride),
    {
        let sign: i32 = heading(self.facing, stride);
        if self.loc.y == 0 && self.velocity.y == 0 {
            self.velocity.x = PLAYER_SPEED * sign;
        } else {
            self.velocity.x = saturating_add(self.velocity.x, AIR_NUDGE * sign);
            self.velocity.y = saturating_add(self.velocity.y, -GRAVITY);
        }
    }

    /// Moves the entity by its velocity, inside the playfield and not below
    /// the ground.
    pub fn update_loc(&mut self)
        ensures
            *final(self) == old(self).spec_update_loc(),
            -PLAYFIELD_HALF_WIDTH <= final(self).loc.x <= PLAYFIELD_HALF_WIDTH,
            final(self).loc.y >= 0,
    {
        let moved: i32 = saturating_add(self.loc.x, self.velocity.x);
        self.loc.x = if moved < -PLAYFIELD_HALF_WIDTH {
            -PLAYFIELD_HALF_WIDTH
        } else if moved > PLAYFIELD_HALF_WIDTH {
            PLAYFIELD_HALF_WIDTH
        } else {
            moved
        };
        self.loc.y = saturating_add(self.loc.y, self.velocity.y);
        if self.loc.y < 0 {
            self.loc.y = 0;
            self.velocity.y = 0;
        }
    }

    /// The point that the entity's frames are drawn around.
    pub fn center(&self) -> (at: Vec2)
        ensures
            at == self.loc,
    {
        self.loc
    }

    /// The region in which the entity deals damage on this tick.
    pub fn hitbox(&self, anims: &Animations) -> (region: Option<AABB>)
        requires
            anims.wf(),
            self.animation.wf(anims),
        ensures
            region == self.spec_hitbox(anims),
            region matches Some(placed) ==> placed.spec_ordered(),
    {
        match self.animation.sprite(anims).hitbox {
            Some(local) => Some(place(&local, self.facing, self.center())),
            None => None,
        }
    }

    /// The region in which the entity can be hit on this tick.
    pub fn hurtbox(&self, anims: &Animations) -> (region: Option<AABB>)
        requires
            anims.wf(),
            self.animation.wf(anims),
        ensures
            region == self.spec_hurtbox(anims),
            region matches Some(placed) ==> placed.spec_ordered(),
    {
        match self.animation.sprite(anims).hurtbox {
            Some(local) => Some(place(&local, self.facing, self.center())),
            None => None,
        }
    }

    /// Says how to draw the entity on this tick.
    pub fn render_sprite(&self, anims: &Animations) -> (draw: SpriteDraw)
        requires
            anims.wf(),
            self.animation.wf(anims),
        ensures
            draw == self.animation.spec_render(anims, self.loc, self.facing),
    {
        self.animation.render(anims, self.center(), self.facing)
    }

    fn play(&mut self, data: &AnimationData)
        ensures
            *final(self) == old(self).spec_playing(data.id),
            data.wf() ==> final(self).animation.valid_in(*data),
    {
        self.animation = data.to_anim();
    }

    fn ensure(&mut self, data: &AnimationData)
        ensures
            *final(self) == old(self).spec_ensure(data.id),
            data.wf() && final(self).animation != old(self).animation
                ==> final(self).animation.valid_in(*data),
    {
        if !self.animation.is_instance(data) {
            self.animation = data.to_anim();
        }
    }

    /// Begins an attack, which adds to the endurance.
    pub fn start_attack(&mut self, anims: &Animations)
        requires
            anims.wf(),
        ensures
            *final(self) == old(self).spec_start_attack(anims),
            old(self).wf(anims) ==> final(self).wf(anims),
    {
        self.state = PlayerState::Attacking;
        let raised: u32 = self.endurance.saturating_add(ENDURANCE_ADD_ATTACK);
        self.endurance = if raised > MAX_ENDURANCE {
            MAX_ENDURANCE
        } else {
            raised
        };
        self.play(anims.attack());
    }

    /// Makes the entity idle. Its cursor stays until it next takes input.
    pub fn start_idle(&mut self)
        ensures
            *final(self) == old(self).spec_start_idle(),
    {
        self.state = PlayerState::Idle;
    }

    /// Makes the entity play the standing definition, from the start unless
    /// it plays it already.
    pub fn ensure_standing(&mut self, anims: &Animations)
        requires
            anims.wf(),
        ensures
            *final(self) == old(self).spec_ensure(anims.standing_id()),
            old(self).wf(anims) ==> final(self).wf(anims),
    {
        self.ensure(anims.standing());
    }

    /// Makes the entity play the forward walk, from the start unless it
    /// plays it already.
    pub fn ensure_walking_forwards(&mut self, anims: &Animations)
        requires
            anims.wf(),
        ensures
            *final(self) == old(self).spec_ensure(anims.forward_id()),
            old(self).wf(anims) ==> final(self).wf(anims),
    {
        self.ensure(anims.forward());
    }

    /// Makes the entity play the backward walk, from the start unless it
    /// plays it already.
    pub fn ensure_walking_backwards(&mut self, anims: &Animations)
        requires
            anims.wf(),
        ensures
            *final(self) == old(self).spec_ensure(anims.backward_id()),
            old(self).wf(anims) ==> final(self).wf(anims),
    {
        self.ensure(anims.backward());
    }

    /// Whether the entity plays the backward walk, which is what blocks a hit.
    pub fn is_walking_backwards(&self, anims: &Animations) -> (backwards: bool)
        requires
            anims.wf(),
        ensures
            backwards == self.spec_is_walking_backwards(anims),
    {
        self.animation.is_instance(anims.backward())
    }

    /// Throws the entity back.
    pub fn start_recoil(&mut self, anims: &Animations)
        requires
            anims.wf(),
        ensures
            *final(self) == old(self).spec_start_recoil(anims),
            old(self).wf(anims) ==> final(self).wf(anims),
    {
        self.state = PlayerState::Recoiling;
        self.play(anims.recoil());
    }

    /// Throws the entity back behind its guard.
    pub fn start_block(&mut self, anims: &Animations)
        requires
            anims.wf(),
        ensures
            *final(self) == old(self).spec_start_block(anims),
            old(self).wf(anims) ==> final(self).wf(anims),
    {
        self.state = PlayerState::Recoiling;
        self.play(anims.block());
    }

    /// Takes a hit: blocked without cost while walking backwards, and at the
    /// cost of endurance otherwise.
    pub fn handle_hit(&mut self, anims: &Animations)
        requires
            anims.wf(),
        ensures
            *final(self) == old(self).spec_handle_hit(anims),
            old(self).wf(anims) ==> final(self).wf(anims),
    {
        if self.is_walking_backwards(anims) {
            self.start_block(anims);
        } else {
            self.endurance = self.endurance.saturating_sub(ENDURANCE_SUB_HIT);
            self.start_recoil(anims);
        }
    }
}

/// The first part of a tick keeps an entity well formed, never adds to its
/// endurance, and puts the entity out exactly when its endurance was one or
/// less.
pub proof fn lemma_tick_preserves_wf(p: Player, anims: &Animations)
    requires
        anims.wf(),
        p.wf(anims),
    ensures
        p.spec_tick(anims).0.wf(anims),
        p.spec_tick(anims).0.endurance <= p.endurance,
        p.spec_tick(anims).1 == (p.endurance <= 1),
        p.spec_tick(anims).1 ==> p.spec_tick(anims).0.endurance == 0,
        p.spec_tick(anims).0.animation.data == p.animation.data,
        p.spec_tick(anims).0.state == p.state || p.spec_tick(anims).0.state == PlayerState::Idle,
{
    let data = anims.clips()[p.animation.data as int];
    assert(data.wf());
    lemma_next_frame_steps(p.animation, data);
}

/// Taking input and moving keeps an entity well formed, and leaves it
/// doing what it plays: an idle entity that took its input stands, walks
/// or has begun an attack, and any other entity plays on.
pub proof fn lemma_act_preserves_wf(p: Player, input: Input, anims: &Animations)
    requires
        anims.wf(),
        p.wf(anims),
    ensures
        p.spec_act(input, anims).wf(anims),
        p.state == PlayerState::Idle || p.settled(anims) ==> p.spec_act(input, anims).settled(
            anims,
        ),
        -PLAYFIELD_HALF_WIDTH <= p.spec_act(input, anims).loc.x <= PLAYFIELD_HALF_WIDTH,
        p.spec_act(input, anims).loc.y >= 0,
{
    lemma_fresh_cursors_are_valid(anims);
}

/// An idle entity that rests on the ground inside the playfield and gets
/// no input stays where it is, without any velocity, and stands.
pub proof fn lemma_idle_entity_rests(p: Player, input: Input, anims: &Animations)
    requires
        p.state == PlayerState::Idle,
        p.spec_grounded(),
        -PLAYFIELD_HALF_WIDTH <= p.loc.x <= PLAYFIELD_HALF_WIDTH,
        !input.spec_left(),
        !input.spec_right(),
        !input.spec_attack(),
        !input.spec_jump(),
    ensures
        p.spec_act(input, anims).loc == p.loc,
        p.spec_act(input, anims).velocity == (Vec2 { x: 0, y: 0 }),
        p.spec_act(input, anims).state == PlayerState::Idle,
        p.spec_act(input, anims).animation.data == anims.standing_id(),
        p.spec_act(input, anims).endurance == p.endurance,
        p.spec_act(input, anims).facing == p.facing,
{
}

/// An entity that is where jumping can take it stays there when it takes
/// input and moves, whatever the input: it never rises above 2401 units,
/// its vertical speed stays between -192 and [`JUMP_SPEED`], and its flight
/// energy never grows but by a jump from rest. So the vertical position and
/// speed of such an entity are never held at an end of their range.
pub proof fn lemma_jumps_stay_in_envelope(p: Player, input: Input, anims: &Animations)
    requires
        p.spec_in_jump_envelope(),
    ensures
        p.spec_act(input, anims).spec_in_jump_envelope(),
        0 <= p.loc.y <= 2401,
        -192 <= p.velocity.y <= JUMP_SPEED,
        p.spec_act(input, anims).loc.y == 0 || p.spec_act(input, anims).loc.y == p.loc.y
            + p.spec_act(input, anims).velocity.y,
{
    lemma_flight_step(p.loc.y as int, p.velocity.y as int);
    let (heard, stride) = p.spec_control(input, anims);
    assert(heard.loc == p.loc);
    assert(heard.velocity.y == p.velocity.y || (p.spec_grounded() && heard.velocity.y
        == JUMP_SPEED));
    lemma_flight_step(heard.loc.y as int, heard.velocity.y as int);
    let pushed = heard.spec_accelerate(stride);
    assert(pushed.loc == heard.loc);
    if heard.spec_grounded() {
        assert(pushed.velocity.y == 0);
    } else {
        assert(pushed.velocity.y == heard.velocity.y - GRAVITY);
    }
}

proof fn lemma_flight_step(y: int, vy: int)
    by (nonlinear_arith)
    requires
        y >= 0,
        vy * vy - 8 * vy + 16 * y <= 38400,
    ensures
        -192 <= vy <= 200,
        y <= 2401,
        (vy - 8) * (vy - 8) - 8 * (vy - 8) + 16 * (y + (vy - 8)) == vy * vy - 8 * vy + 16 * y,
{
}

/// A hit, a block and a recoil keep an entity well formed and leave it
/// recoiling; none of them adds to its endurance.
pub proof fn lemma_hit_preserves_wf(p: Player, anims: &Animations)
    requires
        anims.wf(),
        p.wf(anims),
    ensures
        p.spec_handle_hit(anims).wf(anims),
        p.spec_handle_hit(anims).settled(anims),
        p.spec_handle_hit(anims).endurance <= p.endurance,
        p.spec_start_recoil(anims).wf(anims),
        p.spec_start_recoil(anims).settled(anims),
        p.spec_start_recoil(anims).endurance == p.endurance,
{
    lemma_fresh_cursors_are_valid(anims);
}

/// A cursor at the start of any of the six definitions that the simulation
/// asks for is a position in the catalog.
pub proof fn lemma_fresh_cursors_are_valid(anims: &Animations)
    requires
        anims.wf(),
    ensures
        anims.clips()[anims.standing_id() as int].spec_to_anim().wf(anims),
        anims.clips()[anims.forward_id() as int].spec_to_anim().wf(anims),
        anims.clips()[anims.backward_id() as int].spec_to_anim().wf(anims),
        anims.clips()[anims.attack_id() as int].spec_to_anim().wf(anims),
        anims.clips()[anims.recoil_id() as int].spec_to_anim().wf(anims),
        anims.clips()[anims.block_id() as int].spec_to_anim().wf(anims),
{
    assert(anims.clips()[anims.standing_id() as int].sprites@[0].wf());
    assert(anims.clips()[anims.forward_id() as int].sprites@[0].wf());
    assert(anims.clips()[anims.backward_id() as int].sprites@[0].wf());
    assert(anims.clips()[anims.attack_id() as int].sprites@[0].wf());
    assert(anims.clips()[anims.recoil_id() as int].sprites@[0].wf());
    assert(anims.clips()[anims.block_id() as int].sprites@[0].wf());
}

} // verus!
