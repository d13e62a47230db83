//! Animation definitions, the catalog that owns them, and the playback
//! cursor that each entity carries.
//!
//! A definition is immutable once it sits in the catalog. A cursor does not
//! point into the catalog: it names its definition by the definition's `id`,
//! which is the definition's place in the catalog, so that asking "is this
//! cursor playing that clip?" is a comparison of two numbers and a copy of a
//! cursor shares nothing with the cursor it was taken from.

use vstd::prelude::*;
use vstd::arithmetic::div_mod::lemma_fundamental_div_mod_converse;
use std::ops::ControlFlow;
use crate::geometry::{Direction, Vec2, AABB, BOX_LIMIT};

pub mod loader;

verus! {

/// A rectangle of pixels in a sprite sheet; `(0, 0)` is the top-left pixel.
#[derive(Clone, Copy, PartialEq, Eq, Debug, Structural)]
pub struct PixelRect {
    pub x: u32,
    pub y: u32,
    pub width: u32,
    pub height: u32,
}

/// One frame of an animation. The boxes are in the entity's own frame of
/// reference, in world units, for an entity that faces east.
#[derive(Clone, PartialEq, Eq, Debug)]
pub struct AnnotatedSprite {
    /// Name of the sprite sheet that the frame is drawn from.
    pub texture: String,
    /// The frame's cell in that sheet.
    pub source_rect: PixelRect,
    /// Where the frame deals damage, if it does.
    pub hitbox: Option<AABB>,
    /// Where the frame can be hit, if it can.
    pub hurtbox: Option<AABB>,
    /// Width of the drawn frame, in world units.
    pub width: i64,
    /// Height of the drawn frame, in world units.
    pub height: i64,
    /// Number of ticks that the frame is held.
    pub duration: usize,
}

/// An ordered sequence of frames and what happens after the last one.
#[derive(Clone, PartialEq, Eq, Debug)]
pub struct AnimationData {
    /// The definition's place in its catalog.
    pub id: usize,
    pub sprites: Vec<AnnotatedSprite>,
    pub looping: bool,
}

/// A playback position in one definition.
#[derive(Clone, Copy, PartialEq, Eq, Debug, Structural)]
pub struct Animation {
    /// `id` of the definition that is played.
    pub data: usize,
    /// The current frame.
    pub sprite_index: usize,
    /// Ticks already spent in the current frame.
    pub frame_counter: usize,
}

/// What it takes to draw one frame of an entity: which cell of which sheet,
/// how large, where, and whether turned to look west.
#[derive(Clone, PartialEq, Eq, Debug)]
pub struct SpriteDraw {
    pub texture: String,
    pub source_rect: PixelRect,
    /// Width on the screen, in world units.
    pub width: i64,
    /// Height on the screen, in world units.
    pub height: i64,
    /// Where the centre of the frame goes.
    pub at: Vec2,
    /// Whether the frame is drawn reflected about its vertical axis.
    pub flip_x: bool,
}

/// The catalog: every definition under its name, and the six that the
/// simulation itself asks for.
#[derive(Debug)]
pub struct Animations {
    names: Vec<String>,
    clips: Vec<AnimationData>,
    standing: usize,
    forward: usize,
    backward: usize,
    attack: usize,
    recoil: usize,
    block: usize,
}

impl AnnotatedSprite {
    /// The frame is held for at least one tick, and its boxes have their
    /// corners in their order and are of a size that can be moved to any
    /// position.
    pub open spec fn wf(&self) -> bool {
        &&& self.duration >= 1
        &&& (self.hitbox matches Some(b) ==> b.within(BOX_LIMIT as int) && b.spec_ordered())
        &&& (self.hurtbox matches Some(b) ==> b.within(BOX_LIMIT as int) && b.spec_ordered())
    }
}

impl AnimationData {
    /// There is at least one frame, and every frame is well formed.
    pub open spec fn wf(&self) -> bool {
        &&& self.sprites@.len() >= 1
        &&& forall|k: int| 0 <= k < self.sprites@.len() ==> (#[trigger] self.sprites@[k]).wf()
    }

    /// Ticks taken by the frames before frame `k`.
    pub open spec fn elapsed_before(&self, k: int) -> int
        decreases k,
    {
        if k <= 0 {
            0
        } else {
            self.elapsed_before(k - 1) + self.sprites@[k - 1].duration
        }
    }

    /// Ticks taken by one pass through all frames.
    pub open spec fn total_duration(&self) -> int {
        self.elapsed_before(self.sprites@.len() as int)
    }

    /// The cursor at the start of this definition.
    pub open spec fn spec_to_anim(&self) -> Animation {
        Animation { data: self.id, sprite_index: 0, frame_counter: 0 }
    }

    /// A fresh cursor at the first tick of the first frame.
    pub fn to_anim(&self) -> (cursor: Animation)
        ensures
            cursor == self.spec_to_anim(),
    {
        Animation { data: self.id, sprite_index: 0, frame_counter: 0 }
    }
}

impl Animations {
    /// The definitions, each at the index that is its `id`.
    pub closed spec fn clips(&self) -> Seq<AnimationData> {
        self.clips@
    }

    /// The definitions' names, in the order of the definitions.
    pub closed spec fn names(&self) -> Seq<Seq<char>> {
        Seq::new(self.names@.len(), |i: int| self.names@[i]@)
    }

    pub closed spec fn standing_id(&self) -> usize {
        self.standing
    }

    pub closed spec fn forward_id(&self) -> usize {
        self.forward
    }

    pub closed spec fn backward_id(&self) -> usize {
        self.backward
    }

    pub closed spec fn attack_id(&self) -> usize {
        self.attack
    }

    pub closed spec fn recoil_id(&self) -> usize {
        self.recoil
    }

    pub closed spec fn block_id(&self) -> usize {
        self.block
    }

    /// `id` is the place of the definition called `name`.
    pub open spec fn names_clip(&self, name: Seq<char>, id: usize) -> bool {
        id < self.names().len() && self.names()[id as int] == name
    }

    /// Every definition is well formed and sits at its `id`, no name is used
    /// twice, and the six definitions that the simulation asks for are there
    /// under their names.
    pub open spec fn wf(&self) -> bool {
        &&& self.names().len() == self.clips().len()
        &&& forall|i: int|
            0 <= i < self.clips().len() ==> (#[trigger] self.clips()[i]).id == i
                && self.clips()[i].wf()
        &&& forall|i: int, j: int|
            0 <= i < j < self.names().len() ==> self.names()[i] != self.names()[j]
        &&& self.names_clip("standing"@, self.standing_id())
        &&& self.names_clip("forward"@, self.forward_id())
        &&& self.names_clip("backward"@, self.backward_id())
        &&& self.names_clip("attack"@, self.attack_id())
        &&& self.names_clip("recoil"@, self.recoil_id())
        &&& self.names_clip("block"@, self.block_id())
    }

    /// Puts a catalog together from definitions whose six required places
    /// are already known.
    pub(crate) fn assemble(
        names: Vec<String>,
        clips: Vec<AnimationData>,
        standing: usize,
        forward: usize,
        backward: usize,
        attack: usize,
        recoil: usize,
        block: usize,
    ) -> (anims: Animations)
        ensures
            anims.clips() == clips@,
            anims.names() == Seq::new(names@.len(), |i: int| names@[i]@),
            anims.standing_id() == standing,
            anims.forward_id() == forward,
            anims.backward_id() == backward,
            anims.attack_id() == attack,
            anims.recoil_id() == recoil,
            anims.block_id() == block,
    {
        Animations { names, clips, standing, forward, backward, attack, recoil, block }
    }

    /// Number of definitions.
    pub fn len(&self) -> (n: usize)
        ensures
            n == self.clips().len(),
    {
        self.clips.len()
    }

    /// The definition with the given `id`, if there is one.
    pub fn get(&self, id: usize) -> (found: Option<&AnimationData>)
        ensures
            found matches Some(data) ==> id < self.clips().len() && *data == self.clips()[id as int],
            found is Some <==> id < self.clips().len(),
    {
        if id < self.clips.len() {
            Some(&self.clips[id])
        } else {
            None
        }
    }

    /// The `id` of the definition called `name`, if there is one.
    pub fn lookup(&self, name: &String) -> (found: Option<usize>)
        ensures
            found matches Some(id) ==> self.names_clip(name@, id) && forall|i: int|
                0 <= i < id ==> self.names()[i] != name@,
            found is None ==> forall|i: int|
                0 <= i < self.names().len() ==> self.names()[i] != name@,
    {
        let mut i: usize = 0;
        while i < self.names.len()
            invariant
                i <= self.names@.len(),
                forall|k: int| 0 <= k < i ==> self.names@[k]@ != name@,
            decreases self.names@.len() - i,
        {
            if self.names[i] == *name {
                return Some(i);
            }
            i += 1;
        }
        None
    }

    /// The definition played by an idle entity that does not walk.
    pub fn standing(&self) -> (data: &AnimationData)
        requires
            self.wf(),
        ensures
            *data == self.clips()[self.standing_id() as int],
            data.id == self.standing_id(),
            data.wf(),
    {
        &self.clips[self.standing]
    }

    /// The definition played while walking towards the opponent.
    pub fn forward(&self) -> (data: &AnimationData)
        requires
            self.wf(),
        ensures
            *data == self.clips()[self.forward_id() as int],
            data.id == self.forward_id(),
            data.wf(),
    {
        &self.clips[self.forward]
    }

    /// The definition played while walking away from the opponent.
    pub fn backward(&self) -> (data: &AnimationData)
        requires
            self.wf(),
        ensures
            *data == self.clips()[self.backward_id() as int],
            data.id == self.backward_id(),
            data.wf(),
    {
        &self.clips[self.backward]
    }

    /// The definition played by an attack.
    pub fn attack(&self) -> (data: &AnimationData)
        requires
            self.wf(),
        ensures
            *data == self.clips()[self.attack_id() as int],
            data.id == self.attack_id(),
            data.wf(),
    {
        &self.clips[self.attack]
    }

    /// The definition played after taking a hit.
    pub fn recoil(&self) -> (data: &AnimationData)
        requires
            self.wf(),
        ensures
            *data == self.clips()[self.recoil_id() as int],
            data.id == self.recoil_id(),
            data.wf(),
    {
        &self.clips[self.recoil]
    }

    /// The definition played after blocking a hit.
    pub fn block(&self) -> (data: &AnimationData)
        requires
            self.wf(),
        ensures
            *data == self.clips()[self.block_id() as int],
            data.id == self.block_id(),
            data.wf(),
    {
        &self.clips[self.block]
    }
}

impl Animation {
    /// The cursor stands on a tick of a frame of `data`.
    pub open spec fn valid_in(&self, data: AnimationData) -> bool {
        &&& self.sprite_index < data.sprites@.len()
        &&& self.frame_counter < data.sprites@[self.sprite_index as int].duration
    }

    /// The cursor names a definition of the catalog and stands on a tick of
    /// one of its frames.
    pub open spec fn wf(&self, anims: &Animations) -> bool {
        &&& self.data < anims.clips().len()
        &&& self.valid_in(anims.clips()[self.data as int])
    }

    pub open spec fn spec_is_instance(&self, data: &AnimationData) -> bool {
        self.data == data.id
    }

    /// The cursor one tick later, and whether that tick ended the last frame
    /// of a definition that does not loop.
    ///
    /// After the last tick of the last frame the cursor stands at the start
    /// again, looping or not: a definition that does not loop reports its
    /// end, and is played from the start again if its owner keeps the cursor.
    pub open spec fn spec_next_frame(self, data: AnimationData) -> (Animation, bool) {
        if self.frame_counter + 1 < data.sprites@[self.sprite_index as int].duration {
            (
                Animation {
                    data: self.data,
                    sprite_index: self.sprite_index,
                    frame_counter: (self.frame_counter + 1) as usize,
                },
                false,
            )
        } else if self.sprite_index + 1 < data.sprites@.len() {
            (
                Animation {
                    data: self.data,
                    sprite_index: (self.sprite_index + 1) as usize,
                    frame_counter: 0,
                },
                false,
            )
        } else {
            (Animation { data: self.data, sprite_index: 0, frame_counter: 0 }, !data.looping)
        }
    }

    /// Ticks from the start of the definition to the cursor: the ticks of
    /// the frames before the current one, and those spent in it.
    pub open spec fn spec_phase(self, data: AnimationData) -> int {
        data.elapsed_before(self.sprite_index as int) + self.frame_counter
    }

    /// The cursor `n` ticks later.
    pub open spec fn spec_advance(self, data: AnimationData, n: nat) -> Animation
        decreases n,
    {
        if n == 0 {
            self
        } else {
            self.spec_advance(data, (n - 1) as nat).spec_next_frame(data).0
        }
    }

    /// Whether the cursor stands at the first tick of the first frame.
    pub open spec fn spec_at_start(self) -> bool {
        self.sprite_index == 0 && self.frame_counter == 0
    }

    /// How many of the next `n` ticks take the cursor back to the start.
    pub open spec fn spec_wraps(self, data: AnimationData, n: nat) -> int
        decreases n,
    {
        if n == 0 {
            0
        } else {
            self.spec_wraps(data, (n - 1) as nat) + if self.spec_advance(
                data,
                (n - 1) as nat,
            ).spec_next_frame(data).0.spec_at_start() {
                1int
            } else {
                0int
            }
        }
    }

    /// How many of the next `n` ticks report the end of the definition.
    pub open spec fn spec_completions(self, data: AnimationData, n: nat) -> int
        decreases n,
    {
        if n == 0 {
            0
        } else {
            self.spec_completions(data, (n - 1) as nat) + if self.spec_advance(
                data,
                (n - 1) as nat,
            ).spec_next_frame(data).1 {
                1int
            } else {
                0int
            }
        }
    }

    /// How the frame that the cursor stands on is drawn for an entity at
    /// `location` that looks in direction `facing`: the sheet holds the
    /// frames looking east.
    pub open spec fn spec_render(self, anims: &Animations, location: Vec2, facing: Direction)
        -> SpriteDraw {
        let frame = anims.clips()[self.data as int].sprites@[self.sprite_index as int];
        SpriteDraw {
            texture: frame.texture,
            source_rect: frame.source_rect,
            width: frame.width,
            height: frame.height,
            at: location,
            flip_x: facing == Direction::West,
        }
    }

    /// Whether the cursor plays `data`.
    pub fn is_instance(&self, data: &AnimationData) -> (same: bool)
        ensures
            same == self.spec_is_instance(data),
    {
        self.data == data.id
    }

    /// Whether the cursor is a position in a definition of the catalog.
    pub fn is_valid(&self, anims: &Animations) -> (valid: bool)
        ensures
            valid == self.wf(anims),
    {
        match anims.get(self.data) {
            Some(data) => self.sprite_index < data.sprites.len()
                && self.frame_counter < data.sprites[self.sprite_index].duration,
            None => false,
        }
    }

    /// Advances the cursor by one tick. `Break` reports that the tick ended
    /// a definition that does not loop.
    pub fn next_frame(&mut self, anims: &Animations) -> (flow: ControlFlow<()>)
        requires
            anims.wf(),
            old(self).wf(anims),
        ensures
            *final(self) == old(self).spec_next_frame(anims.clips()[old(self).data as int]).0,
            (flow == ControlFlow::<(), ()>::Break(())) == old(self).spec_next_frame(
                anims.clips()[old(self).data as int],
            ).1,
            flow == ControlFlow::<(), ()>::Break(()) || flow == ControlFlow::<(), ()>::Continue(()),
            final(self).wf(anims),
    {
        let data = &anims.clips[self.data];
        assert(data.wf());
        let frames: usize = data.sprites.len();
        let held: usize = data.sprites[self.sprite_index].duration;
        self.frame_counter += 1;
        if held <= self.frame_counter {
            assert(self.sprite_index < frames);
            self.sprite_index += 1;
            self.frame_counter = 0;
            if self.sprite_index >= frames {
                self.sprite_index = 0;
                if !data.looping {
                    return ControlFlow::Break(());
                }
            }
        }
        ControlFlow::Continue(())
    }

    /// Says how to draw the frame that the cursor stands on.
    pub fn render(&self, anims: &Animations, location: Vec2, facing: Direction) -> (draw:
        SpriteDraw)
        requires
            anims.wf(),
            self.wf(anims),
        ensures
            draw == self.spec_render(anims, location, facing),
    {
        let frame = self.sprite(anims);
        SpriteDraw {
            texture: frame.texture.clone(),
            source_rect: frame.source_rect,
            width: frame.width,
            height: frame.height,
            at: location,
            flip_x: match facing {
                Direction::West => true,
                Direction::East => false,
            },
        }
    }

    /// The frame that the cursor stands on.
    pub fn sprite<'a>(&self, anims: &'a Animations) -> (frame: &'a AnnotatedSprite)
        requires
            anims.wf(),
            self.wf(anims),
        ensures
            *frame == anims.clips()[self.data as int].sprites@[self.sprite_index as int],
            frame.wf(),
    {
        let data = &anims.clips[self.data];
        assert(data.wf());
        &data.sprites[self.sprite_index]
    }
}

/// The six definitions that the simulation asks for are six different
/// definitions.
pub proof fn lemma_roles_are_distinct(anims: &Animations)
    requires
        anims.wf(),
    ensures
        anims.standing_id() != anims.forward_id(),
        anims.standing_id() != anims.backward_id(),
        anims.standing_id() != anims.attack_id(),
        anims.standing_id() != anims.recoil_id(),
        anims.standing_id() != anims.block_id(),
        anims.forward_id() != anims.backward_id(),
        anims.forward_id() != anims.attack_id(),
        anims.forward_id() != anims.recoil_id(),
        anims.forward_id() != anims.block_id(),
        anims.backward_id() != anims.attack_id(),
        anims.backward_id() != anims.recoil_id(),
        anims.backward_id() != anims.block_id(),
        anims.attack_id() != anims.recoil_id(),
        anims.attack_id() != anims.block_id(),
        anims.recoil_id() != anims.block_id(),
{
    reveal_strlit("standing");
    reveal_strlit("forward");
    reveal_strlit("backward");
    reveal_strlit("attack");
    reveal_strlit("recoil");
    reveal_strlit("block");
    assert("standing"@[0] != "backward"@[0]);
    assert("attack"@[0] != "recoil"@[0]);
    assert("standing"@.len() == 8 && "backward"@.len() == 8 && "forward"@.len() == 7);
    assert("attack"@.len() == 6 && "recoil"@.len() == 6 && "block"@.len() == 5);
}

/// The ticks before a frame grow with the frame: by the frame's own
/// duration from one frame to the next.
pub proof fn lemma_elapsed_is_monotonic(data: AnimationData, i: int, j: int)
    requires
        0 <= i <= j <= data.sprites@.len(),
    ensures
        0 <= data.elapsed_before(i) <= data.elapsed_before(j),
    decreases j,
{
    if j > 0 {
        if i < j {
            lemma_elapsed_is_monotonic(data, i, j - 1);
        } else {
            lemma_elapsed_is_monotonic(data, i - 1, j - 1);
        }
    }
}

/// A cursor on a frame of a definition stands less than one pass from the
/// start, inside the ticks of its frame.
pub proof fn lemma_phase_in_range(cursor: Animation, data: AnimationData)
    requires
        data.wf(),
        cursor.valid_in(data),
    ensures
        0 <= cursor.spec_phase(data) < data.total_duration(),
        data.elapsed_before(cursor.sprite_index as int) <= cursor.spec_phase(data)
            < data.elapsed_before(cursor.sprite_index + 1),
{
    lemma_elapsed_is_monotonic(data, 0, cursor.sprite_index as int);
    lemma_elapsed_is_monotonic(data, cursor.sprite_index + 1, data.sprites@.len() as int);
}

/// The number of ticks from the start says where a cursor stands: two
/// cursors on the same definition with the same phase are the same.
pub proof fn lemma_phase_determines_cursor(first: Animation, second: Animation, data: AnimationData)
    requires
        data.wf(),
        first.valid_in(data),
        second.valid_in(data),
        first.data == second.data,
        first.spec_phase(data) == second.spec_phase(data),
    ensures
        first == second,
{
    lemma_phase_in_range(first, data);
    lemma_phase_in_range(second, data);
    if first.sprite_index < second.sprite_index {
        lemma_elapsed_is_monotonic(data, first.sprite_index + 1, second.sprite_index as int);
    } else if second.sprite_index < first.sprite_index {
        lemma_elapsed_is_monotonic(data, second.sprite_index + 1, first.sprite_index as int);
    }
}

/// One tick moves a cursor one tick along its definition, and from the
/// last tick of the last frame back to the start; only that last tick of a
/// definition that does not loop reports the end.
pub proof fn lemma_next_frame_steps(cursor: Animation, data: AnimationData)
    requires
        data.wf(),
        cursor.valid_in(data),
    ensures
        ({
            let (next, ended) = cursor.spec_next_frame(data);
            let last = cursor.spec_phase(data) + 1 == data.total_duration();
            &&& next.valid_in(data)
            &&& next.data == cursor.data
            &&& next.spec_at_start() == last
            &&& next.spec_phase(data) == if last {
                0
            } else {
                cursor.spec_phase(data) + 1
            }
            &&& ended == (last && !data.looping)
        }),
{
    lemma_phase_in_range(cursor, data);
    let next = cursor.spec_next_frame(data).0;
    let index = cursor.sprite_index as int;
    let frames = data.sprites@.len() as int;
    let total = data.total_duration();
    assert(data.sprites.len() == frames);
    assert(data.sprites@[index].wf());
    assert(data.elapsed_before(index + 1) == data.elapsed_before(index)
        + data.sprites@[index].duration);
    if cursor.frame_counter + 1 < data.sprites@[index].duration {
        lemma_elapsed_is_monotonic(data, index + 1, frames);
        assert(next.sprite_index == index && next.frame_counter == cursor.frame_counter + 1);
        assert(cursor.spec_phase(data) + 1 < total);
    } else if index + 1 < frames {
        assert(data.sprites@[index + 1].wf());
        assert(next.sprite_index == index + 1 && next.frame_counter == 0);
        lemma_phase_in_range(next, data);
        assert(next.spec_phase(data) == cursor.spec_phase(data) + 1);
    } else {
        assert(data.elapsed_before(0) == 0);
        assert(next.sprite_index == 0 && next.frame_counter == 0);
        assert(data.sprites@[0].wf());
        assert(cursor.spec_phase(data) + 1 == total);
    }
}

/// Where a cursor stands after `n` ticks: at the remainder of its phase
/// plus `n` by the duration of one pass, having gone back to the start as
/// many times as the quotient says. This holds whether the definition
/// loops or not.
pub proof fn lemma_advance_wraps_around(cursor: Animation, data: AnimationData, n: nat)
    requires
        data.wf(),
        cursor.valid_in(data),
    ensures
        cursor.spec_advance(data, n).valid_in(data),
        cursor.spec_advance(data, n).data == cursor.data,
        cursor.spec_advance(data, n).spec_phase(data) == (cursor.spec_phase(data) + n)
            % data.total_duration(),
        cursor.spec_wraps(data, n) == (cursor.spec_phase(data) + n) / data.total_duration(),
        cursor.spec_completions(data, n) == if data.looping {
            0
        } else {
            (cursor.spec_phase(data) + n) / data.total_duration()
        },
{
    lemma_advance_counts(cursor, data, n);
    lemma_phase_in_range(cursor.spec_advance(data, n), data);
    lemma_fundamental_div_mod_converse(
        cursor.spec_phase(data) + n,
        data.total_duration(),
        cursor.spec_wraps(data, n),
        cursor.spec_advance(data, n).spec_phase(data),
    );
}

proof fn lemma_advance_counts(cursor: Animation, data: AnimationData, n: nat)
    requires
        data.wf(),
        cursor.valid_in(data),
    ensures
        cursor.spec_advance(data, n).valid_in(data),
        cursor.spec_advance(data, n).data == cursor.data,
        cursor.spec_phase(data) + n == cursor.spec_wraps(data, n) * data.total_duration()
            + cursor.spec_advance(data, n).spec_phase(data),
        cursor.spec_completions(data, n) == if data.looping {
            0
        } else {
            cursor.spec_wraps(data, n)
        },
    decreases n,
{
    if n > 0 {
        let m = (n - 1) as nat;
        lemma_advance_counts(cursor, data, m);
        let before = cursor.spec_advance(data, m);
        lemma_phase_in_range(before, data);
        lemma_next_frame_steps(before, data);
        let wraps = cursor.spec_wraps(data, m);
        let total = data.total_duration();
        assert((wraps + 1) * total == wraps * total + total) by (nonlinear_arith);
    }
}

/// A fresh cursor on a definition of total duration `T` has reported the
/// end `n / T` times after `n` ticks if the definition does not loop:
/// not within the first `T - 1` ticks, once with tick `T`, and once more
/// with each further `T` ticks for as long as its owner keeps it. A
/// definition that loops never reports an end.
pub proof fn lemma_completions_of_fresh_cursor(data: AnimationData, n: nat)
    requires
        data.wf(),
    ensures
        data.spec_to_anim().valid_in(data),
        data.spec_to_anim().spec_completions(data, n) == if data.looping {
            0
        } else {
            n as int / data.total_duration()
        },
        !data.looping && n < data.total_duration() ==> data.spec_to_anim().spec_completions(
            data,
            n,
        ) == 0,
        !data.looping && data.total_duration() <= n < 2 * data.total_duration()
            ==> data.spec_to_anim().spec_completions(data, n) == 1,
{
    let fresh = data.spec_to_anim();
    assert(data.sprites@[0].wf());
    assert(data.elapsed_before(0) == 0);
    lemma_advance_wraps_around(fresh, data, n);
    let total = data.total_duration();
    lemma_phase_in_range(fresh, data);
    if n < total {
        lemma_fundamental_div_mod_converse(n as int, total, 0, n as int);
    } else if n < 2 * total {
        lemma_fundamental_div_mod_converse(n as int, total, 1, n - total);
    }
}

/// After `t` ticks a fresh cursor shows the frame `k` in whose ticks the
/// remainder of `t` by the duration of one pass falls: that remainder is
/// the ticks of the frames before `k` plus the ticks already spent in `k`.
pub proof fn lemma_frame_after_ticks(data: AnimationData, t: nat)
    requires
        data.wf(),
    ensures
        ({
            let cursor = data.spec_to_anim().spec_advance(data, t);
            &&& cursor.valid_in(data)
            &&& data.elapsed_before(cursor.sprite_index as int) + cursor.frame_counter == t as int
                % data.total_duration()
        }),
{
    let fresh = data.spec_to_anim();
    assert(data.sprites@[0].wf());
    assert(data.elapsed_before(0) == 0);
    lemma_advance_wraps_around(fresh, data, t);
}

} // verus!
