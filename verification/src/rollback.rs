//! What a rollback driver asks of the simulation: hand out a copy of the
//! whole state, take such a copy back, and advance by one tick.
//!
//! The state is made of plain values only, so a copy shares nothing with
//! the state that it was taken from, and putting it back restores the state
//! exactly. The driver keeps the copies in cells of its own, which it hands
//! over with each request to save or to load.

use vstd::prelude::*;
use ggrs::GameStateCell;
use crate::animation::Animations;
use crate::input::Input;
use crate::round::{lemma_update_preserves_wf, GameState, PlayingState};

verus! {

/// The driver's cell for one saved state. Nothing is known of what a cell
/// holds: whatever comes out of one is looked at before it is used.
#[verifier::external_type_specification]
#[verifier::external_body]
#[verifier::reject_recursive_types(T)]
pub struct ExGameStateCell<T: Clone>(ggrs::GameStateCell<T>);

/// The frame number that stands for "no frame"; no state is saved under it.
pub const NULL_FRAME: i32 = -1;

/// One thing that the driver asks for.
pub enum Request {
    /// Put a copy of the state of frame `frame` into the cell.
    SaveGameState { cell: GameStateCell<GameState>, frame: i32 },
    /// Go back to the state that the cell holds.
    LoadGameState { cell: GameStateCell<GameState>, frame: i32 },
    /// Advance by one tick with the inputs of the two players.
    AdvanceFrame { inputs: [Input; 2] },
}

/// Why a request could not be served.
#[derive(Clone, Copy, PartialEq, Eq, Debug, Structural)]
pub enum RollbackError {
    /// A state was to be saved under [`NULL_FRAME`].
    NullFrame,
    /// The cell to load from holds no state.
    MissingSnapshot,
    /// The cell to load from holds a state that does not fit the catalog.
    MalformedSnapshot,
}

/// Calls `ggrs::GameStateCell::save` with the state as the data and without
/// a checksum. The call stores the state in the cell; it panics for
/// [`NULL_FRAME`], which is left out here. Nothing is claimed of the cell
/// afterwards.
#[verifier::external_body]
fn save_to_cell(cell: &GameStateCell<GameState>, frame: i32, state: GameState)
    requires
        frame != NULL_FRAME,
{
    cell.save(frame, Some(state), None);
}

/// Calls `ggrs::GameStateCell::load`, which hands out a copy of what the
/// cell holds, if it holds anything. Nothing is claimed of the result.
#[verifier::external_body]
fn load_from_cell(cell: &GameStateCell<GameState>) -> (loaded: Option<GameState>) {
    cell.load()
}

impl Request {
    /// The request asks to save a state under [`NULL_FRAME`], which cannot
    /// be done.
    pub open spec fn spec_saves_under_null_frame(self) -> bool {
        self matches Request::SaveGameState { cell, frame } && frame == NULL_FRAME
    }
}

impl GameState {
    /// A round in play is well formed; a score screen names one of the two
    /// slots.
    pub open spec fn wf(&self, anims: &Animations) -> bool {
        match *self {
            GameState::Playing(round) => round.wf(anims),
            GameState::ScoreScreen { winner } => winner < 2,
        }
    }

    /// The copy that is handed out: the state itself.
    pub open spec fn spec_save(self) -> GameState {
        self
    }

    /// The state after a copy has been put back: the copy itself.
    pub open spec fn spec_load(self, snapshot: GameState) -> GameState {
        snapshot
    }

    /// The state one tick later. A round in play is advanced, and gives way
    /// to the score screen if the tick ended it. A score screen stays.
    pub open spec fn spec_advance_frame(self, inputs: [Input; 2], anims: &Animations) -> GameState {
        match self {
            GameState::Playing(round) => match round.spec_update(inputs, anims) {
                (_, Some(next)) => next,
                (advanced, None) => GameState::Playing(advanced),
            },
            GameState::ScoreScreen { winner } => self,
        }
    }

    /// What becomes of the state when `loaded` has come out of a cell: a
    /// well-formed state takes its place, and anything else leaves it as it
    /// is and is an error.
    pub open spec fn spec_restore(self, loaded: Option<GameState>, anims: &Animations) -> (
        GameState,
        Result<(), RollbackError>,
    ) {
        match loaded {
            None => (self, Err(RollbackError::MissingSnapshot)),
            Some(snapshot) => if snapshot.wf(anims) {
                (self.spec_load(snapshot), Ok(()))
            } else {
                (self, Err(RollbackError::MalformedSnapshot))
            },
        }
    }

    /// The state after the requests from place `from` up to, and without,
    /// place `to`, if none of them asks to load: saving changes nothing, and
    /// each request to advance is one tick.
    pub open spec fn spec_after(
        self,
        requests: Seq<Request>,
        from: int,
        to: int,
        anims: &Animations,
    ) -> GameState
        decreases to - from,
    {
        if to <= from {
            self
        } else {
            let before = self.spec_after(requests, from, to - 1, anims);
            match requests[to - 1] {
                Request::AdvanceFrame { inputs } => before.spec_advance_frame(inputs, anims),
                _ => before,
            }
        }
    }

    /// `result` is what serving the requests before place `upto` makes of
    /// this state, where the last request to load among them, if there is
    /// one, stands just before place `from` and has brought up `base`. None
    /// of the requests that were served saves under [`NULL_FRAME`].
    pub open spec fn served(
        self,
        requests: Seq<Request>,
        anims: &Animations,
        base: GameState,
        from: int,
        upto: int,
        result: GameState,
    ) -> bool {
        &&& 0 <= from <= upto <= requests.len()
        &&& if from == 0 {
            base == self
        } else {
            requests[from - 1] is LoadGameState && base.wf(anims)
        }
        &&& forall|k: int| from <= k < upto ==> !(#[trigger] requests[k] is LoadGameState)
        &&& forall|k: int| 0 <= k < upto ==> !(#[trigger] requests[k]).spec_saves_under_null_frame()
        &&& result == base.spec_after(requests, from, upto, anims)
    }

    /// Whether the state is well formed with respect to the catalog.
    pub fn is_valid(&self, anims: &Animations) -> (valid: bool)
        ensures
            valid == self.wf(anims),
    {
        match self {
            GameState::Playing(round) => round.is_valid(anims),
            GameState::ScoreScreen { winner } => *winner < 2,
        }
    }

    /// Hands out a copy of the whole state.
    pub fn save(&self) -> (snapshot: GameState)
        ensures
            snapshot == self.spec_save(),
            snapshot == *self,
    {
        *self
    }

    /// Replaces the state by a copy that was handed out earlier.
    pub fn load(&mut self, snapshot: GameState)
        ensures
            *final(self) == old(self).spec_load(snapshot),
            *final(self) == snapshot,
    {
        *self = snapshot;
    }

    /// Takes what has come out of a cell: a well-formed state replaces this
    /// one, anything else is refused.
    pub fn restore(&mut self, loaded: Option<GameState>, anims: &Animations) -> (done: Result<
        (),
        RollbackError,
    >)
        ensures
            (*final(self), done) == old(self).spec_restore(loaded, anims),
            old(self).wf(anims) ==> final(self).wf(anims),
    {
        match loaded {
            None => Err(RollbackError::MissingSnapshot),
            Some(snapshot) => {
                if snapshot.is_valid(anims) {
                    self.load(snapshot);
                    Ok(())
                } else {
                    Err(RollbackError::MalformedSnapshot)
                }
            },
        }
    }

    /// Advances the state by one tick.
    pub fn advance_frame(&mut self, inputs: [Input; 2], anims: &Animations)
        requires
            anims.wf(),
            old(self).wf(anims),
        ensures
            *final(self) == old(self).spec_advance_frame(inputs, anims),
            final(self).wf(anims),
    {
        match *self {
            GameState::Playing(round) => {
                let mut round: PlayingState = round;
                match round.update(inputs, anims) {
                    Some(next) => {
                        *self = next;
                    },
                    None => {
                        *self = GameState::Playing(round);
                    },
                }
            },
            GameState::ScoreScreen { winner } => {},
        }
    }

    /// Serves the driver's requests in their order and stops at the first
    /// that cannot be served: a request to save under [`NULL_FRAME`], or a
    /// request to load from a cell that holds no well-formed state.
    ///
    /// What a cell hands out is not known beforehand. From the state that
    /// the last request to load has brought up, or from the state at the
    /// start if there is no such request, the state has advanced by one
    /// tick for each request to advance that was served after it.
    pub fn handle_requests(&mut self, requests: Vec<Request>, anims: &Animations) -> (done: Result<
        (),
        RollbackError,
    >)
        requires
            anims.wf(),
            old(self).wf(anims),
        ensures
            final(self).wf(anims),
            exists|base: GameState, from: int, upto: int| #[trigger]
                old(self).served(requests@, anims, base, from, upto, *final(self)) && match done {
                    Ok(_) => upto == requests@.len(),
                    Err(RollbackError::NullFrame) => upto < requests@.len()
                        && requests@[upto].spec_saves_under_null_frame(),
                    Err(_) => upto < requests@.len() && requests@[upto] is LoadGameState,
                },
            (forall|i: int|
                0 <= i < requests@.len() ==> !(#[trigger] requests@[i] is LoadGameState)
                    && !requests@[i].spec_saves_under_null_frame()) ==> done is Ok && *final(self) == old(self).spec_after(
                requests@,
                0,
                requests@.len() as int,
                anims,
            ),
    {
        let count: usize = requests.len();
        let mut i: usize = 0;
        let ghost mut base = *self;
        let ghost mut from = 0int;
        while i < count
            invariant
                i <= count,
                count == requests@.len(),
                anims.wf(),
                self.wf(anims),
                old(self).served(requests@, anims, base, from, i as int, *self),
            decreases count - i,
        {
            match &requests[i] {
                Request::SaveGameState { cell, frame } => {
                    if *frame == NULL_FRAME {
                        return Err(RollbackError::NullFrame);
                    }
                    save_to_cell(cell, *frame, self.save());
                },
                Request::LoadGameState { cell, frame } => {
                    let loaded = load_from_cell(cell);
                    match self.restore(loaded, anims) {
                        Ok(_) => {},
                        Err(error) => {
                            return Err(error);
                        },
                    }
                    proof {
                        base = *self;
                        from = i + 1;
                    }
                },
                Request::AdvanceFrame { inputs } => {
                    self.advance_frame(*inputs, anims);
                },
            }
            i += 1;
        }
        Ok(())
    }
}

/// Handing out a copy and putting it straight back changes nothing that a
/// tick can see: the state advances from the copy exactly as it would have
/// advanced without the detour, whatever the state was in between.
pub proof fn lemma_save_load_is_identity(
    state: GameState,
    between: GameState,
    inputs: [Input; 2],
    anims: &Animations,
)
    ensures
        between.spec_load(state.spec_save()) == state,
        between.spec_load(state.spec_save()).spec_advance_frame(inputs, anims)
            == state.spec_advance_frame(inputs, anims),
        state.wf(anims) ==> between.spec_restore(Some(state.spec_save()), anims) == (
            state,
            Ok::<(), RollbackError>(()),
        ),
{
}

/// Advancing keeps a state well formed, and a score screen stays as it is.
pub proof fn lemma_advance_frame_preserves_wf(
    state: GameState,
    inputs: [Input; 2],
    anims: &Animations,
)
    requires
        anims.wf(),
        state.wf(anims),
    ensures
        state.spec_advance_frame(inputs, anims).wf(anims),
        state is ScoreScreen ==> state.spec_advance_frame(inputs, anims) == state,
{
    if let GameState::Playing(round) = state {
        lemma_update_preserves_wf(round, inputs, anims);
    }
}

} // verus!
