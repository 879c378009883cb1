//! The history of a session: a ring of saved matches, found by frame number.
//!
//! Frame `f` lives in cell `f mod capacity`, so a save overwrites whatever
//! older frame shared its cell, and nothing else.

use vstd::prelude::*;
use crate::state::{GameState, GameStateModel};

verus! {

/// One saved match and the frame it was saved for.
pub struct Snapshot {
    pub(crate) frame: u64,
    pub(crate) state: GameState,
}

/// A bounded history of matches.
pub struct SnapshotBuffer {
    pub(crate) cells: Vec<Option<Snapshot>>,
}

/// The frames that `history` holds after `state` was saved for `frame` in a
/// ring of `capacity` cells.
#[verifier::opaque]
pub open spec fn retained(
    history: Map<int, GameStateModel>,
    capacity: int,
    frame: int,
    state: GameStateModel,
) -> Map<int, GameStateModel> {
    if capacity <= 0 {
        history
    } else {
        Map::new(
            |f: int| f == frame || (history.contains_key(f) && f % capacity != frame % capacity),
            |f: int|
                if f == frame {
                    state
                } else {
                    history[f]
                },
        )
    }
}

impl View for SnapshotBuffer {
    type V = Map<int, GameStateModel>;

    open(crate) spec fn view(&self) -> Map<int, GameStateModel> {
        Map::new(
            |f: int|
                0 <= f && self.cells@.len() > 0 && self.holds(f % (self.cells@.len() as int), f),
            |f: int| self.cells@[f % (self.cells@.len() as int)]->0.state@,
        )
    }
}

impl SnapshotBuffer {
    /// Cell `cell` holds the match of frame `frame`.
    pub open(crate) spec fn holds(&self, cell: int, frame: int) -> bool {
        &&& 0 <= cell < self.cells@.len()
        &&& self.cells@[cell] is Some
        &&& self.cells@[cell]->0.frame == frame
    }

    /// The number of cells.
    pub open(crate) spec fn capacity(&self) -> int {
        self.cells@.len() as int
    }

    /// Every saved match is well formed and lies in the cell of its frame.
    pub open(crate) spec fn wf(&self) -> bool {
        forall|i: int|
            0 <= i < self.cells@.len() && (#[trigger] self.cells@[i]) is Some ==> {
                &&& (self.cells@[i]->0.frame as int) % (self.cells@.len() as int) == i
                &&& self.cells@[i]->0.state.wf()
            }
    }

    /// An empty history of `capacity` cells.
    pub fn new(capacity: usize) -> (buffer: SnapshotBuffer)
        ensures
            buffer.wf(),
            buffer.capacity() == capacity,
            buffer@ == Map::<int, GameStateModel>::empty(),
    {
        let mut cells: Vec<Option<Snapshot>> = Vec::new();
        let mut i: usize = 0;
        while i < capacity
            invariant
                i <= capacity,
                cells@.len() == i,
                forall|k: int| 0 <= k < i ==> (#[trigger] cells@[k]) is None,
            decreases capacity - i,
        {
            cells.push(None);
            i = i + 1;
        }
        let buffer = SnapshotBuffer { cells };
        assert(buffer@ =~= Map::<int, GameStateModel>::empty());
        buffer
    }

    /// Saves a copy of `state` for `frame`. It replaces the frame that shared
    /// its cell, if there was one. A history without cells keeps nothing.
    pub fn save(&mut self, frame: u64, state: &GameState)
        requires
            old(self).wf(),
            state.wf(),
        ensures
            final(self).wf(),
            final(self).capacity() == old(self).capacity(),
            final(self)@ == retained(old(self)@, old(self).capacity(), frame as int, state@),
    {
        let capacity = self.cells.len();
        if capacity == 0 {
            proof {
                reveal(retained);
            }
            return ;
        }
        let cell = (frame % (capacity as u64)) as usize;
        let copy = state.clone();
        self.cells.set(cell, Some(Snapshot { frame, state: copy }));
        proof {
            reveal(retained);
            let expected = retained(old(self)@, old(self).capacity(), frame as int, state@);
            assert forall|f: int| self@.contains_key(f) <==> expected.contains_key(f) by {
                if 0 <= f {
                    let c = f % (capacity as int);
                    if c != cell {
                        assert(self.cells@[c] == old(self).cells@[c]);
                    }
                }
            }
            assert forall|f: int| self@.contains_key(f) implies self@[f] == expected[f] by {
                let c = f % (capacity as int);
                if c != cell {
                    assert(self.cells@[c] == old(self).cells@[c]);
                }
            }
            assert(self@ =~= expected);
        }
    }

    /// A copy of the match that was saved for `frame`, if the history still
    /// holds it.
    pub fn load(&self, frame: u64) -> (found: Option<GameState>)
        requires
            self.wf(),
        ensures
            found is Some <==> self@.contains_key(frame as int),
            found is Some ==> found->0@ == self@[frame as int] && found->0.wf(),
    {
        let capacity = self.cells.len();
        if capacity == 0 {
            return None;
        }
        let cell = (frame % (capacity as u64)) as usize;
        match &self.cells[cell] {
            Some(snapshot) => {
                if snapshot.frame == frame {
                    Some(snapshot.state.clone())
                } else {
                    None
                }
            },
            None => None,
        }
    }
}

/// A match that was saved is found again under its frame, unchanged, and so
/// is every other frame that does not share its cell.
pub proof fn lemma_saved_is_found(
    history: Map<int, GameStateModel>,
    capacity: int,
    frame: int,
    state: GameStateModel,
)
    requires
        capacity > 0,
    ensures
        retained(history, capacity, frame, state).contains_key(frame),
        retained(history, capacity, frame, state)[frame] == state,
        forall|f: int|
            history.contains_key(f) && f % capacity != frame % capacity ==> #[trigger] retained(
                history,
                capacity,
                frame,
                state,
            ).contains_key(f) && retained(history, capacity, frame, state)[f] == history[f],
{
    reveal(retained);
}

} // verus!
