//! The match in time: the current match, the frame it stands at, and the
//! history that it can be rewound to.
//!
//! A timeline carries out requests and nothing else. Which requests are due
//! is for the session to decide.

use vstd::prelude::*;
use crate::error::SessionError;
use crate::snapshot::{lemma_saved_is_found, retained, SnapshotBuffer};
use crate::state::{advanced, GameState, GameStateModel, TaggedInput};

verus! {

/// What is asked of the match.
#[derive(PartialEq, Eq, Debug)]
pub enum Request {
    /// Keep a copy of the current match under `frame`.
    SaveGameState { frame: u64 },
    /// Replace the match by the copy kept under `frame`.
    LoadGameState { frame: u64 },
    /// Run one tick under `inputs`, one per player.
    AdvanceFrame { inputs: Vec<TaggedInput> },
}

/// A request as the contracts see it.
pub enum RequestModel {
    SaveGameState { frame: int },
    LoadGameState { frame: int },
    AdvanceFrame { inputs: Seq<TaggedInput> },
}

impl View for Request {
    type V = RequestModel;

    open spec fn view(&self) -> RequestModel {
        match *self {
            Request::SaveGameState { frame } => RequestModel::SaveGameState { frame: frame as int },
            Request::LoadGameState { frame } => RequestModel::LoadGameState { frame: frame as int },
            Request::AdvanceFrame { inputs } => RequestModel::AdvanceFrame { inputs: inputs@ },
        }
    }
}

/// The requests of a batch as the contracts see them.
pub open spec fn views(requests: Seq<Request>) -> Seq<RequestModel> {
    requests.map_values(|r: Request| r@)
}

/// A timeline as the contracts see it.
pub struct TimelineModel {
    pub state: GameStateModel,
    pub history: Map<int, GameStateModel>,
    pub capacity: int,
    pub current_frame: int,
    pub delta_time: int,
}

/// Whether `request` does not fit `m`.
///
/// Only the current frame can be saved. Only a frame that the history holds
/// and that does not lie ahead can be loaded. A frame can be advanced only
/// if every paddle finds its input, and the frame counter has not run out.
pub open spec fn refused(m: TimelineModel, request: RequestModel) -> bool {
    match request {
        RequestModel::SaveGameState { frame } => frame != m.current_frame,
        RequestModel::LoadGameState { frame } => !(frame <= m.current_frame
            && m.history.contains_key(frame)),
        RequestModel::AdvanceFrame { inputs } => !(m.current_frame < u64::MAX && m.state.driven_by(
            inputs.len() as int,
        )),
    }
}

/// The timeline after a request that fits it.
///
/// A save adds the match to the history. A load replaces the match and sets
/// the frame back. An advance runs one tick and moves on to the next frame.
pub open spec fn applied(m: TimelineModel, request: RequestModel) -> TimelineModel {
    match request {
        RequestModel::SaveGameState { frame } => TimelineModel {
            history: retained(m.history, m.capacity, frame, m.state),
            ..m
        },
        RequestModel::LoadGameState { frame } => TimelineModel {
            state: m.history[frame],
            current_frame: frame,
            ..m
        },
        RequestModel::AdvanceFrame { inputs } => TimelineModel {
            state: advanced(m.state, inputs, m.delta_time),
            current_frame: m.current_frame + 1,
            ..m
        },
    }
}

/// The timeline after `requests`, taken in order up to the first that does
/// not fit, and whether all of them fitted.
pub open spec fn applied_all(m: TimelineModel, requests: Seq<RequestModel>) -> (
    TimelineModel,
    bool,
)
    decreases requests.len(),
{
    if requests.len() == 0 {
        (m, true)
    } else if refused(m, requests[0]) {
        (m, false)
    } else {
        applied_all(applied(m, requests[0]), requests.drop_first())
    }
}

/// Every request is an advance.
pub open spec fn only_advances(requests: Seq<RequestModel>) -> bool {
    forall|i: int| 0 <= i < requests.len() ==> #[trigger] requests[i] is AdvanceFrame
}

/// A run of requests is its first request, then the others.
pub proof fn lemma_applied_first(
    m: TimelineModel,
    first: RequestModel,
    others: Seq<RequestModel>,
)
    ensures
        applied_all(m, seq![first].add(others)) == (if refused(m, first) {
            (m, false)
        } else {
            applied_all(applied(m, first), others)
        }),
{
    let all = seq![first].add(others);
    assert(all[0] == first);
    assert(all.drop_first() =~= others);
}

/// A run of requests that all fit is its beginning, then one more.
pub proof fn lemma_applied_last(
    m: TimelineModel,
    requests: Seq<RequestModel>,
    last: RequestModel,
)
    requires
        applied_all(m, requests).1,
    ensures
        applied_all(m, requests.push(last)) == (if refused(applied_all(m, requests).0, last) {
            (applied_all(m, requests).0, false)
        } else {
            (applied(applied_all(m, requests).0, last), true)
        }),
    decreases requests.len(),
{
    let all = requests.push(last);
    if requests.len() == 0 {
        assert(all[0] == last);
        let none = all.drop_first();
        assert(none.len() == 0);
        assert(applied_all(applied(m, last), none) == (applied(m, last), true));
    } else {
        let first = requests[0];
        let others = requests.drop_first();
        let next = applied(m, first);
        assert(!refused(m, first));
        assert(applied_all(m, requests) == applied_all(next, others));
        assert(all[0] == first);
        assert(all.drop_first() == others.push(last)) by {
            assert(all.drop_first() =~= others.push(last));
        }
        assert(applied_all(m, all) == applied_all(next, others.push(last)));
        lemma_applied_last(next, others, last);
    }
}

/// Advances read the match, the frame and the length of a tick, and nothing
/// else: two timelines that agree in these run the same advances to the same
/// end, whatever their histories hold. Advances leave the history alone, and
/// the frame never goes back.
pub proof fn lemma_advances_agree(
    a: TimelineModel,
    b: TimelineModel,
    replay: Seq<RequestModel>,
)
    requires
        only_advances(replay),
        a.state == b.state,
        a.current_frame == b.current_frame,
        a.delta_time == b.delta_time,
    ensures
        applied_all(a, replay).1 == applied_all(b, replay).1,
        applied_all(a, replay).0.state == applied_all(b, replay).0.state,
        applied_all(a, replay).0.current_frame == applied_all(b, replay).0.current_frame,
        applied_all(a, replay).0.delta_time == a.delta_time,
        applied_all(a, replay).0.history == a.history,
        applied_all(a, replay).0.capacity == a.capacity,
        applied_all(a, replay).0.current_frame >= a.current_frame,
    decreases replay.len(),
{
    if replay.len() > 0 {
        assert(replay[0] is AdvanceFrame);
        if !refused(a, replay[0]) {
            let rest = replay.drop_first();
            assert forall|i: int|
                0 <= i < rest.len() implies #[trigger] rest[i] is AdvanceFrame by {
                assert(rest[i] == replay[i + 1]);
            }
            lemma_advances_agree(applied(a, replay[0]), applied(b, replay[0]), rest);
        }
    }
}

/// Nothing is lost across save and load: where a match is saved, then run
/// through some frames, then loaded again and run through the same inputs,
/// it ends in the state and at the frame that it had reached before the
/// rollback.
pub proof fn lemma_rollback_replays(m: TimelineModel, replay: Seq<RequestModel>)
    requires
        m.capacity > 0,
        only_advances(replay),
        applied_all(
            m,
            seq![RequestModel::SaveGameState { frame: m.current_frame }].add(replay),
        ).1,
    ensures
        ({
            let frame = m.current_frame;
            let before = applied_all(
                m,
                seq![RequestModel::SaveGameState { frame }].add(replay),
            ).0;
            let after = applied_all(
                before,
                seq![RequestModel::LoadGameState { frame }].add(replay),
            );
            &&& after.1
            &&& after.0.state == before.state
            &&& after.0.current_frame == before.current_frame
        }),
{
    let frame = m.current_frame;
    let save = RequestModel::SaveGameState { frame };
    let load = RequestModel::LoadGameState { frame };
    let saved = applied(m, save);
    let before = applied_all(saved, replay).0;
    assert(!refused(m, save));
    lemma_applied_first(m, save, replay);
    assert(saved.history.contains_key(frame) && saved.history[frame] == m.state) by {
        lemma_saved_is_found(m.history, m.capacity, frame, m.state);
    }
    lemma_advances_agree(saved, saved, replay);
    assert(!refused(before, load));
    let loaded = applied(before, load);
    lemma_applied_first(before, load, replay);
    lemma_advances_agree(loaded, saved, replay);
}

/// The match, the frame it stands at, and its history.
pub struct Timeline {
    pub(crate) state: GameState,
    pub(crate) history: SnapshotBuffer,
    pub(crate) current_frame: u64,
    pub(crate) delta_time: i64,
}

impl View for Timeline {
    type V = TimelineModel;

    open(crate) spec fn view(&self) -> TimelineModel {
        TimelineModel {
            state: self.state@,
            history: self.history@,
            capacity: self.history.capacity(),
            current_frame: self.current_frame as int,
            delta_time: self.delta_time as int,
        }
    }
}

impl Timeline {
    /// The match and every saved match are well formed.
    pub open(crate) spec fn wf(&self) -> bool {
        self.state.wf() && self.history.wf()
    }

    /// A timeline at frame zero whose history has `capacity` cells and whose
    /// ticks are `delta_time` long.
    pub fn new(state: GameState, capacity: usize, delta_time: i64) -> (timeline: Timeline)
        requires
            state.wf(),
        ensures
            timeline.wf(),
            timeline@ == (TimelineModel {
                state: state@,
                history: Map::empty(),
                capacity: capacity as int,
                current_frame: 0,
                delta_time: delta_time as int,
            }),
    {
        Timeline { state, history: SnapshotBuffer::new(capacity), current_frame: 0, delta_time }
    }

    /// The frame that the next advance will run.
    pub fn current_frame(&self) -> (frame: u64)
        ensures
            frame == self@.current_frame,
    {
        self.current_frame
    }

    /// The match as it stands.
    pub fn state(&self) -> (state: &GameState)
        ensures
            state@ == self@.state,
    {
        &self.state
    }

    /// Carries out one request. A request that does not fit is refused and
    /// changes nothing.
    pub fn apply(&mut self, request: &Request) -> (outcome: Result<(), SessionError>)
        requires
            old(self).wf(),
        ensures
            final(self).wf(),
            refused(old(self)@, request@) ==> outcome == Err::<(), SessionError>(
                SessionError::InvalidRequest,
            ) && final(self)@ == old(self)@,
            !refused(old(self)@, request@) ==> outcome is Ok && final(self)@ == applied(
                old(self)@,
                request@,
            ),
    {
        match request {
            Request::SaveGameState { frame } => {
                if *frame != self.current_frame {
                    return Err(SessionError::InvalidRequest);
                }
                self.history.save(*frame, &self.state);
            },
            Request::LoadGameState { frame } => {
                if *frame > self.current_frame {
                    return Err(SessionError::InvalidRequest);
                }
                match self.history.load(*frame) {
                    Some(state) => {
                        self.state = state;
                        self.current_frame = *frame;
                    },
                    None => {
                        return Err(SessionError::InvalidRequest);
                    },
                }
            },
            Request::AdvanceFrame { inputs } => {
                if self.current_frame == u64::MAX || !self.state.driven_by(inputs.len()) {
                    return Err(SessionError::InvalidRequest);
                }
                self.state.advance(inputs, self.delta_time);
                self.current_frame = self.current_frame + 1;
            },
        }
        Ok(())
    }

    /// Carries out requests strictly in the order given, and stops at the
    /// first that does not fit.
    pub fn apply_all(&mut self, requests: &Vec<Request>) -> (outcome: Result<(), SessionError>)
        requires
            old(self).wf(),
        ensures
            final(self).wf(),
            final(self)@ == applied_all(old(self)@, views(requests@)).0,
            applied_all(old(self)@, views(requests@)).1 ==> outcome is Ok,
            !applied_all(old(self)@, views(requests@)).1 ==> outcome == Err::<(), SessionError>(
                SessionError::InvalidRequest,
            ),
    {
        let ghost all = views(requests@);
        let mut i: usize = 0;
        assert(all.skip(0) =~= all);
        while i < requests.len()
            invariant
                i <= requests.len(),
                self.wf(),
                all == views(requests@),
                applied_all(old(self)@, all) == applied_all(self@, all.skip(i as int)),
            decreases requests.len() - i,
        {
            let ghost rest = all.skip(i as int);
            assert(rest[0] == requests@[i as int]@);
            assert(rest.drop_first() =~= all.skip(i as int + 1));
            match self.apply(&requests[i]) {
                Err(error) => {
                    return Err(error);
                },
                Ok(_) => {},
            }
            i = i + 1;
        }
        assert(all.skip(i as int).len() == 0);
        Ok(())
    }
}

} // verus!
