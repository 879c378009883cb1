//! The rollback session: the state machine that decides, tick by tick,
//! whether the match waits, skips, runs or rewinds.
//!
//! The session runs the match ahead of what it knows. For a player whose
//! input for a frame has not arrived it guesses that the player went on as
//! before. When an input arrives and the guess was wrong, the session loads
//! the match as it was before the first wrong frame and runs it again from
//! there. The match is thus at all times what the best-known inputs make of
//! it.
//!
//! The transport is not part of this library. It tells the session what
//! happened on the network ([`Event`]), and the caller sends on what the
//! session was given as local input.

use vstd::prelude::*;
use crate::error::SessionError;
use crate::catching_up::{
    lemma_bookkeeping_wf, lemma_first_wrong, lemma_known_of_first, lemma_notified_wf,
    lemma_rerun_ends, lemma_rerun_rewinds, lemma_rerun_starts, lemma_rerun_steps, prepared,
    rerunning,
};
use crate::state::{advanced_through, GameState, GameStateModel, InputStatus, TaggedInput};
use crate::timeline::{
    applied, applied_all, refused, views, Request, RequestModel, Timeline, TimelineModel,
};

verus! {

/// Where one player stands.
#[derive(Clone, Copy, PartialEq, Eq, Debug, Structural)]
pub enum PeerState {
    /// The handshake with the player's peer is not complete.
    Synchronizing,
    /// Inputs flow. The local player is in this state from the start.
    Running,
    /// The player's peer timed out. The match goes on without the player,
    /// whose paddle from then on gets no input.
    Disconnected,
}

/// Where the session as a whole stands.
#[derive(Clone, Copy, PartialEq, Eq, Debug, Structural)]
pub enum SessionState {
    /// Some player is still synchronizing: no frame may be advanced.
    Synchronizing,
    /// Every player is running or gone.
    Running,
}

/// What the transport tells the session.
#[derive(Clone, Copy, PartialEq, Eq, Debug, Structural)]
pub enum Event {
    /// The handshake with the peer of `player` is complete.
    Synchronized { player: usize },
    /// The peer of `player` timed out.
    Disconnected { player: usize },
    /// The wire byte of remote `player` for `frame` has arrived. Inputs of
    /// one player arrive in the order of their frames, each once.
    Input { player: usize, frame: u64, input: u8 },
    /// The local match runs ahead of a peer and should let `skip_frames`
    /// ticks pass.
    WaitRecommendation { skip_frames: u32 },
}

/// What is known of the connection to one player.
#[derive(Clone, Copy, PartialEq, Eq, Debug, Structural)]
pub struct NetworkStats {
    /// Round trip, in thousandths of a second.
    pub ping: u32,
    /// How many frames the local match is ahead of the peer; negative where
    /// it is behind.
    pub frames_ahead: i32,
    /// How many inputs wait to be sent.
    pub send_queue_len: u32,
}

/// A session as the contracts see it.
pub struct SessionModel {
    /// The match, its frame and its history.
    pub timeline: TimelineModel,
    /// The match as it was at frame zero.
    pub initial: GameStateModel,
    /// The player on this machine.
    pub local: int,
    /// Where each player stands.
    pub peers: Seq<PeerState>,
    /// What is known of the connection to each player.
    pub stats: Seq<NetworkStats>,
    /// The wire bytes that have arrived of each player, in the order of
    /// their frames, from frame zero on.
    pub received: Seq<Seq<u8>>,
    /// The wire bytes under which each frame was last run, one per player.
    pub used: Seq<Seq<u8>>,
    /// The number of frames that are confirmed: every input of theirs was
    /// known when they were last run.
    pub settled: int,
    /// The ticks that are still to be skipped.
    pub frames_to_skip: int,
    /// How many frames the match may be ahead of the confirmed ones.
    pub max_prediction: int,
    /// Whether the session has run beyond its prediction window.
    pub halted: bool,
}

impl SessionModel {
    /// The number of players.
    pub open spec fn players(self) -> int {
        self.peers.len() as int
    }

    /// Whether the input of player `p` for frame `f` is known: it has
    /// arrived, or the player is gone.
    pub open spec fn known(self, p: int, f: int) -> bool {
        f < self.received[p].len() || self.peers[p] == PeerState::Disconnected
    }

    /// The best that is known of the input of player `p` for frame `f`: the
    /// byte that arrived; nothing, for a player who is gone; else the guess
    /// that the player holds what the last byte that arrived said.
    pub open spec fn best_input(self, p: int, f: int) -> TaggedInput {
        if f < self.received[p].len() {
            TaggedInput { input: self.received[p][f], status: InputStatus::Confirmed }
        } else if self.peers[p] == PeerState::Disconnected {
            TaggedInput { input: 0, status: InputStatus::Disconnected }
        } else if self.received[p].len() > 0 {
            TaggedInput { input: self.received[p].last(), status: InputStatus::Predicted }
        } else {
            TaggedInput { input: 0, status: InputStatus::Predicted }
        }
    }

    /// The best that is known of the inputs for frame `f`, one per player.
    pub open spec fn best(self, f: int) -> Seq<TaggedInput> {
        Seq::new(self.players() as nat, |p: int| self.best_input(p, f))
    }

    /// The wire bytes of the best-known inputs for frame `f`.
    pub open spec fn best_bytes(self, f: int) -> Seq<u8> {
        Seq::new(self.players() as nat, |p: int| self.best_input(p, f).input)
    }

    /// How many frames from frame zero on are known of player `p`, counted
    /// no further than the current frame.
    pub open spec fn known_frames(self, p: int) -> int {
        if self.peers[p] == PeerState::Disconnected {
            self.timeline.current_frame
        } else {
            vstd::math::min(self.received[p].len() as int, self.timeline.current_frame)
        }
    }

    /// The least of `known_frames` among the first `n` players.
    pub open spec fn known_of_first(self, n: int) -> int
        decreases n,
    {
        if n <= 0 {
            self.timeline.current_frame
        } else {
            vstd::math::min(self.known_of_first(n - 1), self.known_frames(n - 1))
        }
    }

    /// How many frames from frame zero on are known of every player.
    pub open spec fn known_of_all(self) -> int {
        self.known_of_first(self.players())
    }

    /// No player is still synchronizing.
    pub open spec fn synchronized(self) -> bool {
        forall|p: int|
            0 <= p < self.peers.len() ==> #[trigger] self.peers[p] != PeerState::Synchronizing
    }

    /// The match as the frames run so far make it, each under the bytes that
    /// it was last run under.
    pub open spec fn replayed(self, frames: int) -> GameStateModel {
        advanced_through(self.initial, as_frames(self.used.take(frames)), self.timeline.delta_time)
    }

    /// Every frame that was run was run under the best that is known now.
    pub open spec fn caught_up(self) -> bool {
        forall|f: int| 0 <= f < self.timeline.current_frame ==> #[trigger] self.right_at(f)
    }

    /// The match as the best that is known now makes it after `frames`
    /// frames.
    pub open spec fn ideal(self, frames: int) -> GameStateModel {
        advanced_through(
            self.initial,
            Seq::new(frames as nat, |f: int| self.best(f)),
            self.timeline.delta_time,
        )
    }

    /// The session with `local_input` on record as the local input of the
    /// current frame. Of the byte the six bits that carry something are
    /// kept.
    pub open spec fn submitted(self, local_input: u8) -> SessionModel {
        SessionModel {
            received: self.received.update(
                self.local,
                self.received[self.local].push(local_input % 64),
            ),
            ..self
        }
    }

    /// Frame `f` was run under the bytes of the best that is known now.
    pub open spec fn right_at(self, f: int) -> bool {
        self.used[f] == self.best_bytes(f)
    }

    /// The first frame from `from` on that was run under other bytes than
    /// the best that is known now, or the current frame if there is none.
    pub open spec fn first_wrong(self, from: int) -> int
        decreases self.timeline.current_frame - from,
    {
        if from >= self.timeline.current_frame {
            self.timeline.current_frame
        } else if !self.right_at(from) {
            from
        } else {
            self.first_wrong(from + 1)
        }
    }

    /// The requests that run the frames from `from` up to, not including,
    /// `to`: for each of them a save, then an advance under the best that is
    /// known.
    pub open spec fn rerun(self, from: int, to: int) -> Seq<RequestModel>
        decreases to - from,
    {
        if to <= from {
            Seq::empty()
        } else {
            self.rerun(from, to - 1).push(RequestModel::SaveGameState { frame: to - 1 }).push(
                RequestModel::AdvanceFrame { inputs: self.best(to - 1) },
            )
        }
    }

    /// The requests of one tick, for a session that has the local input on
    /// record.
    ///
    /// Where a frame was run under a guess that has turned out wrong, the
    /// match is loaded as it was before the first such frame, and that frame
    /// and all after it are run again. Then the match is saved and the
    /// current frame is run.
    pub open spec fn planned(self) -> Seq<RequestModel> {
        let wrong = self.first_wrong(self.settled);
        let now = self.timeline.current_frame;
        if wrong < now {
            seq![
                RequestModel::LoadGameState { frame: wrong },
                RequestModel::AdvanceFrame { inputs: self.best(wrong) },
            ].add(self.rerun(wrong + 1, now + 1))
        } else {
            self.rerun(now, now + 1)
        }
    }

    /// Every player has a state, statistics and a record of bytes, all of
    /// which fit six bits. The local player runs and has given an input for
    /// every frame that was run, and every frame was run under one byte per
    /// player.
    pub open spec fn shaped(self) -> bool {
        &&& 0 <= self.local < self.players()
        &&& self.received.len() == self.players()
        &&& self.stats.len() == self.players()
        &&& self.peers[self.local] == PeerState::Running
        &&& self.received[self.local].len() == self.timeline.current_frame
        &&& forall|p: int, f: int|
            0 <= p < self.players() && 0 <= f < self.received[p].len() ==> (
            #[trigger] self.received[p][f]) < 64
        &&& self.used.len() == self.timeline.current_frame
        &&& forall|f: int|
            0 <= f < self.used.len() ==> (#[trigger] self.used[f]).len() == self.players()
    }

    /// The match is what the frames run so far make of the match at frame
    /// zero, in which every paddle finds its player.
    pub open spec fn faithful(self) -> bool {
        &&& self.initial.wf()
        &&& self.initial.driven_by(self.players())
        &&& self.timeline.state == self.replayed(self.timeline.current_frame)
    }

    /// Frame `f` was run under inputs that were known, and are the best
    /// known still.
    pub open spec fn settled_at(self, f: int) -> bool {
        forall|p: int|
            #![trigger self.known(p, f)]
            #![trigger self.used[f][p]]
            #![trigger self.best_input(p, f)]
            0 <= p < self.players() ==> {
                &&& self.known(p, f)
                &&& self.used[f][p] == self.best_input(p, f).input
            }
    }

    /// The history holds frame `f` as the frames before it made it.
    pub open spec fn archived_at(self, f: int) -> bool {
        self.timeline.history.contains_key(f) && self.timeline.history[f] == self.replayed(f)
    }

    /// The match is no further ahead of the confirmed frames than the
    /// history has room for.
    pub open spec fn bounded(self) -> bool {
        &&& 0 <= self.settled <= self.timeline.current_frame <= u64::MAX
        &&& self.timeline.current_frame - self.settled <= self.max_prediction + 1
        &&& self.timeline.capacity == self.max_prediction + 2
        &&& 0 <= self.max_prediction
        &&& 0 <= self.frames_to_skip
    }

    /// What every session satisfies: it is shaped, faithful and bounded,
    /// every confirmed frame is settled, and every other frame that was run
    /// is archived.
    pub open spec fn wf(self) -> bool {
        &&& self.shaped()
        &&& self.faithful()
        &&& self.bounded()
        &&& forall|f: int| 0 <= f < self.settled ==> #[trigger] self.settled_at(f)
        &&& forall|f: int|
            self.settled <= f < self.timeline.current_frame ==> #[trigger] self.archived_at(f)
    }
}

/// The inputs that carry `bytes`, all of them taken as confirmed.
pub open spec fn as_confirmed(bytes: Seq<u8>) -> Seq<TaggedInput> {
    bytes.map_values(|b: u8| TaggedInput { input: b, status: InputStatus::Confirmed })
}

/// The inputs that carry `bytes`, frame by frame, all of them taken as
/// confirmed.
pub open spec fn as_frames(used: Seq<Seq<u8>>) -> Seq<Seq<TaggedInput>> {
    used.map_values(|bytes: Seq<u8>| as_confirmed(bytes))
}

/// The session that `RollbackSession::new` makes.
pub open spec fn new_session(
    players: int,
    local: int,
    max_prediction: int,
    delta_time: int,
    state: GameStateModel,
) -> SessionModel {
    SessionModel {
        timeline: TimelineModel {
            state,
            history: Map::empty(),
            capacity: max_prediction + 2,
            current_frame: 0,
            delta_time,
        },
        initial: state,
        local,
        peers: Seq::new(
            players as nat,
            |p: int|
                if p == local {
                    PeerState::Running
                } else {
                    PeerState::Synchronizing
                },
        ),
        stats: Seq::new(
            players as nat,
            |p: int| NetworkStats { ping: 0, frames_ahead: 0, send_queue_len: 0 },
        ),
        received: Seq::new(players as nat, |p: int| Seq::<u8>::empty()),
        used: Seq::empty(),
        settled: 0,
        frames_to_skip: 0,
        max_prediction,
        halted: false,
    }
}

/// Why `event` does not fit `m`, or nothing where it does.
///
/// Every event but a wait recommendation names a player, who must exist and
/// must not be gone. Inputs and disconnects are those of remote players. An
/// input is that of a player who has synchronized, for the frame after the
/// last of which an input has arrived.
pub open spec fn event_refusal(m: SessionModel, event: Event) -> Option<SessionError> {
    match event {
        Event::Synchronized { player } => if player >= m.players() {
            Some(SessionError::InvalidRequest)
        } else if m.peers[player as int] == PeerState::Disconnected {
            Some(SessionError::PlayerDisconnected)
        } else {
            None
        },
        Event::Disconnected { player } => if player >= m.players() || player == m.local {
            Some(SessionError::InvalidRequest)
        } else if m.peers[player as int] == PeerState::Disconnected {
            Some(SessionError::PlayerDisconnected)
        } else {
            None
        },
        Event::Input { player, frame, input } => if player >= m.players() || player == m.local {
            Some(SessionError::InvalidRequest)
        } else if m.peers[player as int] == PeerState::Disconnected {
            Some(SessionError::PlayerDisconnected)
        } else if m.peers[player as int] == PeerState::Synchronizing {
            Some(SessionError::NotSynchronized)
        } else if frame != m.received[player as int].len() {
            Some(SessionError::InvalidRequest)
        } else {
            None
        },
        Event::WaitRecommendation { skip_frames } => None,
    }
}

/// The session after an event that fits it. Of an input the six bits that
/// carry something are kept. Wait recommendations add up, as far as the
/// counter reaches.
pub open spec fn notified(m: SessionModel, event: Event) -> SessionModel {
    match event {
        Event::Synchronized { player } => SessionModel {
            peers: m.peers.update(player as int, PeerState::Running),
            ..m
        },
        Event::Disconnected { player } => SessionModel {
            peers: m.peers.update(player as int, PeerState::Disconnected),
            ..m
        },
        Event::Input { player, frame, input } => SessionModel {
            received: m.received.update(
                player as int,
                m.received[player as int].push(input % 64),
            ),
            ..m
        },
        Event::WaitRecommendation { skip_frames } => SessionModel {
            frames_to_skip: vstd::math::min(m.frames_to_skip + skip_frames, u32::MAX as int),
            ..m
        },
    }
}

/// The match has run further ahead of the frames that are known of every
/// player than the prediction window allows.
pub open spec fn beyond_window(m: SessionModel) -> bool {
    m.timeline.current_frame - m.known_of_all() > m.max_prediction
}

/// Why `advance_frame` refuses, or nothing where it does not.
///
/// A halted session refuses for good. Before every player has synchronized
/// the session refuses. While ticks are to be skipped it refuses nothing.
/// Beyond the prediction window it refuses, and so it does where the frame
/// counter has run out.
pub open spec fn advance_refusal(m: SessionModel) -> Option<SessionError> {
    if m.halted {
        Some(SessionError::PredictionThreshold)
    } else if !m.synchronized() {
        Some(SessionError::NotSynchronized)
    } else if m.frames_to_skip > 0 {
        None
    } else if beyond_window(m) {
        Some(SessionError::PredictionThreshold)
    } else if m.timeline.current_frame >= u64::MAX {
        Some(SessionError::InvalidRequest)
    } else {
        None
    }
}

/// The session after a tick that it did not refuse and did not skip: the
/// local input is on record, the requests of the tick are carried out, every
/// frame has been run under the best that is known, and the frames that are
/// known of every player are confirmed.
pub open spec fn ran(m: SessionModel, local_input: u8) -> SessionModel {
    let k = m.submitted(local_input);
    let after = SessionModel {
        timeline: applied_all(k.timeline, k.planned()).0,
        used: Seq::new((m.timeline.current_frame + 1) as nat, |f: int| k.best_bytes(f)),
        ..k
    };
    SessionModel { settled: after.known_of_all(), ..after }
}

/// The session after one call of `advance_frame`.
///
/// A tick that is refused changes nothing, but that the session is halted
/// once it is beyond its prediction window. A tick that is skipped uses up
/// one of the ticks to be skipped and leaves the match alone.
pub open spec fn ticked(m: SessionModel, local_input: u8) -> SessionModel {
    if m.halted || !m.synchronized() {
        m
    } else if m.frames_to_skip > 0 {
        SessionModel { frames_to_skip: m.frames_to_skip - 1, ..m }
    } else if beyond_window(m) {
        SessionModel { halted: true, ..m }
    } else if m.timeline.current_frame >= u64::MAX {
        m
    } else {
        ran(m, local_input)
    }
}

/// The requests that one call of `advance_frame` carries out: none where the
/// tick is refused or skipped.
pub open spec fn requested(m: SessionModel, local_input: u8) -> Seq<RequestModel> {
    if advance_refusal(m) is Some || m.frames_to_skip > 0 {
        Seq::empty()
    } else {
        m.submitted(local_input).planned()
    }
}

/// The wire bytes of `inputs`.
pub open spec fn bytes_of(inputs: Seq<TaggedInput>) -> Seq<u8> {
    inputs.map_values(|tagged: TaggedInput| tagged.input)
}

/// The owner of a match that is played over the network.
///
/// The session keeps every input of the match, one byte per player and
/// frame, and the bytes under which each frame was last run.
pub struct RollbackSession {
    pub(crate) timeline: Timeline,
    pub(crate) initial: Ghost<GameStateModel>,
    pub(crate) local: usize,
    pub(crate) peers: Vec<PeerState>,
    pub(crate) stats: Vec<NetworkStats>,
    pub(crate) received: Vec<Vec<u8>>,
    pub(crate) used: Vec<Vec<u8>>,
    pub(crate) settled: u64,
    pub(crate) frames_to_skip: u32,
    pub(crate) max_prediction: u16,
    pub(crate) halted: bool,
}

impl View for RollbackSession {
    type V = SessionModel;

    open(crate) spec fn view(&self) -> SessionModel {
        SessionModel {
            timeline: self.timeline@,
            initial: self.initial@,
            local: self.local as int,
            peers: self.peers@,
            stats: self.stats@,
            received: self.received@.map_values(|bytes: Vec<u8>| bytes@),
            used: self.used@.map_values(|bytes: Vec<u8>| bytes@),
            settled: self.settled as int,
            frames_to_skip: self.frames_to_skip as int,
            max_prediction: self.max_prediction as int,
            halted: self.halted,
        }
    }
}

impl RollbackSession {
    /// What every session satisfies.
    pub open(crate) spec fn wf(&self) -> bool {
        self@.wf() && self.timeline.wf()
    }

    /// A session at frame zero for `players` players, of whom `local` plays
    /// on this machine and the others are still synchronizing. The match may
    /// run `max_prediction` frames ahead of what is confirmed.
    ///
    /// It is refused where `local` is none of the players or a paddle of
    /// `state` belongs to none of them.
    pub fn new(
        players: usize,
        local: usize,
        max_prediction: u16,
        delta_time: i64,
        state: GameState,
    ) -> (session: Result<RollbackSession, SessionError>)
        requires
            state.wf(),
        ensures
            session is Ok <==> local < players && state@.driven_by(players as int),
            session is Err ==> session->Err_0 == SessionError::InvalidRequest,
            session is Ok ==> session->Ok_0.wf() && session->Ok_0@ == new_session(
                players as int,
                local as int,
                max_prediction as int,
                delta_time as int,
                state@,
            ),
    {
        if local >= players || !state.driven_by(players) {
            return Err(SessionError::InvalidRequest);
        }
        let ghost initial = state@;
        let mut peers: Vec<PeerState> = Vec::new();
        let mut stats: Vec<NetworkStats> = Vec::new();
        let mut received: Vec<Vec<u8>> = Vec::new();
        let mut p: usize = 0;
        while p < players
            invariant
                p <= players,
                peers@.len() == p,
                stats@.len() == p,
                received@.len() == p,
                forall|k: int|
                    0 <= k < p ==> #[trigger] peers@[k] == (if k == local {
                        PeerState::Running
                    } else {
                        PeerState::Synchronizing
                    }),
                forall|k: int|
                    0 <= k < p ==> #[trigger] stats@[k] == (NetworkStats {
                        ping: 0,
                        frames_ahead: 0,
                        send_queue_len: 0,
                    }),
                forall|k: int| 0 <= k < p ==> (#[trigger] received@[k])@ == Seq::<u8>::empty(),
            decreases players - p,
        {
            if p == local {
                peers.push(PeerState::Running);
            } else {
                peers.push(PeerState::Synchronizing);
            }
            stats.push(NetworkStats { ping: 0, frames_ahead: 0, send_queue_len: 0 });
            received.push(Vec::new());
            p = p + 1;
        }
        let timeline = Timeline::new(state, max_prediction as usize + 2, delta_time);
        let session = RollbackSession {
            timeline,
            initial: Ghost(initial),
            local,
            peers,
            stats,
            received,
            used: Vec::new(),
            settled: 0,
            frames_to_skip: 0,
            max_prediction,
            halted: false,
        };
        proof {
            let expected = new_session(
                players as int,
                local as int,
                max_prediction as int,
                delta_time as int,
                initial,
            );
            assert(session@.peers =~= expected.peers);
            assert(session@.stats =~= expected.stats);
            assert(session@.received =~= expected.received);
            assert(session@.used =~= expected.used);
            assert(session@.used.take(0) =~= Seq::<Seq<u8>>::empty());
            assert(as_frames(Seq::<Seq<u8>>::empty()) =~= Seq::<Seq<TaggedInput>>::empty());
            assert(session@.faithful());
            assert(session@.shaped());
        }
        Ok(session)
    }

    /// The number of players.
    pub fn players(&self) -> (players: usize)
        ensures
            players == self@.players(),
    {
        self.peers.len()
    }

    /// The player on this machine.
    pub fn local_player(&self) -> (local: usize)
        ensures
            local == self@.local,
    {
        self.local
    }

    /// The frame that the next advance will run.
    pub fn current_frame(&self) -> (frame: u64)
        ensures
            frame == self@.timeline.current_frame,
    {
        self.timeline.current_frame
    }

    /// The last frame that is confirmed, if any is.
    pub fn confirmed_frame(&self) -> (frame: Option<u64>)
        ensures
            frame == (if self@.settled > 0 {
                Some((self@.settled - 1) as u64)
            } else {
                None
            }),
    {
        if self.settled > 0 {
            Some(self.settled - 1)
        } else {
            None
        }
    }

    /// How many ticks are still to be skipped.
    pub fn frames_to_skip(&self) -> (frames: u32)
        ensures
            frames == self@.frames_to_skip,
    {
        self.frames_to_skip
    }

    /// Whether the session has run beyond its prediction window and refuses
    /// every further tick.
    pub fn is_halted(&self) -> (halted: bool)
        ensures
            halted == self@.halted,
    {
        self.halted
    }

    /// The match as it stands.
    pub fn state(&self) -> (state: &GameState)
        ensures
            state@ == self@.timeline.state,
    {
        &self.timeline.state
    }

    /// Where `player` stands, if there is such a player.
    pub fn peer_state(&self, player: usize) -> (state: Option<PeerState>)
        ensures
            state == (if player < self@.players() {
                Some(self@.peers[player as int])
            } else {
                None
            }),
    {
        if player < self.peers.len() {
            Some(self.peers[player])
        } else {
            None
        }
    }

    /// What is known of the connection to `player`, if there is such a
    /// player.
    pub fn network_stats(&self, player: usize) -> (stats: Option<NetworkStats>)
        requires
            self.wf(),
        ensures
            stats == (if player < self@.players() {
                Some(self@.stats[player as int])
            } else {
                None
            }),
    {
        if player < self.stats.len() {
            Some(self.stats[player])
        } else {
            None
        }
    }

    /// Records what the transport measured of the connection to `player`.
    /// Says whether there is such a player; otherwise the session is
    /// unchanged.
    pub fn record_network_stats(&mut self, player: usize, stats: NetworkStats) -> (accepted: bool)
        requires
            old(self).wf(),
        ensures
            final(self).wf(),
            accepted == (player < old(self)@.players()),
            accepted ==> final(self)@ == (SessionModel {
                stats: old(self)@.stats.update(player as int, stats),
                ..old(self)@
            }),
            !accepted ==> final(self)@ == old(self)@,
    {
        if player < self.stats.len() {
            self.stats.set(player, stats);
            proof {
                lemma_bookkeeping_wf(old(self)@, self@);
            }
            true
        } else {
            false
        }
    }

    /// The best that is known of the input of player `p` for frame `f`.
    fn best_input_of(&self, p: usize, f: u64) -> (tagged: TaggedInput)
        requires
            p < self.peers.len(),
            self.received.len() == self.peers.len(),
        ensures
            tagged == self@.best_input(p as int, f as int),
    {
        let bytes = &self.received[p];
        if f < bytes.len() as u64 {
            TaggedInput { input: bytes[f as usize], status: InputStatus::Confirmed }
        } else {
            match self.peers[p] {
                PeerState::Disconnected => TaggedInput {
                    input: 0,
                    status: InputStatus::Disconnected,
                },
                _ => {
                    let last = if bytes.len() > 0 {
                        bytes[bytes.len() - 1]
                    } else {
                        0
                    };
                    TaggedInput { input: last, status: InputStatus::Predicted }
                },
            }
        }
    }

    /// The best that is known of the inputs for frame `f`, one per player.
    fn best_of(&self, f: u64) -> (inputs: Vec<TaggedInput>)
        requires
            self.received.len() == self.peers.len(),
        ensures
            inputs@ == self@.best(f as int),
    {
        let mut inputs: Vec<TaggedInput> = Vec::new();
        let mut p: usize = 0;
        while p < self.peers.len()
            invariant
                p <= self.peers.len(),
                self.received.len() == self.peers.len(),
                inputs@.len() == p,
                forall|k: int|
                    0 <= k < p ==> #[trigger] inputs@[k] == self@.best_input(k, f as int),
            decreases self.peers.len() - p,
        {
            inputs.push(self.best_input_of(p, f));
            p = p + 1;
        }
        assert(inputs@ =~= self@.best(f as int));
        inputs
    }

    /// How many frames from frame zero on are known of every player.
    fn known_of_all(&self) -> (frames: u64)
        requires
            self.received.len() == self.peers.len(),
        ensures
            frames == self@.known_of_all(),
    {
        let mut frames: u64 = self.timeline.current_frame;
        let mut p: usize = 0;
        while p < self.peers.len()
            invariant
                p <= self.peers.len(),
                self.received.len() == self.peers.len(),
                frames == self@.known_of_first(p as int),
            decreases self.peers.len() - p,
        {
            match self.peers[p] {
                PeerState::Disconnected => {},
                _ => {
                    let arrived = self.received[p].len() as u64;
                    if arrived < frames {
                        frames = arrived;
                    }
                },
            }
            proof {
                lemma_known_of_first(self@, p as int);
            }
            p = p + 1;
        }
        frames
    }

    /// Whether frame `f` was run under the bytes of the best that is known
    /// now.
    fn is_right_at(&self, f: u64) -> (right: bool)
        requires
            self.received.len() == self.peers.len(),
            f < self.used.len(),
            self.used@[f as int]@.len() == self.peers.len(),
        ensures
            right == self@.right_at(f as int),
    {
        let mut p: usize = 0;
        while p < self.peers.len()
            invariant
                p <= self.peers.len(),
                self.received.len() == self.peers.len(),
                f < self.used.len(),
                self.used@[f as int]@.len() == self.peers.len(),
                forall|k: int|
                    0 <= k < p ==> self@.used[f as int][k] == (#[trigger] self@.best_input(
                        k,
                        f as int,
                    )).input,
            decreases self.peers.len() - p,
        {
            let best = self.best_input_of(p, f);
            if self.used[f as usize][p] != best.input {
                assert(self@.used[f as int][p as int] != self@.best_bytes(f as int)[p as int]);
                return false;
            }
            p = p + 1;
        }
        assert(self@.used[f as int] =~= self@.best_bytes(f as int));
        true
    }

    /// The first frame from `from` on that was run under other bytes than
    /// the best that is known now, or the current frame if there is none.
    fn find_wrong(&self, from: u64) -> (wrong: u64)
        requires
            self.received.len() == self.peers.len(),
            from <= self.timeline.current_frame,
            self.used.len() == self.timeline.current_frame,
            forall|f: int|
                0 <= f < self.used@.len() ==> (#[trigger] self.used@[f])@.len() == self.peers.len(),
        ensures
            wrong == self@.first_wrong(from as int),
    {
        let mut f: u64 = from;
        while f < self.timeline.current_frame
            invariant
                from <= f <= self.timeline.current_frame,
                self.received.len() == self.peers.len(),
                self.used.len() == self.timeline.current_frame,
                forall|g: int|
                    0 <= g < self.used@.len() ==> (#[trigger] self.used@[g])@.len()
                        == self.peers.len(),
                self@.first_wrong(from as int) == self@.first_wrong(f as int),
            decreases self.timeline.current_frame - f,
        {
            assert(self.used@[f as int]@.len() == self.peers.len());
            if !self.is_right_at(f) {
                return f;
            }
            f = f + 1;
        }
        f
    }

    /// The one operation that drives the session, called once per tick with
    /// the wire byte of the local player. It returns the requests that it
    /// has carried out on the match, in their order.
    ///
    /// Before every player has synchronized it refuses. While ticks are to
    /// be skipped it uses one up, leaves the match alone and returns no
    /// request. Beyond the prediction window it refuses and halts the
    /// session: every later call is refused in the same way. Otherwise it
    /// puts the local input on record, which the caller is to send on to the
    /// peers; rewinds the match where a guess has turned out wrong; and runs
    /// the current frame.
    pub fn advance_frame(&mut self, local_input: u8) -> (outcome: Result<
        Vec<Request>,
        SessionError,
    >)
        requires
            old(self).wf(),
        ensures
            final(self).wf(),
            final(self)@ == ticked(old(self)@, local_input),
            match advance_refusal(old(self)@) {
                Some(error) => outcome == Err::<Vec<Request>, SessionError>(error),
                None => outcome is Ok && views(outcome->Ok_0@) == requested(
                    old(self)@,
                    local_input,
                ),
            },
            outcome is Ok && old(self)@.frames_to_skip == 0 ==> {
                &&& final(self)@.caught_up()
                &&& final(self)@.timeline.current_frame == old(self)@.timeline.current_frame + 1
                &&& final(self)@.timeline.state == final(self)@.ideal(
                    final(self)@.timeline.current_frame,
                )
            },
            final(self)@.settled >= old(self)@.settled,
    {
        if self.halted {
            return Err(SessionError::PredictionThreshold);
        }
        match self.session_state() {
            SessionState::Synchronizing => {
                return Err(SessionError::NotSynchronized);
            },
            SessionState::Running => {},
        }
        if self.frames_to_skip > 0 {
            self.frames_to_skip = self.frames_to_skip - 1;
            proof {
                lemma_bookkeeping_wf(old(self)@, self@);
            }
            let none: Vec<Request> = Vec::new();
            assert(views(none@) =~= Seq::<RequestModel>::empty());
            return Ok(none);
        }
        let now = self.timeline.current_frame;
        let known = self.known_of_all();
        proof {
            lemma_known_of_first(self@, self@.players());
        }
        if now - known > self.max_prediction as u64 {
            self.halted = true;
            proof {
                lemma_bookkeeping_wf(old(self)@, self@);
            }
            return Err(SessionError::PredictionThreshold);
        }
        if now == u64::MAX {
            return Err(SessionError::InvalidRequest);
        }
        let ghost m = self@;
        self.submit(local_input);
        let ghost k = self@;
        let wrong = self.find_wrong(self.settled);
        let mut requests: Vec<Request> = Vec::new();
        if wrong < now {
            proof {
                lemma_rerun_rewinds(m, k, local_input, wrong as int);
            }
            self.rewind(&mut requests, wrong);
        } else {
            proof {
                lemma_first_wrong(k, k.settled);
                lemma_rerun_starts(m, k, local_input);
                assert(views(requests@) =~= Seq::<RequestModel>::empty());
            }
        }
        while self.timeline.current_frame <= now
            invariant
                now == k.timeline.current_frame,
                self.in_tick(k, requests@),
            decreases now + 1 - self.timeline.current_frame,
        {
            self.rerun_frame(&mut requests, Ghost(k));
        }
        proof {
            lemma_rerun_ends(m, k, local_input, self@.timeline, self@.used, views(requests@));
        }
        self.settle(Ghost(ran(m, local_input)));
        Ok(requests)
    }

    /// Where a tick stands while it runs.
    spec fn in_tick(&self, k: SessionModel, requests: Seq<Request>) -> bool {
        &&& prepared(k)
        &&& self.timeline.wf()
        &&& self.received.len() == self.peers.len()
        &&& self@ == (SessionModel { timeline: self@.timeline, used: self@.used, ..k })
        &&& self@.timeline.current_frame <= k.timeline.current_frame + 1
        &&& rerunning(k, self@.timeline, self@.used, views(requests), k.first_wrong(k.settled))
    }

    /// Puts the local input of the current frame on record.
    fn submit(&mut self, local_input: u8)
        requires
            old(self).wf(),
            advance_refusal(old(self)@) is None,
            old(self)@.frames_to_skip == 0,
        ensures
            final(self)@ == old(self)@.submitted(local_input),
            final(self).timeline == old(self).timeline,
            final(self).timeline.wf(),
            final(self).received.len() == final(self).peers.len(),
            final(self).settled <= final(self).timeline.current_frame,
            final(self).used.len() == final(self).timeline.current_frame,
            forall|f: int|
                0 <= f < final(self).used@.len() ==> (#[trigger] final(self).used@[f])@.len()
                    == final(self).peers.len(),
    {
        push_byte(&mut self.received, self.local, local_input % 64);
        proof {
            assert(self@.received =~= old(self)@.submitted(local_input).received);
            assert forall|f: int|
                0 <= f < self.used@.len() implies (#[trigger] self.used@[f])@.len()
                    == self.peers.len() by {
                assert(old(self)@.used[f] == self.used@[f]@);
                assert(old(self)@.used[f].len() == old(self)@.players());
            }
        }
    }

    /// Loads the match as it was before frame `wrong` and runs that frame
    /// again.
    fn rewind(&mut self, requests: &mut Vec<Request>, wrong: u64)
        requires
            old(self).timeline.wf(),
            old(self).received.len() == old(self).peers.len(),
            old(requests)@.len() == 0,
            wrong < old(self)@.timeline.current_frame < u64::MAX,
            wrong <= old(self).used.len(),
            old(self)@.best(wrong as int).len() == old(self)@.players(),
            !refused(
                old(self)@.timeline,
                RequestModel::LoadGameState { frame: wrong as int },
            ),
            applied(
                old(self)@.timeline,
                RequestModel::LoadGameState { frame: wrong as int },
            ).state.driven_by(old(self)@.players()),
        ensures
            final(self).timeline.wf(),
            final(self).received.len() == final(self).peers.len(),
            final(self)@ == (SessionModel {
                timeline: final(self)@.timeline,
                used: final(self)@.used,
                ..old(self)@
            }),
            final(self)@.timeline == applied(
                applied(
                    old(self)@.timeline,
                    RequestModel::LoadGameState { frame: wrong as int },
                ),
                RequestModel::AdvanceFrame { inputs: old(self)@.best(wrong as int) },
            ),
            final(self)@.used == old(self)@.used.take(wrong as int).push(
                old(self)@.best_bytes(wrong as int),
            ),
            views(final(requests)@) == seq![
                RequestModel::LoadGameState { frame: wrong as int },
                RequestModel::AdvanceFrame { inputs: old(self)@.best(wrong as int) },
            ],
    {
        let ghost k = self@;
        let load = Request::LoadGameState { frame: wrong };
        let loaded = self.timeline.apply(&load);
        assert(loaded is Ok);
        requests.push(load);
        self.used.truncate(wrong as usize);
        let inputs = self.best_of(wrong);
        assert(inputs@ == k.best(wrong as int)) by {
            assert(self@.best(wrong as int) =~= k.best(wrong as int));
        }
        let ghost shorter = self@.used;
        assert(shorter =~= k.used.take(wrong as int));
        run_frame(&mut self.timeline, &mut self.used, requests, inputs, false);
        proof {
            assert(self@.used =~= shorter.push(k.best_bytes(wrong as int))) by {
                assert(bytes_of(k.best(wrong as int)) =~= k.best_bytes(wrong as int));
            }
            assert(views(requests@) =~= seq![
                RequestModel::LoadGameState { frame: wrong as int },
                RequestModel::AdvanceFrame { inputs: k.best(wrong as int) },
            ]);
        }
    }

    /// Saves the match and runs its frame under the best that is known.
    fn rerun_frame(&mut self, requests: &mut Vec<Request>, Ghost(k): Ghost<SessionModel>)
        requires
            old(self).in_tick(k, old(requests)@),
            old(self)@.timeline.current_frame <= k.timeline.current_frame,
        ensures
            final(self).in_tick(k, final(requests)@),
            final(self)@.timeline.current_frame == old(self)@.timeline.current_frame + 1,
    {
        let frame = self.timeline.current_frame;
        let ghost used = self@.used;
        proof {
            lemma_rerun_steps(
                k,
                self@.timeline,
                used,
                views(requests@),
                k.first_wrong(k.settled),
            );
        }
        let inputs = self.best_of(frame);
        assert(inputs@ == k.best(frame as int)) by {
            assert(self@.best(frame as int) =~= k.best(frame as int));
        }
        run_frame(&mut self.timeline, &mut self.used, requests, inputs, true);
        proof {
            assert(self@.used =~= used.push(k.best_bytes(frame as int))) by {
                assert(bytes_of(k.best(frame as int)) =~= k.best_bytes(frame as int));
            }
        }
    }

    /// Confirms the frames that are known of every player.
    fn settle(&mut self, Ghost(after): Ghost<SessionModel>)
        requires
            old(self).received.len() == old(self).peers.len(),
            after == (SessionModel { settled: old(self)@.known_of_all(), ..old(self)@ }),
        ensures
            final(self)@ == after,
            final(self).timeline == old(self).timeline,
    {
        self.settled = self.known_of_all();
    }

    /// Whether the session may advance frames.
    pub fn session_state(&self) -> (state: SessionState)
        ensures
            state == (if self@.synchronized() {
                SessionState::Running
            } else {
                SessionState::Synchronizing
            }),
    {
        let mut p: usize = 0;
        while p < self.peers.len()
            invariant
                p <= self.peers.len(),
                forall|k: int| 0 <= k < p ==> #[trigger] self.peers@[k] != PeerState::Synchronizing,
            decreases self.peers.len() - p,
        {
            match self.peers[p] {
                PeerState::Synchronizing => {
                    assert(self@.peers[p as int] == PeerState::Synchronizing);
                    return SessionState::Synchronizing;
                },
                _ => {},
            }
            p = p + 1;
        }
        SessionState::Running
    }

    /// Takes note of what the transport reports. An event that does not fit
    /// is refused and changes nothing.
    pub fn handle_event(&mut self, event: Event) -> (outcome: Result<(), SessionError>)
        requires
            old(self).wf(),
        ensures
            final(self).wf(),
            match event_refusal(old(self)@, event) {
                Some(error) => outcome == Err::<(), SessionError>(error) && final(self)@ == old(
                    self,
                )@,
                None => outcome is Ok && final(self)@ == notified(old(self)@, event),
            },
            final(self)@.timeline == old(self)@.timeline,
    {
        match event {
            Event::Synchronized { player } => {
                if player >= self.peers.len() {
                    return Err(SessionError::InvalidRequest);
                }
                match self.peers[player] {
                    PeerState::Disconnected => {
                        return Err(SessionError::PlayerDisconnected);
                    },
                    _ => {},
                }
                self.peers.set(player, PeerState::Running);
            },
            Event::Disconnected { player } => {
                if player >= self.peers.len() || player == self.local {
                    return Err(SessionError::InvalidRequest);
                }
                match self.peers[player] {
                    PeerState::Disconnected => {
                        return Err(SessionError::PlayerDisconnected);
                    },
                    _ => {},
                }
                self.peers.set(player, PeerState::Disconnected);
            },
            Event::Input { player, frame, input } => {
                if player >= self.peers.len() || player == self.local {
                    return Err(SessionError::InvalidRequest);
                }
                match self.peers[player] {
                    PeerState::Disconnected => {
                        return Err(SessionError::PlayerDisconnected);
                    },
                    PeerState::Synchronizing => {
                        return Err(SessionError::NotSynchronized);
                    },
                    PeerState::Running => {},
                }
                if frame != self.received[player].len() as u64 {
                    return Err(SessionError::InvalidRequest);
                }
                push_byte(&mut self.received, player, input % 64);
            },
            Event::WaitRecommendation { skip_frames } => {
                if skip_frames > u32::MAX - self.frames_to_skip {
                    self.frames_to_skip = u32::MAX;
                } else {
                    self.frames_to_skip = self.frames_to_skip + skip_frames;
                }
            },
        }
        proof {
            assert(self@.received =~= notified(old(self)@, event).received);
            assert(self@ == notified(old(self)@, event));
            lemma_notified_wf(old(self)@, event);
        }
        Ok(())
    }
}

/// The wire bytes of `inputs`.
fn bytes_from(inputs: &Vec<TaggedInput>) -> (bytes: Vec<u8>)
    ensures
        bytes@ == bytes_of(inputs@),
{
    let mut bytes: Vec<u8> = Vec::new();
    let mut p: usize = 0;
    while p < inputs.len()
        invariant
            p <= inputs.len(),
            bytes@.len() == p,
            forall|k: int| 0 <= k < p ==> #[trigger] bytes@[k] == inputs@[k].input,
        decreases inputs.len() - p,
    {
        bytes.push(inputs[p].input);
        p = p + 1;
    }
    assert(bytes@ =~= bytes_of(inputs@));
    bytes
}

/// Runs the current frame of `timeline` under `inputs`, after saving the
/// match where `save_first`, and puts on record what was asked of the
/// timeline and under which bytes the frame was run.
fn run_frame(
    timeline: &mut Timeline,
    used: &mut Vec<Vec<u8>>,
    requests: &mut Vec<Request>,
    inputs: Vec<TaggedInput>,
    save_first: bool,
)
    requires
        old(timeline).wf(),
        old(timeline)@.current_frame < u64::MAX,
        old(timeline)@.state.driven_by(inputs@.len() as int),
    ensures
        final(timeline).wf(),
        final(timeline)@ == applied(
            if save_first {
                applied(
                    old(timeline)@,
                    RequestModel::SaveGameState { frame: old(timeline)@.current_frame },
                )
            } else {
                old(timeline)@
            },
            RequestModel::AdvanceFrame { inputs: inputs@ },
        ),
        final(used)@.len() == old(used)@.len() + 1,
        final(used)@.drop_last() == old(used)@,
        final(used)@.last()@ == bytes_of(inputs@),
        views(final(requests)@) == (if save_first {
            views(old(requests)@).push(
                RequestModel::SaveGameState { frame: old(timeline)@.current_frame },
            ).push(RequestModel::AdvanceFrame { inputs: inputs@ })
        } else {
            views(old(requests)@).push(RequestModel::AdvanceFrame { inputs: inputs@ })
        }),
{
    let frame = timeline.current_frame;
    if save_first {
        let save = Request::SaveGameState { frame };
        let saved = timeline.apply(&save);
        assert(saved is Ok);
        requests.push(save);
        assert(views(requests@) =~= views(old(requests)@).push(save@));
    }
    let ghost recorded = requests@;
    let bytes = bytes_from(&inputs);
    let advance = Request::AdvanceFrame { inputs };
    let advanced = timeline.apply(&advance);
    assert(advanced is Ok);
    requests.push(advance);
    assert(views(requests@) =~= views(recorded).push(advance@));
    used.push(bytes);
    assert(used@.drop_last() =~= old(used)@);
}

/// Appends `byte` to row `row` of `rows`.
fn push_byte(rows: &mut Vec<Vec<u8>>, row: usize, byte: u8)
    requires
        row < old(rows).len(),
    ensures
        final(rows)@.len() == old(rows)@.len(),
        forall|i: int|
            0 <= i < old(rows)@.len() ==> (#[trigger] final(rows)@[i])@ == (if i == row {
                old(rows)@[i]@.push(byte)
            } else {
                old(rows)@[i]@
            }),
{
    rows[row].push(byte);
}

} // verus!
