//! The state of a match: the unit that a rollback saves and restores.

use vstd::prelude::*;
use crate::compute::{compute, computed, lemma_computed_wf};
use crate::game::{ball_collision_detection, struck_by, touched, Ball, CollidingEntities};
use crate::input::{decode_spec, idle_spec, PlayerInputState};
use crate::input_handlers::{EmptyInputHandler, NetworkInputHandler};
use crate::paddle::{Paddle, PaddleModel};

verus! {

/// How sure the session is of an input.
#[derive(Clone, Copy, PartialEq, Eq, Debug, Structural)]
pub enum InputStatus {
    /// The input is what the player did.
    Confirmed,
    /// The input is a guess, to be corrected by a rollback if it is wrong.
    Predicted,
    /// The player is gone.
    Disconnected,
}

/// The wire byte of one player for one frame, with its status.
#[derive(Clone, Copy, PartialEq, Eq, Debug, Structural)]
pub struct TaggedInput {
    pub input: u8,
    pub status: InputStatus,
}

/// A match as the contracts see it.
pub struct GameStateModel {
    pub paddles: Seq<PaddleModel>,
    pub balls: Seq<Ball>,
}

impl GameStateModel {
    /// Every paddle is well formed.
    pub open spec fn wf(self) -> bool {
        forall|i: int| 0 <= i < self.paddles.len() ==> (#[trigger] self.paddles[i]).wf()
    }

    /// Every paddle finds its input stream among `streams` many.
    pub open spec fn driven_by(self, streams: int) -> bool {
        forall|i: int| 0 <= i < self.paddles.len() ==> (#[trigger] self.paddles[i]).id < streams
    }
}

/// What a player holds down according to a tagged input: nothing where the
/// player is gone.
pub open spec fn held(tagged: TaggedInput) -> PlayerInputState {
    if tagged.status == InputStatus::Disconnected {
        idle_spec()
    } else {
        decode_spec(tagged.input)
    }
}

/// The match after one tick in which the paddle with id `i` is driven by
/// `inputs[i]`.
pub open spec fn advanced(
    m: GameStateModel,
    inputs: Seq<TaggedInput>,
    delta_time: int,
) -> GameStateModel {
    GameStateModel {
        paddles: Seq::new(
            m.paddles.len(),
            |i: int| computed(m.paddles[i], held(inputs[m.paddles[i].id]), delta_time),
        ),
        balls: m.balls,
    }
}

/// The match after a run of ticks, one vector of inputs per tick.
pub open spec fn advanced_through(
    m: GameStateModel,
    frames: Seq<Seq<TaggedInput>>,
    delta_time: int,
) -> GameStateModel
    decreases frames.len(),
{
    if frames.len() == 0 {
        m
    } else {
        advanced(advanced_through(m, frames.drop_last(), delta_time), frames.last(), delta_time)
    }
}

/// A tick reads of its inputs only what the players of the paddles hold:
/// inputs that differ in status alone, or in the bits that carry nothing, or
/// for players without a paddle, give the same match.
pub proof fn lemma_advanced_reads_held(
    m: GameStateModel,
    a: Seq<TaggedInput>,
    b: Seq<TaggedInput>,
    delta_time: int,
)
    requires
        forall|i: int|
            0 <= i < m.paddles.len() ==> held(a[(#[trigger] m.paddles[i]).id]) == held(
                b[m.paddles[i].id],
            ),
    ensures
        advanced(m, a, delta_time) == advanced(m, b, delta_time),
{
    assert(advanced(m, a, delta_time).paddles =~= advanced(m, b, delta_time).paddles);
}

/// A run of ticks keeps a match well formed, and each paddle its id.
pub proof fn lemma_advanced_through_wf(
    m: GameStateModel,
    frames: Seq<Seq<TaggedInput>>,
    delta_time: int,
)
    requires
        m.wf(),
    ensures
        advanced_through(m, frames, delta_time).wf(),
        advanced_through(m, frames, delta_time).paddles.len() == m.paddles.len(),
        forall|s: int| m.driven_by(s) ==> advanced_through(m, frames, delta_time).driven_by(s),
    decreases frames.len(),
{
    if frames.len() > 0 {
        lemma_advanced_through_wf(m, frames.drop_last(), delta_time);
        lemma_advanced_wf(
            advanced_through(m, frames.drop_last(), delta_time),
            frames.last(),
            delta_time,
        );
    }
}

/// A tick keeps a match well formed, and each paddle its id.
pub proof fn lemma_advanced_wf(m: GameStateModel, inputs: Seq<TaggedInput>, delta_time: int)
    requires
        m.wf(),
    ensures
        advanced(m, inputs, delta_time).wf(),
        advanced(m, inputs, delta_time).paddles.len() == m.paddles.len(),
        forall|s: int| m.driven_by(s) ==> advanced(m, inputs, delta_time).driven_by(s),
{
    let after = advanced(m, inputs, delta_time);
    assert forall|i: int|
        0 <= i < after.paddles.len() implies (#[trigger] after.paddles[i]).wf() by {
        lemma_computed_wf(m.paddles[i], held(inputs[m.paddles[i].id]), delta_time);
    }
    assert forall|s: int| m.driven_by(s) implies after.driven_by(s) by {
        assert forall|i: int| 0 <= i < after.paddles.len() implies (#[trigger] after.paddles[i]).id
            < s by {
            assert(m.paddles[i].id < s);
        }
    }
}

/// Two runs from the same match under the same inputs end in the same match.
pub proof fn lemma_deterministic(
    a: GameStateModel,
    b: GameStateModel,
    frames_a: Seq<Seq<TaggedInput>>,
    frames_b: Seq<Seq<TaggedInput>>,
    delta_time: int,
)
    requires
        a == b,
        frames_a == frames_b,
    ensures
        advanced_through(a, frames_a, delta_time) == advanced_through(b, frames_b, delta_time),
{
}

/// Two runs from the same match end in the same match already where their
/// inputs agree, frame by frame and for the player of each paddle, in what
/// the player holds: neither the status of an input nor the bits that carry
/// nothing make a difference.
pub proof fn lemma_runs_read_held(
    m: GameStateModel,
    frames_a: Seq<Seq<TaggedInput>>,
    frames_b: Seq<Seq<TaggedInput>>,
    players: int,
    delta_time: int,
)
    requires
        m.wf(),
        m.driven_by(players),
        frames_a.len() == frames_b.len(),
        forall|f: int, p: int|
            0 <= f < frames_a.len() && 0 <= p < players ==> held(#[trigger] frames_a[f][p]) == held(
                frames_b[f][p],
            ),
    ensures
        advanced_through(m, frames_a, delta_time) == advanced_through(m, frames_b, delta_time),
    decreases frames_a.len(),
{
    if frames_a.len() > 0 {
        let last = frames_a.len() - 1;
        let shorter_a = frames_a.drop_last();
        let shorter_b = frames_b.drop_last();
        assert forall|f: int, p: int|
            0 <= f < shorter_a.len() && 0 <= p < players implies held(
            #[trigger] shorter_a[f][p],
        ) == held(shorter_b[f][p]) by {
            assert(shorter_a[f] == frames_a[f]);
            assert(shorter_b[f] == frames_b[f]);
            assert(held(frames_a[f][p]) == held(frames_b[f][p]));
        }
        lemma_runs_read_held(m, shorter_a, shorter_b, players, delta_time);
        let before = advanced_through(m, shorter_a, delta_time);
        lemma_advanced_through_wf(m, shorter_a, delta_time);
        assert forall|i: int| 0 <= i < before.paddles.len() implies held(
            frames_a.last()[(#[trigger] before.paddles[i]).id],
        ) == held(frames_b.last()[before.paddles[i].id]) by {
            assert(before.paddles[i].wf());
            assert(held(frames_a[last][before.paddles[i].id]) == held(
                frames_b[last][before.paddles[i].id],
            ));
        }
        lemma_advanced_reads_held(before, frames_a.last(), frames_b.last(), delta_time);
    }
}

/// The paddles and balls of a match.
#[derive(PartialEq, Eq, Debug)]
pub struct GameState {
    pub(crate) paddles: Vec<Paddle>,
    pub(crate) balls: Vec<Ball>,
}

impl View for GameState {
    type V = GameStateModel;

    open(crate) spec fn view(&self) -> GameStateModel {
        GameStateModel {
            paddles: Seq::new(self.paddles@.len(), |i: int| self.paddles@[i]@),
            balls: self.balls@,
        }
    }
}

impl Clone for GameState {
    fn clone(&self) -> (copy: GameState)
        ensures
            copy@ == self@,
    {
        let mut paddles: Vec<Paddle> = Vec::new();
        let mut i: usize = 0;
        while i < self.paddles.len()
            invariant
                i <= self.paddles.len(),
                paddles@ == self.paddles@.take(i as int),
            decreases self.paddles.len() - i,
        {
            paddles.push(self.paddles[i]);
            assert(self.paddles@.take(i as int).push(self.paddles@[i as int])
                =~= self.paddles@.take(i as int + 1));
            i = i + 1;
        }
        assert(self.paddles@.take(i as int) =~= self.paddles@);
        let mut balls: Vec<Ball> = Vec::new();
        let mut j: usize = 0;
        while j < self.balls.len()
            invariant
                j <= self.balls.len(),
                balls@ == self.balls@.take(j as int),
            decreases self.balls.len() - j,
        {
            balls.push(self.balls[j]);
            assert(self.balls@.take(j as int).push(self.balls@[j as int])
                =~= self.balls@.take(j as int + 1));
            j = j + 1;
        }
        assert(self.balls@.take(j as int) =~= self.balls@);
        GameState { paddles, balls }
    }
}

impl GameState {
    /// Every paddle is well formed.
    pub open spec fn wf(&self) -> bool {
        self@.wf()
    }

    /// A match of the given paddles and balls.
    pub fn new(paddles: Vec<Paddle>, balls: Vec<Ball>) -> (state: GameState)
        requires
            forall|i: int| 0 <= i < paddles.len() ==> (#[trigger] paddles[i]).wf(),
        ensures
            state.wf(),
            state@.paddles == Seq::new(paddles@.len(), |i: int| paddles@[i]@),
            state@.balls == balls@,
    {
        GameState { paddles, balls }
    }

    /// The paddles, in their fixed order.
    pub fn paddles(&self) -> (paddles: &Vec<Paddle>)
        ensures
            paddles@.len() == self@.paddles.len(),
            forall|i: int|
                0 <= i < paddles@.len() ==> (#[trigger] paddles@[i])@ == self@.paddles[i],
    {
        &self.paddles
    }

    /// The balls, in their fixed order.
    pub fn balls(&self) -> (balls: &Vec<Ball>)
        ensures
            balls@ == self@.balls,
    {
        &self.balls
    }

    /// Lets the balls react to what the engine reports as touching each
    /// paddle during this tick. The paddles stay as they are.
    pub fn collide(&mut self, colliding: &Vec<CollidingEntities>)
        ensures
            final(self)@.paddles == old(self)@.paddles,
            final(self)@.balls.len() == old(self)@.balls.len(),
            forall|b: int|
                0 <= b < old(self)@.balls.len() ==> #[trigger] struck_by(
                    old(self)@.balls,
                    final(self)@.balls,
                    b,
                    touched(colliding@),
                ),
    {
        ball_collision_detection(&mut self.balls, colliding);
    }

    /// Whether every paddle finds its input stream among `streams` many.
    pub fn driven_by(&self, streams: usize) -> (all: bool)
        ensures
            all == self@.driven_by(streams as int),
    {
        let mut i: usize = 0;
        while i < self.paddles.len()
            invariant
                i <= self.paddles.len(),
                forall|k: int| 0 <= k < i ==> (#[trigger] self@.paddles[k]).id < streams,
            decreases self.paddles.len() - i,
        {
            if self.paddles[i].id as usize >= streams {
                assert(!(self@.paddles[i as int].id < streams));
                return false;
            }
            i = i + 1;
        }
        true
    }

    /// Runs one tick of `delta_time`: each paddle takes the input that its id
    /// selects from `inputs`, as received from its player, or none where the
    /// player is gone.
    pub fn advance(&mut self, inputs: &Vec<TaggedInput>, delta_time: i64)
        requires
            old(self).wf(),
            old(self)@.driven_by(inputs.len() as int),
        ensures
            final(self)@ == advanced(old(self)@, inputs@, delta_time as int),
            final(self).wf(),
            final(self)@.driven_by(inputs.len() as int),
    {
        proof {
            lemma_advanced_wf(self@, inputs@, delta_time as int);
        }
        let ghost before = self@;
        let mut i: usize = 0;
        while i < self.paddles.len()
            invariant
                i <= self.paddles.len(),
                self.paddles.len() == before.paddles.len(),
                self.balls == old(self).balls,
                before == old(self)@,
                before.wf(),
                before.driven_by(inputs.len() as int),
                forall|k: int|
                    i <= k < self.paddles.len() ==> (#[trigger] self.paddles[k])@
                        == before.paddles[k],
                forall|k: int|
                    0 <= k < i ==> (#[trigger] self.paddles[k])@ == computed(
                        before.paddles[k],
                        held(inputs@[before.paddles[k].id]),
                        delta_time as int,
                    ),
            decreases self.paddles.len() - i,
        {
            let mut paddle = self.paddles[i];
            assert(paddle@ == before.paddles[i as int]);
            assert(before.paddles[i as int].wf());
            assert(before.paddles[i as int].id < inputs.len());
            let tagged = inputs[paddle.id as usize];
            match tagged.status {
                InputStatus::Disconnected => {
                    let handler = EmptyInputHandler {  };
                    compute(&handler, &mut paddle, delta_time);
                },
                _ => {
                    let handler = NetworkInputHandler::new(tagged.input);
                    compute(&handler, &mut paddle, delta_time);
                },
            }
            self.paddles.set(i, paddle);
            i = i + 1;
        }
        assert(self@.paddles =~= advanced(before, inputs@, delta_time as int).paddles);
    }
}

} // verus!
