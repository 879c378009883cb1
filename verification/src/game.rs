//! The systems of a running match: every paddle takes its tick, and the ball
//! gains speed from each paddle that it touches.

use vstd::prelude::*;
use crate::angle::{is_angle, is_stop};
use crate::calc::{
    paddle_sim, reported_heading, thrust, Acceleration, NextStop, Orientation, RotAcceleration,
    Rotating, Vec2, Velocity,
};
use crate::input::PlayerInputState;
use crate::rotation::turned;
use crate::units::{saturate, saturated, trunc_div};

verus! {

/// The name that the engine gives a body.
#[derive(Clone, Copy, PartialEq, Eq, Debug, Structural)]
pub struct EntityId {
    pub bits: u64,
}

/// The ball.
#[derive(Clone, Copy, PartialEq, Eq, Debug, Structural)]
pub struct Ball {
    pub entity: EntityId,
    pub velocity: Velocity,
}

/// The bodies that touch one paddle during a tick, as the engine reports
/// them.
pub struct CollidingEntities {
    entities: Vec<EntityId>,
}

impl View for CollidingEntities {
    type V = Set<EntityId>;

    closed spec fn view(&self) -> Set<EntityId> {
        self.entities@.to_set()
    }
}

impl CollidingEntities {
    /// Nothing touches the paddle.
    pub fn new() -> (colliding: CollidingEntities)
        ensures
            colliding@ == Set::<EntityId>::empty(),
    {
        let colliding = CollidingEntities { entities: Vec::new() };
        assert(colliding.entities@.to_set() =~= Set::<EntityId>::empty());
        colliding
    }

    /// Records that `entity` touches the paddle.
    pub fn insert(&mut self, entity: EntityId)
        ensures
            final(self)@ == old(self)@.insert(entity),
    {
        self.entities.push(entity);
        let ghost before = old(self).entities@;
        let ghost after = self.entities@;
        assert(after == before.push(entity));
        assert forall|e: EntityId| after.contains(e) <==> before.contains(e) || e == entity by {
            if after.contains(e) {
                let i = choose|i: int| 0 <= i < after.len() && after[i] == e;
                if i < before.len() {
                    assert(before[i] == e);
                }
            }
            if before.contains(e) {
                let i = choose|i: int| 0 <= i < before.len() && before[i] == e;
                assert(after[i] == e);
            }
            if e == entity {
                assert(after[before.len() as int] == e);
            }
        }
        assert(after.to_set() =~= before.to_set().insert(entity));
    }

    /// Whether `entity` touches the paddle.
    pub fn contains(&self, entity: EntityId) -> (touching: bool)
        ensures
            touching == self@.contains(entity),
    {
        let mut i: usize = 0;
        while i < self.entities.len()
            invariant
                i <= self.entities.len(),
                forall|j: int| 0 <= j < i ==> self.entities@[j] != entity,
            decreases self.entities.len() - i,
        {
            if self.entities[i].bits == entity.bits {
                assert(self.entities@[i as int] == entity);
                assert(self.entities@.contains(entity));
                return true;
            }
            i = i + 1;
        }
        assert(!self.entities@.contains(entity));
        false
    }
}

/// Numerator and denominator of the factor by which a touch speeds up the
/// ball: two and a half.
pub const BOOST_NUMERATOR: i64 = 5;

pub const BOOST_DENOMINATOR: i64 = 2;

/// One component of a velocity after one touch.
pub open spec fn boosted(v: int) -> int {
    saturated(trunc_div(v * BOOST_NUMERATOR, BOOST_DENOMINATOR as int))
}

/// A velocity after one touch.
pub open spec fn boosted_velocity(v: Velocity) -> Velocity {
    Velocity {
        linvel: Vec2 {
            x: boosted(v.linvel.x as int) as i64,
            y: boosted(v.linvel.y as int) as i64,
        },
    }
}

/// The velocity of the body `entity` after the paddles of one tick: each
/// paddle that it touches speeds it up once, one after the other.
pub open spec fn struck(v: Velocity, entity: EntityId, paddles: Seq<Set<EntityId>>) -> Velocity
    decreases paddles.len(),
{
    if paddles.len() == 0 {
        v
    } else {
        let before = struck(v, entity, paddles.drop_last());
        if paddles.last().contains(entity) {
            boosted_velocity(before)
        } else {
            before
        }
    }
}

/// What each paddle of a tick touches, as sets.
pub open spec fn touched(colliding: Seq<CollidingEntities>) -> Seq<Set<EntityId>> {
    colliding.map_values(|c: CollidingEntities| c@)
}

/// One component of a velocity after one touch: see [`boosted`].
fn boost_component(v: i64) -> (after: i64)
    ensures
        after == boosted(v as int),
{
    saturate((v as i128 * BOOST_NUMERATOR as i128) / BOOST_DENOMINATOR as i128)
}

/// Reacts to what touches one paddle: if the ball is among it, the ball
/// leaves two and a half times as fast.
pub fn on_collision(ball: &mut Ball, colliding: &CollidingEntities)
    ensures
        final(ball).entity == old(ball).entity,
        final(ball).velocity == (if colliding@.contains(old(ball).entity) {
            boosted_velocity(old(ball).velocity)
        } else {
            old(ball).velocity
        }),
{
    if colliding.contains(ball.entity) {
        ball.velocity.linvel.x = boost_component(ball.velocity.linvel.x);
        ball.velocity.linvel.y = boost_component(ball.velocity.linvel.y);
    }
}

/// Ball `b` of `after` is ball `b` of `before`, struck by the paddles of
/// `paddles`.
pub open spec fn struck_by(
    before: Seq<Ball>,
    after: Seq<Ball>,
    b: int,
    paddles: Seq<Set<EntityId>>,
) -> bool {
    &&& after[b].entity == before[b].entity
    &&& after[b].velocity == struck(before[b].velocity, before[b].entity, paddles)
}

/// Lets each paddle of the tick react to each ball. A ball that touches
/// several paddles is sped up by each of them.
pub fn ball_collision_detection(
    ball_query: &mut Vec<Ball>,
    colliding_entities_query: &Vec<CollidingEntities>,
)
    ensures
        final(ball_query).len() == old(ball_query).len(),
        forall|b: int|
            0 <= b < old(ball_query).len() ==> #[trigger] struck_by(
                old(ball_query)@,
                final(ball_query)@,
                b,
                touched(colliding_entities_query@),
            ),
{
    let ghost paddles = touched(colliding_entities_query@);
    let mut p: usize = 0;
    while p < colliding_entities_query.len()
        invariant
            p <= colliding_entities_query.len(),
            paddles == touched(colliding_entities_query@),
            ball_query.len() == old(ball_query).len(),
            forall|b: int|
                0 <= b < ball_query.len() ==> #[trigger] struck_by(
                    old(ball_query)@,
                    ball_query@,
                    b,
                    paddles.take(p as int),
                ),
        decreases colliding_entities_query.len() - p,
    {
        let ghost entered = ball_query@;
        let ghost touching = paddles[p as int];
        let mut b: usize = 0;
        while b < ball_query.len()
            invariant
                p < colliding_entities_query.len(),
                touching == colliding_entities_query@[p as int]@,
                b <= ball_query.len(),
                ball_query.len() == entered.len(),
                forall|k: int| b <= k < ball_query.len() ==> ball_query[k] == entered[k],
                forall|k: int|
                    0 <= k < b ==> (#[trigger] ball_query[k]).entity == entered[k].entity
                        && ball_query[k].velocity == (if touching.contains(entered[k].entity) {
                        boosted_velocity(entered[k].velocity)
                    } else {
                        entered[k].velocity
                    }),
            decreases ball_query.len() - b,
        {
            let mut ball = ball_query[b];
            on_collision(&mut ball, &colliding_entities_query[p]);
            ball_query.set(b, ball);
            b = b + 1;
        }
        proof {
            let next = paddles.take(p as int + 1);
            assert(next.drop_last() =~= paddles.take(p as int));
            assert(next.last() == touching);
            assert forall|k: int| 0 <= k < ball_query.len() implies #[trigger] struck_by(
                old(ball_query)@,
                ball_query@,
                k,
                next,
            ) by {
                assert(struck_by(old(ball_query)@, entered, k, paddles.take(p as int)));
            }
        }
        p = p + 1;
    }
    assert(paddles.take(p as int) =~= paddles);
}

/// The components of one engine-driven paddle.
#[derive(Clone, Copy, PartialEq, Eq, Debug, Structural)]
pub struct PaddleBody {
    pub action_state: PlayerInputState,
    pub acceleration: Acceleration,
    pub next_stop: NextStop,
    pub rotating: Rotating,
    pub velocity: Velocity,
    pub transform: Orientation,
    pub rot_acceleration: RotAcceleration,
}

/// One engine-driven paddle after its tick.
pub open spec fn simulated(body: PaddleBody) -> PaddleBody {
    let h = turned(
        reported_heading(
            body.transform.rotation as int,
            body.next_stop.0 as int,
            body.rotating.0,
        ),
        body.action_state,
        body.rot_acceleration.0 as int,
    );
    PaddleBody {
        next_stop: NextStop(h.next_stop as i64),
        rotating: Rotating(h.rotating),
        transform: Orientation { rotation: h.rotation as i64 },
        velocity: Velocity {
            linvel: Vec2 {
                x: thrust(
                    body.velocity.linvel.x as int,
                    body.acceleration.0 as int,
                    body.action_state.right,
                    body.action_state.left,
                    true,
                ) as i64,
                y: thrust(
                    body.velocity.linvel.y as int,
                    body.acceleration.0 as int,
                    body.action_state.up,
                    body.action_state.down,
                    false,
                ) as i64,
            },
        },
        ..body
    }
}

/// The target of every paddle is one of the four stops.
pub open spec fn targets_are_stops(query: Seq<PaddleBody>) -> bool {
    forall|i: int| 0 <= i < query.len() ==> is_stop((#[trigger] query[i]).next_stop.0 as int)
}

/// Gives every paddle its tick, each under its own inputs.
pub fn movement(query: &mut Vec<PaddleBody>)
    requires
        targets_are_stops(old(query)@),
    ensures
        final(query).len() == old(query).len(),
        forall|i: int|
            0 <= i < old(query).len() ==> #[trigger] final(query)[i] == simulated(old(query)[i]),
        targets_are_stops(final(query)@),
        forall|i: int|
            0 <= i < old(query).len() ==> is_angle(
                (#[trigger] final(query)[i]).transform.rotation as int,
            ),
{
    let mut i: usize = 0;
    while i < query.len()
        invariant
            i <= query.len(),
            query.len() == old(query).len(),
            targets_are_stops(old(query)@),
            forall|k: int| i <= k < query.len() ==> query[k] == old(query)[k],
            forall|k: int| 0 <= k < i ==> #[trigger] query[k] == simulated(old(query)[k]),
            forall|k: int|
                0 <= k < i ==> is_stop((#[trigger] query[k]).next_stop.0 as int) && is_angle(
                    query[k].transform.rotation as int,
                ),
        decreases query.len() - i,
    {
        let mut body = query[i];
        paddle_sim(
            &mut body.transform,
            &mut body.rotating,
            &mut body.next_stop,
            &body.action_state,
            &mut body.velocity,
            &body.acceleration,
            &body.rot_acceleration,
        );
        query.set(i, body);
        i = i + 1;
    }
}

} // verus!
