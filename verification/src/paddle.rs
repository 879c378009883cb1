//! The paddle: the one body that a player steers.

use vstd::prelude::*;
use crate::angle::{is_angle, is_stop, normalize_angle};
use crate::units::{MAX_ROTATION_STEP, MAX_SPEED, SCALE, TABLE_HEIGHT, TABLE_WIDTH};

verus! {

/// Which way a paddle is set on turning.
#[derive(Clone, Copy, PartialEq, Eq, Debug, Structural)]
pub enum RotatingM {
    Clockwise,
    AntiClockwise,
    Neither,
}

impl Default for RotatingM {
    fn default() -> (r: RotatingM)
        ensures
            r == RotatingM::Neither,
    {
        RotatingM::Neither
    }
}

/// Width of a paddle unless another is asked for.
pub const DEFAULT_WIDTH: i64 = 30_000;

/// Height of a paddle unless another is asked for.
pub const DEFAULT_HEIGHT: i64 = 150_000;

/// Share of its speed that a paddle loses per tick unless another is asked
/// for, in thousandths.
pub const DEFAULT_FRICTION: i64 = 100;

/// Speed that a held direction adds per tick unless another is asked for.
pub const DEFAULT_ACCELERATION: i64 = 100_000;

/// A paddle as the contracts see it: every field as a mathematical integer.
pub struct PaddleModel {
    pub id: int,
    pub remote: bool,
    pub x: int,
    pub y: int,
    pub width: int,
    pub height: int,
    pub rotation: int,
    pub rotation_velocity: int,
    pub velocity_x: int,
    pub velocity_y: int,
    pub friction: int,
    pub acceleration: int,
    pub next_stop: int,
    pub rotating: RotatingM,
}

impl PaddleModel {
    /// What every paddle of a running match satisfies.
    pub open spec fn wf(self) -> bool {
        &&& 0 <= self.id
        &&& is_angle(self.rotation)
        &&& is_stop(self.next_stop)
        &&& -MAX_ROTATION_STEP <= self.rotation_velocity <= MAX_ROTATION_STEP
        &&& -MAX_SPEED <= self.velocity_x <= MAX_SPEED
        &&& -MAX_SPEED <= self.velocity_y <= MAX_SPEED
        &&& 0 <= self.friction <= SCALE
        &&& 0 <= self.acceleration <= MAX_SPEED
        &&& 0 <= self.width <= TABLE_WIDTH
        &&& 0 <= self.height
    }

    /// The paddle rests on its stop and wants to go nowhere.
    pub open spec fn at_rest(self) -> bool {
        self.rotation == self.next_stop && self.rotating == RotatingM::Neither
    }
}

/// The paddle that `Paddle::new` makes.
pub open spec fn new_paddle(id: int, x: int, remote: bool) -> PaddleModel {
    PaddleModel {
        id,
        remote,
        x,
        y: TABLE_HEIGHT / 2,
        width: DEFAULT_WIDTH as int,
        height: DEFAULT_HEIGHT as int,
        rotation: 0,
        rotation_velocity: 0,
        velocity_x: 0,
        velocity_y: 0,
        friction: DEFAULT_FRICTION as int,
        acceleration: DEFAULT_ACCELERATION as int,
        next_stop: 0,
        rotating: RotatingM::Neither,
    }
}

/// One paddle. All lengths, angles and speeds are in thousandths.
#[derive(Clone, Copy, PartialEq, Eq, Debug, Structural)]
pub struct Paddle {
    pub(crate) id: u8,
    pub(crate) remote: bool,
    pub(crate) x: i64,
    pub(crate) y: i64,
    pub(crate) width: i64,
    pub(crate) height: i64,
    pub(crate) rotation: i64,
    pub(crate) rotation_velocity: i64,
    pub(crate) velocity_x: i64,
    pub(crate) velocity_y: i64,
    pub(crate) friction: i64,
    pub(crate) acceleration: i64,
    pub(crate) next_stop: i64,
    pub(crate) rotating: RotatingM,
}

impl View for Paddle {
    type V = PaddleModel;

    open(crate) spec fn view(&self) -> PaddleModel {
        PaddleModel {
            id: self.id as int,
            remote: self.remote,
            x: self.x as int,
            y: self.y as int,
            width: self.width as int,
            height: self.height as int,
            rotation: self.rotation as int,
            rotation_velocity: self.rotation_velocity as int,
            velocity_x: self.velocity_x as int,
            velocity_y: self.velocity_y as int,
            friction: self.friction as int,
            acceleration: self.acceleration as int,
            next_stop: self.next_stop as int,
            rotating: self.rotating,
        }
    }
}

impl Paddle {
    /// What every paddle of a running match satisfies.
    pub open spec fn wf(&self) -> bool {
        self@.wf()
    }

    /// A paddle at rest at height mid-table, facing its first stop. `remote`
    /// tells whether a peer's input stream drives it.
    pub fn new(id: u8, x: i64, remote: bool) -> (paddle: Paddle)
        ensures
            paddle@ == new_paddle(id as int, x as int, remote),
            paddle.wf(),
    {
        Paddle {
            id,
            remote,
            x,
            y: TABLE_HEIGHT / 2,
            width: DEFAULT_WIDTH,
            height: DEFAULT_HEIGHT,
            rotation: 0,
            rotation_velocity: 0,
            velocity_x: 0,
            velocity_y: 0,
            friction: DEFAULT_FRICTION,
            acceleration: DEFAULT_ACCELERATION,
            next_stop: 0,
            rotating: RotatingM::Neither,
        }
    }

    /// The stable small number that names the paddle and selects its input
    /// stream.
    pub fn id(&self) -> (id: u8)
        ensures
            id == self@.id,
    {
        self.id
    }

    /// Whether a peer's input stream drives the paddle.
    pub fn is_remote(&self) -> (remote: bool)
        ensures
            remote == self@.remote,
    {
        self.remote
    }

    /// Position along x.
    pub fn x(&self) -> (x: i64)
        ensures
            x == self@.x,
    {
        self.x
    }

    /// Position along y.
    pub fn y(&self) -> (y: i64)
        ensures
            y == self@.y,
    {
        self.y
    }

    /// Extent along x.
    pub fn width(&self) -> (width: i64)
        ensures
            width == self@.width,
    {
        self.width
    }

    /// Extent along y.
    pub fn height(&self) -> (height: i64)
        ensures
            height == self@.height,
    {
        self.height
    }

    /// Rotation, in thousandths of a degree.
    pub fn rotation(&self) -> (rotation: i64)
        ensures
            rotation == self@.rotation,
    {
        self.rotation
    }

    /// Signed rotation of the last tick.
    pub fn rotation_velocity(&self) -> (velocity: i64)
        ensures
            velocity == self@.rotation_velocity,
    {
        self.rotation_velocity
    }

    /// Speed along x.
    pub fn velocity_x(&self) -> (velocity: i64)
        ensures
            velocity == self@.velocity_x,
    {
        self.velocity_x
    }

    /// Speed along y.
    pub fn velocity_y(&self) -> (velocity: i64)
        ensures
            velocity == self@.velocity_y,
    {
        self.velocity_y
    }

    /// Share of its speed that the paddle loses per tick, in thousandths.
    pub fn friction(&self) -> (friction: i64)
        ensures
            friction == self@.friction,
    {
        self.friction
    }

    /// Speed that a held direction adds per tick.
    pub fn acceleration(&self) -> (acceleration: i64)
        ensures
            acceleration == self@.acceleration,
    {
        self.acceleration
    }

    /// The stop that the paddle turns toward.
    pub fn next_stop(&self) -> (stop: i64)
        ensures
            stop == self@.next_stop,
    {
        self.next_stop
    }

    /// The rotation intent.
    pub fn rotating(&self) -> (rotating: RotatingM)
        ensures
            rotating == self@.rotating,
    {
        self.rotating
    }

    /// Puts the paddle at `(x, y)`.
    pub fn set_position(&mut self, x: i64, y: i64)
        ensures
            final(self)@ == (PaddleModel { x: x as int, y: y as int, ..old(self)@ }),
    {
        self.x = x;
        self.y = y;
    }

    /// Turns the paddle to the angle that `rotation` denotes.
    pub fn set_rotation(&mut self, rotation: i64)
        ensures
            final(self)@ == (PaddleModel {
                rotation: crate::angle::normalize(rotation as int),
                ..old(self)@
            }),
    {
        self.rotation = normalize_angle(rotation);
    }

    /// Sets the rotation intent.
    pub fn set_rotating(&mut self, rotating: RotatingM)
        ensures
            final(self)@ == (PaddleModel { rotating, ..old(self)@ }),
    {
        self.rotating = rotating;
    }

    /// Makes `stop` the target, if it is one of the four stops. Says whether
    /// it was; otherwise the paddle is unchanged.
    pub fn set_next_stop(&mut self, stop: i64) -> (accepted: bool)
        ensures
            accepted == is_stop(stop as int),
            accepted ==> final(self)@ == (PaddleModel { next_stop: stop as int, ..old(self)@ }),
            !accepted ==> final(self)@ == old(self)@,
    {
        if stop == 0 || stop == 90_000 || stop == 180_000 || stop == 270_000 {
            self.next_stop = stop;
            true
        } else {
            false
        }
    }

    /// Sets the speed, if neither component exceeds the speed limit. Says
    /// whether it did; otherwise the paddle is unchanged.
    pub fn set_velocity(&mut self, x: i64, y: i64) -> (accepted: bool)
        ensures
            accepted == (-MAX_SPEED <= x <= MAX_SPEED && -MAX_SPEED <= y <= MAX_SPEED),
            accepted ==> final(self)@ == (PaddleModel {
                velocity_x: x as int,
                velocity_y: y as int,
                ..old(self)@
            }),
            !accepted ==> final(self)@ == old(self)@,
    {
        if -MAX_SPEED <= x && x <= MAX_SPEED && -MAX_SPEED <= y && y <= MAX_SPEED {
            self.velocity_x = x;
            self.velocity_y = y;
            true
        } else {
            false
        }
    }

    /// Sets the extent, if the paddle then still fits across the table. Says
    /// whether it did; otherwise the paddle is unchanged.
    pub fn set_size(&mut self, width: i64, height: i64) -> (accepted: bool)
        ensures
            accepted == (0 <= width <= TABLE_WIDTH && 0 <= height),
            accepted ==> final(self)@ == (PaddleModel {
                width: width as int,
                height: height as int,
                ..old(self)@
            }),
            !accepted ==> final(self)@ == old(self)@,
    {
        if 0 <= width && width <= TABLE_WIDTH && 0 <= height {
            self.width = width;
            self.height = height;
            true
        } else {
            false
        }
    }

    /// Sets the friction, if it is a share between nothing and all. Says
    /// whether it was; otherwise the paddle is unchanged.
    pub fn set_friction(&mut self, friction: i64) -> (accepted: bool)
        ensures
            accepted == (0 <= friction <= SCALE),
            accepted ==> final(self)@ == (PaddleModel { friction: friction as int, ..old(self)@ }),
            !accepted ==> final(self)@ == old(self)@,
    {
        if 0 <= friction && friction <= SCALE {
            self.friction = friction;
            true
        } else {
            false
        }
    }

    /// Sets the acceleration, if it is not negative and no more than the
    /// speed limit. Says whether it was; otherwise the paddle is unchanged.
    pub fn set_acceleration(&mut self, acceleration: i64) -> (accepted: bool)
        ensures
            accepted == (0 <= acceleration <= MAX_SPEED),
            accepted ==> final(self)@ == (PaddleModel {
                acceleration: acceleration as int,
                ..old(self)@
            }),
            !accepted ==> final(self)@ == old(self)@,
    {
        if 0 <= acceleration && acceleration <= MAX_SPEED {
            self.acceleration = acceleration;
            true
        } else {
            false
        }
    }
}

} // verus!
