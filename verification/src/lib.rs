//! Deterministic core of a two-player paddle game that is played over a
//! rollback session.
//!
//! Every quantity is an integer count of thousandths (of a degree, of a
//! length unit, of a second), so that two peers that run the same inputs
//! reach the same match bit for bit.
//!
//! From the leaves to the root:
//! - [`input`] packs what a player holds down into one byte, and
//!   [`input_handlers`] are the sources of such inputs;
//! - [`rotation`] is the law by which a paddle turns, and [`settling`] what
//!   is proved of it;
//! - [`compute`] is one tick of a paddle that moves by itself, [`calc`] one
//!   tick of a paddle that a physics engine moves, and [`game`] the systems
//!   of a running match;
//! - [`state`] is the match, [`snapshot`] its history, [`timeline`] the
//!   match in time;
//! - [`session`] decides tick by tick whether the match waits, skips, runs
//!   or rewinds, and [`catching_up`] proves that it always ends up where the
//!   inputs lead;
//! - [`pacing`] turns wall-clock time into ticks.

pub mod angle;
pub mod calc;
pub mod catching_up;
pub mod compute;
pub mod error;
pub mod game;
pub mod input;
pub mod input_handlers;
pub mod isqrt;
pub mod pacing;
pub mod paddle;
pub mod rotation;
pub mod session;
pub mod settling;
pub mod snapshot;
pub mod state;
pub mod timeline;
pub mod units;
