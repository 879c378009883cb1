//! Sources of player input.
//!
//! The simulation asks an [`InputHandler`] what its player holds down and
//! does not care where the answer comes from: a keyboard, a byte received
//! from a peer, or nobody at all.

use vstd::prelude::*;
use crate::input::{decode_spec, encode_spec, idle_spec, PlayerInputState};

verus! {

/// The code of one key, as the windowing layer numbers it.
#[derive(Clone, Copy, PartialEq, Eq, Debug, Structural)]
pub struct KeyCode {
    pub code: u32,
}

/// The keys that are down at the moment of a poll.
pub struct PressedKeys {
    keys: Vec<KeyCode>,
}

impl View for PressedKeys {
    type V = Set<KeyCode>;

    closed spec fn view(&self) -> Set<KeyCode> {
        self.keys@.to_set()
    }
}

impl PressedKeys {
    /// No key is down.
    pub fn new() -> (pressed: PressedKeys)
        ensures
            pressed@ == Set::<KeyCode>::empty(),
    {
        let pressed = PressedKeys { keys: Vec::new() };
        assert(pressed.keys@.to_set() =~= Set::<KeyCode>::empty());
        pressed
    }

    /// Records that `key` is down.
    pub fn press(&mut self, key: KeyCode)
        ensures
            final(self)@ == old(self)@.insert(key),
    {
        self.keys.push(key);
        assert(self.keys@ == old(self).keys@.push(key));
        assert(self.keys@.to_set() =~= old(self).keys@.to_set().insert(key)) by {
            let before = old(self).keys@;
            let after = self.keys@;
            assert forall|k: KeyCode| after.contains(k) <==> before.contains(k) || k == key by {
                if after.contains(k) {
                    let i = choose|i: int| 0 <= i < after.len() && after[i] == k;
                    if i < before.len() {
                        assert(before[i] == k);
                    }
                }
                if before.contains(k) {
                    let i = choose|i: int| 0 <= i < before.len() && before[i] == k;
                    assert(after[i] == k);
                }
                if k == key {
                    assert(after[before.len() as int] == k);
                }
            }
        }
    }

    /// Whether `key` is down.
    pub fn is_key_pressed(&self, key: KeyCode) -> (down: bool)
        ensures
            down == self@.contains(key),
    {
        let mut i: usize = 0;
        while i < self.keys.len()
            invariant
                i <= self.keys.len(),
                forall|j: int| 0 <= j < i ==> self.keys@[j] != key,
            decreases self.keys.len() - i,
        {
            if self.keys[i].code == key.code {
                assert(self.keys@[i as int] == key);
                assert(self.keys@.contains(key));
                return true;
            }
            i = i + 1;
        }
        assert(!self.keys@.contains(key));
        false
    }
}

/// The six keys that drive one paddle.
#[derive(Clone, Copy, PartialEq, Eq, Debug, Structural)]
pub struct KeyBindings {
    pub up: KeyCode,
    pub down: KeyCode,
    pub left: KeyCode,
    pub right: KeyCode,
    pub rotate_cw: KeyCode,
    pub rotate_acw: KeyCode,
}

/// The control state that `bindings` read off a set of pressed keys.
pub open spec fn polled(bindings: KeyBindings, pressed: Set<KeyCode>) -> PlayerInputState {
    PlayerInputState {
        up: pressed.contains(bindings.up),
        down: pressed.contains(bindings.down),
        left: pressed.contains(bindings.left),
        right: pressed.contains(bindings.right),
        rotate_cw: pressed.contains(bindings.rotate_cw),
        rotate_acw: pressed.contains(bindings.rotate_acw),
    }
}

/// Holds the current inputs of one player and brings them up to date.
///
/// The same simulation code then serves local players, remote players and
/// players that are not there.
pub trait InputHandler {
    /// The control state that the handler currently reports.
    spec fn state(&self) -> PlayerInputState;

    /// Whether the player holds "up".
    fn is_up(&self) -> (held: bool)
        ensures
            held == self.state().up,
    ;

    /// Whether the player holds "down".
    fn is_down(&self) -> (held: bool)
        ensures
            held == self.state().down,
    ;

    /// Whether the player holds "left".
    fn is_left(&self) -> (held: bool)
        ensures
            held == self.state().left,
    ;

    /// Whether the player holds "right".
    fn is_right(&self) -> (held: bool)
        ensures
            held == self.state().right,
    ;

    /// Whether the player holds "rotate clockwise".
    fn is_rotating_cw(&self) -> (held: bool)
        ensures
            held == self.state().rotate_cw,
    ;

    /// Whether the player holds "rotate anticlockwise".
    fn is_rotating_acw(&self) -> (held: bool)
        ensures
            held == self.state().rotate_acw,
    ;

    /// Brings the reported state up to date from the keys that are down.
    fn tick(&mut self, ctx: &PressedKeys) -> (outcome: Result<(), String>);

    /// The reported state as one wire byte, for replays and for the network.
    fn snapshot(&self) -> (byte: u8)
        ensures
            byte == encode_spec(self.state()),
            decode_spec(byte) == self.state(),
    ;
}

/// Input handler of a player who never presses anything.
#[derive(Clone, Copy)]
pub struct EmptyInputHandler {}

impl InputHandler for EmptyInputHandler {
    open spec fn state(&self) -> PlayerInputState {
        idle_spec()
    }

    fn is_up(&self) -> (held: bool) {
        false
    }

    fn is_down(&self) -> (held: bool) {
        false
    }

    fn is_left(&self) -> (held: bool) {
        false
    }

    fn is_right(&self) -> (held: bool) {
        false
    }

    fn is_rotating_cw(&self) -> (held: bool) {
        false
    }

    fn is_rotating_acw(&self) -> (held: bool) {
        false
    }

    fn tick(&mut self, ctx: &PressedKeys) -> (outcome: Result<(), String>)
        ensures
            outcome is Ok,
    {
        Ok(())
    }

    fn snapshot(&self) -> (byte: u8)
        ensures
            byte == 0,
    {
        proof {
            crate::input::lemma_decode_encode(idle_spec());
        }
        0
    }
}

/// Input handler that reads six keys of the keyboard.
#[derive(Clone, Copy)]
pub struct KeyboardInputHandler {
    bindings: KeyBindings,
    held: PlayerInputState,
}

impl KeyboardInputHandler {
    /// A handler bound to the six given keys, with nothing held yet.
    pub fn new(
        up_key: KeyCode,
        down_key: KeyCode,
        left_key: KeyCode,
        right_key: KeyCode,
        rotate_cw_key: KeyCode,
        rotate_acw_key: KeyCode,
    ) -> (handler: KeyboardInputHandler)
        ensures
            handler.state() == idle_spec(),
            handler.bindings() == (KeyBindings {
                up: up_key,
                down: down_key,
                left: left_key,
                right: right_key,
                rotate_cw: rotate_cw_key,
                rotate_acw: rotate_acw_key,
            }),
    {
        KeyboardInputHandler {
            bindings: KeyBindings {
                up: up_key,
                down: down_key,
                left: left_key,
                right: right_key,
                rotate_cw: rotate_cw_key,
                rotate_acw: rotate_acw_key,
            },
            held: PlayerInputState::idle(),
        }
    }

    /// The keys that the handler reads.
    pub closed spec fn bindings(&self) -> KeyBindings {
        self.bindings
    }
}

impl InputHandler for KeyboardInputHandler {
    closed spec fn state(&self) -> PlayerInputState {
        self.held
    }

    fn is_up(&self) -> (held: bool) {
        self.held.up
    }

    fn is_down(&self) -> (held: bool) {
        self.held.down
    }

    fn is_left(&self) -> (held: bool) {
        self.held.left
    }

    fn is_right(&self) -> (held: bool) {
        self.held.right
    }

    fn is_rotating_cw(&self) -> (held: bool) {
        self.held.rotate_cw
    }

    fn is_rotating_acw(&self) -> (held: bool) {
        self.held.rotate_acw
    }

    fn tick(&mut self, ctx: &PressedKeys) -> (outcome: Result<(), String>)
        ensures
            outcome is Ok,
            final(self).bindings() == old(self).bindings(),
            final(self).state() == polled(old(self).bindings(), ctx@),
    {
        self.held.up = ctx.is_key_pressed(self.bindings.up);
        self.held.down = ctx.is_key_pressed(self.bindings.down);
        self.held.left = ctx.is_key_pressed(self.bindings.left);
        self.held.right = ctx.is_key_pressed(self.bindings.right);
        self.held.rotate_cw = ctx.is_key_pressed(self.bindings.rotate_cw);
        self.held.rotate_acw = ctx.is_key_pressed(self.bindings.rotate_acw);
        Ok(())
    }

    fn snapshot(&self) -> (byte: u8) {
        self.held.encode()
    }
}

/// Input handler that replays a wire byte, as received from a peer.
pub struct NetworkInputHandler {
    going_up: bool,
    going_down: bool,
    pub going_left: bool,
    pub going_right: bool,
    pub rotating_cw: bool,
    pub rotating_acw: bool,
}

impl NetworkInputHandler {
    /// A handler that reports what the wire byte `state` carries.
    pub fn new(state: u8) -> (handler: NetworkInputHandler)
        ensures
            handler.state() == decode_spec(state),
    {
        let s = PlayerInputState::decode(state);
        NetworkInputHandler {
            going_up: s.up,
            going_down: s.down,
            going_left: s.left,
            going_right: s.right,
            rotating_cw: s.rotate_cw,
            rotating_acw: s.rotate_acw,
        }
    }
}

impl InputHandler for NetworkInputHandler {
    closed spec fn state(&self) -> PlayerInputState {
        PlayerInputState {
            up: self.going_up,
            down: self.going_down,
            left: self.going_left,
            right: self.going_right,
            rotate_cw: self.rotating_cw,
            rotate_acw: self.rotating_acw,
        }
    }

    fn is_up(&self) -> (held: bool) {
        self.going_up
    }

    fn is_down(&self) -> (held: bool) {
        self.going_down
    }

    fn is_left(&self) -> (held: bool) {
        self.going_left
    }

    fn is_right(&self) -> (held: bool) {
        self.going_right
    }

    fn is_rotating_cw(&self) -> (held: bool) {
        self.rotating_cw
    }

    fn is_rotating_acw(&self) -> (held: bool) {
        self.rotating_acw
    }

    fn tick(&mut self, ctx: &PressedKeys) -> (outcome: Result<(), String>)
        ensures
            outcome is Ok,
            final(self).state() == old(self).state(),
    {
        Ok(())
    }

    fn snapshot(&self) -> (byte: u8) {
        let s = PlayerInputState {
            up: self.going_up,
            down: self.going_down,
            left: self.going_left,
            right: self.going_right,
            rotate_cw: self.rotating_cw,
            rotate_acw: self.rotating_acw,
        };
        s.encode()
    }
}

} // verus!
