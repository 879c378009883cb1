//! The control state of one player and its one-byte wire form.
//!
//! Bit `i` of the byte carries flag `i`, in the order up, down, left, right,
//! rotate clockwise, rotate anticlockwise. The two high bits carry nothing.

use vstd::prelude::*;

verus! {

/// What one player holds down during one frame.
#[derive(Clone, Copy, PartialEq, Eq, Debug, Structural)]
pub struct PlayerInputState {
    pub up: bool,
    pub down: bool,
    pub left: bool,
    pub right: bool,
    pub rotate_cw: bool,
    pub rotate_acw: bool,
}

/// The value that a set flag contributes at bit `i`.
pub open spec fn bit_value(flag: bool, i: nat) -> int {
    if flag {
        vstd::arithmetic::power2::pow2(i) as int
    } else {
        0
    }
}

/// Whether bit `i` of `byte` is set.
pub open spec fn bit_is_set(byte: u8, i: nat) -> bool {
    (byte as int / vstd::arithmetic::power2::pow2(i) as int) % 2 == 1
}

/// The wire byte of a control state.
pub open spec fn encode_spec(s: PlayerInputState) -> int {
    bit_value(s.up, 0) + bit_value(s.down, 1) + bit_value(s.left, 2) + bit_value(s.right, 3)
        + bit_value(s.rotate_cw, 4) + bit_value(s.rotate_acw, 5)
}

/// The control state that a wire byte carries.
pub open spec fn decode_spec(byte: u8) -> PlayerInputState {
    PlayerInputState {
        up: bit_is_set(byte, 0),
        down: bit_is_set(byte, 1),
        left: bit_is_set(byte, 2),
        right: bit_is_set(byte, 3),
        rotate_cw: bit_is_set(byte, 4),
        rotate_acw: bit_is_set(byte, 5),
    }
}

/// The state in which nothing is held down.
pub open spec fn idle_spec() -> PlayerInputState {
    PlayerInputState {
        up: false,
        down: false,
        left: false,
        right: false,
        rotate_cw: false,
        rotate_acw: false,
    }
}

/// The first six powers of two.
pub proof fn lemma_bit_weights()
    ensures
        vstd::arithmetic::power2::pow2(0) == 1,
        vstd::arithmetic::power2::pow2(1) == 2,
        vstd::arithmetic::power2::pow2(2) == 4,
        vstd::arithmetic::power2::pow2(3) == 8,
        vstd::arithmetic::power2::pow2(4) == 16,
        vstd::arithmetic::power2::pow2(5) == 32,
{
    vstd::arithmetic::power2::lemma2_to64();
}

/// Decoding the wire byte of a state gives the state back.
pub proof fn lemma_decode_encode(s: PlayerInputState)
    ensures
        0 <= encode_spec(s) < 64,
        decode_spec(encode_spec(s) as u8) == s,
{
    lemma_bit_weights();
}

/// Encoding what a byte carries gives its six low bits back: the two high
/// bits are ignored.
pub proof fn lemma_encode_decode(byte: u8)
    ensures
        encode_spec(decode_spec(byte)) == byte % 64,
{
    lemma_bit_weights();
    let b0: u8 = if byte % 2 == 1 { 1 } else { 0 };
    let b1: u8 = if byte / 2 % 2 == 1 { 2 } else { 0 };
    let b2: u8 = if byte / 4 % 2 == 1 { 4 } else { 0 };
    let b3: u8 = if byte / 8 % 2 == 1 { 8 } else { 0 };
    let b4: u8 = if byte / 16 % 2 == 1 { 16 } else { 0 };
    let b5: u8 = if byte / 32 % 2 == 1 { 32 } else { 0 };
    assert(b0 + b1 + b2 + b3 + b4 + b5 == byte % 64) by (bit_vector)
        requires
            b0 == (if byte % 2 == 1 { 1u8 } else { 0u8 }),
            b1 == (if byte / 2 % 2 == 1 { 2u8 } else { 0u8 }),
            b2 == (if byte / 4 % 2 == 1 { 4u8 } else { 0u8 }),
            b3 == (if byte / 8 % 2 == 1 { 8u8 } else { 0u8 }),
            b4 == (if byte / 16 % 2 == 1 { 16u8 } else { 0u8 }),
            b5 == (if byte / 32 % 2 == 1 { 32u8 } else { 0u8 }),
    ;
    assert(byte as int / 1 == byte);
}

impl PlayerInputState {
    /// The state in which nothing is held down.
    pub fn idle() -> (s: PlayerInputState)
        ensures
            s == idle_spec(),
    {
        PlayerInputState {
            up: false,
            down: false,
            left: false,
            right: false,
            rotate_cw: false,
            rotate_acw: false,
        }
    }

    /// Packs the six flags into one byte.
    pub fn encode(&self) -> (byte: u8)
        ensures
            byte == encode_spec(*self),
            decode_spec(byte) == *self,
    {
        proof {
            lemma_bit_weights();
            lemma_decode_encode(*self);
        }
        let mut byte: u8 = 0;
        if self.up {
            byte = byte + 1;
        }
        if self.down {
            byte = byte + 2;
        }
        if self.left {
            byte = byte + 4;
        }
        if self.right {
            byte = byte + 8;
        }
        if self.rotate_cw {
            byte = byte + 16;
        }
        if self.rotate_acw {
            byte = byte + 32;
        }
        byte
    }

    /// Unpacks a byte. Any byte is accepted.
    pub fn decode(byte: u8) -> (s: PlayerInputState)
        ensures
            s == decode_spec(byte),
    {
        proof {
            lemma_bit_weights();
            assert(byte as int / 1 == byte);
            assert(byte % 4 / 2 == byte / 2 % 2) by (bit_vector);
            assert(byte % 8 / 4 == byte / 4 % 2) by (bit_vector);
            assert(byte % 16 / 8 == byte / 8 % 2) by (bit_vector);
            assert(byte % 32 / 16 == byte / 16 % 2) by (bit_vector);
            assert(byte % 64 / 32 == byte / 32 % 2) by (bit_vector);
        }
        PlayerInputState {
            up: byte % 2 == 1,
            down: byte % 4 / 2 == 1,
            left: byte % 8 / 4 == 1,
            right: byte % 16 / 8 == 1,
            rotate_cw: byte % 32 / 16 == 1,
            rotate_acw: byte % 64 / 32 == 1,
        }
    }
}

} // verus!
