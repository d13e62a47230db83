//! One player's control signal for one tick, packed into a byte.

use vstd::prelude::*;

verus! {

/// Bit set while the player holds "left".
pub const LEFT: u8 = 0b0001;

/// Bit set while the player holds "right".
pub const RIGHT: u8 = 0b0010;

/// Bit set while the player holds "attack".
pub const ATTACK: u8 = 0b0100;

/// Bit set while the player holds "jump".
pub const JUMP: u8 = 0b1000;

/// Four independent flags in the low bits of a byte. The byte is the wire
/// form: it travels unchanged, and the higher bits are not interpreted.
#[derive(Clone, Copy, PartialEq, Eq, Debug, Structural)]
pub struct Input {
    pub input_bits: u8,
}

impl Input {
    pub open spec fn spec_left(self) -> bool {
        self.input_bits & LEFT != 0
    }

    pub open spec fn spec_right(self) -> bool {
        self.input_bits & RIGHT != 0
    }

    pub open spec fn spec_attack(self) -> bool {
        self.input_bits & ATTACK != 0
    }

    pub open spec fn spec_jump(self) -> bool {
        self.input_bits & JUMP != 0
    }

    /// The input that holds exactly the given flags.
    pub open spec fn spec_from_flags(left: bool, right: bool, attack: bool, jump: bool) -> Input {
        Input {
            input_bits: ((if left {
                LEFT
            } else {
                0u8
            }) | (if right {
                RIGHT
            } else {
                0u8
            }) | (if attack {
                ATTACK
            } else {
                0u8
            }) | (if jump {
                JUMP
            } else {
                0u8
            })),
        }
    }

    /// Packs the four flags.
    pub fn from_flags(left: bool, right: bool, attack: bool, jump: bool) -> (input: Input)
        ensures
            input == Self::spec_from_flags(left, right, attack, jump),
            input.spec_left() == left,
            input.spec_right() == right,
            input.spec_attack() == attack,
            input.spec_jump() == jump,
            input.input_bits < 16,
    {
        let l: u8 = if left {
            LEFT
        } else {
            0
        };
        let r: u8 = if right {
            RIGHT
        } else {
            0
        };
        let a: u8 = if attack {
            ATTACK
        } else {
            0
        };
        let j: u8 = if jump {
            JUMP
        } else {
            0
        };
        let bits: u8 = l | r | a | j;
        proof {
            lemma_flags_unpack(l, r, a, j);
        }
        Input { input_bits: bits }
    }

    /// The byte that stands for this input on the wire.
    pub open spec fn spec_to_byte(self) -> u8 {
        self.input_bits
    }

    /// The input that a byte from the wire stands for.
    pub open spec fn spec_from_byte(byte: u8) -> Input {
        Input { input_bits: byte }
    }

    /// The byte that stands for this input on the wire.
    pub fn to_byte(self) -> (byte: u8)
        ensures
            byte == self.spec_to_byte(),
    {
        self.input_bits
    }

    /// The input that a received byte stands for.
    pub fn from_byte(byte: u8) -> (input: Input)
        ensures
            input == Self::spec_from_byte(byte),
    {
        Input { input_bits: byte }
    }

    /// Whether "attack" is held.
    pub fn is_attack_pressed(self) -> (pressed: bool)
        ensures
            pressed == self.spec_attack(),
    {
        self.input_bits & ATTACK != 0
    }

    /// Whether "left" is held.
    pub fn is_left_pressed(self) -> (pressed: bool)
        ensures
            pressed == self.spec_left(),
    {
        self.input_bits & LEFT != 0
    }

    /// Whether "right" is held.
    pub fn is_right_pressed(self) -> (pressed: bool)
        ensures
            pressed == self.spec_right(),
    {
        self.input_bits & RIGHT != 0
    }

    /// Whether "jump" is held.
    pub fn is_jump_pressed(self) -> (pressed: bool)
        ensures
            pressed == self.spec_jump(),
    {
        self.input_bits & JUMP != 0
    }
}

/// Packs what the local player holds down: the four keys of that player's
/// key set, already read.
pub fn get_local_input(left: bool, right: bool, attack: bool, jump: bool) -> (input: Input)
    ensures
        input == Input::spec_from_flags(left, right, attack, jump),
        input.spec_left() == left,
        input.spec_right() == right,
        input.spec_attack() == attack,
        input.spec_jump() == jump,
{
    Input::from_flags(left, right, attack, jump)
}

proof fn lemma_flags_unpack(l: u8, r: u8, a: u8, j: u8)
    requires
        l == 0 || l == LEFT,
        r == 0 || r == RIGHT,
        a == 0 || a == ATTACK,
        j == 0 || j == JUMP,
    ensures
        ((l | r | a | j) & LEFT != 0) == (l == LEFT),
        ((l | r | a | j) & RIGHT != 0) == (r == RIGHT),
        ((l | r | a | j) & ATTACK != 0) == (a == ATTACK),
        ((l | r | a | j) & JUMP != 0) == (j == JUMP),
        (l | r | a | j) < 16,
{
    assert(((l | r | a | j) & 1u8 != 0) == (l == 1u8) && ((l | r | a | j) & 2u8 != 0) == (r == 2u8)
        && ((l | r | a | j) & 4u8 != 0) == (a == 4u8) && ((l | r | a | j) & 8u8 != 0) == (j == 8u8)
        && (l | r | a | j) < 16u8) by (bit_vector)
        requires
            l == 0u8 || l == 1u8,
            r == 0u8 || r == 2u8,
            a == 0u8 || a == 4u8,
            j == 0u8 || j == 8u8,
    ;
}

/// A packed input survives the trip over the wire unchanged, and so does
/// every byte that is read as an input and sent on.
pub proof fn lemma_byte_round_trip(input: Input, byte: u8)
    ensures
        Input::spec_from_byte(input.spec_to_byte()) == input,
        Input::spec_from_byte(byte).spec_to_byte() == byte,
{
}

} // verus!
