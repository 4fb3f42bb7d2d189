//! The state of a bit-packed controller-input emulator: twelve button bits
//! (1 = released, 0 = pressed) and a 4-bit clock cycle in the top bits.
//!
//! ```text
//! bit   0  1  2      3     4  5    6    7     8  9  10 11 12..15
//!       B  Y  Select Start Up Down Left Right A  X  L  R  cycle
//! ```
use vstd::prelude::*;

verus! {

/// Bit of the B button.
pub const B_OFFSET: u16 = 0;

/// Bit of the Y button.
pub const Y_OFFSET: u16 = 1;

/// Bit of the Select button.
pub const SELECT_OFFSET: u16 = 2;

/// Bit of the Start button.
pub const START_OFFSET: u16 = 3;

/// Bit of the Up button.
pub const UP_OFFSET: u16 = 4;

/// Bit of the Down button.
pub const DOWN_OFFSET: u16 = 5;

/// Bit of the Left button.
pub const LEFT_OFFSET: u16 = 6;

/// Bit of the Right button.
pub const RIGHT_OFFSET: u16 = 7;

/// Bit of the A button.
pub const A_OFFSET: u16 = 8;

/// Bit of the X button.
pub const X_OFFSET: u16 = 9;

/// Bit of the L button.
pub const L_OFFSET: u16 = 10;

/// Bit of the R button.
pub const R_OFFSET: u16 = 11;

/// First bit of the clock cycle.
pub const CYCLE_OFFSET: u16 = 12;

/// Width of the clock cycle in bits.
pub const CYCLE_LEN: u16 = 4;

/// The low `len` bits set.
pub open spec fn field_mask(len: u16) -> u16 {
    0xFFFFu16 >> ((16 - len) as u16)
}

/// The `len`-bit field of `v` that starts at bit `offset`.
pub open spec fn get_field(v: u16, len: u16, offset: u16) -> u16 {
    (v >> offset) & field_mask(len)
}

/// `v` with its `len`-bit field at `offset` replaced by the low bits of `x`.
pub open spec fn set_field(v: u16, x: u16, len: u16, offset: u16) -> u16 {
    (v & !(field_mask(len) << offset)) | ((x & field_mask(len)) << offset)
}

/// Whether the button at bit `i` reads 1 (released).
pub open spec fn button(v: u16, i: u16) -> bool {
    get_field(v, 1, i) == 1
}

/// The clock cycle held in the top four bits.
pub open spec fn cycle_of(v: u16) -> u16 {
    get_field(v, CYCLE_LEN, CYCLE_OFFSET)
}

/// Setting one button bit below the cycle sets that bit, keeps every other
/// button and keeps the cycle.
pub proof fn lemma_set_button(v: u16, x: u16, i: u16)
    requires
        i < 12,
        x < 2,
    ensures
        button(set_field(v, x, 1, i), i) == (x == 1),
        forall|j: u16| j < 12 && j != i ==> button(set_field(v, x, 1, i), j) == button(v, j),
        cycle_of(set_field(v, x, 1, i)) == cycle_of(v),
{
    assert(((((v & !((0xFFFFu16 >> 15u16) << i)) | ((x & (0xFFFFu16 >> 15u16)) << i)) >> i) & (
    0xFFFFu16 >> 15u16) == 1) == (x == 1)) by (bit_vector)
        requires
            i < 12,
            x < 2,
    ;
    assert forall|j: u16| j < 12 && j != i implies button(set_field(v, x, 1, i), j) == button(
        v,
        j,
    ) by {
        assert(((((v & !((0xFFFFu16 >> 15u16) << i)) | ((x & (0xFFFFu16 >> 15u16)) << i)) >> j)
            & (0xFFFFu16 >> 15u16)) == ((v >> j) & (0xFFFFu16 >> 15u16))) by (bit_vector)
            requires
                i < 12,
                j < 12,
                j != i,
        ;
    }
    assert(((((v & !((0xFFFFu16 >> 15u16) << i)) | ((x & (0xFFFFu16 >> 15u16)) << i)) >> 12u16)
        & (0xFFFFu16 >> 12u16)) == ((v >> 12u16) & (0xFFFFu16 >> 12u16))) by (bit_vector)
        requires
            i < 12,
    ;
}

/// Setting the cycle keeps every button and holds the low four bits of `x`.
pub proof fn lemma_set_cycle(v: u16, x: u16)
    ensures
        cycle_of(v) < 16,
        cycle_of(set_field(v, x, CYCLE_LEN, CYCLE_OFFSET)) == x % 16,
        forall|j: u16| j < 12 ==> button(set_field(v, x, CYCLE_LEN, CYCLE_OFFSET), j) == button(v, j),
{
    assert(((v >> 12u16) & (0xFFFFu16 >> 12u16)) < 16) by (bit_vector);
    assert(((((v & !((0xFFFFu16 >> 12u16) << 12u16)) | ((x & (0xFFFFu16 >> 12u16)) << 12u16))
        >> 12u16) & (0xFFFFu16 >> 12u16)) == x % 16) by (bit_vector);
    assert forall|j: u16| j < 12 implies button(set_field(v, x, CYCLE_LEN, CYCLE_OFFSET), j)
        == button(v, j) by {
        assert(((((v & !((0xFFFFu16 >> 12u16) << 12u16)) | ((x & (0xFFFFu16 >> 12u16))
            << 12u16)) >> j) & (0xFFFFu16 >> 15u16)) == ((v >> j) & (0xFFFFu16 >> 15u16)))
            by (bit_vector)
            requires
                j < 12,
        ;
    }
}

/// The controller-input state: buttons and clock cycle packed in 16 bits.
pub struct State {
    value: u16,
}

impl View for State {
    type V = u16;

    closed spec fn view(&self) -> u16 {
        self.value
    }
}

impl Default for State {
    /// Every button released, cycle 0.
    fn default() -> (r: State)
        ensures
            r@ == 0x0FFF,
    {
        State { value: 0x0FFF }
    }
}

impl State {
    /// Reads the current bit of the cycle and advances the cycle, wrapping after
    /// 15. Cycles 0 to 11 read the button of that number; later cycles read 1.
    pub fn next(&mut self) -> (r: bool)
        ensures
            final(self)@ == set_field(old(self)@, (cycle_of(old(self)@) + 1) as u16, CYCLE_LEN, CYCLE_OFFSET),
            cycle_of(final(self)@) == (cycle_of(old(self)@) + 1) % 16,
            r == if cycle_of(old(self)@) < 12 {
                button(old(self)@, cycle_of(old(self)@))
            } else {
                true
            },
    {
        let cycle = self.cycle();
        proof {
            lemma_set_cycle(self@, (cycle + 1) as u16);
        }
        self.set_cycle(cycle + 1);
        if cycle < 12 {
            self.read_bit(cycle)
        } else {
            true
        }
    }

    /// The clock cycle.
    pub fn cycle(&self) -> (r: u16)
        ensures
            r == cycle_of(self@),
    {
        self.read(CYCLE_LEN, CYCLE_OFFSET)
    }

    fn read_bit(&self, offset: u16) -> (r: bool)
        requires
            offset < 16,
        ensures
            r == button(self@, offset),
    {
        self.read(1, offset) == 1
    }

    fn read(&self, len: u16, offset: u16) -> (r: u16)
        requires
            1 <= len <= 16,
            offset < 16,
        ensures
            r == get_field(self@, len, offset),
    {
        let n: u16 = 16;
        let v = self.value;
        proof {
            assert(((v >> offset) << ((16 - len) as u16)) >> ((16 - len) as u16) == (v >> offset)
                & (0xFFFFu16 >> ((16 - len) as u16))) by (bit_vector)
                requires
                    1 <= len <= 16,
                    offset < 16,
            ;
        }
        v >> offset << (n - len) >> (n - len)
    }

    /// Sets the B button: `true` released, `false` pressed.
    pub fn set_b(&mut self, value: bool)
        ensures
            final(self)@ == set_field(old(self)@, if value { 1 } else { 0 }, 1, B_OFFSET),
            button(final(self)@, B_OFFSET) == value,
            cycle_of(final(self)@) == cycle_of(old(self)@),
    {
        self.write_bit(value, B_OFFSET);
    }

    /// Sets the Y button: `true` released, `false` pressed.
    pub fn set_y(&mut self, value: bool)
        ensures
            final(self)@ == set_field(old(self)@, if value { 1 } else { 0 }, 1, Y_OFFSET),
            button(final(self)@, Y_OFFSET) == value,
            cycle_of(final(self)@) == cycle_of(old(self)@),
    {
        self.write_bit(value, Y_OFFSET);
    }

    /// Sets the Select button: `true` released, `false` pressed.
    pub fn set_select(&mut self, value: bool)
        ensures
            final(self)@ == set_field(old(self)@, if value { 1 } else { 0 }, 1, SELECT_OFFSET),
            button(final(self)@, SELECT_OFFSET) == value,
            cycle_of(final(self)@) == cycle_of(old(self)@),
    {
        self.write_bit(value, SELECT_OFFSET);
    }

    /// Sets the Start button: `true` released, `false` pressed.
    pub fn set_start(&mut self, value: bool)
        ensures
            final(self)@ == set_field(old(self)@, if value { 1 } else { 0 }, 1, START_OFFSET),
            button(final(self)@, START_OFFSET) == value,
            cycle_of(final(self)@) == cycle_of(old(self)@),
    {
        self.write_bit(value, START_OFFSET);
    }

    /// Sets the Up button: `true` released, `false` pressed.
    pub fn set_up(&mut self, value: bool)
        ensures
            final(self)@ == set_field(old(self)@, if value { 1 } else { 0 }, 1, UP_OFFSET),
            button(final(self)@, UP_OFFSET) == value,
            cycle_of(final(self)@) == cycle_of(old(self)@),
    {
        self.write_bit(value, UP_OFFSET);
    }

    /// Sets the Down button: `true` released, `false` pressed.
    pub fn set_down(&mut self, value: bool)
        ensures
            final(self)@ == set_field(old(self)@, if value { 1 } else { 0 }, 1, DOWN_OFFSET),
            button(final(self)@, DOWN_OFFSET) == value,
            cycle_of(final(self)@) == cycle_of(old(self)@),
    {
        self.write_bit(value, DOWN_OFFSET);
    }

    /// Sets the Left button: `true` released, `false` pressed.
    pub fn set_left(&mut self, value: bool)
        ensures
            final(self)@ == set_field(old(self)@, if value { 1 } else { 0 }, 1, LEFT_OFFSET),
            button(final(self)@, LEFT_OFFSET) == value,
            cycle_of(final(self)@) == cycle_of(old(self)@),
    {
        self.write_bit(value, LEFT_OFFSET);
    }

    /// Sets the Right button: `true` released, `false` pressed.
    pub fn set_right(&mut self, value: bool)
        ensures
            final(self)@ == set_field(old(self)@, if value { 1 } else { 0 }, 1, RIGHT_OFFSET),
            button(final(self)@, RIGHT_OFFSET) == value,
            cycle_of(final(self)@) == cycle_of(old(self)@),
    {
        self.write_bit(value, RIGHT_OFFSET);
    }

    /// Sets the A button: `true` released, `false` pressed.
    pub fn set_a(&mut self, value: bool)
        ensures
            final(self)@ == set_field(old(self)@, if value { 1 } else { 0 }, 1, A_OFFSET),
            button(final(self)@, A_OFFSET) == value,
            cycle_of(final(self)@) == cycle_of(old(self)@),
    {
        self.write_bit(value, A_OFFSET);
    }

    /// Sets the X button: `true` released, `false` pressed.
    pub fn set_x(&mut self, value: bool)
        ensures
            final(self)@ == set_field(old(self)@, if value { 1 } else { 0 }, 1, X_OFFSET),
            button(final(self)@, X_OFFSET) == value,
            cycle_of(final(self)@) == cycle_of(old(self)@),
    {
        self.write_bit(value, X_OFFSET);
    }

    /// Sets the L button: `true` released, `false` pressed.
    pub fn set_l(&mut self, value: bool)
        ensures
            final(self)@ == set_field(old(self)@, if value { 1 } else { 0 }, 1, L_OFFSET),
            button(final(self)@, L_OFFSET) == value,
            cycle_of(final(self)@) == cycle_of(old(self)@),
    {
        self.write_bit(value, L_OFFSET);
    }

    /// Sets the R button: `true` released, `false` pressed.
    pub fn set_r(&mut self, value: bool)
        ensures
            final(self)@ == set_field(old(self)@, if value { 1 } else { 0 }, 1, R_OFFSET),
            button(final(self)@, R_OFFSET) == value,
            cycle_of(final(self)@) == cycle_of(old(self)@),
    {
        self.write_bit(value, R_OFFSET);
    }

    /// Sets the cycle back to 0, keeping the buttons.
    pub fn reset_cycle(&mut self)
        ensures
            final(self)@ == set_field(old(self)@, 0, CYCLE_LEN, CYCLE_OFFSET),
            cycle_of(final(self)@) == 0,
    {
        proof {
            lemma_set_cycle(self@, 0);
        }
        self.set_cycle(0);
    }

    /// Sets the cycle to the low four bits of `value`.
    fn set_cycle(&mut self, value: u16)
        ensures
            final(self)@ == set_field(old(self)@, value, CYCLE_LEN, CYCLE_OFFSET),
    {
        self.write(value, CYCLE_LEN, CYCLE_OFFSET);
    }

    fn write_bit(&mut self, value: bool, offset: u16)
        requires
            offset < 12,
        ensures
            final(self)@ == set_field(old(self)@, if value { 1 } else { 0 }, 1, offset),
            button(final(self)@, offset) == value,
            cycle_of(final(self)@) == cycle_of(old(self)@),
    {
        proof {
            lemma_set_button(self@, if value { 1 } else { 0 }, offset);
        }
        self.write(if value { 1 } else { 0 }, 1, offset);
    }

    fn write(&mut self, value: u16, len: u16, offset: u16)
        requires
            1 <= len <= 16,
            offset < 16,
        ensures
            final(self)@ == set_field(old(self)@, value, len, offset),
    {
        let mask = u16::MAX >> (16 - len);
        let value = value & mask;
        self.value = self.value & !(mask << offset);
        self.value = self.value | (value << offset);
    }
}

} // verus!
