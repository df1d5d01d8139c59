//! Pure projections of the 16-bit opcode into its sub-fields: the 12-bit
//! address, the 8-bit immediate, the 4-bit height and the two register
//! selectors. Decoding is side-effect free; dispatch happens in `step`.

use vstd::prelude::*;

verus! {

/// The 12-bit address field of an opcode.
pub open spec fn nnn_of(op: u16) -> u16 {
    op & 0x0FFF
}

/// The low-byte immediate field of an opcode.
pub open spec fn nn_of(op: u16) -> u8 {
    (op & 0x00FF) as u8
}

/// The low-nibble field of an opcode (the sprite height).
pub open spec fn n_of(op: u16) -> u16 {
    op & 0x000F
}

/// The first register selector (bits 8..12) of an opcode.
pub open spec fn x_of(op: u16) -> u16 {
    (op & 0x0F00) >> 8
}

/// The second register selector (bits 4..8) of an opcode.
pub open spec fn y_of(op: u16) -> u16 {
    (op & 0x00F0) >> 4
}

/// The natural ranges of the decoded fields: the address field stays inside
/// the 12-bit memory space and both register selectors address the 16-slot
/// register file.
pub proof fn lemma_decode_bounds(op: u16)
    by (bit_vector)
    ensures
        nnn_of(op) < 0x1000,
        n_of(op) < 16,
        x_of(op) < 16,
        y_of(op) < 16,
{
}

/// The big-endian opcode composed of the two bytes at `pc`.
pub open spec fn opcode_at(mem: Seq<u8>, pc: int) -> u16 {
    ((mem[pc] as u16) << 8) | (mem[pc + 1] as u16)
}

pub fn get_nnn(op: u16) -> (r: u16)
    ensures
        r == nnn_of(op),
        r < 0x1000,
{
    proof {
        lemma_decode_bounds(op);
    }
    op & 0x0FFF
}

pub fn get_nn(op: u16) -> (r: u8)
    ensures
        r == nn_of(op),
{
    (op & 0x00FF) as u8
}

pub fn get_n(op: u16) -> (r: u16)
    ensures
        r == n_of(op),
        r < 16,
{
    proof {
        lemma_decode_bounds(op);
    }
    op & 0x000F
}

pub fn get_vx(op: u16) -> (r: u16)
    ensures
        r == x_of(op),
        r < 16,
{
    proof {
        lemma_decode_bounds(op);
    }
    (op & 0x0F00) >> 8
}

pub fn get_vy(op: u16) -> (r: u16)
    ensures
        r == y_of(op),
        r < 16,
{
    proof {
        lemma_decode_bounds(op);
    }
    (op & 0x00F0) >> 4
}

} // verus!
