//! The sprite-drawing algorithm: a sprite of up to 15 rows of 8 pixels is
//! XORed onto the 64*32 framebuffer, wrapping at both edges, and the flag
//! register reports whether any set sprite pixel landed on an already-set
//! screen pixel. The specification is pointwise: a pixel flips exactly when
//! some set sprite bit targets it, which rests on the fact that distinct
//! sprite positions target distinct pixels.

use vstd::arithmetic::div_mod::lemma_mod_bound;
use vstd::arithmetic::div_mod::lemma_mod_equivalence;
use vstd::arithmetic::div_mod::lemma_small_mod;
use vstd::prelude::*;

use crate::cpu::Cpu;
use crate::cpu::CpuView;
use crate::cpu::VideoMode;
use crate::Chip8Error;

verus! {

/// Whether bit `col` (counted from the most significant end) of a sprite
/// row byte is set.
pub open spec fn sprite_bit(b: u8, col: int) -> bool {
    b & (0x80u8 >> (col as u8)) != 0
}

/// The framebuffer index targeted by sprite position (`row`, `col`) for a
/// sprite drawn at origin (`px`, `py`): coordinates wrap modulo the screen
/// size, and the buffer is row-major.
pub open spec fn target_idx(px: u8, py: u8, row: int, col: int) -> int {
    (px + col) % 64 + ((py + row) % 32) * 64
}

/// Whether sprite position (`row`, `col`) is visited before position
/// (`r`, `c`) in the row-by-row, column-by-column drawing order.
pub open spec fn processed_before(row: int, col: int, r: int, c: int) -> bool {
    row < r || (row == r && col < c)
}

/// Whether some set sprite bit visited before position (`r`, `c`) targets
/// framebuffer index `p`. The sprite rows start at `index` in memory.
pub open spec fn hit_upto(
    mem: Seq<u8>,
    index: int,
    px: u8,
    py: u8,
    r: int,
    c: int,
    p: int,
) -> bool {
    exists|row: int, col: int|
        #![trigger sprite_bit(mem[index + row], col), target_idx(px, py, row, col)]
        0 <= row && 0 <= col < 8 && processed_before(row, col, r, c) && sprite_bit(
            mem[index + row],
            col,
        ) && target_idx(px, py, row, col) == p
}

/// Whether some set sprite bit visited before position (`r`, `c`) targets a
/// pixel that was already set in the framebuffer `d0` — the collision
/// condition accumulated by the draw loop.
pub open spec fn coll_upto(
    d0: Seq<u8>,
    mem: Seq<u8>,
    index: int,
    px: u8,
    py: u8,
    r: int,
    c: int,
) -> bool {
    exists|row: int, col: int|
        #![trigger sprite_bit(mem[index + row], col), target_idx(px, py, row, col)]
        0 <= row && 0 <= col < 8 && processed_before(row, col, r, c) && sprite_bit(
            mem[index + row],
            col,
        ) && d0[target_idx(px, py, row, col)] == 1
}

/// A one-bit pixel after an XOR with 1.
pub open spec fn flip(b: u8) -> u8 {
    if b == 1 {
        0u8
    } else {
        1u8
    }
}

/// The framebuffer after drawing `n` sprite rows read from `index` at
/// origin (`px`, `py`) onto `d0`: a pixel flips exactly when some set
/// sprite bit targets it.
pub open spec fn draw_display(
    d0: Seq<u8>,
    mem: Seq<u8>,
    index: int,
    px: u8,
    py: u8,
    n: int,
) -> Seq<u8> {
    Seq::new(
        2048,
        |p: int|
            if hit_upto(mem, index, px, py, n, 0, p) {
                flip(d0[p])
            } else {
                d0[p]
            },
    )
}

/// Whether drawing `n` sprite rows read from `index` at origin (`px`, `py`)
/// collides with a pixel already set in `d0`.
pub open spec fn draw_collision(
    d0: Seq<u8>,
    mem: Seq<u8>,
    index: int,
    px: u8,
    py: u8,
    n: int,
) -> bool {
    coll_upto(d0, mem, index, px, py, n, 0)
}

/// Two numbers less than one modulus apart with equal remainders are equal.
proof fn lemma_mod_eq_close(a: int, b: int, m: int)
    requires
        0 < m,
        a <= b < a + m,
        a % m == b % m,
    ensures
        a == b,
{
    lemma_mod_equivalence(b, a, m);
    lemma_small_mod((b - a) as nat, m as nat);
    assert((b - a) % m == b - a);
}

/// Every sprite position targets a framebuffer index inside the buffer.
pub proof fn lemma_target_bound(px: u8, py: u8, row: int, col: int)
    requires
        0 <= row,
        0 <= col,
    ensures
        0 <= target_idx(px, py, row, col) < 2048,
{
    lemma_mod_bound(px + col, 64);
    lemma_mod_bound(py + row, 32);
}

/// Distinct sprite positions (within 32 rows and 8 columns) target
/// distinct framebuffer indices: the column offsets stay within one
/// horizontal wrap and the row offsets within one vertical wrap.
pub proof fn lemma_target_injective(px: u8, py: u8, r1: int, c1: int, r2: int, c2: int)
    requires
        0 <= r1 < 32,
        0 <= c1 < 8,
        0 <= r2 < 32,
        0 <= c2 < 8,
        target_idx(px, py, r1, c1) == target_idx(px, py, r2, c2),
    ensures
        r1 == r2,
        c1 == c2,
{
    lemma_mod_bound(px + c1, 64);
    lemma_mod_bound(py + r1, 32);
    lemma_mod_bound(px + c2, 64);
    lemma_mod_bound(py + r2, 32);
    if c1 <= c2 {
        lemma_mod_eq_close(px + c1, px + c2, 64);
    } else {
        lemma_mod_eq_close(px + c2, px + c1, 64);
    }
    if r1 <= r2 {
        lemma_mod_eq_close(py + r1, py + r2, 32);
    } else {
        lemma_mod_eq_close(py + r2, py + r1, 32);
    }
}

/// The pixel targeted by position (`r`, `c`) has not been touched by any
/// earlier position: the drawing loop reads it in its original state.
pub proof fn lemma_target_fresh(mem: Seq<u8>, index: int, px: u8, py: u8, r: int, c: int)
    requires
        0 <= r < 32,
        0 <= c < 8,
    ensures
        !hit_upto(mem, index, px, py, r, c, target_idx(px, py, r, c)),
{
    let p0 = target_idx(px, py, r, c);
    if hit_upto(mem, index, px, py, r, c, p0) {
        let (row, col) = choose|row: int, col: int|
            0 <= row && 0 <= col < 8 && processed_before(row, col, r, c) && sprite_bit(
                mem[index + row],
                col,
            ) && target_idx(px, py, row, col) == p0;
        lemma_target_injective(px, py, row, col, r, c);
    }
}

/// Advancing the drawing order by one column adds exactly the pixel
/// targeted by position (`r`, `c`), when that sprite bit is set.
pub proof fn lemma_hit_step(mem: Seq<u8>, index: int, px: u8, py: u8, r: int, c: int, p: int)
    requires
        0 <= r,
        0 <= c < 8,
    ensures
        hit_upto(mem, index, px, py, r, c + 1, p) <==> (hit_upto(mem, index, px, py, r, c, p) || (
        sprite_bit(mem[index + r], c) && target_idx(px, py, r, c) == p)),
{
    if hit_upto(mem, index, px, py, r, c + 1, p) {
        let (row, col) = choose|row: int, col: int|
            0 <= row && 0 <= col < 8 && processed_before(row, col, r, c + 1) && sprite_bit(
                mem[index + row],
                col,
            ) && target_idx(px, py, row, col) == p;
        if processed_before(row, col, r, c) {
            assert(hit_upto(mem, index, px, py, r, c, p));
        } else {
            assert(row == r && col == c);
        }
    }
    if hit_upto(mem, index, px, py, r, c, p) {
        let (row, col) = choose|row: int, col: int|
            0 <= row && 0 <= col < 8 && processed_before(row, col, r, c) && sprite_bit(
                mem[index + row],
                col,
            ) && target_idx(px, py, row, col) == p;
        assert(processed_before(row, col, r, c + 1));
        assert(hit_upto(mem, index, px, py, r, c + 1, p));
    }
    if sprite_bit(mem[index + r], c) && target_idx(px, py, r, c) == p {
        assert(processed_before(r, c, r, c + 1));
        assert(hit_upto(mem, index, px, py, r, c + 1, p));
    }
}

/// The collision analogue of `lemma_hit_step`: one more column adds a
/// collision exactly when the new position's sprite bit is set and its
/// target pixel was set in `d0`.
pub proof fn lemma_coll_step(d0: Seq<u8>, mem: Seq<u8>, index: int, px: u8, py: u8, r: int, c: int)
    requires
        0 <= r,
        0 <= c < 8,
    ensures
        coll_upto(d0, mem, index, px, py, r, c + 1) <==> (coll_upto(d0, mem, index, px, py, r, c)
            || (sprite_bit(mem[index + r], c) && d0[target_idx(px, py, r, c)] == 1)),
{
    if coll_upto(d0, mem, index, px, py, r, c + 1) {
        let (row, col) = choose|row: int, col: int|
            0 <= row && 0 <= col < 8 && processed_before(row, col, r, c + 1) && sprite_bit(
                mem[index + row],
                col,
            ) && d0[target_idx(px, py, row, col)] == 1;
        if processed_before(row, col, r, c) {
            assert(coll_upto(d0, mem, index, px, py, r, c));
        } else {
            assert(row == r && col == c);
        }
    }
    if coll_upto(d0, mem, index, px, py, r, c) {
        let (row, col) = choose|row: int, col: int|
            0 <= row && 0 <= col < 8 && processed_before(row, col, r, c) && sprite_bit(
                mem[index + row],
                col,
            ) && d0[target_idx(px, py, row, col)] == 1;
        assert(processed_before(row, col, r, c + 1));
        assert(coll_upto(d0, mem, index, px, py, r, c + 1));
    }
    if sprite_bit(mem[index + r], c) && d0[target_idx(px, py, r, c)] == 1 {
        assert(processed_before(r, c, r, c + 1));
        assert(coll_upto(d0, mem, index, px, py, r, c + 1));
    }
}

/// Exhausting the eight columns of row `r` visits the same positions as
/// standing at the start of row `r + 1`.
pub proof fn lemma_hit_row(mem: Seq<u8>, index: int, px: u8, py: u8, r: int, p: int)
    requires
        0 <= r,
    ensures
        hit_upto(mem, index, px, py, r, 8, p) <==> hit_upto(mem, index, px, py, r + 1, 0, p),
{
    if hit_upto(mem, index, px, py, r, 8, p) {
        let (row, col) = choose|row: int, col: int|
            0 <= row && 0 <= col < 8 && processed_before(row, col, r, 8) && sprite_bit(
                mem[index + row],
                col,
            ) && target_idx(px, py, row, col) == p;
        assert(processed_before(row, col, r + 1, 0));
        assert(hit_upto(mem, index, px, py, r + 1, 0, p));
    }
    if hit_upto(mem, index, px, py, r + 1, 0, p) {
        let (row, col) = choose|row: int, col: int|
            0 <= row && 0 <= col < 8 && processed_before(row, col, r + 1, 0) && sprite_bit(
                mem[index + row],
                col,
            ) && target_idx(px, py, row, col) == p;
        assert(processed_before(row, col, r, 8));
        assert(hit_upto(mem, index, px, py, r, 8, p));
    }
}

impl Cpu {
    /// Draw sprite: `n` rows read from `index` are XORed onto the
    /// framebuffer at origin (`v[x] mod 64`, `v[y] mod 32`), wrapping at
    /// the screen edges; `v[0xF]` reports whether any set sprite pixel met
    /// an already-set screen pixel, and the framebuffer is marked dirty.
    /// In the extended mode the instruction is a stub that only advances
    /// the program counter. Sprite rows that would be read past the end of
    /// memory are an `OutOfBounds` failure that touches nothing.
    pub fn ins_D000(&mut self, x: u16, y: u16, n: u16) -> (r: Result<(), Chip8Error>)
        requires
            old(self)@.wf(),
            x < 16,
            y < 16,
            n < 16,
            old(self)@.pc < 4095,
        ensures
            final(self)@.wf(),
            old(self)@.vmode == VideoMode::Schip8 ==> r is Ok && final(self)@ == (CpuView {
                pc: (old(self)@.pc + 2) as u16,
                ..old(self)@
            }),
            old(self)@.vmode == VideoMode::Chip8 ==> {
                &&& (r is Ok <==> (n == 0 || old(self)@.index + n <= 4096))
                &&& (r is Ok ==> final(self)@ == (CpuView {
                    display: draw_display(
                        old(self)@.display,
                        old(self)@.mem,
                        old(self)@.index as int,
                        old(self)@.v[x as int],
                        old(self)@.v[y as int],
                        n as int,
                    ),
                    v: old(self)@.v.update(
                        15,
                        if draw_collision(
                            old(self)@.display,
                            old(self)@.mem,
                            old(self)@.index as int,
                            old(self)@.v[x as int],
                            old(self)@.v[y as int],
                            n as int,
                        ) {
                            1u8
                        } else {
                            0u8
                        },
                    ),
                    draw: true,
                    pc: (old(self)@.pc + 2) as u16,
                    ..old(self)@
                }))
                &&& (r is Err ==> final(self)@ == old(self)@ && r == Result::<(), Chip8Error>::Err(
                    Chip8Error::OutOfBounds,
                ))
            },
    {
        let px = self.v[x as usize];
        let py = self.v[y as usize];
        match self.vmode {
            VideoMode::Chip8 => {
                let n_us = n as usize;
                if n_us > 0 && self.index as usize + n_us > 4096 {
                    return Err(Chip8Error::OutOfBounds);
                }
                let ghost d0 = self@.display;
                let ghost mem0 = self@.mem;
                let ghost i0 = self@.index as int;
                self.v[15] = 0;
                let mut row: usize = 0;
                while row < n_us
                    invariant
                        old(self)@.wf(),
                        x < 16,
                        y < 16,
                        n < 16,
                        n_us == n,
                        px == old(self)@.v[x as int],
                        py == old(self)@.v[y as int],
                        d0 == old(self)@.display,
                        mem0 == old(self)@.mem,
                        i0 == old(self)@.index,
                        n_us > 0 ==> i0 + n_us <= 4096,
                        row <= n_us,
                        self@ == (CpuView { display: self@.display, v: self@.v, ..old(self)@ }),
                        self@.display.len() == 2048,
                        self@.v.len() == 16,
                        forall|p: int|
                            0 <= p < 2048 ==> self@.display[p] == (if hit_upto(
                                mem0,
                                i0,
                                px,
                                py,
                                row as int,
                                0,
                                p,
                            ) {
                                flip(d0[p])
                            } else {
                                d0[p]
                            }),
                        forall|p: int| 0 <= p < 2048 ==> self@.display[p] <= 1,
                        self@.v == old(self)@.v.update(
                            15,
                            if coll_upto(d0, mem0, i0, px, py, row as int, 0) {
                                1u8
                            } else {
                                0u8
                            },
                        ),
                    decreases n_us - row,
                {
                    let pixel = self.mem[self.index as usize + row];
                    let mut col: usize = 0;
                    while col < 8
                        invariant
                            old(self)@.wf(),
                            x < 16,
                            y < 16,
                            n < 16,
                            n_us == n,
                            px == old(self)@.v[x as int],
                            py == old(self)@.v[y as int],
                            d0 == old(self)@.display,
                            mem0 == old(self)@.mem,
                            i0 == old(self)@.index,
                            i0 + n_us <= 4096,
                            row < n_us,
                            col <= 8,
                            pixel == mem0[i0 + row],
                            self@ == (CpuView { display: self@.display, v: self@.v, ..old(self)@ }),
                            self@.display.len() == 2048,
                            self@.v.len() == 16,
                            forall|p: int|
                                0 <= p < 2048 ==> self@.display[p] == (if hit_upto(
                                    mem0,
                                    i0,
                                    px,
                                    py,
                                    row as int,
                                    col as int,
                                    p,
                                ) {
                                    flip(d0[p])
                                } else {
                                    d0[p]
                                }),
                            forall|p: int| 0 <= p < 2048 ==> self@.display[p] <= 1,
                            self@.v == old(self)@.v.update(
                                15,
                                if coll_upto(d0, mem0, i0, px, py, row as int, col as int) {
                                    1u8
                                } else {
                                    0u8
                                },
                            ),
                        decreases 8 - col,
                    {
                        if pixel & (0x80u8 >> (col as u8)) != 0 {
                            proof {
                                assert(sprite_bit(mem0[i0 + row as int], col as int));
                            }
                            let a = (px as usize + col) % 64;
                            let b = (py as usize + row) % 32;
                            proof {
                                lemma_mod_bound(px as int + col as int, 64);
                                lemma_mod_bound(py as int + row as int, 32);
                            }
                            let idx = a + b * 64;
                            proof {
                                assert(idx == target_idx(px, py, row as int, col as int));
                                lemma_target_fresh(mem0, i0, px, py, row as int, col as int);
                                assert(self@.display[idx as int] == d0[idx as int]);
                            }
                            let cur = self.display[idx];
                            if cur == 1 {
                                self.v[15] = 1;
                                self.display[idx] = 0;
                                proof {
                                    assert(self@.v =~= old(self)@.v.update(15, 1u8));
                                }
                            } else {
                                self.display[idx] = 1;
                            }
                        }
                        proof {
                            let r_i = row as int;
                            let c_i = col as int;
                            lemma_coll_step(d0, mem0, i0, px, py, r_i, c_i);
                            assert forall|p: int| 0 <= p < 2048 implies self@.display[p] == (
                            if hit_upto(mem0, i0, px, py, r_i, c_i + 1, p) {
                                flip(d0[p])
                            } else {
                                d0[p]
                            }) by {
                                lemma_hit_step(mem0, i0, px, py, r_i, c_i, p);
                                lemma_target_bound(px, py, r_i, c_i);
                            }
                        }
                        col = col + 1;
                    }
                    proof {
                        let r_i = row as int;
                        lemma_coll_row(d0, mem0, i0, px, py, r_i);
                        assert forall|p: int| 0 <= p < 2048 implies self@.display[p] == (if hit_upto(
                            mem0,
                            i0,
                            px,
                            py,
                            r_i + 1,
                            0,
                            p,
                        ) {
                            flip(d0[p])
                        } else {
                            d0[p]
                        }) by {
                            lemma_hit_row(mem0, i0, px, py, r_i, p);
                        }
                    }
                    row = row + 1;
                }
                self.draw = true;
                self.pc = self.pc + 2;
                proof {
                    assert(self@.display =~= draw_display(d0, mem0, i0, px, py, n as int));
                }
                Ok(())
            },
            VideoMode::Schip8 => {
                self.pc = self.pc + 2;
                Ok(())
            },
        }
    }
}

/// The collision analogue of `lemma_hit_row`.
pub proof fn lemma_coll_row(d0: Seq<u8>, mem: Seq<u8>, index: int, px: u8, py: u8, r: int)
    requires
        0 <= r,
    ensures
        coll_upto(d0, mem, index, px, py, r, 8) <==> coll_upto(d0, mem, index, px, py, r + 1, 0),
{
    if coll_upto(d0, mem, index, px, py, r, 8) {
        let (row, col) = choose|row: int, col: int|
            0 <= row && 0 <= col < 8 && processed_before(row, col, r, 8) && sprite_bit(
                mem[index + row],
                col,
            ) && d0[target_idx(px, py, row, col)] == 1;
        assert(processed_before(row, col, r + 1, 0));
        assert(coll_upto(d0, mem, index, px, py, r + 1, 0));
    }
    if coll_upto(d0, mem, index, px, py, r + 1, 0) {
        let (row, col) = choose|row: int, col: int|
            0 <= row && 0 <= col < 8 && processed_before(row, col, r + 1, 0) && sprite_bit(
                mem[index + row],
                col,
            ) && d0[target_idx(px, py, row, col)] == 1;
        assert(processed_before(row, col, r, 8));
        assert(coll_upto(d0, mem, index, px, py, r, 8));
    }
}

} // verus!
