//! The instruction handlers: one state transition per opcode family. Each
//! handler is atomic — it validates its preconditions (stack capacity,
//! memory bounds) before writing any field, advances the program counter
//! itself, and states in its contract exactly how the new machine state
//! relates to the old one.

use vstd::prelude::*;

use crate::cpu::zero_bytes;
use crate::cpu::Cpu;
use crate::cpu::CpuView;
use crate::cpu::VideoMode;
use crate::Chip8Error;
use crate::StepOutcome;

verus! {

/// Addition of two bytes, wrapping modulo 256.
pub open spec fn wrap_add8(a: u8, b: u8) -> u8 {
    ((a + b) % 256) as u8
}

/// Subtraction `a - b` of two bytes, wrapping modulo 256.
pub open spec fn wrap_sub8(a: u8, b: u8) -> u8 {
    ((a + 256 - b) % 256) as u8
}

/// The all-clear 64*32 framebuffer.
pub open spec fn zero_display() -> Seq<u8> {
    Seq::new(2048, |i: int| 0u8)
}

/// The state transition of a call instruction: the current program counter
/// is pushed and control jumps to `nnn`.
pub open spec fn call_step(pre: CpuView, nnn: u16) -> CpuView {
    CpuView { stack: pre.stack.push(pre.pc), pc: nnn, ..pre }
}

/// The state transition of a return instruction: the youngest saved address
/// is popped and control resumes two bytes past it.
pub open spec fn ret_step(pre: CpuView) -> CpuView {
    CpuView { stack: pre.stack.drop_last(), pc: (pre.stack.last() + 2) as u16, ..pre }
}

/// The highest keypad index below `n` whose latch reads 1, or -1 when none
/// does. The wait-for-key instruction reports this index because its scan
/// lets later latches overwrite earlier ones.
pub open spec fn highest_key(keypad: Seq<u8>, n: int) -> int
    decreases n,
{
    if n <= 0 {
        -1
    } else if keypad[n - 1] == 1 {
        n - 1
    } else {
        highest_key(keypad, n - 1)
    }
}

/// What `highest_key` reports over the full keypad: a pressed latch when it
/// is nonnegative, and then the highest one; no pressed latch otherwise.
pub proof fn lemma_highest_key(keypad: Seq<u8>, n: int)
    requires
        0 <= n <= keypad.len(),
    ensures
        highest_key(keypad, n) >= 0 <==> exists|i: int| 0 <= i < n && keypad[i] == 1,
        highest_key(keypad, n) >= 0 ==> {
            let hk = highest_key(keypad, n);
            &&& 0 <= hk < n
            &&& keypad[hk] == 1
            &&& forall|j: int| hk < j < n ==> keypad[j] != 1
        },
    decreases n,
{
    if n > 0 {
        lemma_highest_key(keypad, n - 1);
    }
}

impl Cpu {
    /// Pushes a return address; the caller has checked that a slot is free.
    pub fn stack_push(&mut self, value: u16)
        requires
            old(self)@.wf(),
            old(self)@.stack.len() < 16,
            value < 4095,
        ensures
            final(self)@.wf(),
            final(self)@ == (CpuView { stack: old(self)@.stack.push(value), ..old(self)@ }),
    {
        self.stack.push(value);
    }

    /// Pops the youngest return address; the caller has checked that the
    /// stack is nonempty.
    pub fn stack_pop(&mut self) -> (r: u16)
        requires
            old(self)@.wf(),
            old(self)@.stack.len() > 0,
        ensures
            final(self)@.wf(),
            r == old(self)@.stack.last(),
            final(self)@ == (CpuView { stack: old(self)@.stack.drop_last(), ..old(self)@ }),
    {
        self.stack.pop().unwrap()
    }

    /// Clear screen: zeroes the framebuffer and marks it dirty.
    pub fn ins_0x00E0(&mut self)
        requires
            old(self)@.wf(),
            old(self)@.pc < 4095,
        ensures
            final(self)@.wf(),
            final(self)@ == (CpuView {
                display: zero_display(),
                draw: true,
                pc: (old(self)@.pc + 2) as u16,
                ..old(self)@
            }),
    {
        self.display = zero_bytes(2048);
        self.draw = true;
        self.pc = self.pc + 2;
        proof {
            assert(self@.display =~= zero_display());
        }
    }

    /// Return: pops a return address and resumes just past the call site.
    /// Fails with `StackUnderflow` on an empty stack, touching nothing.
    pub fn ins_0x00EE(&mut self) -> (r: Result<(), Chip8Error>)
        requires
            old(self)@.wf(),
        ensures
            final(self)@.wf(),
            r is Ok <==> old(self)@.stack.len() > 0,
            r is Ok ==> final(self)@ == ret_step(old(self)@),
            r is Err ==> final(self)@ == old(self)@ && r == Result::<(), Chip8Error>::Err(
                Chip8Error::StackUnderflow,
            ),
    {
        if self.stack.len() == 0 {
            return Err(Chip8Error::StackUnderflow);
        }
        let addr = self.stack_pop();
        self.pc = addr + 2;
        Ok(())
    }

    /// Jump: sets the program counter to the 12-bit address.
    pub fn ins_0x1000(&mut self, nnn: u16)
        requires
            old(self)@.wf(),
            nnn < 0x1000,
        ensures
            final(self)@.wf(),
            final(self)@ == (CpuView { pc: nnn, ..old(self)@ }),
    {
        self.pc = nnn;
    }

    /// Call: pushes the current program counter and jumps to the 12-bit
    /// address. Fails with `StackOverflow` when all 16 slots are taken,
    /// touching nothing.
    pub fn ins_0x2000(&mut self, nnn: u16) -> (r: Result<(), Chip8Error>)
        requires
            old(self)@.wf(),
            old(self)@.pc < 4095,
            nnn < 0x1000,
        ensures
            final(self)@.wf(),
            r is Ok <==> old(self)@.stack.len() < 16,
            r is Ok ==> final(self)@ == call_step(old(self)@, nnn),
            r is Err ==> final(self)@ == old(self)@ && r == Result::<(), Chip8Error>::Err(
                Chip8Error::StackOverflow,
            ),
    {
        if self.stack.len() >= 16 {
            return Err(Chip8Error::StackOverflow);
        }
        self.stack_push(self.pc);
        self.pc = nnn;
        Ok(())
    }

    /// Skip if equal (register vs immediate): advances the program counter
    /// by 4 when `v[x] == nn`, else by 2.
    pub fn ins_0x3000(&mut self, x: u16, nn: u8)
        requires
            old(self)@.wf(),
            x < 16,
            old(self)@.pc < 4095,
        ensures
            final(self)@.wf(),
            final(self)@ == (CpuView {
                pc: (if old(self)@.v[x as int] == nn {
                    old(self)@.pc + 4
                } else {
                    old(self)@.pc + 2
                }) as u16,
                ..old(self)@
            }),
    {
        if self.v[x as usize] == nn {
            self.pc = self.pc + 4;
        } else {
            self.pc = self.pc + 2;
        }
    }

    /// Skip if not equal (register vs immediate): advances the program
    /// counter by 4 when `v[x] != nn`, else by 2.
    pub fn ins_0x4000(&mut self, x: u16, nn: u8)
        requires
            old(self)@.wf(),
            x < 16,
            old(self)@.pc < 4095,
        ensures
            final(self)@.wf(),
            final(self)@ == (CpuView {
                pc: (if old(self)@.v[x as int] != nn {
                    old(self)@.pc + 4
                } else {
                    old(self)@.pc + 2
                }) as u16,
                ..old(self)@
            }),
    {
        if self.v[x as usize] != nn {
            self.pc = self.pc + 2;
        }
        self.pc = self.pc + 2;
    }

    /// Skip if equal (register vs register): advances the program counter
    /// by 4 when `v[x] == v[y]`, else by 2.
    pub fn ins_0x5000(&mut self, x: u16, y: u16)
        requires
            old(self)@.wf(),
            x < 16,
            y < 16,
            old(self)@.pc < 4095,
        ensures
            final(self)@.wf(),
            final(self)@ == (CpuView {
                pc: (if old(self)@.v[x as int] == old(self)@.v[y as int] {
                    old(self)@.pc + 4
                } else {
                    old(self)@.pc + 2
                }) as u16,
                ..old(self)@
            }),
    {
        let vx = self.v[x as usize];
        let vy = self.v[y as usize];
        if vx == vy {
            self.pc = self.pc + 4;
        } else {
            self.pc = self.pc + 2;
        }
    }

    /// Load immediate: `v[x] = nn`.
    pub fn ins_0x6000(&mut self, x: u16, nn: u8)
        requires
            old(self)@.wf(),
            x < 16,
            old(self)@.pc < 4095,
        ensures
            final(self)@.wf(),
            final(self)@ == (CpuView {
                v: old(self)@.v.update(x as int, nn),
                pc: (old(self)@.pc + 2) as u16,
                ..old(self)@
            }),
    {
        self.v[x as usize] = nn;
        self.pc = self.pc + 2;
    }

    /// Add immediate, wrapping modulo 256; no flag is touched.
    pub fn ins_0x7000(&mut self, x: u16, nn: u8)
        requires
            old(self)@.wf(),
            x < 16,
            old(self)@.pc < 4095,
        ensures
            final(self)@.wf(),
            final(self)@ == (CpuView {
                v: old(self)@.v.update(x as int, wrap_add8(old(self)@.v[x as int], nn)),
                pc: (old(self)@.pc + 2) as u16,
                ..old(self)@
            }),
    {
        let sum: u16 = self.v[x as usize] as u16 + nn as u16;
        self.v[x as usize] = (sum % 256) as u8;
        self.pc = self.pc + 2;
    }

    /// Register copy: `v[x] = v[y]`.
    pub fn ins_0x8000(&mut self, x: u16, y: u16)
        requires
            old(self)@.wf(),
            x < 16,
            y < 16,
            old(self)@.pc < 4095,
        ensures
            final(self)@.wf(),
            final(self)@ == (CpuView {
                v: old(self)@.v.update(x as int, old(self)@.v[y as int]),
                pc: (old(self)@.pc + 2) as u16,
                ..old(self)@
            }),
    {
        let vy = self.v[y as usize];
        self.v[x as usize] = vy;
        self.pc = self.pc + 2;
    }

    /// Bitwise OR: `v[x] |= v[y]`.
    pub fn ins_0x8001(&mut self, x: u16, y: u16)
        requires
            old(self)@.wf(),
            x < 16,
            y < 16,
            old(self)@.pc < 4095,
        ensures
            final(self)@.wf(),
            final(self)@ == (CpuView {
                v: old(self)@.v.update(x as int, old(self)@.v[x as int] | old(self)@.v[y as int]),
                pc: (old(self)@.pc + 2) as u16,
                ..old(self)@
            }),
    {
        let vy = self.v[y as usize];
        let vx = self.v[x as usize];
        self.v[x as usize] = vx | vy;
        self.pc = self.pc + 2;
    }

    /// Bitwise AND: `v[x] &= v[y]`.
    pub fn ins_0x8002(&mut self, x: u16, y: u16)
        requires
            old(self)@.wf(),
            x < 16,
            y < 16,
            old(self)@.pc < 4095,
        ensures
            final(self)@.wf(),
            final(self)@ == (CpuView {
                v: old(self)@.v.update(x as int, old(self)@.v[x as int] & old(self)@.v[y as int]),
                pc: (old(self)@.pc + 2) as u16,
                ..old(self)@
            }),
    {
        let vy = self.v[y as usize];
        let vx = self.v[x as usize];
        self.v[x as usize] = vx & vy;
        self.pc = self.pc + 2;
    }

    /// Bitwise XOR: `v[x] ^= v[y]`.
    pub fn ins_0x8003(&mut self, x: u16, y: u16)
        requires
            old(self)@.wf(),
            x < 16,
            y < 16,
            old(self)@.pc < 4095,
        ensures
            final(self)@.wf(),
            final(self)@ == (CpuView {
                v: old(self)@.v.update(x as int, old(self)@.v[x as int] ^ old(self)@.v[y as int]),
                pc: (old(self)@.pc + 2) as u16,
                ..old(self)@
            }),
    {
        let vy = self.v[y as usize];
        let vx = self.v[x as usize];
        self.v[x as usize] = vx ^ vy;
        self.pc = self.pc + 2;
    }

    /// Add registers: `v[x] += v[y]`, truncated to 8 bits; `v[0xF]` reports
    /// whether the 9-bit sum exceeded 255. The flag is written first, so a
    /// sum targeting `v[0xF]` itself overwrites the flag.
    pub fn ins_0x8004(&mut self, x: u16, y: u16)
        requires
            old(self)@.wf(),
            x < 16,
            y < 16,
            old(self)@.pc < 4095,
        ensures
            final(self)@.wf(),
            final(self)@ == (CpuView {
                v: old(self)@.v.update(
                    15,
                    if old(self)@.v[x as int] + old(self)@.v[y as int] > 255 {
                        1u8
                    } else {
                        0u8
                    },
                ).update(x as int, wrap_add8(old(self)@.v[x as int], old(self)@.v[y as int])),
                pc: (old(self)@.pc + 2) as u16,
                ..old(self)@
            }),
    {
        let result: u16 = self.v[x as usize] as u16 + self.v[y as usize] as u16;
        if result > 255 {
            self.v[15] = 1;
        } else {
            self.v[15] = 0;
        }
        self.v[x as usize] = (result % 256) as u8;
        self.pc = self.pc + 2;
    }

    /// Subtract `v[x] - v[y]`, wrapping; `v[0xF]` is 1 exactly when
    /// `v[x] > v[y]` before the subtraction (borrow did not occur). The
    /// flag is written before the difference, so when `x` is 0xF the
    /// subtraction reads the freshly written flag.
    pub fn ins_0x8005(&mut self, x: u16, y: u16)
        requires
            old(self)@.wf(),
            x < 16,
            y < 16,
            old(self)@.pc < 4095,
        ensures
            final(self)@.wf(),
            final(self)@ == (CpuView {
                v: ({
                    let flagged = old(self)@.v.update(
                        15,
                        if old(self)@.v[x as int] > old(self)@.v[y as int] {
                            1u8
                        } else {
                            0u8
                        },
                    );
                    flagged.update(x as int, wrap_sub8(flagged[x as int], old(self)@.v[y as int]))
                }),
                pc: (old(self)@.pc + 2) as u16,
                ..old(self)@
            }),
    {
        let vy = self.v[y as usize];
        if self.v[x as usize] > vy {
            self.v[15] = 1;
        } else {
            self.v[15] = 0;
        }
        let vx = self.v[x as usize];
        self.v[x as usize] = ((vx as u16 + 256 - vy as u16) % 256) as u8;
        self.pc = self.pc + 2;
    }

    /// Shift right by one; `v[0xF]` receives the low bit first, so when `x`
    /// is 0xF the shift reads the freshly written flag.
    pub fn ins_0x8006(&mut self, x: u16, y: u16)
        requires
            old(self)@.wf(),
            x < 16,
            y < 16,
            old(self)@.pc < 4095,
        ensures
            final(self)@.wf(),
            final(self)@ == (CpuView {
                v: ({
                    let flagged = old(self)@.v.update(15, old(self)@.v[x as int] & 0x1);
                    flagged.update(x as int, flagged[x as int] >> 1)
                }),
                pc: (old(self)@.pc + 2) as u16,
                ..old(self)@
            }),
    {
        let vx = self.v[x as usize];
        self.v[15] = vx & 0x1;
        let cur = self.v[x as usize];
        self.v[x as usize] = cur >> 1;
        self.pc = self.pc + 2;
    }

    /// Reversed subtract `v[x] = v[y] - v[x]`, wrapping; `v[0xF]` is 0 when
    /// a borrow occurred and 1 otherwise — the inverse convention from the
    /// direct subtract, preserved deliberately. Here the difference is
    /// written first, so a flag targeting `v[0xF]` overwrites it.
    pub fn ins_0x8007(&mut self, x: u16, y: u16)
        requires
            old(self)@.wf(),
            x < 16,
            y < 16,
            old(self)@.pc < 4095,
        ensures
            final(self)@.wf(),
            final(self)@ == (CpuView {
                v: old(self)@.v.update(
                    x as int,
                    wrap_sub8(old(self)@.v[y as int], old(self)@.v[x as int]),
                ).update(
                    15,
                    if old(self)@.v[x as int] > old(self)@.v[y as int] {
                        0u8
                    } else {
                        1u8
                    },
                ),
                pc: (old(self)@.pc + 2) as u16,
                ..old(self)@
            }),
    {
        let vx = self.v[x as usize];
        let vy = self.v[y as usize];
        self.v[x as usize] = ((vy as u16 + 256 - vx as u16) % 256) as u8;
        if vx > vy {
            self.v[15] = 0;
        } else {
            self.v[15] = 1;
        }
        self.pc = self.pc + 2;
    }

    /// Shift left by one; `v[0xF]` receives the high bit first, so when `x`
    /// is 0xF the shift reads the freshly written flag.
    pub fn ins_0x800E(&mut self, x: u16)
        requires
            old(self)@.wf(),
            x < 16,
            old(self)@.pc < 4095,
        ensures
            final(self)@.wf(),
            final(self)@ == (CpuView {
                v: ({
                    let flagged = old(self)@.v.update(15, old(self)@.v[x as int] >> 7);
                    flagged.update(x as int, flagged[x as int] << 1)
                }),
                pc: (old(self)@.pc + 2) as u16,
                ..old(self)@
            }),
    {
        let vx = self.v[x as usize];
        self.v[15] = vx >> 7;
        let cur = self.v[x as usize];
        self.v[x as usize] = cur << 1;
        self.pc = self.pc + 2;
    }

    /// Skip if not equal (register vs register): advances the program
    /// counter by 4 when `v[x] != v[y]`, else by 2.
    pub fn ins_0x9000(&mut self, x: u16, y: u16)
        requires
            old(self)@.wf(),
            x < 16,
            y < 16,
            old(self)@.pc < 4095,
        ensures
            final(self)@.wf(),
            final(self)@ == (CpuView {
                pc: (if old(self)@.v[x as int] != old(self)@.v[y as int] {
                    old(self)@.pc + 4
                } else {
                    old(self)@.pc + 2
                }) as u16,
                ..old(self)@
            }),
    {
        let vx = self.v[x as usize];
        let vy = self.v[y as usize];
        if vx != vy {
            self.pc = self.pc + 4;
        } else {
            self.pc = self.pc + 2;
        }
    }

    /// Set index register to the 12-bit address.
    pub fn ins_0xA000(&mut self, nnn: u16)
        requires
            old(self)@.wf(),
            nnn < 0x1000,
            old(self)@.pc < 4095,
        ensures
            final(self)@.wf(),
            final(self)@ == (CpuView { index: nnn, pc: (old(self)@.pc + 2) as u16, ..old(self)@ }),
    {
        self.index = nnn;
        self.pc = self.pc + 2;
    }

    /// Jump with offset: `pc = nnn + v[0]`.
    pub fn ins_0xB000(&mut self, nnn: u16)
        requires
            old(self)@.wf(),
            nnn < 0x1000,
        ensures
            final(self)@.wf(),
            final(self)@ == (CpuView { pc: (nnn + old(self)@.v[0]) as u16, ..old(self)@ }),
    {
        self.pc = nnn + self.v[0] as u16;
    }

    /// Random: `v[x] = rnd & nn`, for a byte `rnd` the caller drew. Every
    /// draw is covered: the contract holds whatever byte came back.
    pub fn ins_0xC000(&mut self, x: u16, nn: u8, rnd: u8)
        requires
            old(self)@.wf(),
            x < 16,
            old(self)@.pc < 4095,
        ensures
            final(self)@.wf(),
            final(self)@ == (CpuView {
                v: old(self)@.v.update(x as int, rnd & nn),
                pc: (old(self)@.pc + 2) as u16,
                ..old(self)@
            }),
    {
        self.v[x as usize] = rnd & nn;
        self.pc = self.pc + 2;
    }

    /// Skip if the key indexed by `v[x]` is pressed (latch nonzero). A
    /// register value outside the 16-key space is an `OutOfBounds` failure
    /// that touches nothing.
    pub fn ins_0xE9E(&mut self, x: u16) -> (r: Result<(), Chip8Error>)
        requires
            old(self)@.wf(),
            x < 16,
            old(self)@.pc < 4095,
        ensures
            final(self)@.wf(),
            r is Ok <==> old(self)@.v[x as int] < 16,
            r is Ok ==> final(self)@ == (CpuView {
                pc: (if old(self)@.keypad[old(self)@.v[x as int] as int] != 0 {
                    old(self)@.pc + 4
                } else {
                    old(self)@.pc + 2
                }) as u16,
                ..old(self)@
            }),
            r is Err ==> final(self)@ == old(self)@ && r == Result::<(), Chip8Error>::Err(
                Chip8Error::OutOfBounds,
            ),
    {
        let key = self.v[x as usize];
        if key >= 16 {
            return Err(Chip8Error::OutOfBounds);
        }
        if self.keypad[key as usize] != 0 {
            self.pc = self.pc + 4;
        } else {
            self.pc = self.pc + 2;
        }
        Ok(())
    }

    /// Skip if the key indexed by `v[x]` is not pressed (latch zero). A
    /// register value outside the 16-key space is an `OutOfBounds` failure
    /// that touches nothing.
    pub fn ins_0xEXA1(&mut self, x: u16) -> (r: Result<(), Chip8Error>)
        requires
            old(self)@.wf(),
            x < 16,
            old(self)@.pc < 4095,
        ensures
            final(self)@.wf(),
            r is Ok <==> old(self)@.v[x as int] < 16,
            r is Ok ==> final(self)@ == (CpuView {
                pc: (if old(self)@.keypad[old(self)@.v[x as int] as int] == 0 {
                    old(self)@.pc + 4
                } else {
                    old(self)@.pc + 2
                }) as u16,
                ..old(self)@
            }),
            r is Err ==> final(self)@ == old(self)@ && r == Result::<(), Chip8Error>::Err(
                Chip8Error::OutOfBounds,
            ),
    {
        let key = self.v[x as usize];
        if key >= 16 {
            return Err(Chip8Error::OutOfBounds);
        }
        if self.keypad[key as usize] == 0 {
            self.pc = self.pc + 4;
        } else {
            self.pc = self.pc + 2;
        }
        Ok(())
    }

    /// Wait for key: scans the 16 latches; when at least one reads 1 the
    /// highest such index lands in `v[x]` and the program counter advances.
    /// When none does, the program counter stays put and the instruction
    /// re-executes next cycle — this is the machine's only suspension.
    pub fn ins_0xF00A(&mut self, x: u16)
        requires
            old(self)@.wf(),
            x < 16,
            old(self)@.pc < 4095,
        ensures
            final(self)@.wf(),
            ({
                let hk = highest_key(old(self)@.keypad, 16);
                if hk >= 0 {
                    final(self)@ == (CpuView {
                        v: old(self)@.v.update(x as int, hk as u8),
                        keypressed: true,
                        pc: (old(self)@.pc + 2) as u16,
                        ..old(self)@
                    })
                } else {
                    final(self)@ == (CpuView { keypressed: false, ..old(self)@ })
                }
            }),
    {
        self.keypressed = false;
        let mut i: usize = 0;
        while i < 16
            invariant
                old(self)@.wf(),
                x < 16,
                i <= 16,
                ({
                    let hk = highest_key(old(self)@.keypad, i as int);
                    if hk >= 0 {
                        self@ == (CpuView {
                            v: old(self)@.v.update(x as int, hk as u8),
                            keypressed: true,
                            ..old(self)@
                        })
                    } else {
                        self@ == (CpuView { keypressed: false, ..old(self)@ })
                    }
                }),
            decreases 16 - i,
        {
            proof {
                lemma_highest_key(old(self)@.keypad, i as int);
                lemma_highest_key(old(self)@.keypad, i as int + 1);
            }
            if self.keypad[i] == 1 {
                self.keypressed = true;
                self.v[x as usize] = i as u8;
                proof {
                    assert(self@.v =~= old(self)@.v.update(x as int, i as u8));
                }
            }
            i = i + 1;
        }
        proof {
            lemma_highest_key(old(self)@.keypad, 16);
        }
        if self.keypressed {
            self.pc = self.pc + 2;
        }
    }

    /// Load font glyph address: `index = v[x] * 5`, five bytes per glyph.
    pub fn ins_0xF029(&mut self, x: u16)
        requires
            old(self)@.wf(),
            x < 16,
            old(self)@.pc < 4095,
        ensures
            final(self)@.wf(),
            final(self)@ == (CpuView {
                index: (old(self)@.v[x as int] * 5) as u16,
                pc: (old(self)@.pc + 2) as u16,
                ..old(self)@
            }),
    {
        self.index = self.v[x as usize] as u16 * 5;
        self.pc = self.pc + 2;
    }

    /// Binary-coded decimal: stores the hundreds, tens and units of `v[x]`
    /// at `index`, `index + 1`, `index + 2`. Fails with `OutOfBounds`,
    /// touching nothing, when those three bytes do not fit in memory.
    pub fn ins_F033(&mut self, x: u16) -> (r: Result<(), Chip8Error>)
        requires
            old(self)@.wf(),
            x < 16,
            old(self)@.pc < 4095,
        ensures
            final(self)@.wf(),
            r is Ok <==> old(self)@.index + 2 < 4096,
            r is Ok ==> final(self)@ == (CpuView {
                mem: old(self)@.mem.update(
                    old(self)@.index as int,
                    (old(self)@.v[x as int] / 100) as u8,
                ).update(old(self)@.index + 1, ((old(self)@.v[x as int] / 10) % 10) as u8).update(
                    old(self)@.index + 2,
                    (old(self)@.v[x as int] % 10) as u8,
                ),
                pc: (old(self)@.pc + 2) as u16,
                ..old(self)@
            }),
            r is Err ==> final(self)@ == old(self)@ && r == Result::<(), Chip8Error>::Err(
                Chip8Error::OutOfBounds,
            ),
    {
        let i = self.index as usize;
        if i + 2 >= 4096 {
            return Err(Chip8Error::OutOfBounds);
        }
        let vx = self.v[x as usize];
        self.mem[i] = vx / 100;
        self.mem[i + 1] = (vx / 10) % 10;
        self.mem[i + 2] = (vx % 100) % 10;
        self.pc = self.pc + 2;
        proof {
            assert((vx % 100) % 10 == vx % 10) by (nonlinear_arith);
        }
        Ok(())
    }

    /// Register dump: stores `v[0..=x]` at `index` onwards. Fails with
    /// `OutOfBounds`, touching nothing, when the range does not fit.
    pub fn ins_F055(&mut self, x: u16) -> (r: Result<(), Chip8Error>)
        requires
            old(self)@.wf(),
            x < 16,
            old(self)@.pc < 4095,
        ensures
            final(self)@.wf(),
            r is Ok <==> old(self)@.index + x < 4096,
            r is Ok ==> {
                &&& final(self)@ == (CpuView {
                    mem: final(self)@.mem,
                    pc: (old(self)@.pc + 2) as u16,
                    ..old(self)@
                })
                &&& final(self)@.mem.len() == 4096
                &&& forall|j: int|
                    0 <= j <= x ==> final(self)@.mem[old(self)@.index + j] == old(self)@.v[j]
                &&& forall|i: int|
                    (0 <= i < old(self)@.index || old(self)@.index + x < i < 4096)
                        ==> final(self)@.mem[i] == old(self)@.mem[i]
            },
            r is Err ==> final(self)@ == old(self)@ && r == Result::<(), Chip8Error>::Err(
                Chip8Error::OutOfBounds,
            ),
    {
        let i = self.index as usize;
        let xu = x as usize;
        if i + xu >= 4096 {
            return Err(Chip8Error::OutOfBounds);
        }
        let mut k: usize = 0;
        while k <= xu
            invariant
                old(self)@.wf(),
                xu == x < 16,
                i == old(self)@.index,
                i + xu < 4096,
                k <= xu + 1,
                self@ == (CpuView { mem: self@.mem, ..old(self)@ }),
                self@.mem.len() == 4096,
                forall|j: int| 0 <= j < k ==> self@.mem[i + j] == old(self)@.v[j],
                forall|m: int| (0 <= m < i || i + k <= m < 4096) ==> self@.mem[m] == old(self)@.mem[m],
            decreases xu + 1 - k,
        {
            self.mem[i + k] = self.v[k];
            k = k + 1;
        }
        self.pc = self.pc + 2;
        Ok(())
    }

    /// Register load: fills `v[0..=x]` from `index` onwards, leaving the
    /// higher registers alone. Fails with `OutOfBounds`, touching nothing,
    /// when the range does not fit.
    pub fn ins_F065(&mut self, x: u16) -> (r: Result<(), Chip8Error>)
        requires
            old(self)@.wf(),
            x < 16,
            old(self)@.pc < 4095,
        ensures
            final(self)@.wf(),
            r is Ok <==> old(self)@.index + x < 4096,
            r is Ok ==> {
                &&& final(self)@ == (CpuView {
                    v: final(self)@.v,
                    pc: (old(self)@.pc + 2) as u16,
                    ..old(self)@
                })
                &&& final(self)@.v.len() == 16
                &&& forall|j: int|
                    0 <= j <= x ==> final(self)@.v[j] == old(self)@.mem[old(self)@.index + j]
                &&& forall|j: int| x < j < 16 ==> final(self)@.v[j] == old(self)@.v[j]
            },
            r is Err ==> final(self)@ == old(self)@ && r == Result::<(), Chip8Error>::Err(
                Chip8Error::OutOfBounds,
            ),
    {
        let i = self.index as usize;
        let xu = x as usize;
        if i + xu >= 4096 {
            return Err(Chip8Error::OutOfBounds);
        }
        let mut k: usize = 0;
        while k <= xu
            invariant
                old(self)@.wf(),
                xu == x < 16,
                i == old(self)@.index,
                i + xu < 4096,
                k <= xu + 1,
                self@ == (CpuView { v: self@.v, ..old(self)@ }),
                self@.v.len() == 16,
                forall|j: int| 0 <= j < k ==> self@.v[j] == old(self)@.mem[i + j],
                forall|j: int| k <= j < 16 ==> self@.v[j] == old(self)@.v[j],
            decreases xu + 1 - k,
        {
            self.v[k] = self.mem[i + k];
            k = k + 1;
        }
        self.pc = self.pc + 2;
        Ok(())
    }

    /// Add to index: `index += v[x]`, wrapping in the 16-bit register; the
    /// sum is deliberately not masked to 12 bits, and bounds surface only
    /// when the index is used to address memory.
    pub fn ins_0xF01E(&mut self, x: u16)
        requires
            old(self)@.wf(),
            x < 16,
            old(self)@.pc < 4095,
        ensures
            final(self)@.wf(),
            final(self)@ == (CpuView {
                index: ((old(self)@.index + old(self)@.v[x as int]) % 0x10000) as u16,
                pc: (old(self)@.pc + 2) as u16,
                ..old(self)@
            }),
    {
        let s: u32 = self.index as u32 + self.v[x as usize] as u32;
        self.index = (s % 0x10000) as u16;
        self.pc = self.pc + 2;
    }

    /// Exit: requests a halt from the embedding application; the machine
    /// state is untouched.
    pub fn ins_0x00FD(&self) -> (r: StepOutcome)
        ensures
            r == StepOutcome::Halt,
    {
        StepOutcome::Halt
    }

    /// Mode switch to standard resolution.
    pub fn ins_0x00FE(&mut self)
        requires
            old(self)@.wf(),
            old(self)@.pc < 4095,
        ensures
            final(self)@.wf(),
            final(self)@ == (CpuView {
                vmode: VideoMode::Chip8,
                pc: (old(self)@.pc + 2) as u16,
                ..old(self)@
            }),
    {
        self.set_mode(VideoMode::Chip8);
        self.pc = self.pc + 2;
    }

    /// Mode switch to extended resolution.
    pub fn ins_0x00FF(&mut self)
        requires
            old(self)@.wf(),
            old(self)@.pc < 4095,
        ensures
            final(self)@.wf(),
            final(self)@ == (CpuView {
                vmode: VideoMode::Schip8,
                pc: (old(self)@.pc + 2) as u16,
                ..old(self)@
            }),
    {
        self.set_mode(VideoMode::Schip8);
        self.pc = self.pc + 2;
    }

    /// Sets the drawing mode tag.
    pub fn set_mode(&mut self, v: VideoMode)
        ensures
            final(self)@ == (CpuView { vmode: v, ..old(self)@ }),
    {
        self.vmode = v;
    }
}

} // verus!
