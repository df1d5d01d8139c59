//! Fetch, decode and dispatch: `step_spec` is the mathematical transition
//! function of the whole machine — one instruction cycle as a function of
//! the prior state and the byte the random instruction would draw — and
//! `Cpu::cycle` is proved to apply it. A failed cycle reports its error and
//! leaves the state untouched.

use rand::Rng;
use vstd::prelude::*;

use crate::cpu::Cpu;
use crate::cpu::CpuView;
use crate::cpu::VideoMode;
use crate::decode::get_n;
use crate::decode::get_nn;
use crate::decode::get_nnn;
use crate::decode::get_vx;
use crate::decode::get_vy;
use crate::decode::n_of;
use crate::decode::nn_of;
use crate::decode::nnn_of;
use crate::decode::opcode_at;
use crate::decode::x_of;
use crate::decode::y_of;
use crate::draw::draw_collision;
use crate::draw::draw_display;
use crate::exec::call_step;
use crate::exec::highest_key;
use crate::exec::ret_step;
use crate::exec::wrap_add8;
use crate::exec::wrap_sub8;
use crate::exec::zero_display;
use crate::Chip8Error;
use crate::StepOutcome;

verus! {

/// Memory after the register-dump instruction: `v[0..=x]` written at
/// `index` onwards, everything else untouched.
pub open spec fn dump_regs(mem: Seq<u8>, v: Seq<u8>, index: int, x: int) -> Seq<u8> {
    Seq::new(
        4096,
        |i: int|
            if index <= i <= index + x {
                v[i - index]
            } else {
                mem[i]
            },
    )
}

/// Registers after the register-load instruction: `v[0..=x]` read from
/// `index` onwards, the higher registers untouched.
pub open spec fn load_regs(v: Seq<u8>, mem: Seq<u8>, index: int, x: int) -> Seq<u8> {
    Seq::new(
        16,
        |j: int|
            if 0 <= j <= x {
                mem[index + j]
            } else {
                v[j]
            },
    )
}

/// The transition function of one instruction cycle: from the prior state
/// and the byte the random instruction would draw, either the next state
/// with its outcome, or the error the cycle reports (in which case the
/// state does not change). This is the single reference for what every
/// opcode does; `Cpu::cycle` is proved against it.
pub open spec fn step_spec(pre: CpuView, rand: u8) -> Result<
    (CpuView, StepOutcome),
    Chip8Error,
> {
    if pre.pc + 1 >= 4096 {
        Err(Chip8Error::OutOfBounds)
    } else {
        let op = opcode_at(pre.mem, pre.pc as int);
        let nnn = nnn_of(op);
        let nn = nn_of(op);
        let n = n_of(op);
        let x = x_of(op) as int;
        let y = y_of(op) as int;
        let pc2 = (pre.pc + 2) as u16;
        let pc_skip = (pre.pc + 4) as u16;
        let top = op & 0xF000;
        if top == 0x0000 {
            let low = op & 0x00FF;
            if low == 0xE0 {
                Ok(
                    (
                        CpuView { display: zero_display(), draw: true, pc: pc2, ..pre },
                        StepOutcome::Continue,
                    ),
                )
            } else if low == 0xEE {
                if pre.stack.len() > 0 {
                    Ok((ret_step(pre), StepOutcome::Continue))
                } else {
                    Err(Chip8Error::StackUnderflow)
                }
            } else if low == 0xFD {
                Ok((pre, StepOutcome::Halt))
            } else if low == 0xFE {
                Ok((CpuView { vmode: VideoMode::Chip8, pc: pc2, ..pre }, StepOutcome::Continue))
            } else if low == 0xFF {
                Ok((CpuView { vmode: VideoMode::Schip8, pc: pc2, ..pre }, StepOutcome::Continue))
            } else {
                Err(Chip8Error::UnknownOpcode(op))
            }
        } else if top == 0x1000 {
            Ok((CpuView { pc: nnn, ..pre }, StepOutcome::Continue))
        } else if top == 0x2000 {
            if pre.stack.len() < 16 {
                Ok((call_step(pre, nnn), StepOutcome::Continue))
            } else {
                Err(Chip8Error::StackOverflow)
            }
        } else if top == 0x3000 {
            Ok(
                (
                    CpuView {
                        pc: if pre.v[x] == nn {
                            pc_skip
                        } else {
                            pc2
                        },
                        ..pre
                    },
                    StepOutcome::Continue,
                ),
            )
        } else if top == 0x4000 {
            Ok(
                (
                    CpuView {
                        pc: if pre.v[x] != nn {
                            pc_skip
                        } else {
                            pc2
                        },
                        ..pre
                    },
                    StepOutcome::Continue,
                ),
            )
        } else if top == 0x5000 {
            Ok(
                (
                    CpuView {
                        pc: if pre.v[x] == pre.v[y] {
                            pc_skip
                        } else {
                            pc2
                        },
                        ..pre
                    },
                    StepOutcome::Continue,
                ),
            )
        } else if top == 0x6000 {
            Ok((CpuView { v: pre.v.update(x, nn), pc: pc2, ..pre }, StepOutcome::Continue))
        } else if top == 0x7000 {
            Ok(
                (
                    CpuView { v: pre.v.update(x, wrap_add8(pre.v[x], nn)), pc: pc2, ..pre },
                    StepOutcome::Continue,
                ),
            )
        } else if top == 0x8000 {
            let low = op & 0x000F;
            if low == 0x0 {
                Ok((CpuView { v: pre.v.update(x, pre.v[y]), pc: pc2, ..pre }, StepOutcome::Continue))
            } else if low == 0x1 {
                Ok(
                    (
                        CpuView { v: pre.v.update(x, pre.v[x] | pre.v[y]), pc: pc2, ..pre },
                        StepOutcome::Continue,
                    ),
                )
            } else if low == 0x2 {
                Ok(
                    (
                        CpuView { v: pre.v.update(x, pre.v[x] & pre.v[y]), pc: pc2, ..pre },
                        StepOutcome::Continue,
                    ),
                )
            } else if low == 0x3 {
                Ok(
                    (
                        CpuView { v: pre.v.update(x, pre.v[x] ^ pre.v[y]), pc: pc2, ..pre },
                        StepOutcome::Continue,
                    ),
                )
            } else if low == 0x4 {
                Ok(
                    (
                        CpuView {
                            v: pre.v.update(
                                15,
                                if pre.v[x] + pre.v[y] > 255 {
                                    1u8
                                } else {
                                    0u8
                                },
                            ).update(x, wrap_add8(pre.v[x], pre.v[y])),
                            pc: pc2,
                            ..pre
                        },
                        StepOutcome::Continue,
                    ),
                )
            } else if low == 0x5 {
                let flagged = pre.v.update(
                    15,
                    if pre.v[x] > pre.v[y] {
                        1u8
                    } else {
                        0u8
                    },
                );
                Ok(
                    (
                        CpuView {
                            v: flagged.update(x, wrap_sub8(flagged[x], pre.v[y])),
                            pc: pc2,
                            ..pre
                        },
                        StepOutcome::Continue,
                    ),
                )
            } else if low == 0x6 {
                let flagged = pre.v.update(15, pre.v[x] & 0x1);
                Ok(
                    (
                        CpuView { v: flagged.update(x, flagged[x] >> 1), pc: pc2, ..pre },
                        StepOutcome::Continue,
                    ),
                )
            } else if low == 0x7 {
                Ok(
                    (
                        CpuView {
                            v: pre.v.update(x, wrap_sub8(pre.v[y], pre.v[x])).update(
                                15,
                                if pre.v[x] > pre.v[y] {
                                    0u8
                                } else {
                                    1u8
                                },
                            ),
                            pc: pc2,
                            ..pre
                        },
                        StepOutcome::Continue,
                    ),
                )
            } else if low == 0xE {
                let flagged = pre.v.update(15, pre.v[x] >> 7);
                Ok(
                    (
                        CpuView { v: flagged.update(x, flagged[x] << 1), pc: pc2, ..pre },
                        StepOutcome::Continue,
                    ),
                )
            } else {
                Err(Chip8Error::UnknownOpcode(op))
            }
        } else if top == 0x9000 {
            Ok(
                (
                    CpuView {
                        pc: if pre.v[x] != pre.v[y] {
                            pc_skip
                        } else {
                            pc2
                        },
                        ..pre
                    },
                    StepOutcome::Continue,
                ),
            )
        } else if top == 0xA000 {
            Ok((CpuView { index: nnn, pc: pc2, ..pre }, StepOutcome::Continue))
        } else if top == 0xB000 {
            Ok((CpuView { pc: (nnn + pre.v[0]) as u16, ..pre }, StepOutcome::Continue))
        } else if top == 0xC000 {
            Ok((CpuView { v: pre.v.update(x, rand & nn), pc: pc2, ..pre }, StepOutcome::Continue))
        } else if top == 0xD000 {
            if pre.vmode == VideoMode::Schip8 {
                Ok((CpuView { pc: pc2, ..pre }, StepOutcome::Continue))
            } else if n == 0 || pre.index + n <= 4096 {
                Ok(
                    (
                        CpuView {
                            display: draw_display(
                                pre.display,
                                pre.mem,
                                pre.index as int,
                                pre.v[x],
                                pre.v[y],
                                n as int,
                            ),
                            v: pre.v.update(
                                15,
                                if draw_collision(
                                    pre.display,
                                    pre.mem,
                                    pre.index as int,
                                    pre.v[x],
                                    pre.v[y],
                                    n as int,
                                ) {
                                    1u8
                                } else {
                                    0u8
                                },
                            ),
                            draw: true,
                            pc: pc2,
                            ..pre
                        },
                        StepOutcome::Continue,
                    ),
                )
            } else {
                Err(Chip8Error::OutOfBounds)
            }
        } else if top == 0xE000 {
            let low = op & 0x00FF;
            if low == 0x9E {
                if pre.v[x] < 16 {
                    Ok(
                        (
                            CpuView {
                                pc: if pre.keypad[pre.v[x] as int] != 0 {
                                    pc_skip
                                } else {
                                    pc2
                                },
                                ..pre
                            },
                            StepOutcome::Continue,
                        ),
                    )
                } else {
                    Err(Chip8Error::OutOfBounds)
                }
            } else if low == 0xA1 {
                if pre.v[x] < 16 {
                    Ok(
                        (
                            CpuView {
                                pc: if pre.keypad[pre.v[x] as int] == 0 {
                                    pc_skip
                                } else {
                                    pc2
                                },
                                ..pre
                            },
                            StepOutcome::Continue,
                        ),
                    )
                } else {
                    Err(Chip8Error::OutOfBounds)
                }
            } else {
                Err(Chip8Error::UnknownOpcode(op))
            }
        } else if top == 0xF000 {
            let low = op & 0x00FF;
            if low == 0x07 {
                Ok((CpuView { v: pre.v.update(x, pre.dt), pc: pc2, ..pre }, StepOutcome::Continue))
            } else if low == 0x18 {
                Ok((CpuView { pc: pc2, ..pre }, StepOutcome::Continue))
            } else if low == 0x29 {
                Ok(
                    (
                        CpuView { index: (pre.v[x] * 5) as u16, pc: pc2, ..pre },
                        StepOutcome::Continue,
                    ),
                )
            } else if low == 0x33 {
                if pre.index + 2 < 4096 {
                    Ok(
                        (
                            CpuView {
                                mem: pre.mem.update(pre.index as int, (pre.v[x] / 100) as u8).update(
                                    pre.index + 1,
                                    ((pre.v[x] / 10) % 10) as u8,
                                ).update(pre.index + 2, (pre.v[x] % 10) as u8),
                                pc: pc2,
                                ..pre
                            },
                            StepOutcome::Continue,
                        ),
                    )
                } else {
                    Err(Chip8Error::OutOfBounds)
                }
            } else if low == 0x55 {
                if pre.index + x < 4096 {
                    Ok(
                        (
                            CpuView {
                                mem: dump_regs(pre.mem, pre.v, pre.index as int, x),
                                pc: pc2,
                                ..pre
                            },
                            StepOutcome::Continue,
                        ),
                    )
                } else {
                    Err(Chip8Error::OutOfBounds)
                }
            } else if low == 0x65 {
                if pre.index + x < 4096 {
                    Ok(
                        (
                            CpuView {
                                v: load_regs(pre.v, pre.mem, pre.index as int, x),
                                pc: pc2,
                                ..pre
                            },
                            StepOutcome::Continue,
                        ),
                    )
                } else {
                    Err(Chip8Error::OutOfBounds)
                }
            } else if low == 0x1E {
                Ok(
                    (
                        CpuView {
                            index: ((pre.index + pre.v[x]) % 0x10000) as u16,
                            pc: pc2,
                            ..pre
                        },
                        StepOutcome::Continue,
                    ),
                )
            } else if low == 0x0A {
                let hk = highest_key(pre.keypad, 16);
                if hk >= 0 {
                    Ok(
                        (
                            CpuView {
                                v: pre.v.update(x, hk as u8),
                                keypressed: true,
                                pc: pc2,
                                ..pre
                            },
                            StepOutcome::Continue,
                        ),
                    )
                } else {
                    Ok((CpuView { keypressed: false, ..pre }, StepOutcome::Continue))
                }
            } else if low == 0x15 {
                Ok((CpuView { dt: pre.v[x], pc: pc2, ..pre }, StepOutcome::Continue))
            } else {
                Err(Chip8Error::UnknownOpcode(op))
            }
        } else {
            Err(Chip8Error::UnknownOpcode(op))
        }
    }
}

/// How one `cycle` call relates the old and new state: the successful
/// transition is applied and its outcome returned, or the error is
/// returned and the state stands still.
pub open spec fn step_apply(
    pre: CpuView,
    post: CpuView,
    rand: u8,
    r: Result<StepOutcome, Chip8Error>,
) -> bool {
    match step_spec(pre, rand) {
        Ok((s, out)) => post == s && r == Result::<StepOutcome, Chip8Error>::Ok(out),
        Err(e) => post == pre && r == Result::<StepOutcome, Chip8Error>::Err(e),
    }
}

/// Relies on rand::Rng::gen_range over rand::thread_rng: a byte drawn from
/// the half-open range [0, 255), which is never empty, so the call cannot
/// panic; nothing further is promised of the draw.
#[verifier::external_body]
fn random_below_255() -> (r: u8)
    ensures
        r < 255,
{
    rand::thread_rng().gen_range(0..255)
}

impl Cpu {
    /// Fetch: the big-endian opcode composed of the bytes at `pc` and
    /// `pc + 1`, or `OutOfBounds` when they are not both in memory.
    pub fn fetch(&self) -> (r: Result<u16, Chip8Error>)
        requires
            self@.wf(),
        ensures
            r is Ok <==> self@.pc + 1 < 4096,
            r is Ok ==> r == Result::<u16, Chip8Error>::Ok(opcode_at(self@.mem, self@.pc as int)),
            r is Err ==> r == Result::<u16, Chip8Error>::Err(Chip8Error::OutOfBounds),
    {
        if self.pc >= 4095 {
            return Err(Chip8Error::OutOfBounds);
        }
        let a = self.mem[self.pc as usize];
        let b = self.mem[self.pc as usize + 1];
        Ok(((a as u16) << 8) | (b as u16))
    }

    /// One instruction cycle: fetch, decode, dispatch to exactly one
    /// handler. The contract says that some admissible draw of the random
    /// byte explains the call: the state moved along `step_spec` and the
    /// outcome was returned, or the cycle failed as `step_spec` says and
    /// the state is untouched. Only the random instruction actually
    /// consumes the draw; every other opcode transitions the same way for
    /// every byte.
    pub fn cycle(&mut self) -> (r: Result<StepOutcome, Chip8Error>)
        requires
            old(self)@.wf(),
        ensures
            final(self)@.wf(),
            exists|b: u8| b < 255 && step_apply(old(self)@, final(self)@, b, r),
    {
        let op = match self.fetch() {
            Ok(op) => op,
            Err(e) => {
                proof {
                    assert(step_apply(old(self)@, self@, 0u8, Err(e)));
                }
                return Err(e);
            },
        };
        let nnn = get_nnn(op);
        let nn = get_nn(op);
        let n = get_n(op);
        let x = get_vx(op);
        let y = get_vy(op);
        let top = op & 0xF000;
        if top == 0x0000 {
            let low = op & 0x00FF;
            if low == 0xE0 {
                self.ins_0x00E0();
                proof {
                    assert(step_apply(old(self)@, self@, 0u8, Ok(StepOutcome::Continue)));
                }
                Ok(StepOutcome::Continue)
            } else if low == 0xEE {
                let r = self.ins_0x00EE();
                match r {
                    Ok(_) => {
                        proof {
                            assert(step_apply(old(self)@, self@, 0u8, Ok(StepOutcome::Continue)));
                        }
                        Ok(StepOutcome::Continue)
                    },
                    Err(e) => {
                        proof {
                            assert(step_apply(old(self)@, self@, 0u8, Err(e)));
                        }
                        Err(e)
                    },
                }
            } else if low == 0xFD {
                let out = self.ins_0x00FD();
                proof {
                    assert(step_apply(old(self)@, self@, 0u8, Ok(StepOutcome::Halt)));
                }
                Ok(out)
            } else if low == 0xFE {
                self.ins_0x00FE();
                proof {
                    assert(step_apply(old(self)@, self@, 0u8, Ok(StepOutcome::Continue)));
                }
                Ok(StepOutcome::Continue)
            } else if low == 0xFF {
                self.ins_0x00FF();
                proof {
                    assert(step_apply(old(self)@, self@, 0u8, Ok(StepOutcome::Continue)));
                }
                Ok(StepOutcome::Continue)
            } else {
                proof {
                    assert(step_apply(old(self)@, self@, 0u8, Err(Chip8Error::UnknownOpcode(op))));
                }
                Err(Chip8Error::UnknownOpcode(op))
            }
        } else if top == 0x1000 {
            self.ins_0x1000(nnn);
            proof {
                assert(step_apply(old(self)@, self@, 0u8, Ok(StepOutcome::Continue)));
            }
            Ok(StepOutcome::Continue)
        } else if top == 0x2000 {
            let r = self.ins_0x2000(nnn);
            match r {
                Ok(_) => {
                    proof {
                        assert(step_apply(old(self)@, self@, 0u8, Ok(StepOutcome::Continue)));
                    }
                    Ok(StepOutcome::Continue)
                },
                Err(e) => {
                    proof {
                        assert(step_apply(old(self)@, self@, 0u8, Err(e)));
                    }
                    Err(e)
                },
            }
        } else if top == 0x3000 {
            self.ins_0x3000(x, nn);
            proof {
                assert(step_apply(old(self)@, self@, 0u8, Ok(StepOutcome::Continue)));
            }
            Ok(StepOutcome::Continue)
        } else if top == 0x4000 {
            self.ins_0x4000(x, nn);
            proof {
                assert(step_apply(old(self)@, self@, 0u8, Ok(StepOutcome::Continue)));
            }
            Ok(StepOutcome::Continue)
        } else if top == 0x5000 {
            self.ins_0x5000(x, y);
            proof {
                assert(step_apply(old(self)@, self@, 0u8, Ok(StepOutcome::Continue)));
            }
            Ok(StepOutcome::Continue)
        } else if top == 0x6000 {
            self.ins_0x6000(x, nn);
            proof {
                assert(step_apply(old(self)@, self@, 0u8, Ok(StepOutcome::Continue)));
            }
            Ok(StepOutcome::Continue)
        } else if top == 0x7000 {
            self.ins_0x7000(x, nn);
            proof {
                assert(step_apply(old(self)@, self@, 0u8, Ok(StepOutcome::Continue)));
            }
            Ok(StepOutcome::Continue)
        } else if top == 0x8000 {
            let low = op & 0x000F;
            if low == 0x0 {
                self.ins_0x8000(x, y);
                proof {
                    assert(step_apply(old(self)@, self@, 0u8, Ok(StepOutcome::Continue)));
                }
                Ok(StepOutcome::Continue)
            } else if low == 0x1 {
                self.ins_0x8001(x, y);
                proof {
                    assert(step_apply(old(self)@, self@, 0u8, Ok(StepOutcome::Continue)));
                }
                Ok(StepOutcome::Continue)
            } else if low == 0x2 {
                self.ins_0x8002(x, y);
                proof {
                    assert(step_apply(old(self)@, self@, 0u8, Ok(StepOutcome::Continue)));
                }
                Ok(StepOutcome::Continue)
            } else if low == 0x3 {
                self.ins_0x8003(x, y);
                proof {
                    assert(step_apply(old(self)@, self@, 0u8, Ok(StepOutcome::Continue)));
                }
                Ok(StepOutcome::Continue)
            } else if low == 0x4 {
                self.ins_0x8004(x, y);
                proof {
                    assert(step_apply(old(self)@, self@, 0u8, Ok(StepOutcome::Continue)));
                }
                Ok(StepOutcome::Continue)
            } else if low == 0x5 {
                self.ins_0x8005(x, y);
                proof {
                    assert(step_apply(old(self)@, self@, 0u8, Ok(StepOutcome::Continue)));
                }
                Ok(StepOutcome::Continue)
            } else if low == 0x6 {
                self.ins_0x8006(x, y);
                proof {
                    assert(step_apply(old(self)@, self@, 0u8, Ok(StepOutcome::Continue)));
                }
                Ok(StepOutcome::Continue)
            } else if low == 0x7 {
                self.ins_0x8007(x, y);
                proof {
                    assert(step_apply(old(self)@, self@, 0u8, Ok(StepOutcome::Continue)));
                }
                Ok(StepOutcome::Continue)
            } else if low == 0xE {
                self.ins_0x800E(x);
                proof {
                    assert(step_apply(old(self)@, self@, 0u8, Ok(StepOutcome::Continue)));
                }
                Ok(StepOutcome::Continue)
            } else {
                proof {
                    assert(step_apply(old(self)@, self@, 0u8, Err(Chip8Error::UnknownOpcode(op))));
                }
                Err(Chip8Error::UnknownOpcode(op))
            }
        } else if top == 0x9000 {
            self.ins_0x9000(x, y);
            proof {
                assert(step_apply(old(self)@, self@, 0u8, Ok(StepOutcome::Continue)));
            }
            Ok(StepOutcome::Continue)
        } else if top == 0xA000 {
            self.ins_0xA000(nnn);
            proof {
                assert(step_apply(old(self)@, self@, 0u8, Ok(StepOutcome::Continue)));
            }
            Ok(StepOutcome::Continue)
        } else if top == 0xB000 {
            self.ins_0xB000(nnn);
            proof {
                assert(step_apply(old(self)@, self@, 0u8, Ok(StepOutcome::Continue)));
            }
            Ok(StepOutcome::Continue)
        } else if top == 0xC000 {
            let rnd = random_below_255();
            self.ins_0xC000(x, nn, rnd);
            proof {
                assert(step_apply(old(self)@, self@, rnd, Ok(StepOutcome::Continue)));
            }
            Ok(StepOutcome::Continue)
        } else if top == 0xD000 {
            let r = self.ins_D000(x, y, n);
            match r {
                Ok(_) => {
                    proof {
                        assert(step_apply(old(self)@, self@, 0u8, Ok(StepOutcome::Continue)));
                    }
                    Ok(StepOutcome::Continue)
                },
                Err(e) => {
                    proof {
                        assert(step_apply(old(self)@, self@, 0u8, Err(e)));
                    }
                    Err(e)
                },
            }
        } else if top == 0xE000 {
            let low = op & 0x00FF;
            if low == 0x9E {
                let r = self.ins_0xE9E(x);
                match r {
                    Ok(_) => {
                        proof {
                            assert(step_apply(old(self)@, self@, 0u8, Ok(StepOutcome::Continue)));
                        }
                        Ok(StepOutcome::Continue)
                    },
                    Err(e) => {
                        proof {
                            assert(step_apply(old(self)@, self@, 0u8, Err(e)));
                        }
                        Err(e)
                    },
                }
            } else if low == 0xA1 {
                let r = self.ins_0xEXA1(x);
                match r {
                    Ok(_) => {
                        proof {
                            assert(step_apply(old(self)@, self@, 0u8, Ok(StepOutcome::Continue)));
                        }
                        Ok(StepOutcome::Continue)
                    },
                    Err(e) => {
                        proof {
                            assert(step_apply(old(self)@, self@, 0u8, Err(e)));
                        }
                        Err(e)
                    },
                }
            } else {
                proof {
                    assert(step_apply(old(self)@, self@, 0u8, Err(Chip8Error::UnknownOpcode(op))));
                }
                Err(Chip8Error::UnknownOpcode(op))
            }
        } else if top == 0xF000 {
            let low = op & 0x00FF;
            if low == 0x07 {
                let dt = self.dt;
                self.v[x as usize] = dt;
                self.pc = self.pc + 2;
                proof {
                    assert(step_apply(old(self)@, self@, 0u8, Ok(StepOutcome::Continue)));
                }
                Ok(StepOutcome::Continue)
            } else if low == 0x18 {
                self.pc = self.pc + 2;
                proof {
                    assert(step_apply(old(self)@, self@, 0u8, Ok(StepOutcome::Continue)));
                }
                Ok(StepOutcome::Continue)
            } else if low == 0x29 {
                self.ins_0xF029(x);
                proof {
                    assert(step_apply(old(self)@, self@, 0u8, Ok(StepOutcome::Continue)));
                }
                Ok(StepOutcome::Continue)
            } else if low == 0x33 {
                let r = self.ins_F033(x);
                match r {
                    Ok(_) => {
                        proof {
                            assert(step_apply(old(self)@, self@, 0u8, Ok(StepOutcome::Continue)));
                        }
                        Ok(StepOutcome::Continue)
                    },
                    Err(e) => {
                        proof {
                            assert(step_apply(old(self)@, self@, 0u8, Err(e)));
                        }
                        Err(e)
                    },
                }
            } else if low == 0x55 {
                let r = self.ins_F055(x);
                match r {
                    Ok(_) => {
                        proof {
                            assert(self@.mem =~= dump_regs(
                                old(self)@.mem,
                                old(self)@.v,
                                old(self)@.index as int,
                                x as int,
                            ));
                            assert(step_apply(old(self)@, self@, 0u8, Ok(StepOutcome::Continue)));
                        }
                        Ok(StepOutcome::Continue)
                    },
                    Err(e) => {
                        proof {
                            assert(step_apply(old(self)@, self@, 0u8, Err(e)));
                        }
                        Err(e)
                    },
                }
            } else if low == 0x65 {
                let r = self.ins_F065(x);
                match r {
                    Ok(_) => {
                        proof {
                            assert(self@.v =~= load_regs(
                                old(self)@.v,
                                old(self)@.mem,
                                old(self)@.index as int,
                                x as int,
                            ));
                            assert(step_apply(old(self)@, self@, 0u8, Ok(StepOutcome::Continue)));
                        }
                        Ok(StepOutcome::Continue)
                    },
                    Err(e) => {
                        proof {
                            assert(step_apply(old(self)@, self@, 0u8, Err(e)));
                        }
                        Err(e)
                    },
                }
            } else if low == 0x1E {
                self.ins_0xF01E(x);
                proof {
                    assert(step_apply(old(self)@, self@, 0u8, Ok(StepOutcome::Continue)));
                }
                Ok(StepOutcome::Continue)
            } else if low == 0x0A {
                self.ins_0xF00A(x);
                proof {
                    assert(step_apply(old(self)@, self@, 0u8, Ok(StepOutcome::Continue)));
                }
                Ok(StepOutcome::Continue)
            } else if low == 0x15 {
                let vx = self.v[x as usize];
                self.dt = vx;
                self.pc = self.pc + 2;
                proof {
                    assert(step_apply(old(self)@, self@, 0u8, Ok(StepOutcome::Continue)));
                }
                Ok(StepOutcome::Continue)
            } else {
                proof {
                    assert(step_apply(old(self)@, self@, 0u8, Err(Chip8Error::UnknownOpcode(op))));
                }
                Err(Chip8Error::UnknownOpcode(op))
            }
        } else {
            proof {
                assert(step_apply(old(self)@, self@, 0u8, Err(Chip8Error::UnknownOpcode(op))));
            }
            Err(Chip8Error::UnknownOpcode(op))
        }
    }
}

} // verus!
