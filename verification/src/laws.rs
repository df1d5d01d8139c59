//! Laws of the machine that relate several operations: the wrap-around
//! identity of add-immediate, the idempotence of sprite drawing, the
//! call/return stack discipline, the stack limits, and the wait-for-key
//! suspension. Each is stated over the same spec functions the handlers'
//! contracts use, and proved from them.

use vstd::arithmetic::div_mod::lemma_mod_sub_multiples_vanish;
use vstd::arithmetic::div_mod::lemma_small_mod;
use vstd::prelude::*;

use crate::cpu::CpuView;
use crate::decode::opcode_at;
use crate::decode::x_of;
use crate::draw::draw_collision;
use crate::draw::draw_display;
use crate::draw::flip;
use crate::draw::hit_upto;
use crate::draw::lemma_target_bound;
use crate::draw::processed_before;
use crate::draw::sprite_bit;
use crate::draw::target_idx;
use crate::exec::call_step;
use crate::exec::highest_key;
use crate::exec::lemma_highest_key;
use crate::exec::ret_step;
use crate::exec::wrap_add8;
use crate::step::step_spec;
use crate::Chip8Error;
use crate::StepOutcome;

verus! {

/// The byte `256 - b`, reduced modulo 256: the additive inverse of `b` in
/// the wrapping byte arithmetic of add-immediate.
pub open spec fn neg8(b: u8) -> u8 {
    ((256 - b) % 256) as u8
}

/// Remainders modulo 256 of sums of two bytes, written out.
proof fn lemma_mod256_small(x: int)
    requires
        0 <= x < 512,
    ensures
        x % 256 == if x < 256 {
            x
        } else {
            x - 256
        },
{
    if x < 256 {
        lemma_small_mod(x as nat, 256);
    } else {
        lemma_mod_sub_multiples_vanish(x, 256);
        lemma_small_mod((x - 256) as nat, 256);
    }
}

/// Law: adding `b` to a byte and then adding `256 - b` (reduced modulo
/// 256) returns the byte to its original value.
pub proof fn lemma_add_immediate_roundtrip(r: u8, b: u8)
    ensures
        wrap_add8(wrap_add8(r, b), neg8(b)) == r,
{
    lemma_mod256_small(r + b);
    lemma_mod256_small(256 - b);
    lemma_mod256_small(wrap_add8(r, b) + neg8(b));
}

/// Law: the add-immediate instruction with `b`, followed by add-immediate
/// on the same register with `256 - b`, returns the whole register file to
/// its original state. The two updates are exactly what `ins_0x7000`
/// ensures for the two calls.
pub proof fn lemma_add_immediate_wraps_back(pre: CpuView, x: int, b: u8)
    requires
        pre.wf(),
        0 <= x < 16,
    ensures
        ({
            let mid = pre.v.update(x, wrap_add8(pre.v[x], b));
            mid.update(x, wrap_add8(mid[x], neg8(b))) == pre.v
        }),
{
    lemma_add_immediate_roundtrip(pre.v[x], b);
    let mid = pre.v.update(x, wrap_add8(pre.v[x], b));
    assert(mid.update(x, wrap_add8(mid[x], neg8(b))) =~= pre.v);
}

/// Law: drawing the same sprite twice — same memory, index, origin and
/// height — returns every framebuffer pixel to its prior state, because
/// each targeted pixel is XORed exactly once per draw; and the second
/// draw's collision flag reports exactly whether the first draw switched
/// some pixel on (those are the set pixels the first draw created, and the
/// only ones the second can collide with).
pub proof fn lemma_draw_idempotent(d0: Seq<u8>, mem: Seq<u8>, index: int, px: u8, py: u8, n: int)
    requires
        d0.len() == 2048,
        forall|i: int| 0 <= i < 2048 ==> d0[i] <= 1,
        0 <= n < 16,
    ensures
        draw_display(draw_display(d0, mem, index, px, py, n), mem, index, px, py, n) == d0,
        draw_collision(draw_display(d0, mem, index, px, py, n), mem, index, px, py, n) <==> (
        exists|row: int, col: int|
            #![trigger sprite_bit(mem[index + row], col), target_idx(px, py, row, col)]
            0 <= row < n && 0 <= col < 8 && sprite_bit(mem[index + row], col) && d0[target_idx(
                px,
                py,
                row,
                col,
            )] == 0),
{
    let d1 = draw_display(d0, mem, index, px, py, n);
    let d2 = draw_display(d1, mem, index, px, py, n);
    assert forall|p: int| 0 <= p < 2048 implies d2[p] == d0[p] by {
        if hit_upto(mem, index, px, py, n, 0, p) {
            assert(d2[p] == flip(flip(d0[p])));
        }
    }
    assert(d2 =~= d0);
    if draw_collision(d1, mem, index, px, py, n) {
        let (row, col) = choose|row: int, col: int|
            0 <= row && 0 <= col < 8 && processed_before(row, col, n, 0) && sprite_bit(
                mem[index + row],
                col,
            ) && d1[target_idx(px, py, row, col)] == 1;
        let p = target_idx(px, py, row, col);
        lemma_target_bound(px, py, row, col);
        assert(hit_upto(mem, index, px, py, n, 0, p));
        assert(d1[p] == flip(d0[p]));
        assert(d0[p] == 0);
    }
    if exists|row: int, col: int|
        #![trigger sprite_bit(mem[index + row], col), target_idx(px, py, row, col)]
        0 <= row < n && 0 <= col < 8 && sprite_bit(mem[index + row], col) && d0[target_idx(
            px,
            py,
            row,
            col,
        )] == 0 {
        let (row, col) = choose|row: int, col: int|
            0 <= row < n && 0 <= col < 8 && sprite_bit(mem[index + row], col) && d0[target_idx(
                px,
                py,
                row,
                col,
            )] == 0;
        let p = target_idx(px, py, row, col);
        lemma_target_bound(px, py, row, col);
        assert(processed_before(row, col, n, 0));
        assert(hit_upto(mem, index, px, py, n, 0, p));
        assert(d1[p] == 1);
        assert(draw_collision(d1, mem, index, px, py, n));
    }
}

/// The machine state after a run of call transitions, one per address,
/// taken left to right.
pub open spec fn apply_calls(pre: CpuView, addrs: Seq<u16>) -> CpuView
    decreases addrs.len(),
{
    if addrs.len() == 0 {
        pre
    } else {
        apply_calls(call_step(pre, addrs[0]), addrs.subrange(1, addrs.len() as int))
    }
}

/// The machine state after `k` return transitions.
pub open spec fn apply_returns(pre: CpuView, k: nat) -> CpuView
    decreases k,
{
    if k == 0 {
        pre
    } else {
        apply_returns(ret_step(pre), (k - 1) as nat)
    }
}

/// Peeling the last of `k + 1` returns off the end.
proof fn lemma_returns_snoc(pre: CpuView, k: nat)
    ensures
        apply_returns(pre, (k + 1) as nat) == ret_step(apply_returns(pre, k)),
    decreases k,
{
    if k == 0 {
        assert(apply_returns(pre, 1) == apply_returns(ret_step(pre), 0));
    } else {
        lemma_returns_snoc(ret_step(pre), (k - 1) as nat);
        assert(apply_returns(pre, (k + 1) as nat) == apply_returns(ret_step(pre), k));
        assert(apply_returns(pre, k) == apply_returns(ret_step(pre), (k - 1) as nat));
    }
}

/// Law: one call followed by one return leaves the program counter exactly
/// two bytes past the call site, with the stack as it was.
pub proof fn lemma_call_then_return(pre: CpuView, nnn: u16)
    ensures
        ret_step(call_step(pre, nnn)) == (CpuView {
            pc: (pre.pc + 2) as u16,
            ..pre
        }),
{
    assert(pre.stack.push(pre.pc).drop_last() =~= pre.stack);
}

/// Law: a sequence of nested calls that fits the 16-slot stack, followed
/// by as many returns, restores the stack and leaves the program counter
/// two bytes past the first call site — each return resumes just after its
/// matching call.
pub proof fn lemma_calls_then_returns(pre: CpuView, addrs: Seq<u16>)
    requires
        pre.stack.len() + addrs.len() <= 16,
        addrs.len() > 0,
    ensures
        apply_returns(apply_calls(pre, addrs), addrs.len()) == (CpuView {
            pc: (pre.pc + 2) as u16,
            ..pre
        }),
    decreases addrs.len(),
{
    let s1 = call_step(pre, addrs[0]);
    let rest = addrs.subrange(1, addrs.len() as int);
    assert(apply_calls(pre, addrs) == apply_calls(s1, rest));
    if addrs.len() == 1 {
        assert(rest.len() == 0);
        assert(apply_calls(s1, rest) == s1);
        assert(apply_returns(s1, 1) == apply_returns(ret_step(s1), 0));
        assert(apply_returns(ret_step(s1), 0) == ret_step(s1));
        lemma_call_then_return(pre, addrs[0]);
    } else {
        lemma_calls_then_returns(s1, rest);
        let mid = apply_returns(apply_calls(s1, rest), rest.len());
        assert(mid == (CpuView { pc: (s1.pc + 2) as u16, ..s1 }));
        lemma_returns_snoc(apply_calls(s1, rest), rest.len());
        assert((rest.len() + 1) as nat == addrs.len());
        assert(apply_returns(apply_calls(pre, addrs), addrs.len()) == ret_step(mid));
        assert(mid.stack == s1.stack);
        assert(s1.stack.last() == pre.pc);
        assert(s1.stack.drop_last() =~= pre.stack);
        assert(ret_step(mid) == (CpuView { pc: (pre.pc + 2) as u16, ..pre }));
    }
}

/// Law: a call instruction with all 16 stack slots taken fails with
/// `StackOverflow`, and a return instruction with an empty stack fails
/// with `StackUnderflow` — for any state whose program counter can fetch.
pub proof fn lemma_stack_limits(pre: CpuView, b: u8)
    requires
        pre.pc + 1 < 4096,
    ensures
        (opcode_at(pre.mem, pre.pc as int) & 0xF000) == 0x2000 && pre.stack.len() >= 16
            ==> step_spec(pre, b) == Result::<(CpuView, StepOutcome), Chip8Error>::Err(
            Chip8Error::StackOverflow,
        ),
        (opcode_at(pre.mem, pre.pc as int) & 0xF000) == 0x0000 && (opcode_at(
            pre.mem,
            pre.pc as int,
        ) & 0x00FF) == 0xEE && pre.stack.len() == 0 ==> step_spec(pre, b) == Result::<
            (CpuView, StepOutcome),
            Chip8Error,
        >::Err(Chip8Error::StackUnderflow),
{
}

/// Law: while no keypad latch reads 1, a cycle at a wait-for-key
/// instruction does not advance the program counter — the post state is a
/// fixed point of the transition, so any number of further cycles stays
/// put; and once some latch reads 1, a single cycle writes the highest
/// such index into the register and advances the program counter by 2.
pub proof fn lemma_wait_for_key(pre: CpuView, b: u8)
    requires
        pre.wf(),
        pre.pc + 1 < 4096,
        (opcode_at(pre.mem, pre.pc as int) & 0xF000) == 0xF000,
        (opcode_at(pre.mem, pre.pc as int) & 0x00FF) == 0x0A,
    ensures
        (forall|i: int| 0 <= i < 16 ==> pre.keypad[i] != 1) ==> {
            let post = CpuView { keypressed: false, ..pre };
            &&& step_spec(pre, b) == Result::<(CpuView, StepOutcome), Chip8Error>::Ok(
                (post, StepOutcome::Continue),
            )
            &&& post.pc == pre.pc
            &&& step_spec(post, b) == Result::<(CpuView, StepOutcome), Chip8Error>::Ok(
                (post, StepOutcome::Continue),
            )
        },
        (exists|i: int| 0 <= i < 16 && pre.keypad[i] == 1) ==> {
            let hk = highest_key(pre.keypad, 16);
            &&& hk >= 0
            &&& step_spec(pre, b) == Result::<(CpuView, StepOutcome), Chip8Error>::Ok(
                (
                    CpuView {
                        v: pre.v.update(x_of(opcode_at(pre.mem, pre.pc as int)) as int, hk as u8),
                        keypressed: true,
                        pc: (pre.pc + 2) as u16,
                        ..pre
                    },
                    StepOutcome::Continue,
                ),
            )
        },
{
    lemma_highest_key(pre.keypad, 16);
    let post = CpuView { keypressed: false, ..pre };
    assert(opcode_at(post.mem, post.pc as int) == opcode_at(pre.mem, pre.pc as int));
    if highest_key(pre.keypad, 16) < 0 {
        assert(CpuView { keypressed: false, ..post } == post);
    }
}

} // verus!
