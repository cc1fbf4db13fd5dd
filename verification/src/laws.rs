//! Architectural laws: properties that relate instructions to each other or
//! hold of every input, proved once and for all against the model in
//! [`crate::semantics`].

use vstd::prelude::*;

use crate::semantics::draw_gfx;
use crate::semantics::fetched_op;
use crate::semantics::lemma_op_field_bounds;
use crate::semantics::lemma_xor_one;
use crate::semantics::op_hi;
use crate::semantics::op_nnn;
use crate::semantics::spec_cycle;
use crate::semantics::step_add_carry;
use crate::semantics::step_shr;
use crate::semantics::step_sub_borrow;
use crate::semantics::step_sys;
use crate::semantics::Fault;
use crate::semantics::StateView;
use crate::semantics::GFX_SIZE;
use crate::semantics::MEM_SIZE;
use crate::semantics::STACK_LIMIT;

verus! {

/// Add-with-carry, for a destination other than the flag register itself:
/// VF becomes 1 exactly when the unsigned, unwrapped sum exceeds 255, and
/// Vx becomes the sum modulo 256.
pub proof fn lemma_add_with_carry(s: StateView, x: int, y: int)
    requires
        s.wf(),
        0 <= x < 15,
        0 <= y < 16,
    ensures
        step_add_carry(s, x, y).regs[15] == (if s.regs[x] + s.regs[y] > 255 {
            1u8
        } else {
            0u8
        }),
        step_add_carry(s, x, y).regs[x] == (s.regs[x] + s.regs[y]) % 256,
{
}

/// Forward subtract, for a destination other than the flag register
/// itself: VF becomes 0 exactly when Vy >= Vx (a borrow), 1 when Vx > Vy.
pub proof fn lemma_sub_borrow_flag(s: StateView, x: int, y: int)
    requires
        s.wf(),
        0 <= x < 15,
        0 <= y < 16,
    ensures
        step_sub_borrow(s, x, y).regs[15] == (if s.regs[y] >= s.regs[x] {
            0u8
        } else {
            1u8
        }),
{
}

/// Shift right, for a destination other than the flag register itself:
/// Vx becomes its old value shifted right by one and VF takes the bit
/// shifted out.
pub proof fn lemma_shift_right(s: StateView, x: int)
    requires
        s.wf(),
        0 <= x < 15,
    ensures
        step_shr(s, x).regs[x] == s.regs[x] >> 1u8,
        step_shr(s, x).regs[15] == s.regs[x] & 1,
{
}

/// Clear-screen zeroes all 2048 framebuffer cells and alters no register.
pub proof fn lemma_clear_screen(s: StateView, op: u16)
    requires
        s.wf(),
        op_nnn(op) == 0x0E0,
    ensures
        step_sys(s, op) matches Ok(s1) && s1.regs == s.regs && s1.gfx.len() == GFX_SIZE && (forall|
            t: int,
        |
            0 <= t < GFX_SIZE ==> s1.gfx[t] == 0),
{
}

/// Drawing the same sprite at the same location twice returns the
/// framebuffer to exactly what it was: the blit is an XOR, its own
/// inverse.
pub proof fn lemma_draw_twice_restores(gfx: Seq<u8>, mem: Seq<u8>, i: int, x: int, y: int, h: int)
    requires
        gfx.len() == GFX_SIZE,
    ensures
        draw_gfx(draw_gfx(gfx, mem, i, x, y, h), mem, i, x, y, h) == gfx,
{
    let g1 = draw_gfx(gfx, mem, i, x, y, h);
    assert forall|t: int| 0 <= t < GFX_SIZE implies draw_gfx(g1, mem, i, x, y, h)[t] == gfx[t] by {
        lemma_xor_one(gfx[t]);
    }
    assert(draw_gfx(g1, mem, i, x, y, h) =~= gfx);
}

/// A subroutine call followed immediately by a return leaves the program
/// counter at the call instruction's address + 2 and the stack exactly as
/// it was before the call.
pub proof fn lemma_call_then_return(s: StateView, rb1: u8, rb2: u8)
    requires
        s.wf(),
        s.pc + 1 < MEM_SIZE,
        op_hi(fetched_op(s)) == 2,
        s.stack.len() < STACK_LIMIT,
        (spec_cycle(s, rb1) matches Ok(first) && first.0.pc + 1 < MEM_SIZE && fetched_op(first.0)
            == 0x00EE),
    ensures
        (spec_cycle(s, rb1) matches Ok(first) && spec_cycle(first.0, rb2) matches Ok(second) && second.0.pc
            == s.pc + 2 && second.0.stack == s.stack),
{
    let op1 = fetched_op(s);
    lemma_op_field_bounds(op1);
    let first = spec_cycle(s, rb1)->Ok_0;
    let s1 = first.0;
    assert(s1.stack == s.stack.push(s.pc));
    assert(0x00EEu16 >> 12 == 0) by (bit_vector);
    assert(0x00EEu16 & 0x0FFF == 0x0EE) by (bit_vector);
    assert(s.stack.push(s.pc).drop_last() =~= s.stack);
}

/// A subroutine call on a machine whose sixteen stack slots are all in use
/// is a stack-overflow fault, and never a silent push.
pub proof fn lemma_call_overflow(s: StateView, rb: u8)
    requires
        s.wf(),
        s.pc + 1 < MEM_SIZE,
        op_hi(fetched_op(s)) == 2,
        s.stack.len() == STACK_LIMIT,
    ensures
        spec_cycle(s, rb) == Err::<(StateView, bool), Fault>(Fault::StackOverflow),
{
}

/// An unconditional jump nets to exactly the embedded target address: the
/// handler's pre-subtraction and the driver's uniform +2 cancel, for every
/// target including those whose pre-subtraction wraps.
pub proof fn lemma_jump_lands_on_target(s: StateView, rb: u8)
    requires
        s.wf(),
        s.pc + 1 < MEM_SIZE,
        op_hi(fetched_op(s)) == 1,
    ensures
        (spec_cycle(s, rb) matches Ok(first) && first.0.pc == op_nnn(fetched_op(s))),
{
    lemma_op_field_bounds(fetched_op(s));
}

} // verus!
