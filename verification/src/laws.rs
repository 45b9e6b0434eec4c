//! Laws of the instruction semantics, each proved once and for all inputs:
//! the arithmetic flag rules, the shift flag rules, idempotence of clearing
//! the screen, the register dump/load round trip, and the blocking contract
//! of the wait-for-key state.

use vstd::prelude::*;

use vstd::arithmetic::div_mod::lemma_mod_add_multiples_vanish;

use crate::opcodes::OpCode;
use crate::semantics::{
    blank_screen, spec_exec_op, spec_step, wf_view, ChipError, ChipView, MEM_SIZE,
};

verus! {

/// Adding VY into VX sets VF to 1 exactly when the 8-bit sum overflows, and
/// VX (when it is not VF itself, which the flag overwrites) becomes the sum
/// modulo 256. This holds for every register pair and every pair of values.
pub proof fn lemma_add_reg(v: ChipView, x: u8, y: u8, rnd: u8, keys: Seq<bool>)
    requires
        wf_view(v),
        x < 16,
        y < 16,
    ensures
        spec_exec_op(v, OpCode::_8XY4(x, y), rnd, keys) is Ok,
        ({
            let w = spec_exec_op(v, OpCode::_8XY4(x, y), rnd, keys)->Ok_0;
            &&& w.regs[15] == (if v.regs[x as int] + v.regs[y as int] > 255 {
                1u8
            } else {
                0u8
            })
            &&& x != 15 ==> w.regs[x as int] == (v.regs[x as int] + v.regs[y as int]) % 256
        }),
{
}

/// Subtracting VY from VX sets VF to 0 exactly when a borrow occurs (VX was
/// smaller than VY), 1 otherwise, and VX (when it is not VF itself) becomes
/// the difference modulo 256.
pub proof fn lemma_sub_reg(v: ChipView, x: u8, y: u8, rnd: u8, keys: Seq<bool>)
    requires
        wf_view(v),
        x < 16,
        y < 16,
    ensures
        spec_exec_op(v, OpCode::_8XY5(x, y), rnd, keys) is Ok,
        ({
            let w = spec_exec_op(v, OpCode::_8XY5(x, y), rnd, keys)->Ok_0;
            &&& (w.regs[15] == 0u8) == (v.regs[x as int] < v.regs[y as int])
            &&& x != 15 ==> w.regs[x as int] == (v.regs[x as int] - v.regs[y as int]) % 256
        }),
{
    let a = v.regs[x as int] as int;
    let b = v.regs[y as int] as int;
    lemma_mod_add_multiples_vanish(a - b, 256);
}

/// A right shift always sets VF to the bit it shifts out: the least
/// significant bit of VX as it was before the shift, never a stale flag.
/// VX (when it is not VF itself) becomes its old value halved.
pub proof fn lemma_shift_right(v: ChipView, x: u8, rnd: u8, keys: Seq<bool>)
    requires
        wf_view(v),
        x < 16,
    ensures
        spec_exec_op(v, OpCode::_8XY6(x), rnd, keys) is Ok,
        ({
            let w = spec_exec_op(v, OpCode::_8XY6(x), rnd, keys)->Ok_0;
            &&& w.regs[15] == v.regs[x as int] % 2
            &&& x != 15 ==> w.regs[x as int] == v.regs[x as int] / 2
        }),
{
}

/// A left shift always sets VF to the bit it shifts out: the most
/// significant bit of VX as it was before the shift, never a stale flag.
/// VX (when it is not VF itself) becomes its old value doubled modulo 256.
pub proof fn lemma_shift_left(v: ChipView, x: u8, rnd: u8, keys: Seq<bool>)
    requires
        wf_view(v),
        x < 16,
    ensures
        spec_exec_op(v, OpCode::_8XYE(x), rnd, keys) is Ok,
        ({
            let w = spec_exec_op(v, OpCode::_8XYE(x), rnd, keys)->Ok_0;
            &&& w.regs[15] == v.regs[x as int] / 128
            &&& x != 15 ==> w.regs[x as int] == (2 * v.regs[x as int]) % 256
        }),
{
}

/// Clearing the screen twice in a row leaves exactly the all-off framebuffer
/// that clearing it once leaves, and the second clear changes nothing at all.
pub proof fn lemma_clear_screen_idempotent(
    v: ChipView,
    rnd1: u8,
    rnd2: u8,
    keys1: Seq<bool>,
    keys2: Seq<bool>,
)
    requires
        wf_view(v),
    ensures
        spec_exec_op(v, OpCode::_00E0, rnd1, keys1) is Ok,
        ({
            let w1 = spec_exec_op(v, OpCode::_00E0, rnd1, keys1)->Ok_0;
            let w2 = spec_exec_op(w1, OpCode::_00E0, rnd2, keys2)->Ok_0;
            &&& w1.screen == blank_screen()
            &&& w2 == w1
        }),
{
}

/// Dumping registers V0..=VX to memory and loading them straight back over
/// the same VX and I restores the register file exactly; the dump itself
/// never changes a register and leaves I where it was.
pub proof fn lemma_dump_load_round_trip(
    v: ChipView,
    x: u8,
    rnd1: u8,
    rnd2: u8,
    keys1: Seq<bool>,
    keys2: Seq<bool>,
)
    requires
        wf_view(v),
        x < 16,
        v.i + x + 1 <= MEM_SIZE,
    ensures
        spec_exec_op(v, OpCode::_FX55(x), rnd1, keys1) is Ok,
        ({
            let w1 = spec_exec_op(v, OpCode::_FX55(x), rnd1, keys1)->Ok_0;
            &&& w1.regs == v.regs
            &&& w1.i == v.i
            &&& spec_exec_op(w1, OpCode::_FX65(x), rnd2, keys2) is Ok
            &&& (spec_exec_op(w1, OpCode::_FX65(x), rnd2, keys2)->Ok_0).regs == v.regs
        }),
{
    let w1 = spec_exec_op(v, OpCode::_FX55(x), rnd1, keys1)->Ok_0;
    let w2 = spec_exec_op(w1, OpCode::_FX65(x), rnd2, keys2)->Ok_0;
    assert(w2.regs =~= v.regs);
}

/// While the machine is suspended waiting for a key press, a step moves
/// nothing: the program counter, every register, and all the rest of the
/// state stay exactly as they are.
pub proof fn lemma_wait_blocks(v: ChipView, keys: Seq<bool>, rnd: u8)
    requires
        v.waiting is Some,
    ensures
        spec_step(v, keys, rnd) == Ok::<ChipView, ChipError>(v),
{
}

/// Executing the wait-for-key instruction only suspends the machine: it
/// names the register the key will land in, and touches neither the program
/// counter nor any register value.
pub proof fn lemma_wait_for_key_suspends(v: ChipView, x: u8, rnd: u8, keys: Seq<bool>)
    requires
        wf_view(v),
        x < 16,
    ensures
        spec_exec_op(v, OpCode::_FX0A(x), rnd, keys) is Ok,
        ({
            let w = spec_exec_op(v, OpCode::_FX0A(x), rnd, keys)->Ok_0;
            w == (ChipView { waiting: Some(x), ..v })
        }),
{
}

} // verus!
