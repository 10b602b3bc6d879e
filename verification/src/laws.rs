//! Laws of the step semantics, each proved for every machine state and
//! input that its premises admit: immediate visibility of register stores,
//! the call/return round trip, and the self-inverse sprite XOR.

use crate::semantics::{
    lane_for, lemma_blit_rows_char, blit_rows, op_addr, op_kk, op_n, op_top, op_x, op_y,
    spec_step, word_at, MachineV, StepInput,
};
use vstd::prelude::*;

verus! {

/// Bitwise facts on one display word, used by the sprite law.
proof fn lemma_u64_bit_basics(a: u64)
    by (bit_vector)
    ensures
        0u64 & a == 0u64,
        0u64 ^ a == a,
        a ^ a == 0u64,
        a & a == a,
{
}

/// Law: a register store takes effect the moment it executes. After `6xkk`
/// the named register holds `kk`, whatever the timers hold or do; after the
/// immediately following `Fx07` it holds the delay timer as it then stands.
pub proof fn lemma_store_then_read_timer(pre: MachineV, inp1: StepInput, inp2: StepInput)
    requires
        pre.wf(),
        pre.pc + 1 < 4096,
        pre.pc + 3 < 4096,
        op_top(word_at(pre.ram, pre.pc)) == 0x6,
        op_top(word_at(pre.ram, pre.pc + 2)) == 0xF,
        op_kk(word_at(pre.ram, pre.pc + 2)) == 0x07,
        op_x(word_at(pre.ram, pre.pc + 2)) == op_x(word_at(pre.ram, pre.pc)),
    ensures
        spec_step(pre, inp1) is Ok,
        spec_step(pre, inp1)->Ok_0.0.v[op_x(word_at(pre.ram, pre.pc))] == op_kk(
            word_at(pre.ram, pre.pc),
        ),
        spec_step(spec_step(pre, inp1)->Ok_0.0, inp2) is Ok,
        spec_step(spec_step(pre, inp1)->Ok_0.0, inp2)->Ok_0.0.v[op_x(word_at(pre.ram, pre.pc))]
            == spec_step(pre, inp1)->Ok_0.0.dt,
{
    let op = word_at(pre.ram, pre.pc);
    let x = op_x(op);
    let m1 = spec_step(pre, inp1)->Ok_0.0;
    assert(m1.v[x] == op_kk(op));
    assert(m1.ram == pre.ram);
    assert(m1.pc == pre.pc + 2);
}

/// Law: a call and an immediate return restore the flow. After `2aaa` with a
/// fetchable, non-reserved target holding `00EE`, the program counter is
/// back at the instruction after the call and the stack pointer is exactly
/// its pre-call value.
pub proof fn lemma_call_return_round_trip(pre: MachineV, inp1: StepInput, inp2: StepInput)
    requires
        pre.wf(),
        pre.pc + 1 < 4096,
        pre.sp < 32,
        op_top(word_at(pre.ram, pre.pc)) == 0x2,
        op_addr(word_at(pre.ram, pre.pc)) >= 0x200,
        op_addr(word_at(pre.ram, pre.pc)) + 1 < 4096,
        pre.ram[op_addr(word_at(pre.ram, pre.pc))] == 0x00,
        pre.ram[op_addr(word_at(pre.ram, pre.pc)) + 1] == 0xEE,
    ensures
        spec_step(pre, inp1) is Ok,
        spec_step(spec_step(pre, inp1)->Ok_0.0, inp2) is Ok,
        spec_step(spec_step(pre, inp1)->Ok_0.0, inp2)->Ok_0.0.pc == pre.pc + 2,
        spec_step(spec_step(pre, inp1)->Ok_0.0, inp2)->Ok_0.0.sp == pre.sp,
{
    let op = word_at(pre.ram, pre.pc);
    let target = op_addr(op);
    let ret = pre.pc + 2;
    let m1 = spec_step(pre, inp1)->Ok_0.0;
    assert(m1.ram == pre.ram.update(pre.sp, (ret / 256) as u8).update(pre.sp + 1, (ret % 256) as u8));
    assert(m1.ram[target] == 0x00);
    assert(m1.ram[target + 1] == 0xEE);
    assert(word_at(m1.ram, m1.pc) == 0x00EE);
    assert(m1.sp == pre.sp + 2);
    let m2 = spec_step(m1, inp2)->Ok_0.0;
    assert(m1.stack_entry(m1.frames() - 1) == word_at(m1.ram, pre.sp));
    assert(m1.ram[pre.sp] == (ret / 256) as u8);
    assert(m1.ram[pre.sp + 1] == (ret % 256) as u8);
    assert((ret / 256) * 256 + (ret % 256) == ret);
    assert(m2.pc == ret);
}

/// Law: the sprite blit is a self-inverse XOR with faithful collision
/// reporting. On a blank canvas a draw reports no collision; executing the
/// same draw again clears every pixel the first one set and reports a
/// collision, provided some pixel of the sprite lands on the canvas. The
/// coordinate registers must not be the flag register, which drawing
/// overwrites.
pub proof fn lemma_sprite_self_erases(pre: MachineV, inp1: StepInput, inp2: StepInput)
    requires
        pre.wf(),
        pre.pc + 3 < 4096,
        forall|r: int| 0 <= r < 32 ==> pre.vram[r] == 0u64,
        op_top(word_at(pre.ram, pre.pc)) == 0xD,
        op_x(word_at(pre.ram, pre.pc)) != 0xF,
        op_y(word_at(pre.ram, pre.pc)) != 0xF,
        pre.i + op_n(word_at(pre.ram, pre.pc)) <= 4096,
        word_at(pre.ram, pre.pc + 2) == word_at(pre.ram, pre.pc),
        exists|r: int|
            ({
                &&& pre.v[op_y(word_at(pre.ram, pre.pc))] <= r < pre.v[op_y(
                    word_at(pre.ram, pre.pc),
                )] + op_n(word_at(pre.ram, pre.pc))
                &&& r < 32
                &&& #[trigger] lane_for(
                    pre.ram,
                    pre.i as int,
                    pre.v[op_x(word_at(pre.ram, pre.pc))],
                    pre.v[op_y(word_at(pre.ram, pre.pc))],
                    r,
                ) != 0
            }),
    ensures
        spec_step(pre, inp1) is Ok,
        spec_step(pre, inp1)->Ok_0.0.v[0xF] == 0,
        spec_step(spec_step(pre, inp1)->Ok_0.0, inp2) is Ok,
        spec_step(spec_step(pre, inp1)->Ok_0.0, inp2)->Ok_0.0.v[0xF] == 1,
        forall|r: int|
            0 <= r < 32 ==> spec_step(spec_step(pre, inp1)->Ok_0.0, inp2)->Ok_0.0.vram[r] == 0u64,
{
    let op = word_at(pre.ram, pre.pc);
    let x = op_x(op);
    let y = op_y(op);
    let n = op_n(op);
    let col = pre.v[x];
    let row0 = pre.v[y];
    let base = pre.i as int;
    lemma_blit_rows_char(pre.vram, pre.ram, base, col, row0, n);
    let b1 = blit_rows(pre.vram, pre.ram, base, col, row0, n);

    // the first draw sets no collision: every canvas word is zero
    assert(!b1.1) by {
        if b1.1 {
            let rw = choose|r: int|
                row0 <= r < row0 + n && r < 32 && pre.vram[r] & #[trigger] lane_for(
                    pre.ram,
                    base,
                    col,
                    row0,
                    r,
                ) != 0;
            lemma_u64_bit_basics(lane_for(pre.ram, base, col, row0, rw));
        }
    }
    let m1 = spec_step(pre, inp1)->Ok_0.0;
    assert(m1.v[0xF] == 0);
    assert(m1.v[x] == col);
    assert(m1.v[y] == row0);
    assert(m1.ram == pre.ram);
    assert(m1.i == pre.i);
    assert(m1.pc == pre.pc + 2);
    assert(m1.vram == b1.0);

    // after the first draw the drawn band holds exactly the sprite lanes
    assert forall|r: int| 0 <= r < 32 implies #[trigger] m1.vram[r] == (if row0 <= r < row0 + n {
        lane_for(pre.ram, base, col, row0, r)
    } else {
        0u64
    }) by {
        lemma_u64_bit_basics(lane_for(pre.ram, base, col, row0, r));
    }

    // the second draw reads the same opcode and the same sprite bytes
    assert(word_at(m1.ram, m1.pc) == op);
    lemma_blit_rows_char(m1.vram, m1.ram, base, col, row0, n);
    let b2 = blit_rows(m1.vram, m1.ram, base, col, row0, n);

    assert(b2.1) by {
        let rw = choose|r: int|
            ({
                &&& pre.v[op_y(op)] <= r < pre.v[op_y(op)] + op_n(op)
                &&& r < 32
                &&& lane_for(pre.ram, pre.i as int, pre.v[op_x(op)], pre.v[op_y(op)], r) != 0
            });
        lemma_u64_bit_basics(lane_for(pre.ram, base, col, row0, rw));
        assert(m1.vram[rw] == lane_for(pre.ram, base, col, row0, rw));
        assert(m1.vram[rw] & lane_for(m1.ram, base, col, row0, rw) != 0);
    }
    let m2 = spec_step(m1, inp2)->Ok_0.0;
    assert(m2.v[0xF] == 1);
    assert(m2.vram == b2.0);

    // the second XOR of the same lanes restores the blank canvas
    assert forall|r: int| 0 <= r < 32 implies #[trigger] m2.vram[r] == 0u64 by {
        lemma_u64_bit_basics(lane_for(pre.ram, base, col, row0, r));
        if row0 <= r < row0 + n {
            assert(m1.vram[r] == lane_for(pre.ram, base, col, row0, r));
            assert(b2.0[r] == m1.vram[r] ^ lane_for(m1.ram, base, col, row0, r));
        } else {
            assert(b2.0[r] == m1.vram[r]);
        }
    }
}

} // verus!
