//! Laws of the interpreter, proved once for every machine state.

use vstd::prelude::*;

use crate::cpu::{load_window, reset_memory, step_of, store_window, wrap16, CpuView};
use crate::decode::{spec_decode, Instr};
use crate::ppu::font_seq;

verus! {

/// Writing a register with the load-immediate instruction stores exactly
/// that byte: for every state and every `x` and `kk`, dispatching `6xkk`
/// leaves `kk` in Vx and advances the program counter by exactly 2.
pub proof fn lemma_load_immediate(pre: CpuView, x: u8, kk: u8)
    requires
        pre.wf(),
        x < 16,
    ensures
        ({
            let op = 0x6000u16 | ((x as u16) << 8u16) | (kk as u16);
            let post = step_of(pre, op);
            &&& post.v[x as int] == kk
            &&& post.pc == wrap16(pre.pc + 2)
        }),
{
    let op = 0x6000u16 | ((x as u16) << 8u16) | (kk as u16);
    assert(op != 0x00E0 && op != 0x00EE && op >> 12u16 == 6 && ((op >> 8u16) & 0xF) == x && (op
        & 0xFF) == kk) by (bit_vector)
        requires
            op == 0x6000u16 | ((x as u16) << 8u16) | (kk as u16),
            x < 16,
    ;
    assert(spec_decode(op) == Instr::SetByte { x, kk });
}

/// A call followed by a return round-trips: dispatching `2nnn` and then
/// `00EE` brings the program counter to the call site plus 2 and the stack
/// pointer back to its pre-call value.
pub proof fn lemma_call_then_ret(pre: CpuView, nnn: u16)
    requires
        pre.wf(),
        pre.sp < 16,
        nnn < 4096,
    ensures
        ({
            let call_op = 0x2000u16 | nnn;
            let mid = step_of(pre, call_op);
            let post = step_of(mid, 0x00EE);
            &&& mid.pc == nnn
            &&& mid.sp == pre.sp + 1
            &&& mid.stack[pre.sp as int] == pre.pc
            &&& post.pc == wrap16(pre.pc + 2)
            &&& post.sp == pre.sp
        }),
{
    let call_op = 0x2000u16 | nnn;
    assert(call_op != 0x00E0 && call_op != 0x00EE && call_op >> 12u16 == 2 && (call_op & 0xFFF)
        == nnn) by (bit_vector)
        requires
            call_op == 0x2000u16 | nnn,
            nnn < 4096,
    ;
    assert(spec_decode(call_op) == Instr::Call { nnn });
    assert(spec_decode(0x00EE) == Instr::Ret);
}

/// The four conditional skips advance the program counter by 4 exactly
/// when their condition holds, and by 2 otherwise: `3xkk` on Vx == kk,
/// `4xkk` on Vx != kk, `5xy0` on Vx == Vy, `9xy0` on Vx != Vy.
pub proof fn lemma_skip_conditions(pre: CpuView, x: u8, y: u8, kk: u8)
    requires
        pre.wf(),
        x < 16,
        y < 16,
    ensures
        ({
            let op = 0x3000u16 | ((x as u16) << 8u16) | (kk as u16);
            step_of(pre, op).pc == wrap16(
                pre.pc + if pre.v[x as int] == kk {
                    4int
                } else {
                    2int
                },
            )
        }),
        ({
            let op = 0x4000u16 | ((x as u16) << 8u16) | (kk as u16);
            step_of(pre, op).pc == wrap16(
                pre.pc + if pre.v[x as int] != kk {
                    4int
                } else {
                    2int
                },
            )
        }),
        ({
            let op = 0x5000u16 | ((x as u16) << 8u16) | ((y as u16) << 4u16);
            step_of(pre, op).pc == wrap16(
                pre.pc + if pre.v[x as int] == pre.v[y as int] {
                    4int
                } else {
                    2int
                },
            )
        }),
        ({
            let op = 0x9000u16 | ((x as u16) << 8u16) | ((y as u16) << 4u16);
            step_of(pre, op).pc == wrap16(
                pre.pc + if pre.v[x as int] != pre.v[y as int] {
                    4int
                } else {
                    2int
                },
            )
        }),
{
    let op3 = 0x3000u16 | ((x as u16) << 8u16) | (kk as u16);
    assert(op3 != 0x00E0 && op3 != 0x00EE && op3 >> 12u16 == 3 && ((op3 >> 8u16) & 0xF) == x && (
    op3 & 0xFF) == kk) by (bit_vector)
        requires
            op3 == 0x3000u16 | ((x as u16) << 8u16) | (kk as u16),
            x < 16,
    ;
    assert(spec_decode(op3) == Instr::SkipEqByte { x, kk });
    let op4 = 0x4000u16 | ((x as u16) << 8u16) | (kk as u16);
    assert(op4 != 0x00E0 && op4 != 0x00EE && op4 >> 12u16 == 4 && ((op4 >> 8u16) & 0xF) == x && (
    op4 & 0xFF) == kk) by (bit_vector)
        requires
            op4 == 0x4000u16 | ((x as u16) << 8u16) | (kk as u16),
            x < 16,
    ;
    assert(spec_decode(op4) == Instr::SkipNeByte { x, kk });
    let op5 = 0x5000u16 | ((x as u16) << 8u16) | ((y as u16) << 4u16);
    assert(op5 != 0x00E0 && op5 != 0x00EE && op5 >> 12u16 == 5 && ((op5 >> 8u16) & 0xF) == x && ((
    op5 >> 4u16) & 0xF) == y) by (bit_vector)
        requires
            op5 == 0x5000u16 | ((x as u16) << 8u16) | ((y as u16) << 4u16),
            x < 16,
            y < 16,
    ;
    assert(spec_decode(op5) == Instr::SkipEqReg { x, y });
    let op9 = 0x9000u16 | ((x as u16) << 8u16) | ((y as u16) << 4u16);
    assert(op9 != 0x00E0 && op9 != 0x00EE && op9 >> 12u16 == 9 && ((op9 >> 8u16) & 0xF) == x && ((
    op9 >> 4u16) & 0xF) == y) by (bit_vector)
        requires
            op9 == 0x9000u16 | ((x as u16) << 8u16) | ((y as u16) << 4u16),
            x < 16,
            y < 16,
    ;
    assert(spec_decode(op9) == Instr::SkipNeReg { x, y });
}

/// Storing a register window into memory and loading the same window back
/// round-trips: the first `count` registers come back as they were stored,
/// and every register at or above `count` keeps the value it had in the
/// register file the load ran on.
pub proof fn lemma_store_then_load(
    regs: Seq<u8>,
    fresh: Seq<u8>,
    mem: Seq<u8>,
    base: int,
    count: int,
)
    requires
        regs.len() == 16,
        fresh.len() == 16,
        mem.len() == 4096,
        0 <= base,
        0 <= count <= 16,
        base + count <= 4096,
    ensures
        forall|k: int|
            0 <= k < count ==> load_window(fresh, store_window(mem, regs, base, count), base, count)[k]
                == regs[k],
        forall|k: int|
            count <= k < 16 ==> load_window(
                fresh,
                store_window(mem, regs, base, count),
                base,
                count,
            )[k] == fresh[k],
{
    let stored = store_window(mem, regs, base, count);
    let loaded = load_window(fresh, stored, base, count);
    assert forall|k: int| 0 <= k < count implies loaded[k] == regs[k] by {
        assert(loaded[k] == stored[base + k]);
        assert(stored[base + k] == regs[k]);
    }
    assert forall|k: int| count <= k < 16 implies loaded[k] == fresh[k] by {
        assert(loaded[k] == fresh[k]);
    }
}

/// A reset followed by a load leaves the font in the first 80 bytes of
/// memory and the loaded program bytes from 0x200 on: the memory that
/// `load` promises when it runs on freshly reset memory holds both.
pub proof fn lemma_reset_then_load(data: Seq<u8>)
    requires
        data.len() <= 3584,
    ensures
        ({
            let mem = reset_memory().map(
                |k: int, b: u8|
                    if 512 <= k < 512 + data.len() {
                        data[k - 512]
                    } else {
                        b
                    },
            );
            &&& forall|k: int| 0 <= k < 80 ==> mem[k] == font_seq()[k]
            &&& forall|k: int| 0 <= k < data.len() ==> mem[512 + k] == data[k]
        }),
{
    let mem = reset_memory().map(
        |k: int, b: u8|
            if 512 <= k < 512 + data.len() {
                data[k - 512]
            } else {
                b
            },
    );
    assert forall|k: int| 0 <= k < 80 implies mem[k] == font_seq()[k] by {
        assert(mem[k] == reset_memory()[k]);
    }
    assert forall|k: int| 0 <= k < data.len() implies mem[512 + k] == data[k] by {
        assert(mem[512 + k] == data[k]);
    }
}

} // verus!
