//! The instruction interpreter: machine state, the per-instruction
//! transition relation, and the fetch/decode/execute cycle.

use vstd::prelude::*;

use crate::decode::{decode, lemma_field_bounds, op_nnn, spec_decode, Instr};
use crate::keypad::Keypad;
use crate::ppu::{blank_screen, font_seq, spec_draw, Ppu};

verus! {

/// The machine state as mathematical values: the ghost image of a `Cpu`.
#[verifier::ext_equal]
pub ghost struct CpuView {
    /// index register
    pub i: u16,
    /// program counter
    pub pc: u16,
    /// 4096 bytes of memory
    pub memory: Seq<u8>,
    /// 16 general-purpose registers
    pub v: Seq<u8>,
    /// the 16 keypad flags
    pub keys: Seq<bool>,
    /// 16 return-address slots
    pub stack: Seq<u16>,
    /// stack pointer
    pub sp: u8,
    /// delay timer
    pub dt: u8,
    /// sound timer
    pub st: u8,
    /// 2048 framebuffer bytes
    pub screen: Seq<u8>,
}

impl CpuView {
    /// Every array of the machine has its fixed size.
    pub open spec fn wf(self) -> bool {
        &&& self.memory.len() == 4096
        &&& self.v.len() == 16
        &&& self.keys.len() == 16
        &&& self.stack.len() == 16
        &&& self.screen.len() == 2048
    }
}

/// A nonnegative value reduced to 16 bits.
pub open spec fn wrap16(n: int) -> u16 {
    (n % 0x10000) as u16
}

/// A value reduced to 8 bits.
pub open spec fn wrap8(n: int) -> u8 {
    (n % 0x100) as u8
}

/// The big-endian 16-bit word formed by the bytes at `pc` and `pc + 1`.
pub open spec fn word_at(mem: Seq<u8>, pc: int) -> u16 {
    ((mem[pc] as u16) << 8) | (mem[pc + 1] as u16)
}

/// The state with the program counter advanced by `n` bytes, wrapping.
pub open spec fn bump(s: CpuView, n: int) -> CpuView {
    CpuView { pc: wrap16(s.pc + n), ..s }
}

/// Both timers count down by at most one.
pub open spec fn tick_timers(s: CpuView) -> CpuView {
    CpuView {
        dt: if s.dt > 0 {
            (s.dt - 1) as u8
        } else {
            s.dt
        },
        st: if s.st > 0 {
            (s.st - 1) as u8
        } else {
            s.st
        },
        ..s
    }
}

/// How many of the keys below `upto` are held down.
pub open spec fn pressed_count(keys: Seq<bool>, upto: int) -> int
    decreases upto,
{
    if upto <= 0 {
        0
    } else {
        pressed_count(keys, upto - 1) + if keys[upto - 1] {
            1int
        } else {
            0int
        }
    }
}

/// The highest held key below `upto`, or -1 if none is held.
pub open spec fn last_pressed(keys: Seq<bool>, upto: int) -> int
    decreases upto,
{
    if upto <= 0 {
        -1
    } else if keys[upto - 1] {
        upto - 1
    } else {
        last_pressed(keys, upto - 1)
    }
}

/// `mem` with `regs[0..count]` copied in starting at `base`.
pub open spec fn store_window(mem: Seq<u8>, regs: Seq<u8>, base: int, count: int) -> Seq<u8> {
    mem.map(
        |k: int, b: u8|
            if base <= k < base + count {
                regs[k - base]
            } else {
                b
            },
    )
}

/// `regs` with `mem[base..base+count]` copied into its first `count` slots.
pub open spec fn load_window(regs: Seq<u8>, mem: Seq<u8>, base: int, count: int) -> Seq<u8> {
    regs.map(
        |k: int, b: u8|
            if 0 <= k < count {
                mem[base + k]
            } else {
                b
            },
    )
}

/// Memory after a reset: the font in the first 80 bytes, zero elsewhere.
pub open spec fn reset_memory() -> Seq<u8> {
    Seq::new(
        4096,
        |k: int|
            if 0 <= k < 80 {
                font_seq()[k]
            } else {
                0u8
            },
    )
}

/// A run of `n` zero bytes.
pub open spec fn zero_bytes(n: int) -> Seq<u8> {
    Seq::new(n as nat, |k: int| 0u8)
}

/// Whether the recognized instruction `inst` stays inside the memory, the
/// stack and the keypad in state `s`.  A well-formed program never leaves
/// these bounds; an instruction that would is refused with a fault instead
/// of touching anything.
pub open spec fn instr_ok(s: CpuView, inst: Instr) -> bool {
    match inst {
        Instr::Ret => 1 <= s.sp <= 16,
        Instr::Call { nnn } => s.sp < 16,
        Instr::Draw { x, y, n } => s.i + n <= 4096,
        Instr::SkipKey { x } => s.v[x as int] < 16,
        Instr::SkipNoKey { x } => s.v[x as int] < 16,
        Instr::StoreDigits { x } => s.i + 2 <= 4095,
        Instr::StoreRegs { x } => s.i + x <= 4095,
        Instr::LoadRegs { x } => s.i + x <= 4095,
        Instr::Unknown => false,
        _ => true,
    }
}

/// The state after executing the recognized, in-bounds instruction `inst`
/// in state `s`, before the timer tick.  `rnd` is the byte drawn by the
/// random-number instruction; every other instruction ignores it.
pub open spec fn instr_effect(s: CpuView, inst: Instr, rnd: u8) -> CpuView {
    match inst {
        Instr::Cls => bump(CpuView { screen: blank_screen(), ..s }, 2),
        Instr::Ret => {
            let top = s.sp - 1;
            CpuView {
                sp: top as u8,
                pc: wrap16(s.stack[top] + 2),
                stack: s.stack.update(top, 0xBEEF),
                ..s
            }
        },
        Instr::Jump { nnn } => CpuView { pc: nnn, ..s },
        Instr::Call { nnn } => CpuView {
            stack: s.stack.update(s.sp as int, s.pc),
            sp: (s.sp + 1) as u8,
            pc: nnn,
            ..s
        },
        Instr::SkipEqByte { x, kk } => bump(
            s,
            if s.v[x as int] == kk {
                4
            } else {
                2
            },
        ),
        Instr::SkipNeByte { x, kk } => bump(
            s,
            if s.v[x as int] != kk {
                4
            } else {
                2
            },
        ),
        Instr::SkipEqReg { x, y } => bump(
            s,
            if s.v[x as int] == s.v[y as int] {
                4
            } else {
                2
            },
        ),
        Instr::SetByte { x, kk } => bump(CpuView { v: s.v.update(x as int, kk), ..s }, 2),
        Instr::AddByte { x, kk } => bump(
            CpuView { v: s.v.update(x as int, wrap8(s.v[x as int] + kk)), ..s },
            2,
        ),
        Instr::Copy { x, y } => bump(CpuView { v: s.v.update(x as int, s.v[y as int]), ..s }, 2),
        Instr::Or { x, y } => bump(
            CpuView { v: s.v.update(x as int, s.v[x as int] | s.v[y as int]), ..s },
            2,
        ),
        Instr::And { x, y } => bump(
            CpuView { v: s.v.update(x as int, s.v[x as int] & s.v[y as int]), ..s },
            2,
        ),
        Instr::Xor { x, y } => bump(
            CpuView { v: s.v.update(x as int, s.v[x as int] ^ s.v[y as int]), ..s },
            2,
        ),
        Instr::AddReg { x, y } => {
            // on carry VF is set to 1; without carry VF keeps its old value
            let sum = s.v[x as int] + s.v[y as int];
            let flagged = if sum > 255 {
                s.v.update(15, 1u8)
            } else {
                s.v
            };
            bump(CpuView { v: flagged.update(x as int, wrap8(sum)), ..s }, 2)
        },
        Instr::SubReg { x, y } => {
            // VF says whether the original Vx was strictly greater than Vy
            let flagged = s.v.update(
                15,
                if s.v[x as int] > s.v[y as int] {
                    1u8
                } else {
                    0u8
                },
            );
            bump(
                CpuView { v: flagged.update(x as int, wrap8(s.v[x as int] - s.v[y as int])), ..s },
                2,
            )
        },
        Instr::ShiftRight { x } => {
            // VF takes the low bit first; the shift then reads Vx again,
            // so for x = 15 it shifts the freshly written flag
            let flagged = s.v.update(15, s.v[x as int] & 1);
            bump(CpuView { v: flagged.update(x as int, flagged[x as int] >> 1u8), ..s }, 2)
        },
        Instr::SubFrom { x, y } => {
            // VF = 0 exactly when the subtraction Vy - Vx borrows
            let flagged = s.v.update(
                15,
                if s.v[y as int] < s.v[x as int] {
                    0u8
                } else {
                    1u8
                },
            );
            bump(
                CpuView { v: flagged.update(x as int, wrap8(s.v[y as int] - s.v[x as int])), ..s },
                2,
            )
        },
        Instr::ShiftLeft { x } => {
            // VF takes the raw masked high bit (0x80 or 0), not 0/1
            let flagged = s.v.update(15, s.v[x as int] & 0x80);
            bump(CpuView { v: flagged.update(x as int, flagged[x as int] << 1u8), ..s }, 2)
        },
        Instr::SkipNeReg { x, y } => bump(
            s,
            if s.v[x as int] != s.v[y as int] {
                4
            } else {
                2
            },
        ),
        Instr::SetIndex { nnn } => bump(CpuView { i: nnn, ..s }, 2),
        Instr::JumpPlus { nnn } => CpuView { pc: wrap16(s.v[0] + nnn), ..s },
        Instr::Random { x, kk } => bump(CpuView { v: s.v.update(x as int, rnd & kk), ..s }, 2),
        Instr::Draw { x, y, n } => {
            let sprite = s.memory.subrange(s.i as int, s.i + n);
            let dr = spec_draw(s.screen, s.v[x as int] as int, s.v[y as int] as int, sprite);
            bump(
                CpuView {
                    screen: dr.0,
                    v: s.v.update(
                        15,
                        if dr.1 {
                            1u8
                        } else {
                            0u8
                        },
                    ),
                    ..s
                },
                2,
            )
        },
        Instr::SkipKey { x } => bump(
            s,
            if s.keys[s.v[x as int] as int] {
                4
            } else {
                2
            },
        ),
        Instr::SkipNoKey { x } => bump(
            s,
            if !s.keys[s.v[x as int] as int] {
                4
            } else {
                2
            },
        ),
        Instr::ReadDelay { x } => bump(CpuView { v: s.v.update(x as int, s.dt), ..s }, 2),
        Instr::WaitKey { x } => {
            // one non-blocking poll: every held key stores its index and
            // advances pc once more; the trailing advance always happens
            let cnt = pressed_count(s.keys, 16);
            let lastk = last_pressed(s.keys, 16);
            CpuView {
                v: if cnt > 0 {
                    s.v.update(x as int, lastk as u8)
                } else {
                    s.v
                },
                pc: wrap16(s.pc + 2 * cnt + 2),
                ..s
            }
        },
        Instr::SetDelay { x } => bump(CpuView { dt: s.v[x as int], ..s }, 2),
        Instr::SetSound { x } => bump(CpuView { st: s.v[x as int], ..s }, 2),
        Instr::AddIndex { x } => bump(CpuView { i: wrap16(s.i + s.v[x as int]), ..s }, 2),
        Instr::FontAddr { x } => bump(CpuView { i: (s.v[x as int] * 5) as u16, ..s }, 2),
        Instr::StoreDigits { x } => {
            let vx = s.v[x as int];
            bump(
                CpuView {
                    memory: s.memory.update(s.i as int, vx / 100).update(
                        s.i + 1,
                        (vx / 10) % 10,
                    ).update(s.i + 2, (vx % 100) % 10),
                    ..s
                },
                2,
            )
        },
        Instr::StoreRegs { x } => bump(
            CpuView { memory: store_window(s.memory, s.v, s.i as int, x + 1), ..s },
            2,
        ),
        Instr::LoadRegs { x } => bump(
            CpuView { v: load_window(s.v, s.memory, s.i as int, x + 1), ..s },
            2,
        ),
        Instr::Unknown => s,
    }
}

/// The deterministic part of one dispatch: the state reached from `pre` by
/// the instruction `op` decodes to, timer tick included.  Meaningful for
/// every instruction except the random one.
pub open spec fn step_of(pre: CpuView, op: u16) -> CpuView {
    tick_timers(instr_effect(pre, spec_decode(op), 0))
}

/// Why a dispatch failed.
#[derive(Clone, Copy, PartialEq, Eq, Structural, Debug)]
pub enum EmulateCycleError {
    /// The word matched no decode rule.  The program counter has already
    /// advanced past it, so a caller that continues does not refetch it.
    UnrecognizedOpcode { opcode: u16 },
    /// The instruction would read or write outside memory, outside the
    /// stack, or ask about a key index above 15.  Nothing was changed.
    AddressOutOfBounds { opcode: u16 },
    /// The program counter does not point at two readable bytes.
    ProgramCounterOutOfBounds { pc: u16 },
    /// The random byte source failed.  Nothing was changed.
    RandomSourceUnavailable,
}

/// The full contract of dispatching the word `op` in state `pre`: how the
/// state `post` and the outcome `r` relate.  A recognized, in-bounds
/// instruction executes and ticks the timers; every fault leaves the state
/// untouched, except the unrecognized-opcode fault, which still advances
/// the program counter and skips the tick.
pub open spec fn cycle_result(
    pre: CpuView,
    op: u16,
    post: CpuView,
    r: Result<(), EmulateCycleError>,
) -> bool {
    let inst = spec_decode(op);
    match r {
        Result::Ok(_) => {
            &&& !(inst is Unknown)
            &&& instr_ok(pre, inst)
            &&& exists|rnd: u8| post == tick_timers(instr_effect(pre, inst, rnd))
            &&& (!(inst is Random) ==> post == tick_timers(instr_effect(pre, inst, 0)))
        },
        Result::Err(e) => match e {
            EmulateCycleError::UnrecognizedOpcode { opcode } => {
                &&& opcode == op
                &&& inst is Unknown
                &&& post == bump(pre, 2)
            },
            EmulateCycleError::AddressOutOfBounds { opcode } => {
                &&& opcode == op
                &&& !(inst is Unknown)
                &&& !instr_ok(pre, inst)
                &&& post == pre
            },
            EmulateCycleError::RandomSourceUnavailable => {
                &&& inst is Random
                &&& post == pre
            },
            EmulateCycleError::ProgramCounterOutOfBounds { pc } => false,
        },
    }
}

/// The machine: memory, registers, stack, timers, the keypad and the
/// output surface, driven by `execute_cycle`.
pub struct Cpu {
    /// index register
    pub i: u16,
    /// program counter
    pub pc: u16,
    /// 4096 bytes of memory
    pub memory: Vec<u8>,
    /// 16 general-purpose registers
    pub v: Vec<u8>,
    /// the 16-key keypad
    pub keypad: Keypad,
    /// 16 return-address slots
    pub stack: Vec<u16>,
    /// stack pointer
    pub sp: u8,
    /// delay timer
    pub dt: u8,
    /// sound timer
    pub st: u8,
    /// the output surface
    pub ppu: Ppu,
}

impl View for Cpu {
    type V = CpuView;

    open spec fn view(&self) -> CpuView {
        CpuView {
            i: self.i,
            pc: self.pc,
            memory: self.memory@,
            v: self.v@,
            keys: self.keypad.keys@,
            stack: self.stack@,
            sp: self.sp,
            dt: self.dt,
            st: self.st,
            screen: self.ppu.memory@,
        }
    }
}

impl Cpu {
    /// Every array of the machine has its fixed size.
    pub open spec fn wf(&self) -> bool {
        self@.wf()
    }

    /// A zeroed machine around the given output surface.
    pub fn new(ppu: Ppu) -> (cpu: Cpu)
        requires
            ppu.wf(),
        ensures
            cpu.wf(),
            cpu@ == (CpuView {
                i: 0,
                pc: 0,
                memory: zero_bytes(4096),
                v: zero_bytes(16),
                keys: Seq::new(16, |j: int| false),
                stack: Seq::new(16, |j: int| 0u16),
                sp: 0,
                dt: 0,
                st: 0,
                screen: ppu.memory@,
            }),
    {
        let cpu = Cpu {
            i: 0,
            pc: 0,
            memory: zero_byte_vec(4096),
            v: zero_byte_vec(16),
            keypad: Keypad::new(),
            stack: zero_word_vec(16),
            sp: 0,
            dt: 0,
            st: 0,
            ppu,
        };
        proof {
            assert(cpu@ =~= (CpuView {
                i: 0,
                pc: 0,
                memory: zero_bytes(4096),
                v: zero_bytes(16),
                keys: Seq::new(16, |j: int| false),
                stack: Seq::new(16, |j: int| 0u16),
                sp: 0,
                dt: 0,
                st: 0,
                screen: ppu.memory@,
            }));
        }
        cpu
    }

    /// Zeroes every register, timer and stack slot, clears the screen,
    /// points the program counter at 0x200 and installs the font in the
    /// first 80 bytes of memory.  The keypad keeps its state.
    pub fn reset(&mut self)
        requires
            old(self).wf(),
        ensures
            final(self).wf(),
            final(self)@ == (CpuView {
                i: 0,
                pc: 0x200,
                memory: reset_memory(),
                v: zero_bytes(16),
                keys: old(self)@.keys,
                stack: Seq::new(16, |j: int| 0u16),
                sp: 0,
                dt: 0,
                st: 0,
                screen: blank_screen(),
            }),
    {
        self.i = 0;
        self.pc = 0x200;
        self.memory = zero_byte_vec(4096);
        self.v = zero_byte_vec(16);
        self.stack = zero_word_vec(16);
        self.sp = 0;
        self.dt = 0;
        self.st = 0;
        self.ppu.cls();
        let ghost keys0 = self.keypad.keys@;
        let mut k: usize = 0;
        while k < 80
            invariant
                k <= 80,
                self.memory@.len() == 4096,
                forall|m: int| 0 <= m < k ==> self.memory@[m] == font_seq()[m],
                forall|m: int| k <= m < 4096 ==> self.memory@[m] == 0u8,
                self.i == 0,
                self.pc == 0x200,
                self.v@ == zero_bytes(16),
                self.keypad.keys@ == keys0,
                self.stack@ == Seq::new(16, |j: int| 0u16),
                self.sp == 0,
                self.dt == 0,
                self.st == 0,
                self.ppu.memory@ == blank_screen(),
            decreases 80 - k,
        {
            self.memory[k] = crate::ppu::FONT_SET[k];
            k = k + 1;
        }
        proof {
            assert(self.memory@ =~= reset_memory());
            assert(self@ =~= (CpuView {
                i: 0,
                pc: 0x200,
                memory: reset_memory(),
                v: zero_bytes(16),
                keys: old(self)@.keys,
                stack: Seq::new(16, |j: int| 0u16),
                sp: 0,
                dt: 0,
                st: 0,
                screen: blank_screen(),
            }));
        }
    }

    /// Copies a program image into memory starting at 0x200.  Everything
    /// else is untouched.
    pub fn load(&mut self, data: Vec<u8>)
        requires
            old(self).wf(),
            data@.len() <= 3584,
        ensures
            final(self).wf(),
            final(self)@ == (CpuView {
                memory: old(self)@.memory.map(
                    |k: int, b: u8|
                        if 512 <= k < 512 + data@.len() {
                            data@[k - 512]
                        } else {
                            b
                        },
                ),
                ..old(self)@
            }),
    {
        let ghost pre = old(self)@;
        let ghost mem0 = self.memory@;
        let n = data.len();
        let mut idx: usize = 0;
        while idx < n
            invariant
                idx <= n,
                n == data@.len(),
                n <= 3584,
                self.memory@.len() == 4096,
                self.i == pre.i,
                self.pc == pre.pc,
                self.v@ == pre.v,
                self.keypad.keys@ == pre.keys,
                self.stack@ == pre.stack,
                self.sp == pre.sp,
                self.dt == pre.dt,
                self.st == pre.st,
                self.ppu.memory@ == pre.screen,
                self.memory@ == mem0.map(
                    |k: int, b: u8|
                        if 512 <= k < 512 + idx {
                            data@[k - 512]
                        } else {
                            b
                        },
                ),
            decreases n - idx,
        {
            self.memory[idx + 512] = data[idx];
            proof {
                assert(self.memory@ =~= mem0.map(
                    |k: int, b: u8|
                        if 512 <= k < 512 + (idx + 1) {
                            data@[k - 512]
                        } else {
                            b
                        },
                ));
            }
            idx = idx + 1;
        }
        proof {
            assert(self.memory@ =~= mem0.map(
                |k: int, b: u8|
                    if 512 <= k < 512 + data@.len() {
                        data@[k - 512]
                    } else {
                        b
                    },
            ));
            assert(self@ =~= (CpuView { memory: self.memory@, ..old(self)@ }));
        }
    }

    /// Fetches the word at the program counter.
    fn read_word(&self) -> (w: u16)
        requires
            self.wf(),
            self.pc as int + 1 < 4096,
        ensures
            w == word_at(self@.memory, self.pc as int),
    {
        let code1: u16 = self.memory[self.pc as usize] as u16;
        let code2: u16 = self.memory[(self.pc + 1) as usize] as u16;
        code1 << 8u16 | code2
    }

    /// One full cycle: fetch the word at the program counter, dispatch it,
    /// and tick the timers.  Faults are reported to the caller, which may
    /// stop or carry on.
    pub fn execute_cycle(&mut self) -> (r: Result<(), EmulateCycleError>)
        requires
            old(self).wf(),
        ensures
            final(self).wf(),
            old(self).pc as int + 1 < 4096 ==> cycle_result(
                old(self)@,
                word_at(old(self)@.memory, old(self).pc as int),
                final(self)@,
                r,
            ),
            old(self).pc as int + 1 >= 4096 ==> final(self)@ == old(self)@ && r == Result::<
                (),
                EmulateCycleError,
            >::Err(EmulateCycleError::ProgramCounterOutOfBounds { pc: old(self).pc }),
    {
        if self.pc >= 4095 {
            return Result::Err(EmulateCycleError::ProgramCounterOutOfBounds { pc: self.pc });
        }
        let opcode: u16 = self.read_word();
        self.process_opcode(opcode)
    }

    /// Dispatches one instruction word: decodes it, executes its state
    /// transition, and ticks the timers.  `cycle_result` states the exact
    /// outcome for every word and every state.
    #[verifier::rlimit(100)]
    pub fn process_opcode(&mut self, opcode: u16) -> (r: Result<(), EmulateCycleError>)
        requires
            old(self).wf(),
        ensures
            final(self).wf(),
            cycle_result(old(self)@, opcode, final(self)@, r),
    {
        let ghost pre = old(self)@;
        let ghost mut rnd: u8 = 0;
        proof {
            lemma_field_bounds(opcode);
        }
        let inst = decode(opcode);
        match inst {
            Instr::Cls => {
                self.ppu.cls();
                self.pc = wadd16(self.pc, 2);
            },
            Instr::Ret => {
                if self.sp < 1 || self.sp > 16 {
                    return Result::Err(EmulateCycleError::AddressOutOfBounds { opcode });
                }
                self.sp = self.sp - 1;
                self.pc = self.stack[self.sp as usize];
                self.stack[self.sp as usize] = 0xBEEF;
                self.pc = wadd16(self.pc, 2);
            },
            Instr::Jump { nnn } => {
                self.pc = nnn;
            },
            Instr::Call { nnn } => {
                if self.sp >= 16 {
                    return Result::Err(EmulateCycleError::AddressOutOfBounds { opcode });
                }
                self.stack[self.sp as usize] = self.pc;
                self.pc = nnn;
                self.sp = self.sp + 1;
            },
            Instr::SkipEqByte { x, kk } => {
                if self.v[x as usize] == kk {
                    self.pc = wadd16(self.pc, 4);
                } else {
                    self.pc = wadd16(self.pc, 2);
                }
            },
            Instr::SkipNeByte { x, kk } => {
                if self.v[x as usize] != kk {
                    self.pc = wadd16(self.pc, 4);
                } else {
                    self.pc = wadd16(self.pc, 2);
                }
            },
            Instr::SkipEqReg { x, y } => {
                if self.v[x as usize] == self.v[y as usize] {
                    self.pc = wadd16(self.pc, 4);
                } else {
                    self.pc = wadd16(self.pc, 2);
                }
            },
            Instr::SetByte { x, kk } => {
                self.v[x as usize] = kk;
                self.pc = wadd16(self.pc, 2);
            },
            Instr::AddByte { x, kk } => {
                self.v[x as usize] = wadd8(self.v[x as usize], kk);
                self.pc = wadd16(self.pc, 2);
            },
            Instr::Copy { x, y } => {
                self.v[x as usize] = self.v[y as usize];
                self.pc = wadd16(self.pc, 2);
            },
            Instr::Or { x, y } => {
                self.v[x as usize] = self.v[x as usize] | self.v[y as usize];
                self.pc = wadd16(self.pc, 2);
            },
            Instr::And { x, y } => {
                self.v[x as usize] = self.v[x as usize] & self.v[y as usize];
                self.pc = wadd16(self.pc, 2);
            },
            Instr::Xor { x, y } => {
                self.v[x as usize] = self.v[x as usize] ^ self.v[y as usize];
                self.pc = wadd16(self.pc, 2);
            },
            Instr::AddReg { x, y } => {
                let a = self.v[x as usize];
                let b = self.v[y as usize];
                if a as u16 + b as u16 > 255 {
                    self.v[15] = 1;
                }
                self.v[x as usize] = wadd8(a, b);
                self.pc = wadd16(self.pc, 2);
            },
            Instr::SubReg { x, y } => {
                let a = self.v[x as usize];
                let b = self.v[y as usize];
                if a > b {
                    self.v[15] = 1;
                } else {
                    self.v[15] = 0;
                }
                self.v[x as usize] = wsub8(a, b);
                self.pc = wadd16(self.pc, 2);
            },
            Instr::ShiftRight { x } => {
                self.v[15] = self.v[x as usize] & 0x1;
                self.v[x as usize] = self.v[x as usize] >> 1u8;
                self.pc = wadd16(self.pc, 2);
            },
            Instr::SubFrom { x, y } => {
                let a = self.v[x as usize];
                let b = self.v[y as usize];
                if b < a {
                    self.v[15] = 0;
                } else {
                    self.v[15] = 1;
                }
                self.v[x as usize] = wsub8(b, a);
                self.pc = wadd16(self.pc, 2);
            },
            Instr::ShiftLeft { x } => {
                self.v[15] = self.v[x as usize] & 0x80;
                self.v[x as usize] = self.v[x as usize] << 1u8;
                self.pc = wadd16(self.pc, 2);
            },
            Instr::SkipNeReg { x, y } => {
                if self.v[x as usize] != self.v[y as usize] {
                    self.pc = wadd16(self.pc, 4);
                } else {
                    self.pc = wadd16(self.pc, 2);
                }
            },
            Instr::SetIndex { nnn } => {
                self.i = nnn;
                self.pc = wadd16(self.pc, 2);
            },
            Instr::JumpPlus { nnn } => {
                proof {
                    assert(nnn == op_nnn(opcode));
                }
                self.pc = self.v[0] as u16 + nnn;
            },
            Instr::Random { x, kk } => {
                match random_byte() {
                    Option::Some(b) => {
                        self.v[x as usize] = b & kk;
                        self.pc = wadd16(self.pc, 2);
                        proof {
                            rnd = b;
                        }
                    },
                    Option::None => {
                        return Result::Err(EmulateCycleError::RandomSourceUnavailable);
                    },
                }
            },
            Instr::Draw { x, y, n } => {
                if self.i as usize + n as usize > 4096 {
                    return Result::Err(EmulateCycleError::AddressOutOfBounds { opcode });
                }
                self.op_draw(x, y, n);
            },
            Instr::SkipKey { x } => {
                let key = self.v[x as usize];
                if key >= 16 {
                    return Result::Err(EmulateCycleError::AddressOutOfBounds { opcode });
                }
                if self.keypad.is_key_down(key) {
                    self.pc = wadd16(self.pc, 4);
                } else {
                    self.pc = wadd16(self.pc, 2);
                }
            },
            Instr::SkipNoKey { x } => {
                let key = self.v[x as usize];
                if key >= 16 {
                    return Result::Err(EmulateCycleError::AddressOutOfBounds { opcode });
                }
                if !self.keypad.is_key_down(key) {
                    self.pc = wadd16(self.pc, 4);
                } else {
                    self.pc = wadd16(self.pc, 2);
                }
            },
            Instr::ReadDelay { x } => {
                self.v[x as usize] = self.dt;
                self.pc = wadd16(self.pc, 2);
            },
            Instr::WaitKey { x } => {
                self.op_wait_key(x);
            },
            Instr::SetDelay { x } => {
                self.dt = self.v[x as usize];
                self.pc = wadd16(self.pc, 2);
            },
            Instr::SetSound { x } => {
                self.st = self.v[x as usize];
                self.pc = wadd16(self.pc, 2);
            },
            Instr::AddIndex { x } => {
                self.i = wadd16(self.i, self.v[x as usize] as u16);
                self.pc = wadd16(self.pc, 2);
            },
            Instr::FontAddr { x } => {
                self.i = self.v[x as usize] as u16 * 5;
                self.pc = wadd16(self.pc, 2);
            },
            Instr::StoreDigits { x } => {
                if self.i as usize + 2 > 4095 {
                    return Result::Err(EmulateCycleError::AddressOutOfBounds { opcode });
                }
                let vx = self.v[x as usize];
                self.memory[self.i as usize] = vx / 100;
                self.memory[self.i as usize + 1] = (vx / 10) % 10;
                self.memory[self.i as usize + 2] = (vx % 100) % 10;
                self.pc = wadd16(self.pc, 2);
            },
            Instr::StoreRegs { x } => {
                if self.i as usize + x as usize > 4095 {
                    return Result::Err(EmulateCycleError::AddressOutOfBounds { opcode });
                }
                self.op_store_regs(x);
            },
            Instr::LoadRegs { x } => {
                if self.i as usize + x as usize > 4095 {
                    return Result::Err(EmulateCycleError::AddressOutOfBounds { opcode });
                }
                self.op_load_regs(x);
            },
            Instr::Unknown => {
                self.pc = wadd16(self.pc, 2);
                return Result::Err(EmulateCycleError::UnrecognizedOpcode { opcode });
            },
        }
        proof {
            assert(self@ =~= instr_effect(pre, inst, rnd));
        }
        if self.dt > 0 {
            self.dt = self.dt - 1;
        }
        if self.st > 0 {
            self.st = self.st - 1;
        }
        proof {
            assert(self@ =~= tick_timers(instr_effect(pre, inst, rnd)));
            assert(exists|rb: u8|
                final(self)@ == tick_timers(instr_effect(pre, spec_decode(opcode), rb))) by {
                assert(self@ == tick_timers(instr_effect(pre, spec_decode(opcode), rnd)));
            }
        }
        Result::Ok(())
    }

    /// One non-blocking keypad poll (the key-wait instruction): every held
    /// key stores its index in Vx and advances pc by 2, then pc advances by
    /// 2 once more.
    fn op_wait_key(&mut self, x: u8)
        requires
            old(self).wf(),
            x < 16,
        ensures
            final(self).wf(),
            final(self)@ == instr_effect(old(self)@, Instr::WaitKey { x }, 0),
    {
        let ghost pre = old(self)@;
        let mut key_i: usize = 0;
        while key_i < 16
            invariant
                key_i <= 16,
                x < 16,
                self.v@.len() == 16,
                self.keypad.keys@.len() == 16,
                self.keypad.keys@ == pre.keys,
                self.i == pre.i,
                self.memory@ == pre.memory,
                self.stack@ == pre.stack,
                self.sp == pre.sp,
                self.dt == pre.dt,
                self.st == pre.st,
                self.ppu.memory@ == pre.screen,
                pre.v.len() == 16,
                self.v@ == (if pressed_count(pre.keys, key_i as int) > 0 {
                    pre.v.update(x as int, last_pressed(pre.keys, key_i as int) as u8)
                } else {
                    pre.v
                }),
                self.pc == wrap16(pre.pc + 2 * pressed_count(pre.keys, key_i as int)),
            decreases 16 - key_i,
        {
            proof {
                lemma_pressed_count_bounds(pre.keys, key_i as int);
                lemma_pressed_count_bounds(pre.keys, key_i as int + 1);
                lemma_last_pressed_bounds(pre.keys, key_i as int + 1);
            }
            if self.keypad.keys[key_i] {
                self.v[x as usize] = key_i as u8;
                self.pc = wadd16(self.pc, 2);
                proof {
                    assert(self.v@ =~= pre.v.update(
                        x as int,
                        last_pressed(pre.keys, key_i as int + 1) as u8,
                    ));
                    lemma_wrap16_rejoin(
                        pre.pc + 2 * pressed_count(pre.keys, key_i as int),
                        2,
                    );
                }
            }
            key_i = key_i + 1;
        }
        self.pc = wadd16(self.pc, 2);
        proof {
            lemma_pressed_count_bounds(pre.keys, 16);
            lemma_wrap16_rejoin(pre.pc + 2 * pressed_count(pre.keys, 16), 2);
            assert(self@ =~= instr_effect(pre, Instr::WaitKey { x }, 0));
        }
    }

    /// Draws the `n`-row sprite at memory[I..I+n] at (Vx, Vy) and records
    /// the collision flag in VF.
    fn op_draw(&mut self, x: u8, y: u8, n: u8)
        requires
            old(self).wf(),
            x < 16,
            y < 16,
            n < 16,
            old(self).i as int + n as int <= 4096,
        ensures
            final(self).wf(),
            final(self)@ == instr_effect(old(self)@, Instr::Draw { x, y, n }, 0),
    {
        let ghost pre = old(self)@;
        let mut sprite: Vec<u8> = Vec::new();
        let mut k: usize = 0;
        while k < n as usize
            invariant
                k <= n as usize,
                n < 16,
                self.i as int + n as int <= 4096,
                self.memory@.len() == 4096,
                self.i == pre.i,
                self.memory@ == pre.memory,
                sprite@ == pre.memory.subrange(pre.i as int, pre.i as int + k),
            decreases n as usize - k,
        {
            sprite.push(self.memory[self.i as usize + k]);
            proof {
                assert(sprite@ =~= pre.memory.subrange(pre.i as int, pre.i as int + k + 1));
            }
            k = k + 1;
        }
        let sx = self.v[x as usize];
        let sy = self.v[y as usize];
        let collision = self.ppu.draw(sx as usize, sy as usize, sprite.as_slice());
        if collision {
            self.v[15] = 1;
        } else {
            self.v[15] = 0;
        }
        self.pc = wadd16(self.pc, 2);
        proof {
            assert(sprite@ == pre.memory.subrange(pre.i as int, pre.i + (n as int)));
            assert(self@ =~= instr_effect(pre, Instr::Draw { x, y, n }, 0));
        }
    }

    /// Copies V0..=Vx into memory starting at I.
    fn op_store_regs(&mut self, x: u8)
        requires
            old(self).wf(),
            x < 16,
            old(self).i as int + x as int <= 4095,
        ensures
            final(self).wf(),
            final(self)@ == instr_effect(old(self)@, Instr::StoreRegs { x }, 0),
    {
        let ghost pre = old(self)@;
        let count = x as usize + 1;
        let mut off: usize = 0;
        proof {
            assert(self.memory@ =~= store_window(pre.memory, pre.v, pre.i as int, 0));
        }
        while off < count
            invariant
                off <= count,
                count == x as usize + 1,
                x < 16,
                self.i as int + x as int <= 4095,
                self.v@.len() == 16,
                self.memory@.len() == 4096,
                self.i == pre.i,
                self.v@ == pre.v,
                self.pc == pre.pc,
                self.keypad.keys@ == pre.keys,
                self.stack@ == pre.stack,
                self.sp == pre.sp,
                self.dt == pre.dt,
                self.st == pre.st,
                self.ppu.memory@ == pre.screen,
                self.memory@ == store_window(pre.memory, pre.v, pre.i as int, off as int),
            decreases count - off,
        {
            self.memory[self.i as usize + off] = self.v[off];
            proof {
                assert(self.memory@ =~= store_window(
                    pre.memory,
                    pre.v,
                    pre.i as int,
                    off as int + 1,
                ));
            }
            off = off + 1;
        }
        self.pc = wadd16(self.pc, 2);
        proof {
            assert(self@ =~= instr_effect(pre, Instr::StoreRegs { x }, 0));
        }
    }

    /// Copies memory starting at I into V0..=Vx.
    fn op_load_regs(&mut self, x: u8)
        requires
            old(self).wf(),
            x < 16,
            old(self).i as int + x as int <= 4095,
        ensures
            final(self).wf(),
            final(self)@ == instr_effect(old(self)@, Instr::LoadRegs { x }, 0),
    {
        let ghost pre = old(self)@;
        let count = x as usize + 1;
        let mut off: usize = 0;
        proof {
            assert(self.v@ =~= load_window(pre.v, pre.memory, pre.i as int, 0));
        }
        while off < count
            invariant
                off <= count,
                count == x as usize + 1,
                x < 16,
                self.i as int + x as int <= 4095,
                self.v@.len() == 16,
                self.memory@.len() == 4096,
                self.i == pre.i,
                self.memory@ == pre.memory,
                self.pc == pre.pc,
                self.keypad.keys@ == pre.keys,
                self.stack@ == pre.stack,
                self.sp == pre.sp,
                self.dt == pre.dt,
                self.st == pre.st,
                self.ppu.memory@ == pre.screen,
                self.v@ == load_window(pre.v, pre.memory, pre.i as int, off as int),
            decreases count - off,
        {
            self.v[off] = self.memory[self.i as usize + off];
            proof {
                assert(self.v@ =~= load_window(
                    pre.v,
                    pre.memory,
                    pre.i as int,
                    off as int + 1,
                ));
            }
            off = off + 1;
        }
        self.pc = wadd16(self.pc, 2);
        proof {
            assert(self@ =~= instr_effect(pre, Instr::LoadRegs { x }, 0));
        }
    }
}

/// Relies on getrandom::fill to draw one random byte; reports the source's
/// failure instead of substituting a value.
#[verifier::external_body]
fn random_byte() -> (r: Option<u8>) {
    let mut buf = [0u8; 1];
    match getrandom::fill(&mut buf) {
        Ok(()) => Some(buf[0]),
        Err(_) => None,
    }
}

/// 16-bit addition that wraps around.
fn wadd16(a: u16, b: u16) -> (r: u16)
    ensures
        r == wrap16(a + b),
{
    proof {
        if a + b <= 0xFFFF {
            vstd::arithmetic::div_mod::lemma_small_mod((a + b) as nat, 0x10000nat);
        } else {
            vstd::arithmetic::div_mod::lemma_mod_sub_multiples_vanish((a + b) as int, 0x10000);
            vstd::arithmetic::div_mod::lemma_small_mod((a + b - 0x10000) as nat, 0x10000nat);
        }
    }
    a.wrapping_add(b)
}

/// 8-bit addition that wraps around.
fn wadd8(a: u8, b: u8) -> (r: u8)
    ensures
        r == wrap8(a + b),
{
    proof {
        if a + b <= 0xFF {
            vstd::arithmetic::div_mod::lemma_small_mod((a + b) as nat, 0x100nat);
        } else {
            vstd::arithmetic::div_mod::lemma_mod_sub_multiples_vanish((a + b) as int, 0x100);
            vstd::arithmetic::div_mod::lemma_small_mod((a + b - 0x100) as nat, 0x100nat);
        }
    }
    a.wrapping_add(b)
}

/// 8-bit subtraction that wraps around.
fn wsub8(a: u8, b: u8) -> (r: u8)
    ensures
        r == wrap8(a - b),
{
    proof {
        if a >= b {
            vstd::arithmetic::div_mod::lemma_small_mod((a - b) as nat, 0x100nat);
        } else {
            vstd::arithmetic::div_mod::lemma_mod_add_multiples_vanish((a - b) as int, 0x100);
            vstd::arithmetic::div_mod::lemma_small_mod((a - b + 0x100) as nat, 0x100nat);
        }
    }
    a.wrapping_sub(b)
}

/// Reducing modulo 0x10000 twice is the same as once.
proof fn lemma_wrap16_rejoin(a: int, b: int)
    requires
        0 <= a,
        0 <= b,
    ensures
        wrap16(wrap16(a) + b) == wrap16(a + b),
{
    vstd::arithmetic::div_mod::lemma_add_mod_noop(a, b, 0x10000);
    vstd::arithmetic::div_mod::lemma_add_mod_noop(a % 0x10000, b, 0x10000);
    vstd::arithmetic::div_mod::lemma_mod_twice(a, 0x10000);
}

/// The pressed count lies between 0 and the number of keys scanned.
proof fn lemma_pressed_count_bounds(keys: Seq<bool>, upto: int)
    ensures
        0 <= pressed_count(keys, upto),
        upto >= 0 ==> pressed_count(keys, upto) <= upto,
    decreases upto,
{
    if upto > 0 {
        lemma_pressed_count_bounds(keys, upto - 1);
    }
}

/// When some key below `upto` is held, the last held index is in range.
proof fn lemma_last_pressed_bounds(keys: Seq<bool>, upto: int)
    ensures
        pressed_count(keys, upto) > 0 ==> 0 <= last_pressed(keys, upto) < upto,
    decreases upto,
{
    if upto > 0 {
        lemma_last_pressed_bounds(keys, upto - 1);
        lemma_pressed_count_bounds(keys, upto - 1);
    }
}

/// Builds a vector of `n` zero bytes.
fn zero_byte_vec(n: usize) -> (v: Vec<u8>)
    ensures
        v@ == zero_bytes(n as int),
{
    let mut v: Vec<u8> = Vec::new();
    while v.len() < n
        invariant
            v@.len() <= n,
            forall|k: int| 0 <= k < v@.len() ==> v@[k] == 0u8,
        decreases n - v@.len(),
    {
        v.push(0);
    }
    proof {
        assert(v@ =~= zero_bytes(n as int));
    }
    v
}

/// Builds a vector of `n` zero words.
fn zero_word_vec(n: usize) -> (v: Vec<u16>)
    ensures
        v@ == Seq::new(n as nat, |k: int| 0u16),
{
    let mut v: Vec<u16> = Vec::new();
    while v.len() < n
        invariant
            v@.len() <= n,
            forall|k: int| 0 <= k < v@.len() ==> v@[k] == 0u16,
        decreases n - v@.len(),
    {
        v.push(0);
    }
    proof {
        assert(v@ =~= Seq::new(n as nat, |k: int| 0u16));
    }
    v
}

} // verus!
