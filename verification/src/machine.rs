//! The interpreter core as executable state: construction, program loading,
//! the call stack held in low memory, and one fetch-decode-execute step,
//! each verified against the model in `semantics`.

use crate::semantics::{
    blit_rows, font_seq, initial_machine, initial_ram, lemma_step_preserves_wf, load_regs, rev8,
    spec_exec, spec_load, spec_step, spec_tick, store_regs, word_at, Fault, MachineV, StepInput,
    DISPLAY_COLS, DISPLAY_ROWS, FONT_BASE, GLYPH_BYTES, MEM_SIZE, PROGRAM_START, REG_COUNT,
    STACK_BYTES,
};
use vstd::prelude::*;

verus! {

/// Bit reversal of one byte, so that bit 0 becomes the leftmost pixel of a
/// sprite row.
fn reverse_byte(b: u8) -> (r: u8)
    ensures
        r == rev8(b),
{
    ((b >> 7) & 0x01) | ((b >> 5) & 0x02) | ((b >> 3) & 0x04) | ((b >> 1) & 0x08) | ((b << 1)
        & 0x10) | ((b << 3) & 0x20) | ((b << 5) & 0x40) | ((b << 7) & 0x80)
}

/// The machine state: registers, timers, main memory with the call stack in
/// its lowest bytes and the font above it, and the packed display buffer.
pub struct Machine {
    cycle: u64,
    v: Vec<u8>,
    i: u16,
    dt: u8,
    st: u8,
    pc: usize,
    sp: usize,
    ram: Vec<u8>,
    vram: Vec<u64>,
}

impl View for Machine {
    type V = MachineV;

    closed spec fn view(&self) -> MachineV {
        MachineV {
            cycle: self.cycle,
            v: self.v@,
            i: self.i,
            dt: self.dt,
            st: self.st,
            pc: self.pc as int,
            sp: self.sp as int,
            ram: self.ram@,
            vram: self.vram@,
        }
    }
}

/// The font as an executable table, matching `font_seq`.
#[verifier::rlimit(100)]
fn font_table() -> (t: Vec<u8>)
    ensures
        t@ =~= font_seq(),
{
    let mut t: Vec<u8> = Vec::new();
    t.push(0xF0); t.push(0x90); t.push(0x90); t.push(0x90); t.push(0xF0); // 0
    t.push(0x20); t.push(0x60); t.push(0x20); t.push(0x20); t.push(0x70); // 1
    t.push(0xF0); t.push(0x10); t.push(0xF0); t.push(0x80); t.push(0xF0); // 2
    t.push(0xF0); t.push(0x10); t.push(0xF0); t.push(0x10); t.push(0xF0); // 3
    t.push(0x90); t.push(0x90); t.push(0xF0); t.push(0x10); t.push(0x10); // 4
    t.push(0xF0); t.push(0x80); t.push(0xF0); t.push(0x10); t.push(0xF0); // 5
    t.push(0xF0); t.push(0x80); t.push(0xF0); t.push(0x90); t.push(0xF0); // 6
    t.push(0xF0); t.push(0x10); t.push(0x20); t.push(0x40); t.push(0x40); // 7
    t.push(0xF0); t.push(0x90); t.push(0xF0); t.push(0x90); t.push(0xF0); // 8
    t.push(0xF0); t.push(0x90); t.push(0xF0); t.push(0x10); t.push(0xF0); // 9
    t.push(0xF0); t.push(0x90); t.push(0xF0); t.push(0x90); t.push(0x90); // A
    t.push(0xE0); t.push(0x90); t.push(0xE0); t.push(0x90); t.push(0xE0); // B
    t.push(0xF0); t.push(0x80); t.push(0x80); t.push(0x80); t.push(0xF0); // C
    t.push(0xE0); t.push(0x90); t.push(0x90); t.push(0x90); t.push(0xE0); // D
    t.push(0xF0); t.push(0x80); t.push(0xF0); t.push(0x80); t.push(0xF0); // E
    t.push(0xF0); t.push(0x80); t.push(0xF0); t.push(0x80); t.push(0x80); // F
    t
}

impl Machine {
    /// A fresh machine: font seeded into low memory, program counter at
    /// 0x200, every register, timer, stack slot and pixel zero.
    pub fn new() -> (m: Machine)
        ensures
            m@ == initial_machine(),
            m@.wf(),
    {
        let mut v: Vec<u8> = Vec::new();
        let mut k: usize = 0;
        while k < REG_COUNT
            invariant
                v@.len() == k,
                k <= 16,
                forall|j: int| 0 <= j < k ==> v@[j] == 0u8,
            decreases 16 - k,
        {
            v.push(0);
            k = k + 1;
        }
        let mut ram: Vec<u8> = Vec::new();
        let mut a: usize = 0;
        while a < MEM_SIZE
            invariant
                ram@.len() == a,
                a <= 4096,
                forall|j: int| 0 <= j < a ==> ram@[j] == 0u8,
            decreases 4096 - a,
        {
            ram.push(0);
            a = a + 1;
        }
        let font = font_table();
        let mut f: usize = 0;
        while f < 80
            invariant
                ram@.len() == 4096,
                f <= 80,
                font@ =~= font_seq(),
                forall|j: int| 0 <= j < f ==> ram@[0x20 + j] == font_seq()[j],
                forall|j: int| 0 <= j < 4096 && !(0x20 <= j < 0x20 + f) ==> ram@[j] == 0u8,
            decreases 80 - f,
        {
            let byte = font[f];
            ram.set(FONT_BASE + f, byte);
            f = f + 1;
        }
        let mut vram: Vec<u64> = Vec::new();
        let mut r: usize = 0;
        while r < DISPLAY_ROWS
            invariant
                vram@.len() == r,
                r <= 32,
                forall|j: int| 0 <= j < r ==> vram@[j] == 0u64,
            decreases 32 - r,
        {
            vram.push(0);
            r = r + 1;
        }
        let m = Machine { cycle: 0, v, i: 0, dt: 0, st: 0, pc: PROGRAM_START, sp: 0, ram, vram };
        proof {
            assert(m@.ram =~= initial_ram());
            assert(m@.v =~= initial_machine().v);
            assert(m@.vram =~= initial_machine().vram);
            assert(m@ =~= initial_machine());
        }
        m
    }

    /// Copies a program image into memory starting at 0x200. An image too
    /// large for the space up to the end of memory is rejected whole.
    pub fn load(&mut self, rom: &[u8]) -> (r: Result<(), Fault>)
        requires
            old(self)@.wf(),
        ensures
            final(self)@.wf(),
            match r {
                Ok(()) => rom@.len() <= 0xE00 && final(self)@ == (MachineV {
                    ram: spec_load(old(self)@.ram, rom@),
                    ..old(self)@
                }),
                Err(f) => f == Fault::ProgramTooLarge && rom@.len() > 0xE00 && final(self)@
                    == old(self)@,
            },
    {
        if rom.len() > MEM_SIZE - PROGRAM_START {
            return Err(Fault::ProgramTooLarge);
        }
        let mut k: usize = 0;
        while k < rom.len()
            invariant
                old(self)@.wf(),
                rom@.len() <= 0xE00,
                k <= rom@.len(),
                self@.ram.len() == 4096,
                forall|a: int| 0x200 <= a < 0x200 + k ==> self@.ram[a] == rom@[a - 0x200],
                forall|a: int|
                    0 <= a < 4096 && !(0x200 <= a < 0x200 + k) ==> self@.ram[a] == old(
                        self,
                    )@.ram[a],
                self@ == (MachineV { ram: self@.ram, ..old(self)@ }),
            decreases rom@.len() - k,
        {
            let byte = rom[k];
            self.ram.set(PROGRAM_START + k, byte);
            k = k + 1;
        }
        proof {
            assert(self@.ram =~= spec_load(old(self)@.ram, rom@));
            assert(self@ =~= (MachineV { ram: spec_load(old(self)@.ram, rom@), ..old(self)@ }));
            assert forall|k2: int| 0 <= k2 < self@.frames() implies #[trigger] self@.stack_entry(
                k2,
            ) >= 0x200 by {
                assert(old(self)@.stack_entry(k2) >= 0x200);
            }
        }
        Ok(())
    }

    /// The big-endian opcode at the program counter.
    pub fn fetch_op(&self) -> (op: u16)
        requires
            self@.wf(),
            self@.pc + 1 < 4096,
        ensures
            op == word_at(self@.ram, self@.pc),
    {
        let msb = self.ram[self.pc];
        let lsb = self.ram[self.pc + 1];
        (msb as u16) * 256 + (lsb as u16)
    }

    /// Pushes a return address onto the call stack in low memory: two bytes,
    /// big-endian, at the stack pointer. Sixteen frames is the limit.
    pub fn push_stack(&mut self, addr: u16) -> (r: Result<(), Fault>)
        requires
            old(self)@.wf(),
            addr >= 0x200,
        ensures
            final(self)@.wf(),
            match r {
                Ok(()) => old(self)@.sp < 32 && final(self)@ == (MachineV {
                    ram: old(self)@.ram.update(old(self)@.sp, (addr / 256) as u8).update(
                        old(self)@.sp + 1,
                        (addr % 256) as u8,
                    ),
                    sp: old(self)@.sp + 2,
                    ..old(self)@
                }),
                Err(f) => f == Fault::StackOverflow && old(self)@.sp >= 32 && final(self)@ == old(
                    self,
                )@,
            },
    {
        if self.sp >= STACK_BYTES {
            return Err(Fault::StackOverflow);
        }
        let hi = (addr / 256) as u8;
        let lo = (addr % 256) as u8;
        self.ram.set(self.sp, hi);
        self.ram.set(self.sp + 1, lo);
        self.sp = self.sp + 2;
        proof {
            assert forall|k2: int| 0 <= k2 < self@.frames() implies #[trigger] self@.stack_entry(
                k2,
            ) >= 0x200 by {
                if k2 < old(self)@.frames() {
                    assert(old(self)@.stack_entry(k2) >= 0x200);
                    assert(self@.stack_entry(k2) == old(self)@.stack_entry(k2));
                } else {
                    assert(2 * k2 == old(self)@.sp);
                    assert(self@.ram[2 * k2] == hi);
                    assert(self@.ram[2 * k2 + 1] == lo);
                    assert(hi * 256 + lo == addr);
                }
            }
            assert forall|j: int| 0 <= j < 80 implies self@.ram[0x20 + j]
                == #[trigger] font_seq()[j] by {
                assert(old(self)@.ram[0x20 + j] == font_seq()[j]);
            }
        }
        Ok(())
    }

    /// Pops the most recent return address off the call stack.
    pub fn pop_stack(&mut self) -> (r: Result<u16, Fault>)
        requires
            old(self)@.wf(),
        ensures
            final(self)@.wf(),
            match r {
                Ok(addr) => old(self)@.sp >= 2 && addr == old(self)@.stack_entry(
                    old(self)@.frames() - 1,
                ) && addr >= 0x200 && final(self)@ == (MachineV {
                    sp: old(self)@.sp - 2,
                    ..old(self)@
                }),
                Err(f) => f == Fault::StackUnderflow && old(self)@.sp == 0 && final(self)@ == old(
                    self,
                )@,
            },
    {
        if self.sp == 0 {
            return Err(Fault::StackUnderflow);
        }
        self.sp = self.sp - 2;
        let msb = self.ram[self.sp];
        let lsb = self.ram[self.sp + 1];
        let addr = (msb as u16) * 256 + (lsb as u16);
        proof {
            let pre = old(self)@;
            assert(2 * (pre.frames() - 1) == pre.sp - 2);
            assert(pre.stack_entry(pre.frames() - 1) >= 0x200);
            assert forall|k2: int| 0 <= k2 < self@.frames() implies #[trigger] self@.stack_entry(
                k2,
            ) >= 0x200 by {
                assert(old(self)@.stack_entry(k2) >= 0x200);
            }
        }
        Ok(addr)
    }

    /// Zeroes every display row.
    fn clear_display(&mut self)
        requires
            old(self)@.vram.len() == 32,
        ensures
            final(self)@ == (MachineV { vram: Seq::new(32, |j: int| 0u64), ..old(self)@ }),
    {
        let mut r: usize = 0;
        while r < DISPLAY_ROWS
            invariant
                r <= 32,
                self@.vram.len() == 32,
                forall|j: int| 0 <= j < r ==> self@.vram[j] == 0u64,
                forall|j: int| r <= j < 32 ==> self@.vram[j] == old(self)@.vram[j],
                self@ == (MachineV { vram: self@.vram, ..old(self)@ }),
            decreases 32 - r,
        {
            self.vram.set(r, 0);
            r = r + 1;
        }
        proof {
            assert(self@.vram =~= Seq::new(32, |j: int| 0u64));
        }
    }

    /// XORs `n` sprite rows into the display at the column and row named by
    /// registers `x` and `y`, and records in the flag register whether any
    /// set pixel was cleared.
    fn draw_sprite(&mut self, x: usize, y: usize, n: usize)
        requires
            old(self)@.wf(),
            x < 16,
            y < 16,
            n <= 15,
            old(self)@.i + n <= 4096,
        ensures
            final(self)@ == ({
                let mv = old(self)@;
                let res = blit_rows(
                    mv.vram,
                    mv.ram,
                    mv.i as int,
                    mv.v[x as int],
                    mv.v[y as int],
                    n as int,
                );
                MachineV {
                    vram: res.0,
                    v: mv.v.update(
                        0xF,
                        if res.1 {
                            1u8
                        } else {
                            0u8
                        },
                    ),
                    ..mv
                }
            }),
    {
        let col = self.v[x];
        let row0 = self.v[y];
        let base = self.i as usize;
        let mut hit = false;
        let mut row: usize = 0;
        while row < n
            invariant
                row <= n,
                n <= 15,
                base == old(self)@.i,
                base + n <= 4096,
                col == old(self)@.v[x as int],
                row0 == old(self)@.v[y as int],
                self@.ram.len() == 4096,
                self@.vram.len() == 32,
                (self@.vram, hit) == blit_rows(
                    old(self)@.vram,
                    old(self)@.ram,
                    base as int,
                    col,
                    row0,
                    row as int,
                ),
                self@ == (MachineV { vram: self@.vram, ..old(self)@ }),
            decreases n - row,
        {
            let byte = self.ram[base + row];
            let lane: u64 = if col < DISPLAY_COLS as u8 {
                (reverse_byte(byte) as u64) << col
            } else {
                0
            };
            let ry = (row0 as usize) + row;
            if ry < 32 {
                let prev = self.vram[ry];
                if prev & lane != 0 {
                    hit = true;
                }
                self.vram.set(ry, prev ^ lane);
            }
            row = row + 1;
            proof {
                assert((self@.vram, hit) == blit_rows(
                    old(self)@.vram,
                    old(self)@.ram,
                    base as int,
                    col,
                    row0,
                    row as int,
                ));
            }
        }
        let flag: u8 = if hit {
            1
        } else {
            0
        };
        self.v.set(0xF, flag);
    }

    /// Stores registers 0 through `x` at the index register, advancing it by
    /// one per byte written.
    fn store_registers(&mut self, x: usize)
        requires
            old(self)@.wf(),
            x < 16,
            old(self)@.i + x + 1 <= 4096,
        ensures
            final(self)@ == (MachineV {
                ram: store_regs(old(self)@.ram, old(self)@.v, old(self)@.i as int, x as int + 1),
                i: (old(self)@.i + x + 1) as u16,
                ..old(self)@
            }),
    {
        let base = self.i as usize;
        let mut k: usize = 0;
        while k < x + 1
            invariant
                k <= x + 1,
                x < 16,
                base == old(self)@.i,
                base + x + 1 <= 4096,
                self@.v.len() == 16,
                self@.ram.len() == 4096,
                self@.ram == store_regs(old(self)@.ram, old(self)@.v, base as int, k as int),
                self@ == (MachineV { ram: self@.ram, ..old(self)@ }),
            decreases x + 1 - k,
        {
            let byte = self.v[k];
            self.ram.set(base + k, byte);
            k = k + 1;
        }
        self.i = (base + x + 1) as u16;
    }

    /// Loads registers 0 through `x` from the index register, advancing it
    /// by one per byte read.
    fn load_registers(&mut self, x: usize)
        requires
            old(self)@.wf(),
            x < 16,
            old(self)@.i + x + 1 <= 4096,
        ensures
            final(self)@ == (MachineV {
                v: load_regs(old(self)@.v, old(self)@.ram, old(self)@.i as int, x as int + 1),
                i: (old(self)@.i + x + 1) as u16,
                ..old(self)@
            }),
    {
        let base = self.i as usize;
        let mut k: usize = 0;
        while k < x + 1
            invariant
                k <= x + 1,
                x < 16,
                base == old(self)@.i,
                base + x + 1 <= 4096,
                self@.v.len() == 16,
                self@.ram.len() == 4096,
                self@.v == load_regs(old(self)@.v, old(self)@.ram, base as int, k as int),
                self@ == (MachineV { v: self@.v, ..old(self)@ }),
            decreases x + 1 - k,
        {
            let byte = self.ram[base + k];
            self.v.set(k, byte);
            k = k + 1;
        }
        self.i = (base + x + 1) as u16;
    }

    /// General-purpose register `idx`.
    pub fn reg(&self, idx: usize) -> (r: u8)
        requires
            self@.wf(),
            idx < 16,
        ensures
            r == self@.v[idx as int],
    {
        self.v[idx]
    }

    /// The program counter.
    pub fn pc(&self) -> (r: usize)
        ensures
            r == self@.pc,
    {
        self.pc
    }

    /// The stack pointer: byte offset of the first free call-stack slot.
    pub fn sp(&self) -> (r: usize)
        ensures
            r == self@.sp,
    {
        self.sp
    }

    /// The index register.
    pub fn index_reg(&self) -> (r: u16)
        ensures
            r == self@.i,
    {
        self.i
    }

    /// The delay timer.
    pub fn delay_timer(&self) -> (r: u8)
        ensures
            r == self@.dt,
    {
        self.dt
    }

    /// The sound timer.
    pub fn sound_timer(&self) -> (r: u8)
        ensures
            r == self@.st,
    {
        self.st
    }

    /// Executed-instruction count.
    pub fn cycle_count(&self) -> (r: u64)
        ensures
            r == self@.cycle,
    {
        self.cycle
    }

    /// The byte of main memory at `addr`.
    pub fn ram_at(&self, addr: usize) -> (r: u8)
        requires
            self@.wf(),
            addr < 4096,
        ensures
            r == self@.ram[addr as int],
    {
        self.ram[addr]
    }

    /// The packed pixels of display row `row`.
    pub fn vram_row(&self, row: usize) -> (r: u64)
        requires
            self@.wf(),
            row < 32,
        ensures
            r == self@.vram[row as int],
    {
        self.vram[row]
    }

    /// The whole display buffer, one 64-bit word per row.
    pub fn vram_slice(&self) -> (s: &[u64])
        ensures
            s@ == self@.vram,
    {
        self.vram.as_slice()
    }

    /// Advances the machine by exactly one instruction: fetch the big-endian
    /// opcode at the program counter, advance past it, execute, then write
    /// back the timer decay and the cycle counter. Returns whether the
    /// instruction mutated the display, or the fault that stopped it; a
    /// faulting step leaves the machine exactly as it was.
    pub fn step(&mut self, input: &StepInput) -> (r: Result<bool, Fault>)
        requires
            old(self)@.wf(),
        ensures
            final(self)@.wf(),
            match r {
                Ok(redraw) => spec_step(old(self)@, *input) == Ok::<(MachineV, bool), Fault>(
                    (final(self)@, redraw),
                ),
                Err(f) => spec_step(old(self)@, *input) == Err::<(MachineV, bool), Fault>(f)
                    && final(self)@ == old(self)@,
            },
    {
        proof {
            lemma_step_preserves_wf(old(self)@, *input);
        }
        if self.pc >= MEM_SIZE - 1 {
            return Err(Fault::AddressOutOfBounds);
        }
        let op = self.fetch_op();
        let ghost m = MachineV { pc: old(self)@.pc + 2, ..old(self)@ };
        let pc2 = self.pc + 2;
        let addr = (op % 0x1000) as usize;
        let x = ((op / 0x100) % 0x10) as usize;
        let y = ((op / 0x10) % 0x10) as usize;
        let kk = (op % 0x100) as u8;
        let n = (op % 0x10) as usize;
        let top = op / 0x1000;
        let mut redraw = false;
        match top {
            0x0 => {
                if addr == 0x0E0 {
                    self.clear_display();
                    self.pc = pc2;
                    redraw = true;
                } else if addr == 0x0EE {
                    match self.pop_stack() {
                        Ok(a) => {
                            self.pc = a as usize;
                        },
                        Err(f) => {
                            return Err(f);
                        },
                    }
                } else {
                    return Err(Fault::UnknownOpcode);
                }
            },
            0x1 => {
                if addr < PROGRAM_START {
                    return Err(Fault::ReservedJump);
                }
                self.pc = addr;
            },
            0x2 => {
                if addr < PROGRAM_START {
                    return Err(Fault::ReservedJump);
                }
                match self.push_stack(pc2 as u16) {
                    Ok(()) => {
                        self.pc = addr;
                    },
                    Err(f) => {
                        return Err(f);
                    },
                }
            },
            0x3 => {
                self.pc = if self.v[x] == kk {
                    pc2 + 2
                } else {
                    pc2
                };
            },
            0x4 => {
                self.pc = if self.v[x] != kk {
                    pc2 + 2
                } else {
                    pc2
                };
            },
            0x5 => {
                if n != 0 {
                    return Err(Fault::UnknownOpcode);
                }
                self.pc = if self.v[x] == self.v[y] {
                    pc2 + 2
                } else {
                    pc2
                };
            },
            0x6 => {
                self.v.set(x, kk);
                self.pc = pc2;
            },
            0x7 => {
                let sum = (((self.v[x] as u16) + (kk as u16)) % 256) as u8;
                self.v.set(x, sum);
                self.pc = pc2;
            },
            0x8 => {
                if n == 0x0 {
                    let vy = self.v[y];
                    self.v.set(x, vy);
                } else if n == 0x1 {
                    let val = self.v[x] | self.v[y];
                    self.v.set(x, val);
                } else if n == 0x2 {
                    let val = self.v[x] & self.v[y];
                    self.v.set(x, val);
                } else if n == 0x3 {
                    let val = self.v[x] ^ self.v[y];
                    self.v.set(x, val);
                } else if n == 0x4 {
                    let vx = self.v[x];
                    let vy = self.v[y];
                    let carry: u8 = if (vx as u16) + (vy as u16) > 255 {
                        1
                    } else {
                        0
                    };
                    let sum = (((vx as u16) + (vy as u16)) % 256) as u8;
                    self.v.set(0xF, carry);
                    self.v.set(x, sum);
                } else if n == 0x5 {
                    let vx = self.v[x];
                    let vy = self.v[y];
                    let no_borrow: u8 = if vx >= vy {
                        1
                    } else {
                        0
                    };
                    let diff = (((vx as u16) + 256 - (vy as u16)) % 256) as u8;
                    self.v.set(0xF, no_borrow);
                    self.v.set(x, diff);
                } else if n == 0x6 {
                    let low = self.v[y] & 1;
                    self.v.set(0xF, low);
                    let vy = self.v[y];
                    self.v.set(x, vy >> 1);
                } else if n == 0x7 {
                    let vx = self.v[x];
                    let vy = self.v[y];
                    let no_borrow: u8 = if vy >= vx {
                        1
                    } else {
                        0
                    };
                    let diff = (((vy as u16) + 256 - (vx as u16)) % 256) as u8;
                    self.v.set(0xF, no_borrow);
                    self.v.set(x, diff);
                } else if n == 0xE {
                    let high = self.v[y] >> 7;
                    self.v.set(0xF, high);
                    let vy = self.v[y];
                    self.v.set(x, vy << 1);
                } else {
                    return Err(Fault::UnknownOpcode);
                }
                self.pc = pc2;
            },
            0x9 => {
                if n != 0 {
                    return Err(Fault::UnknownOpcode);
                }
                self.pc = if self.v[x] != self.v[y] {
                    pc2 + 2
                } else {
                    pc2
                };
            },
            0xA => {
                self.i = addr as u16;
                self.pc = pc2;
            },
            0xB => {
                if addr < PROGRAM_START {
                    return Err(Fault::ReservedJump);
                }
                self.pc = addr;
            },
            0xC => {
                self.v.set(x, input.random & kk);
                self.pc = pc2;
            },
            0xD => {
                if self.i as usize + n > MEM_SIZE {
                    return Err(Fault::AddressOutOfBounds);
                }
                self.draw_sprite(x, y, n);
                self.pc = pc2;
                redraw = true;
            },
            0xE => {
                if kk == 0x9E {
                    if self.v[x] > 0xF {
                        return Err(Fault::InvalidKey);
                    }
                    self.pc = if input.key_pressed {
                        pc2 + 2
                    } else {
                        pc2
                    };
                } else if kk == 0xA1 {
                    if self.v[x] > 0xF {
                        return Err(Fault::InvalidKey);
                    }
                    self.pc = if input.key_pressed {
                        pc2
                    } else {
                        pc2 + 2
                    };
                } else {
                    return Err(Fault::UnknownOpcode);
                }
            },
            0xF => {
                if kk == 0x07 {
                    let t = self.dt;
                    self.v.set(x, t);
                    self.pc = pc2;
                } else if kk == 0x0A {
                    match input.pressed_key {
                        Some(key) => {
                            self.v.set(x, key);
                            self.pc = pc2;
                        },
                        None => {
                            self.pc = pc2 - 2;
                        },
                    }
                } else if kk == 0x15 {
                    self.dt = self.v[x];
                    self.pc = pc2;
                } else if kk == 0x18 {
                    self.st = self.v[x];
                    self.pc = pc2;
                } else if kk == 0x1E {
                    self.i = (((self.i as u32) + (self.v[x] as u32)) % 0x10000) as u16;
                    self.pc = pc2;
                } else if kk == 0x29 {
                    self.i = FONT_BASE as u16 + (self.v[x] as u16) * (GLYPH_BYTES as u16);
                    self.pc = pc2;
                } else if kk == 0x33 {
                    if (self.i as usize) < PROGRAM_START {
                        return Err(Fault::ReservedWrite);
                    }
                    if self.i as usize + 3 > MEM_SIZE {
                        return Err(Fault::AddressOutOfBounds);
                    }
                    let vx = self.v[x];
                    let base = self.i as usize;
                    self.ram.set(base, vx / 100);
                    self.ram.set(base + 1, (vx / 10) % 10);
                    self.ram.set(base + 2, vx % 10);
                    self.pc = pc2;
                } else if kk == 0x55 {
                    if (self.i as usize) < PROGRAM_START {
                        return Err(Fault::ReservedWrite);
                    }
                    if self.i as usize + x + 1 > MEM_SIZE {
                        return Err(Fault::AddressOutOfBounds);
                    }
                    self.store_registers(x);
                    self.pc = pc2;
                } else if kk == 0x65 {
                    if self.i as usize + x + 1 > MEM_SIZE {
                        return Err(Fault::AddressOutOfBounds);
                    }
                    self.load_registers(x);
                    self.pc = pc2;
                } else {
                    return Err(Fault::UnknownOpcode);
                }
            },
            _ => {
                return Err(Fault::UnknownOpcode);
            },
        }
        let ghost mid = self@;
        proof {
            assert(spec_exec(m, op as int, *input) == Ok::<(MachineV, bool), Fault>((mid, redraw)));
        }
        if self.cycle % 8 == 0 {
            self.dt = if self.dt > 0 {
                self.dt - 1
            } else {
                0
            };
            self.st = if self.st > 0 {
                self.st - 1
            } else {
                0
            };
        }
        self.cycle = if self.cycle == 0xFFFF_FFFF_FFFF_FFFFu64 {
            0
        } else {
            self.cycle + 1
        };
        proof {
            assert(self@ == spec_tick(mid));
        }
        Ok(redraw)
    }
}

} // verus!
