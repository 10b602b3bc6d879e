//! The mathematical model of the interpreter: the machine state as ghost
//! data, and one spec function per instruction family giving the exact
//! effect of a fetch-decode-execute step.

use vstd::prelude::*;

verus! {

/// Bytes of main memory.
pub const MEM_SIZE: usize = 4096;

/// First address a program may occupy, jump to, or store through.
pub const PROGRAM_START: usize = 0x200;

/// Bytes of low memory holding the call stack: sixteen two-byte frames.
pub const STACK_BYTES: usize = 0x20;

/// First address of the built-in font.
pub const FONT_BASE: usize = 0x20;

/// Bytes per font glyph.
pub const GLYPH_BYTES: usize = 5;

/// General-purpose registers.
pub const REG_COUNT: usize = 16;

/// Rows of the display.
pub const DISPLAY_ROWS: usize = 32;

/// Columns of the display; one row is packed into one 64-bit word.
pub const DISPLAY_COLS: usize = 64;

/// A fatal condition. Execution cannot meaningfully continue past one, so a
/// step that hits one leaves the machine exactly as it was.
#[derive(Clone, Copy, Debug, PartialEq, Eq, Structural)]
pub enum Fault {
    /// No instruction pattern matches the fetched opcode.
    UnknownOpcode,
    /// A call was made with sixteen frames already on the stack.
    StackOverflow,
    /// A return was executed with an empty stack.
    StackUnderflow,
    /// A jump or call targeted the reserved region below 0x200.
    ReservedJump,
    /// An indexed store targeted the reserved region below 0x200.
    ReservedWrite,
    /// A fetch or an indexed access would run past the end of memory.
    AddressOutOfBounds,
    /// A key-skip instruction named a key above 0xF.
    InvalidKey,
    /// A program image does not fit between 0x200 and the end of memory.
    ProgramTooLarge,
}

/// Everything the surrounding driver feeds into one step: the answers the
/// keyboard gave when it was queried, and one random byte. A step reads only
/// the parts its instruction calls for.
#[derive(Clone, Copy, Debug)]
pub struct StepInput {
    /// Whether the key named by the current key-skip instruction is held.
    pub key_pressed: bool,
    /// The key currently held, if any, for the blocking key wait.
    pub pressed_key: Option<u8>,
    /// One uniformly distributed byte for the random-number instruction.
    pub random: u8,
}

/// The machine state as mathematics: sequences and integers only.
#[verifier::ext_equal]
pub ghost struct MachineV {
    /// Executed-instruction counter, driving the timer decay cadence.
    pub cycle: u64,
    /// The sixteen general-purpose registers; index 0xF doubles as the
    /// carry / borrow / collision flag.
    pub v: Seq<u8>,
    /// The index register.
    pub i: u16,
    /// Delay timer.
    pub dt: u8,
    /// Sound timer.
    pub st: u8,
    /// Address of the next instruction.
    pub pc: int,
    /// Byte offset of the first free call-stack slot in low memory.
    pub sp: int,
    /// Main memory.
    pub ram: Seq<u8>,
    /// One 64-bit word per display row; bit k of row y is pixel (k, y).
    pub vram: Seq<u64>,
}

/// The big-endian 16-bit word held at addresses `a` and `a + 1`.
pub open spec fn word_at(ram: Seq<u8>, a: int) -> int {
    ram[a] * 256 + ram[a + 1]
}

/// Top nibble of an opcode: the instruction family.
pub open spec fn op_top(op: int) -> int {
    op / 0x1000
}

/// Low twelve bits of an opcode: an address.
pub open spec fn op_addr(op: int) -> int {
    op % 0x1000
}

/// Bits 8-11 of an opcode: a register index.
pub open spec fn op_x(op: int) -> int {
    (op / 0x100) % 0x10
}

/// Bits 4-7 of an opcode: a second register index.
pub open spec fn op_y(op: int) -> int {
    (op / 0x10) % 0x10
}

/// Low byte of an opcode: an immediate value.
pub open spec fn op_kk(op: int) -> u8 {
    (op % 0x100) as u8
}

/// Low nibble of an opcode: a sprite height or a sub-opcode.
pub open spec fn op_n(op: int) -> int {
    op % 0x10
}

/// Addition on bytes, wrapping.
pub open spec fn wrap_add8(a: u8, b: u8) -> u8 {
    ((a + b) % 256) as u8
}

/// Subtraction on bytes, wrapping.
pub open spec fn wrap_sub8(a: u8, b: u8) -> u8 {
    ((a - b + 256) % 256) as u8
}

/// The built-in font: sixteen glyphs of five bytes, one per hex digit 0-F.
pub open spec fn font_seq() -> Seq<u8> {
    seq![
        0xF0u8, 0x90, 0x90, 0x90, 0xF0, // 0
        0x20, 0x60, 0x20, 0x20, 0x70, // 1
        0xF0, 0x10, 0xF0, 0x80, 0xF0, // 2
        0xF0, 0x10, 0xF0, 0x10, 0xF0, // 3
        0x90, 0x90, 0xF0, 0x10, 0x10, // 4
        0xF0, 0x80, 0xF0, 0x10, 0xF0, // 5
        0xF0, 0x80, 0xF0, 0x90, 0xF0, // 6
        0xF0, 0x10, 0x20, 0x40, 0x40, // 7
        0xF0, 0x90, 0xF0, 0x90, 0xF0, // 8
        0xF0, 0x90, 0xF0, 0x10, 0xF0, // 9
        0xF0, 0x90, 0xF0, 0x90, 0x90, // A
        0xE0, 0x90, 0xE0, 0x90, 0xE0, // B
        0xF0, 0x80, 0x80, 0x80, 0xF0, // C
        0xE0, 0x90, 0x90, 0x90, 0xE0, // D
        0xF0, 0x80, 0xF0, 0x80, 0xF0, // E
        0xF0, 0x80, 0xF0, 0x80, 0x80, // F
    ]
}

/// Memory at creation: zero everywhere but the font region.
pub open spec fn initial_ram() -> Seq<u8> {
    Seq::new(4096, |a: int| if 0x20 <= a < 0x70 { font_seq()[a - 0x20] } else { 0u8 })
}

/// The machine as created: font seeded, program counter at 0x200, all else zero.
pub open spec fn initial_machine() -> MachineV {
    MachineV {
        cycle: 0,
        v: Seq::new(16, |j: int| 0u8),
        i: 0,
        dt: 0,
        st: 0,
        pc: 0x200,
        sp: 0,
        ram: initial_ram(),
        vram: Seq::new(32, |j: int| 0u64),
    }
}

/// Memory after a program image is copied in at 0x200.
pub open spec fn spec_load(ram: Seq<u8>, rom: Seq<u8>) -> Seq<u8> {
    Seq::new(4096, |a: int| if 0x200 <= a < 0x200 + rom.len() { rom[a - 0x200] } else { ram[a] })
}

impl MachineV {
    /// The return address held by call-stack frame `k`.
    pub open spec fn stack_entry(self, k: int) -> int {
        word_at(self.ram, 2 * k)
    }

    /// Frames currently on the call stack.
    pub open spec fn frames(self) -> int {
        self.sp / 2
    }

    /// Well-formedness: the geometry of the state, the stack discipline, the
    /// program counter above the reserved region, every stacked return
    /// address likewise, and the font intact in low memory.
    pub open spec fn wf(self) -> bool {
        &&& self.v.len() == 16
        &&& self.ram.len() == 4096
        &&& self.vram.len() == 32
        &&& self.pc >= 0x200
        &&& 0 <= self.sp <= 32
        &&& self.sp % 2 == 0
        &&& (forall|k: int| 0 <= k < self.frames() ==> #[trigger] self.stack_entry(k) >= 0x200)
        &&& (forall|j: int| 0 <= j < 80 ==> self.ram[0x20 + j] == #[trigger] font_seq()[j])
    }
}

/// Bit reversal of a byte, so that bit 0 of a sprite byte becomes the
/// leftmost pixel of its row.
pub open spec fn rev8(b: u8) -> u8 {
    ((b >> 7) & 0x01) | ((b >> 5) & 0x02) | ((b >> 3) & 0x04) | ((b >> 1) & 0x08) | ((b << 1)
        & 0x10) | ((b << 3) & 0x20) | ((b << 5) & 0x40) | ((b << 7) & 0x80)
}

/// One sprite byte as a 64-bit display lane: bit-reversed and shifted to
/// column `col`. Columns at or past the right edge drop every bit.
pub open spec fn sprite_lane(byte: u8, col: u8) -> u64 {
    if col < 64 {
        (rev8(byte) as u64) << col
    } else {
        0u64
    }
}

/// The display and collision outcome of blitting the first `k` sprite rows
/// read from `ram` at `base`, at column `col` and starting row `row0`. Rows
/// below the bottom edge are dropped; a row collides when it clears a pixel
/// that was set.
pub open spec fn blit_rows(
    vram: Seq<u64>,
    ram: Seq<u8>,
    base: int,
    col: u8,
    row0: u8,
    k: int,
) -> (Seq<u64>, bool)
    decreases k,
{
    if k <= 0 {
        (vram, false)
    } else {
        let (vr, hit) = blit_rows(vram, ram, base, col, row0, k - 1);
        let r = row0 + k - 1;
        if r < 32 {
            let lane = sprite_lane(ram[base + k - 1], col);
            (vr.update(r, vr[r] ^ lane), hit || (vr[r] & lane) != 0)
        } else {
            (vr, hit)
        }
    }
}

/// Memory after registers 0 through `count - 1` are stored at `base`.
pub open spec fn store_regs(ram: Seq<u8>, v: Seq<u8>, base: int, count: int) -> Seq<u8>
    decreases count,
{
    if count <= 0 {
        ram
    } else {
        store_regs(ram, v, base, count - 1).update(base + count - 1, v[count - 1])
    }
}

/// Registers after 0 through `count - 1` are loaded from `base`.
pub open spec fn load_regs(v: Seq<u8>, ram: Seq<u8>, base: int, count: int) -> Seq<u8>
    decreases count,
{
    if count <= 0 {
        v
    } else {
        load_regs(v, ram, base, count - 1).update(count - 1, ram[base + count - 1])
    }
}

/// The lane that sprite row `r - row0` contributes to display row `r`, for a
/// blit reading at `base` with column `col`.
pub open spec fn lane_for(ram: Seq<u8>, base: int, col: u8, row0: u8, r: int) -> u64 {
    sprite_lane(ram[base + (r - row0)], col)
}

/// What `blit_rows` does, row by row: each display row in the drawn band is
/// XORed with its sprite lane, every other row keeps its value, and the
/// collision outcome holds exactly when some drawn lane overlaps a set pixel.
pub proof fn lemma_blit_rows_char(vram: Seq<u64>, ram: Seq<u8>, base: int, col: u8, row0: u8, k: int)
    requires
        vram.len() == 32,
        0 <= k,
    ensures
        blit_rows(vram, ram, base, col, row0, k).0.len() == 32,
        forall|r: int|
            0 <= r < 32 ==> #[trigger] blit_rows(vram, ram, base, col, row0, k).0[r] == (if row0
                <= r < row0 + k {
                vram[r] ^ lane_for(ram, base, col, row0, r)
            } else {
                vram[r]
            }),
        blit_rows(vram, ram, base, col, row0, k).1 == (exists|r: int|
            row0 <= r < row0 + k && r < 32 && vram[r] & #[trigger] lane_for(ram, base, col, row0, r)
                != 0),
    decreases k,
{
    if k > 0 {
        lemma_blit_rows_char(vram, ram, base, col, row0, k - 1);
        let prev = blit_rows(vram, ram, base, col, row0, k - 1);
        let cur = blit_rows(vram, ram, base, col, row0, k);
        let rk = row0 + k - 1;
        if rk < 32 {
            assert(prev.0[rk] == vram[rk]);
            assert(sprite_lane(ram[base + k - 1], col) == lane_for(ram, base, col, row0, rk));
            if prev.1 {
                let rw = choose|r: int|
                    row0 <= r < row0 + (k - 1) && r < 32 && vram[r] & #[trigger] lane_for(
                        ram,
                        base,
                        col,
                        row0,
                        r,
                    ) != 0;
                assert(vram[rw] & lane_for(ram, base, col, row0, rw) != 0);
            }
        } else {
            if prev.1 {
                let rw = choose|r: int|
                    row0 <= r < row0 + (k - 1) && r < 32 && vram[r] & #[trigger] lane_for(
                        ram,
                        base,
                        col,
                        row0,
                        r,
                    ) != 0;
                assert(vram[rw] & lane_for(ram, base, col, row0, rw) != 0);
            }
            if cur.1 {
                let rw = choose|r: int|
                    row0 <= r < row0 + k && r < 32 && vram[r] & #[trigger] lane_for(
                        ram,
                        base,
                        col,
                        row0,
                        r,
                    ) != 0;
                assert(row0 <= rw < row0 + (k - 1));
            }
        }
    }
}

/// What `store_regs` does: the band written gets the register values, and
/// every byte outside it keeps its value.
pub proof fn lemma_store_regs_char(ram: Seq<u8>, v: Seq<u8>, base: int, count: int)
    requires
        0 <= count,
        0 <= base,
        base + count <= ram.len(),
    ensures
        store_regs(ram, v, base, count).len() == ram.len(),
        forall|a: int|
            0 <= a < ram.len() && !(base <= a < base + count) ==> #[trigger] store_regs(
                ram,
                v,
                base,
                count,
            )[a] == ram[a],
        forall|a: int|
            base <= a < base + count ==> #[trigger] store_regs(ram, v, base, count)[a] == v[a
                - base],
    decreases count,
{
    if count > 0 {
        lemma_store_regs_char(ram, v, base, count - 1);
    }
}

/// What `load_regs` does: the first `count` registers take the bytes read,
/// and the rest keep their values.
pub proof fn lemma_load_regs_char(v: Seq<u8>, ram: Seq<u8>, base: int, count: int)
    requires
        0 <= count,
        count <= v.len(),
    ensures
        load_regs(v, ram, base, count).len() == v.len(),
        forall|j: int|
            count <= j < v.len() ==> #[trigger] load_regs(v, ram, base, count)[j] == v[j],
        forall|j: int| 0 <= j < count ==> #[trigger] load_regs(v, ram, base, count)[j] == ram[base
            + j],
    decreases count,
{
    if count > 0 {
        lemma_load_regs_char(v, ram, base, count - 1);
    }
}

/// The system family (top nibble 0): clear the display, or return.
pub open spec fn spec_exec_sys(m: MachineV, op: int) -> Result<(MachineV, bool), Fault> {
    if op_addr(op) == 0x0E0 {
        Ok((MachineV { vram: Seq::new(32, |j: int| 0u64), ..m }, true))
    } else if op_addr(op) == 0x0EE {
        if m.sp == 0 {
            Err(Fault::StackUnderflow)
        } else {
            Ok((MachineV { pc: m.stack_entry(m.frames() - 1), sp: m.sp - 2, ..m }, false))
        }
    } else {
        Err(Fault::UnknownOpcode)
    }
}

/// A jump (top nibble 1 or B): the reserved region is out of bounds.
pub open spec fn spec_exec_jump(m: MachineV, op: int) -> Result<(MachineV, bool), Fault> {
    if op_addr(op) < 0x200 {
        Err(Fault::ReservedJump)
    } else {
        Ok((MachineV { pc: op_addr(op), ..m }, false))
    }
}

/// A call (top nibble 2): push the address of the next instruction, then jump.
pub open spec fn spec_exec_call(m: MachineV, op: int) -> Result<(MachineV, bool), Fault> {
    if op_addr(op) < 0x200 {
        Err(Fault::ReservedJump)
    } else if m.sp >= 32 {
        Err(Fault::StackOverflow)
    } else {
        let hi = (m.pc / 256) as u8;
        let lo = (m.pc % 256) as u8;
        Ok(
            (
                MachineV {
                    ram: m.ram.update(m.sp, hi).update(m.sp + 1, lo),
                    sp: m.sp + 2,
                    pc: op_addr(op),
                    ..m
                },
                false,
            ),
        )
    }
}

/// The register-register ALU family (top nibble 8), selected by the low
/// nibble: the full register file after the operation, or nothing when the
/// sub-opcode is unknown. The flag register is written before the target, so
/// an operation aimed at register 0xF keeps its value, not its flag; the
/// shifts read their source after the flag write, as the reference does.
pub open spec fn spec_alu_regs(sub: int, v: Seq<u8>, x: int, y: int) -> Option<Seq<u8>> {
    if sub == 0x0 {
        Some(v.update(x, v[y]))
    } else if sub == 0x1 {
        Some(v.update(x, v[x] | v[y]))
    } else if sub == 0x2 {
        Some(v.update(x, v[x] & v[y]))
    } else if sub == 0x3 {
        Some(v.update(x, v[x] ^ v[y]))
    } else if sub == 0x4 {
        let carry: u8 = if v[x] + v[y] > 255 {
            1
        } else {
            0
        };
        let sum = wrap_add8(v[x], v[y]);
        Some(v.update(0xF, carry).update(x, sum))
    } else if sub == 0x5 {
        let no_borrow: u8 = if v[x] >= v[y] {
            1
        } else {
            0
        };
        let diff = wrap_sub8(v[x], v[y]);
        Some(v.update(0xF, no_borrow).update(x, diff))
    } else if sub == 0x6 {
        let w = v.update(0xF, v[y] & 1);
        Some(w.update(x, w[y] >> 1))
    } else if sub == 0x7 {
        let no_borrow: u8 = if v[y] >= v[x] {
            1
        } else {
            0
        };
        let diff = wrap_sub8(v[y], v[x]);
        Some(v.update(0xF, no_borrow).update(x, diff))
    } else if sub == 0xE {
        let w = v.update(0xF, v[y] >> 7);
        Some(w.update(x, w[y] << 1))
    } else {
        None
    }
}

/// The key-skip family (top nibble E): skip on a key held, or not held.
pub open spec fn spec_exec_key(m: MachineV, op: int, inp: StepInput) -> Result<
    (MachineV, bool),
    Fault,
> {
    let vx = m.v[op_x(op)];
    if op_kk(op) == 0x9E {
        if vx > 0xF {
            Err(Fault::InvalidKey)
        } else {
            Ok((MachineV { pc: if inp.key_pressed { m.pc + 2 } else { m.pc }, ..m }, false))
        }
    } else if op_kk(op) == 0xA1 {
        if vx > 0xF {
            Err(Fault::InvalidKey)
        } else {
            Ok((MachineV { pc: if inp.key_pressed { m.pc } else { m.pc + 2 }, ..m }, false))
        }
    } else {
        Err(Fault::UnknownOpcode)
    }
}

/// The sprite blit (top nibble D): XOR `n` sprite rows into the display at
/// the column and row named by two registers, and set the flag register to 1
/// exactly when a pixel was cleared, accumulated over the rows.
pub open spec fn spec_exec_draw(m: MachineV, op: int) -> Result<(MachineV, bool), Fault> {
    let col = m.v[op_x(op)];
    let row0 = m.v[op_y(op)];
    let n = op_n(op);
    if m.i + n > 4096 {
        Err(Fault::AddressOutOfBounds)
    } else {
        let (vr, hit) = blit_rows(m.vram, m.ram, m.i as int, col, row0, n);
        let flag: u8 = if hit {
            1
        } else {
            0
        };
        Ok((MachineV { vram: vr, v: m.v.update(0xF, flag), ..m }, true))
    }
}

/// The timer-and-memory family (top nibble F), selected by the low byte.
pub open spec fn spec_exec_misc(m: MachineV, op: int, inp: StepInput) -> Result<
    (MachineV, bool),
    Fault,
> {
    let x = op_x(op);
    let kk = op_kk(op);
    if kk == 0x07 {
        Ok((MachineV { v: m.v.update(x, m.dt), ..m }, false))
    } else if kk == 0x0A {
        match inp.pressed_key {
            Some(key) => Ok((MachineV { v: m.v.update(x, key), ..m }, false)),
            None => Ok((MachineV { pc: m.pc - 2, ..m }, false)),
        }
    } else if kk == 0x15 {
        Ok((MachineV { dt: m.v[x], ..m }, false))
    } else if kk == 0x18 {
        Ok((MachineV { st: m.v[x], ..m }, false))
    } else if kk == 0x1E {
        Ok((MachineV { i: ((m.i + m.v[x]) % 0x10000) as u16, ..m }, false))
    } else if kk == 0x29 {
        Ok((MachineV { i: (0x20 + m.v[x] * 5) as u16, ..m }, false))
    } else if kk == 0x33 {
        if m.i < 0x200 {
            Err(Fault::ReservedWrite)
        } else if m.i + 3 > 4096 {
            Err(Fault::AddressOutOfBounds)
        } else {
            let vx = m.v[x];
            let ram2 = m.ram.update(m.i as int, (vx / 100) as u8).update(
                m.i + 1,
                ((vx / 10) % 10) as u8,
            ).update(m.i + 2, (vx % 10) as u8);
            Ok((MachineV { ram: ram2, ..m }, false))
        }
    } else if kk == 0x55 {
        if m.i < 0x200 {
            Err(Fault::ReservedWrite)
        } else if m.i + x + 1 > 4096 {
            Err(Fault::AddressOutOfBounds)
        } else {
            Ok(
                (
                    MachineV {
                        ram: store_regs(m.ram, m.v, m.i as int, x + 1),
                        i: (m.i + x + 1) as u16,
                        ..m
                    },
                    false,
                ),
            )
        }
    } else if kk == 0x65 {
        if m.i + x + 1 > 4096 {
            Err(Fault::AddressOutOfBounds)
        } else {
            Ok(
                (
                    MachineV {
                        v: load_regs(m.v, m.ram, m.i as int, x + 1),
                        i: (m.i + x + 1) as u16,
                        ..m
                    },
                    false,
                ),
            )
        }
    } else {
        Err(Fault::UnknownOpcode)
    }
}

/// Dispatch of one decoded opcode against a machine whose program counter has
/// already advanced past it.
pub open spec fn spec_exec(m: MachineV, op: int, inp: StepInput) -> Result<
    (MachineV, bool),
    Fault,
> {
    let top = op_top(op);
    if top == 0x0 {
        spec_exec_sys(m, op)
    } else if top == 0x1 {
        spec_exec_jump(m, op)
    } else if top == 0x2 {
        spec_exec_call(m, op)
    } else if top == 0x3 {
        Ok(
            (
                MachineV {
                    pc: if m.v[op_x(op)] == op_kk(op) {
                        m.pc + 2
                    } else {
                        m.pc
                    },
                    ..m
                },
                false,
            ),
        )
    } else if top == 0x4 {
        Ok(
            (
                MachineV {
                    pc: if m.v[op_x(op)] != op_kk(op) {
                        m.pc + 2
                    } else {
                        m.pc
                    },
                    ..m
                },
                false,
            ),
        )
    } else if top == 0x5 {
        if op_n(op) != 0 {
            Err(Fault::UnknownOpcode)
        } else {
            Ok(
                (
                    MachineV {
                        pc: if m.v[op_x(op)] == m.v[op_y(op)] {
                            m.pc + 2
                        } else {
                            m.pc
                        },
                        ..m
                    },
                    false,
                ),
            )
        }
    } else if top == 0x6 {
        Ok((MachineV { v: m.v.update(op_x(op), op_kk(op)), ..m }, false))
    } else if top == 0x7 {
        Ok((MachineV { v: m.v.update(op_x(op), wrap_add8(m.v[op_x(op)], op_kk(op))), ..m }, false))
    } else if top == 0x8 {
        match spec_alu_regs(op_n(op), m.v, op_x(op), op_y(op)) {
            Some(v2) => Ok((MachineV { v: v2, ..m }, false)),
            None => Err(Fault::UnknownOpcode),
        }
    } else if top == 0x9 {
        if op_n(op) != 0 {
            Err(Fault::UnknownOpcode)
        } else {
            Ok(
                (
                    MachineV {
                        pc: if m.v[op_x(op)] != m.v[op_y(op)] {
                            m.pc + 2
                        } else {
                            m.pc
                        },
                        ..m
                    },
                    false,
                ),
            )
        }
    } else if top == 0xA {
        Ok((MachineV { i: op_addr(op) as u16, ..m }, false))
    } else if top == 0xB {
        spec_exec_jump(m, op)
    } else if top == 0xC {
        Ok((MachineV { v: m.v.update(op_x(op), inp.random & op_kk(op)), ..m }, false))
    } else if top == 0xD {
        spec_exec_draw(m, op)
    } else if top == 0xE {
        spec_exec_key(m, op, inp)
    } else if top == 0xF {
        spec_exec_misc(m, op, inp)
    } else {
        Err(Fault::UnknownOpcode)
    }
}

/// The write-back shared by every successful step: on each cycle divisible by
/// eight both timers decay by one, saturating at zero; the cycle counter
/// advances, wrapping at its width.
pub open spec fn spec_tick(m: MachineV) -> MachineV {
    let decayed = if m.cycle % 8 == 0 {
        MachineV {
            dt: if m.dt > 0 {
                (m.dt - 1) as u8
            } else {
                0
            },
            st: if m.st > 0 {
                (m.st - 1) as u8
            } else {
                0
            },
            ..m
        }
    } else {
        m
    };
    MachineV {
        cycle: if m.cycle == 0xFFFF_FFFF_FFFF_FFFFu64 {
            0
        } else {
            (m.cycle + 1) as u64
        },
        ..decayed
    }
}

/// One whole fetch-decode-execute step: fetch the big-endian opcode at the
/// program counter, advance past it, execute, then write back the timers and
/// the cycle counter. On a fault nothing changes. The second component of a
/// successful outcome says whether the instruction mutated the display.
pub open spec fn spec_step(pre: MachineV, inp: StepInput) -> Result<(MachineV, bool), Fault> {
    if pre.pc + 1 >= 4096 {
        Err(Fault::AddressOutOfBounds)
    } else {
        let op = word_at(pre.ram, pre.pc);
        let m = MachineV { pc: pre.pc + 2, ..pre };
        match spec_exec(m, op, inp) {
            Ok((m2, redraw)) => Ok((spec_tick(m2), redraw)),
            Err(f) => Err(f),
        }
    }
}

/// Well-formedness carries over to any machine with the same memory and
/// stack pointer, the right geometry, and a program counter above the
/// reserved region.
pub proof fn lemma_wf_carry(a: MachineV, b: MachineV)
    requires
        a.wf(),
        b.ram == a.ram,
        0 <= b.sp <= a.sp,
        b.sp % 2 == 0,
        b.v.len() == 16,
        b.vram.len() == 32,
        b.pc >= 0x200,
    ensures
        b.wf(),
{
    assert forall|k: int| 0 <= k < b.frames() implies #[trigger] b.stack_entry(k) >= 0x200 by {
        assert(a.stack_entry(k) >= 0x200);
    }
    assert forall|j: int| 0 <= j < 80 implies b.ram[0x20 + j] == #[trigger] font_seq()[j] by {
        assert(a.ram[0x20 + j] == font_seq()[j]);
    }
}

/// The write-back preserves well-formedness: it touches only the timers and
/// the cycle counter.
pub proof fn lemma_tick_wf(m: MachineV)
    requires
        m.wf(),
    ensures
        spec_tick(m).wf(),
{
    lemma_wf_carry(m, spec_tick(m));
}

/// Every successful step leaves a well-formed machine: the geometry is kept,
/// the stack discipline holds, and the program counter and every stacked
/// return address stay above the reserved region, with the font intact.
pub proof fn lemma_step_preserves_wf(pre: MachineV, inp: StepInput)
    requires
        pre.wf(),
    ensures
        spec_step(pre, inp) matches Ok(p) ==> p.0.wf(),
{
    if pre.pc + 1 >= 4096 {
        return ;
    }
    let op = word_at(pre.ram, pre.pc);
    let m = MachineV { pc: pre.pc + 2, ..pre };
    lemma_wf_carry(pre, m);
    let top = op_top(op);
    if spec_exec(m, op, inp) is Ok {
        let m2 = spec_exec(m, op, inp)->Ok_0.0;
        if top == 0x0 {
            if op_addr(op) == 0x0E0 {
                lemma_wf_carry(m, m2);
            } else {
                assert(m.stack_entry(m.frames() - 1) >= 0x200);
                lemma_wf_carry(m, m2);
            }
        } else if top == 0x1 || top == 0xB {
            lemma_wf_carry(m, m2);
        } else if top == 0x2 {
            let hi = (m.pc / 256) as u8;
            let lo = (m.pc % 256) as u8;
            let ram2 = m.ram.update(m.sp, hi).update(m.sp + 1, lo);
            assert(m2.ram == ram2);
            assert forall|k: int| 0 <= k < m2.frames() implies #[trigger] m2.stack_entry(k)
                >= 0x200 by {
                if k < m.frames() {
                    assert(m.stack_entry(k) >= 0x200);
                    assert(2 * k + 1 < m.sp);
                    assert(m2.stack_entry(k) == m.stack_entry(k));
                } else {
                    assert(2 * k == m.sp);
                    assert(ram2[2 * k] == hi);
                    assert(ram2[2 * k + 1] == lo);
                    assert(hi * 256 + lo == m.pc);
                }
            }
            assert forall|j: int| 0 <= j < 80 implies m2.ram[0x20 + j] == #[trigger] font_seq()[j] by {
                assert(m.ram[0x20 + j] == font_seq()[j]);
                assert(0x20 + j > m.sp + 1);
            }
        } else if top == 0x3 || top == 0x4 || top == 0x5 || top == 0x6 || top == 0x7 || top == 0x9
            || top == 0xA || top == 0xC {
            lemma_wf_carry(m, m2);
        } else if top == 0x8 {
            lemma_wf_carry(m, m2);
        } else if top == 0xD {
            lemma_blit_rows_char(m.vram, m.ram, m.i as int, m.v[op_x(op)], m.v[op_y(op)], op_n(op));
            lemma_wf_carry(m, m2);
        } else if top == 0xE {
            lemma_wf_carry(m, m2);
        } else {
            let x = op_x(op);
            let kk = op_kk(op);
            if kk == 0x33 {
                assert forall|k: int| 0 <= k < m2.frames() implies #[trigger] m2.stack_entry(k)
                    >= 0x200 by {
                    assert(m.stack_entry(k) >= 0x200);
                    assert(2 * k + 1 < 32);
                    assert(m2.stack_entry(k) == m.stack_entry(k));
                }
                assert forall|j: int| 0 <= j < 80 implies m2.ram[0x20 + j] == #[trigger] font_seq()[j] by {
                    assert(m.ram[0x20 + j] == font_seq()[j]);
                    assert(0x20 + j < 0x200);
                }
            } else if kk == 0x55 {
                lemma_store_regs_char(m.ram, m.v, m.i as int, x + 1);
                assert forall|k: int| 0 <= k < m2.frames() implies #[trigger] m2.stack_entry(k)
                    >= 0x200 by {
                    assert(m.stack_entry(k) >= 0x200);
                    assert(2 * k + 1 < 32);
                    assert(m2.ram[2 * k] == m.ram[2 * k]);
                    assert(m2.ram[2 * k + 1] == m.ram[2 * k + 1]);
                }
                assert forall|j: int| 0 <= j < 80 implies m2.ram[0x20 + j] == #[trigger] font_seq()[j] by {
                    assert(m.ram[0x20 + j] == font_seq()[j]);
                    assert(m2.ram[0x20 + j] == m.ram[0x20 + j]);
                }
            } else if kk == 0x65 {
                lemma_load_regs_char(m.v, m.ram, m.i as int, x + 1);
                lemma_wf_carry(m, m2);
            } else {
                lemma_wf_carry(m, m2);
            }
        }
        assert(m2.wf());
        lemma_tick_wf(m2);
    }
}

} // verus!
