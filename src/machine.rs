//! The abstract state of the interpreter and the meaning of every instruction,
//! stated over mathematical sequences and integers.
use vstd::prelude::*;

verus! {

/// Size of the address space in bytes.
pub const MEM_SIZE: usize = 4096;

/// Address at which a program image is loaded and execution starts.
pub const PROGRAM_START: usize = 0x200;

/// Largest program image that fits between the load address and the end of memory.
pub const MAX_PROGRAM_LEN: usize = 3584;

pub const GFX_COLS: usize = 64;

pub const GFX_ROWS: usize = 32;

/// Number of framebuffer cells, stored row by row.
pub const GFX_CELLS: usize = 2048;

pub const NUM_REGS: usize = 16;

pub const NUM_KEYS: usize = 16;

/// Capacity of the call stack.
pub const STACK_DEPTH: usize = 16;

/// Bytes of the built-in font (16 glyphs of 5 rows each).
pub const FONT_LEN: usize = 80;

/// Upper bound on every program counter value the machine can reach
/// (the largest is `0xFF + 0xFFF`, reached by a register-relative jump).
pub const PC_LIMIT: usize = 0x1100;

/// Fatal conditions of one execution step.
#[derive(Debug, Clone, Copy, PartialEq, Eq, Structural)]
pub enum ExecError {
    /// The fetched word matches no instruction.
    IllegalOpcode { word: u16, pc: usize },
    /// A subroutine call with all stack slots in use.
    StackOverflow { pc: usize },
    /// An instruction fetch or an index-relative access would reach past the end of memory.
    AddressOutOfRange { addr: usize, pc: usize },
}

/// Failure to load a program image.
#[derive(Debug, Clone, Copy, PartialEq, Eq, Structural)]
pub enum LoadError {
    /// The image is longer than `MAX_PROGRAM_LEN` bytes.
    ProgramTooLarge,
}

/// The interpreter state as a mathematical value.
pub struct Machine {
    pub mem: Seq<u8>,
    /// Framebuffer cells, row-major: cell `row * 64 + col`.
    pub gfx: Seq<u8>,
    pub reg: Seq<u8>,
    /// The instruction word fetched last.
    pub op: u16,
    pub idx: u16,
    pub pc: int,
    pub delay: u8,
    pub sound: u8,
    pub stack: Seq<usize>,
    pub sp: int,
    pub keys: Seq<bool>,
    pub draw: bool,
}

pub open spec fn font_glyphs() -> Seq<u8> {
    seq![
        0xF0u8, 0x90, 0x90, 0x90, 0xF0,
        0x20, 0x60, 0x20, 0x20, 0x70,
        0xF0, 0x10, 0xF0, 0x80, 0xF0,
        0xF0, 0x10, 0xF0, 0x10, 0xF0,
        0x90, 0x90, 0xF0, 0x10, 0x10,
        0xF0, 0x80, 0xF0, 0x10, 0xF0,
        0xF0, 0x80, 0xF0, 0x90, 0xF0,
        0xF0, 0x10, 0x20, 0x40, 0x40,
        0xF0, 0x90, 0xF0, 0x90, 0xF0,
        0xF0, 0x90, 0xF0, 0x10, 0xF0,
        0xF0, 0x90, 0xF0, 0x90, 0x90,
        0xE0, 0x90, 0xE0, 0x90, 0xE0,
        0xF0, 0x80, 0x80, 0x80, 0xF0,
        0xE0, 0x90, 0x90, 0x90, 0xE0,
        0xF0, 0x80, 0xF0, 0x80, 0xF0,
        0xF0, 0x80, 0xF0, 0x80, 0x80,
    ]
}

impl Machine {
    pub open spec fn wf(self) -> bool {
        &&& self.mem.len() == MEM_SIZE
        &&& self.gfx.len() == GFX_CELLS
        &&& forall|k: int| 0 <= k < GFX_CELLS ==> #[trigger] self.gfx[k] <= 1
        &&& self.reg.len() == NUM_REGS
        &&& self.stack.len() == STACK_DEPTH
        &&& forall|i: int| 0 <= i < STACK_DEPTH ==> #[trigger] self.stack[i] <= PC_LIMIT
        &&& 0 <= self.sp <= STACK_DEPTH
        &&& self.keys.len() == NUM_KEYS
        &&& 0 <= self.pc <= PC_LIMIT
    }

    /// The state right after construction: font loaded, program counter at the load address.
    pub open spec fn initial() -> Machine {
        Machine {
            mem: Seq::new(MEM_SIZE as nat, |a: int| if a < FONT_LEN { font_glyphs()[a] } else { 0u8 }),
            gfx: Seq::new(GFX_CELLS as nat, |k: int| 0u8),
            reg: Seq::new(NUM_REGS as nat, |i: int| 0u8),
            op: 0,
            idx: 0,
            pc: PROGRAM_START as int,
            delay: 0,
            sound: 0,
            stack: Seq::new(STACK_DEPTH as nat, |i: int| 0usize),
            sp: 0,
            keys: Seq::new(NUM_KEYS as nat, |i: int| false),
            draw: false,
        }
    }
}

/// Memory after a program image is copied in at the load address.
pub open spec fn loaded(mem: Seq<u8>, rom: Seq<u8>) -> Seq<u8> {
    Seq::new(
        mem.len(),
        |a: int|
            if PROGRAM_START <= a < PROGRAM_START + rom.len() {
                rom[a - PROGRAM_START]
            } else {
                mem[a]
            },
    )
}

/// The big-endian word formed by the bytes at `a` and `a + 1`.
pub open spec fn word_at(mem: Seq<u8>, a: int) -> u16 {
    (mem[a] as int * 256 + mem[a + 1] as int) as u16
}

pub open spec fn family(w: u16) -> int {
    w as int / 0x1000
}

pub open spec fn op_x(w: u16) -> int {
    (w as int / 0x100) % 16
}

pub open spec fn op_y(w: u16) -> int {
    (w as int / 0x10) % 16
}

pub open spec fn op_n(w: u16) -> int {
    w as int % 16
}

pub open spec fn op_kk(w: u16) -> u8 {
    (w as int % 0x100) as u8
}

pub open spec fn op_nnn(w: u16) -> int {
    w as int % 0x1000
}

pub open spec fn advance(m: Machine, by: int) -> Machine {
    Machine { pc: m.pc + by, ..m }
}

/// Move past the current instruction, and past the next one too when `cond` holds.
pub open spec fn skip_if(m: Machine, cond: bool) -> Machine {
    advance(m, if cond { 4 } else { 2 })
}

pub open spec fn with_reg(m: Machine, r: int, v: u8) -> Machine {
    Machine { reg: m.reg.update(r, v), ..m }
}

/// Store `v` in register `x`, then `flag` in the flag register.
pub open spec fn with_result(m: Machine, x: int, v: u8, flag: u8) -> Machine {
    with_reg(with_reg(m, x, v), 15, flag)
}

pub open spec fn alu_defined(n: int) -> bool {
    0 <= n <= 7 || n == 0xE
}

/// The register-to-register operations `8xyn`.
pub open spec fn alu(m: Machine, x: int, y: int, n: int) -> Machine {
    let vx = m.reg[x];
    let vy = m.reg[y];
    if n == 0 {
        with_reg(m, x, vy)
    } else if n == 1 {
        with_reg(m, x, vx | vy)
    } else if n == 2 {
        with_reg(m, x, vx & vy)
    } else if n == 3 {
        with_reg(m, x, vx ^ vy)
    } else if n == 4 {
        with_result(m, x, ((vx + vy) % 256) as u8, if vx + vy > 255 { 1 } else { 0 })
    } else if n == 5 {
        with_result(m, x, ((vx - vy) % 256) as u8, if vx >= vy { 1 } else { 0 })
    } else if n == 6 {
        with_result(m, x, (vx / 2) as u8, (vx % 2) as u8)
    } else if n == 7 {
        with_result(m, x, ((vy - vx) % 256) as u8, if vy >= vx { 1 } else { 0 })
    } else {
        with_result(m, x, ((vx * 2) % 256) as u8, (vx / 128) as u8)
    }
}

/// Whether bit `c` (0 = leftmost) of a sprite row is set.
pub open spec fn row_bit(row: u8, c: int) -> bool {
    row & (0x80u8 >> (c as u8)) != 0
}

/// Whether an `n`-row sprite read at `idx` and placed at `(vx, vy)`, wrapping on
/// both axes, has a set pixel over framebuffer cell `k`.
pub open spec fn sprite_covers(mem: Seq<u8>, idx: int, vx: u8, vy: u8, n: int, k: int) -> bool {
    let line = (k / 64 - vy as int) % 32;
    let dc = (k % 64 - vx as int) % 64;
    line < n && dc < 8 && row_bit(mem[idx + line], dc)
}

/// The framebuffer after XOR-drawing the sprite.
pub open spec fn drawn(m: Machine, vx: u8, vy: u8, n: int) -> Seq<u8> {
    Seq::new(
        GFX_CELLS as nat,
        |k: int|
            if sprite_covers(m.mem, m.idx as int, vx, vy, n, k) {
                if m.gfx[k] == 1 { 0u8 } else { 1u8 }
            } else {
                m.gfx[k]
            },
    )
}

/// Whether the sprite turns off some pixel that was on.
pub open spec fn collides(m: Machine, vx: u8, vy: u8, n: int) -> bool {
    exists|k: int|
        0 <= k < GFX_CELLS && #[trigger] sprite_covers(m.mem, m.idx as int, vx, vy, n, k)
            && m.gfx[k] == 1
}

pub open spec fn draw_sprite(m: Machine, vx: u8, vy: u8, n: int) -> Machine {
    with_reg(
        Machine { gfx: drawn(m, vx, vy, n), draw: true, ..m },
        15,
        if collides(m, vx, vy, n) { 1 } else { 0 },
    )
}

/// The lowest pressed key at or above `i`, or 16 when there is none.
pub open spec fn first_pressed_from(keys: Seq<bool>, i: int) -> int
    decreases NUM_KEYS - i,
{
    if i >= NUM_KEYS {
        NUM_KEYS as int
    } else if keys[i] {
        i
    } else {
        first_pressed_from(keys, i + 1)
    }
}

pub open spec fn first_pressed(keys: Seq<bool>) -> int {
    first_pressed_from(keys, 0)
}

/// Memory with registers `0..=x` stored from address `i`.
pub open spec fn stored_regs(m: Machine, x: int) -> Seq<u8> {
    let i = m.idx as int;
    Seq::new(m.mem.len(), |a: int| if i <= a <= i + x { m.reg[a - i] } else { m.mem[a] })
}

/// Registers with `0..=x` loaded from memory at address `i`.
pub open spec fn loaded_regs(m: Machine, x: int) -> Seq<u8> {
    let i = m.idx as int;
    Seq::new(m.reg.len(), |r: int| if r <= x { m.mem[i + r] } else { m.reg[r] })
}

/// Memory with the decimal digits of `v` written at `i`, `i + 1`, `i + 2`.
pub open spec fn bcd(mem: Seq<u8>, i: int, v: u8) -> Seq<u8> {
    mem.update(i, (v / 100) as u8).update(i + 1, ((v / 10) % 10) as u8).update(i + 2, (v % 10) as u8)
}

pub open spec fn out_of_range(m: Machine, addr: int) -> Result<Machine, ExecError> {
    Err(ExecError::AddressOutOfRange { addr: addr as usize, pc: m.pc as usize })
}

pub open spec fn illegal(m: Machine, w: u16) -> Result<Machine, ExecError> {
    Err(ExecError::IllegalOpcode { word: w, pc: m.pc as usize })
}

/// The `Fxkk` instructions.
pub open spec fn execute_misc(m: Machine, w: u16) -> Result<Machine, ExecError> {
    let x = op_x(w);
    let kk = op_kk(w);
    let vx = m.reg[x];
    let i = m.idx as int;
    if kk == 0x07 {
        Ok(advance(with_reg(m, x, m.delay), 2))
    } else if kk == 0x0A {
        let k = first_pressed(m.keys);
        if k < NUM_KEYS {
            Ok(advance(with_reg(m, x, k as u8), 2))
        } else {
            Ok(m)
        }
    } else if kk == 0x15 {
        Ok(advance(Machine { delay: vx, ..m }, 2))
    } else if kk == 0x18 {
        Ok(advance(Machine { sound: vx, ..m }, 2))
    } else if kk == 0x1E {
        Ok(advance(Machine { idx: ((i + vx) % 0x10000) as u16, ..m }, 2))
    } else if kk == 0x29 {
        Ok(advance(Machine { idx: ((vx % 16) * 5) as u16, ..m }, 2))
    } else if kk == 0x33 {
        if i + 3 > MEM_SIZE {
            out_of_range(m, i)
        } else {
            Ok(advance(Machine { mem: bcd(m.mem, i, vx), ..m }, 2))
        }
    } else if kk == 0x55 {
        if i + x + 1 > MEM_SIZE {
            out_of_range(m, i)
        } else {
            Ok(advance(Machine { mem: stored_regs(m, x), ..m }, 2))
        }
    } else if kk == 0x65 {
        if i + x + 1 > MEM_SIZE {
            out_of_range(m, i)
        } else {
            Ok(advance(Machine { reg: loaded_regs(m, x), ..m }, 2))
        }
    } else {
        illegal(m, w)
    }
}

/// The effect of instruction `w` on `m`, with `rand` as the random byte, before
/// the timers are updated.
///
/// Policies where the instruction set leaves a choice: byte additions and
/// subtractions wrap modulo 256; an instruction that reports a carry, borrow,
/// shifted-out bit or collision writes the flag register after its result; the
/// key tested by `Ex9E` / `ExA1` is the low nibble of register `x`; a return
/// with an empty stack leaves the depth at zero and resumes at the bottom slot;
/// an index-relative access that would reach past the end of memory is an error.
pub open spec fn execute(m: Machine, w: u16, rand: u8) -> Result<Machine, ExecError> {
    let f = family(w);
    let x = op_x(w);
    let y = op_y(w);
    let n = op_n(w);
    let kk = op_kk(w);
    let nnn = op_nnn(w);
    let vx = m.reg[x];
    let vy = m.reg[y];
    if f == 0 {
        if w == 0x00E0 {
            Ok(advance(Machine { gfx: Seq::new(GFX_CELLS as nat, |k: int| 0u8), draw: true, ..m }, 2))
        } else if w == 0x00EE {
            let sp = if m.sp > 0 { m.sp - 1 } else { 0 };
            Ok(Machine { sp: sp, pc: m.stack[sp] as int, ..m })
        } else {
            illegal(m, w)
        }
    } else if f == 1 {
        Ok(Machine { pc: nnn, ..m })
    } else if f == 2 {
        if m.sp >= STACK_DEPTH {
            Err(ExecError::StackOverflow { pc: m.pc as usize })
        } else {
            Ok(Machine { stack: m.stack.update(m.sp, (m.pc + 2) as usize), sp: m.sp + 1, pc: nnn, ..m })
        }
    } else if f == 3 {
        Ok(skip_if(m, vx == kk))
    } else if f == 4 {
        Ok(skip_if(m, vx != kk))
    } else if f == 5 {
        if n == 0 { Ok(skip_if(m, vx == vy)) } else { illegal(m, w) }
    } else if f == 6 {
        Ok(advance(with_reg(m, x, kk), 2))
    } else if f == 7 {
        Ok(advance(with_reg(m, x, ((vx + kk) % 256) as u8), 2))
    } else if f == 8 {
        if alu_defined(n) { Ok(advance(alu(m, x, y, n), 2)) } else { illegal(m, w) }
    } else if f == 9 {
        if n == 0 { Ok(skip_if(m, vx != vy)) } else { illegal(m, w) }
    } else if f == 0xA {
        Ok(advance(Machine { idx: nnn as u16, ..m }, 2))
    } else if f == 0xB {
        Ok(Machine { pc: m.reg[0] + nnn, ..m })
    } else if f == 0xC {
        Ok(advance(with_reg(m, x, rand & kk), 2))
    } else if f == 0xD {
        if m.idx + n > MEM_SIZE {
            out_of_range(m, m.idx as int)
        } else {
            Ok(advance(draw_sprite(m, vx, vy, n), 2))
        }
    } else if f == 0xE {
        if kk == 0x9E {
            Ok(skip_if(m, m.keys[(vx % 16) as int]))
        } else if kk == 0xA1 {
            Ok(skip_if(m, !m.keys[(vx % 16) as int]))
        } else {
            illegal(m, w)
        }
    } else {
        execute_misc(m, w)
    }
}

/// Each timer moves one step toward zero.
pub open spec fn tick(m: Machine) -> Machine {
    Machine {
        delay: if m.delay > 0 { (m.delay - 1) as u8 } else { 0 },
        sound: if m.sound > 0 { (m.sound - 1) as u8 } else { 0 },
        ..m
    }
}

/// Whether both bytes of the instruction at the program counter lie in memory.
pub open spec fn can_fetch(m: Machine) -> bool {
    m.pc + 1 < MEM_SIZE
}

/// One full cycle: fetch, clear the redraw signal, execute, update the timers.
/// The timers move once per executed instruction, so they count in real time only
/// when the driver runs one cycle per intended timer tick.
#[verifier::opaque]
pub open spec fn step(m: Machine, rand: u8) -> Result<Machine, ExecError> {
    if !can_fetch(m) {
        out_of_range(m, m.pc + 1)
    } else {
        let w = word_at(m.mem, m.pc);
        match execute(Machine { op: w, draw: false, ..m }, w, rand) {
            Ok(n) => Ok(tick(n)),
            Err(e) => Err(e),
        }
    }
}

/// Whether `after` and the returned `r` are what `expected` prescribes for a step
/// from `before`: the new state on success, the error and an untouched state on failure.
pub open spec fn follows(
    before: Machine,
    after: Machine,
    r: Result<(), ExecError>,
    expected: Result<Machine, ExecError>,
) -> bool {
    match expected {
        Ok(m) => r is Ok && after == m,
        Err(e) => r == Err::<(), ExecError>(e) && after == before,
    }
}

/// The word fetched from two bytes is the first byte shifted into the high half,
/// OR-ed with the second.
pub proof fn lemma_word_at_big_endian(mem: Seq<u8>, a: int)
    requires
        0 <= a,
        a + 1 < mem.len(),
    ensures
        word_at(mem, a) == ((mem[a] as u16) << 8u16) | (mem[a + 1] as u16),
{
    let b1 = mem[a];
    let b2 = mem[a + 1];
    assert(((b1 as u16) << 8u16) | (b2 as u16) == (b1 as u16) * 256 + (b2 as u16)) by (bit_vector);
}

} // verus!
