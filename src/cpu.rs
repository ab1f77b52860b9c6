//! The executable interpreter, proved against the model in `machine`.
use vstd::prelude::*;
use crate::machine::{
    alu, alu_defined, can_fetch, draw_sprite, drawn, execute, execute_misc, first_pressed,
    first_pressed_from, font_glyphs, loaded, loaded_regs, sprite_covers, step, stored_regs,
    word_at, follows, ExecError, LoadError, Machine, FONT_LEN, GFX_CELLS, GFX_COLS, GFX_ROWS,
    MAX_PROGRAM_LEN, MEM_SIZE, NUM_KEYS, NUM_REGS, PROGRAM_START, STACK_DEPTH,
};

verus! {

/// Complete interpreter state: memory, framebuffer, registers, timers, call stack and keys.
pub struct Cpu {
    mem: Vec<u8>,
    gfx: Vec<u8>,
    reg: Vec<u8>,
    op: u16,
    idx: u16,
    pc: usize,
    del_timer: u8,
    snd_timer: u8,
    stack: Vec<usize>,
    sp: usize,
    key: Vec<bool>,
    draw: bool,
}

impl View for Cpu {
    type V = Machine;

    closed spec fn view(&self) -> Machine {
        Machine {
            mem: self.mem@,
            gfx: self.gfx@,
            reg: self.reg@,
            op: self.op,
            idx: self.idx,
            pc: self.pc as int,
            delay: self.del_timer,
            sound: self.snd_timer,
            stack: self.stack@,
            sp: self.sp as int,
            keys: self.key@,
            draw: self.draw,
        }
    }
}

fn font() -> (r: Vec<u8>)
    ensures
        r@ == font_glyphs(),
{
    let v: Vec<u8> = vec![
        0xF0u8, 0x90, 0x90, 0x90, 0xF0,
        0x20, 0x60, 0x20, 0x20, 0x70,
        0xF0, 0x10, 0xF0, 0x80, 0xF0,
        0xF0, 0x10, 0xF0, 0x10, 0xF0,
        0x90, 0x90, 0xF0, 0x10, 0x10,
        0xF0, 0x80, 0xF0, 0x10, 0xF0,
        0xF0, 0x80, 0xF0, 0x90, 0xF0,
        0xF0, 0x10, 0x20, 0x40, 0x40,
        0xF0, 0x90, 0xF0, 0x90, 0xF0,
        0xF0, 0x90, 0xF0, 0x10, 0xF0,
        0xF0, 0x90, 0xF0, 0x90, 0x90,
        0xE0, 0x90, 0xE0, 0x90, 0xE0,
        0xF0, 0x80, 0x80, 0x80, 0xF0,
        0xE0, 0x90, 0x90, 0x90, 0xE0,
        0xF0, 0x80, 0xF0, 0x80, 0xF0,
        0xF0, 0x80, 0xF0, 0x80, 0x80,
    ];
    assert(v@ =~= font_glyphs());
    v
}

impl Cpu {
    pub open spec fn wf(&self) -> bool {
        self@.wf()
    }

    /// A machine with cleared state, the font at address 0 and the program counter
    /// at the load address.
    pub fn new() -> (r: Cpu)
        ensures
            r.wf(),
            r@ == Machine::initial(),
    {
        let glyphs = font();
        let mut mem: Vec<u8> = vec![0u8; MEM_SIZE];
        let mut i: usize = 0;
        while i < FONT_LEN
            invariant
                i <= FONT_LEN,
                glyphs@ == font_glyphs(),
                mem@.len() == MEM_SIZE,
                forall|a: int| 0 <= a < i ==> mem@[a] == font_glyphs()[a],
                forall|a: int| i <= a < MEM_SIZE ==> mem@[a] == 0,
            decreases FONT_LEN - i,
        {
            mem.set(i, glyphs[i]);
            i = i + 1;
        }
        let cpu = Cpu {
            mem,
            gfx: vec![0u8; GFX_CELLS],
            reg: vec![0u8; NUM_REGS],
            op: 0,
            idx: 0,
            pc: PROGRAM_START,
            del_timer: 0,
            snd_timer: 0,
            stack: vec![0usize; STACK_DEPTH],
            sp: 0,
            key: vec![false; NUM_KEYS],
            draw: false,
        };
        assert(cpu@.mem =~= Machine::initial().mem);
        assert(cpu@.gfx =~= Machine::initial().gfx);
        assert(cpu@.reg =~= Machine::initial().reg);
        assert(cpu@.stack =~= Machine::initial().stack);
        assert(cpu@.keys =~= Machine::initial().keys);
        cpu
    }

    /// Copies a program image into memory at the load address. An image longer
    /// than `MAX_PROGRAM_LEN` bytes is refused and nothing is written.
    pub fn load_rom(&mut self, rom: &[u8]) -> (r: Result<(), LoadError>)
        requires
            old(self).wf(),
        ensures
            final(self).wf(),
            r is Ok <==> rom@.len() <= MAX_PROGRAM_LEN,
            r is Ok ==> final(self)@ == (Machine { mem: loaded(old(self)@.mem, rom@), ..old(self)@ }),
            r is Err ==> r == Err::<(), LoadError>(LoadError::ProgramTooLarge) && final(self)@ == old(self)@,
    {
        if rom.len() > MAX_PROGRAM_LEN {
            return Err(LoadError::ProgramTooLarge);
        }
        let mut i: usize = 0;
        while i < rom.len()
            invariant
                rom@.len() <= MAX_PROGRAM_LEN,
                i <= rom@.len(),
                self.wf(),
                self@ == (Machine { mem: self@.mem, ..old(self)@ }),
                forall|a: int| 0 <= a < MEM_SIZE ==> #[trigger] self@.mem[a] == (
                    if PROGRAM_START <= a < PROGRAM_START + i { rom@[a - PROGRAM_START] } else { old(self)@.mem[a] }),
            decreases rom@.len() - i,
        {
            self.mem.set(PROGRAM_START + i, rom[i]);
            i = i + 1;
        }
        assert(self@.mem =~= loaded(old(self)@.mem, rom@));
        Ok(())
    }

    /// Records whether key `index` is held down.
    pub fn set_key(&mut self, index: usize, pressed: bool)
        requires
            old(self).wf(),
            index < NUM_KEYS,
        ensures
            final(self).wf(),
            final(self)@ == (Machine { keys: old(self)@.keys.update(index as int, pressed), ..old(self)@ }),
    {
        self.key.set(index, pressed);
    }

    /// Whether key `index` is held down.
    pub fn key_pressed(&self, index: usize) -> (r: bool)
        requires
            self.wf(),
            index < NUM_KEYS,
        ensures
            r == self@.keys[index as int],
    {
        self.key[index]
    }

    /// The framebuffer, row by row: cell `row * 64 + col` is 0 or 1.
    pub fn framebuffer(&self) -> (r: &Vec<u8>)
        ensures
            r@ == self@.gfx,
    {
        &self.gfx
    }

    /// The pixel at `(row, col)`.
    pub fn pixel(&self, row: usize, col: usize) -> (r: u8)
        requires
            self.wf(),
            row < GFX_ROWS,
            col < GFX_COLS,
        ensures
            r == self@.gfx[row * 64 + col],
    {
        self.gfx[row * GFX_COLS + col]
    }

    /// Whether the framebuffer changed during the last cycle.
    pub fn redraw_requested(&self) -> (r: bool)
        ensures
            r == self@.draw,
    {
        self.draw
    }

    /// Whether the sound timer is running.
    pub fn tone_active(&self) -> (r: bool)
        ensures
            r == (self@.sound > 0),
    {
        self.snd_timer > 0
    }

    /// Value of register `r`.
    pub fn register(&self, r: usize) -> (v: u8)
        requires
            self.wf(),
            r < NUM_REGS,
        ensures
            v == self@.reg[r as int],
    {
        self.reg[r]
    }

    /// The byte at address `a`.
    pub fn memory_at(&self, a: usize) -> (v: u8)
        requires
            self.wf(),
            a < MEM_SIZE,
        ensures
            v == self@.mem[a as int],
    {
        self.mem[a]
    }

    pub fn program_counter(&self) -> (r: usize)
        ensures
            r == self@.pc,
    {
        self.pc
    }

    pub fn index(&self) -> (r: u16)
        ensures
            r == self@.idx,
    {
        self.idx
    }

    pub fn delay_timer(&self) -> (r: u8)
        ensures
            r == self@.delay,
    {
        self.del_timer
    }

    pub fn sound_timer(&self) -> (r: u8)
        ensures
            r == self@.sound,
    {
        self.snd_timer
    }

    /// Diagnostic snapshot: program counter, last fetched word, stack depth.
    pub fn snapshot(&self) -> (r: (usize, u16, usize))
        ensures
            r.0 == self@.pc,
            r.1 == self@.op,
            r.2 == self@.sp,
    {
        (self.pc, self.op, self.sp)
    }
}

} // verus!

verus! {

impl Cpu {
    /// The instruction word at the program counter, or an error when its second
    /// byte would lie past the end of memory.
    pub fn fetch(&self) -> (r: Result<u16, ExecError>)
        requires
            self.wf(),
        ensures
            can_fetch(self@) ==> r == Ok::<u16, ExecError>(word_at(self@.mem, self@.pc)),
            !can_fetch(self@) ==> r == Err::<u16, ExecError>(
                ExecError::AddressOutOfRange { addr: (self@.pc + 1) as usize, pc: self@.pc as usize },
            ),
    {
        if self.pc >= MEM_SIZE - 1 {
            return Err(ExecError::AddressOutOfRange { addr: self.pc + 1, pc: self.pc });
        }
        let hi = self.mem[self.pc];
        let lo = self.mem[self.pc + 1];
        proof {
            crate::machine::lemma_word_at_big_endian(self@.mem, self@.pc);
        }
        Ok(((hi as u16) << 8u16) | (lo as u16))
    }

    /// The lowest pressed key, or `NUM_KEYS` when none is pressed.
    fn lowest_pressed(&self) -> (r: usize)
        requires
            self.wf(),
        ensures
            r == first_pressed(self@.keys),
    {
        let mut i: usize = 0;
        while i < NUM_KEYS
            invariant
                i <= NUM_KEYS,
                self.key@.len() == NUM_KEYS,
                first_pressed(self@.keys) == first_pressed_from(self@.keys, i as int),
            decreases NUM_KEYS - i,
        {
            if self.key[i] {
                return i;
            }
            i = i + 1;
        }
        NUM_KEYS
    }

    /// Stores registers `0..=x` at the index address.
    fn store_regs(&mut self, x: usize)
        requires
            old(self).wf(),
            x < NUM_REGS,
            old(self)@.idx + x + 1 <= MEM_SIZE,
        ensures
            final(self).wf(),
            final(self)@ == (Machine { mem: stored_regs(old(self)@, x as int), ..old(self)@ }),
    {
        let i = self.idx as usize;
        let mut o: usize = 0;
        while o <= x
            invariant
                o <= x + 1,
                x < NUM_REGS,
                i == old(self)@.idx,
                i + x + 1 <= MEM_SIZE,
                self.wf(),
                self@ == (Machine { mem: self@.mem, ..old(self)@ }),
                forall|a: int| 0 <= a < MEM_SIZE ==> #[trigger] self@.mem[a] == (
                    if i <= a < i + o { old(self)@.reg[a - i] } else { old(self)@.mem[a] }),
            decreases x + 1 - o,
        {
            let v = self.reg[o];
            self.mem.set(i + o, v);
            o = o + 1;
        }
        assert(self@.mem =~= stored_regs(old(self)@, x as int));
    }

    /// Loads registers `0..=x` from the index address.
    fn load_regs(&mut self, x: usize)
        requires
            old(self).wf(),
            x < NUM_REGS,
            old(self)@.idx + x + 1 <= MEM_SIZE,
        ensures
            final(self).wf(),
            final(self)@ == (Machine { reg: loaded_regs(old(self)@, x as int), ..old(self)@ }),
    {
        let i = self.idx as usize;
        let mut r: usize = 0;
        while r <= x
            invariant
                r <= x + 1,
                x < NUM_REGS,
                i == old(self)@.idx,
                i + x + 1 <= MEM_SIZE,
                self.wf(),
                self@ == (Machine { reg: self@.reg, ..old(self)@ }),
                forall|j: int| 0 <= j < NUM_REGS ==> #[trigger] self@.reg[j] == (
                    if j < r { old(self)@.mem[i + j] } else { old(self)@.reg[j] }),
            decreases x + 1 - r,
        {
            let v = self.mem[i + r];
            self.reg.set(r, v);
            r = r + 1;
        }
        assert(self@.reg =~= loaded_regs(old(self)@, x as int));
    }
}

} // verus!

verus! {

impl Cpu {
    /// The register-to-register operation `8xyn`.
    #[verifier::spinoff_prover]
    fn exec_alu(&mut self, x: usize, y: usize, n: usize)
        requires
            old(self).wf(),
            x < NUM_REGS,
            y < NUM_REGS,
            alu_defined(n as int),
        ensures
            final(self).wf(),
            final(self)@ == alu(old(self)@, x as int, y as int, n as int),
    {
        let vx = self.reg[x];
        let vy = self.reg[y];
        if n == 0 {
            self.reg.set(x, vy);
        } else if n == 1 {
            self.reg.set(x, vx | vy);
        } else if n == 2 {
            self.reg.set(x, vx & vy);
        } else if n == 3 {
            self.reg.set(x, vx ^ vy);
        } else if n == 4 {
            let s: u16 = vx as u16 + vy as u16;
            self.reg.set(x, (s % 256) as u8);
            self.reg.set(15, if s > 255 { 1 } else { 0 });
        } else if n == 5 {
            let d: u16 = 256u16 + vx as u16 - vy as u16;
            assert((d % 256) as int == (vx - vy) % 256);
            self.reg.set(x, (d % 256) as u8);
            self.reg.set(15, if vx >= vy { 1 } else { 0 });
        } else if n == 6 {
            self.reg.set(x, vx / 2);
            self.reg.set(15, vx % 2);
        } else if n == 7 {
            let d: u16 = 256u16 + vy as u16 - vx as u16;
            assert((d % 256) as int == (vy - vx) % 256);
            self.reg.set(x, (d % 256) as u8);
            self.reg.set(15, if vy >= vx { 1 } else { 0 });
        } else {
            let s: u16 = vx as u16 * 2;
            self.reg.set(x, (s % 256) as u8);
            self.reg.set(15, vx / 128);
        }
    }

    /// XOR-draws the `n`-row sprite at the index address onto the framebuffer at
    /// `(vx, vy)`, wrapping on both axes, and sets the flag register on collision.
    fn exec_draw(&mut self, vx: u8, vy: u8, n: usize)
        requires
            old(self).wf(),
            n < 16,
            old(self)@.idx + n <= MEM_SIZE,
        ensures
            final(self).wf(),
            final(self)@ == draw_sprite(old(self)@, vx, vy, n as int),
    {
        let i = self.idx as usize;
        let ghost m = self@;
        let mut hit = false;
        let mut k: usize = 0;
        while k < GFX_CELLS
            invariant
                k <= GFX_CELLS,
                n < 16,
                i == m.idx,
                i + n <= MEM_SIZE,
                m == old(self)@,
                self.wf(),
                self@ == (Machine { gfx: self@.gfx, ..m }),
                forall|j: int| 0 <= j < k ==> #[trigger] self@.gfx[j] == drawn(m, vx, vy, n as int)[j],
                forall|j: int| k <= j < GFX_CELLS ==> #[trigger] self@.gfx[j] == m.gfx[j],
                hit == exists|j: int|
                    0 <= j < k && #[trigger] sprite_covers(m.mem, m.idx as int, vx, vy, n as int, j)
                        && m.gfx[j] == 1,
            decreases GFX_CELLS - k,
        {
            let row = k / GFX_COLS;
            let col = k % GFX_COLS;
            let line = (row + 256 - vy as usize) % GFX_ROWS;
            let dc = (col + 256 - vx as usize) % GFX_COLS;
            proof {
                vstd::arithmetic::div_mod::lemma_mod_multiples_vanish(8, k as int / 64 - vy as int, 32);
                vstd::arithmetic::div_mod::lemma_mod_multiples_vanish(4, k as int % 64 - vx as int, 64);
            }
            let covers = line < n && dc < 8 && self.mem[i + line] & (0x80u8 >> (dc as u8)) != 0;
            assert(covers == sprite_covers(m.mem, m.idx as int, vx, vy, n as int, k as int));
            if covers {
                if self.gfx[k] == 1 {
                    hit = true;
                    self.gfx.set(k, 0);
                } else {
                    self.gfx.set(k, 1);
                }
            }
            assert(self@.gfx[k as int] == drawn(m, vx, vy, n as int)[k as int]);
            k = k + 1;
        }
        assert(self@.gfx =~= drawn(m, vx, vy, n as int));
        self.draw = true;
        self.reg.set(15, if hit { 1 } else { 0 });
    }
}

} // verus!

verus! {

impl Cpu {
    /// The `Fxkk` instructions.
    #[verifier::spinoff_prover]
    fn exec_misc(&mut self, w: u16) -> (r: Result<(), ExecError>)
        requires
            old(self).wf(),
            can_fetch(old(self)@),
        ensures
            final(self).wf(),
            follows(old(self)@, final(self)@, r, execute_misc(old(self)@, w)),
    {
        let x = ((w / 0x100) % 16) as usize;
        let kk = (w % 0x100) as u8;
        let vx = self.reg[x];
        let i = self.idx as usize;
        let pc = self.pc;
        if kk == 0x07 {
            let d = self.del_timer;
            self.reg.set(x, d);
            self.pc = pc + 2;
            Ok(())
        } else if kk == 0x0A {
            let k = self.lowest_pressed();
            if k < NUM_KEYS {
                self.reg.set(x, k as u8);
                self.pc = pc + 2;
            }
            Ok(())
        } else if kk == 0x15 {
            self.del_timer = vx;
            self.pc = pc + 2;
            Ok(())
        } else if kk == 0x18 {
            self.snd_timer = vx;
            self.pc = pc + 2;
            Ok(())
        } else if kk == 0x1E {
            self.idx = ((self.idx as u32 + vx as u32) % 0x10000) as u16;
            self.pc = pc + 2;
            Ok(())
        } else if kk == 0x29 {
            self.idx = (vx % 16) as u16 * 5;
            self.pc = pc + 2;
            Ok(())
        } else if kk == 0x33 {
            if i + 3 > MEM_SIZE {
                Err(ExecError::AddressOutOfRange { addr: i, pc })
            } else {
                self.mem.set(i, vx / 100);
                self.mem.set(i + 1, (vx / 10) % 10);
                self.mem.set(i + 2, vx % 10);
                self.pc = pc + 2;
                Ok(())
            }
        } else if kk == 0x55 {
            if i + x + 1 > MEM_SIZE {
                Err(ExecError::AddressOutOfRange { addr: i, pc })
            } else {
                self.store_regs(x);
                self.pc = pc + 2;
                Ok(())
            }
        } else if kk == 0x65 {
            if i + x + 1 > MEM_SIZE {
                Err(ExecError::AddressOutOfRange { addr: i, pc })
            } else {
                self.load_regs(x);
                self.pc = pc + 2;
                Ok(())
            }
        } else {
            Err(ExecError::IllegalOpcode { word: w, pc })
        }
    }

    /// Executes instruction `w`, with `rand` as the random byte, leaving the timers alone.
    #[verifier::spinoff_prover]
    fn execute(&mut self, w: u16, rand: u8) -> (r: Result<(), ExecError>)
        requires
            old(self).wf(),
            can_fetch(old(self)@),
        ensures
            final(self).wf(),
            follows(old(self)@, final(self)@, r, execute(old(self)@, w, rand)),
    {
        let f = w / 0x1000;
        let x = ((w / 0x100) % 16) as usize;
        let y = ((w / 0x10) % 16) as usize;
        let n = (w % 16) as usize;
        let kk = (w % 0x100) as u8;
        let nnn = (w % 0x1000) as usize;
        let vx = self.reg[x];
        let vy = self.reg[y];
        let pc = self.pc;
        if f == 0 {
            if w == 0x00E0 {
                self.gfx = vec![0u8; GFX_CELLS];
                self.draw = true;
                self.pc = pc + 2;
                assert(self@.gfx =~= Seq::new(GFX_CELLS as nat, |k: int| 0u8));
                Ok(())
            } else if w == 0x00EE {
                let sp = if self.sp > 0 { self.sp - 1 } else { 0 };
                self.sp = sp;
                self.pc = self.stack[sp];
                Ok(())
            } else {
                Err(ExecError::IllegalOpcode { word: w, pc })
            }
        } else if f == 1 {
            self.pc = nnn;
            Ok(())
        } else if f == 2 {
            if self.sp >= STACK_DEPTH {
                Err(ExecError::StackOverflow { pc })
            } else {
                let sp = self.sp;
                self.stack.set(sp, pc + 2);
                self.sp = sp + 1;
                self.pc = nnn;
                Ok(())
            }
        } else if f == 3 {
            self.pc = if vx == kk { pc + 4 } else { pc + 2 };
            Ok(())
        } else if f == 4 {
            self.pc = if vx != kk { pc + 4 } else { pc + 2 };
            Ok(())
        } else if f == 5 {
            if n == 0 {
                self.pc = if vx == vy { pc + 4 } else { pc + 2 };
                Ok(())
            } else {
                Err(ExecError::IllegalOpcode { word: w, pc })
            }
        } else if f == 6 {
            self.reg.set(x, kk);
            self.pc = pc + 2;
            Ok(())
        } else if f == 7 {
            self.reg.set(x, ((vx as u16 + kk as u16) % 256) as u8);
            self.pc = pc + 2;
            Ok(())
        } else if f == 8 {
            if n <= 7 || n == 0xE {
                self.exec_alu(x, y, n);
                self.pc = pc + 2;
                Ok(())
            } else {
                Err(ExecError::IllegalOpcode { word: w, pc })
            }
        } else if f == 9 {
            if n == 0 {
                self.pc = if vx != vy { pc + 4 } else { pc + 2 };
                Ok(())
            } else {
                Err(ExecError::IllegalOpcode { word: w, pc })
            }
        } else if f == 0xA {
            self.idx = nnn as u16;
            self.pc = pc + 2;
            Ok(())
        } else if f == 0xB {
            self.pc = self.reg[0] as usize + nnn;
            Ok(())
        } else if f == 0xC {
            self.reg.set(x, rand & kk);
            self.pc = pc + 2;
            Ok(())
        } else if f == 0xD {
            if self.idx as usize + n > MEM_SIZE {
                Err(ExecError::AddressOutOfRange { addr: self.idx as usize, pc })
            } else {
                self.exec_draw(vx, vy, n);
                self.pc = pc + 2;
                Ok(())
            }
        } else if f == 0xE {
            let pressed = self.key[(vx % 16) as usize];
            if kk == 0x9E {
                self.pc = if pressed { pc + 4 } else { pc + 2 };
                Ok(())
            } else if kk == 0xA1 {
                self.pc = if !pressed { pc + 4 } else { pc + 2 };
                Ok(())
            } else {
                Err(ExecError::IllegalOpcode { word: w, pc })
            }
        } else {
            self.exec_misc(w)
        }
    }

    /// Runs one cycle: fetches the instruction at the program counter, executes
    /// it with `rand` as the random byte, and moves both timers one step toward
    /// zero. The redraw signal afterwards says whether this cycle changed the
    /// framebuffer. On a fatal condition the error is returned and the state is
    /// left exactly as it was.
    pub fn cycle(&mut self, rand: u8) -> (r: Result<(), ExecError>)
        requires
            old(self).wf(),
        ensures
            final(self).wf(),
            follows(old(self)@, final(self)@, r, step(old(self)@, rand)),
    {
        proof {
            reveal(step);
        }
        let w = match self.fetch() {
            Ok(w) => w,
            Err(e) => {
                return Err(e);
            },
        };
        let saved_op = self.op;
        let saved_draw = self.draw;
        self.op = w;
        self.draw = false;
        match self.execute(w, rand) {
            Ok(()) => {
                if self.del_timer > 0 {
                    self.del_timer = self.del_timer - 1;
                }
                if self.snd_timer > 0 {
                    self.snd_timer = self.snd_timer - 1;
                }
                Ok(())
            },
            Err(e) => {
                self.op = saved_op;
                self.draw = saved_draw;
                Err(e)
            },
        }
    }
}

} // verus!
