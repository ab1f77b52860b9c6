//! Laws of the instruction set, proved over the model in `machine`.
use vstd::prelude::*;
use crate::machine::{
    advance, skip_if, with_reg, can_fetch, collides, draw_sprite, drawn, op_nnn, op_y, tick,
    family, lemma_word_at_big_endian, op_kk, op_n, op_x, row_bit, sprite_covers, step, word_at,
    ExecError, Machine, GFX_CELLS, MEM_SIZE, NUM_REGS, STACK_DEPTH,
};

verus! {

/// A successful cycle records as its instruction word the byte at the program
/// counter shifted left by eight, OR-ed with the byte after it.
pub proof fn lemma_fetched_word(m: Machine, rand: u8)
    requires
        m.wf(),
        step(m, rand) is Ok,
    ensures
        step(m, rand)->Ok_0.op == ((m.mem[m.pc] as u16) << 8u16) | (m.mem[m.pc + 1] as u16),
{
    reveal(step);
    lemma_word_at_big_endian(m.mem, m.pc);
}

/// `00E0` blanks every framebuffer cell and requests a redraw, whatever was shown before.
pub proof fn lemma_clear_screen(m: Machine, rand: u8)
    requires
        m.wf(),
        can_fetch(m),
        word_at(m.mem, m.pc) == 0x00E0,
    ensures
        step(m, rand) is Ok,
        forall|k: int| 0 <= k < GFX_CELLS ==> #[trigger] step(m, rand)->Ok_0.gfx[k] == 0,
        step(m, rand)->Ok_0.draw,
        step(m, rand)->Ok_0.pc == m.pc + 2,
{
    reveal(step);
}

/// `1nnn` sets the program counter to exactly `nnn`.
pub proof fn lemma_jump(m: Machine, rand: u8, nnn: int)
    requires
        m.wf(),
        can_fetch(m),
        0 <= nnn < 0x1000,
        word_at(m.mem, m.pc) == 0x1000 + nnn,
    ensures
        step(m, rand) is Ok,
        step(m, rand)->Ok_0.pc == nnn,
{
    reveal(step);
}

/// After `2nnn` at address `c`, a later `00EE` executed with the call stack as the
/// call left it resumes at `c + 2`.
pub proof fn lemma_call_return(m: Machine, rand: u8, later: Machine, rand2: u8)
    requires
        m.wf(),
        can_fetch(m),
        family(word_at(m.mem, m.pc)) == 2,
        m.sp < STACK_DEPTH,
        later.wf(),
        can_fetch(later),
        word_at(later.mem, later.pc) == 0x00EE,
        later.sp == step(m, rand)->Ok_0.sp,
        later.stack == step(m, rand)->Ok_0.stack,
    ensures
        step(m, rand) is Ok,
        step(later, rand2) is Ok,
        step(later, rand2)->Ok_0.pc == m.pc + 2,
{
    reveal(step);
}

/// The cycle that runs `6xkk`.
proof fn lemma_step_load_byte(m: Machine, rand: u8)
    requires
        m.wf(),
        can_fetch(m),
        family(word_at(m.mem, m.pc)) == 6,
    ensures
        ({
            let w = word_at(m.mem, m.pc);
            step(m, rand) == Ok::<Machine, ExecError>(
                tick(advance(with_reg(Machine { op: w, draw: false, ..m }, op_x(w), op_kk(w)), 2)),
            )
        }),
{
    reveal(step);
}

/// The cycle that runs `3xkk`.
proof fn lemma_step_skip_equal(m: Machine, rand: u8)
    requires
        m.wf(),
        can_fetch(m),
        family(word_at(m.mem, m.pc)) == 3,
    ensures
        ({
            let w = word_at(m.mem, m.pc);
            step(m, rand) == Ok::<Machine, ExecError>(
                tick(skip_if(Machine { op: w, draw: false, ..m }, m.reg[op_x(w)] == op_kk(w))),
            )
        }),
{
    reveal(step);
}

/// `6xkk` followed by `3xkk'` skips the next instruction exactly when `kk == kk'`.
pub proof fn lemma_load_then_skip_equal(m: Machine, x: int, kk: u8, kk2: u8, rand: u8, rand2: u8)
    requires
        m.wf(),
        0 <= x < NUM_REGS,
        m.pc + 3 < MEM_SIZE,
        word_at(m.mem, m.pc) == 0x6000 + x * 0x100 + kk,
        word_at(m.mem, m.pc + 2) == 0x3000 + x * 0x100 + kk2,
    ensures
        step(m, rand) is Ok,
        step(step(m, rand)->Ok_0, rand2) is Ok,
        step(step(m, rand)->Ok_0, rand2)->Ok_0.pc == m.pc + if kk == kk2 { 6int } else { 4int },
{
    let w = word_at(m.mem, m.pc);
    assert(family(w) == 6 && op_x(w) == x && op_kk(w) == kk);
    lemma_step_load_byte(m, rand);
    let m1 = step(m, rand)->Ok_0;
    assert(m1.mem == m.mem && m1.pc == m.pc + 2 && m1.reg[x] == kk);
    let w2 = word_at(m1.mem, m1.pc);
    assert(family(w2) == 3 && op_x(w2) == x && op_kk(w2) == kk2);
    lemma_step_skip_equal(m1, rand2);
}

/// A one-row sprite whose only set bit is the leftmost covers exactly the cell at
/// `(vx mod 64, vy mod 32)`.
pub proof fn lemma_single_dot_covers(mem: Seq<u8>, i: int, vx: u8, vy: u8, k: int)
    requires
        0 <= i < mem.len(),
        mem[i] == 0x80,
        0 <= k < GFX_CELLS,
    ensures
        sprite_covers(mem, i, vx, vy, 1, k) <==> k == (vy % 32) as int * 64 + (vx % 64) as int,
{
    let dc = (k % 64 - vx as int) % 64;
    if 0 <= dc < 8 {
        let c = dc as u8;
        assert(c < 8 ==> (0x80u8 & (0x80u8 >> c) != 0 <==> c == 0)) by (bit_vector);
        assert(row_bit(mem[i], dc) <==> dc == 0);
    }
}

/// The cycle that runs `Annn`.
proof fn lemma_step_set_index(m: Machine, rand: u8)
    requires
        m.wf(),
        can_fetch(m),
        family(word_at(m.mem, m.pc)) == 0xA,
    ensures
        ({
            let w = word_at(m.mem, m.pc);
            step(m, rand) == Ok::<Machine, ExecError>(
                tick(advance(Machine { op: w, draw: false, idx: op_nnn(w) as u16, ..m }, 2)),
            )
        }),
{
    reveal(step);
}

/// The cycle that runs `Dxyn`, when the sprite lies in memory.
proof fn lemma_step_draw(m: Machine, rand: u8)
    requires
        m.wf(),
        can_fetch(m),
        family(word_at(m.mem, m.pc)) == 0xD,
        m.idx + op_n(word_at(m.mem, m.pc)) <= MEM_SIZE,
    ensures
        ({
            let w = word_at(m.mem, m.pc);
            let pre = Machine { op: w, draw: false, ..m };
            step(m, rand) == Ok::<Machine, ExecError>(
                tick(advance(draw_sprite(pre, m.reg[op_x(w)], m.reg[op_y(w)], op_n(w)), 2)),
            )
        }),
{
    reveal(step);
}

/// Drawing the single-dot sprite on a blank screen lights one cell without
/// collision; drawing it again blanks the screen with a collision.
proof fn lemma_dot_drawn_twice(m: Machine, vx: u8, vy: u8)
    requires
        m.wf(),
        m.idx < MEM_SIZE,
        m.mem[m.idx as int] == 0x80,
        forall|k: int| 0 <= k < GFX_CELLS ==> #[trigger] m.gfx[k] == 0,
    ensures
        forall|k: int|
            0 <= k < GFX_CELLS ==> #[trigger] drawn(m, vx, vy, 1)[k] == if k == (vy % 32) as int * 64
                + (vx % 64) as int {
                1u8
            } else {
                0u8
            },
        !collides(m, vx, vy, 1),
        forall|k: int|
            0 <= k < GFX_CELLS ==> #[trigger] drawn(Machine { gfx: drawn(m, vx, vy, 1), ..m }, vx, vy, 1)[k] == 0,
        collides(Machine { gfx: drawn(m, vx, vy, 1), ..m }, vx, vy, 1),
{
    let i = m.idx as int;
    let cell = (vy % 32) as int * 64 + (vx % 64) as int;
    let m1 = Machine { gfx: drawn(m, vx, vy, 1), ..m };
    assert forall|k: int| 0 <= k < GFX_CELLS implies #[trigger] drawn(m, vx, vy, 1)[k] == (if k == cell { 1u8 } else { 0u8 }) by {
        lemma_single_dot_covers(m.mem, i, vx, vy, k);
    }
    assert forall|k: int| 0 <= k < GFX_CELLS implies !(#[trigger] sprite_covers(m.mem, i, vx, vy, 1, k) && m.gfx[k] == 1) by {
        lemma_single_dot_covers(m.mem, i, vx, vy, k);
    }
    assert forall|k: int| 0 <= k < GFX_CELLS implies #[trigger] drawn(m1, vx, vy, 1)[k] == 0 by {
        lemma_single_dot_covers(m.mem, i, vx, vy, k);
    }
    lemma_single_dot_covers(m.mem, i, vx, vy, cell);
    assert(sprite_covers(m1.mem, i, vx, vy, 1, cell) && m1.gfx[cell] == 1);
}

/// `Annn` then `Dxy1`, with the byte `0b10000000` at `nnn` and a blank screen,
/// lights exactly the pixel at `(Vx, Vy)` without collision; a second identical
/// `Dxy1` blanks the screen again and sets the flag register to 1. The
/// coordinate registers are not the flag register, which the first draw overwrites.
pub proof fn lemma_draw_dot_twice(m: Machine, x: int, y: int, nnn: int, r1: u8, r2: u8, r3: u8)
    requires
        m.wf(),
        0 <= x < 15,
        0 <= y < 15,
        0 <= nnn < MEM_SIZE,
        m.pc + 5 < MEM_SIZE,
        word_at(m.mem, m.pc) == 0xA000 + nnn,
        word_at(m.mem, m.pc + 2) == 0xD001 + x * 0x100 + y * 0x10,
        word_at(m.mem, m.pc + 4) == 0xD001 + x * 0x100 + y * 0x10,
        m.mem[nnn] == 0x80,
        forall|k: int| 0 <= k < GFX_CELLS ==> #[trigger] m.gfx[k] == 0,
    ensures
        step(m, r1) is Ok,
        step(step(m, r1)->Ok_0, r2) is Ok,
        step(step(step(m, r1)->Ok_0, r2)->Ok_0, r3) is Ok,
        forall|k: int|
            0 <= k < GFX_CELLS ==> #[trigger] step(step(m, r1)->Ok_0, r2)->Ok_0.gfx[k] == if k == (
            m.reg[y] % 32) as int * 64 + (m.reg[x] % 64) as int {
                1u8
            } else {
                0u8
            },
        step(step(m, r1)->Ok_0, r2)->Ok_0.reg[15] == 0,
        forall|k: int|
            0 <= k < GFX_CELLS ==> #[trigger] step(step(step(m, r1)->Ok_0, r2)->Ok_0, r3)->Ok_0.gfx[k]
                == 0,
        step(step(step(m, r1)->Ok_0, r2)->Ok_0, r3)->Ok_0.reg[15] == 1,
{
    let vx = m.reg[x];
    let vy = m.reg[y];
    lemma_step_set_index(m, r1);
    let m1 = step(m, r1)->Ok_0;
    assert(m1.idx == nnn && m1.pc == m.pc + 2 && m1.mem == m.mem && m1.reg == m.reg && m1.gfx == m.gfx);
    let w2 = word_at(m1.mem, m1.pc);
    assert(family(w2) == 0xD && op_x(w2) == x && op_y(w2) == y && op_n(w2) == 1);
    lemma_step_draw(m1, r2);
    let pre2 = Machine { op: w2, draw: false, ..m1 };
    lemma_dot_drawn_twice(pre2, vx, vy);
    let m2 = step(m1, r2)->Ok_0;
    assert(m2.reg[x] == vx && m2.reg[y] == vy && m2.idx == nnn && m2.mem == m.mem && m2.pc == m.pc + 4);
    let w3 = word_at(m2.mem, m2.pc);
    assert(family(w3) == 0xD && op_x(w3) == x && op_y(w3) == y && op_n(w3) == 1);
    lemma_step_draw(m2, r3);
    let pre3 = Machine { op: w3, draw: false, ..m2 };
    assert(pre3.mem == pre2.mem && pre3.idx == pre2.idx && pre3.gfx == drawn(pre2, vx, vy, 1));
    assert(drawn(pre3, vx, vy, 1) == drawn(Machine { gfx: drawn(pre2, vx, vy, 1), ..pre2 }, vx, vy, 1));
    assert(collides(pre3, vx, vy, 1) == collides(Machine { gfx: drawn(pre2, vx, vy, 1), ..pre2 }, vx, vy, 1));
}

/// `Fx55`, then any run of instructions that keeps the index register and the
/// stored bytes, then `Fx65` with the same `x`, gives back registers `0..=x` as they
/// were when stored.
pub proof fn lemma_store_load_round_trip(m: Machine, rand: u8, later: Machine, rand2: u8, x: int)
    requires
        m.wf(),
        can_fetch(m),
        0 <= x < NUM_REGS,
        word_at(m.mem, m.pc) == 0xF055 + x * 0x100,
        m.idx + x + 1 <= MEM_SIZE,
        later.wf(),
        can_fetch(later),
        word_at(later.mem, later.pc) == 0xF065 + x * 0x100,
        later.idx == m.idx,
        forall|a: int|
            m.idx <= a <= m.idx + x ==> #[trigger] later.mem[a] == step(m, rand)->Ok_0.mem[a],
    ensures
        step(m, rand) is Ok,
        step(later, rand2) is Ok,
        forall|r: int| 0 <= r <= x ==> #[trigger] step(later, rand2)->Ok_0.reg[r] == m.reg[r],
{
    reveal(step);
    let w = word_at(m.mem, m.pc);
    assert(family(w) == 0xF && op_x(w) == x && op_kk(w) == 0x55);
    let m1 = step(m, rand)->Ok_0;
    assert forall|r: int| 0 <= r <= x implies #[trigger] m1.mem[m.idx + r] == m.reg[r] by {
        assert(m1.mem[m.idx + r] == m.reg[(m.idx + r) - m.idx]);
    }
    let w2 = word_at(later.mem, later.pc);
    assert(family(w2) == 0xF && op_x(w2) == x && op_kk(w2) == 0x65);
    let l1 = step(later, rand2)->Ok_0;
    assert forall|r: int| 0 <= r <= x implies #[trigger] l1.reg[r] == m.reg[r] by {
        assert(l1.reg[r] == later.mem[later.idx + r]);
        assert(later.mem[m.idx + r] == m1.mem[m.idx + r]);
    }
}

/// A successful cycle moves the delay timer one step toward zero and never below
/// it; when the cycle runs `Fx15`, the timer starts from the value of register `x`.
pub proof fn lemma_delay_countdown(m: Machine, rand: u8)
    requires
        m.wf(),
        step(m, rand) is Ok,
    ensures
        ({
            let w = word_at(m.mem, m.pc);
            let start = if family(w) == 0xF && op_kk(w) == 0x15 { m.reg[op_x(w)] } else { m.delay };
            step(m, rand)->Ok_0.delay == if start > 0 { (start - 1) as u8 } else { 0u8 }
        }),
{
    reveal(step);
}

/// An undefined word, such as `5xyn` with `n != 0`, fails with `IllegalOpcode`
/// naming the word and the program counter.
pub proof fn lemma_illegal_skip_tail(m: Machine, rand: u8)
    requires
        m.wf(),
        can_fetch(m),
        family(word_at(m.mem, m.pc)) == 5,
        op_n(word_at(m.mem, m.pc)) != 0,
    ensures
        step(m, rand) == Err::<Machine, ExecError>(
            ExecError::IllegalOpcode { word: word_at(m.mem, m.pc), pc: m.pc as usize },
        ),
{
    reveal(step);
}

} // verus!
