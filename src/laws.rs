use vstd::prelude::*;

use crate::draw::{covered, drawn};
use crate::instr::{decode_spec, Instr};
use crate::machine::EmuView;
use crate::semantics::{
    any_pressed, exec_spec, flag_reg, is_lowest_pressed, lowest_pressed, readable, step_spec,
    with_reg, word_at, writable,
};

verus! {

/// Drawing the same sprite at the same place twice in a row restores the
/// display. The second draw reports a collision exactly when some cell that
/// the sprite covers was dark before the first draw (on a blank display, as
/// soon as the sprite has a set bit). The coordinate registers must not be the
/// flag register, which the first draw overwrites.
pub proof fn lemma_draw_twice(s: EmuView, x: usize, y: usize, n: usize, rnd: u8, at: u16)
    requires
        s.wf(),
        x < 15,
        y < 15,
        n < 16,
        readable(s, n as int),
    ensures
        ({
            let ins = Instr::Draw { x, y, n };
            let s1 = exec_spec(s, ins, rnd, at);
            let s2 = exec_spec(s1->Ok_0, ins, rnd, at);
            let cx = s.v_reg[x as int] as int;
            let cy = s.v_reg[y as int] as int;
            let rows = s.ram.subrange(s.i_reg as int, s.i_reg + n);
            &&& s1 is Ok
            &&& s2 is Ok
            &&& s2->Ok_0.screen == s.screen
            &&& (s2->Ok_0.v_reg[flag_reg()] == 1) == exists|k: int|
                0 <= k < s.screen.len() && !s.screen[k] && #[trigger] covered(cx, cy, rows, k % 64, k / 64)
        }),
{
    let ins = Instr::Draw { x, y, n };
    let s1 = exec_spec(s, ins, rnd, at)->Ok_0;
    let cx = s.v_reg[x as int] as int;
    let cy = s.v_reg[y as int] as int;
    let rows = s.ram.subrange(s.i_reg as int, s.i_reg + n);
    assert(s1.v_reg[x as int] == s.v_reg[x as int]);
    assert(s1.v_reg[y as int] == s.v_reg[y as int]);
    assert(drawn(drawn(s.screen, cx, cy, rows), cx, cy, rows) =~= s.screen);
}

/// Storing registers `0..=x` at the index register and loading them back
/// from there gives the registers their values again.
pub proof fn lemma_dump_load(s: EmuView, x: usize, rnd: u8, at: u16)
    requires
        s.wf(),
        x < 16,
        writable(s, x + 1),
    ensures
        ({
            let s1 = exec_spec(s, Instr::Dump { x }, rnd, at);
            let s2 = exec_spec(s1->Ok_0, Instr::Load { x }, rnd, at);
            &&& s1 is Ok
            &&& s2 is Ok
            &&& s2->Ok_0.v_reg == s.v_reg
        }),
{
    let s1 = exec_spec(s, Instr::Dump { x }, rnd, at)->Ok_0;
    let s2 = exec_spec(s1, Instr::Load { x }, rnd, at)->Ok_0;
    assert(s2.v_reg =~= s.v_reg);
}

/// A key wait with no key pressed makes no progress: a step leaves the
/// machine exactly as it was, so any number of steps do too.
pub proof fn lemma_wait_blocks(s: EmuView, x: usize, rnd1: u8, rnd2: u8)
    requires
        s.wf(),
        s.pc + 1 < 4096,
        decode_spec(word_at(s.ram, s.pc as int)) == Some(Instr::WaitKey { x }),
        !any_pressed(s.keys),
    ensures
        step_spec(s, rnd1) == Ok::<EmuView, crate::machine::EmuError>(s),
        step_spec(step_spec(s, rnd1)->Ok_0, rnd2) == Ok::<EmuView, crate::machine::EmuError>(s),
{
}

/// Once a key is pressed, a key wait stores the lowest pressed key's index
/// in its register and moves on to the next instruction.
pub proof fn lemma_wait_proceeds(s: EmuView, x: usize, rnd: u8)
    requires
        s.wf(),
        s.pc + 1 < 4096,
        decode_spec(word_at(s.ram, s.pc as int)) == Some(Instr::WaitKey { x }),
        any_pressed(s.keys),
    ensures
        step_spec(s, rnd) is Ok,
        step_spec(s, rnd)->Ok_0.pc == s.pc + 2,
        is_lowest_pressed(s.keys, step_spec(s, rnd)->Ok_0.v_reg[x as int] as int),
        step_spec(s, rnd)->Ok_0 == with_reg(
            EmuView { pc: (s.pc + 2) as u16, ..s },
            x as int,
            lowest_pressed(s.keys) as u8,
        ),
{
    let k = choose|k: int| 0 <= k < s.keys.len() && s.keys[k];
    lemma_lowest_exists(s.keys, k);
    let l = lowest_pressed(s.keys);
    assert(is_lowest_pressed(s.keys, l));
    assert(x < 16) by {
        crate::instr::lemma_decode_wf(word_at(s.ram, s.pc as int));
    }
}

/// Register addition loses nothing: the result and the carry in the flag
/// register together make up the full sum of the two operands.
pub proof fn lemma_add_carry(s: EmuView, x: usize, y: usize, rnd: u8, at: u16)
    requires
        s.wf(),
        x < 15,
        y < 16,
    ensures
        ({
            let t = exec_spec(s, Instr::AddReg { x, y }, rnd, at)->Ok_0;
            &&& t.v_reg[x as int] + 256 * t.v_reg[flag_reg()] == s.v_reg[x as int] + s.v_reg[y as int]
            &&& t.v_reg[flag_reg()] <= 1
        }),
{
}

/// Register subtraction wraps modulo 256, and the flag register is 1 exactly
/// when nothing was borrowed: `result == a - b + 256 * (1 - flag)`.
pub proof fn lemma_sub_borrow(s: EmuView, x: usize, y: usize, rnd: u8, at: u16)
    requires
        s.wf(),
        x < 15,
        y < 16,
    ensures
        ({
            let a = s.v_reg[x as int] as int;
            let b = s.v_reg[y as int] as int;
            let t = exec_spec(s, Instr::SubReg { x, y }, rnd, at)->Ok_0;
            &&& t.v_reg[x as int] == a - b + 256 * (1 - t.v_reg[flag_reg()])
            &&& (t.v_reg[flag_reg()] == 1) == (a >= b)
            &&& t.v_reg[flag_reg()] <= 1
        }),
{
}

/// A shift loses no bit: the bit shifted out lands in the flag register.
pub proof fn lemma_shifts(s: EmuView, x: usize, rnd: u8, at: u16)
    requires
        s.wf(),
        x < 15,
    ensures
        ({
            let a = s.v_reg[x as int] as int;
            let r = exec_spec(s, Instr::ShiftRight { x }, rnd, at)->Ok_0;
            let l = exec_spec(s, Instr::ShiftLeft { x }, rnd, at)->Ok_0;
            &&& 2 * r.v_reg[x as int] + r.v_reg[flag_reg()] == a
            &&& l.v_reg[x as int] + 256 * l.v_reg[flag_reg()] == 2 * a
            &&& r.v_reg[flag_reg()] <= 1
            &&& l.v_reg[flag_reg()] <= 1
        }),
{
}

/// The three bytes that the decimal store writes are decimal digits whose
/// value, read as hundreds, tens and ones, is the register's value.
pub proof fn lemma_bcd_digits(s: EmuView, x: usize, rnd: u8, at: u16)
    requires
        s.wf(),
        x < 16,
        writable(s, 3),
    ensures
        ({
            let i = s.i_reg as int;
            let t = exec_spec(s, Instr::Bcd { x }, rnd, at);
            &&& t is Ok
            &&& 100 * t->Ok_0.ram[i] + 10 * t->Ok_0.ram[i + 1] + t->Ok_0.ram[i + 2] == s.v_reg[x as int]
            &&& t->Ok_0.ram[i] < 10 && t->Ok_0.ram[i + 1] < 10 && t->Ok_0.ram[i + 2] < 10
        }),
{
}

/// When key `k` is pressed, some key is the lowest pressed one.
proof fn lemma_lowest_exists(keys: Seq<bool>, k: int)
    requires
        0 <= k < keys.len(),
        keys[k],
    ensures
        exists|l: int| is_lowest_pressed(keys, l),
    decreases k,
{
    if exists|j: int| 0 <= j < k && keys[j] {
        let j = choose|j: int| 0 <= j < k && keys[j];
        lemma_lowest_exists(keys, j);
    } else {
        assert(is_lowest_pressed(keys, k));
    }
}

} // verus!
