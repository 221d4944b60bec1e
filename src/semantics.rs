use vstd::prelude::*;

use crate::draw::{collides, drawn};
use crate::instr::{decode_spec, Instr};
use crate::machine::{EmuError, EmuView, NUM_REGS, RAM_SIZE, START_ADDR};

verus! {

/// Index of the flag register.
pub open spec fn flag_reg() -> int {
    NUM_REGS - 1
}

/// `s` with register `x` set to `val`.
pub open spec fn with_reg(s: EmuView, x: int, val: u8) -> EmuView {
    EmuView { v_reg: s.v_reg.update(x, val), ..s }
}

/// `s` with register `x` set to `val`, then the flag register to `flag`.
pub open spec fn with_flag(s: EmuView, x: int, val: u8, flag: u8) -> EmuView {
    EmuView { v_reg: s.v_reg.update(x, val).update(flag_reg(), flag), ..s }
}

/// `s` with the next instruction skipped when `cond` holds.
pub open spec fn skip_if(s: EmuView, cond: bool) -> EmuView {
    if cond {
        EmuView { pc: (s.pc + 2) as u16, ..s }
    } else {
        s
    }
}

/// `k` is the lowest index of a pressed key.
pub open spec fn is_lowest_pressed(keys: Seq<bool>, k: int) -> bool {
    &&& 0 <= k < keys.len()
    &&& keys[k]
    &&& forall|j: int| 0 <= j < k ==> !keys[j]
}

/// Some key is pressed.
pub open spec fn any_pressed(keys: Seq<bool>) -> bool {
    exists|k: int| 0 <= k < keys.len() && keys[k]
}

/// The lowest index of a pressed key (meaningful when one is pressed).
pub open spec fn lowest_pressed(keys: Seq<bool>) -> int {
    choose|k: int| is_lowest_pressed(keys, k)
}

/// The `n` sprite rows that a draw reads at the index register.
pub open spec fn sprite_rows(s: EmuView, n: int) -> Seq<u8> {
    s.ram.subrange(s.i_reg as int, s.i_reg + n)
}

/// Whether a write of `len` bytes at the index register stays within the
/// program area (from the origin to the top of memory).
pub open spec fn writable(s: EmuView, len: int) -> bool {
    START_ADDR <= s.i_reg && s.i_reg + len <= RAM_SIZE
}

/// Whether a read of `len` bytes at the index register stays within memory.
pub open spec fn readable(s: EmuView, len: int) -> bool {
    s.i_reg + len <= RAM_SIZE
}

/// The effect of one decoded instruction on a machine whose program counter
/// already points past it; `at` is the address it was fetched from.
/// `rnd` is the random byte that the random instruction uses.
/// Instructions that set the flag register write it after their result, so
/// when the result register is the flag register it ends up holding the flag.
/// Writes below the program origin are refused, which keeps the font intact.
pub open spec fn exec_spec(s: EmuView, ins: Instr, rnd: u8, at: u16) -> Result<EmuView, EmuError> {
    let oob = EmuError::AddressOutOfRange { pc: at, index: s.i_reg };
    match ins {
        Instr::Clear => Ok(EmuView { screen: Seq::new(s.screen.len(), |k: int| false), ..s }),
        Instr::Return => if s.sp == 0 {
            Err(EmuError::StackUnderflow { pc: at })
        } else {
            Ok(EmuView { pc: s.stack[s.sp - 1], sp: (s.sp - 1) as u16, ..s })
        },
        Instr::Jump { addr } => Ok(EmuView { pc: addr, ..s }),
        Instr::Call { addr } => if s.sp >= s.stack.len() {
            Err(EmuError::StackOverflow { pc: at })
        } else {
            Ok(
                EmuView {
                    stack: s.stack.update(s.sp as int, s.pc),
                    sp: (s.sp + 1) as u16,
                    pc: addr,
                    ..s
                },
            )
        },
        Instr::SkipEqImm { x, nn } => Ok(skip_if(s, s.v_reg[x as int] == nn)),
        Instr::SkipNeImm { x, nn } => Ok(skip_if(s, s.v_reg[x as int] != nn)),
        Instr::SkipEqReg { x, y } => Ok(skip_if(s, s.v_reg[x as int] == s.v_reg[y as int])),
        Instr::SkipNeReg { x, y } => Ok(skip_if(s, s.v_reg[x as int] != s.v_reg[y as int])),
        Instr::LoadImm { x, nn } => Ok(with_reg(s, x as int, nn)),
        Instr::AddImm { x, nn } => Ok(with_reg(s, x as int, ((s.v_reg[x as int] + nn) % 256) as u8)),
        Instr::Move { x, y } => Ok(with_reg(s, x as int, s.v_reg[y as int])),
        Instr::Or { x, y } => Ok(with_reg(s, x as int, s.v_reg[x as int] | s.v_reg[y as int])),
        Instr::And { x, y } => Ok(with_reg(s, x as int, s.v_reg[x as int] & s.v_reg[y as int])),
        Instr::Xor { x, y } => Ok(with_reg(s, x as int, s.v_reg[x as int] ^ s.v_reg[y as int])),
        Instr::AddReg { x, y } => {
            let sum = s.v_reg[x as int] + s.v_reg[y as int];
            Ok(with_flag(s, x as int, (sum % 256) as u8, if sum >= 256 { 1 } else { 0 }))
        },
        Instr::SubReg { x, y } => {
            let a = s.v_reg[x as int];
            let b = s.v_reg[y as int];
            Ok(with_flag(s, x as int, ((a - b) % 256) as u8, if a >= b { 1 } else { 0 }))
        },
        Instr::SubRev { x, y } => {
            let a = s.v_reg[x as int];
            let b = s.v_reg[y as int];
            Ok(with_flag(s, x as int, ((b - a) % 256) as u8, if b >= a { 1 } else { 0 }))
        },
        Instr::ShiftRight { x } => {
            let a = s.v_reg[x as int];
            Ok(with_flag(s, x as int, a / 2, a % 2))
        },
        Instr::ShiftLeft { x } => {
            let a = s.v_reg[x as int];
            Ok(with_flag(s, x as int, ((a * 2) % 256) as u8, a / 128))
        },
        Instr::SetIndex { addr } => Ok(EmuView { i_reg: addr, ..s }),
        Instr::JumpOffset { addr } => Ok(EmuView { pc: (s.v_reg[0] + addr) as u16, ..s }),
        Instr::Random { x, nn } => Ok(with_reg(s, x as int, rnd & nn)),
        Instr::Draw { x, y, n } => if !readable(s, n as int) {
            Err(oob)
        } else {
            let cx = s.v_reg[x as int] as int;
            let cy = s.v_reg[y as int] as int;
            let rows = sprite_rows(s, n as int);
            Ok(
                EmuView {
                    screen: drawn(s.screen, cx, cy, rows),
                    v_reg: s.v_reg.update(
                        flag_reg(),
                        if collides(s.screen, cx, cy, rows) { 1u8 } else { 0u8 },
                    ),
                    ..s
                },
            )
        },
        Instr::SkipKey { x } => Ok(skip_if(s, s.keys[s.v_reg[x as int] as int % 16])),
        Instr::SkipNotKey { x } => Ok(skip_if(s, !s.keys[s.v_reg[x as int] as int % 16])),
        Instr::WaitKey { x } => if any_pressed(s.keys) {
            Ok(with_reg(s, x as int, lowest_pressed(s.keys) as u8))
        } else {
            Ok(EmuView { pc: at, ..s })
        },
        Instr::GetDelay { x } => Ok(with_reg(s, x as int, s.dt)),
        Instr::SetDelay { x } => Ok(EmuView { dt: s.v_reg[x as int], ..s }),
        Instr::SetSound { x } => Ok(EmuView { st: s.v_reg[x as int], ..s }),
        Instr::AddIndex { x } => Ok(
            EmuView { i_reg: ((s.i_reg + s.v_reg[x as int]) % 0x10000) as u16, ..s },
        ),
        Instr::FontChar { x } => Ok(EmuView { i_reg: (5 * (s.v_reg[x as int] % 16)) as u16, ..s }),
        Instr::Bcd { x } => if !writable(s, 3) {
            Err(oob)
        } else {
            let v = s.v_reg[x as int];
            let i = s.i_reg as int;
            Ok(
                EmuView {
                    ram: s.ram.update(i, v / 100).update(i + 1, (v / 10) % 10).update(i + 2, v % 10),
                    ..s
                },
            )
        },
        Instr::Dump { x } => if !writable(s, x + 1) {
            Err(oob)
        } else {
            let i = s.i_reg as int;
            Ok(
                EmuView {
                    ram: Seq::new(
                        s.ram.len(),
                        |k: int| if i <= k <= i + x { s.v_reg[k - i] } else { s.ram[k] },
                    ),
                    ..s
                },
            )
        },
        Instr::Load { x } => if !readable(s, x + 1) {
            Err(oob)
        } else {
            let i = s.i_reg as int;
            Ok(
                EmuView {
                    v_reg: Seq::new(
                        s.v_reg.len(),
                        |k: int| if k <= x { s.ram[i + k] } else { s.v_reg[k] },
                    ),
                    ..s
                },
            )
        },
    }
}

/// The big-endian instruction word at `pc`.
pub open spec fn word_at(ram: Seq<u8>, pc: int) -> u16 {
    (ram[pc] * 256 + ram[pc + 1]) as u16
}

/// One fetch-decode-execute cycle.
pub open spec fn step_spec(s: EmuView, rnd: u8) -> Result<EmuView, EmuError> {
    if s.pc + 1 >= RAM_SIZE {
        Err(EmuError::PcOutOfRange { pc: s.pc })
    } else {
        let op = word_at(s.ram, s.pc as int);
        match decode_spec(op) {
            None => Err(EmuError::UnknownOpcode { op, pc: s.pc }),
            Some(ins) => exec_spec(EmuView { pc: (s.pc + 2) as u16, ..s }, ins, rnd, s.pc),
        }
    }
}

/// A call that ended in `r` and left `post` behind, from `pre`, carried out
/// `res`: the new state on success, the error with nothing changed on failure.
pub open spec fn follows(
    pre: EmuView,
    post: EmuView,
    r: Result<(), EmuError>,
    res: Result<EmuView, EmuError>,
) -> bool {
    match res {
        Ok(t) => r == Ok::<(), EmuError>(()) && post == t,
        Err(e) => r == Err::<(), EmuError>(e) && post == pre,
    }
}

} // verus!
