use vstd::prelude::*;

verus! {

/// A decoded instruction. Register operands are indices below 16.
#[derive(PartialEq, Eq, Structural, Clone, Copy, Debug)]
pub enum Instr {
    /// Turn every display cell off.
    Clear,
    /// Pop a return address into the program counter.
    Return,
    /// Jump to a 12-bit address.
    Jump { addr: u16 },
    /// Push the program counter, then jump to a 12-bit address.
    Call { addr: u16 },
    /// Skip the next instruction when `V[x] == nn`.
    SkipEqImm { x: usize, nn: u8 },
    /// Skip the next instruction when `V[x] != nn`.
    SkipNeImm { x: usize, nn: u8 },
    /// Skip the next instruction when `V[x] == V[y]`.
    SkipEqReg { x: usize, y: usize },
    /// Skip the next instruction when `V[x] != V[y]`.
    SkipNeReg { x: usize, y: usize },
    /// `V[x] = nn`.
    LoadImm { x: usize, nn: u8 },
    /// `V[x] += nn`, wrapping, flag untouched.
    AddImm { x: usize, nn: u8 },
    /// `V[x] = V[y]`.
    Move { x: usize, y: usize },
    /// `V[x] |= V[y]`.
    Or { x: usize, y: usize },
    /// `V[x] &= V[y]`.
    And { x: usize, y: usize },
    /// `V[x] ^= V[y]`.
    Xor { x: usize, y: usize },
    /// `V[x] += V[y]`, wrapping; the flag is the carry.
    AddReg { x: usize, y: usize },
    /// `V[x] -= V[y]`, wrapping; the flag is 1 when nothing was borrowed.
    SubReg { x: usize, y: usize },
    /// `V[x] >>= 1`; the flag is the bit shifted out.
    ShiftRight { x: usize },
    /// `V[x] = V[y] - V[x]`, wrapping; the flag is 1 when nothing was borrowed.
    SubRev { x: usize, y: usize },
    /// `V[x] <<= 1`; the flag is the bit shifted out.
    ShiftLeft { x: usize },
    /// `I = addr`.
    SetIndex { addr: u16 },
    /// Jump to `V[0] + addr`.
    JumpOffset { addr: u16 },
    /// `V[x] = random & nn`.
    Random { x: usize, nn: u8 },
    /// Draw an `n`-row sprite read at `I` at `(V[x], V[y])`.
    Draw { x: usize, y: usize, n: usize },
    /// Skip the next instruction when the key `V[x] & 0xF` is down.
    SkipKey { x: usize },
    /// Skip the next instruction when the key `V[x] & 0xF` is up.
    SkipNotKey { x: usize },
    /// Store the lowest pressed key in `V[x]`, or run this instruction again.
    WaitKey { x: usize },
    /// `V[x] = delay timer`.
    GetDelay { x: usize },
    /// `delay timer = V[x]`.
    SetDelay { x: usize },
    /// `sound timer = V[x]`.
    SetSound { x: usize },
    /// `I += V[x]`, wrapping at 16 bits.
    AddIndex { x: usize },
    /// `I = 5 * (V[x] & 0xF)`, the address of that digit's glyph.
    FontChar { x: usize },
    /// Store the decimal digits of `V[x]` at `I`, `I + 1`, `I + 2`.
    Bcd { x: usize },
    /// Store `V[0..=x]` at `I..=I + x`.
    Dump { x: usize },
    /// Load `V[0..=x]` from `I..=I + x`.
    Load { x: usize },
}

/// The leading nibble of an instruction word.
pub open spec fn nib1(op: u16) -> int {
    op as int / 0x1000
}

/// The second nibble (first register operand).
pub open spec fn nib2(op: u16) -> int {
    (op as int / 0x100) % 0x10
}

/// The third nibble (second register operand).
pub open spec fn nib3(op: u16) -> int {
    (op as int / 0x10) % 0x10
}

/// The trailing nibble.
pub open spec fn nib4(op: u16) -> int {
    op as int % 0x10
}

/// The low 12 bits: an address.
pub open spec fn addr_of(op: u16) -> u16 {
    (op as int % 0x1000) as u16
}

/// The low 8 bits: an immediate byte.
pub open spec fn byte_of(op: u16) -> u8 {
    (op as int % 0x100) as u8
}

/// The decode table: which instruction a word denotes, if any.
pub open spec fn decode_spec(op: u16) -> Option<Instr> {
    let x = nib2(op) as usize;
    let y = nib3(op) as usize;
    let n = nib4(op);
    let lo = op as int % 0x100;
    let addr = addr_of(op);
    let nn = byte_of(op);
    if op == 0x00E0 {
        Some(Instr::Clear)
    } else if op == 0x00EE {
        Some(Instr::Return)
    } else if nib1(op) == 1 {
        Some(Instr::Jump { addr })
    } else if nib1(op) == 2 {
        Some(Instr::Call { addr })
    } else if nib1(op) == 3 {
        Some(Instr::SkipEqImm { x, nn })
    } else if nib1(op) == 4 {
        Some(Instr::SkipNeImm { x, nn })
    } else if nib1(op) == 5 && n == 0 {
        Some(Instr::SkipEqReg { x, y })
    } else if nib1(op) == 6 {
        Some(Instr::LoadImm { x, nn })
    } else if nib1(op) == 7 {
        Some(Instr::AddImm { x, nn })
    } else if nib1(op) == 8 && n == 0 {
        Some(Instr::Move { x, y })
    } else if nib1(op) == 8 && n == 1 {
        Some(Instr::Or { x, y })
    } else if nib1(op) == 8 && n == 2 {
        Some(Instr::And { x, y })
    } else if nib1(op) == 8 && n == 3 {
        Some(Instr::Xor { x, y })
    } else if nib1(op) == 8 && n == 4 {
        Some(Instr::AddReg { x, y })
    } else if nib1(op) == 8 && n == 5 {
        Some(Instr::SubReg { x, y })
    } else if nib1(op) == 8 && n == 6 {
        Some(Instr::ShiftRight { x })
    } else if nib1(op) == 8 && n == 7 {
        Some(Instr::SubRev { x, y })
    } else if nib1(op) == 8 && n == 0xE {
        Some(Instr::ShiftLeft { x })
    } else if nib1(op) == 9 && n == 0 {
        Some(Instr::SkipNeReg { x, y })
    } else if nib1(op) == 0xA {
        Some(Instr::SetIndex { addr })
    } else if nib1(op) == 0xB {
        Some(Instr::JumpOffset { addr })
    } else if nib1(op) == 0xC {
        Some(Instr::Random { x, nn })
    } else if nib1(op) == 0xD {
        Some(Instr::Draw { x, y, n: n as usize })
    } else if nib1(op) == 0xE && lo == 0x9E {
        Some(Instr::SkipKey { x })
    } else if nib1(op) == 0xE && lo == 0xA1 {
        Some(Instr::SkipNotKey { x })
    } else if nib1(op) == 0xF && lo == 0x07 {
        Some(Instr::GetDelay { x })
    } else if nib1(op) == 0xF && lo == 0x0A {
        Some(Instr::WaitKey { x })
    } else if nib1(op) == 0xF && lo == 0x15 {
        Some(Instr::SetDelay { x })
    } else if nib1(op) == 0xF && lo == 0x18 {
        Some(Instr::SetSound { x })
    } else if nib1(op) == 0xF && lo == 0x1E {
        Some(Instr::AddIndex { x })
    } else if nib1(op) == 0xF && lo == 0x29 {
        Some(Instr::FontChar { x })
    } else if nib1(op) == 0xF && lo == 0x33 {
        Some(Instr::Bcd { x })
    } else if nib1(op) == 0xF && lo == 0x55 {
        Some(Instr::Dump { x })
    } else if nib1(op) == 0xF && lo == 0x65 {
        Some(Instr::Load { x })
    } else {
        None
    }
}

impl Instr {
    /// Register operands are below 16 and a sprite has at most 15 rows.
    pub open spec fn wf(self) -> bool {
        match self {
            Instr::Clear | Instr::Return => true,
            Instr::Jump { addr } | Instr::Call { addr } | Instr::SetIndex { addr }
            | Instr::JumpOffset { addr } => addr < 0x1000,
            Instr::SkipEqImm { x, nn } | Instr::SkipNeImm { x, nn } | Instr::LoadImm { x, nn }
            | Instr::AddImm { x, nn } | Instr::Random { x, nn } => x < 16,
            Instr::SkipEqReg { x, y } | Instr::SkipNeReg { x, y } | Instr::Move { x, y }
            | Instr::Or { x, y } | Instr::And { x, y } | Instr::Xor { x, y }
            | Instr::AddReg { x, y } | Instr::SubReg { x, y } | Instr::SubRev { x, y } => x < 16
                && y < 16,
            Instr::Draw { x, y, n } => x < 16 && y < 16 && n < 16,
            Instr::ShiftRight { x } | Instr::ShiftLeft { x } | Instr::SkipKey { x }
            | Instr::SkipNotKey { x } | Instr::WaitKey { x } | Instr::GetDelay { x }
            | Instr::SetDelay { x } | Instr::SetSound { x } | Instr::AddIndex { x }
            | Instr::FontChar { x } | Instr::Bcd { x } | Instr::Dump { x } | Instr::Load { x } => x
                < 16,
        }
    }
}

/// Classifies an instruction word by its four nibbles; `None` when the word
/// denotes no instruction.
pub fn decode(op: u16) -> (r: Option<Instr>)
    ensures
        r == decode_spec(op),
        r matches Some(ins) ==> ins.wf(),
{
    let d1: u16 = op / 0x1000;
    let x: usize = ((op / 0x100) % 0x10) as usize;
    let y: usize = ((op / 0x10) % 0x10) as usize;
    let n: u16 = op % 0x10;
    let lo: u16 = op % 0x100;
    let addr: u16 = op % 0x1000;
    let nn: u8 = (op % 0x100) as u8;
    if op == 0x00E0 {
        Some(Instr::Clear)
    } else if op == 0x00EE {
        Some(Instr::Return)
    } else if d1 == 1 {
        Some(Instr::Jump { addr })
    } else if d1 == 2 {
        Some(Instr::Call { addr })
    } else if d1 == 3 {
        Some(Instr::SkipEqImm { x, nn })
    } else if d1 == 4 {
        Some(Instr::SkipNeImm { x, nn })
    } else if d1 == 5 && n == 0 {
        Some(Instr::SkipEqReg { x, y })
    } else if d1 == 6 {
        Some(Instr::LoadImm { x, nn })
    } else if d1 == 7 {
        Some(Instr::AddImm { x, nn })
    } else if d1 == 8 && n == 0 {
        Some(Instr::Move { x, y })
    } else if d1 == 8 && n == 1 {
        Some(Instr::Or { x, y })
    } else if d1 == 8 && n == 2 {
        Some(Instr::And { x, y })
    } else if d1 == 8 && n == 3 {
        Some(Instr::Xor { x, y })
    } else if d1 == 8 && n == 4 {
        Some(Instr::AddReg { x, y })
    } else if d1 == 8 && n == 5 {
        Some(Instr::SubReg { x, y })
    } else if d1 == 8 && n == 6 {
        Some(Instr::ShiftRight { x })
    } else if d1 == 8 && n == 7 {
        Some(Instr::SubRev { x, y })
    } else if d1 == 8 && n == 0xE {
        Some(Instr::ShiftLeft { x })
    } else if d1 == 9 && n == 0 {
        Some(Instr::SkipNeReg { x, y })
    } else if d1 == 0xA {
        Some(Instr::SetIndex { addr })
    } else if d1 == 0xB {
        Some(Instr::JumpOffset { addr })
    } else if d1 == 0xC {
        Some(Instr::Random { x, nn })
    } else if d1 == 0xD {
        Some(Instr::Draw { x, y, n: n as usize })
    } else if d1 == 0xE && lo == 0x9E {
        Some(Instr::SkipKey { x })
    } else if d1 == 0xE && lo == 0xA1 {
        Some(Instr::SkipNotKey { x })
    } else if d1 == 0xF && lo == 0x07 {
        Some(Instr::GetDelay { x })
    } else if d1 == 0xF && lo == 0x0A {
        Some(Instr::WaitKey { x })
    } else if d1 == 0xF && lo == 0x15 {
        Some(Instr::SetDelay { x })
    } else if d1 == 0xF && lo == 0x18 {
        Some(Instr::SetSound { x })
    } else if d1 == 0xF && lo == 0x1E {
        Some(Instr::AddIndex { x })
    } else if d1 == 0xF && lo == 0x29 {
        Some(Instr::FontChar { x })
    } else if d1 == 0xF && lo == 0x33 {
        Some(Instr::Bcd { x })
    } else if d1 == 0xF && lo == 0x55 {
        Some(Instr::Dump { x })
    } else if d1 == 0xF && lo == 0x65 {
        Some(Instr::Load { x })
    } else {
        None
    }
}

/// Every instruction that the table yields has operands in range.
pub proof fn lemma_decode_wf(op: u16)
    ensures
        decode_spec(op) matches Some(ins) ==> ins.wf(),
{
}

} // verus!
