use vstd::prelude::*;

use crate::draw::draw_sprite;
use crate::instr::{decode, decode_spec, Instr};
use crate::semantics::{
    any_pressed, exec_spec, follows, is_lowest_pressed, lowest_pressed, step_spec, word_at,
};

verus! {

/// Width of the display in cells.
pub const SCREEN_WIDTH: usize = 64;

/// Height of the display in cells.
pub const SCREEN_HEIGHT: usize = 32;

/// Address at which programs are loaded and execution starts.
pub const START_ADDR: u16 = 0x200;

/// Size of memory in bytes.
pub const RAM_SIZE: usize = 4096;

/// Number of general-purpose registers; the last one doubles as the flag.
pub const NUM_REGS: usize = 16;

/// Depth of the return stack.
pub const STACK_SIZE: usize = 16;

/// Number of keys on the keypad.
pub const NUM_KEYS: usize = 16;

/// Size of the built-in font: sixteen glyphs of five bytes.
pub const FONTSET_SIZE: usize = 80;

/// Largest program counter that an instruction can set (`V[0] + 0xFFF`).
pub const MAX_PC: u16 = 0x10FE;

/// The built-in font, one 5-byte glyph per hexadecimal digit in ascending order.
pub open spec fn font_spec() -> Seq<u8> {
    seq![
        0xF0u8, 0x90, 0x90, 0x90, 0xF0, // 0
        0x20, 0x60, 0x20, 0x20, 0x70, // 1
        0xF0, 0x10, 0xF0, 0x80, 0xF0, // 2
        0xF0, 0x10, 0xF0, 0x10, 0xF0, // 3
        0x90, 0x90, 0xF0, 0x10, 0x10, // 4
        0xF0, 0x80, 0xF0, 0x10, 0xF0, // 5
        0xF0, 0x80, 0xF0, 0x90, 0xF0, // 6
        0xF0, 0x10, 0x20, 0x40, 0x40, // 7
        0xF0, 0x90, 0xF0, 0x90, 0xF0, // 8
        0xF0, 0x90, 0xF0, 0x10, 0xF0, // 9
        0xF0, 0x90, 0xF0, 0x90, 0x90, // A
        0xE0, 0x90, 0xE0, 0x90, 0xE0, // B
        0xF0, 0x80, 0x80, 0x80, 0xF0, // C
        0xE0, 0x90, 0x90, 0x90, 0xE0, // D
        0xF0, 0x80, 0xF0, 0x80, 0xF0, // E
        0xF0, 0x80, 0xF0, 0x80, 0x80, // F
    ]
}

fn font_bytes() -> (r: Vec<u8>)
    ensures
        r@ == font_spec(),
{
    let r: Vec<u8> = vec![
        0xF0, 0x90, 0x90, 0x90, 0xF0,
        0x20, 0x60, 0x20, 0x20, 0x70,
        0xF0, 0x10, 0xF0, 0x80, 0xF0,
        0xF0, 0x10, 0xF0, 0x10, 0xF0,
        0x90, 0x90, 0xF0, 0x10, 0x10,
        0xF0, 0x80, 0xF0, 0x10, 0xF0,
        0xF0, 0x80, 0xF0, 0x90, 0xF0,
        0xF0, 0x10, 0x20, 0x40, 0x40,
        0xF0, 0x90, 0xF0, 0x90, 0xF0,
        0xF0, 0x90, 0xF0, 0x10, 0xF0,
        0xF0, 0x90, 0xF0, 0x90, 0x90,
        0xE0, 0x90, 0xE0, 0x90, 0xE0,
        0xF0, 0x80, 0x80, 0x80, 0xF0,
        0xE0, 0x90, 0x90, 0x90, 0xE0,
        0xF0, 0x80, 0xF0, 0x80, 0xF0,
        0xF0, 0x80, 0xF0, 0x80, 0x80,
    ];
    assert(r@ =~= font_spec());
    r
}

/// Why a step, or a load, could not be carried out. Each is fatal for the run.
#[derive(PartialEq, Eq, Structural, Clone, Copy, Debug)]
pub enum EmuError {
    /// The word `op` fetched at `pc` denotes no instruction.
    UnknownOpcode { op: u16, pc: u16 },
    /// A call at `pc` found the return stack full.
    StackOverflow { pc: u16 },
    /// A return at `pc` found the return stack empty.
    StackUnderflow { pc: u16 },
    /// The instruction at `pc` would touch memory outside the writable range,
    /// or past its end, starting from the index register `index`.
    AddressOutOfRange { pc: u16, index: u16 },
    /// The program counter does not point at two bytes of memory.
    PcOutOfRange { pc: u16 },
    /// A program of `len` bytes does not fit between the origin and the top of memory.
    ProgramTooLarge { len: usize },
}

/// The machine as plain values.
pub ghost struct EmuView {
    pub pc: u16,
    pub ram: Seq<u8>,
    pub screen: Seq<bool>,
    pub v_reg: Seq<u8>,
    pub i_reg: u16,
    pub sp: u16,
    pub stack: Seq<u16>,
    pub keys: Seq<bool>,
    pub dt: u8,
    pub st: u8,
}

impl EmuView {
    /// The shape every machine keeps: fixed sizes, a stack pointer within the
    /// stack, return addresses and program counter within reach of a jump,
    /// and the font in place.
    pub open spec fn wf(self) -> bool {
        &&& self.ram.len() == RAM_SIZE
        &&& self.screen.len() == SCREEN_WIDTH * SCREEN_HEIGHT
        &&& self.v_reg.len() == NUM_REGS
        &&& self.stack.len() == STACK_SIZE
        &&& self.keys.len() == NUM_KEYS
        &&& self.sp <= STACK_SIZE
        &&& self.pc <= MAX_PC
        &&& forall|k: int| 0 <= k < STACK_SIZE ==> #[trigger] self.stack[k] <= MAX_PC
        &&& self.ram.subrange(0, FONTSET_SIZE as int) == font_spec()
    }

    /// The state that initialisation and reset produce.
    pub open spec fn initial() -> EmuView {
        EmuView {
            pc: START_ADDR,
            ram: font_spec() + Seq::new((RAM_SIZE - FONTSET_SIZE) as nat, |k: int| 0u8),
            screen: Seq::new((SCREEN_WIDTH * SCREEN_HEIGHT) as nat, |k: int| false),
            v_reg: Seq::new(NUM_REGS as nat, |k: int| 0u8),
            i_reg: 0,
            sp: 0,
            stack: Seq::new(STACK_SIZE as nat, |k: int| 0u16),
            keys: Seq::new(NUM_KEYS as nat, |k: int| false),
            dt: 0,
            st: 0,
        }
    }
}

/// The machine: memory, registers, return stack, timers, keypad and display.
pub struct Emulator {
    pc: u16,
    ram: Vec<u8>,
    screen: Vec<bool>,
    v_reg: Vec<u8>,
    i_reg: u16,
    sp: u16,
    stack: Vec<u16>,
    keys: Vec<bool>,
    dt: u8,
    st: u8,
}

impl View for Emulator {
    type V = EmuView;

    closed spec fn view(&self) -> EmuView {
        EmuView {
            pc: self.pc,
            ram: self.ram@,
            screen: self.screen@,
            v_reg: self.v_reg@,
            i_reg: self.i_reg,
            sp: self.sp,
            stack: self.stack@,
            keys: self.keys@,
            dt: self.dt,
            st: self.st,
        }
    }
}

/// The timers after one tick: each one that is above zero goes down by one.
pub open spec fn timers_ticked(s: EmuView) -> EmuView {
    EmuView {
        dt: if s.dt > 0 { (s.dt - 1) as u8 } else { 0 },
        st: if s.st > 0 { (s.st - 1) as u8 } else { 0 },
        ..s
    }
}

/// `s` with `data` copied into memory at the program origin.
pub open spec fn loaded(s: EmuView, data: Seq<u8>) -> EmuView {
    EmuView {
        ram: s.ram.subrange(0, START_ADDR as int) + data + s.ram.subrange(
            START_ADDR + data.len(),
            RAM_SIZE as int,
        ),
        ..s
    }
}

impl Emulator {
    /// The invariant of the machine.
    pub open spec fn wf(&self) -> bool {
        self@.wf()
    }

    /// A machine with everything zeroed, the font installed at address 0 and
    /// the program counter at the origin.
    pub fn new() -> (r: Emulator)
        ensures
            r.wf(),
            r@ == EmuView::initial(),
    {
        let mut ram: Vec<u8> = vec![0u8; RAM_SIZE];
        let font = font_bytes();
        let mut k: usize = 0;
        while k < FONTSET_SIZE
            invariant
                ram@.len() == RAM_SIZE,
                font@ == font_spec(),
                k <= FONTSET_SIZE,
                forall|j: int| 0 <= j < k ==> ram@[j] == font_spec()[j],
                forall|j: int| k <= j < RAM_SIZE ==> ram@[j] == 0u8,
            decreases FONTSET_SIZE - k,
        {
            ram.set(k, font[k]);
            k = k + 1;
        }
        let r = Emulator {
            pc: START_ADDR,
            ram,
            screen: vec![false; SCREEN_WIDTH * SCREEN_HEIGHT],
            v_reg: vec![0u8; NUM_REGS],
            i_reg: 0,
            sp: 0,
            stack: vec![0u16; STACK_SIZE],
            keys: vec![false; NUM_KEYS],
            dt: 0,
            st: 0,
        };
        assert(r@.ram =~= EmuView::initial().ram);
        assert(r@.screen =~= EmuView::initial().screen);
        assert(r@.v_reg =~= EmuView::initial().v_reg);
        assert(r@.stack =~= EmuView::initial().stack);
        assert(r@.keys =~= EmuView::initial().keys);
        assert(r@.ram.subrange(0, FONTSET_SIZE as int) =~= font_spec());
        r
    }

    /// Returns the machine to exactly the state that `new` produces,
    /// discarding any loaded program.
    pub fn reset(&mut self)
        ensures
            final(self).wf(),
            final(self)@ == EmuView::initial(),
    {
        *self = Emulator::new();
    }

    /// Pushes a return address.
    fn push(&mut self, val: u16)
        requires
            old(self).wf(),
            old(self).sp < STACK_SIZE,
            val <= MAX_PC,
        ensures
            final(self).wf(),
            final(self)@ == (EmuView {
                stack: old(self)@.stack.update(old(self).sp as int, val),
                sp: (old(self).sp + 1) as u16,
                ..old(self)@
            }),
    {
        self.stack.set(self.sp as usize, val);
        self.sp = self.sp + 1;
    }

    /// Pops a return address.
    fn pop(&mut self) -> (r: u16)
        requires
            old(self).wf(),
            old(self).sp > 0,
        ensures
            final(self).wf(),
            r == old(self)@.stack[old(self).sp - 1],
            r <= MAX_PC,
            final(self)@ == (EmuView { sp: (old(self).sp - 1) as u16, ..old(self)@ }),
    {
        self.sp = self.sp - 1;
        self.stack[self.sp as usize]
    }

    /// One timer tick: each of the delay and sound timers that is above zero
    /// goes down by one; nothing else changes.
    pub fn tick_timers(&mut self)
        requires
            old(self).wf(),
        ensures
            final(self).wf(),
            final(self)@ == timers_ticked(old(self)@),
    {
        if self.dt > 0 {
            self.dt = self.dt - 1;
        }
        if self.st > 0 {
            self.st = self.st - 1;
        }
    }

    /// The display, row by row: cell `(x, y)` is at `x + 64 * y`.
    pub fn get_display(&self) -> (r: &[bool])
        ensures
            r@ == self@.screen,
    {
        self.screen.as_slice()
    }

    /// Sets the state of key `idx`.
    pub fn keypress(&mut self, idx: usize, pressed: bool)
        requires
            old(self).wf(),
            idx < NUM_KEYS,
        ensures
            final(self).wf(),
            final(self)@ == (EmuView { keys: old(self)@.keys.update(idx as int, pressed), ..old(self)@ }),
    {
        self.keys.set(idx, pressed);
    }

    /// Copies a program into memory at the origin. A program longer than the
    /// memory above the origin is refused and nothing changes.
    pub fn load(&mut self, data: &[u8]) -> (r: Result<(), EmuError>)
        requires
            old(self).wf(),
        ensures
            final(self).wf(),
            data@.len() <= RAM_SIZE - START_ADDR ==> r == Ok::<(), EmuError>(()) && final(self)@
                == loaded(old(self)@, data@),
            data@.len() > RAM_SIZE - START_ADDR ==> r == Err::<(), EmuError>(
                EmuError::ProgramTooLarge { len: data@.len() as usize },
            ) && final(self)@ == old(self)@,
    {
        let len = data.len();
        if len > RAM_SIZE - START_ADDR as usize {
            return Err(EmuError::ProgramTooLarge { len });
        }
        let start = START_ADDR as usize;
        let mut k: usize = 0;
        while k < len
            invariant
                len == data@.len(),
                start == START_ADDR,
                start + len <= RAM_SIZE,
                k <= len,
                self@ == (EmuView { ram: self@.ram, ..old(self)@ }),
                self.ram@.len() == RAM_SIZE,
                forall|j: int| 0 <= j < start ==> self.ram@[j] == old(self)@.ram[j],
                forall|j: int| start + k <= j < RAM_SIZE ==> self.ram@[j] == old(self)@.ram[j],
                forall|j: int| 0 <= j < k ==> self.ram@[start + j] == data@[j],
            decreases len - k,
        {
            self.ram.set(start + k, data[k]);
            k = k + 1;
        }
        assert(self@.ram =~= loaded(old(self)@, data@).ram);
        assert(self@.ram.subrange(0, FONTSET_SIZE as int) =~= old(self)@.ram.subrange(
            0,
            FONTSET_SIZE as int,
        ));
        Ok(())
    }
}


/// Relies on `rand::random::<u8>`: one byte drawn from the thread-local
/// generator. Nothing is known of its value.
#[verifier::external_body]
fn random_byte() -> (r: u8) {
    rand::random::<u8>()
}

impl Emulator {
    /// Reads the big-endian word at the program counter and moves the
    /// counter past it; fails when the counter does not point at two bytes.
    fn fetch(&mut self) -> (r: Result<u16, EmuError>)
        requires
            old(self).wf(),
        ensures
            final(self).wf(),
            match r {
                Ok(op) => old(self).pc + 1 < RAM_SIZE && op == word_at(old(self)@.ram, old(self).pc as int)
                    && final(self)@ == (EmuView { pc: (old(self).pc + 2) as u16, ..old(self)@ }),
                Err(e) => old(self).pc + 1 >= RAM_SIZE && e == (EmuError::PcOutOfRange { pc: old(self).pc })
                    && final(self)@ == old(self)@,
            },
    {
        let pc = self.pc as usize;
        if pc + 1 >= RAM_SIZE {
            return Err(EmuError::PcOutOfRange { pc: self.pc });
        }
        let hi = self.ram[pc] as u16;
        let lo = self.ram[pc + 1] as u16;
        let op = hi * 256 + lo;
        self.pc = self.pc + 2;
        Ok(op)
    }

    /// Carries out one decoded instruction fetched from `at`; the program
    /// counter already points past it. On failure nothing changes.
    fn execute(&mut self, ins: Instr, rnd: u8, at: u16) -> (r: Result<(), EmuError>)
        requires
            old(self).wf(),
            ins.wf(),
            old(self).pc == at + 2,
            at + 1 < RAM_SIZE,
        ensures
            final(self).wf(),
            follows(old(self)@, final(self)@, r, exec_spec(old(self)@, ins, rnd, at)),
    {
        let ghost s0 = self@;
        match ins {
            Instr::Clear => {
                self.screen = vec![false; SCREEN_WIDTH * SCREEN_HEIGHT];
                assert(self@.screen =~= exec_spec(s0, ins, rnd, at)->Ok_0.screen);
            },
            Instr::Return => {
                if self.sp == 0 {
                    return Err(EmuError::StackUnderflow { pc: at });
                }
                self.pc = self.pop();
            },
            Instr::Jump { addr } => {
                self.pc = addr;
            },
            Instr::Call { addr } => {
                if self.sp as usize >= STACK_SIZE {
                    return Err(EmuError::StackOverflow { pc: at });
                }
                self.push(self.pc);
                self.pc = addr;
            },
            Instr::SkipEqImm { x, nn } => {
                if self.v_reg[x] == nn {
                    self.pc = self.pc + 2;
                }
            },
            Instr::SkipNeImm { x, nn } => {
                if self.v_reg[x] != nn {
                    self.pc = self.pc + 2;
                }
            },
            Instr::SkipEqReg { x, y } => {
                if self.v_reg[x] == self.v_reg[y] {
                    self.pc = self.pc + 2;
                }
            },
            Instr::SkipNeReg { x, y } => {
                if self.v_reg[x] != self.v_reg[y] {
                    self.pc = self.pc + 2;
                }
            },
            Instr::LoadImm { x, nn } => {
                self.v_reg.set(x, nn);
            },
            Instr::AddImm { x, nn } => {
                let a = self.v_reg[x];
                self.v_reg.set(x, a.wrapping_add(nn));
            },
            Instr::Move { x, y } => {
                let b = self.v_reg[y];
                self.v_reg.set(x, b);
            },
            Instr::Or { x, y } => {
                let v = self.v_reg[x] | self.v_reg[y];
                self.v_reg.set(x, v);
            },
            Instr::And { x, y } => {
                let v = self.v_reg[x] & self.v_reg[y];
                self.v_reg.set(x, v);
            },
            Instr::Xor { x, y } => {
                let v = self.v_reg[x] ^ self.v_reg[y];
                self.v_reg.set(x, v);
            },
            Instr::AddReg { x, y } => {
                let a = self.v_reg[x];
                let b = self.v_reg[y];
                let carry: u8 = if a > 255 - b { 1 } else { 0 };
                self.v_reg.set(x, a.wrapping_add(b));
                self.v_reg.set(FLAG, carry);
            },
            Instr::SubReg { x, y } => {
                let a = self.v_reg[x];
                let b = self.v_reg[y];
                let no_borrow: u8 = if a >= b { 1 } else { 0 };
                self.v_reg.set(x, a.wrapping_sub(b));
                self.v_reg.set(FLAG, no_borrow);
            },
            Instr::SubRev { x, y } => {
                let a = self.v_reg[x];
                let b = self.v_reg[y];
                let no_borrow: u8 = if b >= a { 1 } else { 0 };
                self.v_reg.set(x, b.wrapping_sub(a));
                self.v_reg.set(FLAG, no_borrow);
            },
            Instr::ShiftRight { x } => {
                let a = self.v_reg[x];
                let out = a & 1;
                assert(a >> 1 == a / 2 && a & 1 == a % 2) by (bit_vector);
                self.v_reg.set(x, a >> 1);
                self.v_reg.set(FLAG, out);
            },
            Instr::ShiftLeft { x } => {
                let a = self.v_reg[x];
                let out = (a >> 7) & 1;
                assert((a << 1) as int == (a * 2) % 256 && (a >> 7) & 1 == a / 128) by (bit_vector);
                self.v_reg.set(x, a << 1);
                self.v_reg.set(FLAG, out);
            },
            Instr::SetIndex { addr } => {
                self.i_reg = addr;
            },
            Instr::JumpOffset { addr } => {
                self.pc = self.v_reg[0] as u16 + addr;
            },
            Instr::Random { x, nn } => {
                self.v_reg.set(x, rnd & nn);
            },
            Instr::Draw { x, y, n } => {
                let start = self.i_reg as usize;
                if start + n > RAM_SIZE {
                    return Err(EmuError::AddressOutOfRange { pc: at, index: self.i_reg });
                }
                let cx = self.v_reg[x];
                let cy = self.v_reg[y];
                let hit = draw_sprite(&mut self.screen, &self.ram, start, n, cx, cy);
                self.v_reg.set(FLAG, if hit { 1 } else { 0 });
            },
            Instr::SkipKey { x } => {
                let k = (self.v_reg[x] % 16) as usize;
                if self.keys[k] {
                    self.pc = self.pc + 2;
                }
            },
            Instr::SkipNotKey { x } => {
                let k = (self.v_reg[x] % 16) as usize;
                if !self.keys[k] {
                    self.pc = self.pc + 2;
                }
            },
            Instr::WaitKey { x } => {
                let mut k: usize = 0;
                while k < NUM_KEYS
                    invariant
                        self@ == s0,
                        s0 == old(self)@,
                        self.wf(),
                        ins == (Instr::WaitKey { x }),
                        x < NUM_REGS,
                        k <= NUM_KEYS,
                        forall|j: int| 0 <= j < k ==> !s0.keys[j],
                    decreases NUM_KEYS - k,
                {
                    if self.keys[k] {
                        proof {
                            assert(is_lowest_pressed(s0.keys, k as int));
                            let l = lowest_pressed(s0.keys);
                            assert(is_lowest_pressed(s0.keys, l));
                            assert(l == k);
                            assert(s0.keys[k as int]);
                            assert(any_pressed(s0.keys));
                        }
                        self.v_reg.set(x, k as u8);
                        return Ok(());
                    }
                    k = k + 1;
                }
                assert(!any_pressed(s0.keys));
                self.pc = at;
            },
            Instr::GetDelay { x } => {
                self.v_reg.set(x, self.dt);
            },
            Instr::SetDelay { x } => {
                self.dt = self.v_reg[x];
            },
            Instr::SetSound { x } => {
                self.st = self.v_reg[x];
            },
            Instr::AddIndex { x } => {
                self.i_reg = self.i_reg.wrapping_add(self.v_reg[x] as u16);
            },
            Instr::FontChar { x } => {
                self.i_reg = 5 * ((self.v_reg[x] % 16) as u16);
            },
            Instr::Bcd { x } => {
                let i = self.i_reg as usize;
                if i < START_ADDR as usize || i + 3 > RAM_SIZE {
                    return Err(EmuError::AddressOutOfRange { pc: at, index: self.i_reg });
                }
                let v = self.v_reg[x];
                self.ram.set(i, v / 100);
                self.ram.set(i + 1, (v / 10) % 10);
                self.ram.set(i + 2, v % 10);
                assert(self@.ram.subrange(0, FONTSET_SIZE as int) =~= s0.ram.subrange(0, FONTSET_SIZE as int));
            },
            Instr::Dump { x } => {
                let i = self.i_reg as usize;
                if i < START_ADDR as usize || i + x + 1 > RAM_SIZE {
                    return Err(EmuError::AddressOutOfRange { pc: at, index: self.i_reg });
                }
                let mut k: usize = 0;
                while k <= x
                    invariant
                        s0.wf(),
                        x < NUM_REGS,
                        i == s0.i_reg,
                        START_ADDR <= i,
                        i + x + 1 <= RAM_SIZE,
                        k <= x + 1,
                        self@ == (EmuView { ram: self@.ram, ..s0 }),
                        self.ram@.len() == RAM_SIZE,
                        forall|j: int| 0 <= j < RAM_SIZE ==> #[trigger] self.ram@[j] == if i <= j < i + k {
                            s0.v_reg[j - i]
                        } else {
                            s0.ram[j]
                        },
                    decreases x + 1 - k,
                {
                    let v = self.v_reg[k];
                    self.ram.set(i + k, v);
                    k = k + 1;
                }
                assert(self@.ram =~= exec_spec(s0, ins, rnd, at)->Ok_0.ram);
                assert(self@.ram.subrange(0, FONTSET_SIZE as int) =~= s0.ram.subrange(0, FONTSET_SIZE as int));
            },
            Instr::Load { x } => {
                let i = self.i_reg as usize;
                if i + x + 1 > RAM_SIZE {
                    return Err(EmuError::AddressOutOfRange { pc: at, index: self.i_reg });
                }
                let mut k: usize = 0;
                while k <= x
                    invariant
                        s0.wf(),
                        x < NUM_REGS,
                        i == s0.i_reg,
                        i + x + 1 <= RAM_SIZE,
                        k <= x + 1,
                        self@ == (EmuView { v_reg: self@.v_reg, ..s0 }),
                        self.v_reg@.len() == NUM_REGS,
                        forall|j: int| 0 <= j < NUM_REGS ==> #[trigger] self.v_reg@[j] == if j < k {
                            s0.ram[i + j]
                        } else {
                            s0.v_reg[j]
                        },
                    decreases x + 1 - k,
                {
                    let v = self.ram[i + k];
                    self.v_reg.set(k, v);
                    k = k + 1;
                }
                assert(self@.v_reg =~= exec_spec(s0, ins, rnd, at)->Ok_0.v_reg);
            },
        }
        Ok(())
    }

    /// One CPU step with `rnd` as the byte that a random instruction draws:
    /// fetch, decode, execute. On failure the machine is left as it was.
    pub fn tick_with(&mut self, rnd: u8) -> (r: Result<(), EmuError>)
        requires
            old(self).wf(),
        ensures
            final(self).wf(),
            follows(old(self)@, final(self)@, r, step_spec(old(self)@, rnd)),
    {
        let at = self.pc;
        let op = match self.fetch() {
            Ok(op) => op,
            Err(e) => {
                return Err(e);
            },
        };
        match decode(op) {
            None => {
                self.pc = at;
                Err(EmuError::UnknownOpcode { op, pc: at })
            },
            Some(ins) => {
                let r = self.execute(ins, rnd, at);
                match r {
                    Ok(()) => Ok(()),
                    Err(e) => {
                        self.pc = at;
                        Err(e)
                    },
                }
            },
        }
    }

    /// One CPU step: fetch, decode, execute, with a fresh random byte for the
    /// random instruction. On failure the machine is left as it was.
    pub fn tick(&mut self) -> (r: Result<(), EmuError>)
        requires
            old(self).wf(),
        ensures
            final(self).wf(),
            exists|rnd: u8| follows(old(self)@, final(self)@, r, #[trigger] step_spec(old(self)@, rnd)),
    {
        let rnd = random_byte();
        self.tick_with(rnd)
    }
}

impl Emulator {
    /// The program counter.
    pub fn pc(&self) -> (r: u16)
        ensures
            r == self@.pc,
    {
        self.pc
    }

    /// The value of register `x`.
    pub fn register(&self, x: usize) -> (r: u8)
        requires
            self.wf(),
            x < NUM_REGS,
        ensures
            r == self@.v_reg[x as int],
    {
        self.v_reg[x]
    }

    /// The index register.
    pub fn index(&self) -> (r: u16)
        ensures
            r == self@.i_reg,
    {
        self.i_reg
    }

    /// The byte at memory address `addr`.
    pub fn read_memory(&self, addr: usize) -> (r: u8)
        requires
            self.wf(),
            addr < RAM_SIZE,
        ensures
            r == self@.ram[addr as int],
    {
        self.ram[addr]
    }

    /// The number of return addresses on the stack.
    pub fn stack_depth(&self) -> (r: u16)
        ensures
            r == self@.sp,
    {
        self.sp
    }

    /// The delay timer.
    pub fn delay_timer(&self) -> (r: u8)
        ensures
            r == self@.dt,
    {
        self.dt
    }

    /// The sound timer.
    pub fn sound_timer(&self) -> (r: u8)
        ensures
            r == self@.st,
    {
        self.st
    }

    /// Whether the host should sound a tone: the sound timer is above zero.
    pub fn sound_on(&self) -> (r: bool)
        ensures
            r == (self@.st > 0),
    {
        self.st > 0
    }
}

const FLAG: usize = 15;

} // verus!
