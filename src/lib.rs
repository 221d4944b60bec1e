//! An interpreter for a small 8-bit virtual machine: 4 KiB of memory, sixteen
//! byte registers, a return stack, two countdown timers, a 64x32 monochrome
//! display and a 16-key keypad.
//!
//! Every instruction is specified by a spec function over the machine's view
//! (`semantics`), and the executable step is proved to follow it.

pub mod draw;
pub mod instr;
pub mod laws;
pub mod machine;
pub mod semantics;

pub use instr::{decode, Instr};
pub use machine::{
    EmuError, EmuView, Emulator, FONTSET_SIZE, MAX_PC, NUM_KEYS, NUM_REGS, RAM_SIZE,
    SCREEN_HEIGHT, SCREEN_WIDTH, STACK_SIZE, START_ADDR,
};
