use vstd::prelude::*;

verus! {

/// Width of the display, in pixels.
pub const SCREEN_WIDTH: usize = 64;

/// Height of the display, in pixels.
pub const SCREEN_HEIGHT: usize = 32;

/// Number of pixels on the display.
pub const SCREEN_PIXELS: usize = SCREEN_WIDTH * SCREEN_HEIGHT;

/// Size of the address space, in bytes.
pub const RAM_SIZE: usize = 4096;

/// Address at which a program image is loaded and execution begins.
pub const START_ADDR: u16 = 0x200;

/// Number of general registers.
pub const NUM_REGS: usize = 16;

/// Number of return addresses the call stack holds.
pub const STACK_SIZE: usize = 16;

/// Number of keys on the pad.
pub const NUM_KEYS: usize = 16;

/// Size of the glyph table stored at the bottom of memory.
pub const FONTSET_SIZE: usize = 80;

/// Index of the flag register VF.
pub const VF: usize = 15;

/// A fatal condition met while executing an instruction.
#[derive(Debug, Clone, Copy, PartialEq, Eq, Structural)]
pub enum EmuError {
    /// A memory access, or an address derived from a register, falls outside
    /// the address space (this includes a program counter that leaves it).
    OutOfBounds,
    /// A call with all sixteen stack slots in use.
    StackOverflow,
    /// A return with no call active.
    StackUnderflow,
    /// An instruction word that matches no handler.
    UnknownOpcode(u16),
}

/// The whole state of the machine, as a mathematical value.
pub ghost struct EmuState {
    pub pc: u16,
    pub ram: Seq<u8>,
    pub screen: Seq<bool>,
    pub v: Seq<u8>,
    pub i: u16,
    pub sp: u16,
    pub stack: Seq<u16>,
    pub keys: Seq<bool>,
    pub dt: u8,
    pub st: u8,
}

/// The sixteen 5-byte glyphs of the hexadecimal digits 0 to F.
pub open spec fn font_table() -> Seq<u8> {
    seq![
        0xF0u8, 0x90, 0x90, 0x90, 0xF0,
        0x20, 0x60, 0x20, 0x20, 0x70,
        0xF0, 0x10, 0xF0, 0x80, 0xF0,
        0xF0, 0x10, 0xF0, 0x10, 0xF0,
        0x90, 0x90, 0xF0, 0x10, 0x10,
        0xF0, 0x80, 0xF0, 0x10, 0xF0,
        0xF0, 0x80, 0xF0, 0x90, 0xF0,
        0xF0, 0x10, 0x20, 0x40, 0x40,
        0xF0, 0x90, 0xF0, 0x90, 0xF0,
        0xF0, 0x90, 0xF0, 0x10, 0xF0,
        0xF0, 0x90, 0xF0, 0x90, 0x90,
        0xE0, 0x90, 0xE0, 0x90, 0xE0,
        0xF0, 0x80, 0x80, 0x80, 0xF0,
        0xE0, 0x90, 0x90, 0x90, 0xE0,
        0xF0, 0x80, 0xF0, 0x80, 0xF0,
        0xF0, 0x80, 0xF0, 0x80, 0x80
    ]
}

/// An all-dark display.
pub open spec fn blank_screen() -> Seq<bool> {
    Seq::new(SCREEN_PIXELS as nat, |k: int| false)
}

/// Memory as it stands after construction or reset: the glyph table, then zeros.
pub open spec fn initial_ram() -> Seq<u8> {
    Seq::new(RAM_SIZE as nat, |a: int| if a < FONTSET_SIZE { font_table()[a] } else { 0u8 })
}

/// The state after construction or reset.
pub open spec fn initial_state() -> EmuState {
    EmuState {
        pc: START_ADDR,
        ram: initial_ram(),
        screen: blank_screen(),
        v: Seq::new(NUM_REGS as nat, |r: int| 0u8),
        i: 0,
        sp: 0,
        stack: Seq::new(STACK_SIZE as nat, |r: int| 0u16),
        keys: Seq::new(NUM_KEYS as nat, |k: int| false),
        dt: 0,
        st: 0,
    }
}

/// The sizes of the parts of the state, and the stack pointer's range.
pub open spec fn shaped(s: EmuState) -> bool {
    &&& s.ram.len() == RAM_SIZE
    &&& s.screen.len() == SCREEN_PIXELS
    &&& s.v.len() == NUM_REGS
    &&& s.stack.len() == STACK_SIZE
    &&& s.keys.len() == NUM_KEYS
    &&& s.sp <= STACK_SIZE
}

/// A state the machine can be in between two calls: well shaped, with the
/// program counter inside memory.
pub open spec fn valid(s: EmuState) -> bool {
    shaped(s) && s.pc < RAM_SIZE
}

/// `ram` with `bytes` written over it from address `at` on.
pub open spec fn overwrite<T>(ram: Seq<T>, at: int, bytes: Seq<T>) -> Seq<T> {
    Seq::new(ram.len(), |a: int| if at <= a < at + bytes.len() { bytes[a - at] } else { ram[a] })
}

/// The state after one timer tick: each timer that is above zero goes down by one.
pub open spec fn timers_ticked(s: EmuState) -> EmuState {
    EmuState {
        dt: if s.dt > 0 { (s.dt - 1) as u8 } else { 0 },
        st: if s.st > 0 { (s.st - 1) as u8 } else { 0 },
        ..s
    }
}

} // verus!
