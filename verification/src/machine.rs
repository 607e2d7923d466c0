//! The mathematical model of the machine: a ghost record of every piece
//! of architectural state, and the well-formedness invariant that all
//! reachable states satisfy.
use vstd::prelude::*;

verus! {

/// Number of entries in the call stack.
pub const STACK_SIZE: usize = 16;

/// Size of the addressable memory, in bytes.
pub const MEMORY_SIZE: usize = 4096;

/// Number of keys on the keypad.
pub const KEYBOARD_SIZE: usize = 16;

/// Width of the display, in cells.
pub const SCREEN_WIDTH: usize = 64;

/// Height of the display, in cells.
pub const SCREEN_HEIGHT: usize = 32;

/// Number of cells in the display buffer.
pub const DISPLAY_SIZE: usize = 64 * 32;

/// Address at which a loaded program begins.
pub const PROGRAM_START: usize = 0x200;

/// Exclusive upper bound kept on the index register: it is conceptually
/// a 12-bit address, stored with headroom so that the add-to-index
/// instruction can accumulate; it wraps at 16 bits rather than growing
/// without bound, and every use as a memory address is bounds-checked.
pub const INDEX_LIMIT: usize = 0x10000;

/// The machine state as mathematics: one field per architectural
/// component, free of any representation choice.
pub ghost struct Machine {
    /// The sixteen 8-bit general-purpose registers.
    pub v: Seq<u8>,
    /// The 4096-byte memory.
    pub mem: Seq<u8>,
    /// The index register.
    pub i: int,
    /// The program counter.
    pub pc: int,
    /// The delay timer.
    pub dt: u8,
    /// The sound timer.
    pub st: u8,
    /// The sixteen-entry call stack.
    pub stack: Seq<u16>,
    /// The stack pointer.
    pub sp: int,
    /// The display buffer, one cell per pixel, each 0 or 1.
    pub display: Seq<u8>,
    /// The keypad snapshot, one flag per key.
    pub keys: Seq<bool>,
    /// Set when a fatal condition or a quit request halts the machine.
    pub quit: bool,
    /// Set when the display changed since the last render pass.
    pub redraw: bool,
}

impl Machine {
    /// Well-formedness: every reachable state keeps each register in
    /// 0-255 (by its 8-bit type), the stack pointer in 0-15, each
    /// stacked address inside memory, each display cell 0 or 1, and
    /// the index register under its wrap limit.
    pub open spec fn wf(self) -> bool {
        &&& self.v.len() == 16
        &&& self.mem.len() == MEMORY_SIZE
        &&& self.stack.len() == STACK_SIZE
        &&& self.display.len() == DISPLAY_SIZE
        &&& self.keys.len() == KEYBOARD_SIZE
        &&& 0 <= self.sp < STACK_SIZE
        &&& 0 <= self.i < INDEX_LIMIT
        &&& 0 <= self.pc <= u16::MAX
        &&& forall|k: int| 0 <= k < STACK_SIZE ==> self.stack[k] < MEMORY_SIZE
        &&& forall|a: int| 0 <= a < DISPLAY_SIZE ==> self.display[a] <= 1
    }

    /// The same state with the halt flag raised: the one effect of every
    /// fatal condition.
    pub open spec fn halted(self) -> Machine {
        Machine { quit: true, ..self }
    }
}

/// The built-in font: sixteen glyphs of five bytes each, one glyph per
/// hexadecimal digit, copied to the bottom of memory at startup.
pub open spec fn font_seq() -> Seq<u8> {
    seq![
        0xF0u8, 0x90, 0x90, 0x90, 0xF0,
        0x20, 0x60, 0x20, 0x20, 0x70,
        0xF0, 0x10, 0xF0, 0x80, 0xF0,
        0xF0, 0x10, 0xF0, 0x10, 0xF0,
        0x90, 0x90, 0xF0, 0x10, 0x10,
        0xF0, 0x80, 0xF0, 0x10, 0xF0,
        0xF0, 0x80, 0xF0, 0x90, 0xF0,
        0xF0, 0x10, 0x20, 0x40, 0x40,
        0xF0, 0x90, 0xF0, 0x90, 0xF0,
        0xF0, 0x90, 0xF0, 0x10, 0xF0,
        0xF0, 0x90, 0xF0, 0x90, 0x90,
        0xE0, 0x90, 0xE0, 0x90, 0xE0,
        0xF0, 0x80, 0x80, 0x80, 0xF0,
        0xE0, 0x90, 0x90, 0x90, 0xE0,
        0xF0, 0x80, 0xF0, 0x80, 0xF0,
        0xF0, 0x80, 0xF0, 0x80, 0x80,
    ]
}

} // verus!
