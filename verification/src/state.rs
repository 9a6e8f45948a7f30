//! The mathematical model of the machine: every register, timer, latch and
//! buffer of the interpreter as one record over `Seq`, together with its
//! well-formedness condition and the initial contents.
use vstd::prelude::*;

verus! {

/// Number of addressable memory bytes.
pub const MEMORY_SIZE: usize = 4096;

/// Address at which a loaded program begins; fixed by convention.
pub const PROGRAM_START: u16 = 0x200;

/// Framebuffer width in pixels.
pub const SCREEN_WIDTH: usize = 64;

/// Framebuffer height in pixels.
pub const SCREEN_HEIGHT: usize = 32;

/// Number of framebuffer cells.
pub const SCREEN_CELLS: usize = 2048;

/// Number of call-stack slots.
pub const STACK_SIZE: usize = 16;

/// Number of general-purpose registers, and also of key latches.
pub const REG_COUNT: usize = 16;

/// The blocking key-wait marker: either running normally, or suspended until
/// a key edge arrives, remembering the register that will receive the key.
#[derive(Clone, Copy, Debug, PartialEq, Eq, Structural)]
pub enum Wait {
    Running,
    AwaitingKey(u8),
}

/// The whole machine state, in mathematical form. `memory` has 4096 bytes,
/// `v` the 16 general registers, `gfx` the 64x32 framebuffer row-major with
/// each cell 0 or 1, `stack` 16 return slots of which the first `sp` are in
/// use, and `key` the 16 key latches.
#[verifier::ext_equal]
pub struct State {
    pub memory: Seq<u8>,
    pub v: Seq<u8>,
    pub i: u16,
    pub pc: u16,
    pub gfx: Seq<u8>,
    pub delay: u8,
    pub sound: u8,
    pub stack: Seq<u16>,
    pub sp: usize,
    pub key: Seq<bool>,
    pub draw_flag: bool,
    pub wait: Wait,
}

impl State {
    /// Every reachable state satisfies this: sequences have their fixed
    /// lengths, the program counter and index register stay inside the
    /// address space, the stack pointer stays within the 16 slots, stacked
    /// return addresses are in range, framebuffer cells are 0 or 1, and a
    /// key-wait marker names an existing register.
    pub open spec fn wf(self) -> bool {
        &&& self.memory.len() == MEMORY_SIZE
        &&& self.v.len() == REG_COUNT
        &&& self.gfx.len() == SCREEN_CELLS
        &&& self.stack.len() == STACK_SIZE
        &&& self.key.len() == REG_COUNT
        &&& self.pc < MEMORY_SIZE
        &&& self.i < MEMORY_SIZE
        &&& self.sp <= STACK_SIZE
        &&& (forall|c: int| 0 <= c < SCREEN_CELLS ==> self.gfx[c] <= 1)
        &&& (forall|j: int| 0 <= j < STACK_SIZE ==> self.stack[j] < MEMORY_SIZE)
        &&& (self.wait matches Wait::AwaitingKey(r) ==> r < REG_COUNT)
    }
}

/// The built-in glyph bitmaps for the hexadecimal digits 0 through F,
/// five bytes per glyph, preloaded at address 0.
pub open spec fn font_seq() -> Seq<u8> {
    seq![
        0xF0u8, 0x90, 0x90, 0x90, 0xF0,
        0x20, 0x60, 0x20, 0x20, 0x70,
        0xF0, 0x10, 0xF0, 0x80, 0xF0,
        0xF0, 0x10, 0xF0, 0x10, 0xF0,
        0x90, 0x90, 0xF0, 0x10, 0x10,
        0xF0, 0x80, 0xF0, 0x10, 0xF0,
        0xF0, 0x80, 0xF0, 0x90, 0xF0,
        0xF0, 0x10, 0x20, 0x40, 0x40,
        0xF0, 0x90, 0xF0, 0x90, 0xF0,
        0xF0, 0x90, 0xF0, 0x10, 0xF0,
        0xF0, 0x90, 0xF0, 0x90, 0x90,
        0xE0, 0x90, 0xE0, 0x90, 0xE0,
        0xF0, 0x80, 0x80, 0x80, 0xF0,
        0xE0, 0x90, 0x90, 0x90, 0xE0,
        0xF0, 0x80, 0xF0, 0x80, 0xF0,
        0xF0, 0x80, 0xF0, 0x80, 0x80,
    ]
}

/// Number of bytes the font occupies at the bottom of memory.
pub const FONT_BYTES: usize = 80;

/// A framebuffer with every cell clear.
pub open spec fn zero_gfx() -> Seq<u8> {
    Seq::new(SCREEN_CELLS as nat, |c: int| 0u8)
}

/// The state right after initialization: memory zeroed except for the font,
/// the program counter at the conventional program start, everything else
/// cleared and the machine running.
pub open spec fn initial_state() -> State {
    State {
        memory: Seq::new(MEMORY_SIZE as nat, |j: int| if j < FONT_BYTES { font_seq()[j] } else { 0u8 }),
        v: Seq::new(REG_COUNT as nat, |j: int| 0u8),
        i: 0,
        pc: PROGRAM_START,
        gfx: zero_gfx(),
        delay: 0,
        sound: 0,
        stack: Seq::new(STACK_SIZE as nat, |j: int| 0u16),
        sp: 0,
        key: Seq::new(REG_COUNT as nat, |j: int| false),
        draw_flag: false,
        wait: Wait::Running,
    }
}

/// One countdown of a timer: decrement if nonzero, floor at zero.
pub open spec fn tick(t: u8) -> u8 {
    if t > 0 { (t - 1) as u8 } else { 0 }
}

/// The timer subsystem's effect on the state: both timers count down once.
pub open spec fn tick_timers(s: State) -> State {
    State { delay: tick(s.delay), sound: tick(s.sound), ..s }
}

} // verus!
