//! A verified interpreter core for the classic fixed 8-bit instruction set
//! with 4KB of memory, sixteen 8-bit registers, a 16-bit index register, a
//! call stack, two countdown timers, a monochrome 64x32 framebuffer and a
//! 16-key input panel. The crate models every instruction's state transition
//! mathematically and proves that the executable machine follows that model.
pub mod chip8;
pub mod decode;
pub mod laws;
pub mod model;
pub mod state;
