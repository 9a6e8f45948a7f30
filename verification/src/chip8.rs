//! The executable machine. `Chip` owns all mutable state; its view is the
//! mathematical `State` and every public operation is proved against the
//! transition model in `model`.
use vstd::prelude::*;
use rand::Rng;
use crate::decode::{decode_op, fetched, Instr};
use crate::model::{advanced, collision_upto, draw_collision, draw_gfx, flips_upto, flip_target,
    hits, instr_state, key_event_state, lemma_collision_extend, lemma_collision_row_end,
    lemma_draw_start, lemma_flips_extend, lemma_flips_row_end, lemma_no_earlier_hit,
    lemma_target_bounds, loaded_regs, pixel_mask, skip_if, sprite_bit, sprite_row, step_note,
    step_state, stored_regs, wrap_sub, StepError, StepNote};
use crate::state::{font_seq, initial_state, tick_timers, zero_gfx, State, Wait, FONT_BYTES,
    MEMORY_SIZE, PROGRAM_START, REG_COUNT, SCREEN_CELLS, SCREEN_HEIGHT, SCREEN_WIDTH, STACK_SIZE};

verus! {

/// The error a program too large for memory raises at load time.
#[derive(Clone, Copy, Debug, PartialEq, Eq, Structural)]
pub enum LoadError {
    ProgramTooLarge,
}

/// The error a key index outside the 16-key panel raises.
#[derive(Clone, Copy, Debug, PartialEq, Eq, Structural)]
pub enum KeyError {
    IndexOutOfRange,
}

/// One draw of a uniformly distributed random byte.
///
/// Relies on `rand::thread_rng` and `rand::Rng::gen` for `u8`: the sampled
/// value depends on the generator's state, so nothing is promised of it.
#[verifier::external_body]
fn random_byte() -> u8 {
    rand::thread_rng().gen()
}

/// The interpreter: 4096 bytes of memory, sixteen 8-bit registers, the
/// 16-bit index register and program counter, the 64x32 one-bit framebuffer,
/// two countdown timers, a 16-slot call stack, 16 key latches, the redraw
/// flag and the key-wait marker.
pub struct Chip {
    memory: Vec<u8>,
    v: Vec<u8>,
    i: u16,
    pc: u16,
    gfx: Vec<u8>,
    delay_timer: u8,
    sound_timer: u8,
    stack: Vec<u16>,
    sp: usize,
    key: Vec<bool>,
    draw_flag: bool,
    wait: Wait,
}

impl View for Chip {
    type V = State;

    closed spec fn view(&self) -> State {
        State {
            memory: self.memory@,
            v: self.v@,
            i: self.i,
            pc: self.pc,
            gfx: self.gfx@,
            delay: self.delay_timer,
            sound: self.sound_timer,
            stack: self.stack@,
            sp: self.sp,
            key: self.key@,
            draw_flag: self.draw_flag,
            wait: self.wait,
        }
    }
}

/// A vector of `n` zero bytes.
fn zero_bytes(n: usize) -> (r: Vec<u8>)
    ensures
        r@.len() == n,
        forall|k: int| 0 <= k < n ==> r@[k] == 0u8,
{
    let mut r: Vec<u8> = Vec::new();
    let mut j: usize = 0;
    while j < n
        invariant
            j <= n,
            r@.len() == j,
            forall|k: int| 0 <= k < j ==> r@[k] == 0u8,
        decreases n - j,
    {
        r.push(0);
        j += 1;
    }
    r
}

impl Chip {
    /// The machine's invariant: its view is well formed.
    pub open spec fn wf(&self) -> bool {
        self@.wf()
    }

    /// A fresh machine: memory zeroed except for the built-in font at the
    /// bottom, the program counter at the conventional program start, and
    /// everything else cleared.
    pub fn initialize() -> (chip: Chip)
        ensures
            chip@ == initial_state(),
            chip.wf(),
    {
        let font: [u8; 80] = [
            0xF0, 0x90, 0x90, 0x90, 0xF0,
            0x20, 0x60, 0x20, 0x20, 0x70,
            0xF0, 0x10, 0xF0, 0x80, 0xF0,
            0xF0, 0x10, 0xF0, 0x10, 0xF0,
            0x90, 0x90, 0xF0, 0x10, 0x10,
            0xF0, 0x80, 0xF0, 0x10, 0xF0,
            0xF0, 0x80, 0xF0, 0x90, 0xF0,
            0xF0, 0x10, 0x20, 0x40, 0x40,
            0xF0, 0x90, 0xF0, 0x90, 0xF0,
            0xF0, 0x90, 0xF0, 0x10, 0xF0,
            0xF0, 0x90, 0xF0, 0x90, 0x90,
            0xE0, 0x90, 0xE0, 0x90, 0xE0,
            0xF0, 0x80, 0x80, 0x80, 0xF0,
            0xE0, 0x90, 0x90, 0x90, 0xE0,
            0xF0, 0x80, 0xF0, 0x80, 0xF0,
            0xF0, 0x80, 0xF0, 0x80, 0x80,
        ];
        proof {
            assert(font@ =~= font_seq());
        }
        let mut memory = zero_bytes(MEMORY_SIZE);
        let mut j: usize = 0;
        while j < FONT_BYTES
            invariant
                j <= FONT_BYTES,
                memory@.len() == MEMORY_SIZE,
                font@ == font_seq(),
                forall|k: int| 0 <= k < j ==> memory@[k] == font_seq()[k],
                forall|k: int| j <= k < MEMORY_SIZE ==> memory@[k] == 0u8,
            decreases FONT_BYTES - j,
        {
            memory.set(j, font[j]);
            j += 1;
        }
        let mut stack: Vec<u16> = Vec::new();
        let mut key: Vec<bool> = Vec::new();
        let mut j: usize = 0;
        while j < STACK_SIZE
            invariant
                j <= STACK_SIZE,
                stack@.len() == j,
                key@.len() == j,
                forall|k: int| 0 <= k < j ==> stack@[k] == 0u16,
                forall|k: int| 0 <= k < j ==> key@[k] == false,
            decreases STACK_SIZE - j,
        {
            stack.push(0);
            key.push(false);
            j += 1;
        }
        let chip = Chip {
            memory,
            v: zero_bytes(REG_COUNT),
            i: 0,
            pc: PROGRAM_START,
            gfx: zero_bytes(SCREEN_CELLS),
            delay_timer: 0,
            sound_timer: 0,
            stack,
            sp: 0,
            key,
            draw_flag: false,
            wait: Wait::Running,
        };
        proof {
            assert(chip@ =~= initial_state());
        }
        chip
    }

    /// Copies a program into memory starting at the conventional program
    /// start. A program longer than the memory beyond that point is refused
    /// whole, before any byte is written.
    pub fn load_program(&mut self, program: &[u8]) -> (r: Result<(), LoadError>)
        requires
            old(self).wf(),
        ensures
            final(self).wf(),
            program@.len() <= MEMORY_SIZE - PROGRAM_START ==> {
                &&& r is Ok
                &&& final(self)@ == (State {
                    memory: old(self)@.memory.subrange(0, PROGRAM_START as int) + program@
                        + old(self)@.memory.subrange(PROGRAM_START + program@.len(), MEMORY_SIZE as int),
                    ..old(self)@
                })
            },
            program@.len() > MEMORY_SIZE - PROGRAM_START ==> {
                &&& r == Err::<(), LoadError>(LoadError::ProgramTooLarge)
                &&& final(self)@ == old(self)@
            },
    {
        if program.len() > MEMORY_SIZE - (PROGRAM_START as usize) {
            return Err(LoadError::ProgramTooLarge);
        }
        let base = PROGRAM_START as usize;
        let mut j: usize = 0;
        while j < program.len()
            invariant
                old(self).wf(),
                j <= program@.len(),
                program@.len() <= MEMORY_SIZE - base,
                base == PROGRAM_START,
                self@ == (State { memory: self@.memory, ..old(self)@ }),
                self@.memory.len() == MEMORY_SIZE,
                forall|k: int| 0 <= k < base ==> self@.memory[k] == old(self)@.memory[k],
                forall|k: int| 0 <= k < j ==> self@.memory[base + k] == program@[k],
                forall|k: int| base + j <= k < MEMORY_SIZE ==> self@.memory[k] == old(self)@.memory[k],
            decreases program@.len() - j,
        {
            let b = program[j];
            self.memory.set(base + j, b);
            j += 1;
        }
        proof {
            assert(self@.memory =~= old(self)@.memory.subrange(0, PROGRAM_START as int) + program@
                + old(self)@.memory.subrange(PROGRAM_START + program@.len(), MEMORY_SIZE as int));
            assert(self@ =~= State {
                memory: old(self)@.memory.subrange(0, PROGRAM_START as int) + program@
                    + old(self)@.memory.subrange(PROGRAM_START + program@.len(), MEMORY_SIZE as int),
                ..old(self)@
            });
        }
        Ok(())
    }

    /// Applies one key edge event from the host: latch `index` takes the new
    /// level; a rising edge while the machine awaits a key resolves the wait.
    /// An index outside the 16-key panel is rejected untouched.
    pub fn set_key(&mut self, index: usize, pressed: bool) -> (r: Result<(), KeyError>)
        requires
            old(self).wf(),
        ensures
            final(self).wf(),
            index < REG_COUNT ==> r is Ok && final(self)@ == key_event_state(old(self)@, index as int, pressed),
            index >= REG_COUNT ==> r == Err::<(), KeyError>(KeyError::IndexOutOfRange)
                && final(self)@ == old(self)@,
    {
        if index >= REG_COUNT {
            return Err(KeyError::IndexOutOfRange);
        }
        let was = self.key[index];
        self.key.set(index, pressed);
        if pressed && !was {
            if let Wait::AwaitingKey(r) = self.wait {
                self.v.set(r as usize, index as u8);
                self.pc = (self.pc + 2) % (MEMORY_SIZE as u16);
                self.wait = Wait::Running;
            }
        }
        proof {
            assert(self@ =~= key_event_state(old(self)@, index as int, pressed));
        }
        Ok(())
    }

    /// The program counter.
    pub fn pc(&self) -> (r: u16)
        ensures
            r == self@.pc,
    {
        self.pc
    }

    /// The index register.
    pub fn index_reg(&self) -> (r: u16)
        ensures
            r == self@.i,
    {
        self.i
    }

    /// General register `x`.
    pub fn reg(&self, x: u8) -> (r: u8)
        requires
            self.wf(),
            x < REG_COUNT,
        ensures
            r == self@.v[x as int],
    {
        self.v[x as usize]
    }

    /// The byte at memory address `addr`.
    pub fn mem_at(&self, addr: u16) -> (r: u8)
        requires
            self.wf(),
            addr < MEMORY_SIZE,
        ensures
            r == self@.memory[addr as int],
    {
        self.memory[addr as usize]
    }

    /// The framebuffer cell in column `col` of row `row`: 1 if the pixel is
    /// lit, 0 if dark.
    pub fn pixel(&self, col: usize, row: usize) -> (r: u8)
        requires
            self.wf(),
            col < SCREEN_WIDTH,
            row < SCREEN_HEIGHT,
        ensures
            r == self@.gfx[row * SCREEN_WIDTH + col],
    {
        self.gfx[row * SCREEN_WIDTH + col]
    }

    /// The delay timer's current value.
    pub fn delay_timer(&self) -> (r: u8)
        ensures
            r == self@.delay,
    {
        self.delay_timer
    }

    /// The sound timer's current value.
    pub fn sound_timer(&self) -> (r: u8)
        ensures
            r == self@.sound,
    {
        self.sound_timer
    }

    /// Whether the machine asks for a tone: the sound timer is running.
    pub fn sound_active(&self) -> (r: bool)
        ensures
            r == (self@.sound != 0),
    {
        self.sound_timer != 0
    }

    /// Whether the framebuffer changed since the host last cleared the flag.
    pub fn draw_flag(&self) -> (r: bool)
        ensures
            r == self@.draw_flag,
    {
        self.draw_flag
    }

    /// The host clears the redraw flag after presenting a frame.
    pub fn clear_draw_flag(&mut self)
        ensures
            final(self)@ == (State { draw_flag: false, ..old(self)@ }),
    {
        self.draw_flag = false;
        proof {
            assert(self@ =~= State { draw_flag: false, ..old(self)@ });
        }
    }

    /// The number of call-stack slots in use.
    pub fn stack_depth(&self) -> (r: usize)
        ensures
            r == self@.sp,
    {
        self.sp
    }

    /// The register that will receive a key, while the machine is blocked in
    /// the key wait, or nothing while it is running.
    pub fn awaiting_key(&self) -> (r: Option<u8>)
        ensures
            r == (match self@.wait {
                Wait::Running => (None::<u8>),
                Wait::AwaitingKey(t) => (Some(t)),
            }),
    {
        match self.wait {
            Wait::Running => None,
            Wait::AwaitingKey(t) => Some(t),
        }
    }

    /// One RGBA byte quadruple per framebuffer cell, row-major: opaque white
    /// for a lit pixel, opaque black for a dark one. The host copies this
    /// into its surface.
    pub fn render_frame(&self) -> (r: Vec<u8>)
        requires
            self.wf(),
        ensures
            r@.len() == 4 * SCREEN_CELLS,
            forall|c: int| #![trigger self@.gfx[c]] 0 <= c < SCREEN_CELLS ==> {
                let lum: u8 = if self@.gfx[c] == 1 { 255 } else { 0 };
                &&& r@[4 * c] == lum
                &&& r@[4 * c + 1] == lum
                &&& r@[4 * c + 2] == lum
                &&& r@[4 * c + 3] == 255u8
            },
    {
        let mut r: Vec<u8> = Vec::new();
        let mut c: usize = 0;
        while c < SCREEN_CELLS
            invariant
                self.wf(),
                c <= SCREEN_CELLS,
                r@.len() == 4 * c,
                forall|k: int| #![trigger self@.gfx[k]] 0 <= k < c ==> {
                    let lum: u8 = if self@.gfx[k] == 1 { 255 } else { 0 };
                    &&& r@[4 * k] == lum
                    &&& r@[4 * k + 1] == lum
                    &&& r@[4 * k + 2] == lum
                    &&& r@[4 * k + 3] == 255u8
                },
            decreases SCREEN_CELLS - c,
        {
            let lum: u8 = if self.gfx[c] == 1 { 255 } else { 0 };
            r.push(lum);
            r.push(lum);
            r.push(lum);
            r.push(255);
            c += 1;
        }
        r
    }

    /// Advances the program counter by `slots` instruction slots of 2 bytes,
    /// wrapped into the address space.
    fn advance(&mut self, slots: u16)
        requires
            old(self)@.pc < MEMORY_SIZE,
            slots <= 2,
        ensures
            final(self)@ == advanced(old(self)@, slots as int),
    {
        self.pc = (self.pc + 2 * slots) % (MEMORY_SIZE as u16);
        proof {
            assert(self@ =~= advanced(old(self)@, slots as int));
        }
    }

    /// One conditional skip: two slots ahead when the condition holds,
    /// one otherwise.
    fn skip(&mut self, cond: bool)
        requires
            old(self)@.pc < MEMORY_SIZE,
        ensures
            final(self)@ == skip_if(old(self)@, cond),
    {
        if cond {
            self.advance(2);
        } else {
            self.advance(1);
        }
    }

    /// Clear screen: every framebuffer cell to 0, redraw flag set.
    fn op_clear_screen(&mut self)
        requires
            old(self).wf(),
        ensures
            final(self).wf(),
            final(self)@ == instr_state(old(self)@, Instr::ClearScreen, 0),
    {
        let mut c: usize = 0;
        while c < SCREEN_CELLS
            invariant
                c <= SCREEN_CELLS,
                self@ == (State { gfx: self@.gfx, ..old(self)@ }),
                self@.gfx.len() == SCREEN_CELLS,
                old(self)@.pc < MEMORY_SIZE,
                forall|k: int| 0 <= k < c ==> self@.gfx[k] == 0u8,
            decreases SCREEN_CELLS - c,
        {
            self.gfx.set(c, 0);
            c += 1;
        }
        self.draw_flag = true;
        self.advance(1);
        proof {
            assert(self@.gfx =~= zero_gfx());
            assert(self@ =~= instr_state(old(self)@, Instr::ClearScreen, 0));
        }
    }

    /// Return: pop the topmost return address and resume just past the call.
    fn op_return(&mut self)
        requires
            old(self).wf(),
            old(self)@.sp > 0,
        ensures
            final(self).wf(),
            final(self)@ == instr_state(old(self)@, Instr::Return, 0),
    {
        self.sp = self.sp - 1;
        self.pc = (self.stack[self.sp] + 2) % (MEMORY_SIZE as u16);
        proof {
            assert(self@ =~= instr_state(old(self)@, Instr::Return, 0));
        }
    }

    /// Call: push the call-site program counter and jump to the target.
    fn op_call(&mut self, nnn: u16)
        requires
            old(self).wf(),
            old(self)@.sp < STACK_SIZE,
            nnn < MEMORY_SIZE,
        ensures
            final(self).wf(),
            final(self)@ == instr_state(old(self)@, Instr::Call(nnn), 0),
    {
        self.stack.set(self.sp, self.pc);
        self.sp = self.sp + 1;
        self.pc = nnn;
        proof {
            assert(self@ =~= instr_state(old(self)@, Instr::Call(nnn), 0));
        }
    }

    /// VX := NN.
    fn op_set_imm(&mut self, x: u8, nn: u8)
        requires
            old(self).wf(),
            x < REG_COUNT,
        ensures
            final(self).wf(),
            final(self)@ == instr_state(old(self)@, Instr::SetImm(x, nn), 0),
    {
        self.v.set(x as usize, nn);
        self.advance(1);
        proof {
            assert(self@ =~= instr_state(old(self)@, Instr::SetImm(x, nn), 0));
        }
    }

    /// VX := VX + NN, wrapping, the flag register untouched.
    fn op_add_imm(&mut self, x: u8, nn: u8)
        requires
            old(self).wf(),
            x < REG_COUNT,
        ensures
            final(self).wf(),
            final(self)@ == instr_state(old(self)@, Instr::AddImm(x, nn), 0),
    {
        let a = self.v[x as usize];
        let res = ((a as u16 + nn as u16) % 0x100) as u8;
        self.v.set(x as usize, res);
        self.advance(1);
        proof {
            assert(self@ =~= instr_state(old(self)@, Instr::AddImm(x, nn), 0));
        }
    }

    /// The register-to-register moves and bitwise operations of group 8.
    fn op_copy(&mut self, x: u8, y: u8)
        requires
            old(self).wf(),
            x < REG_COUNT,
            y < REG_COUNT,
        ensures
            final(self).wf(),
            final(self)@ == instr_state(old(self)@, Instr::CopyReg(x, y), 0),
    {
        let b = self.v[y as usize];
        self.v.set(x as usize, b);
        self.advance(1);
        proof {
            assert(self@ =~= instr_state(old(self)@, Instr::CopyReg(x, y), 0));
        }
    }

    /// VX := VX | VY.
    fn op_or(&mut self, x: u8, y: u8)
        requires
            old(self).wf(),
            x < REG_COUNT,
            y < REG_COUNT,
        ensures
            final(self).wf(),
            final(self)@ == instr_state(old(self)@, Instr::OrReg(x, y), 0),
    {
        let a = self.v[x as usize];
        let b = self.v[y as usize];
        self.v.set(x as usize, a | b);
        self.advance(1);
        proof {
            assert(self@ =~= instr_state(old(self)@, Instr::OrReg(x, y), 0));
        }
    }

    /// VX := VX & VY.
    fn op_and(&mut self, x: u8, y: u8)
        requires
            old(self).wf(),
            x < REG_COUNT,
            y < REG_COUNT,
        ensures
            final(self).wf(),
            final(self)@ == instr_state(old(self)@, Instr::AndReg(x, y), 0),
    {
        let a = self.v[x as usize];
        let b = self.v[y as usize];
        self.v.set(x as usize, a & b);
        self.advance(1);
        proof {
            assert(self@ =~= instr_state(old(self)@, Instr::AndReg(x, y), 0));
        }
    }

    /// VX := VX ^ VY.
    fn op_xor(&mut self, x: u8, y: u8)
        requires
            old(self).wf(),
            x < REG_COUNT,
            y < REG_COUNT,
        ensures
            final(self).wf(),
            final(self)@ == instr_state(old(self)@, Instr::XorReg(x, y), 0),
    {
        let a = self.v[x as usize];
        let b = self.v[y as usize];
        self.v.set(x as usize, a ^ b);
        self.advance(1);
        proof {
            assert(self@ =~= instr_state(old(self)@, Instr::XorReg(x, y), 0));
        }
    }

    /// VX := VX + VY wrapping; VF reports the carry out of 8 bits. The
    /// result is written before the flag, so on VF itself the flag wins.
    fn op_add_reg(&mut self, x: u8, y: u8)
        requires
            old(self).wf(),
            x < REG_COUNT,
            y < REG_COUNT,
        ensures
            final(self).wf(),
            final(self)@ == instr_state(old(self)@, Instr::AddReg(x, y), 0),
    {
        let a = self.v[x as usize];
        let b = self.v[y as usize];
        let sum = a as u16 + b as u16;
        let flag: u8 = if sum > 0xFF { 1 } else { 0 };
        self.v.set(x as usize, (sum % 0x100) as u8);
        self.v.set(0xF, flag);
        self.advance(1);
        proof {
            assert(self@ =~= instr_state(old(self)@, Instr::AddReg(x, y), 0));
        }
    }

    /// VX := VX - VY wrapping; VF := 1 when there is no borrow (VX >= VY).
    fn op_sub_reg(&mut self, x: u8, y: u8)
        requires
            old(self).wf(),
            x < REG_COUNT,
            y < REG_COUNT,
        ensures
            final(self).wf(),
            final(self)@ == instr_state(old(self)@, Instr::SubReg(x, y), 0),
    {
        let a = self.v[x as usize];
        let b = self.v[y as usize];
        let flag: u8 = if a >= b { 1 } else { 0 };
        let res = ((a as u16 + 0x100 - b as u16) % 0x100) as u8;
        proof {
            vstd::arithmetic::div_mod::lemma_mod_add_multiples_vanish(a - b, 0x100);
            assert(res == wrap_sub(a, b));
        }
        self.v.set(x as usize, res);
        self.v.set(0xF, flag);
        self.advance(1);
        proof {
            assert(self@ =~= instr_state(old(self)@, Instr::SubReg(x, y), 0));
        }
    }

    /// VX := VY - VX wrapping; VF := 1 when there is no borrow (VY >= VX).
    fn op_sub_rev(&mut self, x: u8, y: u8)
        requires
            old(self).wf(),
            x < REG_COUNT,
            y < REG_COUNT,
        ensures
            final(self).wf(),
            final(self)@ == instr_state(old(self)@, Instr::SubRev(x, y), 0),
    {
        let a = self.v[x as usize];
        let b = self.v[y as usize];
        let flag: u8 = if b >= a { 1 } else { 0 };
        let res = ((b as u16 + 0x100 - a as u16) % 0x100) as u8;
        proof {
            vstd::arithmetic::div_mod::lemma_mod_add_multiples_vanish(b - a, 0x100);
            assert(res == wrap_sub(b, a));
        }
        self.v.set(x as usize, res);
        self.v.set(0xF, flag);
        self.advance(1);
        proof {
            assert(self@ =~= instr_state(old(self)@, Instr::SubRev(x, y), 0));
        }
    }

    /// VF := low bit of VX, then VX := VX >> 1. The source is VX, the
    /// convention this crate documents on `Instr::ShiftRight`.
    fn op_shift_right(&mut self, x: u8)
        requires
            old(self).wf(),
            x < REG_COUNT,
        ensures
            final(self).wf(),
            final(self)@ == instr_state(old(self)@, Instr::ShiftRight(x), 0),
    {
        let a = self.v[x as usize];
        self.v.set(x as usize, a / 2);
        self.v.set(0xF, a % 2);
        self.advance(1);
        proof {
            assert(self@ =~= instr_state(old(self)@, Instr::ShiftRight(x), 0));
        }
    }

    /// VF := high bit of VX as 0 or 1, then VX := VX << 1 wrapping.
    fn op_shift_left(&mut self, x: u8)
        requires
            old(self).wf(),
            x < REG_COUNT,
        ensures
            final(self).wf(),
            final(self)@ == instr_state(old(self)@, Instr::ShiftLeft(x), 0),
    {
        let a = self.v[x as usize];
        self.v.set(x as usize, ((a as u16 * 2) % 0x100) as u8);
        self.v.set(0xF, a / 0x80);
        self.advance(1);
        proof {
            assert(self@ =~= instr_state(old(self)@, Instr::ShiftLeft(x), 0));
        }
    }

    /// I := NNN.
    fn op_set_index(&mut self, nnn: u16)
        requires
            old(self).wf(),
            nnn < MEMORY_SIZE,
        ensures
            final(self).wf(),
            final(self)@ == instr_state(old(self)@, Instr::SetIndex(nnn), 0),
    {
        self.i = nnn;
        self.advance(1);
        proof {
            assert(self@ =~= instr_state(old(self)@, Instr::SetIndex(nnn), 0));
        }
    }

    /// Jump to NNN + V0, wrapped into the 12-bit address space.
    fn op_jump_v0(&mut self, nnn: u16)
        requires
            old(self).wf(),
            nnn < MEMORY_SIZE,
        ensures
            final(self).wf(),
            final(self)@ == instr_state(old(self)@, Instr::JumpV0(nnn), 0),
    {
        self.pc = (nnn + self.v[0] as u16) % (MEMORY_SIZE as u16);
        proof {
            assert(self@ =~= instr_state(old(self)@, Instr::JumpV0(nnn), 0));
        }
    }

    /// VX := random byte & NN, with `rb` the byte the random source drew.
    fn op_random(&mut self, x: u8, nn: u8, rb: u8)
        requires
            old(self).wf(),
            x < REG_COUNT,
        ensures
            final(self).wf(),
            final(self)@ == instr_state(old(self)@, Instr::Random(x, nn), rb),
    {
        self.v.set(x as usize, rb & nn);
        self.advance(1);
        proof {
            assert(self@ =~= instr_state(old(self)@, Instr::Random(x, nn), rb));
        }
    }

    /// The two key-latch skips: on the key indexed by the low nibble of VX
    /// being pressed, or being released.
    fn op_skip_key(&mut self, x: u8, want_pressed: bool)
        requires
            old(self).wf(),
            x < REG_COUNT,
        ensures
            final(self).wf(),
            final(self)@ == instr_state(
                old(self)@,
                if want_pressed { Instr::SkipKey(x) } else { Instr::SkipNoKey(x) },
                0,
            ),
    {
        let idx = (self.v[x as usize] % (REG_COUNT as u8)) as usize;
        let pressed = self.key[idx];
        self.skip(pressed == want_pressed);
    }

    /// VX := delay timer.
    fn op_read_delay(&mut self, x: u8)
        requires
            old(self).wf(),
            x < REG_COUNT,
        ensures
            final(self).wf(),
            final(self)@ == instr_state(old(self)@, Instr::ReadDelay(x), 0),
    {
        let d = self.delay_timer;
        self.v.set(x as usize, d);
        self.advance(1);
        proof {
            assert(self@ =~= instr_state(old(self)@, Instr::ReadDelay(x), 0));
        }
    }

    /// Enter the key wait: the program counter stays on this instruction
    /// until a key edge resolves the wait.
    fn op_wait_key(&mut self, x: u8)
        requires
            old(self).wf(),
            x < REG_COUNT,
        ensures
            final(self).wf(),
            final(self)@ == instr_state(old(self)@, Instr::WaitKey(x), 0),
    {
        self.wait = Wait::AwaitingKey(x);
        proof {
            assert(self@ =~= instr_state(old(self)@, Instr::WaitKey(x), 0));
        }
    }

    /// Delay timer := VX.
    fn op_set_delay(&mut self, x: u8)
        requires
            old(self).wf(),
            x < REG_COUNT,
        ensures
            final(self).wf(),
            final(self)@ == instr_state(old(self)@, Instr::SetDelay(x), 0),
    {
        self.delay_timer = self.v[x as usize];
        self.advance(1);
        proof {
            assert(self@ =~= instr_state(old(self)@, Instr::SetDelay(x), 0));
        }
    }

    /// Sound timer := VX.
    fn op_set_sound(&mut self, x: u8)
        requires
            old(self).wf(),
            x < REG_COUNT,
        ensures
            final(self).wf(),
            final(self)@ == instr_state(old(self)@, Instr::SetSound(x), 0),
    {
        self.sound_timer = self.v[x as usize];
        self.advance(1);
        proof {
            assert(self@ =~= instr_state(old(self)@, Instr::SetSound(x), 0));
        }
    }

    /// I := I + VX, wrapped into the 12-bit address space.
    fn op_add_index(&mut self, x: u8)
        requires
            old(self).wf(),
            x < REG_COUNT,
        ensures
            final(self).wf(),
            final(self)@ == instr_state(old(self)@, Instr::AddIndex(x), 0),
    {
        self.i = (self.i + self.v[x as usize] as u16) % (MEMORY_SIZE as u16);
        self.advance(1);
        proof {
            assert(self@ =~= instr_state(old(self)@, Instr::AddIndex(x), 0));
        }
    }

    /// I := the address of the built-in glyph for the low nibble of VX:
    /// five bytes per glyph from the bottom of memory.
    fn op_font_index(&mut self, x: u8)
        requires
            old(self).wf(),
            x < REG_COUNT,
        ensures
            final(self).wf(),
            final(self)@ == instr_state(old(self)@, Instr::FontIndex(x), 0),
    {
        self.i = ((self.v[x as usize] % 16) as u16) * 5;
        self.advance(1);
        proof {
            assert(self@ =~= instr_state(old(self)@, Instr::FontIndex(x), 0));
        }
    }

    /// Store the hundreds, tens and units decimal digits of VX at I, I+1
    /// and I+2, the addresses wrapped into the address space.
    fn op_store_bcd(&mut self, x: u8)
        requires
            old(self).wf(),
            x < REG_COUNT,
        ensures
            final(self).wf(),
            final(self)@ == instr_state(old(self)@, Instr::StoreBcd(x), 0),
    {
        let a = self.v[x as usize];
        let i = self.i;
        self.memory.set(i as usize, a / 100);
        self.memory.set(((i + 1) % (MEMORY_SIZE as u16)) as usize, (a / 10) % 10);
        self.memory.set(((i + 2) % (MEMORY_SIZE as u16)) as usize, a % 10);
        self.advance(1);
        proof {
            assert(self@ =~= instr_state(old(self)@, Instr::StoreBcd(x), 0));
        }
    }

    /// Store V0..=VX to memory starting at I, addresses wrapped; I itself
    /// is left unchanged.
    fn op_store_regs(&mut self, x: u8)
        requires
            old(self).wf(),
            x < REG_COUNT,
        ensures
            final(self).wf(),
            final(self)@ == instr_state(old(self)@, Instr::StoreRegs(x), 0),
    {
        let mut k: usize = 0;
        while k <= x as usize
            invariant
                old(self).wf(),
                x < REG_COUNT,
                k <= x + 1,
                self@ == (State { memory: self@.memory, ..old(self)@ }),
                self@.memory == stored_regs(old(self)@.memory, old(self)@.i, old(self)@.v, k as int),
                self@.memory.len() == MEMORY_SIZE,
            decreases x + 1 - k,
        {
            let b = self.v[k];
            self.memory.set(((self.i + k as u16) % (MEMORY_SIZE as u16)) as usize, b);
            k += 1;
        }
        self.advance(1);
        proof {
            assert(self@ =~= instr_state(old(self)@, Instr::StoreRegs(x), 0));
        }
    }

    /// Load V0..=VX from memory starting at I, addresses wrapped; I itself
    /// is left unchanged.
    fn op_load_regs(&mut self, x: u8)
        requires
            old(self).wf(),
            x < REG_COUNT,
        ensures
            final(self).wf(),
            final(self)@ == instr_state(old(self)@, Instr::LoadRegs(x), 0),
    {
        let mut k: usize = 0;
        while k <= x as usize
            invariant
                old(self).wf(),
                x < REG_COUNT,
                k <= x + 1,
                self@ == (State { v: self@.v, ..old(self)@ }),
                self@.v == loaded_regs(old(self)@.v, old(self)@.i, old(self)@.memory, k as int),
                self@.v.len() == REG_COUNT,
            decreases x + 1 - k,
        {
            let b = self.memory[((self.i + k as u16) % (MEMORY_SIZE as u16)) as usize];
            self.v.set(k, b);
            k += 1;
        }
        self.advance(1);
        proof {
            assert(self@ =~= instr_state(old(self)@, Instr::LoadRegs(x), 0));
        }
    }

    /// XOR-blit the `n`-row, 8-pixel-wide sprite at I onto the framebuffer
    /// at (VX, VY), both coordinates wrapped modulo the screen size per
    /// pixel; VF reports whether any previously lit pixel went dark, and the
    /// redraw flag is set.
    fn op_draw(&mut self, x: u8, y: u8, n: u8)
        requires
            old(self).wf(),
            x < REG_COUNT,
            y < REG_COUNT,
            n < 16,
        ensures
            final(self).wf(),
            final(self)@ == instr_state(old(self)@, Instr::Draw(x, y, n), 0),
    {
        let sx = self.v[x as usize];
        let sy = self.v[y as usize];
        let ghost g0 = self@.gfx;
        let ghost mem0 = self@.memory;
        let ghost i0 = self@.i;
        let mut collided: bool = false;
        proof {
            lemma_draw_start(g0, mem0, i0, sx, sy);
        }
        let mut yl: usize = 0;
        while yl < n as usize
            invariant
                old(self).wf(),
                x < REG_COUNT,
                y < REG_COUNT,
                n < 16,
                yl <= n,
                sx == old(self)@.v[x as int],
                sy == old(self)@.v[y as int],
                g0 == old(self)@.gfx,
                mem0 == old(self)@.memory,
                i0 == old(self)@.i,
                self@ == (State { gfx: self@.gfx, ..old(self)@ }),
                self@.gfx.len() == SCREEN_CELLS,
                forall|c: int| #![trigger self@.gfx[c]] 0 <= c < SCREEN_CELLS ==> self@.gfx[c] == (
                    if flips_upto(mem0, i0, sx, sy, yl as int, 0, c) { g0[c] ^ 1 } else { g0[c] }),
                forall|c: int| 0 <= c < SCREEN_CELLS ==> #[trigger] self@.gfx[c] <= 1,
                collided == collision_upto(g0, mem0, i0, sx, sy, yl as int, 0),
            decreases n - yl,
        {
            let row = self.memory[((self.i + yl as u16) % (MEMORY_SIZE as u16)) as usize];
            proof {
                assert(row == sprite_row(mem0, i0, yl as int));
            }
            let mut xl: usize = 0;
            let mut mask: u8 = 0x80;
            while xl < 8
                invariant
                    old(self).wf(),
                    n < 16,
                    yl < n,
                    xl <= 8,
                    xl < 8 ==> mask == pixel_mask(xl as int),
                    sx == old(self)@.v[x as int],
                    sy == old(self)@.v[y as int],
                    g0 == old(self)@.gfx,
                    mem0 == old(self)@.memory,
                    i0 == old(self)@.i,
                    row == sprite_row(mem0, i0, yl as int),
                    self@ == (State { gfx: self@.gfx, ..old(self)@ }),
                    self@.gfx.len() == SCREEN_CELLS,
                    forall|c: int| #![trigger self@.gfx[c]] 0 <= c < SCREEN_CELLS ==> self@.gfx[c]
                        == (if flips_upto(mem0, i0, sx, sy, yl as int, xl as int, c) {
                            g0[c] ^ 1
                        } else {
                            g0[c]
                        }),
                    forall|c: int| 0 <= c < SCREEN_CELLS ==> #[trigger] self@.gfx[c] <= 1,
                    collided == collision_upto(g0, mem0, i0, sx, sy, yl as int, xl as int),
                decreases 8 - xl,
            {
                proof {
                    lemma_flips_extend(mem0, i0, sx, sy, yl as int, xl as int);
                    lemma_collision_extend(g0, mem0, i0, sx, sy, yl as int, xl as int);
                }
                if (row / mask) % 2 == 1 {
                    proof {
                        assert(sprite_bit(row, xl as int));
                        lemma_target_bounds(sx, sy, yl as int, xl as int);
                        lemma_no_earlier_hit(mem0, i0, sx, sy, yl as int, xl as int);
                    }
                    let col = (sx as usize + xl) % SCREEN_WIDTH;
                    let rowi = (sy as usize + yl) % SCREEN_HEIGHT;
                    let idx = rowi * SCREEN_WIDTH + col;
                    proof {
                        assert(idx == flip_target(sx, sy, yl as int, xl as int));
                        assert(hits(mem0, i0, sx, sy, yl as int, xl as int, idx as int));
                        assert(self@.gfx[idx as int] == g0[idx as int]);
                    }
                    let cur = self.gfx[idx];
                    if cur == 1 {
                        collided = true;
                    }
                    self.gfx.set(idx, cur ^ 1);
                    proof {
                        assert(cur <= 1 ==> (cur ^ 1 <= 1)) by (bit_vector);
                        assert(flips_upto(mem0, i0, sx, sy, yl as int, xl as int + 1, idx as int));
                    }
                } else {
                    proof {
                        assert(!sprite_bit(row, xl as int));
                        assert forall|c: int| flips_upto(mem0, i0, sx, sy, yl as int, xl as int + 1, c)
                            == flips_upto(mem0, i0, sx, sy, yl as int, xl as int, c) by {
                            assert(!hits(mem0, i0, sx, sy, yl as int, xl as int, c));
                        }
                    }
                }
                xl += 1;
                mask = mask / 2;
            }
            proof {
                lemma_flips_row_end(mem0, i0, sx, sy, yl as int);
                lemma_collision_row_end(g0, mem0, i0, sx, sy, yl as int);
            }
            yl += 1;
        }
        let flag: u8 = if collided { 1 } else { 0 };
        self.v.set(0xF, flag);
        self.draw_flag = true;
        self.advance(1);
        proof {
            assert(self@.gfx =~= draw_gfx(g0, mem0, i0, sx, sy, n));
            assert(collided == draw_collision(g0, mem0, i0, sx, sy, n));
            assert(self@ =~= instr_state(old(self)@, Instr::Draw(x, y, n), 0));
        }
    }

    /// One full cycle: fetch the instruction word under the program counter,
    /// decode it, execute it, then run the timer subsystem — in that fixed
    /// order. While the machine is blocked waiting for a key, no instruction
    /// runs but the timers still count down. A call with a full stack or a
    /// return with an empty one is fatal and leaves the state untouched; an
    /// instruction matching no known code advances past itself and is
    /// surfaced as a diagnostic. The new state is `step_state` of the old
    /// for the byte the random source drew.
    pub fn emulate_cycle(&mut self) -> (r: Result<StepNote, StepError>)
        requires
            old(self).wf(),
        ensures
            final(self).wf(),
            r == step_note(old(self)@),
            exists|rb: u8| final(self)@ == #[trigger] step_state(old(self)@, rb),
    {
        let ghost pre = self@;
        match self.wait {
            Wait::AwaitingKey(_) => {
                self.run_timers();
                proof {
                    assert(self@ == step_state(pre, 0u8));
                }
                return Ok(StepNote::Waiting);
            },
            Wait::Running => {},
        }
        let hi = self.memory[self.pc as usize];
        let lo = self.memory[((self.pc + 1) % (MEMORY_SIZE as u16)) as usize];
        let op = (hi as u16) * 0x100 + lo as u16;
        proof {
            assert(op == fetched(pre));
            crate::decode::lemma_decode_operands(op);
        }
        let ins = decode_op(op);
        let ghost mut rbw: u8 = 0u8;
        let note: Result<StepNote, StepError> = match ins {
            Instr::ClearScreen => {
                self.op_clear_screen();
                Ok(StepNote::Executed)
            },
            Instr::Return => {
                if self.sp == 0 {
                    proof {
                        assert(self@ == step_state(pre, 0u8));
                    }
                    return Err(StepError::StackUnderflow);
                }
                self.op_return();
                Ok(StepNote::Executed)
            },
            Instr::Jump(nnn) => {
                self.pc = nnn;
                proof {
                    assert(self@ =~= instr_state(pre, ins, 0u8));
                }
                Ok(StepNote::Executed)
            },
            Instr::Call(nnn) => {
                if self.sp >= STACK_SIZE {
                    proof {
                        assert(self@ == step_state(pre, 0u8));
                    }
                    return Err(StepError::StackOverflow);
                }
                self.op_call(nnn);
                Ok(StepNote::Executed)
            },
            Instr::SkipEqImm(x, nn) => {
                let cond = self.v[x as usize] == nn;
                self.skip(cond);
                Ok(StepNote::Executed)
            },
            Instr::SkipNeImm(x, nn) => {
                let cond = self.v[x as usize] != nn;
                self.skip(cond);
                Ok(StepNote::Executed)
            },
            Instr::SkipEqReg(x, y) => {
                let cond = self.v[x as usize] == self.v[y as usize];
                self.skip(cond);
                Ok(StepNote::Executed)
            },
            Instr::SetImm(x, nn) => {
                self.op_set_imm(x, nn);
                Ok(StepNote::Executed)
            },
            Instr::AddImm(x, nn) => {
                self.op_add_imm(x, nn);
                Ok(StepNote::Executed)
            },
            Instr::CopyReg(x, y) => {
                self.op_copy(x, y);
                Ok(StepNote::Executed)
            },
            Instr::OrReg(x, y) => {
                self.op_or(x, y);
                Ok(StepNote::Executed)
            },
            Instr::AndReg(x, y) => {
                self.op_and(x, y);
                Ok(StepNote::Executed)
            },
            Instr::XorReg(x, y) => {
                self.op_xor(x, y);
                Ok(StepNote::Executed)
            },
            Instr::AddReg(x, y) => {
                self.op_add_reg(x, y);
                Ok(StepNote::Executed)
            },
            Instr::SubReg(x, y) => {
                self.op_sub_reg(x, y);
                Ok(StepNote::Executed)
            },
            Instr::ShiftRight(x) => {
                self.op_shift_right(x);
                Ok(StepNote::Executed)
            },
            Instr::SubRev(x, y) => {
                self.op_sub_rev(x, y);
                Ok(StepNote::Executed)
            },
            Instr::ShiftLeft(x) => {
                self.op_shift_left(x);
                Ok(StepNote::Executed)
            },
            Instr::SkipNeReg(x, y) => {
                let cond = self.v[x as usize] != self.v[y as usize];
                self.skip(cond);
                Ok(StepNote::Executed)
            },
            Instr::SetIndex(nnn) => {
                self.op_set_index(nnn);
                Ok(StepNote::Executed)
            },
            Instr::JumpV0(nnn) => {
                self.op_jump_v0(nnn);
                Ok(StepNote::Executed)
            },
            Instr::Random(x, nn) => {
                let rb = random_byte();
                proof {
                    rbw = rb;
                }
                self.op_random(x, nn, rb);
                Ok(StepNote::Executed)
            },
            Instr::Draw(x, y, n) => {
                self.op_draw(x, y, n);
                Ok(StepNote::Executed)
            },
            Instr::SkipKey(x) => {
                self.op_skip_key(x, true);
                Ok(StepNote::Executed)
            },
            Instr::SkipNoKey(x) => {
                self.op_skip_key(x, false);
                Ok(StepNote::Executed)
            },
            Instr::ReadDelay(x) => {
                self.op_read_delay(x);
                Ok(StepNote::Executed)
            },
            Instr::WaitKey(x) => {
                self.op_wait_key(x);
                Ok(StepNote::Executed)
            },
            Instr::SetDelay(x) => {
                self.op_set_delay(x);
                Ok(StepNote::Executed)
            },
            Instr::SetSound(x) => {
                self.op_set_sound(x);
                Ok(StepNote::Executed)
            },
            Instr::AddIndex(x) => {
                self.op_add_index(x);
                Ok(StepNote::Executed)
            },
            Instr::FontIndex(x) => {
                self.op_font_index(x);
                Ok(StepNote::Executed)
            },
            Instr::StoreBcd(x) => {
                self.op_store_bcd(x);
                Ok(StepNote::Executed)
            },
            Instr::StoreRegs(x) => {
                self.op_store_regs(x);
                Ok(StepNote::Executed)
            },
            Instr::LoadRegs(x) => {
                self.op_load_regs(x);
                Ok(StepNote::Executed)
            },
            Instr::Unknown => {
                self.advance(1);
                Ok(StepNote::UnknownOpcode(op))
            },
        };
        proof {
            assert(self@ == instr_state(pre, ins, rbw));
        }
        self.run_timers();
        proof {
            assert(self@ == step_state(pre, rbw));
        }
        note
    }

    /// Both timers count down once, flooring at zero.
    fn run_timers(&mut self)
        ensures
            final(self)@ == tick_timers(old(self)@),
    {
        if self.delay_timer > 0 {
            self.delay_timer = self.delay_timer - 1;
        }
        if self.sound_timer > 0 {
            self.sound_timer = self.sound_timer - 1;
        }
        proof {
            assert(self@ =~= tick_timers(old(self)@));
        }
    }
}

} // verus!
