//! The state-transition semantics: what each instruction does to the machine
//! state, and the complete model of one step (fetch, decode, execute, then
//! the timer countdown). The executable machine in `chip8` is proved to
//! follow `step_state` and `step_note` exactly.
use vstd::prelude::*;
use crate::decode::{decode, fetched, Instr};
use crate::state::{tick_timers, zero_gfx, State, Wait, MEMORY_SIZE, REG_COUNT, SCREEN_CELLS,
    SCREEN_HEIGHT, SCREEN_WIDTH, STACK_SIZE};

verus! {

/// What a successful step reports: an ordinary instruction was executed; an
/// instruction matching no known code was skipped over, with its word as a
/// diagnostic; or the machine is blocked waiting for a key and only the
/// timers ran.
#[derive(Clone, Copy, Debug, PartialEq, Eq, Structural)]
pub enum StepNote {
    Executed,
    UnknownOpcode(u16),
    Waiting,
}

/// The fatal step errors: a call with all 16 stack slots in use, or a return
/// with none. On either, the step leaves the state untouched.
#[derive(Clone, Copy, Debug, PartialEq, Eq, Structural)]
pub enum StepError {
    StackOverflow,
    StackUnderflow,
}

/// The state with its program counter advanced by `k` instruction slots of
/// 2 bytes, wrapped into the address space.
pub open spec fn advanced(s: State, k: int) -> State {
    State { pc: ((s.pc + 2 * k) % (MEMORY_SIZE as int)) as u16, ..s }
}

/// Skip instructions advance by two slots when the condition holds, else one.
pub open spec fn skip_if(s: State, cond: bool) -> State {
    advanced(s, if cond { 2int } else { 1int })
}

/// Byte addition modulo 256.
pub open spec fn wrap_add(a: u8, b: u8) -> u8 {
    (((a + b) % 0x100) as u8)
}

/// Byte subtraction modulo 256.
pub open spec fn wrap_sub(a: u8, b: u8) -> u8 {
    (((a - b) % 0x100) as u8)
}

/// The sprite row byte `yl` rows below the index register, the address
/// wrapped into the address space.
pub open spec fn sprite_row(mem: Seq<u8>, i: u16, yl: int) -> u8 {
    mem[(i + yl) % (MEMORY_SIZE as int)]
}

/// The power of two that selects sprite pixel `xl`, the most significant
/// bit being pixel 0, the leftmost.
pub open spec fn pixel_mask(xl: int) -> u8 {
    if xl == 0 {
        0x80
    } else if xl == 1 {
        0x40
    } else if xl == 2 {
        0x20
    } else if xl == 3 {
        0x10
    } else if xl == 4 {
        0x08
    } else if xl == 5 {
        0x04
    } else if xl == 6 {
        0x02
    } else {
        0x01
    }
}

/// Whether bit `xl` of a sprite row is set, counting the most significant
/// bit as bit 0, the leftmost pixel.
pub open spec fn sprite_bit(row: u8, xl: int) -> bool {
    (row / pixel_mask(xl)) % 2 == 1
}

/// The framebuffer cell that sprite pixel (`xl`, `yl`) of a sprite drawn at
/// (`x`, `y`) lands on: both coordinates wrap modulo the screen size.
pub open spec fn flip_target(x: u8, y: u8, yl: int, xl: int) -> int {
    ((y + yl) % (SCREEN_HEIGHT as int)) * (SCREEN_WIDTH as int) + (x + xl) % (SCREEN_WIDTH as int)
}

/// Whether sprite pixel (`xl`, `yl`) is set and lands on cell `c`.
pub open spec fn hits(mem: Seq<u8>, i: u16, x: u8, y: u8, yl: int, xl: int, c: int) -> bool {
    sprite_bit(sprite_row(mem, i, yl), xl) && c == flip_target(x, y, yl, xl)
}

/// Whether any sprite pixel strictly before row `yr`, or in row `yr` before
/// column `xr`, lands on cell `c`. With `yr` the sprite height and `xr` zero
/// this covers the whole sprite; the partial forms are the draw loop's
/// invariant.
pub open spec fn flips_upto(mem: Seq<u8>, i: u16, x: u8, y: u8, yr: int, xr: int, c: int) -> bool {
    exists|yl: int, xl: int|
        0 <= yl && 0 <= xl < 8 && (yl < yr || (yl == yr && xl < xr))
            && #[trigger] hits(mem, i, x, y, yl, xl, c)
}

/// Whether the `n`-row sprite at `i`, drawn at (`x`, `y`), flips cell `c`.
pub open spec fn sprite_flips(mem: Seq<u8>, i: u16, x: u8, y: u8, n: u8, c: int) -> bool {
    flips_upto(mem, i, x, y, n as int, 0, c)
}

/// Whether any cell both flips and was already set among those covered by
/// `flips_upto`: the collision that the draw instruction reports in VF.
pub open spec fn collision_upto(g: Seq<u8>, mem: Seq<u8>, i: u16, x: u8, y: u8, yr: int, xr: int) -> bool {
    exists|c: int|
        0 <= c < SCREEN_CELLS && #[trigger] flips_upto(mem, i, x, y, yr, xr, c) && g[c] == 1
}

/// Whether drawing the `n`-row sprite clears any previously set pixel.
pub open spec fn draw_collision(g: Seq<u8>, mem: Seq<u8>, i: u16, x: u8, y: u8, n: u8) -> bool {
    collision_upto(g, mem, i, x, y, n as int, 0)
}

/// The framebuffer after XOR-blitting the sprite: every cell the sprite
/// flips is toggled, every other cell keeps its value.
pub open spec fn draw_gfx(g: Seq<u8>, mem: Seq<u8>, i: u16, x: u8, y: u8, n: u8) -> Seq<u8> {
    Seq::new(SCREEN_CELLS as nat, |c: int| if sprite_flips(mem, i, x, y, n, c) { g[c] ^ 1 } else { g[c] })
}

/// Memory after storing registers V0..=V(n-1) at consecutive addresses from
/// `i`, each address wrapped into the address space.
pub open spec fn stored_regs(mem: Seq<u8>, i: u16, v: Seq<u8>, n: int) -> Seq<u8>
    decreases n,
{
    if n <= 0 {
        mem
    } else {
        stored_regs(mem, i, v, n - 1).update((i + n - 1) % (MEMORY_SIZE as int), v[n - 1])
    }
}

/// Registers after loading V0..=V(n-1) from consecutive addresses from `i`,
/// each address wrapped into the address space.
pub open spec fn loaded_regs(v: Seq<u8>, i: u16, mem: Seq<u8>, n: int) -> Seq<u8>
    decreases n,
{
    if n <= 0 {
        v
    } else {
        loaded_regs(v, i, mem, n - 1).update(n - 1, mem[(i + n - 1) % (MEMORY_SIZE as int)])
    }
}

/// The effect of one decoded instruction on the state, before the timer
/// countdown. `rb` is the byte the random source produced; only the random
/// instruction reads it. For `Return` and `Call` this assumes the stack
/// condition that `step_state` checks first. Arithmetic flag instructions
/// write the result to VX and then the flag to VF, so on VF itself the flag
/// wins.
pub open spec fn instr_state(pre: State, ins: Instr, rb: u8) -> State {
    match ins {
        Instr::ClearScreen => advanced(State { gfx: zero_gfx(), draw_flag: true, ..pre }, 1),
        Instr::Return => State {
            sp: (pre.sp - 1) as usize,
            pc: ((pre.stack[pre.sp - 1] + 2) % (MEMORY_SIZE as int)) as u16,
            ..pre
        },
        Instr::Jump(nnn) => State { pc: nnn, ..pre },
        Instr::Call(nnn) => State {
            stack: pre.stack.update(pre.sp as int, pre.pc),
            sp: (pre.sp + 1) as usize,
            pc: nnn,
            ..pre
        },
        Instr::SkipEqImm(x, nn) => skip_if(pre, pre.v[x as int] == nn),
        Instr::SkipNeImm(x, nn) => skip_if(pre, pre.v[x as int] != nn),
        Instr::SkipEqReg(x, y) => skip_if(pre, pre.v[x as int] == pre.v[y as int]),
        Instr::SetImm(x, nn) => advanced(State { v: pre.v.update(x as int, nn), ..pre }, 1),
        Instr::AddImm(x, nn) => advanced(
            State { v: pre.v.update(x as int, wrap_add(pre.v[x as int], nn)), ..pre },
            1,
        ),
        Instr::CopyReg(x, y) => advanced(State { v: pre.v.update(x as int, pre.v[y as int]), ..pre }, 1),
        Instr::OrReg(x, y) => advanced(
            State { v: pre.v.update(x as int, pre.v[x as int] | pre.v[y as int]), ..pre },
            1,
        ),
        Instr::AndReg(x, y) => advanced(
            State { v: pre.v.update(x as int, pre.v[x as int] & pre.v[y as int]), ..pre },
            1,
        ),
        Instr::XorReg(x, y) => advanced(
            State { v: pre.v.update(x as int, pre.v[x as int] ^ pre.v[y as int]), ..pre },
            1,
        ),
        Instr::AddReg(x, y) => {
            let a = pre.v[x as int];
            let b = pre.v[y as int];
            let flag: u8 = if a + b > 0xFF { 1 } else { 0 };
            advanced(State { v: pre.v.update(x as int, wrap_add(a, b)).update(0xF, flag), ..pre }, 1)
        },
        Instr::SubReg(x, y) => {
            let a = pre.v[x as int];
            let b = pre.v[y as int];
            let flag: u8 = if a >= b { 1 } else { 0 };
            advanced(State { v: pre.v.update(x as int, wrap_sub(a, b)).update(0xF, flag), ..pre }, 1)
        },
        Instr::ShiftRight(x) => {
            let a = pre.v[x as int];
            advanced(
                State { v: pre.v.update(x as int, (a / 2) as u8).update(0xF, (a % 2) as u8), ..pre },
                1,
            )
        },
        Instr::SubRev(x, y) => {
            let a = pre.v[x as int];
            let b = pre.v[y as int];
            let flag: u8 = if b >= a { 1 } else { 0 };
            advanced(State { v: pre.v.update(x as int, wrap_sub(b, a)).update(0xF, flag), ..pre }, 1)
        },
        Instr::ShiftLeft(x) => {
            let a = pre.v[x as int];
            advanced(
                State {
                    v: pre.v.update(x as int, (a * 2 % 0x100) as u8).update(0xF, (a / 0x80) as u8),
                    ..pre
                },
                1,
            )
        },
        Instr::SkipNeReg(x, y) => skip_if(pre, pre.v[x as int] != pre.v[y as int]),
        Instr::SetIndex(nnn) => advanced(State { i: nnn, ..pre }, 1),
        Instr::JumpV0(nnn) => State {
            pc: (((nnn + pre.v[0]) % (MEMORY_SIZE as int)) as u16),
            ..pre
        },
        Instr::Random(x, nn) => advanced(State { v: pre.v.update(x as int, rb & nn), ..pre }, 1),
        Instr::Draw(x, y, n) => {
            let sx = pre.v[x as int];
            let sy = pre.v[y as int];
            let flag: u8 = if draw_collision(pre.gfx, pre.memory, pre.i, sx, sy, n) { 1 } else { 0 };
            advanced(
                State {
                    gfx: draw_gfx(pre.gfx, pre.memory, pre.i, sx, sy, n),
                    v: pre.v.update(0xF, flag),
                    draw_flag: true,
                    ..pre
                },
                1,
            )
        },
        Instr::SkipKey(x) => skip_if(pre, pre.key[pre.v[x as int] as int % (REG_COUNT as int)]),
        Instr::SkipNoKey(x) => skip_if(pre, !pre.key[pre.v[x as int] as int % (REG_COUNT as int)]),
        Instr::ReadDelay(x) => advanced(State { v: pre.v.update(x as int, pre.delay), ..pre }, 1),
        Instr::WaitKey(x) => State { wait: Wait::AwaitingKey(x), ..pre },
        Instr::SetDelay(x) => advanced(State { delay: pre.v[x as int], ..pre }, 1),
        Instr::SetSound(x) => advanced(State { sound: pre.v[x as int], ..pre }, 1),
        Instr::AddIndex(x) => advanced(
            State { i: (((pre.i + pre.v[x as int]) % (MEMORY_SIZE as int)) as u16), ..pre },
            1,
        ),
        Instr::FontIndex(x) => advanced(
            State { i: ((pre.v[x as int] % 16) * 5) as u16, ..pre },
            1,
        ),
        Instr::StoreBcd(x) => {
            let a = pre.v[x as int];
            let m = (MEMORY_SIZE as int);
            advanced(
                State {
                    memory: pre.memory
                        .update(pre.i as int, (a / 100) as u8)
                        .update((pre.i + 1) % m, ((a / 10) % 10) as u8)
                        .update((pre.i + 2) % m, (a % 10) as u8),
                    ..pre
                },
                1,
            )
        },
        Instr::StoreRegs(x) => advanced(
            State { memory: stored_regs(pre.memory, pre.i, pre.v, x + 1), ..pre },
            1,
        ),
        Instr::LoadRegs(x) => advanced(
            State { v: loaded_regs(pre.v, pre.i, pre.memory, x + 1), ..pre },
            1,
        ),
        Instr::Unknown => advanced(pre, 1),
    }
}

/// Whether the fetched instruction hits a fatal stack condition.
pub open spec fn step_fatal(pre: State, ins: Instr) -> bool {
    ||| (ins is Return && pre.sp == 0)
    ||| (ins is Call && pre.sp >= STACK_SIZE)
}

/// What one step reports. It depends only on the pre-state, never on the
/// random byte.
pub open spec fn step_note(pre: State) -> Result<StepNote, StepError> {
    if pre.wait is AwaitingKey {
        Ok(StepNote::Waiting)
    } else {
        let op = fetched(pre);
        let ins = decode(op);
        if ins is Return && pre.sp == 0 {
            Err(StepError::StackUnderflow)
        } else if ins is Call && pre.sp >= STACK_SIZE {
            Err(StepError::StackOverflow)
        } else if ins is Unknown {
            Ok(StepNote::UnknownOpcode(op))
        } else {
            Ok(StepNote::Executed)
        }
    }
}

/// The state after one step, given the byte `rb` the random source produced.
/// While blocked on a key only the timers run; on a fatal stack condition
/// the state is left untouched; otherwise the fetched instruction executes
/// and then both timers count down.
pub open spec fn step_state(pre: State, rb: u8) -> State {
    if pre.wait is AwaitingKey {
        tick_timers(pre)
    } else {
        let ins = decode(fetched(pre));
        if step_fatal(pre, ins) {
            pre
        } else {
            tick_timers(instr_state(pre, ins, rb))
        }
    }
}

/// Two integers with equal remainders and distance under the modulus agree.
proof fn lemma_mod_close(a: int, b: int, m: int)
    requires
        0 < m,
        a % m == b % m,
        -m < a - b < m,
    ensures
        a == b,
{
    vstd::arithmetic::div_mod::lemma_mod_equivalence(a, b, m);
    vstd::arithmetic::div_mod::lemma_mod_equivalence(b, a, m);
    if a - b >= 0 {
        vstd::arithmetic::div_mod::lemma_small_mod((a - b) as nat, m as nat);
    } else {
        vstd::arithmetic::div_mod::lemma_small_mod((b - a) as nat, m as nat);
    }
}

/// A sprite pixel always lands inside the framebuffer.
pub(crate) proof fn lemma_target_bounds(x: u8, y: u8, yl: int, xl: int)
    requires
        0 <= yl,
        0 <= xl,
    ensures
        0 <= flip_target(x, y, yl, xl) < SCREEN_CELLS,
{
    vstd::arithmetic::div_mod::lemma_mod_pos_bound(y + yl, SCREEN_HEIGHT as int);
    vstd::arithmetic::div_mod::lemma_mod_pos_bound(x + xl, SCREEN_WIDTH as int);
}

/// Distinct pixels of one sprite land on distinct framebuffer cells: the
/// row offsets stay below the screen height and the column offsets below
/// the width, so the wrapped coordinates cannot collide.
proof fn lemma_target_injective(x: u8, y: u8, yl1: int, xl1: int, yl2: int, xl2: int)
    requires
        0 <= yl1 < 16,
        0 <= xl1 < 8,
        0 <= yl2 < 16,
        0 <= xl2 < 8,
        flip_target(x, y, yl1, xl1) == flip_target(x, y, yl2, xl2),
    ensures
        yl1 == yl2,
        xl1 == xl2,
{
    let h = SCREEN_HEIGHT as int;
    let w = SCREEN_WIDTH as int;
    vstd::arithmetic::div_mod::lemma_mod_pos_bound(y + yl1, h);
    vstd::arithmetic::div_mod::lemma_mod_pos_bound(x + xl1, w);
    vstd::arithmetic::div_mod::lemma_mod_pos_bound(y + yl2, h);
    vstd::arithmetic::div_mod::lemma_mod_pos_bound(x + xl2, w);
    assert((y + yl1) % h == (y + yl2) % h && (x + xl1) % w == (x + xl2) % w);
    lemma_mod_close(y + yl1, y + yl2, h);
    lemma_mod_close(x + xl1, x + xl2, w);
}

/// Before any pixel is processed, nothing flips and nothing collides.
pub(crate) proof fn lemma_draw_start(g: Seq<u8>, mem: Seq<u8>, i: u16, x: u8, y: u8)
    ensures
        forall|c: int| !#[trigger] flips_upto(mem, i, x, y, 0, 0, c),
        !collision_upto(g, mem, i, x, y, 0, 0),
{
    assert forall|c: int| !#[trigger] flips_upto(mem, i, x, y, 0, 0, c) by {
        if flips_upto(mem, i, x, y, 0, 0, c) {
            let (yl, xl) = choose|yl: int, xl: int|
                0 <= yl && 0 <= xl < 8 && (yl < 0 || (yl == 0 && xl < 0)) && #[trigger] hits(
                    mem, i, x, y, yl, xl, c);
            assert(false);
        }
    }
    if collision_upto(g, mem, i, x, y, 0, 0) {
        let c = choose|c: int|
            0 <= c < SCREEN_CELLS && #[trigger] flips_upto(mem, i, x, y, 0, 0, c) && g[c] == 1;
        assert(false);
    }
}

/// Processing one more pixel extends the flipped region by exactly that
/// pixel's hits.
pub(crate) proof fn lemma_flips_extend(mem: Seq<u8>, i: u16, x: u8, y: u8, yr: int, xr: int)
    requires
        0 <= yr,
        0 <= xr < 8,
    ensures
        forall|c: int| #[trigger] flips_upto(mem, i, x, y, yr, xr + 1, c) == (flips_upto(
            mem, i, x, y, yr, xr, c) || hits(mem, i, x, y, yr, xr, c)),
{
    assert forall|c: int|
        #[trigger] flips_upto(mem, i, x, y, yr, xr + 1, c) == (flips_upto(mem, i, x, y, yr, xr, c)
            || hits(mem, i, x, y, yr, xr, c)) by {
        if flips_upto(mem, i, x, y, yr, xr + 1, c) {
            let (yl, xl) = choose|yl: int, xl: int|
                0 <= yl && 0 <= xl < 8 && (yl < yr || (yl == yr && xl < xr + 1)) && #[trigger] hits(
                    mem, i, x, y, yl, xl, c);
            if !(yl == yr && xl == xr) {
                assert(yl < yr || (yl == yr && xl < xr));
                assert(flips_upto(mem, i, x, y, yr, xr, c));
            }
        }
        if flips_upto(mem, i, x, y, yr, xr, c) {
            let (yl, xl) = choose|yl: int, xl: int|
                0 <= yl && 0 <= xl < 8 && (yl < yr || (yl == yr && xl < xr)) && #[trigger] hits(
                    mem, i, x, y, yl, xl, c);
            assert(flips_upto(mem, i, x, y, yr, xr + 1, c));
        }
        if hits(mem, i, x, y, yr, xr, c) {
            assert(flips_upto(mem, i, x, y, yr, xr + 1, c));
        }
    }
}

/// After the eighth pixel of a row, the region equals the start of the
/// next row.
pub(crate) proof fn lemma_flips_row_end(mem: Seq<u8>, i: u16, x: u8, y: u8, yr: int)
    ensures
        forall|c: int| #[trigger] flips_upto(mem, i, x, y, yr, 8, c) == flips_upto(
            mem, i, x, y, yr + 1, 0, c),
{
    assert forall|c: int|
        #[trigger] flips_upto(mem, i, x, y, yr, 8, c) == flips_upto(mem, i, x, y, yr + 1, 0, c) by {
        if flips_upto(mem, i, x, y, yr, 8, c) {
            let (yl, xl) = choose|yl: int, xl: int|
                0 <= yl && 0 <= xl < 8 && (yl < yr || (yl == yr && xl < 8)) && #[trigger] hits(
                    mem, i, x, y, yl, xl, c);
            assert(flips_upto(mem, i, x, y, yr + 1, 0, c));
        }
        if flips_upto(mem, i, x, y, yr + 1, 0, c) {
            let (yl, xl) = choose|yl: int, xl: int|
                0 <= yl && 0 <= xl < 8 && (yl < yr + 1 || (yl == yr + 1 && xl < 0)) && #[trigger] hits(
                    mem, i, x, y, yl, xl, c);
            assert(yl < yr || (yl == yr && xl < 8));
            assert(flips_upto(mem, i, x, y, yr, 8, c));
        }
    }
}

/// No pixel processed before (`yr`, `xr`) lands on (`yr`, `xr`)'s own cell,
/// so that cell still holds its original value when the loop reaches it.
pub(crate) proof fn lemma_no_earlier_hit(mem: Seq<u8>, i: u16, x: u8, y: u8, yr: int, xr: int)
    requires
        0 <= yr < 16,
        0 <= xr < 8,
    ensures
        !flips_upto(mem, i, x, y, yr, xr, flip_target(x, y, yr, xr)),
{
    let c = flip_target(x, y, yr, xr);
    if flips_upto(mem, i, x, y, yr, xr, c) {
        let (yl, xl) = choose|yl: int, xl: int|
            0 <= yl && 0 <= xl < 8 && (yl < yr || (yl == yr && xl < xr)) && #[trigger] hits(
                mem, i, x, y, yl, xl, c);
        lemma_target_injective(x, y, yl, xl, yr, xr);
        assert(false);
    }
}

/// Processing one more pixel extends the collision by exactly that pixel's
/// contribution.
pub(crate) proof fn lemma_collision_extend(g: Seq<u8>, mem: Seq<u8>, i: u16, x: u8, y: u8, yr: int, xr: int)
    requires
        0 <= yr,
        0 <= xr < 8,
        g.len() == SCREEN_CELLS,
    ensures
        collision_upto(g, mem, i, x, y, yr, xr + 1) == (collision_upto(g, mem, i, x, y, yr, xr)
            || (sprite_bit(sprite_row(mem, i, yr), xr) && g[flip_target(x, y, yr, xr)] == 1)),
{
    lemma_flips_extend(mem, i, x, y, yr, xr);
    lemma_target_bounds(x, y, yr, xr);
    let t = flip_target(x, y, yr, xr);
    if collision_upto(g, mem, i, x, y, yr, xr + 1) {
        let c = choose|c: int|
            0 <= c < SCREEN_CELLS && #[trigger] flips_upto(mem, i, x, y, yr, xr + 1, c) && g[c] == 1;
        if flips_upto(mem, i, x, y, yr, xr, c) {
            assert(collision_upto(g, mem, i, x, y, yr, xr));
        } else {
            assert(hits(mem, i, x, y, yr, xr, c));
            assert(c == t);
        }
    }
    if collision_upto(g, mem, i, x, y, yr, xr) {
        let c = choose|c: int|
            0 <= c < SCREEN_CELLS && #[trigger] flips_upto(mem, i, x, y, yr, xr, c) && g[c] == 1;
        assert(flips_upto(mem, i, x, y, yr, xr + 1, c));
        assert(collision_upto(g, mem, i, x, y, yr, xr + 1));
    }
    if sprite_bit(sprite_row(mem, i, yr), xr) && g[t] == 1 {
        assert(hits(mem, i, x, y, yr, xr, t));
        assert(flips_upto(mem, i, x, y, yr, xr + 1, t));
        assert(collision_upto(g, mem, i, x, y, yr, xr + 1));
    }
}

/// The collision over a finished row equals the collision at the start of
/// the next.
pub(crate) proof fn lemma_collision_row_end(g: Seq<u8>, mem: Seq<u8>, i: u16, x: u8, y: u8, yr: int)
    requires
        g.len() == SCREEN_CELLS,
    ensures
        collision_upto(g, mem, i, x, y, yr, 8) == collision_upto(g, mem, i, x, y, yr + 1, 0),
{
    lemma_flips_row_end(mem, i, x, y, yr);
    if collision_upto(g, mem, i, x, y, yr, 8) {
        let c = choose|c: int|
            0 <= c < SCREEN_CELLS && #[trigger] flips_upto(mem, i, x, y, yr, 8, c) && g[c] == 1;
        assert(flips_upto(mem, i, x, y, yr + 1, 0, c));
        assert(collision_upto(g, mem, i, x, y, yr + 1, 0));
    }
    if collision_upto(g, mem, i, x, y, yr + 1, 0) {
        let c = choose|c: int|
            0 <= c < SCREEN_CELLS && #[trigger] flips_upto(mem, i, x, y, yr + 1, 0, c) && g[c] == 1;
        assert(flips_upto(mem, i, x, y, yr, 8, c));
        assert(collision_upto(g, mem, i, x, y, yr, 8));
    }
}

/// The state after a key event: latch `k` takes the new level; a rising
/// edge while the machine awaits a key stores the key index in the awaited
/// register, resumes running, and advances past the wait instruction.
pub open spec fn key_event_state(pre: State, k: int, pressed: bool) -> State {
    let edge = pressed && !pre.key[k];
    let latched = State { key: pre.key.update(k, pressed), ..pre };
    match pre.wait {
        Wait::AwaitingKey(r) if edge => State {
            v: pre.v.update(r as int, k as u8),
            pc: (((pre.pc + 2) % (MEMORY_SIZE as int)) as u16),
            wait: Wait::Running,
            ..latched
        },
        _ => latched,
    }
}

} // verus!
