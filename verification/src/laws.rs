//! The general guarantees of the instruction semantics, stated and proved
//! over the transition model that `Chip::emulate_cycle` is proved to follow.
use vstd::prelude::*;
use crate::decode::{decode, fetched, Instr};
use crate::model::{draw_gfx, key_event_state, sprite_flips, step_state};
use crate::state::{tick, State, Wait, MEMORY_SIZE, REG_COUNT, SCREEN_CELLS, STACK_SIZE};

verus! {

/// Add with carry: for all byte values a and b in VX and VY, one step of
/// the register add leaves VX holding (a + b) mod 256 and VF holding 1
/// exactly when a + b exceeds 255. VF itself as the target register is
/// excluded: there the flag overwrites the sum.
pub proof fn lemma_add_with_carry(pre: State, rb: u8, x: u8, y: u8)
    requires
        pre.wf(),
        pre.wait is Running,
        decode(fetched(pre)) == Instr::AddReg(x, y),
        x < REG_COUNT,
        y < REG_COUNT,
        x != 0xF,
    ensures
        ({
            let a = pre.v[x as int];
            let b = pre.v[y as int];
            let post = step_state(pre, rb);
            &&& post.v[x as int] == (a + b) % 256
            &&& post.v[0xF] == (if a + b > 255 { 1u8 } else { 0u8 })
            &&& post.pc == (pre.pc + 2) % (MEMORY_SIZE as int)
        }),
{
}

/// Subtract with borrow flag: one step of VX -= VY leaves VX holding
/// (a - b) mod 256 and VF holding 1 exactly when a >= b, that is, when no
/// borrow occurred. VF itself as the target register is excluded: there the
/// flag overwrites the difference.
pub proof fn lemma_sub_no_borrow(pre: State, rb: u8, x: u8, y: u8)
    requires
        pre.wf(),
        pre.wait is Running,
        decode(fetched(pre)) == Instr::SubReg(x, y),
        x < REG_COUNT,
        y < REG_COUNT,
        x != 0xF,
    ensures
        ({
            let a = pre.v[x as int];
            let b = pre.v[y as int];
            let post = step_state(pre, rb);
            &&& post.v[x as int] == (a - b) % 256
            &&& post.v[0xF] == (if a >= b { 1u8 } else { 0u8 })
            &&& post.pc == (pre.pc + 2) % (MEMORY_SIZE as int)
        }),
{
}

/// A jump sets the program counter to exactly its target, with no increment
/// applied afterward.
pub proof fn lemma_jump_exact(pre: State, rb: u8, nnn: u16)
    requires
        pre.wf(),
        pre.wait is Running,
        decode(fetched(pre)) == Instr::Jump(nnn),
    ensures
        step_state(pre, rb).pc == nnn,
{
}

/// Clear screen darkens every framebuffer cell and raises the redraw flag.
pub proof fn lemma_clear_screen(pre: State, rb: u8)
    requires
        pre.wf(),
        pre.wait is Running,
        decode(fetched(pre)) == Instr::ClearScreen,
    ensures
        forall|c: int| 0 <= c < SCREEN_CELLS ==> step_state(pre, rb).gfx[c] == 0u8,
        step_state(pre, rb).draw_flag,
{
}

/// XOR-blitting is its own inverse: drawing the identical sprite at the
/// identical coordinates twice restores the framebuffer exactly.
pub proof fn lemma_draw_involution(g: Seq<u8>, mem: Seq<u8>, i: u16, x: u8, y: u8, n: u8)
    requires
        g.len() == SCREEN_CELLS,
    ensures
        draw_gfx(draw_gfx(g, mem, i, x, y, n), mem, i, x, y, n) == g,
{
    let g1 = draw_gfx(g, mem, i, x, y, n);
    let g2 = draw_gfx(g1, mem, i, x, y, n);
    assert forall|c: int| 0 <= c < SCREEN_CELLS implies g2[c] == g[c] by {
        if sprite_flips(mem, i, x, y, n, c) {
            let a = g[c];
            assert((a ^ 1) ^ 1 == a) by (bit_vector);
        }
    }
    assert(g2 =~= g);
}

/// The step-level form of the involution: two successive steps that draw
/// the same sprite at the same coordinates leave every framebuffer cell as
/// it was. The coordinate registers must not be VF, which the first draw
/// overwrites with its collision flag.
pub proof fn lemma_draw_twice_restores(pre: State, rb1: u8, rb2: u8, x: u8, y: u8, n: u8)
    requires
        pre.wf(),
        pre.wait is Running,
        decode(fetched(pre)) == Instr::Draw(x, y, n),
        x < REG_COUNT,
        y < REG_COUNT,
        x != 0xF,
        y != 0xF,
        decode(fetched(step_state(pre, rb1))) == Instr::Draw(x, y, n),
        step_state(pre, rb1).wait is Running,
    ensures
        forall|c: int| 0 <= c < SCREEN_CELLS ==> step_state(step_state(pre, rb1), rb2).gfx[c]
            == pre.gfx[c],
{
    let s1 = step_state(pre, rb1);
    let s2 = step_state(s1, rb2);
    lemma_draw_involution(pre.gfx, pre.memory, pre.i, pre.v[x as int], pre.v[y as int], n);
    assert(s2.gfx =~= draw_gfx(draw_gfx(pre.gfx, pre.memory, pre.i, pre.v[x as int],
        pre.v[y as int], n), pre.memory, pre.i, pre.v[x as int], pre.v[y as int], n));
}

/// A call followed immediately by a return restores the program counter to
/// just past the call site and leaves the stack pointer at its pre-call
/// value.
pub proof fn lemma_call_then_return(pre: State, rb1: u8, rb2: u8, nnn: u16)
    requires
        pre.wf(),
        pre.wait is Running,
        decode(fetched(pre)) == Instr::Call(nnn),
        pre.sp < STACK_SIZE,
        decode(fetched(step_state(pre, rb1))) == Instr::Return,
    ensures
        step_state(step_state(pre, rb1), rb2).pc == (pre.pc + 2) % (MEMORY_SIZE as int),
        step_state(step_state(pre, rb1), rb2).sp == pre.sp,
{
}

/// While blocked waiting for a key, a step changes nothing but the two
/// timers, which still count down: the program counter, every register, the
/// framebuffer and the wait marker itself stay as they are.
pub proof fn lemma_waiting_step(pre: State, rb: u8)
    requires
        pre.wait is AwaitingKey,
    ensures
        step_state(pre, rb) == (State { delay: tick(pre.delay), sound: tick(pre.sound), ..pre }),
{
}

/// The machine after `n` steps, each with the random source drawing zero;
/// while the machine waits for a key the drawn byte plays no part.
pub open spec fn stepped(pre: State, n: nat) -> State
    decreases n,
{
    if n == 0 {
        pre
    } else {
        step_state(stepped(pre, (n - 1) as nat), 0)
    }
}

/// Repeated steps with no key edge leave a waiting machine's program
/// counter, registers and wait marker untouched, while nonzero timers keep
/// counting down and floor at zero however many steps pass.
pub proof fn lemma_waiting_steps(pre: State, n: nat)
    requires
        pre.wait is AwaitingKey,
    ensures
        stepped(pre, n).pc == pre.pc,
        stepped(pre, n).v == pre.v,
        stepped(pre, n).wait == pre.wait,
        stepped(pre, n).delay == (if n >= pre.delay { 0u8 } else { (pre.delay - n) as u8 }),
        stepped(pre, n).sound == (if n >= pre.sound { 0u8 } else { (pre.sound - n) as u8 }),
    decreases n,
{
    if n > 0 {
        lemma_waiting_steps(pre, (n - 1) as nat);
    }
}

/// The first rising key edge while the machine awaits a key stores that
/// key's index in the awaited register, resumes running, and advances the
/// program counter past the wait instruction.
pub proof fn lemma_key_edge_resumes(pre: State, k: int, r: u8)
    requires
        pre.wf(),
        0 <= k < REG_COUNT,
        pre.wait == Wait::AwaitingKey(r),
        !pre.key[k],
    ensures
        ({
            let post = key_event_state(pre, k, true);
            &&& post.v[r as int] == k
            &&& post.wait == Wait::Running
            &&& post.pc == (pre.pc + 2) % (MEMORY_SIZE as int)
            &&& post.key[k]
        }),
{
}

/// Every instruction but the random one is deterministic: the byte the
/// random source drew plays no part in the step.
pub proof fn lemma_step_deterministic(pre: State, rb1: u8, rb2: u8)
    requires
        !(pre.wait is Running && decode(fetched(pre)) is Random),
    ensures
        step_state(pre, rb1) == step_state(pre, rb2),
{
}

/// The timers never underflow: whatever instruction runs, a step never
/// grows a timer except through the instruction that sets it, and a timer
/// that has reached zero stays at zero.
pub proof fn lemma_timers_never_underflow(pre: State, rb: u8)
    requires
        pre.wf(),
    ensures
        ({
            let post = step_state(pre, rb);
            &&& (pre.wait is Running && decode(fetched(pre)) is SetDelay) || (post.delay
                <= pre.delay && (pre.delay == 0 ==> post.delay == 0))
            &&& (pre.wait is Running && decode(fetched(pre)) is SetSound) || (post.sound
                <= pre.sound && (pre.sound == 0 ==> post.sound == 0))
        }),
{
}

} // verus!
