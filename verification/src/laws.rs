//! Machine-wide laws, each proved from the specification-level interpreter
//! [`step`] that [`crate::chip8::Chip8::tick`] is proved to follow.

use vstd::prelude::*;

use crate::opcode::{decode_spec, Opcode};
use crate::state::{
    draw_collision, draw_flips, draw_screen, fetched_word, step, wf_state, MachineState,
};

verus! {

/// The instructions that may leave the program counter anywhere other than
/// just past the instruction word: jumps, calls, returns, the skip family,
/// and the wait-for-key stall.
pub open spec fn branching(op: Opcode) -> bool {
    is_skip(op) || match op {
        Opcode::Jump { nnn } => true,
        Opcode::Call { nnn } => true,
        Opcode::Ret => true,
        Opcode::JumpOffset { x, nnn } => true,
        Opcode::WaitKey { x } => true,
        _ => false,
    }
}

/// The conditional-skip instructions.
pub open spec fn is_skip(op: Opcode) -> bool {
    match op {
        Opcode::SkipEqImm { x, nn } => true,
        Opcode::SkipNeImm { x, nn } => true,
        Opcode::SkipEqReg { x, y } => true,
        Opcode::SkipNeReg { x, y } => true,
        Opcode::SkipKey { x } => true,
        Opcode::SkipNoKey { x } => true,
        _ => false,
    }
}

/// Whether a skip instruction's condition holds in state `s`.
pub open spec fn skip_taken(s: MachineState, op: Opcode) -> bool {
    match op {
        Opcode::SkipEqImm { x, nn } => s.regs[x as int] == nn,
        Opcode::SkipNeImm { x, nn } => s.regs[x as int] != nn,
        Opcode::SkipEqReg { x, y } => s.regs[x as int] == s.regs[y as int],
        Opcode::SkipNeReg { x, y } => s.regs[x as int] != s.regs[y as int],
        Opcode::SkipKey { x } => s.keys[(s.regs[x as int] as int) % 16],
        Opcode::SkipNoKey { x } => !s.keys[(s.regs[x as int] as int) % 16],
        _ => false,
    }
}

/// A completed cycle of any non-branching instruction advances the program
/// counter by exactly 2.
pub proof fn lemma_plain_opcode_advances_two(s: MachineState, b: u8)
    requires
        wf_state(s),
        s.pc + 1 < 4096,
        !branching(decode_spec(fetched_word(s))),
        step(s, b).err is None,
    ensures
        step(s, b).state.pc == s.pc + 2,
{
}

/// A completed cycle of a skip instruction advances the program counter by
/// exactly 4 when its condition holds and by exactly 2 otherwise.
pub proof fn lemma_skip_advance(s: MachineState, b: u8)
    requires
        wf_state(s),
        s.pc + 1 < 4096,
        is_skip(decode_spec(fetched_word(s))),
    ensures
        step(s, b).err is None,
        step(s, b).state.pc == if skip_taken(s, decode_spec(fetched_word(s))) {
            s.pc + 4
        } else {
            s.pc + 2
        },
{
}

/// A call followed by a return restores the program counter to the address
/// immediately after the call instruction and restores the stack.
pub proof fn lemma_call_then_return(s: MachineState, b1: u8, b2: u8, nnn: u16)
    requires
        wf_state(s),
        s.pc + 1 < 4096,
        decode_spec(fetched_word(s)) == (Opcode::Call { nnn }),
        s.stack.len() < 16,
        step(s, b1).state.pc + 1 < 4096,
        decode_spec(fetched_word(step(s, b1).state)) == Opcode::Ret,
    ensures
        step(s, b1).err is None,
        step(step(s, b1).state, b2).err is None,
        step(step(s, b1).state, b2).state.pc == s.pc + 2,
        step(step(s, b1).state, b2).state.stack == s.stack,
{
    let s1 = step(s, b1).state;
    assert(s1.stack == s.stack.push((s.pc + 2) as u16));
    assert(s1.stack.last() == (s.pc + 2) as u16);
    assert(s1.stack.drop_last() =~= s.stack);
}

/// Register add with carry: register 0xF is 1 exactly when the unsigned
/// sum exceeds 255, and the stored result is the sum modulo 256 (unless
/// the destination is register 0xF itself, which the flag overwrites).
pub proof fn lemma_add_with_carry(s: MachineState, b: u8, x: u8, y: u8)
    requires
        wf_state(s),
        s.pc + 1 < 4096,
        x < 16,
        y < 16,
        decode_spec(fetched_word(s)) == (Opcode::AddReg { x, y }),
    ensures
        step(s, b).err is None,
        step(s, b).state.regs[15] == (if s.regs[x as int] + s.regs[y as int] > 255 {
            1u8
        } else {
            0u8
        }),
        x != 15 ==> step(s, b).state.regs[x as int] == ((s.regs[x as int] + s.regs[y as int])
            % 256) as u8,
{
}

/// Register subtract: register 0xF is 1 exactly when no borrow occurred
/// (minuend at least subtrahend), and the stored result wraps modulo 256
/// (unless the destination is register 0xF itself, which the flag
/// overwrites).
pub proof fn lemma_sub_with_borrow(s: MachineState, b: u8, x: u8, y: u8)
    requires
        wf_state(s),
        s.pc + 1 < 4096,
        x < 16,
        y < 16,
        decode_spec(fetched_word(s)) == (Opcode::SubReg { x, y }),
    ensures
        step(s, b).err is None,
        step(s, b).state.regs[15] == (if s.regs[x as int] >= s.regs[y as int] { 1u8 } else { 0u8 }),
        x != 15 ==> step(s, b).state.regs[x as int] == ((s.regs[x as int] + 256 - s.regs[y as int])
            % 256) as u8,
{
}

/// XOR idempotence of sprite drawing: on an all-clear framebuffer, the
/// first draw of a sprite reports no collision, and drawing the same
/// sprite again at the same coordinates clears the framebuffer and reports
/// a collision exactly when the sprite has any visible set bit.
pub proof fn lemma_draw_twice_restores_clear_screen(
    screen: Seq<bool>,
    mem: Seq<u8>,
    index: u16,
    xc: int,
    yc: int,
    n: int,
    wrap: bool,
)
    requires
        screen.len() == 2048,
        forall|p: int| 0 <= p < 2048 ==> !screen[p],
    ensures
        !draw_collision(screen, mem, index, xc, yc, n, wrap),
        ({
            let once = draw_screen(screen, mem, index, xc, yc, n, wrap);
            let twice = draw_screen(once, mem, index, xc, yc, n, wrap);
            &&& forall|p: int| 0 <= p < 2048 ==> !twice[p]
            &&& (draw_collision(once, mem, index, xc, yc, n, wrap) <==> exists|p: int|
                0 <= p < 2048 && #[trigger] draw_flips(mem, index, xc, yc, n, wrap, p))
        }),
{
    let once = draw_screen(screen, mem, index, xc, yc, n, wrap);
    let twice = draw_screen(once, mem, index, xc, yc, n, wrap);
    assert forall|p: int| 0 <= p < 2048 implies once[p] == draw_flips(
        mem,
        index,
        xc,
        yc,
        n,
        wrap,
        p,
    ) by {}
    assert forall|p: int| 0 <= p < 2048 implies !twice[p] by {}
    if draw_collision(once, mem, index, xc, yc, n, wrap) {
        let p = choose|p: int|
            0 <= p < 2048 && once[p] && #[trigger] draw_flips(mem, index, xc, yc, n, wrap, p);
        assert(draw_flips(mem, index, xc, yc, n, wrap, p));
    }
    if exists|p: int| 0 <= p < 2048 && #[trigger] draw_flips(mem, index, xc, yc, n, wrap, p) {
        let p = choose|p: int| 0 <= p < 2048 && #[trigger] draw_flips(mem, index, xc, yc, n, wrap, p);
        assert(once[p] && draw_flips(mem, index, xc, yc, n, wrap, p));
        assert(draw_collision(once, mem, index, xc, yc, n, wrap));
    }
}

/// Instruction cycles never decrement the timer counters: only the two
/// set-timer instructions touch them, so the counters decay solely through
/// the 60 Hz clock, however many cycles run in an interval.
pub proof fn lemma_cycle_preserves_timers(s: MachineState, b: u8)
    requires
        !(decode_spec(fetched_word(s)) matches Opcode::SetDelay { x }),
        !(decode_spec(fetched_word(s)) matches Opcode::SetSound { x }),
    ensures
        step(s, b).state.delay == s.delay,
        step(s, b).state.sound == s.sound,
{
}

/// A refused cycle corrupts nothing: the machine afterwards is the machine
/// before, with only the redraw signal lowered.
pub proof fn lemma_refused_cycle_preserves_state(s: MachineState, b: u8)
    requires
        step(s, b).err is Some,
    ensures
        step(s, b).state == (MachineState { draw: false, ..s }),
{
}

} // verus!

