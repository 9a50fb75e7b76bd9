//! The mathematical model of the machine.
//!
//! [`MachineState`] is the specification-level image of the whole machine:
//! memory, registers, index register, program counter, call stack (only its
//! live entries), framebuffer, keypad snapshot, the two timer counters, the
//! redraw signal, and the configured variant quirks. [`step`] is the
//! specification-level interpreter: it says, for every state, exactly what
//! one fetch-decode-execute cycle produces, including which error (if any)
//! the cycle reports. The executable machine in [`crate::chip8`] is proved
//! to follow `step` exactly.

use vstd::prelude::*;

use crate::opcode::{decode_spec, Opcode};

verus! {

/// The error kinds a machine operation can report.
///
/// A failed cycle leaves the machine as it was (apart from lowering the
/// redraw signal), so the driver can decide whether to halt or reset.
#[derive(Clone, Copy, Debug, PartialEq, Eq, Structural)]
pub enum Chip8Error {
    /// A program image longer than the 3584 bytes of program memory.
    LoadTooLarge,
    /// A call instruction with the stack already holding 16 return addresses.
    StackOverflow,
    /// A return instruction with an empty stack.
    StackUnderflow,
    /// An instruction fetch or an index-register-relative access that would
    /// touch memory outside addresses 0 through 4095.
    AddressOverflow,
}

/// The historically ambiguous instruction behaviours, each a named choice.
///
/// The defaults ([`Quirks::original_spec`]) follow the original hardware;
/// later derivative interpreters changed each of these, and a program
/// written for one of them can be run by flipping the matching flag.
#[derive(Clone, Copy, Debug, PartialEq, Eq, Structural)]
pub struct Quirks {
    /// Shift instructions read register `y` (original) rather than shifting
    /// register `x` in place (later variant). The result always lands in
    /// register `x`.
    pub shift_source_y: bool,
    /// Register store/load instructions leave the index register just past
    /// the region they touched (original) rather than unchanged (later
    /// variant).
    pub load_store_bumps_index: bool,
    /// The jump-with-offset instruction adds register `x` (later variant)
    /// rather than register 0 (original).
    pub jump_offset_uses_vx: bool,
    /// Sprites wrap around the screen edges rather than being clipped
    /// (clipping is the default policy).
    pub sprite_wrap: bool,
}

impl Quirks {
    /// The original hardware's behaviour: shifts read register `y`,
    /// store/load bumps the index register, jump-with-offset uses register
    /// 0, and sprites are clipped at the screen edges.
    pub open spec fn original_spec() -> Quirks {
        Quirks {
            shift_source_y: true,
            load_store_bumps_index: true,
            jump_offset_uses_vx: false,
            sprite_wrap: false,
        }
    }

    /// The original hardware's behaviour; see [`Quirks::original_spec`].
    pub fn original() -> (q: Quirks)
        ensures
            q == Quirks::original_spec(),
    {
        Quirks {
            shift_source_y: true,
            load_store_bumps_index: true,
            jump_offset_uses_vx: false,
            sprite_wrap: false,
        }
    }
}

/// The specification-level image of the machine.
///
/// `stack` holds only the live return addresses, deepest first, so its
/// length is the stack depth.
#[verifier::ext_equal]
pub ghost struct MachineState {
    /// All 4096 bytes of memory.
    pub memory: Seq<u8>,
    /// The 16 general-purpose registers.
    pub regs: Seq<u8>,
    /// The 16-bit index register.
    pub index: u16,
    /// The 16-bit program counter.
    pub pc: u16,
    /// The live return addresses, at most 16.
    pub stack: Seq<u16>,
    /// The 64x32 framebuffer, row-major.
    pub screen: Seq<bool>,
    /// The 16 keypad flags.
    pub keys: Seq<bool>,
    /// The delay timer counter.
    pub delay: u8,
    /// The sound timer counter.
    pub sound: u8,
    /// The level-triggered redraw signal.
    pub draw: bool,
    /// The configured variant behaviours.
    pub quirks: Quirks,
}

/// The structural invariant of a machine state: every sequence has its
/// fixed size and the stack holds at most 16 return addresses.
pub open spec fn wf_state(s: MachineState) -> bool {
    &&& s.memory.len() == 4096
    &&& s.regs.len() == 16
    &&& s.stack.len() <= 16
    &&& s.screen.len() == 2048
    &&& s.keys.len() == 16
}

/// An 8-bit sum, wrapping modulo 256.
pub open spec fn wrap_add8(a: u8, b: u8) -> u8 {
    ((a + b) % 256) as u8
}

/// An 8-bit difference, wrapping modulo 256.
pub open spec fn wrap_sub8(a: u8, b: u8) -> u8 {
    (((a + 256) - b) % 256) as u8
}

/// The instruction word at the program counter: two consecutive bytes,
/// big-endian. Meaningful only when `s.pc + 1 < 4096`.
pub open spec fn fetched_word(s: MachineState) -> u16 {
    ((s.memory[s.pc as int] as u16) * 256 + (s.memory[s.pc as int + 1] as u16)) as u16
}

/// The state right after a fetch: the program counter has advanced past the
/// instruction word and the redraw signal is lowered for this cycle.
pub open spec fn advanced(pre: MachineState) -> MachineState {
    MachineState { pc: (pre.pc + 2) as u16, draw: false, ..pre }
}

/// One cycle's outcome: the state after the cycle and the error it
/// reported, if any.
#[verifier::ext_equal]
pub ghost struct Step {
    /// The machine after the cycle.
    pub state: MachineState,
    /// `None` for a completed cycle, `Some` for a refused one.
    pub err: Option<Chip8Error>,
}

/// A refused cycle: the machine is as it was, with the redraw signal
/// lowered, and the error is reported.
pub open spec fn refused(pre: MachineState, e: Chip8Error) -> Step {
    Step { state: MachineState { draw: false, ..pre }, err: Some(e) }
}

/// A completed cycle.
pub open spec fn stepped(s: MachineState) -> Step {
    Step { state: s, err: None }
}

/// Whether any keypad flag is set.
pub open spec fn any_key(keys: Seq<bool>) -> bool {
    exists|k: int| 0 <= k < 16 && keys[k]
}

/// A skip instruction's effect: the program counter moves past one more
/// instruction exactly when the condition holds.
pub open spec fn skipped(s: MachineState, cond: bool) -> MachineState {
    if cond {
        MachineState { pc: (s.pc + 2) as u16, ..s }
    } else {
        s
    }
}

/// Bit `c` of a sprite row, counting the most significant bit as column 0.
pub open spec fn sprite_bit(row: u8, c: int) -> bool {
    (row >> ((7 - c) as u8)) & 1 == 1
}

/// The sprite row that covers screen row `py`, for a sprite drawn at row
/// `yc`: the offset `py - yc`, wrapped modulo 32 when wrapping is on. A
/// result outside `0 .. n` means no row of an `n`-row sprite covers `py`.
pub open spec fn row_off(py: int, yc: int, wrap: bool) -> int {
    if wrap && py < yc {
        py - yc + 32
    } else {
        py - yc
    }
}

/// The sprite column that covers screen column `px`, for a sprite drawn at
/// column `xc`; as [`row_off`], with the screen 64 columns wide.
pub open spec fn col_off(px: int, xc: int, wrap: bool) -> int {
    if wrap && px < xc {
        px - xc + 64
    } else {
        px - xc
    }
}

/// Whether drawing an `n`-row sprite read from `mem` at `index`, placed at
/// `(xc, yc)`, toggles pixel `p` of the framebuffer.
pub open spec fn draw_flips(
    mem: Seq<u8>,
    index: u16,
    xc: int,
    yc: int,
    n: int,
    wrap: bool,
    p: int,
) -> bool {
    let r = row_off(p / 64, yc, wrap);
    let c = col_off(p % 64, xc, wrap);
    0 <= r < n && 0 <= c < 8 && sprite_bit(mem[index + r], c)
}

/// The framebuffer after a draw: each covered set sprite bit is XORed onto
/// its pixel.
pub open spec fn draw_screen(
    screen: Seq<bool>,
    mem: Seq<u8>,
    index: u16,
    xc: int,
    yc: int,
    n: int,
    wrap: bool,
) -> Seq<bool> {
    Seq::new(2048, |p: int| screen[p] != draw_flips(mem, index, xc, yc, n, wrap, p))
}

/// Whether a draw turns some lit pixel off: the collision reported in
/// register 0xF.
pub open spec fn draw_collision(
    screen: Seq<bool>,
    mem: Seq<u8>,
    index: u16,
    xc: int,
    yc: int,
    n: int,
    wrap: bool,
) -> bool {
    exists|p: int| 0 <= p < 2048 && screen[p] && #[trigger] draw_flips(mem, index, xc, yc, n, wrap, p)
}

/// How many sprite rows a draw reads from memory: all `n` when wrapping,
/// otherwise only the rows above the bottom edge.
pub open spec fn draw_rows_read(yc: int, n: int, wrap: bool) -> int {
    if wrap || n <= 32 - yc {
        n
    } else {
        32 - yc
    }
}

/// Whether a draw would read sprite rows from beyond address 4095.
pub open spec fn draw_overflows(s: MachineState, x: int, y: int, n: int) -> bool {
    let yc = (s.regs[y] as int) % 32;
    let rows = draw_rows_read(yc, n, s.quirks.sprite_wrap);
    rows > 0 && s.index + rows > 4096
}

/// The state after a completed draw: the framebuffer is XORed, register 0xF
/// reports the collision, and the redraw signal is raised.
pub open spec fn draw_state(s: MachineState, x: int, y: int, n: int) -> MachineState {
    let xc = (s.regs[x] as int) % 64;
    let yc = (s.regs[y] as int) % 32;
    let w = s.quirks.sprite_wrap;
    MachineState {
        screen: draw_screen(s.screen, s.memory, s.index, xc, yc, n, w),
        regs: s.regs.update(
            15,
            if draw_collision(s.screen, s.memory, s.index, xc, yc, n, w) { 1u8 } else { 0u8 },
        ),
        draw: true,
        ..s
    }
}

/// Memory after registers 0 through `x` are stored at `index`.
pub open spec fn stored_memory(mem: Seq<u8>, regs: Seq<u8>, index: int, x: int) -> Seq<u8> {
    Seq::new(4096, |j: int| if index <= j <= index + x { regs[j - index] } else { mem[j] })
}

/// Registers after 0 through `x` are loaded from memory at `index`.
pub open spec fn loaded_regs(regs: Seq<u8>, mem: Seq<u8>, index: int, x: int) -> Seq<u8> {
    Seq::new(16, |j: int| if j <= x { mem[index + j] } else { regs[j] })
}

/// The index register after a store/load, under the configured quirk: just
/// past the touched region, or unchanged.
pub open spec fn bumped_index(s: MachineState, x: int) -> u16 {
    if s.quirks.load_store_bumps_index {
        (s.index + x + 1) as u16
    } else {
        s.index
    }
}

/// Memory after the three decimal digits of `v` are written at `index`.
pub open spec fn bcd_memory(mem: Seq<u8>, index: int, v: u8) -> Seq<u8> {
    mem.update(index, (v / 100) as u8).update(index + 1, ((v / 10) % 10) as u8).update(
        index + 2,
        (v % 10) as u8,
    )
}

/// The executor: the effect of one decoded instruction on the post-fetch
/// state `advanced(pre)`. A refused instruction leaves the machine as `pre`
/// (with the redraw signal lowered). `rnd` is the byte the random
/// instruction drew; no other instruction depends on it.
pub open spec fn step_op(pre: MachineState, op: Opcode, rnd: u8) -> Step {
    let s = advanced(pre);
    match op {
        Opcode::ClearScreen => stepped(
            MachineState { screen: Seq::new(2048, |p: int| false), draw: true, ..s },
        ),
        Opcode::Ret => {
            if s.stack.len() == 0 {
                refused(pre, Chip8Error::StackUnderflow)
            } else {
                stepped(MachineState { pc: s.stack.last(), stack: s.stack.drop_last(), ..s })
            }
        },
        Opcode::Jump { nnn } => stepped(MachineState { pc: nnn, ..s }),
        Opcode::Call { nnn } => {
            if s.stack.len() >= 16 {
                refused(pre, Chip8Error::StackOverflow)
            } else {
                stepped(MachineState { pc: nnn, stack: s.stack.push(s.pc), ..s })
            }
        },
        Opcode::SkipEqImm { x, nn } => stepped(skipped(s, s.regs[x as int] == nn)),
        Opcode::SkipNeImm { x, nn } => stepped(skipped(s, s.regs[x as int] != nn)),
        Opcode::SkipEqReg { x, y } => stepped(skipped(s, s.regs[x as int] == s.regs[y as int])),
        Opcode::SetImm { x, nn } => stepped(
            MachineState { regs: s.regs.update(x as int, nn), ..s },
        ),
        Opcode::AddImm { x, nn } => stepped(
            MachineState { regs: s.regs.update(x as int, wrap_add8(s.regs[x as int], nn)), ..s },
        ),
        Opcode::Copy { x, y } => stepped(
            MachineState { regs: s.regs.update(x as int, s.regs[y as int]), ..s },
        ),
        Opcode::Or { x, y } => stepped(
            MachineState {
                regs: s.regs.update(x as int, s.regs[x as int] | s.regs[y as int]),
                ..s
            },
        ),
        Opcode::And { x, y } => stepped(
            MachineState {
                regs: s.regs.update(x as int, s.regs[x as int] & s.regs[y as int]),
                ..s
            },
        ),
        Opcode::Xor { x, y } => stepped(
            MachineState {
                regs: s.regs.update(x as int, s.regs[x as int] ^ s.regs[y as int]),
                ..s
            },
        ),
        Opcode::AddReg { x, y } => {
            let sum = s.regs[x as int] + s.regs[y as int];
            stepped(
                MachineState {
                    regs: s.regs.update(x as int, (sum % 256) as u8).update(
                        15,
                        if sum > 255 { 1u8 } else { 0u8 },
                    ),
                    ..s
                },
            )
        },
        Opcode::SubReg { x, y } => {
            let no_borrow = s.regs[x as int] >= s.regs[y as int];
            stepped(
                MachineState {
                    regs: s.regs.update(
                        x as int,
                        wrap_sub8(s.regs[x as int], s.regs[y as int]),
                    ).update(15, if no_borrow { 1u8 } else { 0u8 }),
                    ..s
                },
            )
        },
        Opcode::ShiftRight { x, y } => {
            let src = if s.quirks.shift_source_y { s.regs[y as int] } else { s.regs[x as int] };
            stepped(
                MachineState {
                    regs: s.regs.update(x as int, (src / 2) as u8).update(15, (src % 2) as u8),
                    ..s
                },
            )
        },
        Opcode::SubFrom { x, y } => {
            let no_borrow = s.regs[y as int] >= s.regs[x as int];
            stepped(
                MachineState {
                    regs: s.regs.update(
                        x as int,
                        wrap_sub8(s.regs[y as int], s.regs[x as int]),
                    ).update(15, if no_borrow { 1u8 } else { 0u8 }),
                    ..s
                },
            )
        },
        Opcode::ShiftLeft { x, y } => {
            let src = if s.quirks.shift_source_y { s.regs[y as int] } else { s.regs[x as int] };
            stepped(
                MachineState {
                    regs: s.regs.update(x as int, ((src * 2) % 256) as u8).update(
                        15,
                        (src / 128) as u8,
                    ),
                    ..s
                },
            )
        },
        Opcode::SkipNeReg { x, y } => stepped(skipped(s, s.regs[x as int] != s.regs[y as int])),
        Opcode::SetIndex { nnn } => stepped(MachineState { index: nnn, ..s }),
        Opcode::JumpOffset { x, nnn } => {
            let base = if s.quirks.jump_offset_uses_vx { s.regs[x as int] } else { s.regs[0] };
            stepped(MachineState { pc: (nnn + base) as u16, ..s })
        },
        Opcode::Random { x, nn } => stepped(
            MachineState { regs: s.regs.update(x as int, rnd & nn), ..s },
        ),
        Opcode::Draw { x, y, n } => {
            if draw_overflows(s, x as int, y as int, n as int) {
                refused(pre, Chip8Error::AddressOverflow)
            } else {
                stepped(draw_state(s, x as int, y as int, n as int))
            }
        },
        Opcode::SkipKey { x } => stepped(skipped(s, s.keys[(s.regs[x as int] as int) % 16])),
        Opcode::SkipNoKey { x } => stepped(skipped(s, !s.keys[(s.regs[x as int] as int) % 16])),
        Opcode::ReadDelay { x } => stepped(
            MachineState { regs: s.regs.update(x as int, s.delay), ..s },
        ),
        Opcode::WaitKey { x } => {
            if any_key(s.keys) {
                stepped(s)
            } else {
                stepped(MachineState { pc: (s.pc - 2) as u16, ..s })
            }
        },
        Opcode::SetDelay { x } => stepped(MachineState { delay: s.regs[x as int], ..s }),
        Opcode::SetSound { x } => stepped(MachineState { sound: s.regs[x as int], ..s }),
        Opcode::AddIndex { x } => stepped(
            MachineState { index: ((s.index + s.regs[x as int]) % 65536) as u16, ..s },
        ),
        Opcode::FontChar { x } => stepped(
            MachineState { index: (80 + (s.regs[x as int] % 16) * 5) as u16, ..s },
        ),
        Opcode::Bcd { x } => {
            if s.index + 2 >= 4096 {
                refused(pre, Chip8Error::AddressOverflow)
            } else {
                stepped(
                    MachineState {
                        memory: bcd_memory(s.memory, s.index as int, s.regs[x as int]),
                        ..s
                    },
                )
            }
        },
        Opcode::StoreRegs { x } => {
            if s.index + x >= 4096 {
                refused(pre, Chip8Error::AddressOverflow)
            } else {
                stepped(
                    MachineState {
                        memory: stored_memory(s.memory, s.regs, s.index as int, x as int),
                        index: bumped_index(s, x as int),
                        ..s
                    },
                )
            }
        },
        Opcode::LoadRegs { x } => {
            if s.index + x >= 4096 {
                refused(pre, Chip8Error::AddressOverflow)
            } else {
                stepped(
                    MachineState {
                        regs: loaded_regs(s.regs, s.memory, s.index as int, x as int),
                        index: bumped_index(s, x as int),
                        ..s
                    },
                )
            }
        },
        Opcode::Unknown { word } => stepped(s),
    }
}

/// One full cycle from `pre`: refuse a fetch outside memory, otherwise
/// fetch, decode, and execute. `rnd` is the byte a random instruction would
/// draw.
pub open spec fn step(pre: MachineState, rnd: u8) -> Step {
    if pre.pc + 1 >= 4096 {
        refused(pre, Chip8Error::AddressOverflow)
    } else {
        step_op(pre, decode_spec(fetched_word(pre)), rnd)
    }
}

/// The error component of an executable result, for stating that a cycle's
/// outcome matches [`step`].
pub open spec fn err_of(r: Result<(), Chip8Error>) -> Option<Chip8Error> {
    match r {
        Ok(_) => None,
        Err(e) => Some(e),
    }
}

/// Row `k` of font glyph `g`: the built-in 16-glyph, 5-bytes-per-glyph
/// table installed at addresses 0x050 through 0x09F.
pub open spec fn glyph_row(g: int, k: int) -> u8 {
    if g == 0 {
        if k == 0 { 0xF0u8 } else if k == 1 { 0x90u8 } else if k == 2 { 0x90u8 } else if k == 3 { 0x90u8 } else { 0xF0u8 }
    } else if g == 1 {
        if k == 0 { 0x20u8 } else if k == 1 { 0x60u8 } else if k == 2 { 0x20u8 } else if k == 3 { 0x20u8 } else { 0x70u8 }
    } else if g == 2 {
        if k == 0 { 0xF0u8 } else if k == 1 { 0x10u8 } else if k == 2 { 0xF0u8 } else if k == 3 { 0x80u8 } else { 0xF0u8 }
    } else if g == 3 {
        if k == 0 { 0xF0u8 } else if k == 1 { 0x10u8 } else if k == 2 { 0xF0u8 } else if k == 3 { 0x10u8 } else { 0xF0u8 }
    } else if g == 4 {
        if k == 0 { 0x90u8 } else if k == 1 { 0x90u8 } else if k == 2 { 0xF0u8 } else if k == 3 { 0x10u8 } else { 0x10u8 }
    } else if g == 5 {
        if k == 0 { 0xF0u8 } else if k == 1 { 0x80u8 } else if k == 2 { 0xF0u8 } else if k == 3 { 0x10u8 } else { 0xF0u8 }
    } else if g == 6 {
        if k == 0 { 0xF0u8 } else if k == 1 { 0x80u8 } else if k == 2 { 0xF0u8 } else if k == 3 { 0x90u8 } else { 0xF0u8 }
    } else if g == 7 {
        if k == 0 { 0xF0u8 } else if k == 1 { 0x10u8 } else if k == 2 { 0x20u8 } else if k == 3 { 0x40u8 } else { 0x40u8 }
    } else if g == 8 {
        if k == 0 { 0xF0u8 } else if k == 1 { 0x90u8 } else if k == 2 { 0xF0u8 } else if k == 3 { 0x90u8 } else { 0xF0u8 }
    } else if g == 9 {
        if k == 0 { 0xF0u8 } else if k == 1 { 0x90u8 } else if k == 2 { 0xF0u8 } else if k == 3 { 0x10u8 } else { 0xF0u8 }
    } else if g == 10 {
        if k == 0 { 0xF0u8 } else if k == 1 { 0x90u8 } else if k == 2 { 0xF0u8 } else if k == 3 { 0x90u8 } else { 0x90u8 }
    } else if g == 11 {
        if k == 0 { 0xE0u8 } else if k == 1 { 0x90u8 } else if k == 2 { 0xE0u8 } else if k == 3 { 0x90u8 } else { 0xE0u8 }
    } else if g == 12 {
        if k == 0 { 0xF0u8 } else if k == 1 { 0x80u8 } else if k == 2 { 0x80u8 } else if k == 3 { 0x80u8 } else { 0xF0u8 }
    } else if g == 13 {
        if k == 0 { 0xE0u8 } else if k == 1 { 0x90u8 } else if k == 2 { 0x90u8 } else if k == 3 { 0x90u8 } else { 0xE0u8 }
    } else if g == 14 {
        if k == 0 { 0xF0u8 } else if k == 1 { 0x80u8 } else if k == 2 { 0xF0u8 } else if k == 3 { 0x80u8 } else { 0xF0u8 }
    } else {
        if k == 0 { 0xF0u8 } else if k == 1 { 0x80u8 } else if k == 2 { 0xF0u8 } else if k == 3 { 0x80u8 } else { 0x80u8 }
    }
}

/// Memory as construction leaves it: all zero except the font table at
/// 0x050 through 0x09F.
pub open spec fn initial_memory() -> Seq<u8> {
    Seq::new(4096, |j: int| if 80 <= j < 160 { glyph_row((j - 80) / 5, (j - 80) % 5) } else { 0u8 })
}

/// The just-constructed machine: zeroed registers and framebuffer, an empty
/// stack, the program counter at 0x200, the font table installed, and the
/// given variant configuration.
pub open spec fn initial_state(q: Quirks) -> MachineState {
    MachineState {
        memory: initial_memory(),
        regs: Seq::new(16, |i: int| 0u8),
        index: 0,
        pc: 0x200,
        stack: Seq::empty(),
        screen: Seq::new(2048, |i: int| false),
        keys: Seq::new(16, |i: int| false),
        delay: 0,
        sound: 0,
        draw: false,
        quirks: q,
    }
}

/// Memory after a program image is copied in at address 0x200.
pub open spec fn loaded_memory(mem: Seq<u8>, rom: Seq<u8>) -> Seq<u8> {
    Seq::new(4096, |j: int| if 512 <= j < 512 + rom.len() { rom[j - 512] } else { mem[j] })
}

} // verus!
