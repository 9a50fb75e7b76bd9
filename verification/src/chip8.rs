//! The executable machine.
//!
//! [`Chip8`] holds the concrete machine: memory, registers, stack,
//! framebuffer, keypad, timers and the variant configuration. Its view is a
//! [`MachineState`], and every cycle of [`Chip8::tick`] is proved to produce
//! exactly the outcome of the specification-level interpreter
//! [`crate::state::step`].

use rand::Rng;
use vstd::prelude::*;

use crate::opcode::{decode, decode_spec, opcode_wf, Opcode};
use crate::state::{
    advanced, any_key, bcd_memory, bumped_index, draw_collision, draw_flips, draw_overflows,
    draw_rows_read, draw_screen, draw_state, err_of, fetched_word, glyph_row, initial_memory,
    initial_state, loaded_memory, loaded_regs, row_off, col_off, sprite_bit, step, step_op,
    stored_memory, skipped, wrap_add8, wrap_sub8, wf_state, Chip8Error, MachineState, Quirks, Step,
};
use crate::timer::Timer;

verus! {

/// The machine: 4096 bytes of memory, sixteen 8-bit registers, a 16-bit
/// index register and program counter, a 16-entry call stack, a 64x32
/// framebuffer, a 16-key keypad snapshot, the last fetched instruction
/// word, the level-triggered redraw signal, the 60 Hz counter pair, and the
/// configured variant behaviours.
pub struct Chip8 {
    /// The instruction word fetched by the latest cycle, kept as a
    /// diagnostic (it names the word an unknown-instruction no-op saw).
    pub opcode: u16,
    /// All 4096 bytes of memory.
    pub memory: Vec<u8>,
    /// The 16 general-purpose registers.
    pub v_register: Vec<u8>,
    /// The 16-bit index register.
    pub i_register: u16,
    /// The program counter.
    pub pc: u16,
    /// The 64x32 framebuffer, row-major.
    pub screen: Vec<bool>,
    /// The 16 stack slots; only the first `stack_ptr` hold live return
    /// addresses.
    pub stack: Vec<u16>,
    /// The stack depth.
    pub stack_ptr: u16,
    /// The keypad snapshot.
    pub key: Vec<bool>,
    /// The level-triggered redraw signal.
    pub draw_flag: bool,
    /// The 60 Hz delay/sound counter pair.
    pub timer: Timer,
    /// The configured variant behaviours.
    pub quirks: Quirks,
}

impl View for Chip8 {
    type V = MachineState;

    open spec fn view(&self) -> MachineState {
        MachineState {
            memory: self.memory@,
            regs: self.v_register@,
            index: self.i_register,
            pc: self.pc,
            stack: self.stack@.take(self.stack_ptr as int),
            screen: self.screen@,
            keys: self.key@,
            delay: self.timer.delay(),
            sound: self.timer.sound(),
            draw: self.draw_flag,
            quirks: self.quirks,
        }
    }
}

/// A vector of `n` zero bytes.
fn zero_bytes(n: usize) -> (v: Vec<u8>)
    ensures
        v@ == Seq::new(n as nat, |i: int| 0u8),
{
    let mut v: Vec<u8> = Vec::new();
    let mut i: usize = 0;
    while i < n
        invariant
            i <= n,
            v@.len() == i,
            forall|j: int| 0 <= j < i ==> v@[j] == 0u8,
        decreases n - i,
    {
        v.push(0);
        i = i + 1;
    }
    proof {
        assert(v@ =~= Seq::new(n as nat, |i: int| 0u8));
    }
    v
}

/// A vector of `n` zero words.
fn zero_words(n: usize) -> (v: Vec<u16>)
    ensures
        v@ == Seq::new(n as nat, |i: int| 0u16),
{
    let mut v: Vec<u16> = Vec::new();
    let mut i: usize = 0;
    while i < n
        invariant
            i <= n,
            v@.len() == i,
            forall|j: int| 0 <= j < i ==> v@[j] == 0u16,
        decreases n - i,
    {
        v.push(0);
        i = i + 1;
    }
    proof {
        assert(v@ =~= Seq::new(n as nat, |i: int| 0u16));
    }
    v
}

/// A vector of `n` cleared flags.
fn cleared_flags(n: usize) -> (v: Vec<bool>)
    ensures
        v@ == Seq::new(n as nat, |i: int| false),
{
    let mut v: Vec<bool> = Vec::new();
    let mut i: usize = 0;
    while i < n
        invariant
            i <= n,
            v@.len() == i,
            forall|j: int| 0 <= j < i ==> v@[j] == false,
        decreases n - i,
    {
        v.push(false);
        i = i + 1;
    }
    proof {
        assert(v@ =~= Seq::new(n as nat, |i: int| false));
    }
    v
}

/// Row `k` of font glyph `g`, as executable code.
fn glyph_row_at(g: usize, k: usize) -> (b: u8)
    requires
        g < 16,
        k < 5,
    ensures
        b == glyph_row(g as int, k as int),
{
    if g == 0 {
        if k == 0 { 0xF0 } else if k == 1 { 0x90 } else if k == 2 { 0x90 } else if k == 3 { 0x90 } else { 0xF0 }
    } else if g == 1 {
        if k == 0 { 0x20 } else if k == 1 { 0x60 } else if k == 2 { 0x20 } else if k == 3 { 0x20 } else { 0x70 }
    } else if g == 2 {
        if k == 0 { 0xF0 } else if k == 1 { 0x10 } else if k == 2 { 0xF0 } else if k == 3 { 0x80 } else { 0xF0 }
    } else if g == 3 {
        if k == 0 { 0xF0 } else if k == 1 { 0x10 } else if k == 2 { 0xF0 } else if k == 3 { 0x10 } else { 0xF0 }
    } else if g == 4 {
        if k == 0 { 0x90 } else if k == 1 { 0x90 } else if k == 2 { 0xF0 } else if k == 3 { 0x10 } else { 0x10 }
    } else if g == 5 {
        if k == 0 { 0xF0 } else if k == 1 { 0x80 } else if k == 2 { 0xF0 } else if k == 3 { 0x10 } else { 0xF0 }
    } else if g == 6 {
        if k == 0 { 0xF0 } else if k == 1 { 0x80 } else if k == 2 { 0xF0 } else if k == 3 { 0x90 } else { 0xF0 }
    } else if g == 7 {
        if k == 0 { 0xF0 } else if k == 1 { 0x10 } else if k == 2 { 0x20 } else if k == 3 { 0x40 } else { 0x40 }
    } else if g == 8 {
        if k == 0 { 0xF0 } else if k == 1 { 0x90 } else if k == 2 { 0xF0 } else if k == 3 { 0x90 } else { 0xF0 }
    } else if g == 9 {
        if k == 0 { 0xF0 } else if k == 1 { 0x90 } else if k == 2 { 0xF0 } else if k == 3 { 0x10 } else { 0xF0 }
    } else if g == 10 {
        if k == 0 { 0xF0 } else if k == 1 { 0x90 } else if k == 2 { 0xF0 } else if k == 3 { 0x90 } else { 0x90 }
    } else if g == 11 {
        if k == 0 { 0xE0 } else if k == 1 { 0x90 } else if k == 2 { 0xE0 } else if k == 3 { 0x90 } else { 0xE0 }
    } else if g == 12 {
        if k == 0 { 0xF0 } else if k == 1 { 0x80 } else if k == 2 { 0x80 } else if k == 3 { 0x80 } else { 0xF0 }
    } else if g == 13 {
        if k == 0 { 0xE0 } else if k == 1 { 0x90 } else if k == 2 { 0x90 } else if k == 3 { 0x90 } else { 0xE0 }
    } else if g == 14 {
        if k == 0 { 0xF0 } else if k == 1 { 0x80 } else if k == 2 { 0xF0 } else if k == 3 { 0x80 } else { 0xF0 }
    } else {
        if k == 0 { 0xF0 } else if k == 1 { 0x80 } else if k == 2 { 0xF0 } else if k == 3 { 0x80 } else { 0x80 }
    }
}

/// 4096 bytes of memory as construction leaves them: zero everywhere but
/// the font table at 0x050 through 0x09F.
fn fresh_memory() -> (v: Vec<u8>)
    ensures
        v@ == initial_memory(),
{
    let mut v = zero_bytes(4096);
    let mut t: usize = 0;
    while t < 80
        invariant
            t <= 80,
            v@.len() == 4096,
            forall|j: int| 0 <= j < 4096 ==> v@[j] == (
                if 80 <= j < 80 + t {
                    glyph_row((j - 80) / 5, (j - 80) % 5)
                } else {
                    0u8
                }
            ),
        decreases 80 - t,
    {
        let b = glyph_row_at(t / 5, t % 5);
        v.set(80 + t, b);
        t = t + 1;
    }
    proof {
        assert(v@ =~= initial_memory());
    }
    v
}

/// How many sprite columns the draw loops visit per row: all 8, except
/// that clipping stops at the right screen edge.
spec fn cols_drawn(xc: int, wrap: bool) -> int {
    if wrap || 8 <= 64 - xc {
        8
    } else {
        64 - xc
    }
}

/// At most one screen pixel maps back to a given sprite row and column:
/// the offset maps are injective on the screen, so a pixel `q` with the
/// same offsets as the target `(py, px)` is that target.
proof fn lemma_draw_target_unique(
    xc: int,
    yc: int,
    wrap: bool,
    rr: int,
    cc: int,
    py: int,
    px: int,
    q: int,
)
    requires
        0 <= xc < 64,
        0 <= yc < 32,
        0 <= q < 2048,
        0 <= py < 32,
        0 <= px < 64,
        row_off(py, yc, wrap) == rr,
        col_off(px, xc, wrap) == cc,
        row_off(q / 64, yc, wrap) == rr,
        col_off(q % 64, xc, wrap) == cc,
    ensures
        q == py * 64 + px,
{
    assert(q == 64 * (q / 64) + (q % 64));
    assert(0 <= q % 64 < 64);
    assert(0 <= q / 64 < 32);
    assert(q / 64 == py);
    assert(q % 64 == px);
}

/// Whether pixel `p` has already been toggled once the draw loops have
/// visited every sprite position lexicographically before row `rl`,
/// column `cl`.
spec fn draw_flips_before(
    mem: Seq<u8>,
    index: u16,
    xc: int,
    yc: int,
    n: int,
    wrap: bool,
    p: int,
    rl: int,
    cl: int,
) -> bool {
    let r = row_off(p / 64, yc, wrap);
    let c = col_off(p % 64, xc, wrap);
    draw_flips(mem, index, xc, yc, n, wrap, p) && (r < rl || (r == rl && c < cl))
}

/// Draws one uniformly random byte.
///
/// Relies on `rand::thread_rng` and `rand::Rng::gen_range` over the full
/// 8-bit range, which cannot panic on a non-empty range. Nothing is
/// promised of the value: every byte is a possible outcome.
#[verifier::external_body]
fn random_byte() -> u8 {
    rand::thread_rng().gen_range(0u8..=255u8)
}

impl Chip8 {
    /// The structural invariant: every buffer has its fixed size and the
    /// stack depth is at most 16.
    pub open spec fn wf(self) -> bool {
        &&& self.memory.len() == 4096
        &&& self.v_register.len() == 16
        &&& self.screen.len() == 2048
        &&& self.stack.len() == 16
        &&& self.key.len() == 16
        &&& self.stack_ptr <= 16
    }

    /// A freshly constructed machine: zeroed state, the font table
    /// installed, the program counter at 0x200, and the original
    /// hardware's variant behaviours.
    pub fn new() -> (c: Chip8)
        ensures
            c.wf(),
            c@ == initial_state(Quirks::original_spec()),
    {
        let c = Chip8 {
            opcode: 0,
            memory: fresh_memory(),
            v_register: zero_bytes(16),
            i_register: 0,
            pc: 0x200,
            screen: cleared_flags(2048),
            stack: zero_words(16),
            stack_ptr: 0,
            key: cleared_flags(16),
            draw_flag: false,
            timer: Timer::new(),
            quirks: Quirks::original(),
        };
        proof {
            assert(c@ =~= initial_state(Quirks::original_spec()));
        }
        c
    }

    /// Restores the machine to its just-constructed form, keeping only the
    /// configured variant behaviours.
    pub fn reset(&mut self)
        requires
            old(self).wf(),
        ensures
            final(self).wf(),
            final(self)@ == initial_state(old(self)@.quirks),
    {
        self.opcode = 0;
        self.memory = fresh_memory();
        self.v_register = zero_bytes(16);
        self.i_register = 0;
        self.pc = 0x200;
        self.screen = cleared_flags(2048);
        self.stack = zero_words(16);
        self.stack_ptr = 0;
        self.key = cleared_flags(16);
        self.draw_flag = false;
        self.timer = Timer::new();
        proof {
            assert(self@ =~= initial_state(old(self)@.quirks));
        }
    }

    /// Copies a program image into memory at address 0x200.
    ///
    /// An image longer than the 3584 available bytes is refused with
    /// [`Chip8Error::LoadTooLarge`] before any memory is touched; nothing
    /// else in the machine changes either way.
    pub fn load(&mut self, data: &[u8]) -> (r: Result<(), Chip8Error>)
        requires
            old(self).wf(),
        ensures
            final(self).wf(),
            match r {
                Ok(()) => data@.len() <= 3584 && final(self)@ == (MachineState {
                    memory: loaded_memory(old(self)@.memory, data@),
                    ..old(self)@
                }),
                Err(e) => {
                    &&& e == Chip8Error::LoadTooLarge
                    &&& data@.len() > 3584
                    &&& *final(self) == *old(self)
                },
            },
    {
        if data.len() > 3584 {
            return Err(Chip8Error::LoadTooLarge);
        }
        let ghost pre = self@;
        let mut k: usize = 0;
        while k < data.len()
            invariant
                self.wf(),
                k <= data@.len() <= 3584,
                self.opcode == old(self).opcode,
                self.v_register == old(self).v_register,
                self.i_register == old(self).i_register,
                self.pc == old(self).pc,
                self.screen == old(self).screen,
                self.stack == old(self).stack,
                self.stack_ptr == old(self).stack_ptr,
                self.key == old(self).key,
                self.draw_flag == old(self).draw_flag,
                self.timer == old(self).timer,
                self.quirks == old(self).quirks,
                pre == old(self)@,
                forall|j: int| 0 <= j < 4096 ==> self.memory@[j] == (
                    if 512 <= j < 512 + k {
                        data@[j - 512]
                    } else {
                        pre.memory[j]
                    }
                ),
            decreases data@.len() - k,
        {
            self.memory.set(512 + k, data[k]);
            k = k + 1;
        }
        proof {
            assert(self@.memory =~= loaded_memory(pre.memory, data@));
            assert(self@ =~= (MachineState { memory: loaded_memory(pre.memory, data@), ..pre }));
        }
        Ok(())
    }

    /// Reads the two instruction bytes at the program counter into
    /// `opcode`, big-endian, and advances the counter past them.
    fn fetch(&mut self)
        requires
            old(self).wf(),
            old(self).pc + 1 < 4096,
        ensures
            final(self).wf(),
            final(self).opcode == fetched_word(old(self)@),
            final(self)@ == (MachineState { pc: (old(self)@.pc + 2) as u16, ..old(self)@ }),
    {
        let hi = self.memory[self.pc as usize];
        let lo = self.memory[self.pc as usize + 1];
        self.opcode = (hi as u16) * 256 + (lo as u16);
        self.pc = self.pc + 2;
        proof {
            assert(self@ =~= (MachineState { pc: (old(self)@.pc + 2) as u16, ..old(self)@ }));
        }
    }

    /// 00E0: clears the framebuffer and raises the redraw signal.
    fn op_00e0(&mut self)
        requires
            old(self).wf(),
        ensures
            final(self).wf(),
            final(self)@ == (MachineState {
                screen: Seq::new(2048, |p: int| false),
                draw: true,
                ..old(self)@
            }),
    {
        self.screen = cleared_flags(2048);
        self.draw_flag = true;
        proof {
            assert(self@ =~= (MachineState {
                screen: Seq::new(2048, |p: int| false),
                draw: true,
                ..old(self)@
            }));
        }
    }

    /// 00EE: pops the return address into the program counter; refused with
    /// a stack underflow when the stack is empty, leaving the machine at
    /// the instruction that failed.
    fn op_00ee(&mut self) -> (r: Result<(), Chip8Error>)
        requires
            old(self).wf(),
            old(self).pc >= 2,
        ensures
            final(self).wf(),
            match r {
                Ok(()) => old(self)@.stack.len() > 0 && final(self)@ == (MachineState {
                    pc: old(self)@.stack.last(),
                    stack: old(self)@.stack.drop_last(),
                    ..old(self)@
                }),
                Err(e) => {
                    &&& e == Chip8Error::StackUnderflow
                    &&& old(self)@.stack.len() == 0
                    &&& final(self)@ == (MachineState {
                        pc: (old(self)@.pc - 2) as u16,
                        ..old(self)@
                    })
                },
            },
    {
        if self.stack_ptr == 0 {
            self.pc = self.pc - 2;
            proof {
                assert(self@ =~= (MachineState { pc: (old(self)@.pc - 2) as u16, ..old(self)@ }));
            }
            return Err(Chip8Error::StackUnderflow);
        }
        self.stack_ptr = self.stack_ptr - 1;
        self.pc = self.stack[self.stack_ptr as usize];
        proof {
            assert(self@.stack =~= old(self)@.stack.drop_last());
            assert(self@ =~= (MachineState {
                pc: old(self)@.stack.last(),
                stack: old(self)@.stack.drop_last(),
                ..old(self)@
            }));
        }
        Ok(())
    }

    /// 1NNN: jumps to `nnn`.
    fn op_1nnn(&mut self, nnn: u16)
        requires
            old(self).wf(),
        ensures
            final(self).wf(),
            final(self)@ == (MachineState { pc: nnn, ..old(self)@ }),
    {
        self.pc = nnn;
        proof {
            assert(self@ =~= (MachineState { pc: nnn, ..old(self)@ }));
        }
    }

    /// 2NNN: pushes the return address and jumps to `nnn`; refused with a
    /// stack overflow when 16 calls are already pending, leaving the
    /// machine at the instruction that failed.
    fn op_2nnn(&mut self, nnn: u16) -> (r: Result<(), Chip8Error>)
        requires
            old(self).wf(),
            old(self).pc >= 2,
        ensures
            final(self).wf(),
            match r {
                Ok(()) => old(self)@.stack.len() < 16 && final(self)@ == (MachineState {
                    pc: nnn,
                    stack: old(self)@.stack.push(old(self)@.pc),
                    ..old(self)@
                }),
                Err(e) => {
                    &&& e == Chip8Error::StackOverflow
                    &&& old(self)@.stack.len() >= 16
                    &&& final(self)@ == (MachineState {
                        pc: (old(self)@.pc - 2) as u16,
                        ..old(self)@
                    })
                },
            },
    {
        if self.stack_ptr >= 16 {
            self.pc = self.pc - 2;
            proof {
                assert(self@ =~= (MachineState { pc: (old(self)@.pc - 2) as u16, ..old(self)@ }));
            }
            return Err(Chip8Error::StackOverflow);
        }
        self.stack.set(self.stack_ptr as usize, self.pc);
        self.stack_ptr = self.stack_ptr + 1;
        self.pc = nnn;
        proof {
            assert(self@.stack =~= old(self)@.stack.push(old(self)@.pc));
            assert(self@ =~= (MachineState {
                pc: nnn,
                stack: old(self)@.stack.push(old(self)@.pc),
                ..old(self)@
            }));
        }
        Ok(())
    }

    /// 3XNN: skips the next instruction when register `x` equals `nn`.
    fn op_3xnn(&mut self, x: u8, nn: u8)
        requires
            old(self).wf(),
            x < 16,
            old(self).pc + 2 <= 0xFFFF,
        ensures
            final(self).wf(),
            final(self)@ == skipped(old(self)@, old(self)@.regs[x as int] == nn),
    {
        if self.v_register[x as usize] == nn {
            self.pc = self.pc + 2;
        }
        proof {
            assert(self@ =~= skipped(old(self)@, old(self)@.regs[x as int] == nn));
        }
    }

    /// 4XNN: skips the next instruction when register `x` differs from `nn`.
    fn op_4xnn(&mut self, x: u8, nn: u8)
        requires
            old(self).wf(),
            x < 16,
            old(self).pc + 2 <= 0xFFFF,
        ensures
            final(self).wf(),
            final(self)@ == skipped(old(self)@, old(self)@.regs[x as int] != nn),
    {
        if self.v_register[x as usize] != nn {
            self.pc = self.pc + 2;
        }
        proof {
            assert(self@ =~= skipped(old(self)@, old(self)@.regs[x as int] != nn));
        }
    }

    /// 5XY0: skips the next instruction when registers `x` and `y` are
    /// equal.
    fn op_5xy0(&mut self, x: u8, y: u8)
        requires
            old(self).wf(),
            x < 16,
            y < 16,
            old(self).pc + 2 <= 0xFFFF,
        ensures
            final(self).wf(),
            final(self)@ == skipped(
                old(self)@,
                old(self)@.regs[x as int] == old(self)@.regs[y as int],
            ),
    {
        if self.v_register[x as usize] == self.v_register[y as usize] {
            self.pc = self.pc + 2;
        }
        proof {
            assert(self@ =~= skipped(
                old(self)@,
                old(self)@.regs[x as int] == old(self)@.regs[y as int],
            ));
        }
    }

    /// 6XNN: sets register `x` to `nn`.
    fn op_6xnn(&mut self, x: u8, nn: u8)
        requires
            old(self).wf(),
            x < 16,
        ensures
            final(self).wf(),
            final(self)@ == (MachineState {
                regs: old(self)@.regs.update(x as int, nn),
                ..old(self)@
            }),
    {
        self.v_register.set(x as usize, nn);
        proof {
            assert(self@ =~= (MachineState {
                regs: old(self)@.regs.update(x as int, nn),
                ..old(self)@
            }));
        }
    }

    /// 7XNN: adds `nn` to register `x`, wrapping, with no flag output.
    fn op_7xnn(&mut self, x: u8, nn: u8)
        requires
            old(self).wf(),
            x < 16,
        ensures
            final(self).wf(),
            final(self)@ == (MachineState {
                regs: old(self)@.regs.update(
                    x as int,
                    wrap_add8(old(self)@.regs[x as int], nn),
                ),
                ..old(self)@
            }),
    {
        let sum: u16 = self.v_register[x as usize] as u16 + nn as u16;
        self.v_register.set(x as usize, (sum % 256) as u8);
        proof {
            assert(self@ =~= (MachineState {
                regs: old(self)@.regs.update(
                    x as int,
                    wrap_add8(old(self)@.regs[x as int], nn),
                ),
                ..old(self)@
            }));
        }
    }

    /// 8XY0: copies register `y` into register `x`.
    fn op_8xy0(&mut self, x: u8, y: u8)
        requires
            old(self).wf(),
            x < 16,
            y < 16,
        ensures
            final(self).wf(),
            final(self)@ == (MachineState {
                regs: old(self)@.regs.update(x as int, old(self)@.regs[y as int]),
                ..old(self)@
            }),
    {
        let v = self.v_register[y as usize];
        self.v_register.set(x as usize, v);
        proof {
            assert(self@ =~= (MachineState {
                regs: old(self)@.regs.update(x as int, old(self)@.regs[y as int]),
                ..old(self)@
            }));
        }
    }

    /// 8XY1: ORs register `y` into register `x`.
    fn op_8xy1(&mut self, x: u8, y: u8)
        requires
            old(self).wf(),
            x < 16,
            y < 16,
        ensures
            final(self).wf(),
            final(self)@ == (MachineState {
                regs: old(self)@.regs.update(
                    x as int,
                    old(self)@.regs[x as int] | old(self)@.regs[y as int],
                ),
                ..old(self)@
            }),
    {
        let v = self.v_register[x as usize] | self.v_register[y as usize];
        self.v_register.set(x as usize, v);
        proof {
            assert(self@ =~= (MachineState {
                regs: old(self)@.regs.update(
                    x as int,
                    old(self)@.regs[x as int] | old(self)@.regs[y as int],
                ),
                ..old(self)@
            }));
        }
    }

    /// 8XY2: ANDs register `y` into register `x`.
    fn op_8xy2(&mut self, x: u8, y: u8)
        requires
            old(self).wf(),
            x < 16,
            y < 16,
        ensures
            final(self).wf(),
            final(self)@ == (MachineState {
                regs: old(self)@.regs.update(
                    x as int,
                    old(self)@.regs[x as int] & old(self)@.regs[y as int],
                ),
                ..old(self)@
            }),
    {
        let v = self.v_register[x as usize] & self.v_register[y as usize];
        self.v_register.set(x as usize, v);
        proof {
            assert(self@ =~= (MachineState {
                regs: old(self)@.regs.update(
                    x as int,
                    old(self)@.regs[x as int] & old(self)@.regs[y as int],
                ),
                ..old(self)@
            }));
        }
    }

    /// 8XY3: XORs register `y` into register `x`.
    fn op_8xy3(&mut self, x: u8, y: u8)
        requires
            old(self).wf(),
            x < 16,
            y < 16,
        ensures
            final(self).wf(),
            final(self)@ == (MachineState {
                regs: old(self)@.regs.update(
                    x as int,
                    old(self)@.regs[x as int] ^ old(self)@.regs[y as int],
                ),
                ..old(self)@
            }),
    {
        let v = self.v_register[x as usize] ^ self.v_register[y as usize];
        self.v_register.set(x as usize, v);
        proof {
            assert(self@ =~= (MachineState {
                regs: old(self)@.regs.update(
                    x as int,
                    old(self)@.regs[x as int] ^ old(self)@.regs[y as int],
                ),
                ..old(self)@
            }));
        }
    }

    /// 8XY4: adds register `y` to register `x`; the result wraps modulo 256
    /// and register 0xF is 1 exactly when the unsigned sum exceeds 255.
    fn op_8xy4(&mut self, x: u8, y: u8)
        requires
            old(self).wf(),
            x < 16,
            y < 16,
        ensures
            final(self).wf(),
            final(self)@ == ({
                let s = old(self)@;
                let sum = s.regs[x as int] + s.regs[y as int];
                MachineState {
                    regs: s.regs.update(x as int, (sum % 256) as u8).update(
                        15,
                        if sum > 255 { 1u8 } else { 0u8 },
                    ),
                    ..s
                }
            }),
    {
        let sum: u16 = self.v_register[x as usize] as u16 + self.v_register[y as usize] as u16;
        self.v_register.set(x as usize, (sum % 256) as u8);
        self.v_register.set(15, if sum > 255 { 1 } else { 0 });
        proof {
            let s = old(self)@;
            let sum_spec = s.regs[x as int] + s.regs[y as int];
            assert(self@ =~= (MachineState {
                regs: s.regs.update(x as int, (sum_spec % 256) as u8).update(
                    15,
                    if sum_spec > 255 { 1u8 } else { 0u8 },
                ),
                ..s
            }));
        }
    }

    /// 8XY5: subtracts register `y` from register `x`; the result wraps
    /// modulo 256 and register 0xF is 1 exactly when no borrow occurred.
    fn op_8xy5(&mut self, x: u8, y: u8)
        requires
            old(self).wf(),
            x < 16,
            y < 16,
        ensures
            final(self).wf(),
            final(self)@ == ({
                let s = old(self)@;
                MachineState {
                    regs: s.regs.update(
                        x as int,
                        wrap_sub8(s.regs[x as int], s.regs[y as int]),
                    ).update(
                        15,
                        if s.regs[x as int] >= s.regs[y as int] { 1u8 } else { 0u8 },
                    ),
                    ..s
                }
            }),
    {
        let a = self.v_register[x as usize];
        let b = self.v_register[y as usize];
        let diff: u16 = (a as u16 + 256 - b as u16) % 256;
        self.v_register.set(x as usize, diff as u8);
        self.v_register.set(15, if a >= b { 1 } else { 0 });
        proof {
            let s = old(self)@;
            assert(self@ =~= (MachineState {
                regs: s.regs.update(
                    x as int,
                    wrap_sub8(s.regs[x as int], s.regs[y as int]),
                ).update(
                    15,
                    if s.regs[x as int] >= s.regs[y as int] { 1u8 } else { 0u8 },
                ),
                ..s
            }));
        }
    }

    /// 8XY6: shift right by one. The source register is `y` under the
    /// original behaviour, `x` under the later variant; the result lands in
    /// `x` and register 0xF receives the shifted-out bit.
    fn op_8xy6(&mut self, x: u8, y: u8)
        requires
            old(self).wf(),
            x < 16,
            y < 16,
        ensures
            final(self).wf(),
            final(self)@ == ({
                let s = old(self)@;
                let src = if s.quirks.shift_source_y { s.regs[y as int] } else { s.regs[x as int] };
                MachineState {
                    regs: s.regs.update(x as int, (src / 2) as u8).update(15, (src % 2) as u8),
                    ..s
                }
            }),
    {
        let src = if self.quirks.shift_source_y {
            self.v_register[y as usize]
        } else {
            self.v_register[x as usize]
        };
        self.v_register.set(x as usize, src / 2);
        self.v_register.set(15, src % 2);
        proof {
            let s = old(self)@;
            let src_spec = if s.quirks.shift_source_y { s.regs[y as int] } else { s.regs[x as int] };
            assert(self@ =~= (MachineState {
                regs: s.regs.update(x as int, (src_spec / 2) as u8).update(
                    15,
                    (src_spec % 2) as u8,
                ),
                ..s
            }));
        }
    }

    /// 8XY7: sets register `x` to register `y` minus register `x`; the
    /// result wraps modulo 256 and register 0xF is 1 exactly when no borrow
    /// occurred.
    fn op_8xy7(&mut self, x: u8, y: u8)
        requires
            old(self).wf(),
            x < 16,
            y < 16,
        ensures
            final(self).wf(),
            final(self)@ == ({
                let s = old(self)@;
                MachineState {
                    regs: s.regs.update(
                        x as int,
                        wrap_sub8(s.regs[y as int], s.regs[x as int]),
                    ).update(
                        15,
                        if s.regs[y as int] >= s.regs[x as int] { 1u8 } else { 0u8 },
                    ),
                    ..s
                }
            }),
    {
        let a = self.v_register[x as usize];
        let b = self.v_register[y as usize];
        let diff: u16 = (b as u16 + 256 - a as u16) % 256;
        self.v_register.set(x as usize, diff as u8);
        self.v_register.set(15, if b >= a { 1 } else { 0 });
        proof {
            let s = old(self)@;
            assert(self@ =~= (MachineState {
                regs: s.regs.update(
                    x as int,
                    wrap_sub8(s.regs[y as int], s.regs[x as int]),
                ).update(
                    15,
                    if s.regs[y as int] >= s.regs[x as int] { 1u8 } else { 0u8 },
                ),
                ..s
            }));
        }
    }

    /// 8XYE: shift left by one; as [`Chip8::op_8xy6`], with register 0xF
    /// receiving the bit shifted out at the top.
    fn op_8xye(&mut self, x: u8, y: u8)
        requires
            old(self).wf(),
            x < 16,
            y < 16,
        ensures
            final(self).wf(),
            final(self)@ == ({
                let s = old(self)@;
                let src = if s.quirks.shift_source_y { s.regs[y as int] } else { s.regs[x as int] };
                MachineState {
                    regs: s.regs.update(x as int, ((src * 2) % 256) as u8).update(
                        15,
                        (src / 128) as u8,
                    ),
                    ..s
                }
            }),
    {
        let src = if self.quirks.shift_source_y {
            self.v_register[y as usize]
        } else {
            self.v_register[x as usize]
        };
        let doubled: u16 = (src as u16 * 2) % 256;
        self.v_register.set(x as usize, doubled as u8);
        self.v_register.set(15, src / 128);
        proof {
            let s = old(self)@;
            let src_spec = if s.quirks.shift_source_y { s.regs[y as int] } else { s.regs[x as int] };
            assert(self@ =~= (MachineState {
                regs: s.regs.update(x as int, ((src_spec * 2) % 256) as u8).update(
                    15,
                    (src_spec / 128) as u8,
                ),
                ..s
            }));
        }
    }

    /// 9XY0: skips the next instruction when registers `x` and `y` differ.
    fn op_9xy0(&mut self, x: u8, y: u8)
        requires
            old(self).wf(),
            x < 16,
            y < 16,
            old(self).pc + 2 <= 0xFFFF,
        ensures
            final(self).wf(),
            final(self)@ == skipped(
                old(self)@,
                old(self)@.regs[x as int] != old(self)@.regs[y as int],
            ),
    {
        if self.v_register[x as usize] != self.v_register[y as usize] {
            self.pc = self.pc + 2;
        }
        proof {
            assert(self@ =~= skipped(
                old(self)@,
                old(self)@.regs[x as int] != old(self)@.regs[y as int],
            ));
        }
    }

    /// ANNN: sets the index register to `nnn`.
    fn op_annn(&mut self, nnn: u16)
        requires
            old(self).wf(),
        ensures
            final(self).wf(),
            final(self)@ == (MachineState { index: nnn, ..old(self)@ }),
    {
        self.i_register = nnn;
        proof {
            assert(self@ =~= (MachineState { index: nnn, ..old(self)@ }));
        }
    }

    /// BNNN: jumps to `nnn` plus an offset register: register 0 under the
    /// original behaviour, register `x` under the later variant.
    fn op_bnnn(&mut self, x: u8, nnn: u16)
        requires
            old(self).wf(),
            x < 16,
            nnn < 4096,
        ensures
            final(self).wf(),
            final(self)@ == ({
                let s = old(self)@;
                let base = if s.quirks.jump_offset_uses_vx { s.regs[x as int] } else { s.regs[0] };
                MachineState { pc: (nnn + base) as u16, ..s }
            }),
    {
        let base = if self.quirks.jump_offset_uses_vx {
            self.v_register[x as usize]
        } else {
            self.v_register[0]
        };
        self.pc = nnn + base as u16;
        proof {
            let s = old(self)@;
            let base_spec = if s.quirks.jump_offset_uses_vx { s.regs[x as int] } else { s.regs[0] };
            assert(self@ =~= (MachineState { pc: (nnn + base_spec) as u16, ..s }));
        }
    }

    /// CXNN: stores `b & nn` into register `x`, where `b` is the byte the
    /// caller drew at random.
    fn op_cxnn(&mut self, x: u8, nn: u8, b: u8)
        requires
            old(self).wf(),
            x < 16,
        ensures
            final(self).wf(),
            final(self)@ == (MachineState {
                regs: old(self)@.regs.update(x as int, b & nn),
                ..old(self)@
            }),
    {
        self.v_register.set(x as usize, b & nn);
        proof {
            assert(self@ =~= (MachineState {
                regs: old(self)@.regs.update(x as int, b & nn),
                ..old(self)@
            }));
        }
    }

    /// EX9E: skips the next instruction when the key named by the low
    /// nibble of register `x` is pressed.
    fn op_ex9e(&mut self, x: u8)
        requires
            old(self).wf(),
            x < 16,
            old(self).pc + 2 <= 0xFFFF,
        ensures
            final(self).wf(),
            final(self)@ == skipped(
                old(self)@,
                old(self)@.keys[(old(self)@.regs[x as int] as int) % 16],
            ),
    {
        let v = self.v_register[x as usize];
        if self.key[(v % 16) as usize] {
            self.pc = self.pc + 2;
        }
        proof {
            assert(self@ =~= skipped(
                old(self)@,
                old(self)@.keys[(old(self)@.regs[x as int] as int) % 16],
            ));
        }
    }

    /// EXA1: skips the next instruction when the key named by the low
    /// nibble of register `x` is not pressed.
    fn op_exa1(&mut self, x: u8)
        requires
            old(self).wf(),
            x < 16,
            old(self).pc + 2 <= 0xFFFF,
        ensures
            final(self).wf(),
            final(self)@ == skipped(
                old(self)@,
                !old(self)@.keys[(old(self)@.regs[x as int] as int) % 16],
            ),
    {
        let v = self.v_register[x as usize];
        if !self.key[(v % 16) as usize] {
            self.pc = self.pc + 2;
        }
        proof {
            assert(self@ =~= skipped(
                old(self)@,
                !old(self)@.keys[(old(self)@.regs[x as int] as int) % 16],
            ));
        }
    }

    /// FX07: reads the delay timer into register `x`.
    fn op_fx07(&mut self, x: u8)
        requires
            old(self).wf(),
            x < 16,
        ensures
            final(self).wf(),
            final(self)@ == (MachineState {
                regs: old(self)@.regs.update(x as int, old(self)@.delay),
                ..old(self)@
            }),
    {
        let v = self.timer.get_dt();
        self.v_register.set(x as usize, v);
        proof {
            assert(self@ =~= (MachineState {
                regs: old(self)@.regs.update(x as int, old(self)@.delay),
                ..old(self)@
            }));
        }
    }

    /// FX0A: stalls at this instruction by rewinding the program counter
    /// while the whole keypad snapshot is empty; a no-op once any key is
    /// pressed.
    fn op_fx0a(&mut self, _x: u8)
        requires
            old(self).wf(),
            old(self).pc >= 2,
        ensures
            final(self).wf(),
            final(self)@ == (if any_key(old(self)@.keys) {
                old(self)@
            } else {
                MachineState { pc: (old(self)@.pc - 2) as u16, ..old(self)@ }
            }),
    {
        let mut pressed = false;
        let mut k: usize = 0;
        while k < 16
            invariant
                old(self).wf(),
                *self == *old(self),
                k <= 16,
                pressed == exists|j: int| 0 <= j < k && old(self)@.keys[j],
            decreases 16 - k,
        {
            if self.key[k] {
                pressed = true;
                proof {
                    assert(old(self)@.keys[k as int]);
                }
            }
            k = k + 1;
        }
        proof {
            assert(pressed == any_key(old(self)@.keys));
        }
        if !pressed {
            self.pc = self.pc - 2;
            proof {
                assert(self@ =~= (MachineState { pc: (old(self)@.pc - 2) as u16, ..old(self)@ }));
            }
        }
    }

    /// FX15: sets the delay timer from register `x`.
    fn op_fx15(&mut self, x: u8)
        requires
            old(self).wf(),
            x < 16,
        ensures
            final(self).wf(),
            final(self)@ == (MachineState {
                delay: old(self)@.regs[x as int],
                ..old(self)@
            }),
    {
        let v = self.v_register[x as usize];
        self.timer.set_dt(v);
        proof {
            assert(self@ =~= (MachineState { delay: old(self)@.regs[x as int], ..old(self)@ }));
        }
    }

    /// FX18: sets the sound timer from register `x`.
    fn op_fx18(&mut self, x: u8)
        requires
            old(self).wf(),
            x < 16,
        ensures
            final(self).wf(),
            final(self)@ == (MachineState {
                sound: old(self)@.regs[x as int],
                ..old(self)@
            }),
    {
        let v = self.v_register[x as usize];
        self.timer.set_st(v);
        proof {
            assert(self@ =~= (MachineState { sound: old(self)@.regs[x as int], ..old(self)@ }));
        }
    }

    /// FX1E: adds register `x` to the index register, wrapping at 16 bits,
    /// with no flag output.
    fn op_fx1e(&mut self, x: u8)
        requires
            old(self).wf(),
            x < 16,
        ensures
            final(self).wf(),
            final(self)@ == (MachineState {
                index: ((old(self)@.index + old(self)@.regs[x as int]) % 65536) as u16,
                ..old(self)@
            }),
    {
        let v = self.v_register[x as usize];
        let sum: u32 = (self.i_register as u32 + v as u32) % 65536;
        self.i_register = sum as u16;
        proof {
            assert(self@ =~= (MachineState {
                index: ((old(self)@.index + old(self)@.regs[x as int]) % 65536) as u16,
                ..old(self)@
            }));
        }
    }

    /// FX29: points the index register at the font glyph for the low
    /// nibble of register `x`: the table base 0x50 plus five bytes per
    /// glyph.
    fn op_fx29(&mut self, x: u8)
        requires
            old(self).wf(),
            x < 16,
        ensures
            final(self).wf(),
            final(self)@ == (MachineState {
                index: (80 + (old(self)@.regs[x as int] as int % 16) * 5) as u16,
                ..old(self)@
            }),
    {
        let v = self.v_register[x as usize];
        self.i_register = 80 + (v % 16) as u16 * 5;
        proof {
            assert(self@ =~= (MachineState {
                index: (80 + (old(self)@.regs[x as int] as int % 16) * 5) as u16,
                ..old(self)@
            }));
        }
    }

    /// FX33: writes the hundreds, tens and ones digits of register `x` at
    /// the index register and the two following addresses; refused with an
    /// address overflow when those three bytes would not all fit below
    /// address 4096, leaving the machine at the instruction that failed.
    fn op_fx33(&mut self, x: u8) -> (r: Result<(), Chip8Error>)
        requires
            old(self).wf(),
            x < 16,
            old(self).pc >= 2,
        ensures
            final(self).wf(),
            match r {
                Ok(()) => old(self)@.index + 2 < 4096 && final(self)@ == (MachineState {
                    memory: bcd_memory(
                        old(self)@.memory,
                        old(self)@.index as int,
                        old(self)@.regs[x as int],
                    ),
                    ..old(self)@
                }),
                Err(e) => {
                    &&& e == Chip8Error::AddressOverflow
                    &&& old(self)@.index + 2 >= 4096
                    &&& final(self)@ == (MachineState {
                        pc: (old(self)@.pc - 2) as u16,
                        ..old(self)@
                    })
                },
            },
    {
        if self.i_register >= 4094 {
            self.pc = self.pc - 2;
            proof {
                assert(self@ =~= (MachineState { pc: (old(self)@.pc - 2) as u16, ..old(self)@ }));
            }
            return Err(Chip8Error::AddressOverflow);
        }
        let v = self.v_register[x as usize];
        let i = self.i_register as usize;
        self.memory.set(i, v / 100);
        self.memory.set(i + 1, (v / 10) % 10);
        self.memory.set(i + 2, v % 10);
        proof {
            assert(self@ =~= (MachineState {
                memory: bcd_memory(
                    old(self)@.memory,
                    old(self)@.index as int,
                    old(self)@.regs[x as int],
                ),
                ..old(self)@
            }));
        }
        Ok(())
    }

    /// FX55: stores registers 0 through `x` to memory at the index
    /// register, then leaves the index register just past that region
    /// under the original behaviour (unchanged under the later variant);
    /// refused with an address overflow when the region would not fit
    /// below address 4096, leaving the machine at the instruction that
    /// failed.
    fn op_fx55(&mut self, x: u8) -> (r: Result<(), Chip8Error>)
        requires
            old(self).wf(),
            x < 16,
            old(self).pc >= 2,
        ensures
            final(self).wf(),
            match r {
                Ok(()) => old(self)@.index + x < 4096 && final(self)@ == (MachineState {
                    memory: stored_memory(
                        old(self)@.memory,
                        old(self)@.regs,
                        old(self)@.index as int,
                        x as int,
                    ),
                    index: bumped_index(old(self)@, x as int),
                    ..old(self)@
                }),
                Err(e) => {
                    &&& e == Chip8Error::AddressOverflow
                    &&& old(self)@.index + x >= 4096
                    &&& final(self)@ == (MachineState {
                        pc: (old(self)@.pc - 2) as u16,
                        ..old(self)@
                    })
                },
            },
    {
        if self.i_register as usize + x as usize >= 4096 {
            self.pc = self.pc - 2;
            proof {
                assert(self@ =~= (MachineState { pc: (old(self)@.pc - 2) as u16, ..old(self)@ }));
            }
            return Err(Chip8Error::AddressOverflow);
        }
        let i = self.i_register as usize;
        let mut k: usize = 0;
        while k <= x as usize
            invariant
                old(self).wf(),
                self.wf(),
                x < 16,
                k <= x as usize + 1,
                i == old(self).i_register as usize,
                i + x < 4096,
                self.opcode == old(self).opcode,
                self.v_register == old(self).v_register,
                self.i_register == old(self).i_register,
                self.pc == old(self).pc,
                self.screen == old(self).screen,
                self.stack == old(self).stack,
                self.stack_ptr == old(self).stack_ptr,
                self.key == old(self).key,
                self.draw_flag == old(self).draw_flag,
                self.timer == old(self).timer,
                self.quirks == old(self).quirks,
                forall|j: int| 0 <= j < 4096 ==> self.memory@[j] == (
                    if i <= j < i + k {
                        old(self)@.regs[j - i]
                    } else {
                        old(self)@.memory[j]
                    }
                ),
            decreases x as usize + 1 - k,
        {
            let b = self.v_register[k];
            self.memory.set(i + k, b);
            k = k + 1;
        }
        if self.quirks.load_store_bumps_index {
            self.i_register = self.i_register + x as u16 + 1;
        }
        proof {
            assert(self@.memory =~= stored_memory(
                old(self)@.memory,
                old(self)@.regs,
                old(self)@.index as int,
                x as int,
            ));
            assert(self@ =~= (MachineState {
                memory: stored_memory(
                    old(self)@.memory,
                    old(self)@.regs,
                    old(self)@.index as int,
                    x as int,
                ),
                index: bumped_index(old(self)@, x as int),
                ..old(self)@
            }));
        }
        Ok(())
    }

    /// FX65: loads registers 0 through `x` from memory at the index
    /// register; the index register afterwards and the refusal rule are as
    /// for [`Chip8::op_fx55`].
    fn op_fx65(&mut self, x: u8) -> (r: Result<(), Chip8Error>)
        requires
            old(self).wf(),
            x < 16,
            old(self).pc >= 2,
        ensures
            final(self).wf(),
            match r {
                Ok(()) => old(self)@.index + x < 4096 && final(self)@ == (MachineState {
                    regs: loaded_regs(
                        old(self)@.regs,
                        old(self)@.memory,
                        old(self)@.index as int,
                        x as int,
                    ),
                    index: bumped_index(old(self)@, x as int),
                    ..old(self)@
                }),
                Err(e) => {
                    &&& e == Chip8Error::AddressOverflow
                    &&& old(self)@.index + x >= 4096
                    &&& final(self)@ == (MachineState {
                        pc: (old(self)@.pc - 2) as u16,
                        ..old(self)@
                    })
                },
            },
    {
        if self.i_register as usize + x as usize >= 4096 {
            self.pc = self.pc - 2;
            proof {
                assert(self@ =~= (MachineState { pc: (old(self)@.pc - 2) as u16, ..old(self)@ }));
            }
            return Err(Chip8Error::AddressOverflow);
        }
        let i = self.i_register as usize;
        let mut k: usize = 0;
        while k <= x as usize
            invariant
                old(self).wf(),
                self.wf(),
                x < 16,
                k <= x as usize + 1,
                i == old(self).i_register as usize,
                i + x < 4096,
                self.opcode == old(self).opcode,
                self.memory == old(self).memory,
                self.i_register == old(self).i_register,
                self.pc == old(self).pc,
                self.screen == old(self).screen,
                self.stack == old(self).stack,
                self.stack_ptr == old(self).stack_ptr,
                self.key == old(self).key,
                self.draw_flag == old(self).draw_flag,
                self.timer == old(self).timer,
                self.quirks == old(self).quirks,
                forall|j: int| 0 <= j < 16 ==> self.v_register@[j] == (
                    if j < k {
                        old(self)@.memory[i + j]
                    } else {
                        old(self)@.regs[j]
                    }
                ),
            decreases x as usize + 1 - k,
        {
            let b = self.memory[i + k];
            self.v_register.set(k, b);
            k = k + 1;
        }
        if self.quirks.load_store_bumps_index {
            self.i_register = self.i_register + x as u16 + 1;
        }
        proof {
            assert(self@.regs =~= loaded_regs(
                old(self)@.regs,
                old(self)@.memory,
                old(self)@.index as int,
                x as int,
            ));
            assert(self@ =~= (MachineState {
                regs: loaded_regs(
                    old(self)@.regs,
                    old(self)@.memory,
                    old(self)@.index as int,
                    x as int,
                ),
                index: bumped_index(old(self)@, x as int),
                ..old(self)@
            }));
        }
        Ok(())
    }

    /// DXYN: XORs an `n`-row sprite, read from memory at the index
    /// register, onto the framebuffer at the coordinates held in registers
    /// `x` and `y` (taken modulo 64 and 32). Register 0xF reports whether
    /// any lit pixel was turned off, and the redraw signal is raised.
    /// Sprite pixels beyond the screen edges are clipped, or wrapped under
    /// that quirk. Refused with an address overflow when a sprite row would
    /// be read from beyond address 4095, leaving the machine at the
    /// instruction that failed.
    fn op_dxyn(&mut self, x: u8, y: u8, n: u8) -> (r: Result<(), Chip8Error>)
        requires
            old(self).wf(),
            x < 16,
            y < 16,
            n < 16,
            old(self).pc >= 2,
        ensures
            final(self).wf(),
            match r {
                Ok(()) => !draw_overflows(old(self)@, x as int, y as int, n as int)
                    && final(self)@ == draw_state(old(self)@, x as int, y as int, n as int),
                Err(e) => {
                    &&& e == Chip8Error::AddressOverflow
                    &&& draw_overflows(old(self)@, x as int, y as int, n as int)
                    &&& final(self)@ == (MachineState {
                        pc: (old(self)@.pc - 2) as u16,
                        ..old(self)@
                    })
                },
            },
    {
        let ghost s = self@;
        let ghost m = s.memory;
        let ghost ix = s.index;
        let xc: usize = (self.v_register[x as usize] % 64) as usize;
        let yc: usize = (self.v_register[y as usize] % 32) as usize;
        let wrap = self.quirks.sprite_wrap;
        let nn: usize = n as usize;
        let rows: usize = if wrap {
            nn
        } else if nn <= 32 - yc {
            nn
        } else {
            32 - yc
        };
        proof {
            assert(xc as int == (s.regs[x as int] as int) % 64);
            assert(yc as int == (s.regs[y as int] as int) % 32);
            assert(rows as int == draw_rows_read(yc as int, n as int, wrap));
        }
        if rows > 0 && self.i_register as usize > 4096 - rows {
            self.pc = self.pc - 2;
            proof {
                assert(draw_overflows(s, x as int, y as int, n as int));
                assert(self@ =~= (MachineState { pc: (s.pc - 2) as u16, ..s }));
            }
            return Err(Chip8Error::AddressOverflow);
        }
        proof {
            assert(!draw_overflows(s, x as int, y as int, n as int));
        }
        let i0: usize = self.i_register as usize;
        let mut collided = false;
        let mut rr: usize = 0;
        while rr < rows
            invariant
                old(self).wf(),
                self.wf(),
                s == old(self)@,
                m == s.memory,
                ix == s.index,
                x < 16,
                y < 16,
                n < 16,
                xc < 64,
                yc < 32,
                xc as int == (s.regs[x as int] as int) % 64,
                yc as int == (s.regs[y as int] as int) % 32,
                wrap == s.quirks.sprite_wrap,
                rows as int == draw_rows_read(yc as int, n as int, wrap),
                rows <= nn,
                nn == n as usize,
                i0 == old(self).i_register as usize,
                rows > 0 ==> i0 + rows <= 4096,
                rr <= rows,
                self.opcode == old(self).opcode,
                self.memory == old(self).memory,
                self.v_register == old(self).v_register,
                self.i_register == old(self).i_register,
                self.pc == old(self).pc,
                self.stack == old(self).stack,
                self.stack_ptr == old(self).stack_ptr,
                self.key == old(self).key,
                self.draw_flag == old(self).draw_flag,
                self.timer == old(self).timer,
                self.quirks == old(self).quirks,
                forall|p: int| 0 <= p < 2048 ==> self.screen@[p] == (s.screen[p]
                    != draw_flips_before(
                    m,
                    ix,
                    xc as int,
                    yc as int,
                    n as int,
                    wrap,
                    p,
                    rr as int,
                    0,
                )),
                collided == exists|p: int|
                    0 <= p < 2048 && s.screen[p] && #[trigger] draw_flips_before(
                        m,
                        ix,
                        xc as int,
                        yc as int,
                        n as int,
                        wrap,
                        p,
                        rr as int,
                        0,
                    ),
            decreases rows - rr,
        {
            let byte = self.memory[i0 + rr];
            let cols: usize = if wrap {
                8
            } else if 8 <= 64 - xc {
                8
            } else {
                64 - xc
            };
            proof {
                assert(cols as int == cols_drawn(xc as int, wrap));
            }
            let mut cc: usize = 0;
            while cc < cols
                invariant
                    old(self).wf(),
                    self.wf(),
                    s == old(self)@,
                    m == s.memory,
                    ix == s.index,
                    x < 16,
                    y < 16,
                    n < 16,
                    xc < 64,
                    yc < 32,
                    xc as int == (s.regs[x as int] as int) % 64,
                    yc as int == (s.regs[y as int] as int) % 32,
                    wrap == s.quirks.sprite_wrap,
                    rows as int == draw_rows_read(yc as int, n as int, wrap),
                    rows <= nn,
                    nn == n as usize,
                    i0 == old(self).i_register as usize,
                    i0 + rows <= 4096,
                    rr < rows,
                    cc <= cols,
                    cols as int == cols_drawn(xc as int, wrap),
                    byte == m[i0 + rr],
                    self.opcode == old(self).opcode,
                    self.memory == old(self).memory,
                    self.v_register == old(self).v_register,
                    self.i_register == old(self).i_register,
                    self.pc == old(self).pc,
                    self.stack == old(self).stack,
                    self.stack_ptr == old(self).stack_ptr,
                    self.key == old(self).key,
                    self.draw_flag == old(self).draw_flag,
                    self.timer == old(self).timer,
                    self.quirks == old(self).quirks,
                    forall|p: int| 0 <= p < 2048 ==> self.screen@[p] == (s.screen[p]
                        != draw_flips_before(
                        m,
                        ix,
                        xc as int,
                        yc as int,
                        n as int,
                        wrap,
                        p,
                        rr as int,
                        cc as int,
                    )),
                    collided == exists|p: int|
                        0 <= p < 2048 && s.screen[p] && #[trigger] draw_flips_before(
                            m,
                            ix,
                            xc as int,
                            yc as int,
                            n as int,
                            wrap,
                            p,
                            rr as int,
                            cc as int,
                        ),
                decreases cols - cc,
            {
                let bit = (byte >> ((7 - cc) as u8)) & 1;
                proof {
                    assert((bit == 1) == sprite_bit(m[i0 + rr], cc as int));
                }
                let py = if yc + rr < 32 {
                    yc + rr
                } else {
                    yc + rr - 32
                };
                let px = if xc + cc < 64 {
                    xc + cc
                } else {
                    xc + cc - 64
                };
                let p = py * 64 + px;
                proof {
                    assert(py < 32 && px < 64);
                    assert(p < 2048) by (nonlinear_arith)
                        requires
                            py < 32,
                            px < 64,
                            p == py * 64 + px,
                    ;
                    assert(p as int / 64 == py as int && p as int % 64 == px as int)
                        by (nonlinear_arith)
                        requires
                            px < 64,
                            p == py * 64 + px,
                    ;
                    assert(row_off(py as int, yc as int, wrap) == rr as int);
                    assert(col_off(px as int, xc as int, wrap) == cc as int);
                }
                if bit == 1 {
                    proof {
                        assert(draw_flips(
                            m,
                            ix,
                            xc as int,
                            yc as int,
                            n as int,
                            wrap,
                            p as int,
                        ));
                        assert(!draw_flips_before(
                            m,
                            ix,
                            xc as int,
                            yc as int,
                            n as int,
                            wrap,
                            p as int,
                            rr as int,
                            cc as int,
                        ));
                        assert(self.screen@[p as int] == s.screen[p as int]);
                    }
                    if self.screen[p] {
                        collided = true;
                    }
                    let cur = self.screen[p];
                    self.screen.set(p, !cur);
                }
                proof {
                    assert forall|q: int| 0 <= q < 2048 implies self.screen@[q] == (s.screen[q]
                        != draw_flips_before(
                        m,
                        ix,
                        xc as int,
                        yc as int,
                        n as int,
                        wrap,
                        q,
                        rr as int,
                        cc as int + 1,
                    )) by {
                        if q != p as int {
                            if row_off(q / 64, yc as int, wrap) == rr as int && col_off(
                                q % 64,
                                xc as int,
                                wrap,
                            ) == cc as int {
                                lemma_draw_target_unique(
                                    xc as int,
                                    yc as int,
                                    wrap,
                                    rr as int,
                                    cc as int,
                                    py as int,
                                    px as int,
                                    q,
                                );
                            }
                            assert(draw_flips_before(
                                m,
                                ix,
                                xc as int,
                                yc as int,
                                n as int,
                                wrap,
                                q,
                                rr as int,
                                cc as int + 1,
                            ) == draw_flips_before(
                                m,
                                ix,
                                xc as int,
                                yc as int,
                                n as int,
                                wrap,
                                q,
                                rr as int,
                                cc as int,
                            ));
                        }
                    }
                    assert(collided == exists|q: int|
                        0 <= q < 2048 && s.screen[q] && #[trigger] draw_flips_before(
                            m,
                            ix,
                            xc as int,
                            yc as int,
                            n as int,
                            wrap,
                            q,
                            rr as int,
                            cc as int + 1,
                        )) by {
                        if collided {
                            if exists|q: int|
                                0 <= q < 2048 && s.screen[q] && #[trigger] draw_flips_before(
                                    m,
                                    ix,
                                    xc as int,
                                    yc as int,
                                    n as int,
                                    wrap,
                                    q,
                                    rr as int,
                                    cc as int,
                                ) {
                                let q = choose|q: int|
                                    0 <= q < 2048 && s.screen[q]
                                        && #[trigger] draw_flips_before(
                                        m,
                                        ix,
                                        xc as int,
                                        yc as int,
                                        n as int,
                                        wrap,
                                        q,
                                        rr as int,
                                        cc as int,
                                    );
                                assert(draw_flips_before(
                                    m,
                                    ix,
                                    xc as int,
                                    yc as int,
                                    n as int,
                                    wrap,
                                    q,
                                    rr as int,
                                    cc as int + 1,
                                ));
                            } else {
                                assert(s.screen[p as int] && draw_flips_before(
                                    m,
                                    ix,
                                    xc as int,
                                    yc as int,
                                    n as int,
                                    wrap,
                                    p as int,
                                    rr as int,
                                    cc as int + 1,
                                ));
                            }
                        } else {
                            assert forall|q: int|
                                0 <= q < 2048 && s.screen[q] implies !draw_flips_before(
                                m,
                                ix,
                                xc as int,
                                yc as int,
                                n as int,
                                wrap,
                                q,
                                rr as int,
                                cc as int + 1,
                            ) by {
                                if draw_flips_before(
                                    m,
                                    ix,
                                    xc as int,
                                    yc as int,
                                    n as int,
                                    wrap,
                                    q,
                                    rr as int,
                                    cc as int + 1,
                                ) {
                                    assert(!draw_flips_before(
                                        m,
                                        ix,
                                        xc as int,
                                        yc as int,
                                        n as int,
                                        wrap,
                                        q,
                                        rr as int,
                                        cc as int,
                                    ));
                                    lemma_draw_target_unique(
                                        xc as int,
                                        yc as int,
                                        wrap,
                                        rr as int,
                                        cc as int,
                                        py as int,
                                        px as int,
                                        q,
                                    );
                                    assert(q == p as int);
                                }
                            }
                        }
                    }
                }
                cc = cc + 1;
            }
            proof {
                assert forall|q: int| 0 <= q < 2048 implies draw_flips_before(
                    m,
                    ix,
                    xc as int,
                    yc as int,
                    n as int,
                    wrap,
                    q,
                    rr as int,
                    cols as int,
                ) == draw_flips_before(
                    m,
                    ix,
                    xc as int,
                    yc as int,
                    n as int,
                    wrap,
                    q,
                    rr as int + 1,
                    0,
                ) by {
                    assert(0 <= q % 64 < 64);
                }
            }
            rr = rr + 1;
        }
        proof {
            assert forall|q: int| 0 <= q < 2048 implies draw_flips_before(
                m,
                ix,
                xc as int,
                yc as int,
                n as int,
                wrap,
                q,
                rows as int,
                0,
            ) == draw_flips(m, ix, xc as int, yc as int, n as int, wrap, q) by {
                assert(0 <= q / 64 < 32);
            }
        }
        self.v_register.set(15, if collided { 1 } else { 0 });
        self.draw_flag = true;
        proof {
            assert(self@.screen =~= draw_screen(
                s.screen,
                m,
                ix,
                xc as int,
                yc as int,
                n as int,
                wrap,
            ));
            assert(collided == draw_collision(
                s.screen,
                m,
                ix,
                xc as int,
                yc as int,
                n as int,
                wrap,
            )) by {
                if collided {
                    let q = choose|q: int|
                        0 <= q < 2048 && s.screen[q] && #[trigger] draw_flips_before(
                            m,
                            ix,
                            xc as int,
                            yc as int,
                            n as int,
                            wrap,
                            q,
                            rows as int,
                            0,
                        );
                    assert(draw_flips(m, ix, xc as int, yc as int, n as int, wrap, q));
                } else {
                    if draw_collision(s.screen, m, ix, xc as int, yc as int, n as int, wrap) {
                        let q = choose|q: int|
                            0 <= q < 2048 && s.screen[q] && #[trigger] draw_flips(
                                m,
                                ix,
                                xc as int,
                                yc as int,
                                n as int,
                                wrap,
                                q,
                            );
                        assert(draw_flips_before(
                            m,
                            ix,
                            xc as int,
                            yc as int,
                            n as int,
                            wrap,
                            q,
                            rows as int,
                            0,
                        ));
                    }
                }
            }
            assert(self@ =~= draw_state(s, x as int, y as int, n as int));
        }
        Ok(())
    }

    /// Dispatches one decoded instruction on the post-fetch state
    /// `advanced(pre)`, producing exactly the outcome of
    /// [`step_op`] for some drawn random byte.
    #[verifier::rlimit(100)]
    fn execute(&mut self, op: Opcode, Ghost(pre): Ghost<MachineState>) -> (r: Result<
        (),
        Chip8Error,
    >)
        requires
            old(self).wf(),
            wf_state(pre),
            pre.pc + 2 <= 4096,
            old(self)@ == advanced(pre),
            opcode_wf(op),
        ensures
            final(self).wf(),
            exists|b: u8|
                #[trigger] step_op(pre, op, b) == (Step {
                    state: final(self)@,
                    err: err_of(r),
                }),
    {
        match op {
            Opcode::ClearScreen => {
                self.op_00e0();
                proof {
                    assert(step_op(pre, op, 0) == (Step { state: self@, err: None::<Chip8Error> }));
                }
                Ok(())
            },
            Opcode::Ret => {
                let r = self.op_00ee();
                proof {
                    match r {
                        Ok(()) => {
                            assert(step_op(pre, op, 0) == (Step {
                                state: self@,
                                err: None::<Chip8Error>,
                            }));
                        },
                        Err(e) => {
                            assert(self@ =~= (MachineState { draw: false, ..pre }));
                            assert(step_op(pre, op, 0) == (Step { state: self@, err: Some(e) }));
                        },
                    }
                }
                r
            },
            Opcode::Jump { nnn } => {
                self.op_1nnn(nnn);
                proof {
                    assert(step_op(pre, op, 0) == (Step { state: self@, err: None::<Chip8Error> }));
                }
                Ok(())
            },
            Opcode::Call { nnn } => {
                let r = self.op_2nnn(nnn);
                proof {
                    match r {
                        Ok(()) => {
                            assert(step_op(pre, op, 0) == (Step {
                                state: self@,
                                err: None::<Chip8Error>,
                            }));
                        },
                        Err(e) => {
                            assert(self@ =~= (MachineState { draw: false, ..pre }));
                            assert(step_op(pre, op, 0) == (Step { state: self@, err: Some(e) }));
                        },
                    }
                }
                r
            },
            Opcode::SkipEqImm { x, nn } => {
                self.op_3xnn(x, nn);
                proof {
                    assert(step_op(pre, op, 0) == (Step { state: self@, err: None::<Chip8Error> }));
                }
                Ok(())
            },
            Opcode::SkipNeImm { x, nn } => {
                self.op_4xnn(x, nn);
                proof {
                    assert(step_op(pre, op, 0) == (Step { state: self@, err: None::<Chip8Error> }));
                }
                Ok(())
            },
            Opcode::SkipEqReg { x, y } => {
                self.op_5xy0(x, y);
                proof {
                    assert(step_op(pre, op, 0) == (Step { state: self@, err: None::<Chip8Error> }));
                }
                Ok(())
            },
            Opcode::SetImm { x, nn } => {
                self.op_6xnn(x, nn);
                proof {
                    assert(step_op(pre, op, 0) == (Step { state: self@, err: None::<Chip8Error> }));
                }
                Ok(())
            },
            Opcode::AddImm { x, nn } => {
                self.op_7xnn(x, nn);
                proof {
                    assert(step_op(pre, op, 0) == (Step { state: self@, err: None::<Chip8Error> }));
                }
                Ok(())
            },
            Opcode::Copy { x, y } => {
                self.op_8xy0(x, y);
                proof {
                    assert(step_op(pre, op, 0) == (Step { state: self@, err: None::<Chip8Error> }));
                }
                Ok(())
            },
            Opcode::Or { x, y } => {
                self.op_8xy1(x, y);
                proof {
                    assert(step_op(pre, op, 0) == (Step { state: self@, err: None::<Chip8Error> }));
                }
                Ok(())
            },
            Opcode::And { x, y } => {
                self.op_8xy2(x, y);
                proof {
                    assert(step_op(pre, op, 0) == (Step { state: self@, err: None::<Chip8Error> }));
                }
                Ok(())
            },
            Opcode::Xor { x, y } => {
                self.op_8xy3(x, y);
                proof {
                    assert(step_op(pre, op, 0) == (Step { state: self@, err: None::<Chip8Error> }));
                }
                Ok(())
            },
            Opcode::AddReg { x, y } => {
                self.op_8xy4(x, y);
                proof {
                    assert(step_op(pre, op, 0) == (Step { state: self@, err: None::<Chip8Error> }));
                }
                Ok(())
            },
            Opcode::SubReg { x, y } => {
                self.op_8xy5(x, y);
                proof {
                    assert(step_op(pre, op, 0) == (Step { state: self@, err: None::<Chip8Error> }));
                }
                Ok(())
            },
            Opcode::ShiftRight { x, y } => {
                self.op_8xy6(x, y);
                proof {
                    assert(step_op(pre, op, 0) == (Step { state: self@, err: None::<Chip8Error> }));
                }
                Ok(())
            },
            Opcode::SubFrom { x, y } => {
                self.op_8xy7(x, y);
                proof {
                    assert(step_op(pre, op, 0) == (Step { state: self@, err: None::<Chip8Error> }));
                }
                Ok(())
            },
            Opcode::ShiftLeft { x, y } => {
                self.op_8xye(x, y);
                proof {
                    assert(step_op(pre, op, 0) == (Step { state: self@, err: None::<Chip8Error> }));
                }
                Ok(())
            },
            Opcode::SkipNeReg { x, y } => {
                self.op_9xy0(x, y);
                proof {
                    assert(step_op(pre, op, 0) == (Step { state: self@, err: None::<Chip8Error> }));
                }
                Ok(())
            },
            Opcode::SetIndex { nnn } => {
                self.op_annn(nnn);
                proof {
                    assert(step_op(pre, op, 0) == (Step { state: self@, err: None::<Chip8Error> }));
                }
                Ok(())
            },
            Opcode::JumpOffset { x, nnn } => {
                self.op_bnnn(x, nnn);
                proof {
                    assert(step_op(pre, op, 0) == (Step { state: self@, err: None::<Chip8Error> }));
                }
                Ok(())
            },
            Opcode::Random { x, nn } => {
                let b = random_byte();
                self.op_cxnn(x, nn, b);
                proof {
                    assert(step_op(pre, op, b) == (Step { state: self@, err: None::<Chip8Error> }));
                }
                Ok(())
            },
            Opcode::Draw { x, y, n } => {
                let r = self.op_dxyn(x, y, n);
                proof {
                    match r {
                        Ok(()) => {
                            assert(step_op(pre, op, 0) == (Step {
                                state: self@,
                                err: None::<Chip8Error>,
                            }));
                        },
                        Err(e) => {
                            assert(self@ =~= (MachineState { draw: false, ..pre }));
                            assert(step_op(pre, op, 0) == (Step { state: self@, err: Some(e) }));
                        },
                    }
                }
                r
            },
            Opcode::SkipKey { x } => {
                self.op_ex9e(x);
                proof {
                    assert(step_op(pre, op, 0) == (Step { state: self@, err: None::<Chip8Error> }));
                }
                Ok(())
            },
            Opcode::SkipNoKey { x } => {
                self.op_exa1(x);
                proof {
                    assert(step_op(pre, op, 0) == (Step { state: self@, err: None::<Chip8Error> }));
                }
                Ok(())
            },
            Opcode::ReadDelay { x } => {
                self.op_fx07(x);
                proof {
                    assert(step_op(pre, op, 0) == (Step { state: self@, err: None::<Chip8Error> }));
                }
                Ok(())
            },
            Opcode::WaitKey { x } => {
                self.op_fx0a(x);
                proof {
                    assert(step_op(pre, op, 0) == (Step { state: self@, err: None::<Chip8Error> }));
                }
                Ok(())
            },
            Opcode::SetDelay { x } => {
                self.op_fx15(x);
                proof {
                    assert(step_op(pre, op, 0) == (Step { state: self@, err: None::<Chip8Error> }));
                }
                Ok(())
            },
            Opcode::SetSound { x } => {
                self.op_fx18(x);
                proof {
                    assert(step_op(pre, op, 0) == (Step { state: self@, err: None::<Chip8Error> }));
                }
                Ok(())
            },
            Opcode::AddIndex { x } => {
                self.op_fx1e(x);
                proof {
                    assert(step_op(pre, op, 0) == (Step { state: self@, err: None::<Chip8Error> }));
                }
                Ok(())
            },
            Opcode::FontChar { x } => {
                self.op_fx29(x);
                proof {
                    assert(step_op(pre, op, 0) == (Step { state: self@, err: None::<Chip8Error> }));
                }
                Ok(())
            },
            Opcode::Bcd { x } => {
                let r = self.op_fx33(x);
                proof {
                    match r {
                        Ok(()) => {
                            assert(step_op(pre, op, 0) == (Step {
                                state: self@,
                                err: None::<Chip8Error>,
                            }));
                        },
                        Err(e) => {
                            assert(self@ =~= (MachineState { draw: false, ..pre }));
                            assert(step_op(pre, op, 0) == (Step { state: self@, err: Some(e) }));
                        },
                    }
                }
                r
            },
            Opcode::StoreRegs { x } => {
                let r = self.op_fx55(x);
                proof {
                    match r {
                        Ok(()) => {
                            assert(step_op(pre, op, 0) == (Step {
                                state: self@,
                                err: None::<Chip8Error>,
                            }));
                        },
                        Err(e) => {
                            assert(self@ =~= (MachineState { draw: false, ..pre }));
                            assert(step_op(pre, op, 0) == (Step { state: self@, err: Some(e) }));
                        },
                    }
                }
                r
            },
            Opcode::LoadRegs { x } => {
                let r = self.op_fx65(x);
                proof {
                    match r {
                        Ok(()) => {
                            assert(step_op(pre, op, 0) == (Step {
                                state: self@,
                                err: None::<Chip8Error>,
                            }));
                        },
                        Err(e) => {
                            assert(self@ =~= (MachineState { draw: false, ..pre }));
                            assert(step_op(pre, op, 0) == (Step { state: self@, err: Some(e) }));
                        },
                    }
                }
                r
            },
            Opcode::Unknown { word } => {
                proof {
                    assert(step_op(pre, op, 0) == (Step { state: self@, err: None::<Chip8Error> }));
                }
                Ok(())
            },
        }
    }

    /// Runs one fetch-decode-execute cycle.
    ///
    /// The outcome is exactly [`step`] of the starting state, for some
    /// drawn random byte: a refused cycle reports its error and leaves the
    /// machine unchanged apart from lowering the redraw signal.
    pub fn tick(&mut self) -> (r: Result<(), Chip8Error>)
        requires
            old(self).wf(),
        ensures
            final(self).wf(),
            exists|b: u8|
                #[trigger] step(old(self)@, b) == (Step { state: final(self)@, err: err_of(r) }),
    {
        let ghost pre = self@;
        self.draw_flag = false;
        if self.pc >= 4095 {
            proof {
                assert(self@ =~= (MachineState { draw: false, ..pre }));
                assert(step(pre, 0) == (Step {
                    state: self@,
                    err: Some(Chip8Error::AddressOverflow),
                }));
            }
            return Err(Chip8Error::AddressOverflow);
        }
        self.fetch();
        let op = decode(self.opcode);
        proof {
            assert(wf_state(pre));
            assert(self@ =~= advanced(pre));
            assert(fetched_word(MachineState { draw: false, ..pre }) == fetched_word(pre));
            assert(op == decode_spec(fetched_word(pre)));
        }
        let r = self.execute(op, Ghost(pre));
        proof {
            let b = choose|b: u8|
                #[trigger] step_op(pre, op, b) == (Step { state: self@, err: err_of(r) });
            assert(step(pre, b) == (Step { state: self@, err: err_of(r) }));
        }
        r
    }
}

} // verus!
