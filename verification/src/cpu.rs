//! Register file, call stack, and the instruction interpreter.

use vstd::prelude::*;

verus! {

use crate::DISPLAY_HEIGHT;
use crate::DISPLAY_WIDTH;
use crate::RAM_SIZE;
use crate::keyboard::Keyboard;
use crate::keyboard::KEY_COUNT;
use crate::keyboard::any_key_pressed;
use crate::keyboard::first_key;
use crate::keyboard::first_key_from;
use crate::keyboard::lemma_first_key;
use crate::memory::Display;
use crate::memory::Memory;
use crate::memory::PROGRAM_START_ADDRESS;
use crate::memory::cell_index;

/// Capacity of the call stack: the deepest allowed subroutine nesting.
pub const STACK_SIZE: usize = 16;

/// Number of bytes one instruction occupies.
pub const OPCODE_SIZE: usize = 2;

/// Number of general-purpose registers.
pub const REGISTER_COUNT: usize = 16;

/// Bounded LIFO of saved return addresses. Pushing a seventeenth entry or
/// popping from an empty stack is a program-integrity violation that has
/// no defined continuation, so both are ruled out by precondition.
pub struct Stack {
    pub stack: Vec<u16>,
    pub stack_pointer: usize,
}

impl Stack {
    /// The slot vector has full capacity and the pointer stays within it.
    pub open spec fn wf(&self) -> bool {
        &&& self.stack@.len() == STACK_SIZE
        &&& self.stack_pointer <= STACK_SIZE
    }

    pub fn new() -> (r: Stack)
        ensures
            r.wf(),
            r.stack_pointer == 0,
            forall|i: int| 0 <= i < STACK_SIZE ==> r.stack@[i] == 0,
    {
        let mut slots: Vec<u16> = Vec::new();
        let mut i: usize = 0;
        while i < STACK_SIZE
            invariant
                i <= STACK_SIZE,
                slots@.len() == i,
                forall|j: int| 0 <= j < i ==> slots@[j] == 0,
            decreases STACK_SIZE - i,
        {
            slots.push(0);
            i += 1;
        }
        Stack { stack: slots, stack_pointer: 0 }
    }

    /// Append a return address.
    pub fn push(&mut self, address: u16)
        requires
            old(self).wf(),
            old(self).stack_pointer < STACK_SIZE,
        ensures
            final(self).wf(),
            final(self).stack@ == old(self).stack@.update(
                old(self).stack_pointer as int,
                address,
            ),
            final(self).stack_pointer == old(self).stack_pointer + 1,
    {
        self.stack.set(self.stack_pointer, address);
        self.stack_pointer = self.stack_pointer + 1;
    }

    /// Read the slot just above the most recently pushed address.
    pub fn top(&self) -> (address: u16)
        requires
            self.wf(),
            self.stack_pointer < STACK_SIZE,
        ensures
            address == self.stack@[self.stack_pointer as int],
    {
        self.stack[self.stack_pointer]
    }

    /// Remove and return the most recently pushed address.
    pub fn pop(&mut self) -> (address: u16)
        requires
            old(self).wf(),
            old(self).stack_pointer > 0,
        ensures
            final(self).wf(),
            final(self).stack@ == old(self).stack@,
            final(self).stack_pointer == old(self).stack_pointer - 1,
            address == old(self).stack@[old(self).stack_pointer - 1],
    {
        self.stack_pointer = self.stack_pointer - 1;
        let address = self.top();
        address
    }
}

/// What the interpreter does to the program counter after one
/// instruction: advance past it, skip one more, or go to an address.
pub enum ProgramCounter {
    NEXT,
    SKIP,
    JUMP(u16),
}

impl ProgramCounter {
    pub fn skip_if(condition: bool) -> (r: ProgramCounter)
        ensures
            r == if condition {
                ProgramCounter::SKIP
            } else {
                ProgramCounter::NEXT
            },
    {
        match condition {
            true => ProgramCounter::SKIP,
            false => ProgramCounter::NEXT,
        }
    }
}

/// High nibble of an opcode: the operation family.
pub open spec fn op_family(op: u16) -> u16 {
    op / 0x1000
}

/// Second nibble: index of the register Vx.
pub open spec fn op_x(op: u16) -> int {
    ((op / 0x100) % 0x10) as int
}

/// Third nibble: index of the register Vy.
pub open spec fn op_y(op: u16) -> int {
    ((op / 0x10) % 0x10) as int
}

/// Lowest nibble: a 4-bit immediate.
pub open spec fn op_n(op: u16) -> int {
    (op % 0x10) as int
}

/// Lowest 12 bits: an absolute address.
pub open spec fn op_nnn(op: u16) -> u16 {
    op % 0x1000
}

/// Lowest byte: an 8-bit immediate.
pub open spec fn op_kk(op: u16) -> u8 {
    (op % 0x100) as u8
}

/// The 16-bit opcode held big-endian at address `pc` of the bank.
pub open spec fn fetched(m: Memory, pc: int) -> u16 {
    (m.memory@[pc] * 256 + m.memory@[pc + 1]) as u16
}

/// Bit `j` of a sprite byte, counting bit 0 as the most significant:
/// the bit that lands furthest left when the byte is drawn.
pub open spec fn sprite_pixel(byte: u8, j: int) -> u8 {
    (byte >> ((7 - j) as u8)) & 1
}

/// Column at which bit `j` of a sprite row lands when drawn at
/// horizontal position `vx`, wrapping around the display width.
pub open spec fn draw_col(vx: u8, j: int) -> int {
    (vx + j) % (DISPLAY_WIDTH as int)
}

/// Row at which byte `b` of a sprite lands when drawn at vertical
/// position `vy`, wrapping around the display height.
pub open spec fn draw_row(vy: u8, b: int) -> int {
    (vy + b) % (DISPLAY_HEIGHT as int)
}

/// The display cell on which bit `j` of sprite byte `b` lands.
pub open spec fn draw_target(vx: u8, vy: u8, b: int, j: int) -> int {
    cell_index(draw_col(vx, j), draw_row(vy, b))
}

/// Whether drawing an `n`-byte sprite at (`vx`, `vy`) touches cell `c`.
pub open spec fn sprite_covers(vx: u8, vy: u8, n: int, c: int) -> bool {
    exists|b: int, j: int|
        0 <= b < n && 0 <= j < 8 && c == draw_target(vx, vy, b, j)
}

/// Whether the first `jmax` bits of sprite byte `b` touch cell `c`.
spec fn row_covers(vx: u8, vy: u8, b: int, jmax: int, c: int) -> bool {
    exists|j: int| 0 <= j < jmax && c == draw_target(vx, vy, b, j)
}

/// Whether drawing the `n`-byte sprite held at bank address `i` at
/// (`vx`, `vy`) puts a set sprite bit on an already-set cell of `d`.
pub open spec fn draw_collision(
    d: Seq<u8>,
    m: Seq<u8>,
    i: int,
    vx: u8,
    vy: u8,
    n: int,
) -> bool {
    exists|b: int, j: int|
        0 <= b < n && 0 <= j < 8 && sprite_pixel(m[i + b], j) == 1
            && d[draw_target(vx, vy, b, j)] == 1
}

/// Whether one of the first `jmax` bits of sprite byte `b` is set and
/// lands on an already-set cell of `d`.
spec fn row_collision(
    d: Seq<u8>,
    m: Seq<u8>,
    i: int,
    vx: u8,
    vy: u8,
    b: int,
    jmax: int,
) -> bool {
    exists|j: int|
        0 <= j < jmax && sprite_pixel(m[i + b], j) == 1
            && d[draw_target(vx, vy, b, j)] == 1
}

/// What must hold of the machine before the instruction `op` may
/// execute, given the program counter, the stack depth, the index
/// register and the register file: the program counter stays within the
/// 16-bit instruction space, and the few operations that walk the call
/// stack, the memory bank or the keypad stay within their bounds. A
/// program that breaks one of these has no defined continuation.
pub open spec fn step_pre_parts(
    op: u16,
    pc: int,
    sp: int,
    i: int,
    regs: Seq<u8>,
) -> bool {
    let f = op_family(op) as int;
    let x = op_x(op);
    let y = op_y(op);
    let n = op_n(op);
    &&& pc + 4 < 0x10000
    &&& (f == 0 && x == 0 && y == 0xE && n == 0xE ==> sp > 0)
    &&& (f == 2 ==> sp < STACK_SIZE)
    &&& (f == 0xD ==> (n > 0 ==> i + n <= RAM_SIZE))
    &&& (f == 0xE && ((y == 0x9 && n == 0xE) || (y == 0xA && n == 0x1))
        ==> regs[x] < KEY_COUNT)
    &&& (f == 0xF && y == 0x3 && n == 0x3 ==> i + 3 <= RAM_SIZE)
    &&& (f == 0xF && ((y == 0x5 && n == 0x5) || (y == 0x6 && n == 0x5))
        ==> i + x + 1 <= RAM_SIZE)
}

/// `step_pre_parts` read off a machine state and its fetched opcode.
pub open spec fn step_pre(s: Cpu, m: Memory) -> bool {
    step_pre_parts(
        s.opcode,
        s.pc as int,
        s.stack.stack_pointer as int,
        s.i_register as int,
        s.v_registers@,
    )
}

/// The instruction changed nothing but the program counter, now `pc1`.
/// (The beeping latch is left unconstrained: no instruction touches it.)
pub open spec fn pc_step(s0: Cpu, s1: Cpu, pc1: int) -> bool {
    s1 == (Cpu { pc: pc1 as usize, beeping: s1.beeping, ..s0 })
}

/// The instruction rewrote the register file to `r1` and set the
/// program counter to `pc1`; everything else is as before.
pub open spec fn regs_step(s0: Cpu, s1: Cpu, pc1: int, r1: Seq<u8>) -> bool {
    &&& s1 == (Cpu {
        pc: pc1 as usize,
        v_registers: s1.v_registers,
        beeping: s1.beeping,
        ..s0
    })
    &&& s1.v_registers@ == r1
}

/// How one executed instruction relates the machine state after it
/// (`s1`, `m1`) to the state before it (`s0`, holding the fetched
/// opcode, and `m0`), against the keypad snapshot `k`. One case per
/// operation of the instruction set, dispatched on the opcode nibbles
/// with the most specific patterns first; anything unmatched is a
/// defined no-op that advances past the instruction.
pub open spec fn step_rel(s0: Cpu, m0: Memory, k: Seq<u8>, s1: Cpu, m1: Memory) -> bool {
    let op = s0.opcode;
    let f = op_family(op) as int;
    let x = op_x(op);
    let y = op_y(op);
    let n = op_n(op);
    let nnn = op_nnn(op);
    let kk = op_kk(op);
    let vx = s0.v_registers@[x];
    let vy = s0.v_registers@[y];
    let i = s0.i_register as int;
    let sp = s0.stack.stack_pointer as int;
    let next = s0.pc + 2;
    let skip = s0.pc + 4;
    if f == 0 && x == 0 && y == 0xE && n == 0 {
        // 00E0: clear the display buffer
        &&& pc_step(s0, s1, next)
        &&& m1.memory@ == m0.memory@
        &&& m1.display.display@.len() == m0.display.display@.len()
        &&& forall|c: int|
            0 <= c < m1.display.display@.len() ==> m1.display.display@[c] == 0
    } else if f == 0 && x == 0 && y == 0xE && n == 0xE {
        // 00EE: pop the call stack into the program counter
        &&& s1 == (Cpu {
            pc: s0.stack.stack@[sp - 1] as usize,
            stack: s1.stack,
            beeping: s1.beeping,
            ..s0
        })
        &&& s1.stack.stack@ == s0.stack.stack@
        &&& s1.stack.stack_pointer == sp - 1
        &&& m1 == m0
    } else if f == 1 {
        // 1nnn: jump
        &&& pc_step(s0, s1, nnn as int)
        &&& m1 == m0
    } else if f == 2 {
        // 2nnn: push the return address, then jump
        &&& s1 == (Cpu {
            pc: nnn as usize,
            stack: s1.stack,
            beeping: s1.beeping,
            ..s0
        })
        &&& s1.stack.stack@ == s0.stack.stack@.update(sp, (s0.pc + 2) as u16)
        &&& s1.stack.stack_pointer == sp + 1
        &&& m1 == m0
    } else if f == 3 {
        // 3xkk: skip if Vx = kk
        &&& pc_step(s0, s1, if vx == kk { skip } else { next })
        &&& m1 == m0
    } else if f == 4 {
        // 4xkk: skip if Vx != kk
        &&& pc_step(s0, s1, if vx != kk { skip } else { next })
        &&& m1 == m0
    } else if f == 5 && n == 0 {
        // 5xy0: skip if Vx = Vy
        &&& pc_step(s0, s1, if vx == vy { skip } else { next })
        &&& m1 == m0
    } else if f == 6 {
        // 6xkk: Vx = kk
        &&& regs_step(s0, s1, next, s0.v_registers@.update(x, kk))
        &&& m1 == m0
    } else if f == 7 {
        // 7xkk: Vx = Vx + kk, wrapping, no flag
        &&& regs_step(s0, s1, next, s0.v_registers@.update(x, ((vx + kk) % 256) as u8))
        &&& m1 == m0
    } else if f == 8 && n == 0 {
        // 8xy0: Vx = Vy
        &&& regs_step(s0, s1, next, s0.v_registers@.update(x, vy))
        &&& m1 == m0
    } else if f == 8 && n == 1 {
        // 8xy1: Vx = Vx OR Vy
        &&& regs_step(s0, s1, next, s0.v_registers@.update(x, vx | vy))
        &&& m1 == m0
    } else if f == 8 && n == 2 {
        // 8xy2: Vx = Vx AND Vy
        &&& regs_step(s0, s1, next, s0.v_registers@.update(x, vx & vy))
        &&& m1 == m0
    } else if f == 8 && n == 3 {
        // 8xy3: Vx = Vx XOR Vy
        &&& regs_step(s0, s1, next, s0.v_registers@.update(x, vx ^ vy))
        &&& m1 == m0
    } else if f == 8 && n == 4 {
        // 8xy4: Vx = Vx + Vy truncated, VF = carry
        &&& regs_step(
            s0,
            s1,
            next,
            s0.v_registers@.update(
                0xF,
                if vx + vy > 255 { 1u8 } else { 0u8 },
            ).update(x, ((vx + vy) % 256) as u8),
        )
        &&& m1 == m0
    } else if f == 8 && n == 5 {
        // 8xy5: Vx = Vx - Vy wrapping, VF = no borrow
        &&& regs_step(
            s0,
            s1,
            next,
            s0.v_registers@.update(
                0xF,
                if vx > vy { 1u8 } else { 0u8 },
            ).update(x, ((vx - vy) % 256) as u8),
        )
        &&& m1 == m0
    } else if f == 8 && n == 6 {
        // 8xy6: VF = lowest bit of Vx, then Vx = Vx / 2
        &&& regs_step(
            s0,
            s1,
            next,
            s0.v_registers@.update(0xF, vx % 2).update(x, vx / 2),
        )
        &&& m1 == m0
    } else if f == 8 && n == 7 {
        // 8xy7: Vx = Vy - Vx wrapping, VF = no borrow
        &&& regs_step(
            s0,
            s1,
            next,
            s0.v_registers@.update(
                0xF,
                if vy > vx { 1u8 } else { 0u8 },
            ).update(x, ((vy - vx) % 256) as u8),
        )
        &&& m1 == m0
    } else if f == 8 && n == 0xE {
        // 8xyE: VF = highest bit of Vx, then Vx = 2 * Vx truncated
        &&& regs_step(
            s0,
            s1,
            next,
            s0.v_registers@.update(0xF, vx / 128).update(
                x,
                ((vx * 2) % 256) as u8,
            ),
        )
        &&& m1 == m0
    } else if f == 9 && n == 0 {
        // 9xy0: skip if Vx != Vy
        &&& pc_step(s0, s1, if vx != vy { skip } else { next })
        &&& m1 == m0
    } else if f == 0xA {
        // Annn: I = nnn
        &&& s1 == (Cpu { pc: next as usize, i_register: nnn, beeping: s1.beeping, ..s0 })
        &&& m1 == m0
    } else if f == 0xB {
        // Bnnn: jump to nnn + V0
        &&& pc_step(s0, s1, nnn + s0.v_registers@[0])
        &&& m1 == m0
    } else if f == 0xC {
        // Cxkk: Vx = a random byte masked by kk
        &&& exists|rb: u8|
            rb < 255 && regs_step(s0, s1, next, s0.v_registers@.update(x, rb & kk))
        &&& m1 == m0
    } else if f == 0xD {
        // Dxyn: draw an n-byte sprite at (Vx, Vy), VF = collision
        &&& regs_step(
            s0,
            s1,
            next,
            s0.v_registers@.update(
                0xF,
                if draw_collision(m0.display.display@, m0.memory@, i, vx, vy, n) {
                    1u8
                } else {
                    0u8
                },
            ),
        )
        &&& m1.memory@ == m0.memory@
        &&& m1.display.display@.len() == m0.display.display@.len()
        &&& forall|b: int, j: int|
            0 <= b < n && 0 <= j < 8
                ==> m1.display.display@[#[trigger] draw_target(vx, vy, b, j)]
                    == m0.display.display@[draw_target(vx, vy, b, j)]
                        ^ sprite_pixel(m0.memory@[i + b], j)
        &&& forall|c: int|
            0 <= c < m0.display.display@.len() && !sprite_covers(vx, vy, n, c)
                ==> m1.display.display@[c] == m0.display.display@[c]
    } else if f == 0xE && y == 0x9 && n == 0xE {
        // Ex9E: skip if the key numbered Vx is down
        &&& pc_step(s0, s1, if k[vx as int] == 1 { skip } else { next })
        &&& m1 == m0
    } else if f == 0xE && y == 0xA && n == 0x1 {
        // ExA1: skip if the key numbered Vx is up
        &&& pc_step(s0, s1, if k[vx as int] == 0 { skip } else { next })
        &&& m1 == m0
    } else if f == 0xF && y == 0x0 && n == 0x7 {
        // Fx07: Vx = DT
        &&& regs_step(s0, s1, next, s0.v_registers@.update(x, s0.delay_timer_register))
        &&& m1 == m0
    } else if f == 0xF && y == 0x0 && n == 0xA {
        // Fx0A: latch register x and await a key press
        &&& s1 == (Cpu {
            pc: next as usize,
            waiting_for_input: true,
            input_register: x as usize,
            beeping: s1.beeping,
            ..s0
        })
        &&& m1 == m0
    } else if f == 0xF && y == 0x1 && n == 0x5 {
        // Fx15: DT = Vx
        &&& s1 == (Cpu {
            pc: next as usize,
            delay_timer_register: vx,
            beeping: s1.beeping,
            ..s0
        })
        &&& m1 == m0
    } else if f == 0xF && y == 0x1 && n == 0x8 {
        // Fx18: ST = Vx
        &&& s1 == (Cpu {
            pc: next as usize,
            sound_timer_register: vx,
            beeping: s1.beeping,
            ..s0
        })
        &&& m1 == m0
    } else if f == 0xF && y == 0x1 && n == 0xE {
        // Fx1E: I = I + Vx, 16-bit wraparound, no flag
        &&& s1 == (Cpu {
            pc: next as usize,
            i_register: ((s0.i_register + vx) % 0x10000) as u16,
            beeping: s1.beeping,
            ..s0
        })
        &&& m1 == m0
    } else if f == 0xF && y == 0x2 && n == 0x9 {
        // Fx29: I = the font glyph address for digit Vx
        &&& s1 == (Cpu {
            pc: next as usize,
            i_register: (vx * 5) as u16,
            beeping: s1.beeping,
            ..s0
        })
        &&& m1 == m0
    } else if f == 0xF && y == 0x3 && n == 0x3 {
        // Fx33: the three decimal digits of Vx go to I, I+1, I+2
        &&& pc_step(s0, s1, next)
        &&& m1.memory@ == m0.memory@.update(i, vx / 100).update(
            i + 1,
            (vx % 100) / 10,
        ).update(i + 2, vx % 10)
        &&& m1.display == m0.display
    } else if f == 0xF && y == 0x5 && n == 0x5 {
        // Fx55: V0 through Vx go to the bank starting at I
        &&& pc_step(s0, s1, next)
        &&& m1.memory@.len() == m0.memory@.len()
        &&& forall|j: int| 0 <= j <= x ==> m1.memory@[i + j] == s0.v_registers@[j]
        &&& forall|j: int|
            0 <= j < m0.memory@.len() && !(i <= j <= i + x)
                ==> m1.memory@[j] == m0.memory@[j]
        &&& m1.display == m0.display
    } else if f == 0xF && y == 0x6 && n == 0x5 {
        // Fx65: the bank starting at I goes to V0 through Vx
        &&& regs_step(
            s0,
            s1,
            next,
            Seq::new(
                16,
                |j: int|
                    if 0 <= j <= x {
                        m0.memory@[i + j]
                    } else {
                        s0.v_registers@[j]
                    },
            ),
        )
        &&& m1 == m0
    } else {
        // unknown opcodes are defined no-ops
        &&& pc_step(s0, s1, next)
        &&& m1 == m0
    }
}

/// The state in which the instruction fetched at the program counter
/// will execute: a pending key press is latched into the target
/// register first, which also leaves the waiting state.
pub open spec fn latched(s0: Cpu, m0: Memory, k: Seq<u8>, mid: Cpu) -> bool {
    if s0.waiting_for_input {
        &&& mid == (Cpu {
            waiting_for_input: false,
            v_registers: mid.v_registers,
            opcode: fetched(m0, s0.pc as int),
            ..s0
        })
        &&& mid.v_registers@ == s0.v_registers@.update(
            s0.input_register as int,
            first_key(k) as u8,
        )
    } else {
        mid == (Cpu { opcode: fetched(m0, s0.pc as int), ..s0 })
    }
}

/// When a cycle may run: if the interpreter will fetch and execute (it
/// is not blocked waiting on a key), the program counter must point at
/// an instruction inside the bank, and that instruction must meet its
/// own precondition, taken on the register file as it stands after a
/// pending key press is latched.
pub open spec fn cycle_pre(s: Cpu, m: Memory, k: Seq<u8>) -> bool {
    if s.waiting_for_input && !any_key_pressed(k) {
        true
    } else {
        let regs = if s.waiting_for_input {
            s.v_registers@.update(s.input_register as int, first_key(k) as u8)
        } else {
            s.v_registers@
        };
        &&& s.pc + 1 < RAM_SIZE
        &&& step_pre_parts(
            fetched(m, s.pc as int),
            s.pc as int,
            s.stack.stack_pointer as int,
            s.i_register as int,
            regs,
        )
    }
}

/// How one cycle relates the state after it to the state before it. A
/// blocked interpreter with no key down does nothing at all. Otherwise
/// a pending key press is latched, the instruction at the program
/// counter is fetched and executed, and the beeping flag is refreshed
/// from the sound timer.
pub open spec fn cycle_rel(s0: Cpu, m0: Memory, k: Seq<u8>, s1: Cpu, m1: Memory) -> bool {
    if s0.waiting_for_input && !any_key_pressed(k) {
        &&& s1 == s0
        &&& m1 == m0
    } else {
        &&& exists|mid: Cpu|
            #[trigger] latched(s0, m0, k, mid) && step_rel(mid, m0, k, s1, m1)
        &&& s1.beeping == (s1.sound_timer_register > 0)
    }
}

/// Adding a positive offset smaller than the modulus moves a residue.
proof fn lemma_mod_shift_distinct(a: int, d: int, h: int)
    requires
        0 <= a,
        0 < d < h,
    ensures
        (a + d) % h != a % h,
{
    broadcast use vstd::arithmetic::div_mod::group_mod_properties;

    vstd::arithmetic::div_mod::lemma_add_mod_noop(a, d, h);
    vstd::arithmetic::div_mod::lemma_small_mod(d as nat, h as nat);
    let m = a % h;
    if m + d < h {
        vstd::arithmetic::div_mod::lemma_small_mod((m + d) as nat, h as nat);
    } else {
        vstd::arithmetic::div_mod::lemma_mod_multiples_vanish(1, m + d - h, h);
        vstd::arithmetic::div_mod::lemma_small_mod((m + d - h) as nat, h as nat);
    }
}

/// Distinct sprite bits land on distinct display cells, as long as the
/// sprite is at most as tall as the display and as narrow as one byte.
proof fn lemma_draw_target_injective(
    vx: u8,
    vy: u8,
    b1: int,
    j1: int,
    b2: int,
    j2: int,
)
    requires
        0 <= b1 < DISPLAY_HEIGHT,
        0 <= b2 < DISPLAY_HEIGHT,
        0 <= j1 < 8,
        0 <= j2 < 8,
        b1 != b2 || j1 != j2,
    ensures
        draw_target(vx, vy, b1, j1) != draw_target(vx, vy, b2, j2),
{
    broadcast use vstd::arithmetic::div_mod::group_mod_properties;

    let w = DISPLAY_WIDTH as int;
    let h = DISPLAY_HEIGHT as int;
    if b1 != b2 {
        if b1 < b2 {
            lemma_mod_shift_distinct(vy + b1, b2 - b1, h);
        } else {
            lemma_mod_shift_distinct(vy + b2, b1 - b2, h);
        }
        assert(draw_row(vy, b1) != draw_row(vy, b2));
    } else {
        if j1 < j2 {
            lemma_mod_shift_distinct(vx + j1, j2 - j1, w);
        } else {
            lemma_mod_shift_distinct(vx + j2, j1 - j2, w);
        }
        assert(draw_col(vx, j1) != draw_col(vx, j2));
    }
}

/// The register file, timers, program counter, call stack and the
/// transient waiting-for-key latch: everything the interpreter mutates
/// besides the memory bank.
pub struct Cpu {
    pub v_registers: Vec<u8>,
    pub i_register: u16,
    pub delay_timer_register: u8,
    pub sound_timer_register: u8,
    pub pc: usize,
    pub stack: Stack,
    pub opcode: u16,
    pub waiting_for_input: bool,
    pub input_register: usize,
    pub beeping: bool,
}

impl Cpu {
    /// Every register exists, the call stack is well formed, and the
    /// latched target register is a valid register index.
    pub open spec fn wf(&self) -> bool {
        &&& self.v_registers@.len() == REGISTER_COUNT
        &&& self.stack.wf()
        &&& self.input_register < REGISTER_COUNT
    }

    pub fn new() -> (r: Cpu)
        ensures
            r.wf(),
            r.pc == PROGRAM_START_ADDRESS,
            r.i_register == 0,
            r.delay_timer_register == 0,
            r.sound_timer_register == 0,
            r.opcode == 0,
            !r.waiting_for_input,
            r.input_register == 0,
            !r.beeping,
            r.stack.stack_pointer == 0,
            forall|i: int| 0 <= i < STACK_SIZE ==> r.stack.stack@[i] == 0,
            forall|i: int| 0 <= i < REGISTER_COUNT ==> r.v_registers@[i] == 0,
    {
        let mut regs: Vec<u8> = Vec::new();
        let mut i: usize = 0;
        while i < REGISTER_COUNT
            invariant
                i <= REGISTER_COUNT,
                regs@.len() == i,
                forall|j: int| 0 <= j < i ==> regs@[j] == 0,
            decreases REGISTER_COUNT - i,
        {
            regs.push(0);
            i += 1;
        }
        Cpu {
            v_registers: regs,
            i_register: 0,
            delay_timer_register: 0,
            sound_timer_register: 0,
            pc: PROGRAM_START_ADDRESS,
            stack: Stack::new(),
            opcode: 0,
            waiting_for_input: false,
            input_register: 0,
            beeping: false,
        }
    }

    /// Read the two bytes at the program counter, big-endian-combined,
    /// and remember them as the current opcode.
    pub fn fetch_opcode(&mut self, memory: &Memory) -> (r: u16)
        requires
            old(self).wf(),
            memory.wf(),
            old(self).pc + 1 < RAM_SIZE,
        ensures
            final(self).wf(),
            *final(self) == (Cpu {
                opcode: fetched(*memory, old(self).pc as int),
                ..*old(self)
            }),
            r == final(self).opcode,
    {
        let hi = memory.memory[self.pc];
        let lo = memory.memory[self.pc + 1];
        proof {
            assert(((hi as u16) << 8 | lo as u16) == hi as u16 * 256 + lo as u16)
                by (bit_vector);
        }
        self.opcode = (hi as u16) << 8 | lo as u16;
        self.opcode
    }

    // Operation handlers. Each one performs the state change of a single
    // opcode and reports what to do with the program counter; the
    // dispatcher in `execute_opcode` applies that action.
    //
    // Operand naming (following the conventional CHIP-8 description):
    // nnn - the lowest 12 bits of the instruction, an address
    // n - the lowest 4 bits of the instruction
    // x - the lower 4 bits of the high byte, a register index
    // y - the upper 4 bits of the low byte, a register index
    // kk - the lowest 8 bits of the instruction, an immediate

    /// CLS: clear the display buffer.
    fn op_00e0(&self, display: &mut Display) -> (r: ProgramCounter)
        requires
            old(display).wf(),
        ensures
            final(display).wf(),
            final(display).display@.len() == old(display).display@.len(),
            forall|i: int|
                0 <= i < final(display).display@.len()
                    ==> final(display).display@[i] == 0,
            r == ProgramCounter::NEXT,
    {
        display.clear();
        ProgramCounter::NEXT
    }

    /// RET: return from a subroutine by popping the call stack.
    fn op_00ee(&mut self) -> (r: ProgramCounter)
        requires
            old(self).wf(),
            old(self).stack.stack_pointer > 0,
        ensures
            final(self).wf(),
            *final(self) == (Cpu { stack: final(self).stack, ..*old(self) }),
            final(self).stack.stack@ == old(self).stack.stack@,
            final(self).stack.stack_pointer == old(self).stack.stack_pointer - 1,
            r == ProgramCounter::JUMP(
                old(self).stack.stack@[old(self).stack.stack_pointer - 1],
            ),
    {
        ProgramCounter::JUMP(self.stack.pop())
    }

    /// JP addr: jump to location nnn.
    fn op_1nnn(&mut self, nnn: u16) -> (r: ProgramCounter)
        ensures
            *final(self) == *old(self),
            r == ProgramCounter::JUMP(nnn),
    {
        ProgramCounter::JUMP(nnn)
    }

    /// CALL addr: push the return address, then jump to location nnn.
    fn op_2nnn(&mut self, nnn: u16) -> (r: ProgramCounter)
        requires
            old(self).wf(),
            old(self).stack.stack_pointer < STACK_SIZE,
            old(self).pc + OPCODE_SIZE < 0x10000,
        ensures
            final(self).wf(),
            *final(self) == (Cpu { stack: final(self).stack, ..*old(self) }),
            final(self).stack.stack@ == old(self).stack.stack@.update(
                old(self).stack.stack_pointer as int,
                (old(self).pc + OPCODE_SIZE) as u16,
            ),
            final(self).stack.stack_pointer == old(self).stack.stack_pointer + 1,
            r == ProgramCounter::JUMP(nnn),
    {
        self.stack.push((self.pc + OPCODE_SIZE) as u16);
        ProgramCounter::JUMP(nnn)
    }

    /// SE Vx, byte: skip the next instruction if Vx = kk.
    fn op_3xkk(&mut self, x: usize, kk: u8) -> (r: ProgramCounter)
        requires
            old(self).wf(),
            x < REGISTER_COUNT,
        ensures
            *final(self) == *old(self),
            r == if old(self).v_registers@[x as int] == kk {
                ProgramCounter::SKIP
            } else {
                ProgramCounter::NEXT
            },
    {
        ProgramCounter::skip_if(self.v_registers[x] == kk)
    }

    /// SNE Vx, byte: skip the next instruction if Vx != kk.
    fn op_4xkk(&mut self, x: usize, kk: u8) -> (r: ProgramCounter)
        requires
            old(self).wf(),
            x < REGISTER_COUNT,
        ensures
            *final(self) == *old(self),
            r == if old(self).v_registers@[x as int] != kk {
                ProgramCounter::SKIP
            } else {
                ProgramCounter::NEXT
            },
    {
        ProgramCounter::skip_if(self.v_registers[x] != kk)
    }

    /// SE Vx, Vy: skip the next instruction if Vx = Vy.
    fn op_5xy0(&mut self, x: usize, y: usize) -> (r: ProgramCounter)
        requires
            old(self).wf(),
            x < REGISTER_COUNT,
            y < REGISTER_COUNT,
        ensures
            *final(self) == *old(self),
            r == if old(self).v_registers@[x as int]
                == old(self).v_registers@[y as int] {
                ProgramCounter::SKIP
            } else {
                ProgramCounter::NEXT
            },
    {
        ProgramCounter::skip_if(self.v_registers[x] == self.v_registers[y])
    }

    /// LD Vx, byte: set Vx = kk.
    fn op_6xkk(&mut self, x: usize, kk: u8) -> (r: ProgramCounter)
        requires
            old(self).wf(),
            x < REGISTER_COUNT,
        ensures
            final(self).wf(),
            *final(self) == (Cpu {
                v_registers: final(self).v_registers,
                ..*old(self)
            }),
            final(self).v_registers@ == old(self).v_registers@.update(
                x as int,
                kk,
            ),
            r == ProgramCounter::NEXT,
    {
        self.v_registers.set(x, kk);
        ProgramCounter::NEXT
    }

    /// ADD Vx, byte: set Vx = Vx + kk with 8-bit wraparound, no flag.
    fn op_7xkk(&mut self, x: usize, kk: u8) -> (r: ProgramCounter)
        requires
            old(self).wf(),
            x < REGISTER_COUNT,
        ensures
            final(self).wf(),
            *final(self) == (Cpu {
                v_registers: final(self).v_registers,
                ..*old(self)
            }),
            final(self).v_registers@ == old(self).v_registers@.update(
                x as int,
                ((old(self).v_registers@[x as int] + kk) % 256) as u8,
            ),
            r == ProgramCounter::NEXT,
    {
        let vx = self.v_registers[x];
        self.v_registers.set(x, vx.wrapping_add(kk));
        ProgramCounter::NEXT
    }

    /// LD Vx, Vy: set Vx = Vy.
    fn op_8xy0(&mut self, x: usize, y: usize) -> (r: ProgramCounter)
        requires
            old(self).wf(),
            x < REGISTER_COUNT,
            y < REGISTER_COUNT,
        ensures
            final(self).wf(),
            *final(self) == (Cpu {
                v_registers: final(self).v_registers,
                ..*old(self)
            }),
            final(self).v_registers@ == old(self).v_registers@.update(
                x as int,
                old(self).v_registers@[y as int],
            ),
            r == ProgramCounter::NEXT,
    {
        let vy = self.v_registers[y];
        self.v_registers.set(x, vy);
        ProgramCounter::NEXT
    }

    /// OR Vx, Vy: set Vx = Vx OR Vy.
    fn op_8xy1(&mut self, x: usize, y: usize) -> (r: ProgramCounter)
        requires
            old(self).wf(),
            x < REGISTER_COUNT,
            y < REGISTER_COUNT,
        ensures
            final(self).wf(),
            *final(self) == (Cpu {
                v_registers: final(self).v_registers,
                ..*old(self)
            }),
            final(self).v_registers@ == old(self).v_registers@.update(
                x as int,
                old(self).v_registers@[x as int]
                    | old(self).v_registers@[y as int],
            ),
            r == ProgramCounter::NEXT,
    {
        let vx = self.v_registers[x];
        let vy = self.v_registers[y];
        self.v_registers.set(x, vx | vy);
        ProgramCounter::NEXT
    }

    /// AND Vx, Vy: set Vx = Vx AND Vy.
    fn op_8xy2(&mut self, x: usize, y: usize) -> (r: ProgramCounter)
        requires
            old(self).wf(),
            x < REGISTER_COUNT,
            y < REGISTER_COUNT,
        ensures
            final(self).wf(),
            *final(self) == (Cpu {
                v_registers: final(self).v_registers,
                ..*old(self)
            }),
            final(self).v_registers@ == old(self).v_registers@.update(
                x as int,
                old(self).v_registers@[x as int]
                    & old(self).v_registers@[y as int],
            ),
            r == ProgramCounter::NEXT,
    {
        let vx = self.v_registers[x];
        let vy = self.v_registers[y];
        self.v_registers.set(x, vx & vy);
        ProgramCounter::NEXT
    }

    /// XOR Vx, Vy: set Vx = Vx XOR Vy.
    fn op_8xy3(&mut self, x: usize, y: usize) -> (r: ProgramCounter)
        requires
            old(self).wf(),
            x < REGISTER_COUNT,
            y < REGISTER_COUNT,
        ensures
            final(self).wf(),
            *final(self) == (Cpu {
                v_registers: final(self).v_registers,
                ..*old(self)
            }),
            final(self).v_registers@ == old(self).v_registers@.update(
                x as int,
                old(self).v_registers@[x as int]
                    ^ old(self).v_registers@[y as int],
            ),
            r == ProgramCounter::NEXT,
    {
        let vx = self.v_registers[x];
        let vy = self.v_registers[y];
        self.v_registers.set(x, vx ^ vy);
        ProgramCounter::NEXT
    }

    /// ADD Vx, Vy: set Vx = Vx + Vy truncated to 8 bits, with VF = 1
    /// exactly when the widened sum exceeds 255.
    fn op_8xy4(&mut self, x: usize, y: usize) -> (r: ProgramCounter)
        requires
            old(self).wf(),
            x < REGISTER_COUNT,
            y < REGISTER_COUNT,
        ensures
            final(self).wf(),
            *final(self) == (Cpu {
                v_registers: final(self).v_registers,
                ..*old(self)
            }),
            final(self).v_registers@ == old(self).v_registers@.update(
                0xF,
                if old(self).v_registers@[x as int]
                    + old(self).v_registers@[y as int] > 255 {
                    1u8
                } else {
                    0u8
                },
            ).update(
                x as int,
                ((old(self).v_registers@[x as int]
                    + old(self).v_registers@[y as int]) % 256) as u8,
            ),
            r == ProgramCounter::NEXT,
    {
        let vx = self.v_registers[x] as u16;
        let vy = self.v_registers[y] as u16;
        let sum = vx + vy;
        self.v_registers.set(0xF, if sum > 255 { 1 } else { 0 });
        self.v_registers.set(x, (sum % 256) as u8);
        ProgramCounter::NEXT
    }

    /// SUB Vx, Vy: set Vx = Vx - Vy with 8-bit wraparound, with VF = 1
    /// exactly when Vx > Vy (no borrow).
    fn op_8xy5(&mut self, x: usize, y: usize) -> (r: ProgramCounter)
        requires
            old(self).wf(),
            x < REGISTER_COUNT,
            y < REGISTER_COUNT,
        ensures
            final(self).wf(),
            *final(self) == (Cpu {
                v_registers: final(self).v_registers,
                ..*old(self)
            }),
            final(self).v_registers@ == old(self).v_registers@.update(
                0xF,
                if old(self).v_registers@[x as int]
                    > old(self).v_registers@[y as int] {
                    1u8
                } else {
                    0u8
                },
            ).update(
                x as int,
                ((old(self).v_registers@[x as int]
                    - old(self).v_registers@[y as int]) % 256) as u8,
            ),
            r == ProgramCounter::NEXT,
    {
        let vx = self.v_registers[x];
        let vy = self.v_registers[y];
        self.v_registers.set(0xF, if vx > vy { 1 } else { 0 });
        self.v_registers.set(x, vx.wrapping_sub(vy));
        ProgramCounter::NEXT
    }

    /// SHR Vx: set VF to the least-significant bit of Vx, then halve Vx.
    fn op_8xy6(&mut self, x: usize, _y: usize) -> (r: ProgramCounter)
        requires
            old(self).wf(),
            x < REGISTER_COUNT,
        ensures
            final(self).wf(),
            *final(self) == (Cpu {
                v_registers: final(self).v_registers,
                ..*old(self)
            }),
            final(self).v_registers@ == old(self).v_registers@.update(
                0xF,
                old(self).v_registers@[x as int] % 2,
            ).update(x as int, old(self).v_registers@[x as int] / 2),
            r == ProgramCounter::NEXT,
    {
        let vx = self.v_registers[x];
        proof {
            assert(vx & 1 == vx % 2) by (bit_vector);
            assert(vx >> 1u8 == vx / 2) by (bit_vector);
        }
        self.v_registers.set(0xF, vx & 1);
        self.v_registers.set(x, vx >> 1);
        ProgramCounter::NEXT
    }

    /// SUBN Vx, Vy: set Vx = Vy - Vx with 8-bit wraparound, with VF = 1
    /// exactly when Vy > Vx (no borrow).
    fn op_8xy7(&mut self, x: usize, y: usize) -> (r: ProgramCounter)
        requires
            old(self).wf(),
            x < REGISTER_COUNT,
            y < REGISTER_COUNT,
        ensures
            final(self).wf(),
            *final(self) == (Cpu {
                v_registers: final(self).v_registers,
                ..*old(self)
            }),
            final(self).v_registers@ == old(self).v_registers@.update(
                0xF,
                if old(self).v_registers@[y as int]
                    > old(self).v_registers@[x as int] {
                    1u8
                } else {
                    0u8
                },
            ).update(
                x as int,
                ((old(self).v_registers@[y as int]
                    - old(self).v_registers@[x as int]) % 256) as u8,
            ),
            r == ProgramCounter::NEXT,
    {
        let vx = self.v_registers[x];
        let vy = self.v_registers[y];
        self.v_registers.set(0xF, if vy > vx { 1 } else { 0 });
        self.v_registers.set(x, vy.wrapping_sub(vx));
        ProgramCounter::NEXT
    }

    /// SHL Vx: set VF to the most-significant bit of Vx, then double Vx
    /// truncated to 8 bits.
    fn op_8xye(&mut self, x: usize, _y: usize) -> (r: ProgramCounter)
        requires
            old(self).wf(),
            x < REGISTER_COUNT,
        ensures
            final(self).wf(),
            *final(self) == (Cpu {
                v_registers: final(self).v_registers,
                ..*old(self)
            }),
            final(self).v_registers@ == old(self).v_registers@.update(
                0xF,
                old(self).v_registers@[x as int] / 128,
            ).update(
                x as int,
                ((old(self).v_registers@[x as int] * 2) % 256) as u8,
            ),
            r == ProgramCounter::NEXT,
    {
        let vx = self.v_registers[x];
        proof {
            assert((vx & 0b10000000) >> 7u8 == vx / 128) by (bit_vector);
            assert(vx << 1u8 == ((vx * 2) % 256) as u8) by (bit_vector);
        }
        self.v_registers.set(0xF, (vx & 0b10000000) >> 7);
        self.v_registers.set(x, vx << 1);
        ProgramCounter::NEXT
    }

    /// SNE Vx, Vy: skip the next instruction if Vx != Vy.
    fn op_9xy0(&mut self, x: usize, y: usize) -> (r: ProgramCounter)
        requires
            old(self).wf(),
            x < REGISTER_COUNT,
            y < REGISTER_COUNT,
        ensures
            *final(self) == *old(self),
            r == if old(self).v_registers@[x as int]
                != old(self).v_registers@[y as int] {
                ProgramCounter::SKIP
            } else {
                ProgramCounter::NEXT
            },
    {
        ProgramCounter::skip_if(self.v_registers[x] != self.v_registers[y])
    }

    /// LD I, addr: set I = nnn.
    fn op_annn(&mut self, nnn: u16) -> (r: ProgramCounter)
        ensures
            *final(self) == (Cpu { i_register: nnn, ..*old(self) }),
            r == ProgramCounter::NEXT,
    {
        self.i_register = nnn;
        ProgramCounter::NEXT
    }

    /// JP V0, addr: jump to location nnn + V0.
    fn op_bnnn(&mut self, nnn: u16) -> (r: ProgramCounter)
        requires
            old(self).wf(),
            nnn < 0x1000,
        ensures
            *final(self) == *old(self),
            r == ProgramCounter::JUMP(
                (nnn + old(self).v_registers@[0]) as u16,
            ),
    {
        ProgramCounter::JUMP(nnn + self.v_registers[0] as u16)
    }

    /// RND Vx, byte: set Vx to a random byte masked by kk.
    fn op_cxkk(&mut self, x: usize, kk: u8) -> (r: ProgramCounter)
        requires
            old(self).wf(),
            x < REGISTER_COUNT,
        ensures
            final(self).wf(),
            *final(self) == (Cpu {
                v_registers: final(self).v_registers,
                ..*old(self)
            }),
            exists|rb: u8|
                rb < 255 && final(self).v_registers@
                    == old(self).v_registers@.update(x as int, rb & kk),
            final(self).v_registers@[x as int] & kk
                == final(self).v_registers@[x as int],
            r == ProgramCounter::NEXT,
    {
        let random = random_byte();
        let masked = random & kk;
        proof {
            assert((random & kk) & kk == random & kk) by (bit_vector);
        }
        self.v_registers.set(x, masked);
        ProgramCounter::NEXT
    }

    /// DRW Vx, Vy, nibble: draw the n-byte sprite held at bank address I
    /// at screen position (Vx, Vy), wrapping coordinates around the
    /// display edges. Every sprite bit is combined with its cell by
    /// exclusive-or, and VF reports whether any set bit landed on an
    /// already-set cell.
    fn op_dxyn(
        &mut self,
        x: usize,
        y: usize,
        n: usize,
        memory: &mut Memory,
    ) -> (r: ProgramCounter)
        requires
            old(self).wf(),
            old(memory).wf(),
            x < REGISTER_COUNT,
            y < REGISTER_COUNT,
            n < 16,
            n > 0 ==> old(self).i_register + n <= RAM_SIZE,
        ensures
            final(self).wf(),
            final(memory).wf(),
            *final(self) == (Cpu {
                v_registers: final(self).v_registers,
                ..*old(self)
            }),
            final(memory).memory@ == old(memory).memory@,
            final(memory).display.display@.len()
                == old(memory).display.display@.len(),
            forall|b: int, j: int|
                0 <= b < n && 0 <= j < 8
                    ==> final(memory).display.display@[#[trigger] draw_target(
                        old(self).v_registers@[x as int],
                        old(self).v_registers@[y as int],
                        b,
                        j,
                    )] == old(memory).display.display@[draw_target(
                        old(self).v_registers@[x as int],
                        old(self).v_registers@[y as int],
                        b,
                        j,
                    )] ^ sprite_pixel(
                        old(memory).memory@[old(self).i_register + b],
                        j,
                    ),
            forall|c: int|
                0 <= c < old(memory).display.display@.len()
                    && !sprite_covers(
                    old(self).v_registers@[x as int],
                    old(self).v_registers@[y as int],
                    n as int,
                    c,
                ) ==> final(memory).display.display@[c]
                    == old(memory).display.display@[c],
            final(self).v_registers@ == old(self).v_registers@.update(
                0xF,
                if draw_collision(
                    old(memory).display.display@,
                    old(memory).memory@,
                    old(self).i_register as int,
                    old(self).v_registers@[x as int],
                    old(self).v_registers@[y as int],
                    n as int,
                ) {
                    1u8
                } else {
                    0u8
                },
            ),
            r == ProgramCounter::NEXT,
    {
        let vx = self.v_registers[x];
        let vy = self.v_registers[y];
        let i = self.i_register as usize;
        let ghost d0 = memory.display.display@;
        let ghost m0 = memory.memory@;
        self.v_registers.set(0xF, 0);
        let mut byte_idx: usize = 0;
        while byte_idx < n
            invariant
                old(self).wf(),
                old(memory).wf(),
                self.wf(),
                memory.wf(),
                x < REGISTER_COUNT,
                y < REGISTER_COUNT,
                n < 16,
                byte_idx <= n,
                n > 0 ==> i + n <= RAM_SIZE,
                i == old(self).i_register as usize,
                vx == old(self).v_registers@[x as int],
                vy == old(self).v_registers@[y as int],
                d0 == old(memory).display.display@,
                m0 == old(memory).memory@,
                *self == (Cpu { v_registers: self.v_registers, ..*old(self) }),
                memory.memory@ == m0,
                memory.display.display@.len() == d0.len(),
                forall|b: int, j: int|
                    0 <= b < byte_idx && 0 <= j < 8
                        ==> memory.display.display@[#[trigger] draw_target(
                            vx,
                            vy,
                            b,
                            j,
                        )] == d0[draw_target(vx, vy, b, j)] ^ sprite_pixel(
                            m0[i + b],
                            j,
                        ),
                forall|c: int|
                    0 <= c < d0.len() && !sprite_covers(vx, vy, byte_idx as int, c)
                        ==> memory.display.display@[c] == d0[c],
                self.v_registers@ == old(self).v_registers@.update(
                    0xF,
                    if draw_collision(d0, m0, i as int, vx, vy, byte_idx as int) {
                        1u8
                    } else {
                        0u8
                    },
                ),
            decreases n - byte_idx,
        {
            let sprite_byte = memory.memory[i + byte_idx];
            let row = (vy.wrapping_add(byte_idx as u8)) as usize % DISPLAY_HEIGHT;
            proof {
                let bb = byte_idx as u8;
                assert(((vy as u16 + bb as u16) % 256) % 32
                    == (vy as u16 + bb as u16) % 32) by (bit_vector);
            }
            let mut bit: usize = 0;
            while bit < 8
                invariant
                    old(self).wf(),
                    old(memory).wf(),
                    self.wf(),
                    memory.wf(),
                    x < REGISTER_COUNT,
                    y < REGISTER_COUNT,
                    n < 16,
                    byte_idx < n,
                    bit <= 8,
                    i + n <= RAM_SIZE,
                    i == old(self).i_register as usize,
                    vx == old(self).v_registers@[x as int],
                    vy == old(self).v_registers@[y as int],
                    d0 == old(memory).display.display@,
                    m0 == old(memory).memory@,
                    *self == (Cpu {
                        v_registers: self.v_registers,
                        ..*old(self)
                    }),
                    memory.memory@ == m0,
                    memory.display.display@.len() == d0.len(),
                    sprite_byte == m0[i + byte_idx],
                    row == draw_row(vy, byte_idx as int),
                    forall|b: int, j: int|
                        0 <= b < byte_idx && 0 <= j < 8
                            ==> memory.display.display@[#[trigger] draw_target(
                                vx,
                                vy,
                                b,
                                j,
                            )] == d0[draw_target(vx, vy, b, j)] ^ sprite_pixel(
                                m0[i + b],
                                j,
                            ),
                    forall|j: int|
                        0 <= j < bit
                            ==> memory.display.display@[#[trigger] draw_target(
                                vx,
                                vy,
                                byte_idx as int,
                                j,
                            )] == d0[draw_target(vx, vy, byte_idx as int, j)]
                                ^ sprite_pixel(m0[i + byte_idx], j),
                    forall|c: int|
                        0 <= c < d0.len()
                            && !sprite_covers(vx, vy, byte_idx as int, c)
                            && !row_covers(vx, vy, byte_idx as int, bit as int, c)
                            ==> memory.display.display@[c] == d0[c],
                    self.v_registers@ == old(self).v_registers@.update(
                        0xF,
                        if draw_collision(d0, m0, i as int, vx, vy, byte_idx as int)
                            || row_collision(
                            d0,
                            m0,
                            i as int,
                            vx,
                            vy,
                            byte_idx as int,
                            bit as int,
                        ) {
                            1u8
                        } else {
                            0u8
                        },
                    ),
                decreases 8 - bit,
            {
                let col = (vx.wrapping_add(bit as u8)) as usize % DISPLAY_WIDTH;
                let shift = (7 - bit) as u8;
                let pixel = (sprite_byte >> shift) & 1;
                proof {
                    let jb = bit as u8;
                    assert(((vx as u16 + jb as u16) % 256) % 64
                        == (vx as u16 + jb as u16) % 64) by (bit_vector);
                    let sh = shift;
                    assert((sprite_byte >> sh) & 1 <= 1) by (bit_vector);
                    assert(col == draw_col(vx, bit as int));
                    assert(pixel == sprite_pixel(m0[i + byte_idx], bit as int));
                    // the cell this bit lands on has not been touched yet
                    let c = draw_target(vx, vy, byte_idx as int, bit as int);
                    assert(!sprite_covers(vx, vy, byte_idx as int, c)) by {
                        if sprite_covers(vx, vy, byte_idx as int, c) {
                            let (b2, j2) = choose|b2: int, j2: int|
                                0 <= b2 < byte_idx && 0 <= j2 < 8
                                    && c == draw_target(vx, vy, b2, j2);
                            lemma_draw_target_injective(
                                vx,
                                vy,
                                byte_idx as int,
                                bit as int,
                                b2,
                                j2,
                            );
                        }
                    }
                    assert(!row_covers(vx, vy, byte_idx as int, bit as int, c))
                        by {
                        if row_covers(vx, vy, byte_idx as int, bit as int, c) {
                            let j2 = choose|j2: int|
                                0 <= j2 < bit
                                    && c == draw_target(vx, vy, byte_idx as int, j2);
                            lemma_draw_target_injective(
                                vx,
                                vy,
                                byte_idx as int,
                                bit as int,
                                byte_idx as int,
                                j2,
                            );
                        }
                    }
                    assert(memory.display.display@[c] == d0[c]);
                }
                let collision = memory.display.xor_plot(col, row, pixel);
                if collision {
                    self.v_registers.set(0xF, 1);
                }
                proof {
                    let c = draw_target(vx, vy, byte_idx as int, bit as int);
                    // cells written earlier keep their values
                    assert forall|b: int, j: int|
                        0 <= b < byte_idx && 0 <= j < 8 implies memory
                        .display
                        .display@[#[trigger] draw_target(vx, vy, b, j)] == d0[
                    draw_target(vx, vy, b, j)] ^ sprite_pixel(m0[i + b], j) by {
                        lemma_draw_target_injective(
                            vx,
                            vy,
                            b,
                            j,
                            byte_idx as int,
                            bit as int,
                        );
                    }
                    assert forall|j: int| 0 <= j < bit implies memory
                        .display
                        .display@[#[trigger] draw_target(
                        vx,
                        vy,
                        byte_idx as int,
                        j,
                    )] == d0[draw_target(vx, vy, byte_idx as int, j)]
                        ^ sprite_pixel(m0[i + byte_idx], j) by {
                        lemma_draw_target_injective(
                            vx,
                            vy,
                            byte_idx as int,
                            j,
                            byte_idx as int,
                            bit as int,
                        );
                    }
                    // the collision flag tracks exactly the bits seen so far
                    assert(collision == (pixel == 1 && d0[c] == 1));
                    assert(row_collision(d0, m0, i as int, vx, vy, byte_idx as int, bit + 1)
                        == (row_collision(
                        d0,
                        m0,
                        i as int,
                        vx,
                        vy,
                        byte_idx as int,
                        bit as int,
                    ) || (pixel == 1 && d0[c] == 1))) by {
                        if row_collision(d0, m0, i as int, vx, vy, byte_idx as int, bit + 1) {
                            let j2 = choose|j2: int|
                                0 <= j2 < bit + 1 && sprite_pixel(m0[i + byte_idx], j2)
                                    == 1 && d0[draw_target(vx, vy, byte_idx as int, j2)]
                                    == 1;
                            if j2 < bit {
                                assert(row_collision(
                                    d0,
                                    m0,
                                    i as int,
                                    vx,
                                    vy,
                                    byte_idx as int,
                                    bit as int,
                                ));
                            } else {
                                assert(j2 == bit as int);
                                assert(pixel == 1 && d0[c] == 1);
                            }
                        }
                        if row_collision(d0, m0, i as int, vx, vy, byte_idx as int, bit as int) {
                            let j2 = choose|j2: int|
                                0 <= j2 < bit && sprite_pixel(m0[i + byte_idx], j2) == 1
                                    && d0[draw_target(vx, vy, byte_idx as int, j2)] == 1;
                            assert(row_collision(
                                d0,
                                m0,
                                i as int,
                                vx,
                                vy,
                                byte_idx as int,
                                bit + 1,
                            ));
                        }
                        if pixel == 1 && d0[c] == 1 {
                            assert(sprite_pixel(m0[i + byte_idx], bit as int) == 1
                                && d0[draw_target(vx, vy, byte_idx as int, bit as int)]
                                == 1);
                            assert(row_collision(
                                d0,
                                m0,
                                i as int,
                                vx,
                                vy,
                                byte_idx as int,
                                bit + 1,
                            ));
                        }
                    }
                    if collision {
                        let f = if draw_collision(d0, m0, i as int, vx, vy, byte_idx as int)
                            || row_collision(
                            d0,
                            m0,
                            i as int,
                            vx,
                            vy,
                            byte_idx as int,
                            bit as int,
                        ) {
                            1u8
                        } else {
                            0u8
                        };
                        assert(self.v_registers@ == old(self).v_registers@.update(
                            0xF,
                            f,
                        ).update(0xF, 1u8));
                        lemma_update_twice(old(self).v_registers@, 0xF, f, 1u8);
                    }
                }
                bit += 1;
            }
            proof {
                // a full row extends the processed prefix by one byte
                assert forall|c: int|
                    0 <= c < d0.len()
                        && !sprite_covers(vx, vy, byte_idx + 1, c) implies memory
                    .display
                    .display@[c] == d0[c] by {
                    assert(!sprite_covers(vx, vy, byte_idx as int, c)) by {
                        if sprite_covers(vx, vy, byte_idx as int, c) {
                            let (b2, j2) = choose|b2: int, j2: int|
                                0 <= b2 < byte_idx && 0 <= j2 < 8
                                    && c == draw_target(vx, vy, b2, j2);
                            assert(sprite_covers(vx, vy, byte_idx + 1, c));
                        }
                    }
                    assert(!row_covers(vx, vy, byte_idx as int, 8, c)) by {
                        if row_covers(vx, vy, byte_idx as int, 8, c) {
                            let j2 = choose|j2: int|
                                0 <= j2 < 8
                                    && c == draw_target(vx, vy, byte_idx as int, j2);
                            assert(sprite_covers(vx, vy, byte_idx + 1, c));
                        }
                    }
                }
                assert(draw_collision(d0, m0, i as int, vx, vy, byte_idx + 1)
                    == (draw_collision(d0, m0, i as int, vx, vy, byte_idx as int)
                        || row_collision(
                        d0,
                        m0,
                        i as int,
                        vx,
                        vy,
                        byte_idx as int,
                        8,
                    ))) by {
                    if draw_collision(d0, m0, i as int, vx, vy, byte_idx + 1) {
                        let (b2, j2) = choose|b2: int, j2: int|
                            0 <= b2 < byte_idx + 1 && 0 <= j2 < 8 && sprite_pixel(
                                m0[i + b2],
                                j2,
                            ) == 1 && d0[draw_target(vx, vy, b2, j2)] == 1;
                        if b2 < byte_idx {
                            assert(draw_collision(
                                d0,
                                m0,
                                i as int,
                                vx,
                                vy,
                                byte_idx as int,
                            ));
                        } else {
                            assert(row_collision(
                                d0,
                                m0,
                                i as int,
                                vx,
                                vy,
                                byte_idx as int,
                                8,
                            ));
                        }
                    }
                    if draw_collision(d0, m0, i as int, vx, vy, byte_idx as int) {
                        let (b2, j2) = choose|b2: int, j2: int|
                            0 <= b2 < byte_idx && 0 <= j2 < 8 && sprite_pixel(
                                m0[i + b2],
                                j2,
                            ) == 1 && d0[draw_target(vx, vy, b2, j2)] == 1;
                        assert(draw_collision(d0, m0, i as int, vx, vy, byte_idx + 1));
                    }
                    if row_collision(d0, m0, i as int, vx, vy, byte_idx as int, 8) {
                        let j2 = choose|j2: int|
                            0 <= j2 < 8 && sprite_pixel(m0[i + byte_idx], j2) == 1
                                && d0[draw_target(vx, vy, byte_idx as int, j2)] == 1;
                        assert(draw_collision(d0, m0, i as int, vx, vy, byte_idx + 1));
                    }
                }
            }
            byte_idx += 1;
        }
        proof {
            if n == 0 {
                assert(!draw_collision(d0, m0, i as int, vx, vy, 0));
            }
        }
        ProgramCounter::NEXT
    }

    /// SKP Vx: skip the next instruction if the key numbered Vx is down.
    fn op_ex9e(&mut self, x: usize, keyboard: &Keyboard) -> (r: ProgramCounter)
        requires
            old(self).wf(),
            keyboard.wf(),
            x < REGISTER_COUNT,
            old(self).v_registers@[x as int] < KEY_COUNT,
        ensures
            *final(self) == *old(self),
            r == if keyboard.keyboard@[old(self).v_registers@[x as int] as int]
                == 1 {
                ProgramCounter::SKIP
            } else {
                ProgramCounter::NEXT
            },
    {
        ProgramCounter::skip_if(
            keyboard.keyboard[self.v_registers[x] as usize] == 1,
        )
    }

    /// SKNP Vx: skip the next instruction if the key numbered Vx is up.
    fn op_exa1(&mut self, x: usize, keyboard: &Keyboard) -> (r: ProgramCounter)
        requires
            old(self).wf(),
            keyboard.wf(),
            x < REGISTER_COUNT,
            old(self).v_registers@[x as int] < KEY_COUNT,
        ensures
            *final(self) == *old(self),
            r == if keyboard.keyboard@[old(self).v_registers@[x as int] as int]
                == 0 {
                ProgramCounter::SKIP
            } else {
                ProgramCounter::NEXT
            },
    {
        ProgramCounter::skip_if(
            keyboard.keyboard[self.v_registers[x] as usize] == 0,
        )
    }

    /// LD Vx, DT: set Vx to the delay timer value.
    fn op_fx07(&mut self, x: usize) -> (r: ProgramCounter)
        requires
            old(self).wf(),
            x < REGISTER_COUNT,
        ensures
            final(self).wf(),
            *final(self) == (Cpu {
                v_registers: final(self).v_registers,
                ..*old(self)
            }),
            final(self).v_registers@ == old(self).v_registers@.update(
                x as int,
                old(self).delay_timer_register,
            ),
            r == ProgramCounter::NEXT,
    {
        let dt = self.delay_timer_register;
        self.v_registers.set(x, dt);
        ProgramCounter::NEXT
    }

    /// LD Vx, K: latch register x as the key target and enter the
    /// waiting state; the wait takes effect at the next cycle.
    fn op_fx0a(&mut self, x: usize) -> (r: ProgramCounter)
        requires
            old(self).wf(),
            x < REGISTER_COUNT,
        ensures
            *final(self) == (Cpu {
                waiting_for_input: true,
                input_register: x,
                ..*old(self)
            }),
            r == ProgramCounter::NEXT,
    {
        self.waiting_for_input = true;
        self.input_register = x;
        ProgramCounter::NEXT
    }

    /// LD DT, Vx: set the delay timer to Vx.
    fn op_fx15(&mut self, x: usize) -> (r: ProgramCounter)
        requires
            old(self).wf(),
            x < REGISTER_COUNT,
        ensures
            *final(self) == (Cpu {
                delay_timer_register: old(self).v_registers@[x as int],
                ..*old(self)
            }),
            r == ProgramCounter::NEXT,
    {
        self.delay_timer_register = self.v_registers[x];
        ProgramCounter::NEXT
    }

    /// LD ST, Vx: set the sound timer to Vx.
    fn op_fx18(&mut self, x: usize) -> (r: ProgramCounter)
        requires
            old(self).wf(),
            x < REGISTER_COUNT,
        ensures
            *final(self) == (Cpu {
                sound_timer_register: old(self).v_registers@[x as int],
                ..*old(self)
            }),
            r == ProgramCounter::NEXT,
    {
        self.sound_timer_register = self.v_registers[x];
        ProgramCounter::NEXT
    }

    /// ADD I, Vx: set I = I + Vx with 16-bit wraparound, no flag.
    fn op_fx1e(&mut self, x: usize) -> (r: ProgramCounter)
        requires
            old(self).wf(),
            x < REGISTER_COUNT,
        ensures
            *final(self) == (Cpu {
                i_register: ((old(self).i_register
                    + old(self).v_registers@[x as int]) % 0x10000) as u16,
                ..*old(self)
            }),
            r == ProgramCounter::NEXT,
    {
        let vx = self.v_registers[x];
        self.i_register = self.i_register.wrapping_add(vx as u16);
        ProgramCounter::NEXT
    }

    /// LD F, Vx: point I at the font glyph for the digit Vx; glyphs are
    /// five bytes each, so glyph k starts at address 5 * k.
    fn op_fx29(&mut self, x: usize) -> (r: ProgramCounter)
        requires
            old(self).wf(),
            x < REGISTER_COUNT,
        ensures
            *final(self) == (Cpu {
                i_register: (old(self).v_registers@[x as int] * 5) as u16,
                ..*old(self)
            }),
            r == ProgramCounter::NEXT,
    {
        self.i_register = self.v_registers[x] as u16 * 5;
        ProgramCounter::NEXT
    }

    /// LD B, Vx: store the three decimal digits of Vx at I, I+1, I+2.
    fn op_fx33(&mut self, x: usize, memory: &mut Memory) -> (r: ProgramCounter)
        requires
            old(self).wf(),
            old(memory).wf(),
            x < REGISTER_COUNT,
            old(self).i_register + 3 <= RAM_SIZE,
        ensures
            final(memory).wf(),
            *final(self) == *old(self),
            final(memory).memory@ == old(memory).memory@.update(
                old(self).i_register as int,
                old(self).v_registers@[x as int] / 100,
            ).update(
                old(self).i_register + 1,
                (old(self).v_registers@[x as int] % 100) / 10,
            ).update(
                old(self).i_register + 2,
                old(self).v_registers@[x as int] % 10,
            ),
            final(memory).display == old(memory).display,
            r == ProgramCounter::NEXT,
    {
        let vx = self.v_registers[x];
        let i = self.i_register as usize;
        memory.memory.set(i, vx / 100);
        memory.memory.set(i + 1, vx % 100 / 10);
        memory.memory.set(i + 2, vx % 10);
        ProgramCounter::NEXT
    }

    /// LD [I], Vx: copy V0 through Vx into the bank starting at I.
    fn op_fx55(&mut self, x: usize, memory: &mut Memory) -> (r: ProgramCounter)
        requires
            old(self).wf(),
            old(memory).wf(),
            x < REGISTER_COUNT,
            old(self).i_register + x + 1 <= RAM_SIZE,
        ensures
            final(memory).wf(),
            *final(self) == *old(self),
            forall|j: int|
                0 <= j <= x
                    ==> final(memory).memory@[old(self).i_register + j]
                        == old(self).v_registers@[j],
            forall|j: int|
                0 <= j < RAM_SIZE
                    && !(old(self).i_register <= j <= old(self).i_register + x)
                    ==> final(memory).memory@[j] == old(memory).memory@[j],
            final(memory).display == old(memory).display,
            r == ProgramCounter::NEXT,
    {
        let i = self.i_register as usize;
        let mut index: usize = 0;
        while index < x + 1
            invariant
                *self == *old(self),
                self.wf(),
                old(memory).wf(),
                x < REGISTER_COUNT,
                i == self.i_register as usize,
                i + x + 1 <= RAM_SIZE,
                index <= x + 1,
                memory.memory@.len() == RAM_SIZE,
                memory.display == old(memory).display,
                forall|j: int|
                    0 <= j < index
                        ==> memory.memory@[i + j] == self.v_registers@[j],
                forall|j: int|
                    0 <= j < RAM_SIZE && !(i <= j < i + index)
                        ==> memory.memory@[j] == old(memory).memory@[j],
            decreases x + 1 - index,
        {
            let v = self.v_registers[index];
            memory.memory.set(i + index, v);
            index += 1;
        }
        ProgramCounter::NEXT
    }

    /// LD Vx, [I]: copy the bank starting at I into V0 through Vx.
    fn op_fx65(&mut self, x: usize, memory: &Memory) -> (r: ProgramCounter)
        requires
            old(self).wf(),
            memory.wf(),
            x < REGISTER_COUNT,
            old(self).i_register + x + 1 <= RAM_SIZE,
        ensures
            final(self).wf(),
            *final(self) == (Cpu {
                v_registers: final(self).v_registers,
                ..*old(self)
            }),
            final(self).v_registers@.len() == REGISTER_COUNT,
            forall|j: int|
                0 <= j <= x
                    ==> final(self).v_registers@[j]
                        == memory.memory@[old(self).i_register + j],
            forall|j: int|
                x < j < REGISTER_COUNT
                    ==> final(self).v_registers@[j]
                        == old(self).v_registers@[j],
            r == ProgramCounter::NEXT,
    {
        let i = self.i_register as usize;
        let mut index: usize = 0;
        while index < x + 1
            invariant
                self.wf(),
                memory.wf(),
                x < REGISTER_COUNT,
                i == self.i_register as usize,
                i + x + 1 <= RAM_SIZE,
                index <= x + 1,
                *self == (Cpu { v_registers: self.v_registers, ..*old(self) }),
                forall|j: int|
                    0 <= j < index
                        ==> self.v_registers@[j] == memory.memory@[i + j],
                forall|j: int|
                    index <= j < REGISTER_COUNT
                        ==> self.v_registers@[j] == old(self).v_registers@[j],
            decreases x + 1 - index,
        {
            let v = memory.memory[i + index];
            self.v_registers.set(index, v);
            index += 1;
        }
        ProgramCounter::NEXT
    }

    /// Decode the current opcode into its nibbles, run the matching
    /// operation, and apply the reported program-counter action. The
    /// most specific patterns are dispatched first, since families 0x0,
    /// 0x8, 0xE and 0xF are distinguished by their trailing nibbles.
    #[verifier::rlimit(100)]
    #[verifier::spinoff_prover]
    pub fn execute_opcode(&mut self, memory: &mut Memory, keyboard: &Keyboard)
        requires
            old(self).wf(),
            old(memory).wf(),
            keyboard.wf(),
            step_pre(*old(self), *old(memory)),
        ensures
            final(self).wf(),
            final(memory).wf(),
            final(self).opcode == old(self).opcode,
            final(self).beeping == old(self).beeping,
            step_rel(
                *old(self),
                *old(memory),
                keyboard.keyboard@,
                *final(self),
                *final(memory),
            ),
    {
        let opcode = self.opcode;
        let splitted_opcode = (
            (opcode / 0x1000) as u8,
            ((opcode / 0x100) % 0x10) as u8,
            ((opcode / 0x10) % 0x10) as u8,
            (opcode % 0x10) as u8,
        );
        let nnn = opcode % 0x1000;
        let kk = (opcode % 0x100) as u8;
        let x = splitted_opcode.1 as usize;
        let y = splitted_opcode.2 as usize;
        let n = splitted_opcode.3 as usize;

        let program_counter_next_operation = match splitted_opcode {
            (0x00, 0x00, 0x0e, 0x00) => self.op_00e0(&mut memory.display),
            (0x00, 0x00, 0x0e, 0x0e) => self.op_00ee(),
            (0x01, _, _, _) => self.op_1nnn(nnn),
            (0x02, _, _, _) => self.op_2nnn(nnn),
            (0x03, _, _, _) => self.op_3xkk(x, kk),
            (0x04, _, _, _) => self.op_4xkk(x, kk),
            (0x05, _, _, 0x00) => self.op_5xy0(x, y),
            (0x06, _, _, _) => self.op_6xkk(x, kk),
            (0x07, _, _, _) => self.op_7xkk(x, kk),
            (0x08, _, _, 0x00) => self.op_8xy0(x, y),
            (0x08, _, _, 0x01) => self.op_8xy1(x, y),
            (0x08, _, _, 0x02) => self.op_8xy2(x, y),
            (0x08, _, _, 0x03) => self.op_8xy3(x, y),
            (0x08, _, _, 0x04) => self.op_8xy4(x, y),
            (0x08, _, _, 0x05) => self.op_8xy5(x, y),
            (0x08, _, _, 0x06) => self.op_8xy6(x, y),
            (0x08, _, _, 0x07) => self.op_8xy7(x, y),
            (0x08, _, _, 0x0e) => self.op_8xye(x, y),
            (0x09, _, _, 0x00) => self.op_9xy0(x, y),
            (0x0a, _, _, _) => self.op_annn(nnn),
            (0x0b, _, _, _) => self.op_bnnn(nnn),
            (0x0c, _, _, _) => self.op_cxkk(x, kk),
            (0x0d, _, _, _) => self.op_dxyn(x, y, n, memory),
            (0x0e, _, 0x09, 0x0e) => self.op_ex9e(x, keyboard),
            (0x0e, _, 0x0a, 0x01) => self.op_exa1(x, keyboard),
            (0x0f, _, 0x00, 0x07) => self.op_fx07(x),
            (0x0f, _, 0x00, 0x0a) => self.op_fx0a(x),
            (0x0f, _, 0x01, 0x05) => self.op_fx15(x),
            (0x0f, _, 0x01, 0x08) => self.op_fx18(x),
            (0x0f, _, 0x01, 0x0e) => self.op_fx1e(x),
            (0x0f, _, 0x02, 0x09) => self.op_fx29(x),
            (0x0f, _, 0x03, 0x03) => self.op_fx33(x, memory),
            (0x0f, _, 0x05, 0x05) => self.op_fx55(x, memory),
            (0x0f, _, 0x06, 0x05) => {
                let r = self.op_fx65(x, memory);
                proof {
                    assert(self.v_registers@ =~= Seq::new(
                        16,
                        |j: int|
                            if 0 <= j <= x {
                                memory.memory@[old(self).i_register + j]
                            } else {
                                old(self).v_registers@[j]
                            },
                    ));
                }
                r
            },
            _ => ProgramCounter::NEXT,
        };
        match program_counter_next_operation {
            ProgramCounter::NEXT => self.pc = self.pc + OPCODE_SIZE,
            ProgramCounter::SKIP => self.pc = self.pc + OPCODE_SIZE * 2,
            ProgramCounter::JUMP(address) => self.pc = address as usize,
        }
        proof {
            // one case of the step relation per operation family keeps
            // each solver query small
            let s0 = *old(self);
            let m0 = *old(memory);
            let k = keyboard.keyboard@;
            let f = op_family(s0.opcode) as int;
            if f == 0x0 {
                assert(step_rel(s0, m0, k, *self, *memory));
            } else if f == 0x1 {
                assert(step_rel(s0, m0, k, *self, *memory));
            } else if f == 0x2 {
                assert(step_rel(s0, m0, k, *self, *memory));
            } else if f == 0x3 {
                assert(step_rel(s0, m0, k, *self, *memory));
            } else if f == 0x4 {
                assert(step_rel(s0, m0, k, *self, *memory));
            } else if f == 0x5 {
                assert(step_rel(s0, m0, k, *self, *memory));
            } else if f == 0x6 {
                assert(step_rel(s0, m0, k, *self, *memory));
            } else if f == 0x7 {
                assert(step_rel(s0, m0, k, *self, *memory));
            } else if f == 0x8 {
                assert(step_rel(s0, m0, k, *self, *memory));
            } else if f == 0x9 {
                assert(step_rel(s0, m0, k, *self, *memory));
            } else if f == 0xA {
                assert(step_rel(s0, m0, k, *self, *memory));
            } else if f == 0xB {
                assert(step_rel(s0, m0, k, *self, *memory));
            } else if f == 0xC {
                let rb = choose|rb: u8|
                    rb < 255 && self.v_registers@ == s0.v_registers@.update(
                        op_x(s0.opcode),
                        rb & op_kk(s0.opcode),
                    );
                assert(rb < 255 && regs_step(
                    s0,
                    *self,
                    s0.pc + 2,
                    s0.v_registers@.update(
                        op_x(s0.opcode),
                        rb & op_kk(s0.opcode),
                    ),
                ));
                assert(step_rel(s0, m0, k, *self, *memory));
            } else if f == 0xD {
                assert(step_rel(s0, m0, k, *self, *memory));
            } else if f == 0xE {
                assert(step_rel(s0, m0, k, *self, *memory));
            } else {
                assert(step_rel(s0, m0, k, *self, *memory));
            }
        }
    }

    /// Decrement each nonzero timer by one: the externally paced tick.
    /// While the interpreter waits on a key, both timers freeze and the
    /// tick reports that it was not applied.
    pub fn update_timers(&mut self) -> (r: Result<(), ()>)
        requires
            old(self).wf(),
        ensures
            final(self).wf(),
            old(self).waiting_for_input ==> r is Err && *final(self) == *old(self),
            !old(self).waiting_for_input ==> r is Ok && *final(self) == (Cpu {
                delay_timer_register: if old(self).delay_timer_register > 0 {
                    (old(self).delay_timer_register - 1) as u8
                } else {
                    0u8
                },
                sound_timer_register: if old(self).sound_timer_register > 0 {
                    (old(self).sound_timer_register - 1) as u8
                } else {
                    0u8
                },
                ..*old(self)
            }),
    {
        if !self.waiting_for_input {
            if self.delay_timer_register > 0 {
                self.delay_timer_register = self.delay_timer_register - 1;
            }
            if self.sound_timer_register > 0 {
                self.sound_timer_register = self.sound_timer_register - 1;
            }
            return Ok(());
        }
        return Err(());
    }

    /// Run one cycle. A pending key press is latched into the target
    /// register and clears the waiting state; a blocked interpreter with
    /// no key down returns at once without fetching anything. Otherwise
    /// the instruction at the program counter is fetched, executed, and
    /// the beeping flag refreshed from the sound timer.
    #[verifier::rlimit(100)]
    #[verifier::spinoff_prover]
    pub fn do_cycle(&mut self, memory: &mut Memory, keyboard: &Keyboard)
        requires
            old(self).wf(),
            old(memory).wf(),
            keyboard.wf(),
            cycle_pre(*old(self), *old(memory), keyboard.keyboard@),
        ensures
            final(self).wf(),
            final(memory).wf(),
            cycle_rel(
                *old(self),
                *old(memory),
                keyboard.keyboard@,
                *final(self),
                *final(memory),
            ),
    {
        proof {
            lemma_first_key(keyboard.keyboard@);
        }
        if self.waiting_for_input {
            let pressed = scan_first_key(keyboard);
            if pressed < KEY_COUNT {
                self.waiting_for_input = false;
                self.v_registers.set(self.input_register, pressed as u8);
            }
        }
        if !self.waiting_for_input {
            self.fetch_opcode(memory);
            let ghost mid = *self;
            self.execute_opcode(memory, keyboard);
            if self.sound_timer_register > 0 {
                self.beeping = true;
            } else {
                self.beeping = false;
            }
            proof {
                let s0 = *old(self);
                let m0 = *old(memory);
                let k = keyboard.keyboard@;
                assert(latched(s0, m0, k, mid));
                assert(step_rel(mid, m0, k, *self, *memory));
                assert(cycle_rel(s0, m0, k, *self, *memory));
            }
        }
    }

    /// Whether a cycle may run now: the executable form of `cycle_pre`,
    /// for a driver to test before it invokes `do_cycle`. A malformed
    /// program (a call past the stack capacity, a return without a call,
    /// an access outside the bank) makes this report false; execution
    /// has no defined continuation from there.
    pub fn cycle_ready(&self, memory: &Memory, keyboard: &Keyboard) -> (r: bool)
        requires
            self.wf(),
            memory.wf(),
            keyboard.wf(),
        ensures
            r == cycle_pre(*self, *memory, keyboard.keyboard@),
    {
        proof {
            lemma_first_key(keyboard.keyboard@);
        }
        let pressed = scan_first_key(keyboard);
        if self.waiting_for_input && pressed == KEY_COUNT {
            return true;
        }
        if self.pc >= RAM_SIZE - 1 {
            return false;
        }
        let opcode = (memory.memory[self.pc] as u16) << 8
            | memory.memory[self.pc + 1] as u16;
        proof {
            let hi = memory.memory@[self.pc as int];
            let lo = memory.memory@[self.pc + 1];
            assert(((hi as u16) << 8 | lo as u16) == hi as u16 * 256 + lo as u16)
                by (bit_vector);
        }
        let f = (opcode / 0x1000) as u8;
        let xn = ((opcode / 0x100) % 0x10) as u8;
        let yn = ((opcode / 0x10) % 0x10) as u8;
        let nn = (opcode % 0x10) as u8;
        let x = xn as usize;
        let sp = self.stack.stack_pointer;
        let i = self.i_register as usize;
        if f == 0x0 && xn == 0x0 && yn == 0xE && nn == 0xE {
            sp > 0
        } else if f == 0x2 {
            sp < STACK_SIZE
        } else if f == 0xD {
            nn == 0 || i + nn as usize <= RAM_SIZE
        } else if f == 0xE && ((yn == 0x9 && nn == 0xE) || (yn == 0xA && nn == 0x1)) {
            let vx = if self.waiting_for_input && x == self.input_register {
                pressed as u8
            } else {
                self.v_registers[x]
            };
            vx < KEY_COUNT as u8
        } else if f == 0xF && yn == 0x3 && nn == 0x3 {
            i + 3 <= RAM_SIZE
        } else if f == 0xF && ((yn == 0x5 && nn == 0x5) || (yn == 0x6 && nn == 0x5)) {
            i + x + 1 <= RAM_SIZE
        } else {
            true
        }
    }
}

/// Index of the lowest pressed key of the snapshot, or the key count
/// when none is pressed.
fn scan_first_key(keyboard: &Keyboard) -> (r: usize)
    requires
        keyboard.wf(),
    ensures
        r == first_key(keyboard.keyboard@),
{
    let mut i: usize = 0;
    while i < KEY_COUNT
        invariant
            keyboard.wf(),
            i <= KEY_COUNT,
            first_key(keyboard.keyboard@)
                == first_key_from(keyboard.keyboard@, i as int),
        decreases KEY_COUNT - i,
    {
        if keyboard.keyboard[i] == 1 {
            return i;
        }
        i += 1;
    }
    KEY_COUNT
}

/// Writing a slot twice leaves only the second value.
proof fn lemma_update_twice(s: Seq<u8>, i: int, a: u8, b: u8)
    requires
        0 <= i < s.len(),
    ensures
        s.update(i, a).update(i, b) == s.update(i, b),
{
    assert(s.update(i, a).update(i, b) =~= s.update(i, b));
}

/// Combining a bit into a cell twice by exclusive-or restores the cell.
proof fn lemma_xor_cancel(a: u8, b: u8)
    ensures
        (a ^ b) ^ b == a,
{
    assert((a ^ b) ^ b == a) by (bit_vector);
}

/// A subroutine call followed immediately by the matching return
/// restores the program counter to exactly the instruction after the
/// call site, and the stack depth after the pair equals the depth
/// before the call.
pub proof fn lemma_call_then_return(
    s0: Cpu,
    m0: Memory,
    k: Seq<u8>,
    s1: Cpu,
    m1: Memory,
    s1f: Cpu,
    s2: Cpu,
    m2: Memory,
)
    requires
        s0.wf(),
        op_family(s0.opcode) == 2,
        s0.stack.stack_pointer < STACK_SIZE,
        s0.pc + 2 < 0x10000,
        step_rel(s0, m0, k, s1, m1),
        s1f == (Cpu { opcode: 0x00EEu16, ..s1 }),
        step_rel(s1f, m1, k, s2, m2),
    ensures
        s2.pc == s0.pc + 2,
        s2.stack.stack_pointer == s0.stack.stack_pointer,
{
    assert(op_family(0x00EEu16) == 0 && op_x(0x00EEu16) == 0
        && op_y(0x00EEu16) == 0xE && op_n(0x00EEu16) == 0xE);
}

/// Drawing a sprite twice in a row at the same position restores the
/// display buffer to its state before the first draw: the exclusive-or
/// plot is self-inverse. The position registers must not be VF, which
/// the first draw overwrites with its collision flag. VF after the
/// second draw reports, as always, whether a set sprite bit landed on a
/// cell that the first draw left set.
pub proof fn lemma_draw_twice_restores(
    s0: Cpu,
    m0: Memory,
    k: Seq<u8>,
    s1: Cpu,
    m1: Memory,
    s2: Cpu,
    m2: Memory,
)
    requires
        s0.wf(),
        m0.wf(),
        op_family(s0.opcode) == 0xD,
        op_x(s0.opcode) != 0xF,
        op_y(s0.opcode) != 0xF,
        step_rel(s0, m0, k, s1, m1),
        step_rel(s1, m1, k, s2, m2),
    ensures
        m2.display.display@ == m0.display.display@,
        m2.memory@ == m0.memory@,
        s2.v_registers@ == s1.v_registers@.update(
            0xF,
            if draw_collision(
                m1.display.display@,
                m0.memory@,
                s0.i_register as int,
                s0.v_registers@[op_x(s0.opcode)],
                s0.v_registers@[op_y(s0.opcode)],
                op_n(s0.opcode),
            ) {
                1u8
            } else {
                0u8
            },
        ),
{
    let x = op_x(s0.opcode);
    let y = op_y(s0.opcode);
    let n = op_n(s0.opcode);
    let vx = s0.v_registers@[x];
    let vy = s0.v_registers@[y];
    let i = s0.i_register as int;
    let d0 = m0.display.display@;
    let d1 = m1.display.display@;
    let d2 = m2.display.display@;
    assert(s1.opcode == s0.opcode);
    assert(s1.v_registers@[x] == vx && s1.v_registers@[y] == vy);
    assert(s1.i_register == s0.i_register);
    assert(m1.memory@ == m0.memory@);
    assert forall|c: int| 0 <= c < d0.len() implies d2[c] == d0[c] by {
        if sprite_covers(vx, vy, n, c) {
            let (b, j) = choose|b: int, j: int|
                0 <= b < n && 0 <= j < 8 && c == draw_target(vx, vy, b, j);
            let p = sprite_pixel(m0.memory@[i + b], j);
            assert(d1[draw_target(vx, vy, b, j)]
                == d0[draw_target(vx, vy, b, j)] ^ p);
            assert(d2[draw_target(vx, vy, b, j)]
                == d1[draw_target(vx, vy, b, j)] ^ p);
            lemma_xor_cancel(d0[c], p);
        }
    }
    assert(d2 =~= d0);
}

/// While the interpreter waits on a key and no key is down, a cycle
/// changes nothing at all: the program counter, both timers and the
/// whole machine state hold still. (The timer tick freezes as well:
/// `update_timers` refuses the tick in the waiting state.)
pub proof fn lemma_waiting_cycle_blocks(
    s0: Cpu,
    m0: Memory,
    k: Seq<u8>,
    s1: Cpu,
    m1: Memory,
)
    requires
        s0.waiting_for_input,
        !any_key_pressed(k),
        cycle_rel(s0, m0, k, s1, m1),
    ensures
        s1 == s0,
        m1 == m0,
{
}

/// A cycle that finds a key down while the interpreter waits first
/// writes the lowest pressed key into the latched target register and
/// leaves the waiting state, and then executes the fetched instruction
/// from that resumed state as any other cycle would.
pub proof fn lemma_key_press_resumes(
    s0: Cpu,
    m0: Memory,
    k: Seq<u8>,
    s1: Cpu,
    m1: Memory,
)
    requires
        s0.waiting_for_input,
        any_key_pressed(k),
        cycle_rel(s0, m0, k, s1, m1),
    ensures
        exists|mid: Cpu|
            {
                &&& #[trigger] latched(s0, m0, k, mid)
                &&& !mid.waiting_for_input
                &&& mid.v_registers@ == s0.v_registers@.update(
                    s0.input_register as int,
                    first_key(k) as u8,
                )
                &&& step_rel(mid, m0, k, s1, m1)
            },
{
    let mid = choose|mid: Cpu|
        #[trigger] latched(s0, m0, k, mid) && step_rel(mid, m0, k, s1, m1);
    assert(latched(s0, m0, k, mid) && step_rel(mid, m0, k, s1, m1));
}

/// Relies on the `rand` crate's thread-local generator: `random_range`
/// over the half-open byte range starting at zero returns a uniformly
/// distributed byte strictly below the upper bound.
#[verifier::external_body]
fn random_byte() -> (r: u8)
    ensures
        r < 255,
{
    rand::random_range(0..255u8)
}

} // verus!
