//! The CHIP-8 machine: its state, the fetch/decode/execute cycle, and the
//! execution routines of every opcode class.

use arrayvec::ArrayVec;
use vstd::prelude::*;

use crate::alu::{alu, alu_spec};
use crate::call_stack::{stack_items, stack_len, stack_new, stack_pop, stack_push, STACK_CAPACITY};
use crate::display::{collides, draw_sprite, drawn, pixel, screen_of};
use crate::font::{font, font_table, FONT_START, GLYPH_SIZE};
use crate::timer::{tick, tick_spec};

verus! {

/// Number of addressable memory cells.
pub const MEMORY_SIZE: usize = 4096;

/// Address at which a program is loaded and execution starts.
pub const PROGRAM_START: u16 = 0x200;

/// Largest program that fits in memory.
pub const MAX_PROGRAM_SIZE: usize = 4096 - 0x200;

/// Register that reports carry, borrow, shifted-out bits and collisions.
pub const FLAG_REGISTER: u8 = 15;

/// A fatal fault of the machine: the run cannot go on.
#[derive(Debug, Clone, Copy, PartialEq, Eq, Structural)]
pub enum Fault {
    /// A call with the call stack at its capacity.
    StackOverflow,
    /// A return with an empty call stack.
    StackUnderflow,
    /// An opcode outside the instruction set.
    UnknownOpcode,
    /// A memory access at an address past the end of memory.
    AddressOutOfRange,
}

/// Why a program could not be loaded.
#[derive(Debug, Clone, Copy, PartialEq, Eq, Structural)]
pub enum LoadError {
    /// The program does not fit between the program start and the end of
    /// memory.
    ProgramTooLarge,
}

/// The state of the machine as mathematical values.
pub struct MachineView {
    pub memory: Seq<u8>,
    pub registers: Seq<u8>,
    pub stack: Seq<u16>,
    pub i: u16,
    pub pc: u16,
    pub delay_timer: u8,
    pub sound_timer: u8,
    pub pressed_key: Option<u8>,
    pub screen: Seq<Seq<bool>>,
}

/// A CHIP-8 machine.
pub struct VirtualMachine {
    memory: [u8; 4096],
    stack: ArrayVec<u16, 100>,
    registers: [u8; 16],
    i: u16,
    pc: u16,
    /// The delay timer, decremented at 60 Hz.
    pub delay_timer: u8,
    /// The sound timer, decremented at 60 Hz; a tone plays while it is not
    /// zero.
    pub sound_timer: u8,
    /// The key of the hex keypad held down, if any.
    pub pressed_key: Option<u8>,
    /// The framebuffer: 32 rows, bit `c` of a row being the pixel in column `c`.
    pub canvas: [u64; 32],
}

impl View for VirtualMachine {
    type V = MachineView;

    closed spec fn view(&self) -> MachineView {
        MachineView {
            memory: self.memory@,
            registers: self.registers@,
            stack: stack_items(self.stack),
            i: self.i,
            pc: self.pc,
            delay_timer: self.delay_timer,
            sound_timer: self.sound_timer,
            pressed_key: self.pressed_key,
            screen: screen_of(self.canvas@),
        }
    }
}

/// A screen with every pixel off.
pub open spec fn blank_screen() -> Seq<Seq<bool>> {
    Seq::new(32, |r: int| Seq::new(64, |c: int| false))
}

/// Memory just after loading `program`: the font at its address, the
/// program at the program start, zero everywhere else.
pub open spec fn loaded_memory(program: Seq<u8>) -> Seq<u8> {
    Seq::new(
        4096,
        |a: int|
            if FONT_START <= a < FONT_START + 80 {
                font_table()[a - FONT_START]
            } else if PROGRAM_START <= a < PROGRAM_START + program.len() {
                program[a - PROGRAM_START]
            } else {
                0u8
            },
    )
}

/// The fields of a two-byte instruction, sliced from its bytes.
#[derive(Debug, Clone, Copy, PartialEq, Eq, Structural)]
pub struct Opcode {
    /// High nibble of the first byte: the instruction class.
    pub class: u8,
    /// Low nibble of the first byte followed by the second byte.
    pub address: u16,
    /// Low nibble of the first byte: register X.
    pub x: u8,
    /// High nibble of the second byte: register Y.
    pub y: u8,
    /// The second byte: the immediate operand.
    pub byte: u8,
    /// Low nibble of the second byte: the sub-operation.
    pub nibble: u8,
}

/// The instruction whose big-endian bytes are `b1`, `b2`.
pub open spec fn decode_spec(b1: u8, b2: u8) -> Opcode {
    Opcode {
        class: b1 / 16,
        address: ((b1 % 16) * 256 + b2) as u16,
        x: b1 % 16,
        y: b2 / 16,
        byte: b2,
        nibble: b2 % 16,
    }
}

/// Slices the instruction with big-endian bytes `b1`, `b2` into its fields.
pub fn decode(b1: u8, b2: u8) -> (r: Opcode)
    ensures
        r == decode_spec(b1, b2),
{
    proof {
        assert(b1 >> 4u8 == b1 / 16) by (bit_vector);
        assert(b1 & 0x0Fu8 == b1 % 16) by (bit_vector);
        assert(b2 >> 4u8 == b2 / 16) by (bit_vector);
        assert(b2 & 0x0Fu8 == b2 % 16) by (bit_vector);
        assert((((b1 as u16) & 0x0Fu16) << 8u16) | (b2 as u16) == ((b1 as u16) % 16) * 256 + (b2 as u16))
            by (bit_vector);
    }
    Opcode {
        class: b1 >> 4,
        address: (((b1 as u16) & 0x0F) << 8) | (b2 as u16),
        x: b1 & 0x0F,
        y: b2 >> 4,
        byte: b2,
        nibble: b2 & 0x0F,
    }
}

impl MachineView {
    /// Memory, registers and screen have their fixed sizes.
    pub open spec fn well_formed(self) -> bool {
        &&& self.memory.len() == 4096
        &&& self.registers.len() == 16
        &&& self.screen.len() == 32
        &&& forall|r: int| 0 <= r < 32 ==> (#[trigger] self.screen[r]).len() == 64
    }

    /// This state with the program counter at `pc`.
    pub open spec fn with_pc(self, pc: int) -> MachineView {
        MachineView { pc: pc as u16, ..self }
    }

    /// This state with register `x` holding `value`.
    pub open spec fn with_register(self, x: int, value: u8) -> MachineView {
        MachineView { registers: self.registers.update(x, value), ..self }
    }

    /// This state with the program counter past the current instruction.
    pub open spec fn advanced(self) -> MachineView {
        self.with_pc(self.pc + 2)
    }

    /// This state with the program counter past the current instruction, and
    /// past the next one too when `condition` holds.
    pub open spec fn skipped_if(self, condition: bool) -> MachineView {
        self.with_pc(if condition { self.pc + 4 } else { self.pc + 2 })
    }
}

/// A call from the instruction at `v.pc` to `target`: the return address is
/// pushed and control goes to `target`.
pub open spec fn call_spec(v: MachineView, target: u16) -> Result<MachineView, Fault> {
    if v.stack.len() >= STACK_CAPACITY {
        Err(Fault::StackOverflow)
    } else {
        Ok(MachineView { stack: v.stack.push((v.pc + 2) as u16), pc: target, ..v })
    }
}

/// A return: control goes to the address popped off the stack.
pub open spec fn return_spec(v: MachineView) -> Result<MachineView, Fault> {
    if v.stack.len() == 0 {
        Err(Fault::StackUnderflow)
    } else {
        Ok(MachineView { stack: v.stack.drop_last(), pc: v.stack.last(), ..v })
    }
}

/// Sub-operation `op` of the arithmetic class on registers `x` and `y`; the
/// flag is written before the result, so a result in the flag register wins.
pub open spec fn math_spec(v: MachineView, op: u8, x: u8, y: u8) -> Result<MachineView, Fault> {
    match alu_spec(op, v.registers[x as int], v.registers[y as int]) {
        None => Err(Fault::UnknownOpcode),
        Some((value, None)) => Ok(v.advanced().with_register(x as int, value)),
        Some((value, Some(flag))) => Ok(
            v.advanced().with_register(FLAG_REGISTER as int, flag).with_register(x as int, value),
        ),
    }
}

/// The `height` sprite bytes at address `i`.
pub open spec fn sprite_at(memory: Seq<u8>, i: u16, height: u8) -> Seq<u8> {
    if height == 0 {
        Seq::empty()
    } else {
        memory.subrange(i as int, i + height)
    }
}

/// Drawing the `height`-row sprite at I at the coordinates held in registers
/// `x` and `y`; the flag reports a collision.
pub open spec fn draw_spec(v: MachineView, x: u8, y: u8, height: u8) -> Result<MachineView, Fault> {
    if height > 0 && v.i + height > 4096 {
        Err(Fault::AddressOutOfRange)
    } else {
        let sprite = sprite_at(v.memory, v.i, height);
        let (px, py) = (v.registers[x as int], v.registers[y as int]);
        Ok(
            MachineView { screen: drawn(v.screen, sprite, px, py), ..v.advanced() }.with_register(
                FLAG_REGISTER as int,
                if collides(v.screen, sprite, px, py) { 1u8 } else { 0u8 },
            ),
        )
    }
}

/// Memory with the decimal digits of `value` (hundreds, tens, units) at
/// `i`, `i + 1`, `i + 2`.
pub open spec fn bcd_memory(memory: Seq<u8>, i: int, value: u8) -> Seq<u8> {
    memory.update(i, value / 100).update(i + 1, (value / 10) % 10).update(i + 2, value % 10)
}

/// Memory with registers `0 ..= x` stored from address I on.
pub open spec fn dumped_memory(v: MachineView, x: u8) -> Seq<u8> {
    Seq::new(
        v.memory.len(),
        |a: int|
            if v.i <= a <= v.i + x {
                v.registers[a - v.i]
            } else {
                v.memory[a]
            },
    )
}

/// Registers with registers `0 ..= x` loaded from address I on.
pub open spec fn loaded_registers(v: MachineView, x: u8) -> Seq<u8> {
    Seq::new(
        v.registers.len(),
        |k: int|
            if k <= x {
                v.memory[v.i + k]
            } else {
                v.registers[k]
            },
    )
}

/// The instructions of class 0xF, selected by their second byte.
pub open spec fn misc_spec(v: MachineView, x: u8, byte: u8) -> Result<MachineView, Fault> {
    let vx = v.registers[x as int];
    let adv = v.advanced();
    if byte == 0x07 {
        Ok(adv.with_register(x as int, v.delay_timer))
    } else if byte == 0x0A {
        match v.pressed_key {
            Some(key) => Ok(MachineView { pressed_key: None, ..adv.with_register(x as int, key) }),
            None => Ok(v),
        }
    } else if byte == 0x15 {
        Ok(MachineView { delay_timer: vx, ..adv })
    } else if byte == 0x18 {
        Ok(MachineView { sound_timer: if vx < 2 { 2 } else { vx }, ..adv })
    } else if byte == 0x1E {
        Ok(MachineView { i: ((v.i + vx) % 65536) as u16, ..adv })
    } else if byte == 0x29 {
        Ok(MachineView { i: (FONT_START + vx * GLYPH_SIZE) as u16, ..adv })
    } else if byte == 0x33 {
        if v.i + 2 >= 4096 {
            Err(Fault::AddressOutOfRange)
        } else {
            Ok(MachineView { memory: bcd_memory(v.memory, v.i as int, vx), ..adv })
        }
    } else if byte == 0x55 {
        if v.i + x >= 4096 {
            Err(Fault::AddressOutOfRange)
        } else {
            Ok(MachineView { memory: dumped_memory(v, x), ..adv })
        }
    } else if byte == 0x65 {
        if v.i + x >= 4096 {
            Err(Fault::AddressOutOfRange)
        } else {
            Ok(MachineView { registers: loaded_registers(v, x), ..adv })
        }
    } else {
        Err(Fault::UnknownOpcode)
    }
}

/// The effect of executing `op` as the instruction at `v.pc`, with `random`
/// the byte drawn for the random instruction.
pub open spec fn execute_spec(v: MachineView, op: Opcode, random: u8) -> Result<MachineView, Fault> {
    let vx = v.registers[op.x as int];
    let vy = v.registers[op.y as int];
    if op.class == 0x0 {
        if op.byte == 0xE0 {
            Ok(MachineView { screen: blank_screen(), ..v.advanced() })
        } else if op.byte == 0xEE {
            return_spec(v)
        } else {
            call_spec(v, op.address)
        }
    } else if op.class == 0x1 {
        Ok(v.with_pc(op.address as int))
    } else if op.class == 0x2 {
        call_spec(v, op.address)
    } else if op.class == 0x3 {
        Ok(v.skipped_if(vx == op.byte))
    } else if op.class == 0x4 {
        Ok(v.skipped_if(vx != op.byte))
    } else if op.class == 0x5 {
        if op.nibble != 0 {
            Err(Fault::UnknownOpcode)
        } else {
            Ok(v.skipped_if(vx == vy))
        }
    } else if op.class == 0x6 {
        Ok(v.advanced().with_register(op.x as int, op.byte))
    } else if op.class == 0x7 {
        Ok(v.advanced().with_register(op.x as int, ((vx + op.byte) % 256) as u8))
    } else if op.class == 0x8 {
        math_spec(v, op.nibble, op.x, op.y)
    } else if op.class == 0x9 {
        if op.nibble != 0 {
            Err(Fault::UnknownOpcode)
        } else {
            Ok(v.skipped_if(vx != vy))
        }
    } else if op.class == 0xA {
        Ok(MachineView { i: op.address, ..v.advanced() })
    } else if op.class == 0xB {
        Ok(v.with_pc(v.registers[0] + op.address))
    } else if op.class == 0xC {
        Ok(v.advanced().with_register(op.x as int, random & op.byte))
    } else if op.class == 0xD {
        draw_spec(v, op.x, op.y, op.nibble)
    } else if op.class == 0xE {
        if op.byte == 0x9E {
            Ok(v.skipped_if(v.pressed_key == Some(vx)))
        } else if op.byte == 0xA1 {
            Ok(v.skipped_if(v.pressed_key != Some(vx)))
        } else {
            Err(Fault::UnknownOpcode)
        }
    } else if op.class == 0xF {
        misc_spec(v, op.x, op.byte)
    } else {
        Err(Fault::UnknownOpcode)
    }
}

/// One fetch/decode/execute cycle from state `v`, with `random` the byte
/// drawn for the random instruction.
pub open spec fn next_state(v: MachineView, random: u8) -> Result<MachineView, Fault> {
    if v.pc + 1 >= 4096 {
        Err(Fault::AddressOutOfRange)
    } else {
        execute_spec(v, decode_spec(v.memory[v.pc as int], v.memory[v.pc + 1]), random)
    }
}

/// `r` and the state `after` are what `expected` says a step from `before`
/// yields: on a fault, the fault is returned and the state is unchanged.
pub open spec fn follows(
    r: Result<(), Fault>,
    before: MachineView,
    after: MachineView,
    expected: Result<MachineView, Fault>,
) -> bool {
    match expected {
        Ok(v) => r is Ok && after == v,
        Err(f) => r == Err::<(), Fault>(f) && after == before,
    }
}

/// Storing registers `0 ..= x` from I on and then loading them back from
/// the same addresses into any register file gives back the stored values.
pub proof fn lemma_dump_load_round_trip(v: MachineView, x: u8, fresh: Seq<u8>)
    requires
        v.well_formed(),
        x < 16,
        v.i + x < 4096,
        fresh.len() == 16,
    ensures
        ({
            let stored = MachineView { memory: dumped_memory(v, x), registers: fresh, ..v };
            loaded_registers(stored, x).subrange(0, x + 1) == v.registers.subrange(0, x + 1)
        }),
{
    let stored = MachineView { memory: dumped_memory(v, x), registers: fresh, ..v };
    assert(loaded_registers(stored, x).subrange(0, x + 1) =~= v.registers.subrange(0, x + 1));
}

/// The register-only arithmetic sub-operations (assign, or, and, xor) leave
/// the flag register alone when it is not their target, while the others
/// write it.
pub proof fn lemma_logic_keeps_flag(v: MachineView, op: u8, x: u8, y: u8)
    requires
        v.well_formed(),
        op <= 3,
        x < 15,
        y < 16,
    ensures
        math_spec(v, op, x, y) is Ok,
        math_spec(v, op, x, y)->Ok_0.registers[FLAG_REGISTER as int] == v.registers[FLAG_REGISTER as int],
{
}

/// The key-wait instruction with no key held changes nothing: the program
/// counter stays on it, so it runs again on the next cycle.
pub proof fn lemma_key_wait_blocks(v: MachineView, random: u8)
    requires
        v.well_formed(),
        v.pc + 1 < 4096,
        v.memory[v.pc as int] / 16 == 0xF,
        v.memory[v.pc + 1] == 0x0A,
        v.pressed_key is None,
    ensures
        next_state(v, random) == Ok::<MachineView, Fault>(v),
{
}

/// The key-wait instruction with a key held stores the key in register X,
/// clears the latch and moves on to the next instruction.
pub proof fn lemma_key_wait_consumes(v: MachineView, random: u8, key: u8)
    requires
        v.well_formed(),
        v.pc + 1 < 4096,
        v.memory[v.pc as int] / 16 == 0xF,
        v.memory[v.pc + 1] == 0x0A,
        v.pressed_key == Some(key),
    ensures
        next_state(v, random) is Ok,
        next_state(v, random)->Ok_0.pc == v.pc + 2,
        next_state(v, random)->Ok_0.registers[(v.memory[v.pc as int] % 16) as int] == key,
        next_state(v, random)->Ok_0.pressed_key is None,
{
}

/// Relies on `fastrand::u8` over the full range: a byte drawn from the
/// thread-local generator. Nothing is known of its value.
#[verifier::external_body]
fn random_byte() -> (r: u8) {
    fastrand::u8(..)
}

proof fn lemma_zero_row_dark(c: u64)
    by (bit_vector)
    requires
        c < 64,
    ensures
        (0u64 >> c) & 1u64 != 1u64,
{
}

proof fn lemma_blank_canvas(canvas: [u64; 32])
    requires
        forall|r: int| 0 <= r < 32 ==> canvas@[r] == 0,
    ensures
        screen_of(canvas@) == blank_screen(),
{
    assert forall|r: int, c: int| 0 <= r < 32 && 0 <= c < 64 implies !pixel(canvas@[r], c) by {
        lemma_zero_row_dark(c as u64);
    }
    assert(screen_of(canvas@) =~~= blank_screen());
}

impl VirtualMachine {
    /// A machine with `program` loaded at the program start and the font
    /// loaded at its address; every register, timer and pixel is zero, the
    /// stack is empty, no key is held, and I and PC hold the program start.
    /// Fails exactly when the program does not fit in memory.
    pub fn new(program: &[u8]) -> (r: Result<VirtualMachine, LoadError>)
        ensures
            program@.len() > MAX_PROGRAM_SIZE ==> r == Err::<VirtualMachine, LoadError>(LoadError::ProgramTooLarge),
            program@.len() <= MAX_PROGRAM_SIZE ==> r is Ok && r->Ok_0@ == (MachineView {
                memory: loaded_memory(program@),
                registers: Seq::new(16, |k: int| 0u8),
                stack: Seq::empty(),
                i: PROGRAM_START,
                pc: PROGRAM_START,
                delay_timer: 0,
                sound_timer: 0,
                pressed_key: None,
                screen: blank_screen(),
            }),
    {
        if program.len() > MAX_PROGRAM_SIZE {
            return Err(LoadError::ProgramTooLarge);
        }
        let mut memory = [0u8; 4096];
        let glyphs = font();
        let mut k: usize = 0;
        while k < 80
            invariant
                k <= 80,
                glyphs@ == font_table(),
                forall|a: int|
                    0 <= a < 4096 ==> #[trigger] memory@[a] == (if FONT_START <= a < FONT_START + k {
                        font_table()[a - FONT_START]
                    } else {
                        0u8
                    }),
            decreases 80 - k,
        {
            memory[0x50 + k] = glyphs[k];
            k += 1;
        }
        let mut k: usize = 0;
        while k < program.len()
            invariant
                k <= program@.len() <= MAX_PROGRAM_SIZE,
                forall|a: int|
                    0 <= a < 4096 ==> #[trigger] memory@[a] == (if FONT_START <= a < FONT_START + 80 {
                        font_table()[a - FONT_START]
                    } else if PROGRAM_START <= a < PROGRAM_START + k {
                        program@[a - PROGRAM_START]
                    } else {
                        0u8
                    }),
            decreases program@.len() - k,
        {
            memory[0x200 + k] = program[k];
            k += 1;
        }
        let canvas = [0u64; 32];
        let registers = [0u8; 16];
        proof {
            lemma_blank_canvas(canvas);
            assert(memory@ =~= loaded_memory(program@));
            assert(registers@ =~= Seq::new(16, |k: int| 0u8));
        }
        Ok(VirtualMachine {
            memory,
            stack: stack_new(),
            registers,
            i: PROGRAM_START,
            pc: PROGRAM_START,
            delay_timer: 0,
            sound_timer: 0,
            pressed_key: None,
            canvas,
        })
    }

    /// The state as mathematical values has the machine's fixed sizes.
    pub proof fn lemma_well_formed(&self)
        ensures
            self@.well_formed(),
    {
        assert forall|r: int| 0 <= r < 32 implies (#[trigger] self@.screen[r]).len() == 64 by {}
    }

    fn skip_if(&mut self, condition: bool)
        requires
            old(self).pc + 1 < 4096,
        ensures
            final(self)@ == old(self)@.skipped_if(condition),
    {
        if condition {
            self.pc = self.pc + 4;
        } else {
            self.pc = self.pc + 2;
        }
    }

    fn set_register(&mut self, x: u8, value: u8)
        requires
            x < 16,
        ensures
            final(self)@ == old(self)@.with_register(x as int, value),
    {
        self.registers[x as usize] = value;
    }

    fn call(&mut self, address: u16) -> (r: Result<(), Fault>)
        requires
            old(self).pc + 1 < 4096,
        ensures
            follows(r, old(self)@, final(self)@, call_spec(old(self)@, address)),
    {
        if stack_len(&self.stack) >= STACK_CAPACITY {
            return Err(Fault::StackOverflow);
        }
        stack_push(&mut self.stack, self.pc + 2);
        self.pc = address;
        Ok(())
    }

    fn return_from_call(&mut self) -> (r: Result<(), Fault>)
        ensures
            follows(r, old(self)@, final(self)@, return_spec(old(self)@)),
    {
        match stack_pop(&mut self.stack) {
            Some(address) => {
                self.pc = address;
                Ok(())
            },
            None => Err(Fault::StackUnderflow),
        }
    }

    fn execute_math(&mut self, op: u8, x: u8, y: u8) -> (r: Result<(), Fault>)
        requires
            old(self).pc + 1 < 4096,
            x < 16,
            y < 16,
        ensures
            follows(r, old(self)@, final(self)@, math_spec(old(self)@, op, x, y)),
    {
        match alu(op, self.registers[x as usize], self.registers[y as usize]) {
            None => Err(Fault::UnknownOpcode),
            Some((value, flag)) => {
                self.pc = self.pc + 2;
                if let Some(f) = flag {
                    self.set_register(FLAG_REGISTER, f);
                }
                self.set_register(x, value);
                Ok(())
            },
        }
    }

    fn draw(&mut self, x: u8, y: u8, height: u8) -> (r: Result<(), Fault>)
        requires
            old(self).pc + 1 < 4096,
            x < 16,
            y < 16,
            height < 16,
        ensures
            follows(r, old(self)@, final(self)@, draw_spec(old(self)@, x, y, height)),
    {
        if height > 0 && self.i as usize + height as usize > MEMORY_SIZE {
            return Err(Fault::AddressOutOfRange);
        }
        let start: usize = if height == 0 { 0 } else { self.i as usize };
        let px = self.registers[x as usize];
        let py = self.registers[y as usize];
        let mut canvas = self.canvas;
        let collision = draw_sprite(&mut canvas, &self.memory, start, height as usize, px, py);
        proof {
            assert(self.memory@.subrange(start as int, start + height) =~= sprite_at(self.memory@, self.i, height));
        }
        self.canvas = canvas;
        self.pc = self.pc + 2;
        self.set_register(FLAG_REGISTER, if collision { 1 } else { 0 });
        Ok(())
    }

    fn set_bcd(&mut self, x: u8)
        requires
            x < 16,
            old(self).i + 2 < 4096,
        ensures
            final(self)@ == (MachineView {
                memory: bcd_memory(old(self)@.memory, old(self)@.i as int, old(self)@.registers[x as int]),
                ..old(self)@
            }),
    {
        let value = self.registers[x as usize];
        let i = self.i as usize;
        self.memory[i] = value / 100;
        self.memory[i + 1] = (value / 10) % 10;
        self.memory[i + 2] = value % 10;
    }

    fn dump_registers(&mut self, x: u8)
        requires
            x < 16,
            old(self).i + x < 4096,
        ensures
            final(self)@ == (MachineView { memory: dumped_memory(old(self)@, x), ..old(self)@ }),
    {
        let ghost before = self@;
        let i = self.i as usize;
        let mut k: usize = 0;
        while k <= x as usize
            invariant
                k <= x + 1,
                x < 16,
                i == before.i,
                i + x < 4096,
                self@ == (MachineView { memory: self@.memory, ..before }),
                self@.memory.len() == 4096,
                forall|a: int|
                    0 <= a < 4096 ==> #[trigger] self@.memory[a] == (if i <= a < i + k {
                        before.registers[a - i]
                    } else {
                        before.memory[a]
                    }),
            decreases x + 1 - k,
        {
            self.memory[i + k] = self.registers[k];
            k += 1;
        }
        assert(self@.memory =~= dumped_memory(before, x));
    }

    fn load_registers(&mut self, x: u8)
        requires
            x < 16,
            old(self).i + x < 4096,
        ensures
            final(self)@ == (MachineView { registers: loaded_registers(old(self)@, x), ..old(self)@ }),
    {
        let ghost before = self@;
        let i = self.i as usize;
        let mut k: usize = 0;
        while k <= x as usize
            invariant
                k <= x + 1,
                x < 16,
                i == before.i,
                i + x < 4096,
                self@ == (MachineView { registers: self@.registers, ..before }),
                self@.registers.len() == 16,
                forall|j: int|
                    0 <= j < 16 ==> #[trigger] self@.registers[j] == (if j < k {
                        before.memory[i + j]
                    } else {
                        before.registers[j]
                    }),
            decreases x + 1 - k,
        {
            self.registers[k] = self.memory[i + k];
            k += 1;
        }
        assert(self@.registers =~= loaded_registers(before, x));
    }

    fn execute_misc(&mut self, x: u8, byte: u8) -> (r: Result<(), Fault>)
        requires
            old(self).pc + 1 < 4096,
            x < 16,
        ensures
            follows(r, old(self)@, final(self)@, misc_spec(old(self)@, x, byte)),
    {
        let vx = self.registers[x as usize];
        if byte == 0x07 {
            self.pc = self.pc + 2;
            let delay = self.delay_timer;
            self.set_register(x, delay);
        } else if byte == 0x0A {
            match self.pressed_key.take() {
                Some(key) => {
                    self.pc = self.pc + 2;
                    self.set_register(x, key);
                },
                None => {},
            }
        } else if byte == 0x15 {
            self.pc = self.pc + 2;
            self.delay_timer = vx;
        } else if byte == 0x18 {
            self.pc = self.pc + 2;
            self.sound_timer = if vx < 2 { 2 } else { vx };
        } else if byte == 0x1E {
            self.pc = self.pc + 2;
            self.i = self.i.wrapping_add(vx as u16);
        } else if byte == 0x29 {
            self.pc = self.pc + 2;
            self.i = FONT_START + vx as u16 * GLYPH_SIZE;
        } else if byte == 0x33 {
            if self.i as usize + 2 >= MEMORY_SIZE {
                return Err(Fault::AddressOutOfRange);
            }
            self.pc = self.pc + 2;
            self.set_bcd(x);
        } else if byte == 0x55 {
            if self.i as usize + x as usize >= MEMORY_SIZE {
                return Err(Fault::AddressOutOfRange);
            }
            self.pc = self.pc + 2;
            self.dump_registers(x);
        } else if byte == 0x65 {
            if self.i as usize + x as usize >= MEMORY_SIZE {
                return Err(Fault::AddressOutOfRange);
            }
            self.pc = self.pc + 2;
            self.load_registers(x);
        } else {
            return Err(Fault::UnknownOpcode);
        }
        Ok(())
    }

    /// Executes `op` as the instruction at the program counter, with `random`
    /// the byte drawn for the random instruction.
    fn execute(&mut self, op: Opcode, random: u8) -> (r: Result<(), Fault>)
        requires
            old(self).pc + 1 < 4096,
            op.x < 16,
            op.y < 16,
            op.nibble < 16,
            op.address < 4096,
        ensures
            follows(r, old(self)@, final(self)@, execute_spec(old(self)@, op, random)),
    {
        let vx = self.registers[op.x as usize];
        let vy = self.registers[op.y as usize];
        let class = op.class;
        if class == 0x0 {
            if op.byte == 0xE0 {
                self.clear_canvas();
                self.pc = self.pc + 2;
                Ok(())
            } else if op.byte == 0xEE {
                self.return_from_call()
            } else {
                self.call(op.address)
            }
        } else if class == 0x1 {
            self.pc = op.address;
            Ok(())
        } else if class == 0x2 {
            self.call(op.address)
        } else if class == 0x3 {
            self.skip_if(vx == op.byte);
            Ok(())
        } else if class == 0x4 {
            self.skip_if(vx != op.byte);
            Ok(())
        } else if class == 0x5 {
            if op.nibble != 0 {
                return Err(Fault::UnknownOpcode);
            }
            self.skip_if(vx == vy);
            Ok(())
        } else if class == 0x6 {
            self.pc = self.pc + 2;
            self.set_register(op.x, op.byte);
            Ok(())
        } else if class == 0x7 {
            self.pc = self.pc + 2;
            self.set_register(op.x, vx.wrapping_add(op.byte));
            Ok(())
        } else if class == 0x8 {
            self.execute_math(op.nibble, op.x, op.y)
        } else if class == 0x9 {
            if op.nibble != 0 {
                return Err(Fault::UnknownOpcode);
            }
            self.skip_if(vx != vy);
            Ok(())
        } else if class == 0xA {
            self.pc = self.pc + 2;
            self.i = op.address;
            Ok(())
        } else if class == 0xB {
            self.pc = self.registers[0] as u16 + op.address;
            Ok(())
        } else if class == 0xC {
            self.pc = self.pc + 2;
            self.set_register(op.x, random & op.byte);
            Ok(())
        } else if class == 0xD {
            self.draw(op.x, op.y, op.nibble)
        } else if class == 0xE {
            let held = match self.pressed_key {
                Some(key) => key == vx,
                None => false,
            };
            if op.byte == 0x9E {
                self.skip_if(held);
                Ok(())
            } else if op.byte == 0xA1 {
                self.skip_if(!held);
                Ok(())
            } else {
                Err(Fault::UnknownOpcode)
            }
        } else if class == 0xF {
            self.execute_misc(op.x, op.byte)
        } else {
            Err(Fault::UnknownOpcode)
        }
    }

    /// The instruction at the program counter, or `None` when its bytes lie
    /// past the end of memory.
    pub fn fetch(&self) -> (r: Option<Opcode>)
        ensures
            self@.pc + 1 >= 4096 ==> r is None,
            self@.pc + 1 < 4096 ==> r == Some(decode_spec(self@.memory[self@.pc as int], self@.memory[self@.pc + 1])),
    {
        let pc = self.pc as usize;
        if pc + 1 >= MEMORY_SIZE {
            return None;
        }
        Some(decode(self.memory[pc], self.memory[pc + 1]))
    }

    /// One fetch/decode/execute cycle, with `random` the byte that the random
    /// instruction uses.
    pub fn step(&mut self, random: u8) -> (r: Result<(), Fault>)
        ensures
            follows(r, old(self)@, final(self)@, next_state(old(self)@, random)),
    {
        match self.fetch() {
            None => Err(Fault::AddressOutOfRange),
            Some(op) => {
                proof {
                    let (b1, b2) = (self@.memory[self@.pc as int], self@.memory[self@.pc + 1]);
                    assert(b1 % 16 < 16 && b2 / 16 < 16 && b2 % 16 < 16 && (b1 % 16) * 256 + b2 < 4096);
                }
                self.execute(op, random)
            },
        }
    }

    /// One fetch/decode/execute cycle; the random instruction draws its byte
    /// from the thread's random number generator.
    pub fn execute_opcode(&mut self) -> (r: Result<(), Fault>)
        ensures
            exists|random: u8| follows(r, old(self)@, final(self)@, next_state(old(self)@, random)),
    {
        let random = match self.fetch() {
            Some(op) => if op.class == 0xC { random_byte() } else { 0 },
            None => 0,
        };
        self.step(random)
    }

    /// The register file.
    pub fn registers(&self) -> (r: [u8; 16])
        ensures
            r@ == self@.registers,
    {
        self.registers
    }

    /// The memory cell at `address`.
    pub fn memory_at(&self, address: u16) -> (r: u8)
        requires
            address < 4096,
        ensures
            r == self@.memory[address as int],
    {
        self.memory[address as usize]
    }

    /// The program counter.
    pub fn pc(&self) -> (r: u16)
        ensures
            r == self@.pc,
    {
        self.pc
    }

    /// The index register.
    pub fn index(&self) -> (r: u16)
        ensures
            r == self@.i,
    {
        self.i
    }

    /// The number of return addresses on the call stack.
    pub fn stack_depth(&self) -> (r: usize)
        ensures
            r == self@.stack.len(),
    {
        stack_len(&self.stack)
    }

    /// Whether the sound timer is running, that is, whether a tone should
    /// play.
    pub fn sound_active(&self) -> (r: bool)
        ensures
            r == (self@.sound_timer > 0),
    {
        self.sound_timer > 0
    }

    /// Turns every pixel off.
    pub fn clear_canvas(&mut self)
        ensures
            final(self)@ == (MachineView { screen: blank_screen(), ..old(self)@ }),
    {
        self.canvas = [0u64; 32];
        proof {
            lemma_blank_canvas(self.canvas);
        }
    }

    /// One tick of the 60 Hz ticker: both timers count down by one, stopping
    /// at zero.
    pub fn tick_timers(&mut self)
        ensures
            final(self)@ == (MachineView {
                delay_timer: tick_spec(old(self)@.delay_timer),
                sound_timer: tick_spec(old(self)@.sound_timer),
                ..old(self)@
            }),
    {
        self.delay_timer = tick(self.delay_timer);
        self.sound_timer = tick(self.sound_timer);
    }
}

} // verus!
