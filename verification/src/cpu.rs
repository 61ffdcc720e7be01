//! The execution engine: the machine state and the fetch-decode-execute
//! cycle.

use crate::display::{Display, Screen};
use crate::fault::Fault;
use crate::instruction::{decoded, Instruction};
use crate::keypad::Keypad;
use crate::machine::{Machine, Progress, FLAG_REGISTER, STACK_DEPTH};
use crate::machine_lemmas::{lemma_cycle_keeps_wf, lemma_initial_wf};
use crate::memory::{loaded, wrap_address, Memory, MAX_PROGRAM_SIZE, PROGRAM_START};
use vstd::prelude::*;

verus! {

/// A byte from the thread-local generator of the `rand` crate,
/// `rand::random::<u8>()`.
///
/// Nothing is claimed of the byte: every value is possible, and two calls
/// need not agree.  The generator seeds itself from the operating system
/// and panics where the system gives it no seed.
#[verifier::external_body]
fn random_byte() -> (byte: u8) {
    rand::random::<u8>()
}

/// The execution engine.
///
/// It owns the memory, the registers, the call stack, the timers, the
/// framebuffer and the keypad table.
pub struct Cpu {
    memory: Memory,
    registers: [u8; 16],
    index: u16,
    pc: u16,
    stack: Vec<u16>,
    delay: u8,
    sound: u8,
    display: Display,
    keypad: Keypad,
}

impl Cpu {
    /// The state of the machine.
    pub closed spec fn view(&self) -> Machine {
        Machine {
            memory: self.memory@,
            registers: self.registers@,
            index: self.index,
            pc: self.pc,
            stack: self.stack@,
            delay: self.delay,
            sound: self.sound,
            screen: self.display@,
        }
    }

    /// An engine in the state that a reset leaves.
    pub fn new() -> (cpu: Cpu)
        ensures
            cpu@ == Machine::initial(),
            cpu@.wf(),
    {
        let cpu = Cpu {
            memory: Memory::new(),
            registers: [0u8; 16],
            index: 0,
            pc: PROGRAM_START as u16,
            stack: Vec::new(),
            delay: 0,
            sound: 0,
            display: Display::new(),
            keypad: Keypad::new(),
        };
        assert(cpu.registers@ =~= Machine::initial().registers);
        assert(cpu.stack@ =~= Machine::initial().stack);
        proof {
            lemma_initial_wf();
        }
        cpu
    }

    /// Restores the initial state: the font in memory and zero elsewhere,
    /// registers, index register and timers zero, the stack empty, the
    /// screen blank, the program counter at the load address.
    pub fn reset(&mut self)
        ensures
            final(self)@ == Machine::initial(),
            final(self)@.wf(),
    {
        self.memory.reset();
        self.display.clear();
        self.stack.clear();
        self.registers = [0u8; 16];
        self.index = 0;
        self.pc = PROGRAM_START as u16;
        self.delay = 0;
        self.sound = 0;
        assert(self.registers@ =~= Machine::initial().registers);
        assert(self.stack@ =~= Machine::initial().stack);
        proof {
            lemma_initial_wf();
        }
    }

    /// Copies a program image into memory from the load address on.
    ///
    /// An image of more than `MAX_PROGRAM_SIZE` bytes is rejected with
    /// `Fault::ProgramTooLarge` and nothing changes.
    pub fn load_program(&mut self, image: &[u8]) -> (result: Result<(), Fault>)
        ensures
            image@.len() <= MAX_PROGRAM_SIZE ==> result == Ok::<(), Fault>(()) && final(self)@ == (Machine {
                memory: loaded(old(self)@.memory, image@),
                ..old(self)@
            }),
            image@.len() > MAX_PROGRAM_SIZE ==> result == Err::<(), Fault>(
                Fault::ProgramTooLarge { length: image@.len() as usize },
            ) && final(self)@ == old(self)@,
            old(self)@.wf() ==> final(self)@.wf(),
    {
        self.memory.load(image)
    }

    /// The registers `V0` to `VF`.
    pub fn registers(&self) -> (registers: [u8; 16])
        ensures
            registers@ == self@.registers,
    {
        self.registers
    }

    /// The index register.
    pub fn index_register(&self) -> (index: u16)
        ensures
            index == self@.index,
    {
        self.index
    }

    /// The program counter.
    pub fn program_counter(&self) -> (pc: u16)
        ensures
            pc == self@.pc,
    {
        self.pc
    }

    /// The number of pending subroutine calls.
    pub fn stack_depth(&self) -> (depth: usize)
        ensures
            depth == self@.stack.len(),
    {
        self.stack.len()
    }

    /// The delay timer.
    pub fn delay_timer(&self) -> (delay: u8)
        ensures
            delay == self@.delay,
    {
        self.delay
    }

    /// The sound timer.
    pub fn sound_timer(&self) -> (sound: u8)
        ensures
            sound == self@.sound,
    {
        self.sound
    }

    /// The memory, for reading.
    pub fn memory(&self) -> (memory: &Memory)
        ensures
            memory@ == self@.memory,
    {
        &self.memory
    }

    /// The framebuffer, for reading.
    pub fn display(&self) -> (display: &Display)
        ensures
            display@ == self@.screen,
    {
        &self.display
    }

    /// The keypad table.
    pub fn keypad(&self) -> (keypad: &Keypad)
        ensures
            keypad@ == crate::keypad::layout(),
    {
        proof {
            use_type_invariant(&self.keypad);
        }
        &self.keypad
    }

    /// Tooling write path: forces what the framebuffer shows at `(x, y)`
    /// without touching the pixel below, so that no later collision depends
    /// on it.
    pub fn set_overlay(&mut self, x: usize, y: usize, lit: bool)
        ensures
            final(self)@ == (Machine {
                screen: Screen {
                    pixels: old(self)@.screen.pixels,
                    overlay: old(self)@.screen.overlay.update(
                        crate::display::cell_index(x as int, y as int),
                        Some(lit),
                    ),
                },
                ..old(self)@
            }),
            old(self)@.wf() ==> final(self)@.wf(),
    {
        self.display.set_overlay(x, y, lit);
    }

    /// The instruction word at the program counter.
    fn fetch(&self) -> (word: u16)
        ensures
            word == self@.fetch(),
    {
        proof {
            use_type_invariant(&self.memory);
        }
        let at: u16 = self.pc % 4096;
        let high: u8 = self.memory.read(at);
        let low: u8 = self.memory.read(at + 1);
        (high as u16) * 256 + (low as u16)
    }

    fn set_register(&mut self, x: u8, value: u8)
        requires
            x < 16,
        ensures
            final(self)@ == old(self)@.with_register(x, value),
    {
        self.registers[x as usize] = value;
    }

    fn set_flag(&mut self, flag: bool)
        ensures
            final(self)@ == old(self)@.with_flag(flag),
    {
        let value: u8 = if flag {
            1
        } else {
            0
        };
        self.registers[FLAG_REGISTER] = value;
    }

    fn skip_if(&mut self, condition: bool)
        ensures
            final(self)@ == old(self)@.skipping(condition),
    {
        if condition {
            self.pc = ((self.pc % 4096) + 2) % 4096;
        }
    }

    /// The address `offset` bytes past the index register, within memory.
    fn indexed(&self, offset: u8) -> (address: u16)
        ensures
            address == wrap_address(self@.index + offset),
    {
        ((self.index % 4096) + (offset as u16)) % 4096
    }

    fn store_decimal(&mut self, value: u8)
        ensures
            final(self)@ == old(self)@.with_decimal(value),
    {
        let hundreds: u16 = self.indexed(0);
        let tens: u16 = self.indexed(1);
        let ones: u16 = self.indexed(2);
        self.memory.write(hundreds, value / 100);
        self.memory.write(tens, (value / 10) % 10);
        self.memory.write(ones, value % 10);
    }

    fn store_registers(&mut self, x: u8)
        requires
            x < 16,
        ensures
            final(self)@ == old(self)@.with_registers_stored(x),
    {
        proof {
            use_type_invariant(&self.memory);
        }
        let mut r: u8 = 0;
        while r <= x
            invariant
                x < 16,
                r <= x + 1,
                self.memory@.len() == 4096,
                old(self).memory@.len() == 4096,
                self.registers == old(self).registers,
                self.index == old(self).index,
                self.pc == old(self).pc,
                self.stack == old(self).stack,
                self.delay == old(self).delay,
                self.sound == old(self).sound,
                self.display == old(self).display,
                self.keypad == old(self).keypad,
                forall|address: int|
                    0 <= address < 4096 ==> #[trigger] self.memory@[address] == (if (address
                        - self.index) % 4096 < r {
                        self.registers@[(address - self.index) % 4096]
                    } else {
                        old(self).memory@[address]
                    }),
            decreases x + 1 - r,
        {
            let address: u16 = self.indexed(r);
            let value: u8 = self.registers[r as usize];
            self.memory.write(address, value);
            r += 1;
        }
        assert(self.memory@ =~= old(self)@.with_registers_stored(x).memory);
    }

    fn load_registers(&mut self, x: u8)
        requires
            x < 16,
        ensures
            final(self)@ == old(self)@.with_registers_loaded(x),
    {
        let mut r: u8 = 0;
        while r <= x
            invariant
                x < 16,
                r <= x + 1,
                self.memory == old(self).memory,
                self.index == old(self).index,
                self.pc == old(self).pc,
                self.stack == old(self).stack,
                self.delay == old(self).delay,
                self.sound == old(self).sound,
                self.display == old(self).display,
                self.keypad == old(self).keypad,
                forall|i: int|
                    0 <= i < 16 ==> #[trigger] self.registers@[i] == (if i < r {
                        old(self)@.byte_at(self.index + i)
                    } else {
                        old(self).registers@[i]
                    }),
            decreases x + 1 - r,
        {
            let address: u16 = self.indexed(r);
            let value: u8 = self.memory.read(address);
            self.registers[r as usize] = value;
            r += 1;
        }
        assert(self.registers@ =~= old(self)@.with_registers_loaded(x).registers);
    }

    fn draw_sprite(&mut self, x: u8, y: u8, rows: u8)
        requires
            x < 16,
            y < 16,
        ensures
            final(self)@ == old(self)@.with_sprite_drawn(x, y, rows),
    {
        let mut sprite: Vec<u8> = Vec::new();
        let mut row: u8 = 0;
        while row < rows
            invariant
                row <= rows,
                sprite@.len() == row,
                forall|k: int| 0 <= k < row ==> sprite@[k] == self@.byte_at(self@.index + k),
            decreases rows - row,
        {
            let address: u16 = self.indexed(row);
            sprite.push(self.memory.read(address));
            row += 1;
        }
        assert(sprite@ =~= self@.sprite(rows));
        let column: usize = self.registers[x as usize] as usize;
        let line: usize = self.registers[y as usize] as usize;
        let collided: bool = self.display.draw(column, line, sprite.as_slice());
        self.set_flag(collided);
    }

    fn tick(&mut self)
        ensures
            final(self)@ == old(self)@.ticked(),
    {
        if self.delay > 0 {
            self.delay = self.delay - 1;
        }
        if self.sound > 0 {
            self.sound = self.sound - 1;
        }
    }

    /// Executes the register-to-register instructions of family 8.
    fn execute_arithmetic(&mut self, instruction: Instruction)
        requires
            instruction.in_range(),
            instruction is Copy || instruction is Or || instruction is And || instruction is Xor
                || instruction is Add || instruction is Subtract || instruction is ShiftRight
                || instruction is SubtractFrom || instruction is ShiftLeft,
        ensures
            forall|key: Option<u8>, random: u8|
                final(self)@ == #[trigger] old(self)@.execute(instruction, key, random),
    {
        match instruction {
            Instruction::Copy { x, y } => {
                let value: u8 = self.registers[y as usize];
                self.set_register(x, value);
            },
            Instruction::Or { x, y } => {
                let value: u8 = self.registers[x as usize] | self.registers[y as usize];
                self.set_register(x, value);
            },
            Instruction::And { x, y } => {
                let value: u8 = self.registers[x as usize] & self.registers[y as usize];
                self.set_register(x, value);
            },
            Instruction::Xor { x, y } => {
                let value: u8 = self.registers[x as usize] ^ self.registers[y as usize];
                self.set_register(x, value);
            },
            Instruction::Add { x, y } => {
                let sum: u16 = self.registers[x as usize] as u16 + self.registers[y as usize] as u16;
                self.set_register(x, (sum % 256) as u8);
                self.set_flag(sum > 255);
            },
            Instruction::Subtract { x, y } => {
                let left: u8 = self.registers[x as usize];
                let right: u8 = self.registers[y as usize];
                let value: u8 = if left >= right {
                    left - right
                } else {
                    (256u16 + left as u16 - right as u16) as u8
                };
                self.set_register(x, value);
                self.set_flag(left >= right);
            },
            Instruction::ShiftRight { x, y } => {
                let value: u8 = self.registers[x as usize];
                self.set_register(x, value / 2);
                self.set_flag(value % 2 == 1);
            },
            Instruction::SubtractFrom { x, y } => {
                let left: u8 = self.registers[y as usize];
                let right: u8 = self.registers[x as usize];
                let value: u8 = if left >= right {
                    left - right
                } else {
                    (256u16 + left as u16 - right as u16) as u8
                };
                self.set_register(x, value);
                self.set_flag(left >= right);
            },
            Instruction::ShiftLeft { x, y } => {
                let value: u8 = self.registers[x as usize];
                self.set_register(x, (value % 128) * 2);
                self.set_flag(value >= 128);
            },
            _ => {},
        }
    }

    /// Executes the instructions of family F but the wait for a key.
    fn execute_misc(&mut self, instruction: Instruction)
        requires
            instruction.in_range(),
            instruction is ReadDelay || instruction is SetDelay || instruction is SetSound
                || instruction is AddToIndex || instruction is LoadGlyph
                || instruction is StoreDecimal || instruction is StoreRegisters
                || instruction is LoadRegisters,
        ensures
            forall|key: Option<u8>, random: u8|
                final(self)@ == #[trigger] old(self)@.execute(instruction, key, random),
    {
        match instruction {
            Instruction::ReadDelay { x } => {
                let value: u8 = self.delay;
                self.set_register(x, value);
            },
            Instruction::SetDelay { x } => {
                self.delay = self.registers[x as usize];
            },
            Instruction::SetSound { x } => {
                self.sound = self.registers[x as usize];
            },
            Instruction::AddToIndex { x } => {
                let offset: u8 = self.registers[x as usize];
                self.index = self.indexed(offset);
            },
            Instruction::LoadGlyph { x } => {
                let digit: u8 = self.registers[x as usize] % 16;
                self.index = (digit as u16) * 5;
            },
            Instruction::StoreDecimal { x } => {
                let value: u8 = self.registers[x as usize];
                self.store_decimal(value);
            },
            Instruction::StoreRegisters { x } => {
                self.store_registers(x);
            },
            Instruction::LoadRegisters { x } => {
                self.load_registers(x);
            },
            _ => {},
        }
    }

    /// Executes an instruction that raises no fault, on a state whose
    /// program counter already points past it.
    #[verifier::rlimit(40)]
    fn execute(&mut self, instruction: Instruction, key: Option<u8>, random: u8)
        requires
            instruction.in_range(),
            instruction is Call ==> old(self)@.stack.len() < STACK_DEPTH,
            instruction is Return ==> old(self)@.stack.len() > 0,
        ensures
            final(self)@ == old(self)@.execute(instruction, key, random),
    {
        match instruction {
            Instruction::ClearScreen => {
                self.display.clear();
            },
            Instruction::Return => {
                let top: Option<u16> = self.stack.pop();
                match top {
                    Some(address) => {
                        self.pc = address;
                    },
                    None => {},
                }
            },
            Instruction::Jump { address } => {
                self.pc = address;
            },
            Instruction::Call { address } => {
                let back: u16 = self.pc;
                self.stack.push(back);
                self.pc = address;
            },
            Instruction::SkipIfEqual { x, value } => {
                let condition: bool = self.registers[x as usize] == value;
                self.skip_if(condition);
            },
            Instruction::SkipIfNotEqual { x, value } => {
                let condition: bool = self.registers[x as usize] != value;
                self.skip_if(condition);
            },
            Instruction::SkipIfRegistersEqual { x, y } => {
                let condition: bool = self.registers[x as usize] == self.registers[y as usize];
                self.skip_if(condition);
            },
            Instruction::Load { x, value } => {
                self.set_register(x, value);
            },
            Instruction::AddImmediate { x, value } => {
                let sum: u16 = self.registers[x as usize] as u16 + value as u16;
                self.set_register(x, (sum % 256) as u8);
            },
            Instruction::Copy { .. }
            | Instruction::Or { .. }
            | Instruction::And { .. }
            | Instruction::Xor { .. }
            | Instruction::Add { .. }
            | Instruction::Subtract { .. }
            | Instruction::ShiftRight { .. }
            | Instruction::SubtractFrom { .. }
            | Instruction::ShiftLeft { .. } => {
                self.execute_arithmetic(instruction);
            },
            Instruction::SkipIfRegistersDiffer { x, y } => {
                let condition: bool = self.registers[x as usize] != self.registers[y as usize];
                self.skip_if(condition);
            },
            Instruction::LoadIndex { address } => {
                self.index = address;
            },
            Instruction::JumpOffset { address } => {
                self.pc = (address + self.registers[0] as u16) % 4096;
            },
            Instruction::Random { x, mask } => {
                self.set_register(x, random & mask);
            },
            Instruction::Draw { x, y, rows } => {
                self.draw_sprite(x, y, rows);
            },
            Instruction::SkipIfKeyDown { x } => {
                let value: u8 = self.registers[x as usize];
                let condition: bool = match key {
                    Some(code) => code == value,
                    None => false,
                };
                self.skip_if(condition);
            },
            Instruction::SkipIfKeyUp { x } => {
                let value: u8 = self.registers[x as usize];
                let condition: bool = match key {
                    Some(code) => code != value,
                    None => true,
                };
                self.skip_if(condition);
            },
            Instruction::AwaitKey { x } => {
                match key {
                    Some(code) => {
                        self.set_register(x, code);
                    },
                    None => {},
                }
            },
            Instruction::ReadDelay { .. }
            | Instruction::SetDelay { .. }
            | Instruction::SetSound { .. }
            | Instruction::AddToIndex { .. }
            | Instruction::LoadGlyph { .. }
            | Instruction::StoreDecimal { .. }
            | Instruction::StoreRegisters { .. }
            | Instruction::LoadRegisters { .. } => {
                self.execute_misc(instruction);
            },
        }
    }

    /// Fetches, decodes and executes one instruction and counts the timers
    /// down, unless the instruction faults or waits for a key.
    #[verifier::rlimit(40)]
    fn fetch_and_execute(&mut self, input: Option<char>, random: u8) -> (result: Result<
        Progress,
        Fault,
    >)
        ensures
            (result, final(self)@) == old(self)@.cycle(input, random),
    {
        let word: u16 = self.fetch();
        let instruction: Instruction = match Instruction::decode(word) {
            Some(instruction) => instruction,
            None => {
                return Err(Fault::UnknownInstruction { address: self.pc, word });
            },
        };
        let key: Option<u8> = self.keypad.get_key_pressed(input);
        match instruction {
            Instruction::Call { .. } => {
                if self.stack.len() >= STACK_DEPTH {
                    return Err(Fault::StackOverflow);
                }
            },
            Instruction::Return => {
                if self.stack.len() == 0 {
                    return Err(Fault::StackUnderflow);
                }
            },
            Instruction::AwaitKey { .. } => {
                if key.is_none() {
                    return Ok(Progress::AwaitingKey);
                }
            },
            _ => {},
        }
        self.pc = ((self.pc % 4096) + 2) % 4096;
        self.execute(instruction, key, random);
        self.tick();
        Ok(Progress::Stepped)
    }

    /// Performs one cycle with the given random byte.
    ///
    /// `input` is the symbol that the input device shows at this moment, if
    /// any.  The cycle fetches the word at the program counter, decodes it
    /// and executes the instruction, and both timers count down once.
    ///
    /// A fault is returned with the state left as it was: a word that is no
    /// instruction, a call with sixteen calls pending, a return with none
    /// pending.  Where the instruction waits for a key and `input` asserts
    /// none, the result is `Progress::AwaitingKey` and the state is left as
    /// it was as well, the timers included.
    pub fn step(&mut self, input: Option<char>, random: u8) -> (result: Result<Progress, Fault>)
        ensures
            (result, final(self)@) == old(self)@.cycle(input, random),
            old(self)@.wf() ==> final(self)@.wf(),
    {
        proof {
            if self@.wf() {
                lemma_cycle_keeps_wf(self@, input, random);
            }
        }
        self.fetch_and_execute(input, random)
    }

    /// Whether the instruction at the program counter draws a random byte.
    pub fn draws_random(&self) -> (draws: bool)
        ensures
            draws == (decoded(self@.fetch()) matches Some(Instruction::Random { .. })),
    {
        let word: u16 = self.fetch();
        match Instruction::decode(word) {
            Some(Instruction::Random { .. }) => true,
            _ => false,
        }
    }

    /// Performs one cycle.
    ///
    /// This is `step` with the random byte drawn from the generator where
    /// the instruction at the program counter asks for one.
    pub fn execute_cycle(&mut self, input: Option<char>) -> (result: Result<Progress, Fault>)
        ensures
            exists|random: u8| (result, final(self)@) == #[trigger] old(self)@.cycle(input, random),
            old(self)@.wf() ==> final(self)@.wf(),
    {
        let random: u8 = if self.draws_random() {
            random_byte()
        } else {
            0
        };
        self.step(input, random)
    }
}

} // verus!
