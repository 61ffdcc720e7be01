//! The mathematical model of the machine: its state and what one cycle
//! makes of it.

use crate::display::{collides, drawn, Screen};
use crate::fault::Fault;
use crate::instruction::{decoded, Instruction};
use crate::keypad::pressed_key;
use crate::memory::{initial_memory, wrap_address, MEMORY_SIZE, PROGRAM_START};
use vstd::prelude::*;

verus! {

/// Number of general-purpose registers.
pub const REGISTER_COUNT: usize = 16;

/// Number of the register that doubles as the flag, `VF`.
pub const FLAG_REGISTER: usize = 15;

/// Largest number of pending subroutine calls.
pub const STACK_DEPTH: usize = 16;

/// How a cycle ended where it did not fault.
#[derive(Clone, Copy, Debug, PartialEq, Eq)]
pub enum Progress {
    /// One instruction was executed and the timers counted down.
    Stepped,
    /// The instruction at the program counter waits for a key and none was
    /// supplied: nothing changed, the timers included.
    AwaitingKey,
}

/// The state of a machine.
pub struct Machine {
    /// The 4096 bytes of memory.
    pub memory: Seq<u8>,
    /// The registers `V0` to `VF`.
    pub registers: Seq<u8>,
    /// The index register, kept to twelve bits.
    pub index: u16,
    /// The program counter, kept to twelve bits.
    pub pc: u16,
    /// The return addresses of the pending calls, the oldest first.
    pub stack: Seq<u16>,
    /// The delay timer.
    pub delay: u8,
    /// The sound timer.
    pub sound: u8,
    /// The framebuffer.
    pub screen: Screen,
}

/// A timer after one cycle: one less, and never below zero.
pub open spec fn counted_down(timer: u8) -> u8 {
    if timer > 0 {
        (timer - 1) as u8
    } else {
        0u8
    }
}

impl Machine {
    /// The sizes and ranges that every machine state keeps.
    pub open spec fn wf(self) -> bool {
        &&& self.memory.len() == MEMORY_SIZE
        &&& self.registers.len() == REGISTER_COUNT
        &&& self.index < 4096
        &&& self.pc < 4096
        &&& self.stack.len() <= STACK_DEPTH
        &&& forall|i: int| 0 <= i < self.stack.len() ==> self.stack[i] < 4096
        &&& self.screen.wf()
    }

    /// The state after a reset: the font in memory, everything else zero,
    /// the program counter at the load address.
    pub open spec fn initial() -> Machine {
        Machine {
            memory: initial_memory(),
            registers: Seq::new(REGISTER_COUNT as nat, |r: int| 0u8),
            index: 0,
            pc: PROGRAM_START as u16,
            stack: Seq::empty(),
            delay: 0,
            sound: 0,
            screen: Screen::blank(),
        }
    }

    /// Whether two states differ at most in the overlay of the framebuffer.
    pub open spec fn same_but_overlay(self, other: Machine) -> bool {
        &&& self.memory == other.memory
        &&& self.registers == other.registers
        &&& self.index == other.index
        &&& self.pc == other.pc
        &&& self.stack == other.stack
        &&& self.delay == other.delay
        &&& self.sound == other.sound
        &&& self.screen.pixels == other.screen.pixels
    }

    /// The byte at an address, reduced to twelve bits.
    pub open spec fn byte_at(self, address: int) -> u8 {
        self.memory[wrap_address(address)]
    }

    /// The instruction word at the program counter: the byte there is the
    /// high half, the byte after it the low half.
    pub open spec fn fetch(self) -> u16 {
        (self.byte_at(self.pc as int) as int * 256 + self.byte_at(self.pc + 1) as int) as u16
    }

    /// The value of register `x`.
    pub open spec fn register(self, x: u8) -> u8 {
        self.registers[x as int]
    }

    /// The state with register `x` set to `value`.
    pub open spec fn with_register(self, x: u8, value: u8) -> Machine {
        Machine { registers: self.registers.update(x as int, value), ..self }
    }

    /// The state with `VF` set to 1 where `flag` holds and to 0 where not.
    pub open spec fn with_flag(self, flag: bool) -> Machine {
        self.with_register(
            FLAG_REGISTER as u8,
            if flag {
                1u8
            } else {
                0u8
            },
        )
    }

    /// The state with the program counter moved past one instruction.
    pub open spec fn advanced(self) -> Machine {
        Machine { pc: ((self.pc + 2) % 4096) as u16, ..self }
    }

    /// The state with the next instruction skipped where `condition` holds.
    pub open spec fn skipping(self, condition: bool) -> Machine {
        if condition {
            self.advanced()
        } else {
            self
        }
    }

    /// The state with both timers counted down once.
    pub open spec fn ticked(self) -> Machine {
        Machine { delay: counted_down(self.delay), sound: counted_down(self.sound), ..self }
    }

    /// The `rows` bytes of the sprite at the index register.
    pub open spec fn sprite(self, rows: u8) -> Seq<u8> {
        Seq::new(rows as nat, |row: int| self.byte_at(self.index + row))
    }

    /// The state with the three decimal digits of `value` stored at the
    /// index register, the hundreds first.
    pub open spec fn with_decimal(self, value: u8) -> Machine {
        Machine {
            memory: self.memory.update(wrap_address(self.index as int), (value / 100) as u8).update(
                wrap_address(self.index + 1),
                ((value / 10) % 10) as u8,
            ).update(wrap_address(self.index + 2), (value % 10) as u8),
            ..self
        }
    }

    /// The state with `V0` to `Vx` stored in memory from the index register
    /// on.
    pub open spec fn with_registers_stored(self, x: u8) -> Machine {
        Machine {
            memory: Seq::new(
                self.memory.len(),
                |address: int|
                    {
                        let offset = (address - self.index) % 4096;
                        if offset <= x {
                            self.registers[offset]
                        } else {
                            self.memory[address]
                        }
                    },
            ),
            ..self
        }
    }

    /// The state with `V0` to `Vx` loaded from memory at the index register.
    pub open spec fn with_registers_loaded(self, x: u8) -> Machine {
        Machine {
            registers: Seq::new(
                self.registers.len(),
                |r: int|
                    if r <= x {
                        self.byte_at(self.index + r)
                    } else {
                        self.registers[r]
                    },
            ),
            ..self
        }
    }

    /// The state with a sprite of `rows` bytes drawn at column `Vx`, row
    /// `Vy`, and `VF` telling whether a cell went from set to unset.
    pub open spec fn with_sprite_drawn(self, x: u8, y: u8, rows: u8) -> Machine {
        let sprite = self.sprite(rows);
        let column = self.register(x) as int;
        let line = self.register(y) as int;
        Machine { screen: drawn(self.screen, column, line, sprite), ..self }.with_flag(
            collides(self.screen.pixels, column, line, sprite, rows as int),
        )
    }

    /// What an instruction makes of a state whose program counter already
    /// points past it.
    ///
    /// `key` is the logical key that is down, if any; `random` is the byte
    /// that the random instruction draws.  Arithmetic on registers wraps at
    /// 256; the flag is written after the result, so it wins where `x` is 15.
    pub open spec fn execute(self, instruction: Instruction, key: Option<u8>, random: u8) -> Machine {
        match instruction {
            Instruction::ClearScreen => Machine { screen: Screen::blank(), ..self },
            Instruction::Return => Machine {
                pc: self.stack.last(),
                stack: self.stack.drop_last(),
                ..self
            },
            Instruction::Jump { address } => Machine { pc: address, ..self },
            Instruction::Call { address } => Machine {
                pc: address,
                stack: self.stack.push(self.pc),
                ..self
            },
            Instruction::SkipIfEqual { x, value } => self.skipping(self.register(x) == value),
            Instruction::SkipIfNotEqual { x, value } => self.skipping(self.register(x) != value),
            Instruction::SkipIfRegistersEqual { x, y } => self.skipping(
                self.register(x) == self.register(y),
            ),
            Instruction::Load { x, value } => self.with_register(x, value),
            Instruction::AddImmediate { x, value } => self.with_register(
                x,
                ((self.register(x) + value) % 256) as u8,
            ),
            Instruction::Copy { x, y } => self.with_register(x, self.register(y)),
            Instruction::Or { x, y } => self.with_register(x, self.register(x) | self.register(y)),
            Instruction::And { x, y } => self.with_register(x, self.register(x) & self.register(y)),
            Instruction::Xor { x, y } => self.with_register(x, self.register(x) ^ self.register(y)),
            Instruction::Add { x, y } => {
                let sum = self.register(x) + self.register(y);
                self.with_register(x, (sum % 256) as u8).with_flag(sum > 255)
            },
            Instruction::Subtract { x, y } => {
                let difference = self.register(x) - self.register(y);
                self.with_register(x, (difference % 256) as u8).with_flag(difference >= 0)
            },
            Instruction::ShiftRight { x, y } => {
                let value = self.register(x);
                self.with_register(x, (value / 2) as u8).with_flag(value % 2 == 1)
            },
            Instruction::SubtractFrom { x, y } => {
                let difference = self.register(y) - self.register(x);
                self.with_register(x, (difference % 256) as u8).with_flag(difference >= 0)
            },
            Instruction::ShiftLeft { x, y } => {
                let value = self.register(x);
                self.with_register(x, ((value * 2) % 256) as u8).with_flag(value >= 128)
            },
            Instruction::SkipIfRegistersDiffer { x, y } => self.skipping(
                self.register(x) != self.register(y),
            ),
            Instruction::LoadIndex { address } => Machine { index: address, ..self },
            Instruction::JumpOffset { address } => Machine {
                pc: ((address + self.register(0)) % 4096) as u16,
                ..self
            },
            Instruction::Random { x, mask } => self.with_register(x, random & mask),
            Instruction::Draw { x, y, rows } => self.with_sprite_drawn(x, y, rows),
            Instruction::SkipIfKeyDown { x } => self.skipping(key == Some(self.register(x))),
            Instruction::SkipIfKeyUp { x } => self.skipping(key != Some(self.register(x))),
            Instruction::ReadDelay { x } => self.with_register(x, self.delay),
            Instruction::AwaitKey { x } => match key {
                Some(code) => self.with_register(x, code),
                None => self,
            },
            Instruction::SetDelay { x } => Machine { delay: self.register(x), ..self },
            Instruction::SetSound { x } => Machine { sound: self.register(x), ..self },
            Instruction::AddToIndex { x } => Machine {
                index: ((self.index + self.register(x)) % 4096) as u16,
                ..self
            },
            Instruction::LoadGlyph { x } => Machine {
                index: ((self.register(x) % 16) * 5) as u16,
                ..self
            },
            Instruction::StoreDecimal { x } => self.with_decimal(self.register(x)),
            Instruction::StoreRegisters { x } => self.with_registers_stored(x),
            Instruction::LoadRegisters { x } => self.with_registers_loaded(x),
        }
    }

    /// The fault that the instruction at the program counter raises, if any:
    /// a word that is no instruction, a call with the stack full, a return
    /// with the stack empty.
    pub open spec fn fault(self) -> Option<Fault> {
        match decoded(self.fetch()) {
            None => Some(Fault::UnknownInstruction { address: self.pc, word: self.fetch() }),
            Some(Instruction::Call { .. }) => if self.stack.len() >= STACK_DEPTH {
                Some(Fault::StackOverflow)
            } else {
                None
            },
            Some(Instruction::Return) => if self.stack.len() == 0 {
                Some(Fault::StackUnderflow)
            } else {
                None
            },
            Some(_) => None,
        }
    }

    /// Whether the instruction at the program counter waits for a key while
    /// the input asserts none.
    pub open spec fn awaits_key(self, input: Option<char>) -> bool {
        decoded(self.fetch()) matches Some(Instruction::AwaitKey { .. }) && pressed_key(input).is_none()
    }

    /// How the cycle ends that follows the first `cycles` cycles.
    pub open spec fn outcome(
        self,
        inputs: Seq<Option<char>>,
        randoms: Seq<u8>,
        cycles: nat,
    ) -> Result<Progress, Fault> {
        self.run(inputs, randoms, cycles).cycle(inputs[cycles as int], randoms[cycles as int]).0
    }

    /// The state after `cycles` cycles, where cycle `k` (counted from 0)
    /// gets `inputs[k]` as its input and `randoms[k]` as its random byte.
    pub open spec fn run(self, inputs: Seq<Option<char>>, randoms: Seq<u8>, cycles: nat) -> Machine
        decreases cycles,
    {
        if cycles == 0 {
            self
        } else {
            self.run(inputs, randoms, (cycles - 1) as nat).cycle(
                inputs[cycles - 1],
                randoms[cycles - 1],
            ).1
        }
    }

    /// One cycle: how it ends and the state it leaves.
    ///
    /// A fault leaves the state as it was.  So does a wait for a key that
    /// the input does not satisfy: the timers stand still while the machine
    /// waits.  Otherwise the program counter moves past the instruction, the
    /// instruction is executed, and both timers count down.
    pub open spec fn cycle(self, input: Option<char>, random: u8) -> (Result<Progress, Fault>, Machine) {
        match self.fault() {
            Some(fault) => (Err(fault), self),
            None => if self.awaits_key(input) {
                (Ok(Progress::AwaitingKey), self)
            } else {
                (
                    Ok(Progress::Stepped),
                    self.advanced().execute(
                        decoded(self.fetch()).unwrap(),
                        pressed_key(input),
                        random,
                    ).ticked(),
                )
            },
        }
    }
}

} // verus!
