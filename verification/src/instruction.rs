//! The instruction set and its decoder.
//!
//! An instruction word has sixteen bits.  Its leading nibble selects the
//! family; the other nibbles hold register numbers (`x`, `y`), a 12-bit
//! address, an 8-bit immediate or a 4-bit selector within the family.

use vstd::arithmetic::div_mod::lemma_fundamental_div_mod_converse;
use vstd::prelude::*;

verus! {

/// One decoded instruction.
///
/// `x` and `y` are register numbers; the registers are written `Vx` and `Vy`
/// below, and `VF` is register 15, which some instructions use as a flag.
#[derive(Clone, Copy, Debug, PartialEq, Eq)]
pub enum Instruction {
    /// `00E0`: unset every cell of the screen.
    ClearScreen,
    /// `00EE`: return from a subroutine.
    Return,
    /// `1nnn`: jump to `address`.
    Jump { address: u16 },
    /// `2nnn`: call the subroutine at `address`.
    Call { address: u16 },
    /// `3xkk`: skip the next instruction if `Vx == value`.
    SkipIfEqual { x: u8, value: u8 },
    /// `4xkk`: skip the next instruction if `Vx != value`.
    SkipIfNotEqual { x: u8, value: u8 },
    /// `5xy0`: skip the next instruction if `Vx == Vy`.
    SkipIfRegistersEqual { x: u8, y: u8 },
    /// `6xkk`: `Vx = value`.
    Load { x: u8, value: u8 },
    /// `7xkk`: `Vx = Vx + value`, without a flag.
    AddImmediate { x: u8, value: u8 },
    /// `8xy0`: `Vx = Vy`.
    Copy { x: u8, y: u8 },
    /// `8xy1`: `Vx = Vx | Vy`.
    Or { x: u8, y: u8 },
    /// `8xy2`: `Vx = Vx & Vy`.
    And { x: u8, y: u8 },
    /// `8xy3`: `Vx = Vx ^ Vy`.
    Xor { x: u8, y: u8 },
    /// `8xy4`: `Vx = Vx + Vy`; `VF` is the carry.
    Add { x: u8, y: u8 },
    /// `8xy5`: `Vx = Vx - Vy`; `VF` is 1 unless the subtraction borrows.
    Subtract { x: u8, y: u8 },
    /// `8xy6`: `Vx` is shifted right by one; `VF` is the bit shifted out.
    ShiftRight { x: u8, y: u8 },
    /// `8xy7`: `Vx = Vy - Vx`; `VF` is 1 unless the subtraction borrows.
    SubtractFrom { x: u8, y: u8 },
    /// `8xyE`: `Vx` is shifted left by one; `VF` is the bit shifted out.
    ShiftLeft { x: u8, y: u8 },
    /// `9xy0`: skip the next instruction if `Vx != Vy`.
    SkipIfRegistersDiffer { x: u8, y: u8 },
    /// `Annn`: set the index register to `address`.
    LoadIndex { address: u16 },
    /// `Bnnn`: jump to `address + V0`.
    JumpOffset { address: u16 },
    /// `Cxkk`: `Vx` = a random byte masked by `mask`.
    Random { x: u8, mask: u8 },
    /// `Dxyn`: draw the sprite of `rows` bytes found at the index register
    /// at column `Vx`, row `Vy`; `VF` tells whether a cell went unset.
    Draw { x: u8, y: u8, rows: u8 },
    /// `Ex9E`: skip the next instruction if the key `Vx` is down.
    SkipIfKeyDown { x: u8 },
    /// `ExA1`: skip the next instruction if the key `Vx` is up.
    SkipIfKeyUp { x: u8 },
    /// `Fx07`: `Vx` = the delay timer.
    ReadDelay { x: u8 },
    /// `Fx0A`: wait for a key and store its code in `Vx`.
    AwaitKey { x: u8 },
    /// `Fx15`: the delay timer = `Vx`.
    SetDelay { x: u8 },
    /// `Fx18`: the sound timer = `Vx`.
    SetSound { x: u8 },
    /// `Fx1E`: add `Vx` to the index register.
    AddToIndex { x: u8 },
    /// `Fx29`: set the index register to the glyph of the low digit of `Vx`.
    LoadGlyph { x: u8 },
    /// `Fx33`: store the three decimal digits of `Vx` at the index register.
    StoreDecimal { x: u8 },
    /// `Fx55`: store `V0` to `Vx` in memory from the index register on.
    StoreRegisters { x: u8 },
    /// `Fx65`: load `V0` to `Vx` from memory at the index register.
    LoadRegisters { x: u8 },
}

/// The leading nibble of an instruction word.
pub open spec fn family(word: u16) -> int {
    word as int / 0x1000
}

/// The second nibble of an instruction word: the register number `x`.
pub open spec fn operand_x(word: u16) -> u8 {
    ((word as int / 0x100) % 0x10) as u8
}

/// The third nibble of an instruction word: the register number `y`.
pub open spec fn operand_y(word: u16) -> u8 {
    ((word as int / 0x10) % 0x10) as u8
}

/// The last nibble of an instruction word.
pub open spec fn operand_n(word: u16) -> u8 {
    (word as int % 0x10) as u8
}

/// The low byte of an instruction word: the immediate `kk`.
pub open spec fn operand_kk(word: u16) -> u8 {
    (word as int % 0x100) as u8
}

/// The low twelve bits of an instruction word: the address `nnn`.
pub open spec fn operand_nnn(word: u16) -> u16 {
    (word as int % 0x1000) as u16
}

/// The instruction of family 8 selected by the last nibble.
pub open spec fn decoded_arithmetic(x: u8, y: u8, n: u8) -> Option<Instruction> {
    if n == 0x0 {
        Some(Instruction::Copy { x, y })
    } else if n == 0x1 {
        Some(Instruction::Or { x, y })
    } else if n == 0x2 {
        Some(Instruction::And { x, y })
    } else if n == 0x3 {
        Some(Instruction::Xor { x, y })
    } else if n == 0x4 {
        Some(Instruction::Add { x, y })
    } else if n == 0x5 {
        Some(Instruction::Subtract { x, y })
    } else if n == 0x6 {
        Some(Instruction::ShiftRight { x, y })
    } else if n == 0x7 {
        Some(Instruction::SubtractFrom { x, y })
    } else if n == 0xE {
        Some(Instruction::ShiftLeft { x, y })
    } else {
        None
    }
}

/// The instruction of family F selected by the low byte.
pub open spec fn decoded_misc(x: u8, kk: u8) -> Option<Instruction> {
    if kk == 0x07 {
        Some(Instruction::ReadDelay { x })
    } else if kk == 0x0A {
        Some(Instruction::AwaitKey { x })
    } else if kk == 0x15 {
        Some(Instruction::SetDelay { x })
    } else if kk == 0x18 {
        Some(Instruction::SetSound { x })
    } else if kk == 0x1E {
        Some(Instruction::AddToIndex { x })
    } else if kk == 0x29 {
        Some(Instruction::LoadGlyph { x })
    } else if kk == 0x33 {
        Some(Instruction::StoreDecimal { x })
    } else if kk == 0x55 {
        Some(Instruction::StoreRegisters { x })
    } else if kk == 0x65 {
        Some(Instruction::LoadRegisters { x })
    } else {
        None
    }
}

/// The instruction that a word stands for, or `None` where the word is no
/// instruction of the machine.
pub open spec fn decoded(word: u16) -> Option<Instruction> {
    let x = operand_x(word);
    let y = operand_y(word);
    let n = operand_n(word);
    let kk = operand_kk(word);
    let address = operand_nnn(word);
    let family = family(word);
    if family == 0x0 {
        if word == 0x00E0 {
            Some(Instruction::ClearScreen)
        } else if word == 0x00EE {
            Some(Instruction::Return)
        } else {
            None
        }
    } else if family == 0x1 {
        Some(Instruction::Jump { address })
    } else if family == 0x2 {
        Some(Instruction::Call { address })
    } else if family == 0x3 {
        Some(Instruction::SkipIfEqual { x, value: kk })
    } else if family == 0x4 {
        Some(Instruction::SkipIfNotEqual { x, value: kk })
    } else if family == 0x5 {
        if n == 0 {
            Some(Instruction::SkipIfRegistersEqual { x, y })
        } else {
            None
        }
    } else if family == 0x6 {
        Some(Instruction::Load { x, value: kk })
    } else if family == 0x7 {
        Some(Instruction::AddImmediate { x, value: kk })
    } else if family == 0x8 {
        decoded_arithmetic(x, y, n)
    } else if family == 0x9 {
        if n == 0 {
            Some(Instruction::SkipIfRegistersDiffer { x, y })
        } else {
            None
        }
    } else if family == 0xA {
        Some(Instruction::LoadIndex { address })
    } else if family == 0xB {
        Some(Instruction::JumpOffset { address })
    } else if family == 0xC {
        Some(Instruction::Random { x, mask: kk })
    } else if family == 0xD {
        Some(Instruction::Draw { x, y, rows: n })
    } else if family == 0xE {
        if kk == 0x9E {
            Some(Instruction::SkipIfKeyDown { x })
        } else if kk == 0xA1 {
            Some(Instruction::SkipIfKeyUp { x })
        } else {
            None
        }
    } else {
        decoded_misc(x, kk)
    }
}

/// An instruction word is made of its four nibbles, and its operands are
/// made of them in turn.
proof fn lemma_word_fields(word: u16)
    ensures
        0 <= family(word) < 16,
        operand_x(word) < 16,
        operand_y(word) < 16,
        operand_n(word) < 16,
        operand_nnn(word) < 4096,
        word == family(word) * 0x1000 + operand_x(word) * 0x100 + operand_y(word) * 0x10 + operand_n(
            word,
        ),
        operand_kk(word) == operand_y(word) * 0x10 + operand_n(word),
        operand_nnn(word) == operand_x(word) * 0x100 + operand_kk(word),
{
}

/// The leading nibble and the address of a word put together from them.
proof fn lemma_address_word(leading: int, address: int)
    requires
        0 <= leading < 16,
        0 <= address < 4096,
    ensures
        0 <= leading * 0x1000 + address <= 0xFFFF,
        family((leading * 0x1000 + address) as u16) == leading,
        operand_nnn((leading * 0x1000 + address) as u16) == address,
{
    let word = leading * 0x1000 + address;
    lemma_fundamental_div_mod_converse(word, 0x1000, leading, address);
}

/// The leading nibble, the register number and the immediate of a word put
/// together from them.
proof fn lemma_immediate_word(leading: int, x: int, kk: int)
    requires
        0 <= leading < 16,
        0 <= x < 16,
        0 <= kk < 256,
    ensures
        0 <= leading * 0x1000 + x * 0x100 + kk <= 0xFFFF,
        family((leading * 0x1000 + x * 0x100 + kk) as u16) == leading,
        operand_x((leading * 0x1000 + x * 0x100 + kk) as u16) == x,
        operand_kk((leading * 0x1000 + x * 0x100 + kk) as u16) == kk,
{
    let word = leading * 0x1000 + x * 0x100 + kk;
    lemma_fundamental_div_mod_converse(word, 0x1000, leading, x * 0x100 + kk);
    lemma_fundamental_div_mod_converse(word, 0x100, leading * 0x10 + x, kk);
    lemma_fundamental_div_mod_converse(leading * 0x10 + x, 0x10, leading, x);
}

/// The four nibbles of a word put together from them.
proof fn lemma_register_word(leading: int, x: int, y: int, n: int)
    requires
        0 <= leading < 16,
        0 <= x < 16,
        0 <= y < 16,
        0 <= n < 16,
    ensures
        0 <= leading * 0x1000 + x * 0x100 + y * 0x10 + n <= 0xFFFF,
        family((leading * 0x1000 + x * 0x100 + y * 0x10 + n) as u16) == leading,
        operand_x((leading * 0x1000 + x * 0x100 + y * 0x10 + n) as u16) == x,
        operand_y((leading * 0x1000 + x * 0x100 + y * 0x10 + n) as u16) == y,
        operand_n((leading * 0x1000 + x * 0x100 + y * 0x10 + n) as u16) == n,
{
    let word = leading * 0x1000 + x * 0x100 + y * 0x10 + n;
    lemma_fundamental_div_mod_converse(word, 0x1000, leading, x * 0x100 + y * 0x10 + n);
    lemma_fundamental_div_mod_converse(word, 0x100, leading * 0x10 + x, y * 0x10 + n);
    lemma_fundamental_div_mod_converse(leading * 0x10 + x, 0x10, leading, x);
    lemma_fundamental_div_mod_converse(word, 0x10, leading * 0x100 + x * 0x10 + y, n);
    lemma_fundamental_div_mod_converse(leading * 0x100 + x * 0x10 + y, 0x10, leading * 0x10 + x, y);
}

/// Every instruction with operands in range has a word of its own, and the
/// decoder finds the instruction in it.
pub proof fn lemma_decode_inverts_encode(instruction: Instruction)
    requires
        instruction.in_range(),
    ensures
        0 <= instruction.encoded() <= 0xFFFF,
        decoded(instruction.encoded() as u16) == Some(instruction),
{
    match instruction {
        Instruction::ClearScreen => {
            lemma_immediate_word(0x0, 0x0, 0xE0);
        },
        Instruction::Return => {
            lemma_immediate_word(0x0, 0x0, 0xEE);
        },
        Instruction::Jump { address } => {
            lemma_address_word(0x1, address as int);
        },
        Instruction::Call { address } => {
            lemma_address_word(0x2, address as int);
        },
        Instruction::LoadIndex { address } => {
            lemma_address_word(0xa, address as int);
        },
        Instruction::JumpOffset { address } => {
            lemma_address_word(0xb, address as int);
        },
        Instruction::SkipIfEqual { x, value } => {
            lemma_immediate_word(0x3, x as int, value as int);
        },
        Instruction::SkipIfNotEqual { x, value } => {
            lemma_immediate_word(0x4, x as int, value as int);
        },
        Instruction::Load { x, value } => {
            lemma_immediate_word(0x6, x as int, value as int);
        },
        Instruction::AddImmediate { x, value } => {
            lemma_immediate_word(0x7, x as int, value as int);
        },
        Instruction::Random { x, mask } => {
            lemma_immediate_word(0xc, x as int, mask as int);
        },
        Instruction::SkipIfRegistersEqual { x, y } => {
            lemma_register_word(0x5, x as int, y as int, 0x0);
        },
        Instruction::Copy { x, y } => {
            lemma_register_word(0x8, x as int, y as int, 0x0);
        },
        Instruction::Or { x, y } => {
            lemma_register_word(0x8, x as int, y as int, 0x1);
        },
        Instruction::And { x, y } => {
            lemma_register_word(0x8, x as int, y as int, 0x2);
        },
        Instruction::Xor { x, y } => {
            lemma_register_word(0x8, x as int, y as int, 0x3);
        },
        Instruction::Add { x, y } => {
            lemma_register_word(0x8, x as int, y as int, 0x4);
        },
        Instruction::Subtract { x, y } => {
            lemma_register_word(0x8, x as int, y as int, 0x5);
        },
        Instruction::ShiftRight { x, y } => {
            lemma_register_word(0x8, x as int, y as int, 0x6);
        },
        Instruction::SubtractFrom { x, y } => {
            lemma_register_word(0x8, x as int, y as int, 0x7);
        },
        Instruction::ShiftLeft { x, y } => {
            lemma_register_word(0x8, x as int, y as int, 0xe);
        },
        Instruction::SkipIfRegistersDiffer { x, y } => {
            lemma_register_word(0x9, x as int, y as int, 0x0);
        },
        Instruction::Draw { x, y, rows } => {
            lemma_register_word(0xD, x as int, y as int, rows as int);
        },
        Instruction::SkipIfKeyDown { x } => {
            lemma_immediate_word(0xe, x as int, 0x9e);
        },
        Instruction::SkipIfKeyUp { x } => {
            lemma_immediate_word(0xe, x as int, 0xa1);
        },
        Instruction::ReadDelay { x } => {
            lemma_immediate_word(0xf, x as int, 0x7);
        },
        Instruction::AwaitKey { x } => {
            lemma_immediate_word(0xf, x as int, 0xa);
        },
        Instruction::SetDelay { x } => {
            lemma_immediate_word(0xf, x as int, 0x15);
        },
        Instruction::SetSound { x } => {
            lemma_immediate_word(0xf, x as int, 0x18);
        },
        Instruction::AddToIndex { x } => {
            lemma_immediate_word(0xf, x as int, 0x1e);
        },
        Instruction::LoadGlyph { x } => {
            lemma_immediate_word(0xf, x as int, 0x29);
        },
        Instruction::StoreDecimal { x } => {
            lemma_immediate_word(0xf, x as int, 0x33);
        },
        Instruction::StoreRegisters { x } => {
            lemma_immediate_word(0xf, x as int, 0x55);
        },
        Instruction::LoadRegisters { x } => {
            lemma_immediate_word(0xf, x as int, 0x65);
        },
    }
}

/// A word decodes to an instruction exactly when it is the word of an
/// instruction with operands in range, and to that instruction.
pub proof fn lemma_encode_inverts_decode(word: u16)
    ensures
        decoded(word) matches Some(instruction) ==> instruction.in_range() && instruction.encoded()
            == word,
{
    lemma_word_fields(word);
}

impl Instruction {
    /// Whether every operand is within the range that an instruction word
    /// can hold: register numbers and row counts below 16, addresses below
    /// 4096.
    pub open spec fn in_range(self) -> bool {
        match self {
            Instruction::ClearScreen | Instruction::Return => true,
            Instruction::Jump { address }
            | Instruction::Call { address }
            | Instruction::LoadIndex { address }
            | Instruction::JumpOffset { address } => address < 4096,
            Instruction::SkipIfEqual { x, .. }
            | Instruction::SkipIfNotEqual { x, .. }
            | Instruction::Load { x, .. }
            | Instruction::AddImmediate { x, .. }
            | Instruction::Random { x, .. }
            | Instruction::SkipIfKeyDown { x }
            | Instruction::SkipIfKeyUp { x }
            | Instruction::ReadDelay { x }
            | Instruction::AwaitKey { x }
            | Instruction::SetDelay { x }
            | Instruction::SetSound { x }
            | Instruction::AddToIndex { x }
            | Instruction::LoadGlyph { x }
            | Instruction::StoreDecimal { x }
            | Instruction::StoreRegisters { x }
            | Instruction::LoadRegisters { x } => x < 16,
            Instruction::SkipIfRegistersEqual { x, y }
            | Instruction::Copy { x, y }
            | Instruction::Or { x, y }
            | Instruction::And { x, y }
            | Instruction::Xor { x, y }
            | Instruction::Add { x, y }
            | Instruction::Subtract { x, y }
            | Instruction::ShiftRight { x, y }
            | Instruction::SubtractFrom { x, y }
            | Instruction::ShiftLeft { x, y }
            | Instruction::SkipIfRegistersDiffer { x, y } => x < 16 && y < 16,
            Instruction::Draw { x, y, rows } => x < 16 && y < 16 && rows < 16,
        }
    }

    /// The word that stands for the instruction: the family in the leading
    /// nibble, the operands and the selector in the nibbles after it.
    pub open spec fn encoded(self) -> int {
        match self {
            Instruction::ClearScreen => 0x00E0,
            Instruction::Return => 0x00EE,
            Instruction::Jump { address } => 0x1000 + address,
            Instruction::Call { address } => 0x2000 + address,
            Instruction::SkipIfEqual { x, value } => 0x3000 + x * 0x100 + value,
            Instruction::SkipIfNotEqual { x, value } => 0x4000 + x * 0x100 + value,
            Instruction::SkipIfRegistersEqual { x, y } => 0x5000 + x * 0x100 + y * 0x10,
            Instruction::Load { x, value } => 0x6000 + x * 0x100 + value,
            Instruction::AddImmediate { x, value } => 0x7000 + x * 0x100 + value,
            Instruction::Copy { x, y } => 0x8000 + x * 0x100 + y * 0x10,
            Instruction::Or { x, y } => 0x8001 + x * 0x100 + y * 0x10,
            Instruction::And { x, y } => 0x8002 + x * 0x100 + y * 0x10,
            Instruction::Xor { x, y } => 0x8003 + x * 0x100 + y * 0x10,
            Instruction::Add { x, y } => 0x8004 + x * 0x100 + y * 0x10,
            Instruction::Subtract { x, y } => 0x8005 + x * 0x100 + y * 0x10,
            Instruction::ShiftRight { x, y } => 0x8006 + x * 0x100 + y * 0x10,
            Instruction::SubtractFrom { x, y } => 0x8007 + x * 0x100 + y * 0x10,
            Instruction::ShiftLeft { x, y } => 0x800E + x * 0x100 + y * 0x10,
            Instruction::SkipIfRegistersDiffer { x, y } => 0x9000 + x * 0x100 + y * 0x10,
            Instruction::LoadIndex { address } => 0xA000 + address,
            Instruction::JumpOffset { address } => 0xB000 + address,
            Instruction::Random { x, mask } => 0xC000 + x * 0x100 + mask,
            Instruction::Draw { x, y, rows } => 0xD000 + x * 0x100 + y * 0x10 + rows,
            Instruction::SkipIfKeyDown { x } => 0xE09E + x * 0x100,
            Instruction::SkipIfKeyUp { x } => 0xE0A1 + x * 0x100,
            Instruction::ReadDelay { x } => 0xF007 + x * 0x100,
            Instruction::AwaitKey { x } => 0xF00A + x * 0x100,
            Instruction::SetDelay { x } => 0xF015 + x * 0x100,
            Instruction::SetSound { x } => 0xF018 + x * 0x100,
            Instruction::AddToIndex { x } => 0xF01E + x * 0x100,
            Instruction::LoadGlyph { x } => 0xF029 + x * 0x100,
            Instruction::StoreDecimal { x } => 0xF033 + x * 0x100,
            Instruction::StoreRegisters { x } => 0xF055 + x * 0x100,
            Instruction::LoadRegisters { x } => 0xF065 + x * 0x100,
        }
    }

    /// Decodes an instruction word.
    ///
    /// The operands of a decoded instruction are in range; a word that is no
    /// instruction of the machine decodes to `None`.
    pub fn decode(word: u16) -> (instruction: Option<Instruction>)
        ensures
            instruction == decoded(word),
            instruction matches Some(decoded) ==> decoded.in_range(),
    {
        let x: u8 = ((word / 0x100) % 0x10) as u8;
        let y: u8 = ((word / 0x10) % 0x10) as u8;
        let n: u8 = (word % 0x10) as u8;
        let kk: u8 = (word % 0x100) as u8;
        let address: u16 = word % 0x1000;
        let family: u16 = word / 0x1000;
        match family {
            0x0 => {
                if word == 0x00E0 {
                    Some(Instruction::ClearScreen)
                } else if word == 0x00EE {
                    Some(Instruction::Return)
                } else {
                    None
                }
            },
            0x1 => Some(Instruction::Jump { address }),
            0x2 => Some(Instruction::Call { address }),
            0x3 => Some(Instruction::SkipIfEqual { x, value: kk }),
            0x4 => Some(Instruction::SkipIfNotEqual { x, value: kk }),
            0x5 => {
                if n == 0 {
                    Some(Instruction::SkipIfRegistersEqual { x, y })
                } else {
                    None
                }
            },
            0x6 => Some(Instruction::Load { x, value: kk }),
            0x7 => Some(Instruction::AddImmediate { x, value: kk }),
            0x8 => {
                match n {
                    0x0 => Some(Instruction::Copy { x, y }),
                    0x1 => Some(Instruction::Or { x, y }),
                    0x2 => Some(Instruction::And { x, y }),
                    0x3 => Some(Instruction::Xor { x, y }),
                    0x4 => Some(Instruction::Add { x, y }),
                    0x5 => Some(Instruction::Subtract { x, y }),
                    0x6 => Some(Instruction::ShiftRight { x, y }),
                    0x7 => Some(Instruction::SubtractFrom { x, y }),
                    0xE => Some(Instruction::ShiftLeft { x, y }),
                    _ => None,
                }
            },
            0x9 => {
                if n == 0 {
                    Some(Instruction::SkipIfRegistersDiffer { x, y })
                } else {
                    None
                }
            },
            0xA => Some(Instruction::LoadIndex { address }),
            0xB => Some(Instruction::JumpOffset { address }),
            0xC => Some(Instruction::Random { x, mask: kk }),
            0xD => Some(Instruction::Draw { x, y, rows: n }),
            0xE => {
                match kk {
                    0x9E => Some(Instruction::SkipIfKeyDown { x }),
                    0xA1 => Some(Instruction::SkipIfKeyUp { x }),
                    _ => None,
                }
            },
            _ => {
                match kk {
                    0x07 => Some(Instruction::ReadDelay { x }),
                    0x0A => Some(Instruction::AwaitKey { x }),
                    0x15 => Some(Instruction::SetDelay { x }),
                    0x18 => Some(Instruction::SetSound { x }),
                    0x1E => Some(Instruction::AddToIndex { x }),
                    0x29 => Some(Instruction::LoadGlyph { x }),
                    0x33 => Some(Instruction::StoreDecimal { x }),
                    0x55 => Some(Instruction::StoreRegisters { x }),
                    0x65 => Some(Instruction::LoadRegisters { x }),
                    _ => None,
                }
            },
        }
    }
}

} // verus!
