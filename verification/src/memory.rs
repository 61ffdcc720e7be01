//! The 4096-byte memory with the built-in hexadecimal font.

use crate::fault::Fault;
use vstd::prelude::*;

verus! {

/// Number of addressable bytes.
pub const MEMORY_SIZE: usize = 4096;

/// Address at which program images are loaded.
pub const PROGRAM_START: usize = 0x200;

/// Largest program image that fits between the load address and the end of
/// memory.
pub const MAX_PROGRAM_SIZE: usize = 3584;

/// Number of bytes of the font table, which starts at address 0.
pub const FONT_SIZE: usize = 80;

/// Number of bytes of one glyph of the font.
pub const GLYPH_SIZE: usize = 5;

/// The glyphs of the hexadecimal digits `0` to `F`, five rows each, the
/// top row first.
pub open spec fn font() -> Seq<u8> {
    seq![
        0xF0u8, 0x90u8, 0x90u8, 0x90u8, 0xF0u8,
        0x20u8, 0x60u8, 0x20u8, 0x20u8, 0x70u8,
        0xF0u8, 0x10u8, 0xF0u8, 0x80u8, 0xF0u8,
        0xF0u8, 0x10u8, 0xF0u8, 0x10u8, 0xF0u8,
        0x90u8, 0x90u8, 0xF0u8, 0x10u8, 0x10u8,
        0xF0u8, 0x80u8, 0xF0u8, 0x10u8, 0xF0u8,
        0xF0u8, 0x80u8, 0xF0u8, 0x90u8, 0xF0u8,
        0xF0u8, 0x10u8, 0x20u8, 0x40u8, 0x40u8,
        0xF0u8, 0x90u8, 0xF0u8, 0x90u8, 0xF0u8,
        0xF0u8, 0x90u8, 0xF0u8, 0x10u8, 0xF0u8,
        0xF0u8, 0x90u8, 0xF0u8, 0x90u8, 0x90u8,
        0xE0u8, 0x90u8, 0xE0u8, 0x90u8, 0xE0u8,
        0xF0u8, 0x80u8, 0x80u8, 0x80u8, 0xF0u8,
        0xE0u8, 0x90u8, 0x90u8, 0x90u8, 0xE0u8,
        0xF0u8, 0x80u8, 0xF0u8, 0x80u8, 0xF0u8,
        0xF0u8, 0x80u8, 0xF0u8, 0x80u8, 0x80u8,
    ]
}

/// The memory of a machine that was just reset: the font table at its
/// start, zero everywhere else.
pub open spec fn initial_memory() -> Seq<u8> {
    Seq::new(
        MEMORY_SIZE as nat,
        |address: int|
            if address < FONT_SIZE {
                font()[address]
            } else {
                0u8
            },
    )
}

/// The memory `bytes` with `image` copied in from the load address on.
pub open spec fn loaded(bytes: Seq<u8>, image: Seq<u8>) -> Seq<u8> {
    Seq::new(
        bytes.len(),
        |address: int|
            if PROGRAM_START <= address < PROGRAM_START + image.len() {
                image[address - PROGRAM_START]
            } else {
                bytes[address]
            },
    )
}

/// Loading an image that fits into a freshly reset memory places the image
/// at the load address and leaves everything else as the reset left it: the
/// font at the start, zero in every other byte.
pub proof fn lemma_load_after_reset(image: Seq<u8>)
    requires
        image.len() <= MAX_PROGRAM_SIZE,
    ensures
        loaded(initial_memory(), image).len() == MEMORY_SIZE,
        forall|i: int|
            0 <= i < image.len() ==> #[trigger] loaded(initial_memory(), image)[PROGRAM_START + i]
                == image[i],
        forall|address: int|
            0 <= address < FONT_SIZE ==> #[trigger] loaded(initial_memory(), image)[address]
                == font()[address],
        forall|address: int|
            (FONT_SIZE <= address < PROGRAM_START || PROGRAM_START + image.len() <= address
                < MEMORY_SIZE) ==> #[trigger] loaded(initial_memory(), image)[address] == 0,
{
}

/// An address reduced to the twelve bits that the memory decodes.
pub open spec fn wrap_address(address: int) -> int {
    address % 4096
}

/// The memory of the machine.
pub struct Memory {
    bytes: Vec<u8>,
}

impl Memory {
    /// The bytes of the memory, by address.
    pub closed spec fn view(&self) -> Seq<u8> {
        self.bytes@
    }

    /// Every memory holds exactly `MEMORY_SIZE` bytes.
    #[verifier::type_invariant]
    pub open spec fn well_formed(&self) -> bool {
        self@.len() == MEMORY_SIZE
    }

    /// The font table as stored at the start of memory.
    fn font_table() -> (table: Vec<u8>)
        ensures
            table@ == font(),
    {
        vec![
            0xF0u8, 0x90u8, 0x90u8, 0x90u8, 0xF0u8,
            0x20u8, 0x60u8, 0x20u8, 0x20u8, 0x70u8,
            0xF0u8, 0x10u8, 0xF0u8, 0x80u8, 0xF0u8,
            0xF0u8, 0x10u8, 0xF0u8, 0x10u8, 0xF0u8,
            0x90u8, 0x90u8, 0xF0u8, 0x10u8, 0x10u8,
            0xF0u8, 0x80u8, 0xF0u8, 0x10u8, 0xF0u8,
            0xF0u8, 0x80u8, 0xF0u8, 0x90u8, 0xF0u8,
            0xF0u8, 0x10u8, 0x20u8, 0x40u8, 0x40u8,
            0xF0u8, 0x90u8, 0xF0u8, 0x90u8, 0xF0u8,
            0xF0u8, 0x90u8, 0xF0u8, 0x10u8, 0xF0u8,
            0xF0u8, 0x90u8, 0xF0u8, 0x90u8, 0x90u8,
            0xE0u8, 0x90u8, 0xE0u8, 0x90u8, 0xE0u8,
            0xF0u8, 0x80u8, 0x80u8, 0x80u8, 0xF0u8,
            0xE0u8, 0x90u8, 0x90u8, 0x90u8, 0xE0u8,
            0xF0u8, 0x80u8, 0xF0u8, 0x80u8, 0xF0u8,
            0xF0u8, 0x80u8, 0xF0u8, 0x80u8, 0x80u8,
        ]
    }

    /// A memory that holds the font table and is zero elsewhere.
    pub fn new() -> (memory: Memory)
        ensures
            memory@ == initial_memory(),
    {
        let mut memory = Memory { bytes: vec![0u8; MEMORY_SIZE] };
        memory.reset();
        memory
    }

    /// Restores the font table and zeroes every other byte.
    pub fn reset(&mut self)
        ensures
            final(self)@ == initial_memory(),
    {
        proof {
            use_type_invariant(&*self);
        }
        let table: Vec<u8> = Self::font_table();
        assert(table@.len() == 80);
        let mut address: usize = 0;
        while address < MEMORY_SIZE
            invariant
                address <= MEMORY_SIZE,
                self.bytes.len() == MEMORY_SIZE,
                table@ == font(),
                table@.len() == 80,
                forall|a: int| 0 <= a < address ==> self.bytes[a] == initial_memory()[a],
            decreases MEMORY_SIZE - address,
        {
            let value: u8 = if address < FONT_SIZE {
                table[address]
            } else {
                0
            };
            self.bytes[address] = value;
            address += 1;
        }
        assert(self.bytes@ =~= initial_memory());
    }

    /// Copies a program image into memory from the load address on.
    ///
    /// An image of more than `MAX_PROGRAM_SIZE` bytes is rejected and leaves
    /// the memory as it was.
    pub fn load(&mut self, image: &[u8]) -> (result: Result<(), Fault>)
        ensures
            image@.len() <= MAX_PROGRAM_SIZE ==> result == Ok::<(), Fault>(()) && final(self)@
                == loaded(old(self)@, image@),
            image@.len() > MAX_PROGRAM_SIZE ==> result == Err::<(), Fault>(
                Fault::ProgramTooLarge { length: image@.len() as usize },
            ) && final(self)@ == old(self)@,
    {
        proof {
            use_type_invariant(&*self);
        }
        if image.len() > MAX_PROGRAM_SIZE {
            return Err(Fault::ProgramTooLarge { length: image.len() });
        }
        let mut offset: usize = 0;
        while offset < image.len()
            invariant
                offset <= image.len(),
                image.len() <= MAX_PROGRAM_SIZE,
                self.bytes.len() == MEMORY_SIZE,
                old(self).bytes.len() == MEMORY_SIZE,
                forall|a: int|
                    0 <= a < MEMORY_SIZE ==> self.bytes[a] == (if PROGRAM_START <= a
                        < PROGRAM_START + offset {
                        image@[a - PROGRAM_START]
                    } else {
                        old(self).bytes[a]
                    }),
            decreases image.len() - offset,
        {
            self.bytes[PROGRAM_START + offset] = image[offset];
            offset += 1;
        }
        assert(self.bytes@ =~= loaded(old(self)@, image@));
        Ok(())
    }

    /// The byte at `address`, reduced to twelve bits.
    pub fn read(&self, address: u16) -> (value: u8)
        ensures
            value == self@[wrap_address(address as int)],
    {
        proof {
            use_type_invariant(self);
        }
        self.bytes[(address % 4096) as usize]
    }

    /// Stores `value` at `address`, reduced to twelve bits.
    pub fn write(&mut self, address: u16, value: u8)
        ensures
            final(self)@ == old(self)@.update(wrap_address(address as int), value),
    {
        proof {
            use_type_invariant(&*self);
        }
        self.bytes[(address % 4096) as usize] = value;
    }
}

} // verus!
