//! The sixteen-key hexadecimal keypad and its fixed physical layout.

use vstd::prelude::*;

verus! {

/// Number of keys on the pad.
pub const KEY_COUNT: usize = 16;

/// The physical symbols of the pad, row by row of the 4x4 layout.
pub open spec fn layout() -> Seq<char> {
    seq!['1', '2', '3', '4', 'q', 'w', 'e', 'r', 'a', 's', 'd', 'f', 'z', 'x', 'c', 'v']
}

/// The logical key code found at each position of `layout`.
pub open spec fn layout_codes() -> Seq<u8> {
    seq![0x1u8, 0x2u8, 0x3u8, 0xCu8, 0x4u8, 0x5u8, 0x6u8, 0xDu8, 0x7u8, 0x8u8, 0x9u8, 0xEu8, 0xAu8,
        0x0u8, 0xBu8, 0xFu8]
}

/// The physical symbol assigned to a logical key code.
///
/// Codes above `0xF` name no key; the function is only meaningful below 16.
pub open spec fn symbol_of(code: u8) -> char {
    if code == 0x0 {
        'x'
    } else if code == 0x1 {
        '1'
    } else if code == 0x2 {
        '2'
    } else if code == 0x3 {
        '3'
    } else if code == 0x4 {
        'q'
    } else if code == 0x5 {
        'w'
    } else if code == 0x6 {
        'e'
    } else if code == 0x7 {
        'a'
    } else if code == 0x8 {
        's'
    } else if code == 0x9 {
        'd'
    } else if code == 0xA {
        'z'
    } else if code == 0xB {
        'c'
    } else if code == 0xC {
        '4'
    } else if code == 0xD {
        'r'
    } else if code == 0xE {
        'f'
    } else {
        'v'
    }
}

/// The logical key code that a physical symbol stands for, if it is one of
/// the sixteen symbols of the pad.
pub open spec fn code_of(symbol: char) -> Option<u8> {
    if exists|code: u8| code < 16 && symbol_of(code) == symbol {
        Some(choose|code: u8| code < 16 && symbol_of(code) == symbol)
    } else {
        None
    }
}

/// The code of the first symbol of `symbols` that belongs to the pad.
pub open spec fn first_code(symbols: Seq<char>) -> Option<u8>
    decreases symbols.len(),
{
    if symbols.len() == 0 {
        None
    } else if code_of(symbols[0]).is_some() {
        code_of(symbols[0])
    } else {
        first_code(symbols.drop_first())
    }
}

/// The logical key asserted by one snapshot of the input device: the code of
/// the observed symbol, or nothing where no symbol was observed or the symbol
/// is not on the pad.
pub open spec fn pressed_key(input: Option<char>) -> Option<u8> {
    match input {
        Some(symbol) => code_of(symbol),
        None => None,
    }
}

/// Every position of the layout holds the symbol of the code listed for it,
/// and every code below 16 is listed exactly once.
pub proof fn lemma_layout_matches_codes()
    ensures
        layout().len() == 16,
        layout_codes().len() == 16,
        forall|p: int| 0 <= p < 16 ==> #[trigger] layout_codes()[p] < 16,
        forall|p: int| 0 <= p < 16 ==> #[trigger] layout()[p] == symbol_of(layout_codes()[p]),
        forall|code: u8| code < 16 ==> layout().contains(#[trigger] symbol_of(code)),
{
    assert(layout_codes()[13] == 0x0);
    assert(layout_codes()[0] == 0x1);
    assert(layout_codes()[1] == 0x2);
    assert(layout_codes()[2] == 0x3);
    assert(layout_codes()[4] == 0x4);
    assert(layout_codes()[5] == 0x5);
    assert(layout_codes()[6] == 0x6);
    assert(layout_codes()[8] == 0x7);
    assert(layout_codes()[9] == 0x8);
    assert(layout_codes()[10] == 0x9);
    assert(layout_codes()[12] == 0xA);
    assert(layout_codes()[14] == 0xB);
    assert(layout_codes()[3] == 0xC);
    assert(layout_codes()[7] == 0xD);
    assert(layout_codes()[11] == 0xE);
    assert(layout_codes()[15] == 0xF);
    assert forall|code: u8| code < 16 implies layout().contains(#[trigger] symbol_of(code)) by {
        let p: int = if code == 0 {
            13
        } else if code <= 3 {
            code - 1
        } else if code <= 6 {
            code as int
        } else if code <= 9 {
            code + 1
        } else if code == 0xA {
            12
        } else if code == 0xB {
            14
        } else if code == 0xC {
            3
        } else if code == 0xD {
            7
        } else if code == 0xE {
            11
        } else {
            15
        };
        assert(layout()[p] == symbol_of(code));
    }
}

/// The layout is a bijection between the sixteen logical codes and the
/// sixteen physical symbols: a symbol resolves to a code exactly when it is
/// the symbol of that code, and no two codes share a symbol.
pub proof fn lemma_layout_bijective()
    ensures
        forall|code: u8| code < 16 ==> code_of(#[trigger] symbol_of(code)) == Some(code),
        forall|symbol: char| (#[trigger] code_of(symbol)) matches Some(code) ==> code < 16 && symbol_of(code) == symbol,
        forall|a: u8, b: u8|
            a < 16 && b < 16 && a != b ==> #[trigger] symbol_of(a) != #[trigger] symbol_of(b),
{
}

/// The keypad: the table that ties physical symbols to logical key codes.
pub struct Keypad {
    keys: Vec<char>,
}

impl Keypad {
    /// The physical symbols of the pad in layout order.
    pub closed spec fn view(&self) -> Seq<char> {
        self.keys@
    }

    /// Every keypad has the fixed layout.
    #[verifier::type_invariant]
    pub open spec fn well_formed(&self) -> bool {
        self@ == layout()
    }

    /// A keypad with the fixed layout.
    pub fn new() -> (pad: Keypad)
        ensures
            pad@ == layout(),
    {
        Keypad {
            keys: vec![
                '1', '2', '3', '4', 'q', 'w', 'e', 'r', 'a', 's', 'd', 'f', 'z', 'x', 'c', 'v',
            ],
        }
    }

    /// A copy of the physical symbols, in layout order.
    pub fn get_keys(&self) -> (keys: Vec<char>)
        ensures
            self@ == layout(),
            keys@ == layout(),
    {
        proof {
            use_type_invariant(self);
        }
        self.keys.clone()
    }

    /// The logical code listed for a position of the layout.
    fn code_at(position: usize) -> (code: u8)
        requires
            position < 16,
        ensures
            code == layout_codes()[position as int],
    {
        match position {
            0 => 0x1,
            1 => 0x2,
            2 => 0x3,
            3 => 0xC,
            4 => 0x4,
            5 => 0x5,
            6 => 0x6,
            7 => 0xD,
            8 => 0x7,
            9 => 0x8,
            10 => 0x9,
            11 => 0xE,
            12 => 0xA,
            13 => 0x0,
            14 => 0xB,
            _ => 0xF,
        }
    }

    /// Resolves a physical symbol to its logical key code.
    ///
    /// A symbol that is not on the pad resolves to nothing.
    pub fn key_code(&self, symbol: char) -> (code: Option<u8>)
        ensures
            code == code_of(symbol),
    {
        proof {
            use_type_invariant(self);
            lemma_layout_matches_codes();
            lemma_layout_bijective();
        }
        let mut position: usize = 0;
        while position < self.keys.len()
            invariant
                self.keys@ == layout(),
                position <= 16,
                forall|q: int| 0 <= q < position ==> layout()[q] != symbol,
            decreases 16 - position,
        {
            if self.keys[position] == symbol {
                let found: u8 = Self::code_at(position);
                assert(symbol_of(found) == symbol);
                return Some(found);
            }
            position += 1;
        }
        assert forall|code: u8| code < 16 implies symbol_of(code) != symbol by {
            assert(layout().contains(symbol_of(code)));
        }
        None
    }

    /// Non-blocking query: whether the logical key `key` is asserted by the
    /// snapshot `input` of the input device.
    ///
    /// A symbol that is not on the pad asserts no key.
    pub fn poll(&self, key: u8, input: Option<char>) -> (down: bool)
        ensures
            down == (pressed_key(input) == Some(key)),
    {
        match input {
            Some(symbol) => {
                match self.key_code(symbol) {
                    Some(code) => code == key,
                    None => false,
                }
            },
            None => false,
        }
    }

    /// The logical key asserted by the snapshot `input`, if any.
    pub fn get_key_pressed(&self, input: Option<char>) -> (key: Option<u8>)
        ensures
            key == pressed_key(input),
            key matches Some(code) ==> code < 16,
    {
        proof {
            lemma_layout_bijective();
        }
        match input {
            Some(symbol) => self.key_code(symbol),
            None => None,
        }
    }

    /// Resolves a wait for any key against the symbols observed so far.
    ///
    /// The wait is satisfied by the first symbol that belongs to the pad and
    /// yields its logical code; symbols that are not on the pad are passed
    /// over.  Where no observed symbol belongs to the pad the wait goes on and
    /// the result is `None`.
    pub fn await_key_press(&self, symbols: &[char]) -> (key: Option<u8>)
        ensures
            key == first_code(symbols@),
            key matches Some(code) ==> code < 16,
    {
        proof {
            lemma_layout_bijective();
        }
        let mut i: usize = 0;
        assert(symbols@.skip(0) =~= symbols@);
        while i < symbols.len()
            invariant
                i <= symbols.len(),
                first_code(symbols@) == first_code(symbols@.skip(i as int)),
            decreases symbols.len() - i,
        {
            let found: Option<u8> = self.key_code(symbols[i]);
            proof {
                let rest = symbols@.skip(i as int);
                assert(rest[0] == symbols@[i as int]);
                assert(rest.drop_first() =~= symbols@.skip(i + 1));
            }
            if found.is_some() {
                return found;
            }
            i += 1;
        }
        assert(symbols@.skip(i as int).len() == 0);
        None
    }
}

} // verus!
