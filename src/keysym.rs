//! Classification of the 32-bit key symbols that key events carry.
use vstd::prelude::*;

verus! {

/// What kind of key a key symbol names.
#[derive(Debug, Clone, Copy, PartialEq, Eq, Structural)]
pub enum Keysym {
    /// A printable Latin-1 character, by its code.
    Latin1(u8),
    /// A keyboard function key (Return, arrows, modifiers, ...), by the low byte of its symbol.
    Function(u8),
    /// A Unicode character, by its code point.
    Unicode(u32),
    /// A symbol outside the ranges above; the raw value says which.
    Unmapped,
}

/// The class of key symbol `raw`.
pub open spec fn keysym_of(raw: u32) -> Keysym {
    if (0x20 <= raw <= 0x7e) || (0xa0 <= raw <= 0xff) {
        Keysym::Latin1(raw as u8)
    } else if 0xff00 <= raw <= 0xffff {
        Keysym::Function((raw - 0xff00) as u8)
    } else if 0x0100_0100 <= raw <= 0x0110_ffff {
        Keysym::Unicode((raw - 0x0100_0000) as u32)
    } else {
        Keysym::Unmapped
    }
}

impl Keysym {
    pub fn from_raw(raw: u32) -> (r: Keysym)
        ensures
            r == keysym_of(raw),
    {
        if (0x20 <= raw && raw <= 0x7e) || (0xa0 <= raw && raw <= 0xff) {
            Keysym::Latin1(raw as u8)
        } else if 0xff00 <= raw && raw <= 0xffff {
            Keysym::Function((raw - 0xff00) as u8)
        } else if 0x0100_0100 <= raw && raw <= 0x0110_ffff {
            Keysym::Unicode(raw - 0x0100_0000)
        } else {
            Keysym::Unmapped
        }
    }
}

} // verus!
