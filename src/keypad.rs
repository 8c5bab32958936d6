//! The hexadecimal keypad laid over the left block of a standard keyboard:
//!
//! ```text
//! 1 2 3 4        1 2 3 C
//! Q W E R   ->   4 5 6 D
//! A S D F        7 8 9 E
//! Z X C V        A 0 B F
//! ```

use vstd::prelude::*;

verus! {

/// The keypad code of keyboard key `c` (lower case), if it is on the pad.
pub open spec fn keypad_spec(c: char) -> Option<u8> {
    if c == '1' {
        Some(0x1u8)
    } else if c == '2' {
        Some(0x2u8)
    } else if c == '3' {
        Some(0x3u8)
    } else if c == '4' {
        Some(0xCu8)
    } else if c == 'q' {
        Some(0x4u8)
    } else if c == 'w' {
        Some(0x5u8)
    } else if c == 'e' {
        Some(0x6u8)
    } else if c == 'r' {
        Some(0xDu8)
    } else if c == 'a' {
        Some(0x7u8)
    } else if c == 's' {
        Some(0x8u8)
    } else if c == 'd' {
        Some(0x9u8)
    } else if c == 'f' {
        Some(0xEu8)
    } else if c == 'z' {
        Some(0xAu8)
    } else if c == 'x' {
        Some(0x0u8)
    } else if c == 'c' {
        Some(0xBu8)
    } else if c == 'v' {
        Some(0xFu8)
    } else {
        None
    }
}

/// Maps keyboard key `c` (lower case) to its keypad code.
pub fn keypad_code(c: char) -> (r: Option<u8>)
    ensures
        r == keypad_spec(c),
        r matches Some(k) ==> k < 16,
{
    match c {
        '1' => Some(0x1),
        '2' => Some(0x2),
        '3' => Some(0x3),
        '4' => Some(0xC),
        'q' => Some(0x4),
        'w' => Some(0x5),
        'e' => Some(0x6),
        'r' => Some(0xD),
        'a' => Some(0x7),
        's' => Some(0x8),
        'd' => Some(0x9),
        'f' => Some(0xE),
        'z' => Some(0xA),
        'x' => Some(0x0),
        'c' => Some(0xB),
        'v' => Some(0xF),
        _ => None,
    }
}

} // verus!
