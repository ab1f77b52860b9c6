//! The host keyboard layout of the sixteen-key keypad.
use vstd::prelude::*;

verus! {

/// The keypad key that host key `c` stands for, in the usual 4x4 layout
/// `1 2 3 4 / q w e r / a s d f / z x c v` over keys `1 2 3 C / 4 5 6 D / 7 8 9 E / A 0 B F`.
pub open spec fn keypad_layout(c: char) -> Option<int> {
    if c == '1' {
        Some(0x1)
    } else if c == '2' {
        Some(0x2)
    } else if c == '3' {
        Some(0x3)
    } else if c == '4' {
        Some(0xC)
    } else if c == 'q' {
        Some(0x4)
    } else if c == 'w' {
        Some(0x5)
    } else if c == 'e' {
        Some(0x6)
    } else if c == 'r' {
        Some(0xD)
    } else if c == 'a' {
        Some(0x7)
    } else if c == 's' {
        Some(0x8)
    } else if c == 'd' {
        Some(0x9)
    } else if c == 'f' {
        Some(0xE)
    } else if c == 'z' {
        Some(0xA)
    } else if c == 'x' {
        Some(0x0)
    } else if c == 'c' {
        Some(0xB)
    } else if c == 'v' {
        Some(0xF)
    } else {
        None
    }
}

/// The keypad index of host key `c`, or `None` for a key outside the layout.
pub fn keypad_index(c: char) -> (r: Option<usize>)
    ensures
        match keypad_layout(c) {
            Some(k) => r == Some(k as usize) && k < 16,
            None => r is None,
        },
{
    match c {
        '1' => Some(0x1),
        '2' => Some(0x2),
        '3' => Some(0x3),
        '4' => Some(0xC),
        'q' => Some(0x4),
        'w' => Some(0x5),
        'e' => Some(0x6),
        'r' => Some(0xD),
        'a' => Some(0x7),
        's' => Some(0x8),
        'd' => Some(0x9),
        'f' => Some(0xE),
        'z' => Some(0xA),
        'x' => Some(0x0),
        'c' => Some(0xB),
        'v' => Some(0xF),
        _ => None,
    }
}

} // verus!
