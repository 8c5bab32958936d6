//! The arithmetic/logic unit: 8-bit operations and the flag each reports.

use vstd::prelude::*;

verus! {

/// Add with carry: the wrapped sum, and 1 exactly when the sum left 8 bits.
pub fn add_with_flag(a: u8, b: u8) -> (r: (u8, u8))
    ensures
        r.0 == (a + b) % 256,
        r.1 == (if a + b >= 256 { 1u8 } else { 0u8 }),
{
    let sum: u16 = a as u16 + b as u16;
    if sum >= 256 {
        ((sum - 256) as u8, 1)
    } else {
        (sum as u8, 0)
    }
}

/// Subtract `a - b`: the wrapped difference, and 1 exactly when no borrow
/// occurred (`a >= b`).
pub fn sub_with_flag(a: u8, b: u8) -> (r: (u8, u8))
    ensures
        r.0 == (a - b) % 256,
        r.1 == (if a >= b { 1u8 } else { 0u8 }),
{
    if a >= b {
        (a - b, 1)
    } else {
        ((256 - b as u16 + a as u16) as u8, 0)
    }
}

/// Logical shift right by one: the result, and the bit shifted out (the
/// original low bit).
pub fn shift_right(a: u8) -> (r: (u8, u8))
    ensures
        r.0 == a / 2,
        r.1 == a % 2,
{
    (a / 2, a % 2)
}

/// Logical shift left by one: the result, and the bit shifted out (the
/// original high bit).
pub fn shift_left(a: u8) -> (r: (u8, u8))
    ensures
        r.0 == (a * 2) % 256,
        r.1 == a / 128,
{
    ((a % 128) * 2, a / 128)
}

/// What sub-operation `op` of the arithmetic class yields on register values
/// `x` and `y`: the new value of register X and, for the sub-operations that
/// report one, the flag; `None` for a sub-operation outside the set.
pub open spec fn alu_spec(op: u8, x: u8, y: u8) -> Option<(u8, Option<u8>)> {
    if op == 0x0 {
        Some((y, None))
    } else if op == 0x1 {
        Some((x | y, None))
    } else if op == 0x2 {
        Some((x & y, None))
    } else if op == 0x3 {
        Some((x ^ y, None))
    } else if op == 0x4 {
        Some((((x + y) % 256) as u8, Some(if x + y >= 256 { 1u8 } else { 0u8 })))
    } else if op == 0x5 {
        Some((((x - y) % 256) as u8, Some(if x >= y { 1u8 } else { 0u8 })))
    } else if op == 0x6 {
        Some(((x / 2) as u8, Some((x % 2) as u8)))
    } else if op == 0x7 {
        Some((((y - x) % 256) as u8, Some(if y >= x { 1u8 } else { 0u8 })))
    } else if op == 0xE {
        Some((((x * 2) % 256) as u8, Some((x / 128) as u8)))
    } else {
        None
    }
}

/// Runs sub-operation `op` on `x` and `y`.
pub fn alu(op: u8, x: u8, y: u8) -> (r: Option<(u8, Option<u8>)>)
    ensures
        r == alu_spec(op, x, y),
{
    if op == 0x0 {
        Some((y, None))
    } else if op == 0x1 {
        Some((x | y, None))
    } else if op == 0x2 {
        Some((x & y, None))
    } else if op == 0x3 {
        Some((x ^ y, None))
    } else if op == 0x4 {
        let (v, f) = add_with_flag(x, y);
        Some((v, Some(f)))
    } else if op == 0x5 {
        let (v, f) = sub_with_flag(x, y);
        Some((v, Some(f)))
    } else if op == 0x6 {
        let (v, f) = shift_right(x);
        Some((v, Some(f)))
    } else if op == 0x7 {
        let (v, f) = sub_with_flag(y, x);
        Some((v, Some(f)))
    } else if op == 0xE {
        let (v, f) = shift_left(x);
        Some((v, Some(f)))
    } else {
        None
    }
}

} // verus!
