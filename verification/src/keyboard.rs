use vstd::prelude::*;

verus! {

/// A key that the keyboard handler names.
#[derive(Debug, Clone, Copy, PartialEq, Eq, Structural)]
pub enum Key {
    Escape,
    /// A letter key, given by its ASCII capital.
    Letter(u8),
    Space,
    Enter,
}

/// The key whose make code (scan code set 1) is `scancode`, for the keys
/// that the handler names: Escape, the letters A to Z, Space and Enter.
pub open spec fn key_of(scancode: u8) -> Option<Key> {
    match scancode {
        0x01 => Some(Key::Escape),
        0x1E => Some(Key::Letter(65)),  // A
        0x30 => Some(Key::Letter(66)),  // B
        0x2E => Some(Key::Letter(67)),  // C
        0x20 => Some(Key::Letter(68)),  // D
        0x12 => Some(Key::Letter(69)),  // E
        0x21 => Some(Key::Letter(70)),  // F
        0x22 => Some(Key::Letter(71)),  // G
        0x23 => Some(Key::Letter(72)),  // H
        0x17 => Some(Key::Letter(73)),  // I
        0x24 => Some(Key::Letter(74)),  // J
        0x25 => Some(Key::Letter(75)),  // K
        0x26 => Some(Key::Letter(76)),  // L
        0x32 => Some(Key::Letter(77)),  // M
        0x31 => Some(Key::Letter(78)),  // N
        0x18 => Some(Key::Letter(79)),  // O
        0x19 => Some(Key::Letter(80)),  // P
        0x10 => Some(Key::Letter(81)),  // Q
        0x13 => Some(Key::Letter(82)),  // R
        0x1F => Some(Key::Letter(83)),  // S
        0x14 => Some(Key::Letter(84)),  // T
        0x16 => Some(Key::Letter(85)),  // U
        0x2F => Some(Key::Letter(86)),  // V
        0x11 => Some(Key::Letter(87)),  // W
        0x2D => Some(Key::Letter(88)),  // X
        0x15 => Some(Key::Letter(89)),  // Y
        0x2C => Some(Key::Letter(90)),  // Z
        0x39 => Some(Key::Space),
        0x1C => Some(Key::Enter),
        _ => None,
    }
}

/// The key named by a scan code; `None` for every code the handler does not
/// name (it prints a dot for those).
pub fn describe_scancode(scancode: u8) -> (r: Option<Key>)
    ensures
        r == key_of(scancode),
{
    match scancode {
        0x01 => Some(Key::Escape),
        0x1E => Some(Key::Letter(65)),  // A
        0x30 => Some(Key::Letter(66)),  // B
        0x2E => Some(Key::Letter(67)),  // C
        0x20 => Some(Key::Letter(68)),  // D
        0x12 => Some(Key::Letter(69)),  // E
        0x21 => Some(Key::Letter(70)),  // F
        0x22 => Some(Key::Letter(71)),  // G
        0x23 => Some(Key::Letter(72)),  // H
        0x17 => Some(Key::Letter(73)),  // I
        0x24 => Some(Key::Letter(74)),  // J
        0x25 => Some(Key::Letter(75)),  // K
        0x26 => Some(Key::Letter(76)),  // L
        0x32 => Some(Key::Letter(77)),  // M
        0x31 => Some(Key::Letter(78)),  // N
        0x18 => Some(Key::Letter(79)),  // O
        0x19 => Some(Key::Letter(80)),  // P
        0x10 => Some(Key::Letter(81)),  // Q
        0x13 => Some(Key::Letter(82)),  // R
        0x1F => Some(Key::Letter(83)),  // S
        0x14 => Some(Key::Letter(84)),  // T
        0x16 => Some(Key::Letter(85)),  // U
        0x2F => Some(Key::Letter(86)),  // V
        0x11 => Some(Key::Letter(87)),  // W
        0x2D => Some(Key::Letter(88)),  // X
        0x15 => Some(Key::Letter(89)),  // Y
        0x2C => Some(Key::Letter(90)),  // Z
        0x39 => Some(Key::Space),
        0x1C => Some(Key::Enter),
        _ => None,
    }
}

/// No two scan codes name the same key, and every letter named is a capital
/// from A to Z.
pub proof fn lemma_key_of_injective(a: u8, b: u8)
    requires
        key_of(a) is Some,
        a != b,
    ensures
        key_of(a) != key_of(b),
        key_of(a) matches Some(Key::Letter(c)) ==> 65 <= c <= 90,
{
}

} // verus!
