//! The keypad: sixteen keys of the keyboard stand for the hexadecimal digits
//! `0` to `F`.
//!
//! ```text
//! keyboard   keypad
//! 1 2 3 4    1 2 3 C
//! Q W E R    4 5 6 D
//! A S D F    7 8 9 E
//! Z X C V    A 0 B F
//! ```

use vstd::prelude::*;

verus! {

/// A key of the keyboard: one of the sixteen that stand for a digit of the
/// keypad, or any other key.
#[derive(Debug, Clone, Copy, PartialEq, Eq, Structural)]
pub enum Key {
    Key1,
    Key2,
    Key3,
    Key4,
    Q,
    W,
    E,
    R,
    A,
    S,
    D,
    F,
    Z,
    X,
    C,
    V,
    /// A key that stands for no digit.
    Other,
}

/// The digit that `key` stands for, if it stands for one.
pub open spec fn hex_of(key: Key) -> Option<u8> {
    match key {
        Key::X => Some(0x0u8),
        Key::Key1 => Some(0x1u8),
        Key::Key2 => Some(0x2u8),
        Key::Key3 => Some(0x3u8),
        Key::Q => Some(0x4u8),
        Key::W => Some(0x5u8),
        Key::E => Some(0x6u8),
        Key::A => Some(0x7u8),
        Key::S => Some(0x8u8),
        Key::D => Some(0x9u8),
        Key::Z => Some(0xAu8),
        Key::C => Some(0xBu8),
        Key::Key4 => Some(0xCu8),
        Key::R => Some(0xDu8),
        Key::F => Some(0xEu8),
        Key::V => Some(0xFu8),
        Key::Other => None,
    }
}

/// The key that stands for the digit `hex`, if `hex` is a digit.
pub open spec fn key_of(hex: u8) -> Option<Key> {
    if hex < 16 {
        Some(choose|key: Key| hex_of(key) == Some(hex))
    } else {
        None
    }
}

/// The digit of the first key in `pressed` that stands for one.
pub open spec fn first_mapped(pressed: Seq<Key>) -> Option<u8>
    decreases pressed.len(),
{
    if pressed.len() == 0 {
        None
    } else if hex_of(pressed[0]) is Some {
        hex_of(pressed[0])
    } else {
        first_mapped(pressed.skip(1))
    }
}

/// Whether the key that stands for `hex` is among `pressed`; `None` when
/// `hex` is no digit.
pub open spec fn key_down(pressed: Seq<Key>, hex: u8) -> Option<bool> {
    match key_of(hex) {
        Some(key) => Some(pressed.contains(key)),
        None => None,
    }
}

/// The sixteen keys and the sixteen digits correspond one to one.
pub proof fn lemma_key_bijection(key: Key, hex: u8)
    ensures
        hex_of(key) matches Some(h) ==> h < 16 && key_of(h) == Some(key),
        hex < 16 ==> (key_of(hex) matches Some(k) && hex_of(k) == Some(hex)),
        hex >= 16 ==> key_of(hex) is None,
{
    if hex < 16 {
        lemma_digit_has_key(hex);
    }
    if let Some(h) = hex_of(key) {
        lemma_digit_has_key(h);
    }
}

/// Every digit has a key that stands for it.
proof fn lemma_digit_has_key(hex: u8)
    requires
        hex < 16,
    ensures
        exists|key: Key| hex_of(key) == Some(hex),
{
    let key = if hex == 0x0 {
        Key::X
    } else if hex == 0x1 {
        Key::Key1
    } else if hex == 0x2 {
        Key::Key2
    } else if hex == 0x3 {
        Key::Key3
    } else if hex == 0x4 {
        Key::Q
    } else if hex == 0x5 {
        Key::W
    } else if hex == 0x6 {
        Key::E
    } else if hex == 0x7 {
        Key::A
    } else if hex == 0x8 {
        Key::S
    } else if hex == 0x9 {
        Key::D
    } else if hex == 0xA {
        Key::Z
    } else if hex == 0xB {
        Key::C
    } else if hex == 0xC {
        Key::Key4
    } else if hex == 0xD {
        Key::R
    } else if hex == 0xE {
        Key::F
    } else {
        Key::V
    };
    assert(hex_of(key) == Some(hex));
}

/// The digit that `key` stands for.
pub fn key_to_hex(key: Key) -> (hex: u8)
    requires
        hex_of(key) is Some,
    ensures
        hex_of(key) == Some(hex),
{
    match key {
        Key::X => 0x0,
        Key::Key1 => 0x1,
        Key::Key2 => 0x2,
        Key::Key3 => 0x3,
        Key::Q => 0x4,
        Key::W => 0x5,
        Key::E => 0x6,
        Key::A => 0x7,
        Key::S => 0x8,
        Key::D => 0x9,
        Key::Z => 0xA,
        Key::C => 0xB,
        Key::Key4 => 0xC,
        Key::R => 0xD,
        Key::F => 0xE,
        Key::V => 0xF,
        Key::Other => vstd::pervasive::unreached(),
    }
}

/// The key that stands for the digit `hex`; `None` when `hex` is above
/// `0xF`.
pub fn hex_to_key(hex: u8) -> (r: Option<Key>)
    ensures
        r == key_of(hex),
{
    proof {
        lemma_key_bijection(Key::Other, hex);
    }
    Some(
        match hex {
            0x0 => Key::X,
            0x1 => Key::Key1,
            0x2 => Key::Key2,
            0x3 => Key::Key3,
            0x4 => Key::Q,
            0x5 => Key::W,
            0x6 => Key::E,
            0x7 => Key::A,
            0x8 => Key::S,
            0x9 => Key::D,
            0xA => Key::Z,
            0xB => Key::C,
            0xC => Key::Key4,
            0xD => Key::R,
            0xE => Key::F,
            0xF => Key::V,
            _ => {
                return None;
            },
        },
    )
}

/// Whether `key` stands for a digit of the keypad.
pub fn is_mapped(key: Key) -> (r: bool)
    ensures
        r == (hex_of(key) is Some),
{
    match key {
        Key::Other => false,
        _ => true,
    }
}

/// The digit of the first key among `pressed` that stands for one, or
/// `None` when no such key is down.
pub fn get_pressed_key(pressed: &[Key]) -> (r: Option<u8>)
    ensures
        r == first_mapped(pressed@),
        r is None <==> forall|i: int| 0 <= i < pressed@.len() ==> hex_of(pressed@[i]) is None,
{
    let mut i: usize = 0;
    assert(pressed@.skip(0) == pressed@);
    while i < pressed.len()
        invariant
            i <= pressed@.len(),
            first_mapped(pressed@) == first_mapped(pressed@.skip(i as int)),
            forall|j: int| 0 <= j < i ==> hex_of(pressed@[j]) is None,
        decreases pressed@.len() - i,
    {
        let key = pressed[i];
        proof {
            let rest = pressed@.skip(i as int);
            assert(rest[0] == pressed@[i as int]);
            assert(rest.skip(1) == pressed@.skip(i + 1));
        }
        if is_mapped(key) {
            return Some(key_to_hex(key));
        }
        i += 1;
    }
    None
}

/// Whether the key that stands for the digit `key_hex` is among `pressed`;
/// `None` when `key_hex` is above `0xF`.
pub fn is_key_pressed(pressed: &[Key], key_hex: u8) -> (r: Option<bool>)
    ensures
        r == key_down(pressed@, key_hex),
{
    let key = hex_to_key(key_hex)?;
    let mut i: usize = 0;
    while i < pressed.len()
        invariant
            i <= pressed@.len(),
            key_of(key_hex) == Some(key),
            forall|j: int| 0 <= j < i ==> pressed@[j] != key,
        decreases pressed@.len() - i,
    {
        if pressed[i] == key {
            assert(pressed@[i as int] == key);
            return Some(true);
        }
        i += 1;
    }
    Some(false)
}

} // verus!
