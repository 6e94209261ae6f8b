use vstd::prelude::*;

verus! {

/// The sixteen keys of the CHIP-8 keypad, `0x0` through `0xF`.
#[derive(Clone, Copy, Debug, PartialEq, Eq, Structural)]
pub enum Key {
    K0,
    K1,
    K2,
    K3,
    K4,
    K5,
    K6,
    K7,
    K8,
    K9,
    KA,
    KB,
    KC,
    KD,
    KE,
    KF,
}

impl Key {
    /// The keypad value this key stands for.
    pub open spec fn spec_value(self) -> u8 {
        match self {
            Key::K0 => 0x0,
            Key::K1 => 0x1,
            Key::K2 => 0x2,
            Key::K3 => 0x3,
            Key::K4 => 0x4,
            Key::K5 => 0x5,
            Key::K6 => 0x6,
            Key::K7 => 0x7,
            Key::K8 => 0x8,
            Key::K9 => 0x9,
            Key::KA => 0xA,
            Key::KB => 0xB,
            Key::KC => 0xC,
            Key::KD => 0xD,
            Key::KE => 0xE,
            Key::KF => 0xF,
        }
    }

    /// The keypad value this key stands for, always in `[0x0, 0xF]`.
    pub fn value(self) -> (r: u8)
        ensures
            r == self.spec_value(),
            r <= 0xF,
    {
        match self {
            Key::K0 => 0x0,
            Key::K1 => 0x1,
            Key::K2 => 0x2,
            Key::K3 => 0x3,
            Key::K4 => 0x4,
            Key::K5 => 0x5,
            Key::K6 => 0x6,
            Key::K7 => 0x7,
            Key::K8 => 0x8,
            Key::K9 => 0x9,
            Key::KA => 0xA,
            Key::KB => 0xB,
            Key::KC => 0xC,
            Key::KD => 0xD,
            Key::KE => 0xE,
            Key::KF => 0xF,
        }
    }

    /// All sixteen keys, in keypad order.
    pub fn all() -> (r: Vec<Key>)
        ensures
            r@.len() == 16,
            forall|i: int| 0 <= i < 16 ==> (#[trigger] r@[i]).spec_value() == i,
    {
        let mut keys: Vec<Key> = Vec::new();
        keys.push(Key::K0);
        keys.push(Key::K1);
        keys.push(Key::K2);
        keys.push(Key::K3);
        keys.push(Key::K4);
        keys.push(Key::K5);
        keys.push(Key::K6);
        keys.push(Key::K7);
        keys.push(Key::K8);
        keys.push(Key::K9);
        keys.push(Key::KA);
        keys.push(Key::KB);
        keys.push(Key::KC);
        keys.push(Key::KD);
        keys.push(Key::KE);
        keys.push(Key::KF);
        keys
    }
}

/// The keypad state as a 16-bit mask, one bit per key.
///
/// Purely observational for the interpreter: only the host presses and
/// releases keys, the instructions merely test them.
#[derive(Clone, Copy, Debug)]
pub struct KeyBoard(u16);

impl KeyBoard {
    /// The raw key mask, for use in contracts.
    pub closed spec fn view(self) -> u16 {
        self.0
    }

    /// Whether the key with the given value is down, as seen in contracts.
    pub open spec fn spec_is_set(self, key: u8) -> bool {
        (self@ >> (key as u16)) & 1 == 1
    }

    /// A keypad with no key down.
    pub fn new() -> (r: Self)
        ensures
            r@ == 0,
            forall|k: u8| !r.spec_is_set(k),
    {
        proof {
            assert(forall|k: u16| (0u16 >> k) & 1 == 0) by (bit_vector);
        }
        KeyBoard(0)
    }

    /// Press the key with the given value.
    pub fn set(&mut self, key: u8)
        requires
            key <= 0xF,
        ensures
            final(self).spec_is_set(key),
            forall|k: u8| k != key ==> final(self).spec_is_set(k) == old(self).spec_is_set(k),
    {
        proof {
            assert(forall|m: u16, key: u16, k: u16|
                key < 16 ==> (((m | (1u16 << key)) >> k) & 1 == 1 <==> (k == key || (m >> k) & 1
                    == 1))) by (bit_vector);
        }
        self.0 = self.0 | (1u16 << (key as u16));
    }

    /// Release the key with the given value.
    pub fn unset(&mut self, key: u8)
        requires
            key <= 0xF,
        ensures
            !final(self).spec_is_set(key),
            forall|k: u8| k != key ==> final(self).spec_is_set(k) == old(self).spec_is_set(k),
    {
        proof {
            assert(forall|m: u16, key: u16, k: u16|
                key < 16 ==> (((m & !(1u16 << key)) >> k) & 1 == 1 <==> (k != key && (m >> k) & 1
                    == 1))) by (bit_vector);
        }
        self.0 = self.0 & !(1u16 << (key as u16));
    }

    /// Whether the key with the given value is down.
    pub fn is_set(&self, key: u8) -> (r: bool)
        requires
            key <= 0xF,
        ensures
            r == self.spec_is_set(key),
    {
        (self.0 >> (key as u16)) & 1 == 1
    }
}

/// Which keypad key a typed character stands for, under the standard
/// 4x4 layout (`1234` / `QWER` / `ASDF` / `ZXCV`), both cases accepted.
pub open spec fn spec_map_key(key: char) -> Option<Key> {
    if key == '1' {
        Some(Key::K1)
    } else if key == '2' {
        Some(Key::K2)
    } else if key == '3' {
        Some(Key::K3)
    } else if key == '4' {
        Some(Key::KC)
    } else if key == 'Q' || key == 'q' {
        Some(Key::K4)
    } else if key == 'W' || key == 'w' {
        Some(Key::K5)
    } else if key == 'E' || key == 'e' {
        Some(Key::K6)
    } else if key == 'R' || key == 'r' {
        Some(Key::KD)
    } else if key == 'A' || key == 'a' {
        Some(Key::K7)
    } else if key == 'S' || key == 's' {
        Some(Key::K8)
    } else if key == 'D' || key == 'd' {
        Some(Key::K9)
    } else if key == 'F' || key == 'f' {
        Some(Key::KE)
    } else if key == 'Z' || key == 'z' {
        Some(Key::KA)
    } else if key == 'X' || key == 'x' {
        Some(Key::K0)
    } else if key == 'C' || key == 'c' {
        Some(Key::KB)
    } else if key == 'V' || key == 'v' {
        Some(Key::KF)
    } else {
        None
    }
}

/// Map a typed character to its keypad key, if it is on the layout.
pub fn map_key(key: char) -> (r: Option<Key>)
    ensures
        r == spec_map_key(key),
{
    if key == '1' {
        Some(Key::K1)
    } else if key == '2' {
        Some(Key::K2)
    } else if key == '3' {
        Some(Key::K3)
    } else if key == '4' {
        Some(Key::KC)
    } else if key == 'Q' || key == 'q' {
        Some(Key::K4)
    } else if key == 'W' || key == 'w' {
        Some(Key::K5)
    } else if key == 'E' || key == 'e' {
        Some(Key::K6)
    } else if key == 'R' || key == 'r' {
        Some(Key::KD)
    } else if key == 'A' || key == 'a' {
        Some(Key::K7)
    } else if key == 'S' || key == 's' {
        Some(Key::K8)
    } else if key == 'D' || key == 'd' {
        Some(Key::K9)
    } else if key == 'F' || key == 'f' {
        Some(Key::KE)
    } else if key == 'Z' || key == 'z' {
        Some(Key::KA)
    } else if key == 'X' || key == 'x' {
        Some(Key::K0)
    } else if key == 'C' || key == 'c' {
        Some(Key::KB)
    } else if key == 'V' || key == 'v' {
        Some(Key::KF)
    } else {
        None
    }
}

} // verus!
