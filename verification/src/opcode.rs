use vstd::prelude::*;

use crate::address::Address;
use crate::register::RegisterIndex;

verus! {

broadcast use Address::lemma_spec_masked, Address::lemma_view_injective, RegisterIndex::lemma_spec_masked, RegisterIndex::lemma_view_injective;

/// A decoded CHIP-8 instruction, one arm per opcode.
///
/// Decoding is purely syntactic: every 16-bit word maps to exactly one
/// arm, with `Invalid` carrying any pattern that matches no instruction.
#[derive(Clone, Copy, Debug, PartialEq, Eq, Structural)]
pub enum Opcode {
    /// `00E0`: clear the display.
    Cls,
    /// `00EE`: return from a subroutine.
    Ret,
    /// `0NNN`: jump to a machine code routine; treated like `Call`.
    Sys { address: Address },
    /// `1NNN`: jump to the address.
    Jp { address: Address },
    /// `2NNN`: call the subroutine at the address.
    Call { address: Address },
    /// `3XKK`: skip the next instruction if `V[x] == KK`.
    SeByte { x: RegisterIndex, byte: u8 },
    /// `4XKK`: skip the next instruction if `V[x] != KK`.
    SneByte { x: RegisterIndex, byte: u8 },
    /// `5XY0`: skip the next instruction if `V[x] == V[y]`.
    SeRegister { x: RegisterIndex, y: RegisterIndex },
    /// `6XKK`: set `V[x] = KK`.
    LdByte { x: RegisterIndex, byte: u8 },
    /// `7XKK`: set `V[x] = V[x] + KK`, wrapping; VF untouched.
    AddByte { x: RegisterIndex, byte: u8 },
    /// `8XY0`: set `V[x] = V[y]`.
    LdRegister { x: RegisterIndex, y: RegisterIndex },
    /// `8XY1`: set `V[x] |= V[y]`.
    Or { x: RegisterIndex, y: RegisterIndex },
    /// `8XY2`: set `V[x] &= V[y]`.
    And { x: RegisterIndex, y: RegisterIndex },
    /// `8XY3`: set `V[x] ^= V[y]`.
    Xor { x: RegisterIndex, y: RegisterIndex },
    /// `8XY4`: set `V[x] += V[y]`; VF = carry.
    AddRegister { x: RegisterIndex, y: RegisterIndex },
    /// `8XY5`: VF = (V[x] > V[y]); `V[x] -= V[y]`, wrapping.
    Sub { x: RegisterIndex, y: RegisterIndex },
    /// `8X16`: VF = low bit of V[x]; `V[x] >>= 1`.
    Shr { x: RegisterIndex },
    /// `8XY7`: VF = (V[y] > V[x]); `V[x] = V[y] - V[x]`, wrapping.
    Subn { x: RegisterIndex, y: RegisterIndex },
    /// `8X0E`: VF = high bit of V[x]; `V[x] <<= 1`.
    Shl { x: RegisterIndex },
    /// `9XY0`: skip the next instruction if `V[x] != V[y]`.
    SneRegister { x: RegisterIndex, y: RegisterIndex },
    /// `ANNN`: set I to the address.
    LdI { address: Address },
    /// `BNNN`: jump to the address plus `V[0]`.
    JpV0 { address: Address },
    /// `CXKK`: set `V[x]` to a random byte ANDed with KK.
    Rnd { x: RegisterIndex, byte: u8 },
    /// `DXYN`: draw an N-byte sprite from `memory[I]` at `(V[x], V[y])`.
    Drw { x: RegisterIndex, y: RegisterIndex, n: u8 },
    /// `EX9E`: skip the next instruction if key `V[x]` is pressed.
    Skp { x: RegisterIndex },
    /// `EXA1`: skip the next instruction if key `V[x]` is not pressed.
    Sknp { x: RegisterIndex },
    /// `FX07`: set `V[x]` to the delay timer.
    LdVxDT { x: RegisterIndex },
    /// `FX0A`: wait for a key press; store the key in `V[x]`.
    LdVxK { x: RegisterIndex },
    /// `FX15`: set the delay timer to `V[x]`.
    LdDTVx { x: RegisterIndex },
    /// `FX18`: set the sound timer to `V[x]`.
    LdSTVx { x: RegisterIndex },
    /// `FX1E`: set `I = I + V[x]`, checked.
    AddIVx { x: RegisterIndex },
    /// `FX29`: point I at the font glyph for the low nibble of `V[x]`.
    LdFVx { x: RegisterIndex },
    /// `FX33`: write the BCD digits of `V[x]` to `memory[I..I+3]`.
    LdBVx { x: RegisterIndex },
    /// `FX55`: copy `V[0..=x]` into `memory[I..]`.
    LdIVx { x: RegisterIndex },
    /// `FX65`: copy `memory[I..]` into `V[0..=x]`.
    LdVxI { x: RegisterIndex },
    /// Any word that matches no instruction pattern.
    Invalid(u16),
}

/// The arm a 16-bit big-endian word decodes to.
pub open spec fn spec_decode(w: u16) -> Opcode {
    let high = w / 0x1000;
    let x = RegisterIndex::spec_masked(((w / 0x100) % 0x10) as u8);
    let y = RegisterIndex::spec_masked(((w / 0x10) % 0x10) as u8);
    let n = (w % 0x10) as u8;
    let kk = (w % 0x100) as u8;
    let nnn = Address::spec_masked(w);
    if w == 0x00E0 {
        Opcode::Cls
    } else if w == 0x00EE {
        Opcode::Ret
    } else if high == 0x0 {
        Opcode::Sys { address: nnn }
    } else if high == 0x1 {
        Opcode::Jp { address: nnn }
    } else if high == 0x2 {
        Opcode::Call { address: nnn }
    } else if high == 0x3 {
        Opcode::SeByte { x, byte: kk }
    } else if high == 0x4 {
        Opcode::SneByte { x, byte: kk }
    } else if high == 0x5 {
        if n == 0 {
            Opcode::SeRegister { x, y }
        } else {
            Opcode::Invalid(w)
        }
    } else if high == 0x6 {
        Opcode::LdByte { x, byte: kk }
    } else if high == 0x7 {
        Opcode::AddByte { x, byte: kk }
    } else if high == 0x8 {
        if n == 0x0 {
            Opcode::LdRegister { x, y }
        } else if n == 0x1 {
            Opcode::Or { x, y }
        } else if n == 0x2 {
            Opcode::And { x, y }
        } else if n == 0x3 {
            Opcode::Xor { x, y }
        } else if n == 0x4 {
            Opcode::AddRegister { x, y }
        } else if n == 0x5 {
            Opcode::Sub { x, y }
        } else if n == 0x6 {
            Opcode::Shr { x }
        } else if n == 0x7 {
            Opcode::Subn { x, y }
        } else if n == 0xE {
            Opcode::Shl { x }
        } else {
            Opcode::Invalid(w)
        }
    } else if high == 0x9 {
        if n == 0 {
            Opcode::SneRegister { x, y }
        } else {
            Opcode::Invalid(w)
        }
    } else if high == 0xA {
        Opcode::LdI { address: nnn }
    } else if high == 0xB {
        Opcode::JpV0 { address: nnn }
    } else if high == 0xC {
        Opcode::Rnd { x, byte: kk }
    } else if high == 0xD {
        Opcode::Drw { x, y, n }
    } else if high == 0xE {
        if kk == 0x9E {
            Opcode::Skp { x }
        } else if kk == 0xA1 {
            Opcode::Sknp { x }
        } else {
            Opcode::Invalid(w)
        }
    } else {
        if kk == 0x07 {
            Opcode::LdVxDT { x }
        } else if kk == 0x0A {
            Opcode::LdVxK { x }
        } else if kk == 0x15 {
            Opcode::LdDTVx { x }
        } else if kk == 0x18 {
            Opcode::LdSTVx { x }
        } else if kk == 0x1E {
            Opcode::AddIVx { x }
        } else if kk == 0x29 {
            Opcode::LdFVx { x }
        } else if kk == 0x33 {
            Opcode::LdBVx { x }
        } else if kk == 0x55 {
            Opcode::LdIVx { x }
        } else if kk == 0x65 {
            Opcode::LdVxI { x }
        } else {
            Opcode::Invalid(w)
        }
    }
}

/// The canonical 16-bit pattern of an instruction: the word the assembler
/// emits for it, and the word whose decoding reproduces the arm.
pub open spec fn spec_encode(op: Opcode) -> int {
    match op {
        Opcode::Cls => 0x00E0,
        Opcode::Ret => 0x00EE,
        Opcode::Sys { address } => address@ as int,
        Opcode::Jp { address } => 0x1000 + address@,
        Opcode::Call { address } => 0x2000 + address@,
        Opcode::SeByte { x, byte } => 0x3000 + x@ * 0x100 + byte,
        Opcode::SneByte { x, byte } => 0x4000 + x@ * 0x100 + byte,
        Opcode::SeRegister { x, y } => 0x5000 + x@ * 0x100 + y@ * 0x10,
        Opcode::LdByte { x, byte } => 0x6000 + x@ * 0x100 + byte,
        Opcode::AddByte { x, byte } => 0x7000 + x@ * 0x100 + byte,
        Opcode::LdRegister { x, y } => 0x8000 + x@ * 0x100 + y@ * 0x10,
        Opcode::Or { x, y } => 0x8001 + x@ * 0x100 + y@ * 0x10,
        Opcode::And { x, y } => 0x8002 + x@ * 0x100 + y@ * 0x10,
        Opcode::Xor { x, y } => 0x8003 + x@ * 0x100 + y@ * 0x10,
        Opcode::AddRegister { x, y } => 0x8004 + x@ * 0x100 + y@ * 0x10,
        Opcode::Sub { x, y } => 0x8005 + x@ * 0x100 + y@ * 0x10,
        Opcode::Shr { x } => 0x8016 + x@ * 0x100,
        Opcode::Subn { x, y } => 0x8007 + x@ * 0x100 + y@ * 0x10,
        Opcode::Shl { x } => 0x800E + x@ * 0x100,
        Opcode::SneRegister { x, y } => 0x9000 + x@ * 0x100 + y@ * 0x10,
        Opcode::LdI { address } => 0xA000 + address@,
        Opcode::JpV0 { address } => 0xB000 + address@,
        Opcode::Rnd { x, byte } => 0xC000 + x@ * 0x100 + byte,
        Opcode::Drw { x, y, n } => 0xD000 + x@ * 0x100 + y@ * 0x10 + n,
        Opcode::Skp { x } => 0xE09E + x@ * 0x100,
        Opcode::Sknp { x } => 0xE0A1 + x@ * 0x100,
        Opcode::LdVxDT { x } => 0xF007 + x@ * 0x100,
        Opcode::LdVxK { x } => 0xF00A + x@ * 0x100,
        Opcode::LdDTVx { x } => 0xF015 + x@ * 0x100,
        Opcode::LdSTVx { x } => 0xF018 + x@ * 0x100,
        Opcode::AddIVx { x } => 0xF01E + x@ * 0x100,
        Opcode::LdFVx { x } => 0xF029 + x@ * 0x100,
        Opcode::LdBVx { x } => 0xF033 + x@ * 0x100,
        Opcode::LdIVx { x } => 0xF055 + x@ * 0x100,
        Opcode::LdVxI { x } => 0xF065 + x@ * 0x100,
        Opcode::Invalid(w) => w as int,
    }
}

impl Opcode {
    /// Well-formed instruction: field values fit their nibble or address
    /// widths, as every decoded non-`Invalid` arm does.
    pub open spec fn wf(self) -> bool {
        match self {
            Opcode::Cls => true,
            Opcode::Ret => true,
            Opcode::Sys { address } => address@ <= 0xFFF,
            Opcode::Jp { address } => address@ <= 0xFFF,
            Opcode::Call { address } => address@ <= 0xFFF,
            Opcode::SeByte { x, byte } => x@ <= 0xF,
            Opcode::SneByte { x, byte } => x@ <= 0xF,
            Opcode::SeRegister { x, y } => x@ <= 0xF && y@ <= 0xF,
            Opcode::LdByte { x, byte } => x@ <= 0xF,
            Opcode::AddByte { x, byte } => x@ <= 0xF,
            Opcode::LdRegister { x, y } => x@ <= 0xF && y@ <= 0xF,
            Opcode::Or { x, y } => x@ <= 0xF && y@ <= 0xF,
            Opcode::And { x, y } => x@ <= 0xF && y@ <= 0xF,
            Opcode::Xor { x, y } => x@ <= 0xF && y@ <= 0xF,
            Opcode::AddRegister { x, y } => x@ <= 0xF && y@ <= 0xF,
            Opcode::Sub { x, y } => x@ <= 0xF && y@ <= 0xF,
            Opcode::Shr { x } => x@ <= 0xF,
            Opcode::Subn { x, y } => x@ <= 0xF && y@ <= 0xF,
            Opcode::Shl { x } => x@ <= 0xF,
            Opcode::SneRegister { x, y } => x@ <= 0xF && y@ <= 0xF,
            Opcode::LdI { address } => address@ <= 0xFFF,
            Opcode::JpV0 { address } => address@ <= 0xFFF,
            Opcode::Rnd { x, byte } => x@ <= 0xF,
            Opcode::Drw { x, y, n } => x@ <= 0xF && y@ <= 0xF && n <= 0xF,
            Opcode::Skp { x } => x@ <= 0xF,
            Opcode::Sknp { x } => x@ <= 0xF,
            Opcode::LdVxDT { x } => x@ <= 0xF,
            Opcode::LdVxK { x } => x@ <= 0xF,
            Opcode::LdDTVx { x } => x@ <= 0xF,
            Opcode::LdSTVx { x } => x@ <= 0xF,
            Opcode::AddIVx { x } => x@ <= 0xF,
            Opcode::LdFVx { x } => x@ <= 0xF,
            Opcode::LdBVx { x } => x@ <= 0xF,
            Opcode::LdIVx { x } => x@ <= 0xF,
            Opcode::LdVxI { x } => x@ <= 0xF,
            Opcode::Invalid(_) => false,
        }
    }

    /// Decode a 16-bit word; malformed patterns become `Invalid`, so
    /// decoding never fails.
    pub fn decode(word: u16) -> (r: Opcode)
        ensures
            r == spec_decode(word),
    {
        let high = word / 0x1000;
        let x = RegisterIndex::new(((word / 0x100) % 0x10) as u8);
        let y = RegisterIndex::new(((word / 0x10) % 0x10) as u8);
        let n = (word % 0x10) as u8;
        let kk = (word % 0x100) as u8;
        let nnn = Address::new(word);
        if word == 0x00E0 {
            Opcode::Cls
        } else if word == 0x00EE {
            Opcode::Ret
        } else if high == 0x0 {
            Opcode::Sys { address: nnn }
        } else if high == 0x1 {
            Opcode::Jp { address: nnn }
        } else if high == 0x2 {
            Opcode::Call { address: nnn }
        } else if high == 0x3 {
            Opcode::SeByte { x, byte: kk }
        } else if high == 0x4 {
            Opcode::SneByte { x, byte: kk }
        } else if high == 0x5 {
            if n == 0 {
                Opcode::SeRegister { x, y }
            } else {
                Opcode::Invalid(word)
            }
        } else if high == 0x6 {
            Opcode::LdByte { x, byte: kk }
        } else if high == 0x7 {
            Opcode::AddByte { x, byte: kk }
        } else if high == 0x8 {
            if n == 0x0 {
                Opcode::LdRegister { x, y }
            } else if n == 0x1 {
                Opcode::Or { x, y }
            } else if n == 0x2 {
                Opcode::And { x, y }
            } else if n == 0x3 {
                Opcode::Xor { x, y }
            } else if n == 0x4 {
                Opcode::AddRegister { x, y }
            } else if n == 0x5 {
                Opcode::Sub { x, y }
            } else if n == 0x6 {
                Opcode::Shr { x }
            } else if n == 0x7 {
                Opcode::Subn { x, y }
            } else if n == 0xE {
                Opcode::Shl { x }
            } else {
                Opcode::Invalid(word)
            }
        } else if high == 0x9 {
            if n == 0 {
                Opcode::SneRegister { x, y }
            } else {
                Opcode::Invalid(word)
            }
        } else if high == 0xA {
            Opcode::LdI { address: nnn }
        } else if high == 0xB {
            Opcode::JpV0 { address: nnn }
        } else if high == 0xC {
            Opcode::Rnd { x, byte: kk }
        } else if high == 0xD {
            Opcode::Drw { x, y, n }
        } else if high == 0xE {
            if kk == 0x9E {
                Opcode::Skp { x }
            } else if kk == 0xA1 {
                Opcode::Sknp { x }
            } else {
                Opcode::Invalid(word)
            }
        } else {
            if kk == 0x07 {
                Opcode::LdVxDT { x }
            } else if kk == 0x0A {
                Opcode::LdVxK { x }
            } else if kk == 0x15 {
                Opcode::LdDTVx { x }
            } else if kk == 0x18 {
                Opcode::LdSTVx { x }
            } else if kk == 0x1E {
                Opcode::AddIVx { x }
            } else if kk == 0x29 {
                Opcode::LdFVx { x }
            } else if kk == 0x33 {
                Opcode::LdBVx { x }
            } else if kk == 0x55 {
                Opcode::LdIVx { x }
            } else if kk == 0x65 {
                Opcode::LdVxI { x }
            } else {
                Opcode::Invalid(word)
            }
        }
    }

    /// The canonical mnemonic string of the instruction, as ASCII
    /// bytes, for diagnostics and disassembly.
    #[verifier::rlimit(100)]
    #[verifier::spinoff_prover]
    pub fn mnemonic(&self) -> (r: Vec<u8>)
        ensures
            r@ =~= spec_mnemonic(*self),
    {
        let mut out: Vec<u8> = Vec::new();
        match self {
            Opcode::Cls => {
                out.push(67);
                out.push(76);
                out.push(83);
            },
            Opcode::Ret => {
                out.push(82);
                out.push(69);
                out.push(84);
            },
            Opcode::Sys { address } => {
                out.push(83);
                out.push(89);
                out.push(83);
                out.push(32);
                out.push(35);
                push_hex(&mut out, address.inner());
            },
            Opcode::Jp { address } => {
                out.push(74);
                out.push(80);
                out.push(32);
                out.push(35);
                push_hex(&mut out, address.inner());
            },
            Opcode::Call { address } => {
                out.push(67);
                out.push(65);
                out.push(76);
                out.push(76);
                out.push(32);
                out.push(35);
                push_hex(&mut out, address.inner());
            },
            Opcode::SeByte { x, byte } => {
                out.push(83);
                out.push(69);
                out.push(32);
                push_reg(&mut out, *x);
                out.push(44);
                out.push(32);
                out.push(35);
                push_hex(&mut out, *byte as u16);
            },
            Opcode::SneByte { x, byte } => {
                out.push(83);
                out.push(78);
                out.push(69);
                out.push(32);
                push_reg(&mut out, *x);
                out.push(44);
                out.push(32);
                out.push(35);
                push_hex(&mut out, *byte as u16);
            },
            Opcode::SeRegister { x, y } => {
                out.push(83);
                out.push(69);
                out.push(32);
                push_reg(&mut out, *x);
                out.push(44);
                out.push(32);
                push_reg(&mut out, *y);
            },
            Opcode::LdByte { x, byte } => {
                out.push(76);
                out.push(68);
                out.push(32);
                push_reg(&mut out, *x);
                out.push(44);
                out.push(32);
                out.push(35);
                push_hex(&mut out, *byte as u16);
            },
            Opcode::AddByte { x, byte } => {
                out.push(65);
                out.push(68);
                out.push(68);
                out.push(32);
                push_reg(&mut out, *x);
                out.push(44);
                out.push(32);
                out.push(35);
                push_hex(&mut out, *byte as u16);
            },
            Opcode::LdRegister { x, y } => {
                out.push(76);
                out.push(68);
                out.push(32);
                push_reg(&mut out, *x);
                out.push(44);
                out.push(32);
                push_reg(&mut out, *y);
            },
            Opcode::Or { x, y } => {
                out.push(79);
                out.push(82);
                out.push(32);
                push_reg(&mut out, *x);
                out.push(44);
                out.push(32);
                push_reg(&mut out, *y);
            },
            Opcode::And { x, y } => {
                out.push(65);
                out.push(78);
                out.push(68);
                out.push(32);
                push_reg(&mut out, *x);
                out.push(44);
                out.push(32);
                push_reg(&mut out, *y);
            },
            Opcode::Xor { x, y } => {
                out.push(88);
                out.push(79);
                out.push(82);
                out.push(32);
                push_reg(&mut out, *x);
                out.push(44);
                out.push(32);
                push_reg(&mut out, *y);
            },
            Opcode::AddRegister { x, y } => {
                out.push(65);
                out.push(68);
                out.push(68);
                out.push(32);
                push_reg(&mut out, *x);
                out.push(44);
                out.push(32);
                push_reg(&mut out, *y);
            },
            Opcode::Sub { x, y } => {
                out.push(83);
                out.push(85);
                out.push(66);
                out.push(32);
                push_reg(&mut out, *x);
                out.push(44);
                out.push(32);
                push_reg(&mut out, *y);
            },
            Opcode::Shr { x } => {
                out.push(83);
                out.push(72);
                out.push(82);
                out.push(32);
                push_reg(&mut out, *x);
            },
            Opcode::Subn { x, y } => {
                out.push(83);
                out.push(85);
                out.push(66);
                out.push(78);
                out.push(32);
                push_reg(&mut out, *x);
                out.push(44);
                out.push(32);
                push_reg(&mut out, *y);
            },
            Opcode::Shl { x } => {
                out.push(83);
                out.push(72);
                out.push(76);
                out.push(32);
                push_reg(&mut out, *x);
            },
            Opcode::SneRegister { x, y } => {
                out.push(83);
                out.push(78);
                out.push(69);
                out.push(32);
                push_reg(&mut out, *x);
                out.push(44);
                out.push(32);
                push_reg(&mut out, *y);
            },
            Opcode::LdI { address } => {
                out.push(76);
                out.push(68);
                out.push(32);
                out.push(73);
                out.push(44);
                out.push(32);
                out.push(35);
                push_hex(&mut out, address.inner());
            },
            Opcode::JpV0 { address } => {
                out.push(74);
                out.push(80);
                out.push(32);
                out.push(86);
                out.push(48);
                out.push(44);
                out.push(32);
                out.push(35);
                push_hex(&mut out, address.inner());
            },
            Opcode::Rnd { x, byte } => {
                out.push(82);
                out.push(78);
                out.push(68);
                out.push(32);
                push_reg(&mut out, *x);
                out.push(44);
                out.push(32);
                out.push(35);
                push_hex(&mut out, *byte as u16);
            },
            Opcode::Drw { x, y, n } => {
                out.push(68);
                out.push(82);
                out.push(87);
                out.push(32);
                push_reg(&mut out, *x);
                out.push(44);
                out.push(32);
                push_reg(&mut out, *y);
                out.push(44);
                out.push(32);
                out.push(35);
                push_hex(&mut out, *n as u16);
            },
            Opcode::Skp { x } => {
                out.push(83);
                out.push(75);
                out.push(80);
                out.push(32);
                push_reg(&mut out, *x);
            },
            Opcode::Sknp { x } => {
                out.push(83);
                out.push(75);
                out.push(78);
                out.push(80);
                out.push(32);
                push_reg(&mut out, *x);
            },
            Opcode::LdVxDT { x } => {
                out.push(76);
                out.push(68);
                out.push(32);
                push_reg(&mut out, *x);
                out.push(44);
                out.push(32);
                out.push(68);
                out.push(84);
            },
            Opcode::LdVxK { x } => {
                out.push(76);
                out.push(68);
                out.push(32);
                push_reg(&mut out, *x);
                out.push(44);
                out.push(32);
                out.push(75);
            },
            Opcode::LdDTVx { x } => {
                out.push(76);
                out.push(68);
                out.push(32);
                out.push(68);
                out.push(84);
                out.push(44);
                out.push(32);
                push_reg(&mut out, *x);
            },
            Opcode::LdSTVx { x } => {
                out.push(76);
                out.push(68);
                out.push(32);
                out.push(83);
                out.push(84);
                out.push(44);
                out.push(32);
                push_reg(&mut out, *x);
            },
            Opcode::AddIVx { x } => {
                out.push(65);
                out.push(68);
                out.push(68);
                out.push(32);
                out.push(73);
                out.push(44);
                out.push(32);
                push_reg(&mut out, *x);
            },
            Opcode::LdFVx { x } => {
                out.push(76);
                out.push(68);
                out.push(32);
                out.push(70);
                out.push(44);
                out.push(32);
                push_reg(&mut out, *x);
            },
            Opcode::LdBVx { x } => {
                out.push(76);
                out.push(68);
                out.push(32);
                out.push(66);
                out.push(44);
                out.push(32);
                push_reg(&mut out, *x);
            },
            Opcode::LdIVx { x } => {
                out.push(76);
                out.push(68);
                out.push(32);
                out.push(91);
                out.push(73);
                out.push(93);
                out.push(44);
                out.push(32);
                push_reg(&mut out, *x);
            },
            Opcode::LdVxI { x } => {
                out.push(76);
                out.push(68);
                out.push(32);
                push_reg(&mut out, *x);
                out.push(44);
                out.push(32);
                out.push(91);
                out.push(73);
                out.push(93);
            },
            Opcode::Invalid(w) => {
                out.push(35);
                push_hex(&mut out, *w);
            },
        }
        out
    }

    /// Decode the big-endian word formed by two bytes, as fetched from
    /// memory.
    pub fn from_bytes(high: u8, low: u8) -> (r: Opcode)
        ensures
            r == spec_decode(((high as u16) * 0x100 + low as u16) as u16),
    {
        Opcode::decode((high as u16) * 0x100 + (low as u16))
    }
}

/// Recover the four nibbles of a word assembled from them.
proof fn lemma_split_nibbles(s: int, x: int, y: int, n: int)
    requires
        0 <= s < 0x10,
        0 <= x < 0x10,
        0 <= y < 0x10,
        0 <= n < 0x10,
    ensures
        0 <= s * 0x1000 + x * 0x100 + y * 0x10 + n <= 0xFFFF,
        (s * 0x1000 + x * 0x100 + y * 0x10 + n) / 0x1000 == s,
        ((s * 0x1000 + x * 0x100 + y * 0x10 + n) / 0x100) % 0x10 == x,
        ((s * 0x1000 + x * 0x100 + y * 0x10 + n) / 0x10) % 0x10 == y,
        (s * 0x1000 + x * 0x100 + y * 0x10 + n) % 0x10 == n,
        (s * 0x1000 + x * 0x100 + y * 0x10 + n) % 0x100 == y * 0x10 + n,
        (s * 0x1000 + x * 0x100 + y * 0x10 + n) % 0x1000 == x * 0x100 + y * 0x10 + n,
{
    let w = s * 0x1000 + x * 0x100 + y * 0x10 + n;
    vstd::arithmetic::div_mod::lemma_fundamental_div_mod_converse(
        w,
        0x1000,
        s,
        x * 0x100 + y * 0x10 + n,
    );
    vstd::arithmetic::div_mod::lemma_fundamental_div_mod_converse(
        w,
        0x100,
        s * 0x10 + x,
        y * 0x10 + n,
    );
    vstd::arithmetic::div_mod::lemma_fundamental_div_mod_converse(
        w,
        0x10,
        s * 0x100 + x * 0x10 + y,
        n,
    );
    vstd::arithmetic::div_mod::lemma_fundamental_div_mod_converse(s * 0x10 + x, 0x10, s, x);
    vstd::arithmetic::div_mod::lemma_fundamental_div_mod_converse(
        s * 0x100 + x * 0x10 + y,
        0x10,
        s * 0x10 + x,
        y,
    );
}

/// Encoding a well-formed instruction and decoding the word again yields
/// the instruction back.
///
/// The one exception is `Sys` with address `0x0E0` or `0x0EE`: its pattern
/// coincides with `Cls` or `Ret`, which win the decoding.
#[verifier::rlimit(80)]
#[verifier::spinoff_prover]
pub proof fn lemma_encode_decode(op: Opcode)
    requires
        op.wf(),
        op matches Opcode::Sys { address } ==> address@ != 0x0E0 && address@ != 0x0EE,
    ensures
        0 <= spec_encode(op) <= 0xFFFF,
        spec_decode(spec_encode(op) as u16) == op,
{
    match op {
        Opcode::Cls => {
        }
        Opcode::Ret => {
        }
        Opcode::Sys { address } => {
            lemma_split_nibbles(
                0,
                address@ as int / 0x100,
                (address@ as int / 0x10) % 0x10,
                address@ as int % 0x10,
            );
            vstd::arithmetic::div_mod::lemma_fundamental_div_mod(address@ as int, 0x100);
            vstd::arithmetic::div_mod::lemma_fundamental_div_mod(address@ as int, 0x10);
            vstd::arithmetic::div_mod::lemma_mod_mod(address@ as int, 0x10, 0x10);
        }
        Opcode::Jp { address } => {
            lemma_split_addr(0x1, address@ as int);
        }
        Opcode::Call { address } => {
            lemma_split_addr(0x2, address@ as int);
        }
        Opcode::SeByte { x, byte } => {
            lemma_split_xkk(0x3, x@ as int, byte as int);
        }
        Opcode::SneByte { x, byte } => {
            lemma_split_xkk(0x4, x@ as int, byte as int);
        }
        Opcode::SeRegister { x, y } => {
            lemma_split_nibbles(0x5, x@ as int, y@ as int, 0x0);
        }
        Opcode::LdByte { x, byte } => {
            lemma_split_xkk(0x6, x@ as int, byte as int);
        }
        Opcode::AddByte { x, byte } => {
            lemma_split_xkk(0x7, x@ as int, byte as int);
        }
        Opcode::LdRegister { x, y } => {
            lemma_split_nibbles(0x8, x@ as int, y@ as int, 0x0);
        }
        Opcode::Or { x, y } => {
            lemma_split_nibbles(0x8, x@ as int, y@ as int, 0x1);
        }
        Opcode::And { x, y } => {
            lemma_split_nibbles(0x8, x@ as int, y@ as int, 0x2);
        }
        Opcode::Xor { x, y } => {
            lemma_split_nibbles(0x8, x@ as int, y@ as int, 0x3);
        }
        Opcode::AddRegister { x, y } => {
            lemma_split_nibbles(0x8, x@ as int, y@ as int, 0x4);
        }
        Opcode::Sub { x, y } => {
            lemma_split_nibbles(0x8, x@ as int, y@ as int, 0x5);
        }
        Opcode::Shr { x } => {
            lemma_split_nibbles(0x8, x@ as int, 0x1, 0x6);
        }
        Opcode::Subn { x, y } => {
            lemma_split_nibbles(0x8, x@ as int, y@ as int, 0x7);
        }
        Opcode::Shl { x } => {
            lemma_split_nibbles(0x8, x@ as int, 0x0, 0xE);
        }
        Opcode::SneRegister { x, y } => {
            lemma_split_nibbles(0x9, x@ as int, y@ as int, 0x0);
        }
        Opcode::LdI { address } => {
            lemma_split_addr(0xA, address@ as int);
        }
        Opcode::JpV0 { address } => {
            lemma_split_addr(0xB, address@ as int);
        }
        Opcode::Rnd { x, byte } => {
            lemma_split_xkk(0xC, x@ as int, byte as int);
        }
        Opcode::Drw { x, y, n } => {
            lemma_split_nibbles(0xD, x@ as int, y@ as int, n as int);
        }
        Opcode::Skp { x } => {
            lemma_split_xkk(0xE, x@ as int, 0x9E);
        }
        Opcode::Sknp { x } => {
            lemma_split_xkk(0xE, x@ as int, 0xA1);
        }
        Opcode::LdVxDT { x } => {
            lemma_split_xkk(0xF, x@ as int, 0x07);
        }
        Opcode::LdVxK { x } => {
            lemma_split_xkk(0xF, x@ as int, 0x0A);
        }
        Opcode::LdDTVx { x } => {
            lemma_split_xkk(0xF, x@ as int, 0x15);
        }
        Opcode::LdSTVx { x } => {
            lemma_split_xkk(0xF, x@ as int, 0x18);
        }
        Opcode::AddIVx { x } => {
            lemma_split_xkk(0xF, x@ as int, 0x1E);
        }
        Opcode::LdFVx { x } => {
            lemma_split_xkk(0xF, x@ as int, 0x29);
        }
        Opcode::LdBVx { x } => {
            lemma_split_xkk(0xF, x@ as int, 0x33);
        }
        Opcode::LdIVx { x } => {
            lemma_split_xkk(0xF, x@ as int, 0x55);
        }
        Opcode::LdVxI { x } => {
            lemma_split_xkk(0xF, x@ as int, 0x65);
        }
        Opcode::Invalid(_) => {
        }
    }
}

/// Split any 16-bit word into its high nibble, x and y nibbles and low
/// nibble, with the byte and address fields layered on top.
proof fn lemma_parts(w: u16)
    ensures
        0 <= w as int / 0x1000 < 0x10,
        0 <= (w as int / 0x100) % 0x10 < 0x10,
        0 <= (w as int / 0x10) % 0x10 < 0x10,
        0 <= w as int % 0x10 < 0x10,
        w as int % 0x100 == ((w as int / 0x10) % 0x10) * 0x10 + w as int % 0x10,
        w as int % 0x1000 == ((w as int / 0x100) % 0x10) * 0x100 + ((w as int / 0x10) % 0x10)
            * 0x10 + w as int % 0x10,
        w == (w as int / 0x1000) * 0x1000 + ((w as int / 0x100) % 0x10) * 0x100 + ((w as int
            / 0x10) % 0x10) * 0x10 + w as int % 0x10,
{
    vstd::arithmetic::div_mod::lemma_fundamental_div_mod(w as int, 0x1000);
    vstd::arithmetic::div_mod::lemma_breakdown(w as int, 0x100, 0x10);
    vstd::arithmetic::div_mod::lemma_breakdown(w as int, 0x10, 0x10);
}

/// Decoding a word to a non-`Invalid` arm and re-encoding the arm yields
/// the word back, whenever the word is the arm's canonical pattern.
///
/// Every non-`Invalid` word is canonical except a `Shr` or `Shl` pattern
/// whose ignored y nibble differs from the one the assembler emits.
#[verifier::rlimit(80)]
#[verifier::spinoff_prover]
pub proof fn lemma_decode_encode(w: u16)
    requires
        !(spec_decode(w) is Invalid),
        spec_decode(w) is Shr ==> (w as int / 0x10) % 0x10 == 0x1,
        spec_decode(w) is Shl ==> (w as int / 0x10) % 0x10 == 0x0,
    ensures
        spec_encode(spec_decode(w)) == w,
{
    lemma_parts(w);
}

/// The ASCII character of one hex digit, uppercase.
pub open spec fn hex_digit_char(d: int) -> u8 {
    if d < 10 {
        (48 + d) as u8
    } else {
        (55 + d) as u8
    }
}

/// The uppercase hexadecimal digits of a value, no leading zeros.
pub open spec fn spec_hex(v: nat) -> Seq<u8>
    decreases v,
{
    if v < 0x10 {
        seq![hex_digit_char(v as int)]
    } else {
        spec_hex(v / 0x10).push(hex_digit_char((v % 0x10) as int))
    }
}

/// The canonical mnemonic rendering of an instruction, as ASCII bytes:
/// the uppercase mnemonic, `V`-prefixed register operands, and
/// `#`-prefixed uppercase hex immediates.
pub open spec fn spec_mnemonic(op: Opcode) -> Seq<u8> {
    match op {
        Opcode::Cls => seq![67u8, 76, 83],
        Opcode::Ret => seq![82u8, 69, 84],
        Opcode::Sys { address } => seq![83u8, 89, 83, 32, 35] + spec_hex(address@ as nat),
        Opcode::Jp { address } => seq![74u8, 80, 32, 35] + spec_hex(address@ as nat),
        Opcode::Call { address } => seq![67u8, 65, 76, 76, 32, 35] + spec_hex(address@ as nat),
        Opcode::SeByte { x, byte } => seq![83u8, 69, 32, 86] + spec_hex(x@ as nat) + seq![
            44u8,
            32,
            35,
        ] + spec_hex(byte as nat),
        Opcode::SneByte { x, byte } => seq![83u8, 78, 69, 32, 86] + spec_hex(x@ as nat) + seq![
            44u8,
            32,
            35,
        ] + spec_hex(byte as nat),
        Opcode::SeRegister { x, y } => seq![83u8, 69, 32, 86] + spec_hex(x@ as nat) + seq![
            44u8,
            32,
            86,
        ] + spec_hex(y@ as nat),
        Opcode::LdByte { x, byte } => seq![76u8, 68, 32, 86] + spec_hex(x@ as nat) + seq![
            44u8,
            32,
            35,
        ] + spec_hex(byte as nat),
        Opcode::AddByte { x, byte } => seq![65u8, 68, 68, 32, 86] + spec_hex(x@ as nat) + seq![
            44u8,
            32,
            35,
        ] + spec_hex(byte as nat),
        Opcode::LdRegister { x, y } => seq![76u8, 68, 32, 86] + spec_hex(x@ as nat) + seq![
            44u8,
            32,
            86,
        ] + spec_hex(y@ as nat),
        Opcode::Or { x, y } => seq![79u8, 82, 32, 86] + spec_hex(x@ as nat) + seq![44u8, 32, 86]
            + spec_hex(y@ as nat),
        Opcode::And { x, y } => seq![65u8, 78, 68, 32, 86] + spec_hex(x@ as nat) + seq![
            44u8,
            32,
            86,
        ] + spec_hex(y@ as nat),
        Opcode::Xor { x, y } => seq![88u8, 79, 82, 32, 86] + spec_hex(x@ as nat) + seq![
            44u8,
            32,
            86,
        ] + spec_hex(y@ as nat),
        Opcode::AddRegister { x, y } => seq![65u8, 68, 68, 32, 86] + spec_hex(x@ as nat) + seq![
            44u8,
            32,
            86,
        ] + spec_hex(y@ as nat),
        Opcode::Sub { x, y } => seq![83u8, 85, 66, 32, 86] + spec_hex(x@ as nat) + seq![
            44u8,
            32,
            86,
        ] + spec_hex(y@ as nat),
        Opcode::Shr { x } => seq![83u8, 72, 82, 32, 86] + spec_hex(x@ as nat),
        Opcode::Subn { x, y } => seq![83u8, 85, 66, 78, 32, 86] + spec_hex(x@ as nat) + seq![
            44u8,
            32,
            86,
        ] + spec_hex(y@ as nat),
        Opcode::Shl { x } => seq![83u8, 72, 76, 32, 86] + spec_hex(x@ as nat),
        Opcode::SneRegister { x, y } => seq![83u8, 78, 69, 32, 86] + spec_hex(x@ as nat) + seq![
            44u8,
            32,
            86,
        ] + spec_hex(y@ as nat),
        Opcode::LdI { address } => seq![76u8, 68, 32, 73, 44, 32, 35] + spec_hex(address@ as nat),
        Opcode::JpV0 { address } => seq![74u8, 80, 32, 86, 48, 44, 32, 35] + spec_hex(
            address@ as nat,
        ),
        Opcode::Rnd { x, byte } => seq![82u8, 78, 68, 32, 86] + spec_hex(x@ as nat) + seq![
            44u8,
            32,
            35,
        ] + spec_hex(byte as nat),
        Opcode::Drw { x, y, n } => seq![68u8, 82, 87, 32, 86] + spec_hex(x@ as nat) + seq![
            44u8,
            32,
            86,
        ] + spec_hex(y@ as nat) + seq![44u8, 32, 35] + spec_hex(n as nat),
        Opcode::Skp { x } => seq![83u8, 75, 80, 32, 86] + spec_hex(x@ as nat),
        Opcode::Sknp { x } => seq![83u8, 75, 78, 80, 32, 86] + spec_hex(x@ as nat),
        Opcode::LdVxDT { x } => seq![76u8, 68, 32, 86] + spec_hex(x@ as nat) + seq![
            44u8,
            32,
            68,
            84,
        ],
        Opcode::LdVxK { x } => seq![76u8, 68, 32, 86] + spec_hex(x@ as nat) + seq![44u8, 32, 75],
        Opcode::LdDTVx { x } => seq![76u8, 68, 32, 68, 84, 44, 32, 86] + spec_hex(x@ as nat),
        Opcode::LdSTVx { x } => seq![76u8, 68, 32, 83, 84, 44, 32, 86] + spec_hex(x@ as nat),
        Opcode::AddIVx { x } => seq![65u8, 68, 68, 32, 73, 44, 32, 86] + spec_hex(x@ as nat),
        Opcode::LdFVx { x } => seq![76u8, 68, 32, 70, 44, 32, 86] + spec_hex(x@ as nat),
        Opcode::LdBVx { x } => seq![76u8, 68, 32, 66, 44, 32, 86] + spec_hex(x@ as nat),
        Opcode::LdIVx { x } => seq![76u8, 68, 32, 91, 73, 93, 44, 32, 86] + spec_hex(x@ as nat),
        Opcode::LdVxI { x } => seq![76u8, 68, 32, 86] + spec_hex(x@ as nat) + seq![
            44u8,
            32,
            91,
            73,
            93,
        ],
        Opcode::Invalid(w) => seq![35u8] + spec_hex(w as nat),
    }
}

/// The ASCII character of one hex digit, uppercase.
fn hex_char(d: u8) -> (r: u8)
    requires
        d < 16,
    ensures
        r == hex_digit_char(d as int),
{
    if d < 10 {
        48 + d
    } else {
        55 + d
    }
}

/// Append the uppercase hexadecimal digits of a value, no leading zeros.
fn push_hex(out: &mut Vec<u8>, v: u16)
    ensures
        final(out)@ =~= old(out)@ + spec_hex(v as nat),
    decreases v,
{
    if v < 0x10 {
        let c = hex_char(v as u8);
        out.push(c);
    } else {
        push_hex(out, v / 0x10);
        let c = hex_char((v % 0x10) as u8);
        out.push(c);
    }
}

/// Append a `V`-prefixed register operand.
fn push_reg(out: &mut Vec<u8>, x: RegisterIndex)
    ensures
        final(out)@ =~= old(out)@ + seq![86u8] + spec_hex(x@ as nat),
{
    out.push(86);
    push_hex(out, x.inner() as u16);
}

/// Any well-formed instruction whose canonical pattern a word equals
/// decodes back from that word, which is therefore canonical itself.
pub proof fn lemma_word_roundtrip(op: Opcode, w: u16)
    requires
        op.wf(),
        op matches Opcode::Sys { address } ==> address@ != 0x0E0 && address@ != 0x0EE,
        spec_encode(op) == w as int,
    ensures
        !(spec_decode(w) is Invalid),
        spec_decode(w) == op,
        spec_encode(spec_decode(w)) == w,
{
    lemma_encode_decode(op);
}

/// Recover the high nibble, the x nibble and the low byte of a word
/// assembled from them.
proof fn lemma_split_xkk(s: int, x: int, kk: int)
    requires
        0 <= s < 0x10,
        0 <= x < 0x10,
        0 <= kk < 0x100,
    ensures
        0 <= s * 0x1000 + x * 0x100 + kk <= 0xFFFF,
        (s * 0x1000 + x * 0x100 + kk) / 0x1000 == s,
        ((s * 0x1000 + x * 0x100 + kk) / 0x100) % 0x10 == x,
        ((s * 0x1000 + x * 0x100 + kk) / 0x10) % 0x10 == kk / 0x10,
        (s * 0x1000 + x * 0x100 + kk) % 0x10 == kk % 0x10,
        (s * 0x1000 + x * 0x100 + kk) % 0x100 == kk,
        (s * 0x1000 + x * 0x100 + kk) % 0x1000 == x * 0x100 + kk,
{
    vstd::arithmetic::div_mod::lemma_fundamental_div_mod(kk, 0x10);
    lemma_split_nibbles(s, x, kk / 0x10, kk % 0x10);
}

/// Recover the high nibble and the 12-bit address of a word assembled
/// from them.
proof fn lemma_split_addr(s: int, nnn: int)
    requires
        0 <= s < 0x10,
        0 <= nnn < 0x1000,
    ensures
        0 <= s * 0x1000 + nnn <= 0xFFFF,
        (s * 0x1000 + nnn) / 0x1000 == s,
        (s * 0x1000 + nnn) % 0x1000 == nnn,
{
    vstd::arithmetic::div_mod::lemma_fundamental_div_mod_converse(
        s * 0x1000 + nnn,
        0x1000,
        s,
        nnn,
    );
}

} // verus!
