use vstd::prelude::*;

use crate::error::EmulatorError;

verus! {

/// A 4-bit V-register index, always in `[0x0, 0xF]`.
#[derive(Clone, Copy, Debug, PartialEq, Eq, Structural)]
pub struct RegisterIndex(u8);

/// Number of V registers in the CHIP-8.
pub const REGISTER_COUNT: usize = 0x10;

impl RegisterIndex {
    /// The index carried, for use in contracts.
    pub closed spec fn view(self) -> u8 {
        self.0
    }

    /// The 4-bit range invariant, maintained by every constructor.
    #[verifier::type_invariant]
    pub open spec fn type_inv(self) -> bool {
        self@ <= 0xF
    }

    /// The index holding `v` masked to four bits, for use in contracts.
    pub closed spec fn spec_masked(v: u8) -> RegisterIndex {
        RegisterIndex(v % 0x10)
    }

    /// What `spec_masked` carries.
    pub broadcast proof fn lemma_spec_masked(v: u8)
        ensures
            (#[trigger] RegisterIndex::spec_masked(v))@ == v % 0x10,
    {
    }

    /// Two register indices carrying the same value are the same index.
    pub broadcast proof fn lemma_view_injective(a: RegisterIndex, b: RegisterIndex)
        ensures
            #![trigger a@, b@]
            a@ == b@ ==> a == b,
    {
    }

    /// Masking constructor: keeps the low four bits.
    pub fn new(value: u8) -> (r: Self)
        ensures
            r@ == value % 0x10,
    {
        proof {
            assert(value & 0xF == value % 0x10) by (bit_vector);
        }
        RegisterIndex(value & 0xF)
    }

    /// Checked constructor: succeeds exactly on values in `[0x0, 0xF]`.
    pub fn try_new(value: u8) -> (r: Result<Self, EmulatorError>)
        ensures
            value <= 0xF <==> r is Ok,
            r matches Ok(x) ==> x@ == value,
            r matches Err(e) ==> e == EmulatorError::InvalidRegister(value),
    {
        if value > 0xF {
            Err(EmulatorError::InvalidRegister(value))
        } else {
            Ok(RegisterIndex(value))
        }
    }

    /// The index register 0, first operand of the `JP V0` jump.
    pub fn zero() -> (r: Self)
        ensures
            r@ == 0,
    {
        RegisterIndex(0)
    }

    /// The flags register index 0xF.
    pub fn flag() -> (r: Self)
        ensures
            r@ == 0xF,
    {
        RegisterIndex(0xF)
    }

    /// The index as a `usize`, ready for array indexing.
    pub fn index(&self) -> (r: usize)
        ensures
            r == self@ as usize,
            r < 0x10,
    {
        proof {
            use_type_invariant(self);
        }
        self.0 as usize
    }

    /// The index as a plain `u8`.
    pub fn inner(&self) -> (r: u8)
        ensures
            r == self@,
            r <= 0xF,
    {
        proof {
            use_type_invariant(self);
        }
        self.0
    }
}

/// The sixteen 8-bit V registers.
#[derive(Clone, Debug)]
pub struct VRegisters {
    registers: [u8; REGISTER_COUNT],
}

impl VRegisters {
    /// The registers as a sequence of sixteen bytes.
    pub closed spec fn view(self) -> Seq<u8> {
        self.registers@
    }

    /// The register file always holds exactly sixteen bytes.
    pub broadcast proof fn lemma_len(v: VRegisters)
        ensures
            (#[trigger] v@).len() == REGISTER_COUNT,
    {
    }

    /// Fresh register file, all registers zero.
    pub fn new() -> (r: Self)
        ensures
            r@ =~= Seq::new(16, |i: int| 0u8),
    {
        VRegisters { registers: [0; REGISTER_COUNT] }
    }

    /// Read the register at a checked index.
    pub fn get(&self, index: RegisterIndex) -> (r: u8)
        ensures
            r == self@[index@ as int],
    {
        self.registers[index.index()]
    }

    /// Write the register at a checked index.
    pub fn set(&mut self, index: RegisterIndex, value: u8)
        ensures
            final(self)@ =~= old(self)@.update(index@ as int, value),
    {
        let i = index.index();
        self.registers[i] = value;
    }

    /// Read a register by raw index, without panicking on bad input.
    pub fn try_index(&self, index: u8) -> (r: Result<u8, EmulatorError>)
        ensures
            index <= 0xF <==> r is Ok,
            r matches Ok(v) ==> v == self@[index as int],
            r matches Err(e) ==> e == EmulatorError::InvalidRegister(index),
    {
        if index > 0xF {
            Err(EmulatorError::InvalidRegister(index))
        } else {
            Ok(self.registers[index as usize])
        }
    }
}

} // verus!
