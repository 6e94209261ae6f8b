use vstd::prelude::*;

verus! {

/// A 12-bit CHIP-8 memory address, always in `[0x000, 0xFFF]`.
///
/// Used for the program counter, the index register I, stack entries and
/// memory indices.  The upper four bits of the carrier `u16` are always
/// zero; the two constructors either check or mask the input to keep it so.
#[derive(Clone, Copy, Debug, PartialEq, Eq, Structural)]
pub struct Address(u16);

/// First address of the ROM region: execution starts here after a load.
pub const ENTRY_POINT: u16 = 0x200;

impl Address {
    /// The value carried by an address, for use in contracts.
    pub closed spec fn view(self) -> u16 {
        self.0
    }

    /// The 12-bit range invariant, maintained by every constructor.
    #[verifier::type_invariant]
    pub open spec fn type_inv(self) -> bool {
        self@ <= 0xFFF
    }

    /// Checked constructor: succeeds exactly on 12-bit values.
    pub fn try_new(address: u16) -> (r: Result<Self, crate::error::EmulatorError>)
        ensures
            address <= 0xFFF <==> r is Ok,
            r matches Ok(a) ==> a@ == address,
            r matches Err(e) ==> e == crate::error::EmulatorError::InvalidAddress(address),
    {
        if address > 0xFFF {
            Err(crate::error::EmulatorError::InvalidAddress(address))
        } else {
            Ok(Address(address))
        }
    }

    /// The address holding `v` masked to 12 bits, for use in contracts.
    pub closed spec fn spec_masked(v: u16) -> Address {
        Address(v % 0x1000)
    }

    /// What `spec_masked` carries.
    pub broadcast proof fn lemma_spec_masked(v: u16)
        ensures
            (#[trigger] Address::spec_masked(v))@ == v % 0x1000,
    {
    }

    /// Two addresses carrying the same value are the same address.
    pub broadcast proof fn lemma_view_injective(a: Address, b: Address)
        ensures
            #![trigger a@, b@]
            a@ == b@ ==> a == b,
    {
    }

    /// Masking constructor: keeps the low 12 bits and drops the rest.
    pub fn new(address: u16) -> (r: Self)
        ensures
            r@ == address % 0x1000,
    {
        proof {
            assert(address & 0xFFF == address % 0x1000) by (bit_vector);
        }
        Address(address & 0xFFF)
    }

    /// Checked in-place addition; fails if the sum leaves the 12-bit range.
    pub fn add_assign(&mut self, other: u16) -> (r: Result<(), crate::error::EmulatorError>)
        ensures
            old(self)@ + other <= 0xFFF <==> r is Ok,
            r is Ok ==> final(self)@ == old(self)@ + other,
            r is Err ==> final(self)@ == old(self)@,
            r matches Err(e) ==> old(self)@ + other > 0xFFF
                && e == crate::error::EmulatorError::InvalidAddress((old(self)@ + other) as u16),
    {
        proof {
            use_type_invariant(&*self);
        }
        let sum: u32 = self.0 as u32 + other as u32;
        if sum > 0xFFF {
            Err(crate::error::EmulatorError::InvalidAddress(sum as u16))
        } else {
            self.0 = sum as u16;
            Ok(())
        }
    }

    /// The address as a plain `u16`.
    pub fn inner(&self) -> (r: u16)
        ensures
            r == self@,
            r <= 0xFFF,
    {
        proof {
            use_type_invariant(self);
        }
        self.0
    }
}

} // verus!
