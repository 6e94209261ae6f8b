use vstd::prelude::*;

use crate::address::Address;
use crate::error::EmulatorError;

verus! {

/// Size of the CHIP-8 RAM: 4 KiB.
pub const MEMORY_SIZE: usize = 0x1000;

/// Length in bytes of the built-in hexadecimal font: 16 glyphs, 5 bytes each.
pub const FONT_SET_LEN: usize = 80;

/// The canonical hexadecimal font: glyph `d` occupies bytes `d*5 .. d*5+5`.
pub open spec fn font_set() -> Seq<u8> {
    seq![
        0xF0u8, 0x90, 0x90, 0x90, 0xF0, 0x20, 0x60, 0x20, 0x20, 0x70, 0xF0, 0x10, 0xF0, 0x80,
        0xF0, 0xF0, 0x10, 0xF0, 0x10, 0xF0, 0x90, 0x90, 0xF0, 0x10, 0x10, 0xF0, 0x80, 0xF0, 0x10,
        0xF0, 0xF0, 0x80, 0xF0, 0x90, 0xF0, 0xF0, 0x10, 0x20, 0x40, 0x40, 0xF0, 0x90, 0xF0, 0x90,
        0xF0, 0xF0, 0x90, 0xF0, 0x10, 0xF0, 0xF0, 0x90, 0xF0, 0x90, 0x90, 0xE0, 0x90, 0xE0, 0x90,
        0xE0, 0xF0, 0x80, 0x80, 0x80, 0xF0, 0xE0, 0x90, 0x90, 0x90, 0xE0, 0xF0, 0x80, 0xF0, 0x80,
        0xF0, 0xF0, 0x80, 0xF0, 0x80, 0x80,
    ]
}

/// The font as bytes, proved equal to `font_set`.
fn font_table() -> (r: [u8; FONT_SET_LEN])
    ensures
        r@ =~= font_set(),
{
    let r: [u8; FONT_SET_LEN] = [
        0xF0, 0x90, 0x90, 0x90, 0xF0, 0x20, 0x60, 0x20, 0x20, 0x70, 0xF0, 0x10, 0xF0, 0x80, 0xF0,
        0xF0, 0x10, 0xF0, 0x10, 0xF0, 0x90, 0x90, 0xF0, 0x10, 0x10, 0xF0, 0x80, 0xF0, 0x10, 0xF0,
        0xF0, 0x80, 0xF0, 0x90, 0xF0, 0xF0, 0x10, 0x20, 0x40, 0x40, 0xF0, 0x90, 0xF0, 0x90, 0xF0,
        0xF0, 0x90, 0xF0, 0x10, 0xF0, 0xF0, 0x90, 0xF0, 0x90, 0x90, 0xE0, 0x90, 0xE0, 0x90, 0xE0,
        0xF0, 0x80, 0x80, 0x80, 0xF0, 0xE0, 0x90, 0x90, 0x90, 0xE0, 0xF0, 0x80, 0xF0, 0x80, 0xF0,
        0xF0, 0x80, 0xF0, 0x80, 0x80,
    ];
    r
}

/// RAM contents after a successful ROM load: the font at the bottom,
/// zeros up to the entry point, the ROM bytes from `0x200` on, and zeros
/// after them.
pub open spec fn rom_loaded(mem: Seq<u8>, rom: Seq<u8>) -> bool {
    &&& mem.len() == MEMORY_SIZE
    &&& forall|i: int| 0 <= i < FONT_SET_LEN ==> mem[i] == font_set()[i]
    &&& forall|i: int| FONT_SET_LEN <= i < 0x200 ==> mem[i] == 0u8
    &&& forall|i: int|
        0x200 <= i < MEMORY_SIZE ==> mem[i] == (if i - 0x200 < rom.len() {
            rom[i - 0x200]
        } else {
            0u8
        })
}

/// The 4 KiB RAM of the CHIP-8 machine.
///
/// After any successful `load_rom` the font sits at `[0x000, 0x050)`, the
/// ROM image at `[0x200, 0x200 + rom_len)`, and every other byte is zero.
pub struct Memory {
    ram: [u8; MEMORY_SIZE],
}

impl Memory {
    /// The RAM contents as a sequence of 4096 bytes.
    pub closed spec fn view(self) -> Seq<u8> {
        self.ram@
    }

    /// The RAM always holds exactly 4096 bytes.
    pub broadcast proof fn lemma_len(m: Memory)
        ensures
            (#[trigger] m@).len() == MEMORY_SIZE,
    {
    }

    /// Fresh RAM, every byte zero.
    pub fn new() -> (r: Self)
        ensures
            r@.len() == MEMORY_SIZE,
            forall|i: int| 0 <= i < MEMORY_SIZE ==> r@[i] == 0u8,
    {
        Memory { ram: [0; MEMORY_SIZE] }
    }

    /// Load a ROM image: restore the font, place the ROM bytes at the entry
    /// point `0x200`, and zero everything else.  ROM bytes past the end of
    /// RAM are ignored.
    pub fn load_rom(&mut self, rom: &[u8])
        ensures
            rom_loaded(final(self)@, rom@),
    {
        self.ram = [0; MEMORY_SIZE];
        let font = font_table();
        let mut k: usize = 0;
        while k < FONT_SET_LEN
            invariant
                k <= FONT_SET_LEN,
                self@.len() == MEMORY_SIZE,
                font@ =~= font_set(),
                forall|i: int| 0 <= i < k ==> self@[i] == font_set()[i],
                forall|i: int| k <= i < MEMORY_SIZE ==> self@[i] == 0u8,
            decreases FONT_SET_LEN - k,
        {
            self.ram[k] = font[k];
            k = k + 1;
        }
        let mut j: usize = 0;
        while j < rom.len() && 0x200 + j < MEMORY_SIZE
            invariant
                j <= rom@.len(),
                0x200 + j <= MEMORY_SIZE,
                self@.len() == MEMORY_SIZE,
                forall|i: int| 0 <= i < FONT_SET_LEN ==> self@[i] == font_set()[i],
                forall|i: int| FONT_SET_LEN <= i < 0x200 ==> self@[i] == 0u8,
                forall|i: int| 0x200 <= i < 0x200 + j ==> self@[i] == rom@[i - 0x200],
                forall|i: int| 0x200 + j <= i < MEMORY_SIZE ==> self@[i] == 0u8,
            decreases rom@.len() - j,
        {
            self.ram[0x200 + j] = rom[j];
            j = j + 1;
        }
    }

    /// Copy a slice into RAM starting at the given address; rejects with
    /// `OutOfBounds` any range that would touch an address past the RAM.
    pub fn read_range(&mut self, start_address: Address, data: &[u8]) -> (r: Result<
        (),
        EmulatorError,
    >)
        ensures
            final(self)@.len() == MEMORY_SIZE,
            start_address@ + data@.len() <= MEMORY_SIZE <==> r is Ok,
            r is Ok ==> forall|i: int|
                0 <= i < MEMORY_SIZE ==> final(self)@[i] == (if start_address@ <= i
                    < start_address@ + data@.len() {
                    data@[i - start_address@]
                } else {
                    old(self)@[i]
                }),
            r is Err ==> final(self)@ =~= old(self)@,
            r matches Err(e) ==> e == EmulatorError::OutOfBounds(
                ((start_address@ + data@.len()) % 0x10000) as u16,
            ),
    {
        let start = start_address.inner() as usize;
        if data.len() > MEMORY_SIZE - start {
            let end: usize = (start + data.len() % 0x10000) % 0x10000;
            proof {
                vstd::arithmetic::div_mod::lemma_add_mod_noop(start as int, data@.len() as int, 0x10000);
                vstd::arithmetic::div_mod::lemma_small_mod(start as nat, 0x10000);
            }
            return Err(EmulatorError::OutOfBounds(end as u16));
        }
        let mut j: usize = 0;
        while j < data.len()
            invariant
                j <= data@.len(),
                start == start_address@,
                start + data@.len() <= MEMORY_SIZE,
                self@.len() == MEMORY_SIZE,
                forall|i: int|
                    start <= i < start + j ==> self@[i] == data@[i - start],
                forall|i: int|
                    0 <= i < MEMORY_SIZE && !(start <= i < start + j) ==> self@[i] == old(self)@[i],
            decreases data@.len() - j,
        {
            self.ram[start + j] = data[j];
            j = j + 1;
        }
        Ok(())
    }

    /// Copy `len` bytes out of RAM starting at the given address; rejects
    /// with `OutOfBounds` any range that would touch an address past the RAM.
    pub fn write_range(&self, start_address: Address, len: usize) -> (r: Result<
        Vec<u8>,
        EmulatorError,
    >)
        ensures
            start_address@ + len <= MEMORY_SIZE <==> r is Ok,
            r matches Ok(v) ==> v@ =~= self@.subrange(start_address@ as int, start_address@ + len),
            r matches Err(e) ==> e == EmulatorError::OutOfBounds(((start_address@ + len) % 0x10000) as u16),
    {
        let start = start_address.inner() as usize;
        if len > MEMORY_SIZE - start {
            let end: usize = (start + len % 0x10000) % 0x10000;
            proof {
                vstd::arithmetic::div_mod::lemma_add_mod_noop(start as int, len as int, 0x10000);
                vstd::arithmetic::div_mod::lemma_small_mod(start as nat, 0x10000);
            }
            return Err(EmulatorError::OutOfBounds(end as u16));
        }
        let mut out: Vec<u8> = Vec::new();
        let mut j: usize = 0;
        while j < len
            invariant
                j <= len,
                start == start_address@,
                start + len <= MEMORY_SIZE,
                self@.len() == MEMORY_SIZE,
                out@.len() == j,
                forall|i: int| 0 <= i < j ==> out@[i] == self@[start + i],
            decreases len - j,
        {
            out.push(self.ram[start + j]);
            j = j + 1;
        }
        Ok(out)
    }

    /// Read the single byte at an address.
    pub fn get(&self, address: Address) -> (r: u8)
        ensures
            r == self@[address@ as int],
    {
        self.ram[address.inner() as usize]
    }
}

/// Loading an empty ROM leaves exactly the font in the first eighty
/// bytes and zeros everywhere else.
pub proof fn lemma_load_empty_rom(mem: Seq<u8>)
    requires
        rom_loaded(mem, Seq::<u8>::empty()),
    ensures
        forall|i: int| 0 <= i < FONT_SET_LEN ==> mem[i] == font_set()[i],
        forall|i: int| FONT_SET_LEN <= i < MEMORY_SIZE ==> mem[i] == 0u8,
{
}

} // verus!
