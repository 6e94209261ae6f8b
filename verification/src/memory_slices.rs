use vstd::prelude::*;

use crate::asm_error::Error;
use crate::asm_error::ErrorView;
use crate::labels::LabelMap;
use crate::labels::spec_lookup;

verus! {

/// What the first pass emits for one source line: a finished opcode, a
/// raw byte or word, a label reference to be resolved in pass two, or
/// nothing.
#[derive(Clone, Debug, PartialEq, Eq)]
pub enum MemorySlices {
    /// A fully encoded instruction word.
    Opcode(u16),
    /// An instruction whose address operand names a label: the high
    /// nibble, the label name, and the referencing line.
    Pending(u8, Vec<u8>, usize),
    /// A raw byte from `DB`.
    Byte(u8),
    /// A raw big-endian word from `DW`.
    Word(u16),
    /// A line that emits nothing.
    Empty,
}

/// The mathematical shape of a slice, for use in contracts.
pub enum SliceView {
    Opcode(u16),
    Pending(u8, Seq<u8>, int),
    Byte(u8),
    Word(u16),
    Empty,
}

impl MemorySlices {
    /// The slice's mathematical shape.
    pub open spec fn view(self) -> SliceView {
        match self {
            MemorySlices::Opcode(w) => SliceView::Opcode(w),
            MemorySlices::Pending(s, name, line) => SliceView::Pending(s, name@, line as int),
            MemorySlices::Byte(b) => SliceView::Byte(b),
            MemorySlices::Word(w) => SliceView::Word(w),
            MemorySlices::Empty => SliceView::Empty,
        }
    }

    /// Append this slice's bytes to the output: opcodes and words as two
    /// big-endian bytes, bytes as themselves, nothing for `Empty`; a
    /// pending reference is resolved against the label table and fails
    /// with `UndefinedLabel` exactly when the name has no definition.
    pub fn write(self, labels: &LabelMap, output: &mut Vec<u8>) -> (r: Result<(), Error>)
        ensures
            match spec_write(self@, labels@, old(output)@) {
                Ok(out) => r is Ok && final(output)@ =~= out,
                Err(ev) => (r matches Err(e) && e@ == ev) && final(output)@ =~= old(output)@,
            },
    {
        match self {
            MemorySlices::Opcode(data) => {
                output.push((data / 0x100) as u8);
                output.push((data % 0x100) as u8);
                Ok(())
            },
            MemorySlices::Word(data) => {
                output.push((data / 0x100) as u8);
                output.push((data % 0x100) as u8);
                Ok(())
            },
            MemorySlices::Pending(first_nibble, label, line) => {
                match labels.get(label.as_slice()) {
                    Some(addr) => {
                        let opcode: u16 = ((first_nibble as u16) << 12u16) | (addr & 0x0FFF);
                        proof {
                            assert(((first_nibble as u16) << 12u16) | (addr & 0x0FFF)
                                == pending_word(first_nibble, addr)) by (bit_vector);
                        }
                        output.push((opcode / 0x100) as u8);
                        output.push((opcode % 0x100) as u8);
                        Ok(())
                    },
                    None => Err(Error::UndefinedLabel(label, line)),
                }
            },
            MemorySlices::Byte(data) => {
                output.push(data);
                Ok(())
            },
            MemorySlices::Empty => Ok(()),
        }
    }
}

/// The two big-endian bytes of a 16-bit word.
pub open spec fn word_bytes(w: u16) -> Seq<u8> {
    seq![(w / 0x100) as u8, (w % 0x100) as u8]
}

/// The word a resolved label reference encodes: the high nibble over the
/// label address masked to twelve bits.
pub open spec fn pending_word(first: u8, addr: u16) -> u16 {
    (((first as u16) << 12u16) | (addr & 0x0FFF)) as u16
}

/// What writing a slice appends to the output, or which error stops it.
pub open spec fn spec_write(s: SliceView, labels: Seq<(Seq<u8>, u16)>, out: Seq<u8>) -> Result<
    Seq<u8>,
    ErrorView,
> {
    match s {
        SliceView::Opcode(w) => Ok(out + word_bytes(w)),
        SliceView::Word(w) => Ok(out + word_bytes(w)),
        SliceView::Byte(b) => Ok(out.push(b)),
        SliceView::Empty => Ok(out),
        SliceView::Pending(first, name, line) => match spec_lookup(labels, name) {
            Some(addr) => Ok(out + word_bytes(pending_word(first, addr))),
            None => Err(ErrorView::UndefinedLabel(name, line)),
        },
    }
}

} // verus!
