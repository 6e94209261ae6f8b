use vstd::prelude::*;

use crate::tokenizer::Line;
use crate::tokenizer::LineView;

verus! {

/// Everything that can go wrong while assembling: label conflicts,
/// operands out of range, and words the lexer cannot read.
///
/// Each variant carries the offending value and the 1-based source line
/// it was found on.  Reading the source text and writing the output are
/// the host's concern, so no I/O variant appears here.
#[derive(Clone, Debug, PartialEq, Eq)]
pub enum Error {
    /// Two `name:` definitions share this name.
    DuplicateLabel(Vec<u8>, usize),
    /// An operand references this name, but no line defines it.
    UndefinedLabel(Vec<u8>, usize),
    /// An address operand above `0xFFF`.
    InvalidAddress(u16, usize),
    /// A numeric word with a bad digit, or one too large for 16 bits.
    InvalidNumber(Vec<u8>, usize),
    /// A register word above `VF`.
    InvalidRegister(u16, usize),
    /// A byte operand above `0xFF`.
    InvalidByte(u16, usize),
    /// A nibble operand above `0xF`.
    InvalidNibble(u16, usize),
    /// A word no token rule accepts.
    InvalidToken(Vec<u8>, usize),
    /// A line whose tokens match no instruction template.
    InvalidLine(Line),
}

/// The mathematical shape of an assembler error, for use in contracts.
pub enum ErrorView {
    DuplicateLabel(Seq<u8>, int),
    UndefinedLabel(Seq<u8>, int),
    InvalidAddress(u16, int),
    InvalidNumber(Seq<u8>, int),
    InvalidRegister(u16, int),
    InvalidByte(u16, int),
    InvalidNibble(u16, int),
    InvalidToken(Seq<u8>, int),
    InvalidLine(LineView),
}

impl Error {
    /// The error's mathematical shape.
    pub open spec fn view(self) -> ErrorView {
        match self {
            Error::DuplicateLabel(n, l) => ErrorView::DuplicateLabel(n@, l as int),
            Error::UndefinedLabel(n, l) => ErrorView::UndefinedLabel(n@, l as int),
            Error::InvalidAddress(v, l) => ErrorView::InvalidAddress(v, l as int),
            Error::InvalidNumber(n, l) => ErrorView::InvalidNumber(n@, l as int),
            Error::InvalidRegister(v, l) => ErrorView::InvalidRegister(v, l as int),
            Error::InvalidByte(v, l) => ErrorView::InvalidByte(v, l as int),
            Error::InvalidNibble(v, l) => ErrorView::InvalidNibble(v, l as int),
            Error::InvalidToken(n, l) => ErrorView::InvalidToken(n@, l as int),
            Error::InvalidLine(line) => ErrorView::InvalidLine(line@),
        }
    }

    /// Wrap the error as the `Err` arm of any result.
    pub fn warp<T>(self) -> (r: Result<T, Error>)
        ensures
            r matches Err(e) && e == self,
    {
        Err(self)
    }
}

} // verus!
