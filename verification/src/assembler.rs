use vstd::prelude::*;

use crate::asm_error::Error;
use crate::asm_error::ErrorView;
use crate::labels::LabelMap;
use crate::labels::spec_has_label;
use crate::labels::spec_lookup;
use crate::memory_slices::MemorySlices;
use crate::memory_slices::SliceView;
use crate::memory_slices::spec_write;
use crate::tokenizer::Line;
use crate::tokenizer::LineView;
use crate::tokenizer::Token;
use crate::tokenizer::TokenView;
use crate::tokenizer::Tokenizer;
use crate::tokenizer::spec_tokenize;
use crate::tokenizer::lemma_get_line_progress;
use crate::tokenizer::token_view_wf;
use crate::tokenizer::token_wf;
use crate::opcode::Opcode;
use crate::opcode::lemma_word_roundtrip;
use crate::opcode::spec_decode;
use crate::opcode::spec_encode;

verus! {

/// The words the assembler recognizes: instruction mnemonics and
/// operand keywords.
#[derive(Clone, Copy, Debug, PartialEq, Eq, Structural)]
pub enum Kw {
    Cls,
    Ret,
    Sys,
    Jp,
    Call,
    Se,
    Sne,
    Ld,
    Add,
    Or,
    And,
    Xor,
    Sub,
    Shr,
    Subn,
    Shl,
    Rnd,
    Drw,
    Skp,
    Sknp,
    Db,
    Dw,
    /// The index register operand `I`.
    I,
    /// The delay timer operand `DT`.
    Dt,
    /// The sound timer operand `ST`.
    St,
    /// The font operand `F`.
    F,
    /// The BCD operand `B`.
    B,
    /// The memory operand `[I]`.
    MemI,
    /// The key-wait operand `K`.
    K,
}


/// Whether a byte string is the given one-byte word.
pub open spec fn is_word1(s: Seq<u8>, b0: u8) -> bool {
    s.len() == 1 && s[0] == b0
}

/// Whether a byte string is the given two-byte word.
pub open spec fn is_word2(s: Seq<u8>, b0: u8, b1: u8) -> bool {
    s.len() == 2 && s[0] == b0 && s[1] == b1
}

/// Whether a byte string is the given three-byte word.
pub open spec fn is_word3(s: Seq<u8>, b0: u8, b1: u8, b2: u8) -> bool {
    s.len() == 3 && s[0] == b0 && s[1] == b1 && s[2] == b2
}

/// Whether a byte string is the given four-byte word.
pub open spec fn is_word4(s: Seq<u8>, b0: u8, b1: u8, b2: u8, b3: u8) -> bool {
    s.len() == 4 && s[0] == b0 && s[1] == b1 && s[2] == b2 && s[3] == b3
}

/// Which keyword a word is, if any.  Keywords are uppercase.
pub open spec fn spec_kw(s: Seq<u8>) -> Option<Kw> {
    if is_word3(s, 67, 76, 83) {
        Some(Kw::Cls)
    } else if is_word3(s, 82, 69, 84) {
        Some(Kw::Ret)
    } else if is_word3(s, 83, 89, 83) {
        Some(Kw::Sys)
    } else if is_word2(s, 74, 80) {
        Some(Kw::Jp)
    } else if is_word4(s, 67, 65, 76, 76) {
        Some(Kw::Call)
    } else if is_word2(s, 83, 69) {
        Some(Kw::Se)
    } else if is_word3(s, 83, 78, 69) {
        Some(Kw::Sne)
    } else if is_word2(s, 76, 68) {
        Some(Kw::Ld)
    } else if is_word3(s, 65, 68, 68) {
        Some(Kw::Add)
    } else if is_word2(s, 79, 82) {
        Some(Kw::Or)
    } else if is_word3(s, 65, 78, 68) {
        Some(Kw::And)
    } else if is_word3(s, 88, 79, 82) {
        Some(Kw::Xor)
    } else if is_word3(s, 83, 85, 66) {
        Some(Kw::Sub)
    } else if is_word3(s, 83, 72, 82) {
        Some(Kw::Shr)
    } else if is_word4(s, 83, 85, 66, 78) {
        Some(Kw::Subn)
    } else if is_word3(s, 83, 72, 76) {
        Some(Kw::Shl)
    } else if is_word3(s, 82, 78, 68) {
        Some(Kw::Rnd)
    } else if is_word3(s, 68, 82, 87) {
        Some(Kw::Drw)
    } else if is_word3(s, 83, 75, 80) {
        Some(Kw::Skp)
    } else if is_word4(s, 83, 75, 78, 80) {
        Some(Kw::Sknp)
    } else if is_word2(s, 68, 66) {
        Some(Kw::Db)
    } else if is_word2(s, 68, 87) {
        Some(Kw::Dw)
    } else if is_word1(s, 73) {
        Some(Kw::I)
    } else if is_word2(s, 68, 84) {
        Some(Kw::Dt)
    } else if is_word2(s, 83, 84) {
        Some(Kw::St)
    } else if is_word1(s, 70) {
        Some(Kw::F)
    } else if is_word1(s, 66) {
        Some(Kw::B)
    } else if is_word3(s, 91, 73, 93) {
        Some(Kw::MemI)
    } else if is_word1(s, 75) {
        Some(Kw::K)
    } else {
        None
    }
}


/// Whether a word is the given one-byte keyword.
fn word_eq1(s: &[u8], b0: u8) -> (r: bool)
    ensures
        r == is_word1(s@, b0),
{
    s.len() == 1 && s[0] == b0
}

/// Whether a word is the given two-byte keyword.
fn word_eq2(s: &[u8], b0: u8, b1: u8) -> (r: bool)
    ensures
        r == is_word2(s@, b0, b1),
{
    s.len() == 2 && s[0] == b0 && s[1] == b1
}

/// Whether a word is the given three-byte keyword.
fn word_eq3(s: &[u8], b0: u8, b1: u8, b2: u8) -> (r: bool)
    ensures
        r == is_word3(s@, b0, b1, b2),
{
    s.len() == 3 && s[0] == b0 && s[1] == b1 && s[2] == b2
}

/// Whether a word is the given four-byte keyword.
fn word_eq4(s: &[u8], b0: u8, b1: u8, b2: u8, b3: u8) -> (r: bool)
    ensures
        r == is_word4(s@, b0, b1, b2, b3),
{
    s.len() == 4 && s[0] == b0 && s[1] == b1 && s[2] == b2 && s[3] == b3
}

/// Classify a word.
fn kw(id: &[u8]) -> (r: Option<Kw>)
    ensures
        r == spec_kw(id@),
{
    if word_eq3(id, 67, 76, 83) {
        Some(Kw::Cls)
    } else if word_eq3(id, 82, 69, 84) {
        Some(Kw::Ret)
    } else if word_eq3(id, 83, 89, 83) {
        Some(Kw::Sys)
    } else if word_eq2(id, 74, 80) {
        Some(Kw::Jp)
    } else if word_eq4(id, 67, 65, 76, 76) {
        Some(Kw::Call)
    } else if word_eq2(id, 83, 69) {
        Some(Kw::Se)
    } else if word_eq3(id, 83, 78, 69) {
        Some(Kw::Sne)
    } else if word_eq2(id, 76, 68) {
        Some(Kw::Ld)
    } else if word_eq3(id, 65, 68, 68) {
        Some(Kw::Add)
    } else if word_eq2(id, 79, 82) {
        Some(Kw::Or)
    } else if word_eq3(id, 65, 78, 68) {
        Some(Kw::And)
    } else if word_eq3(id, 88, 79, 82) {
        Some(Kw::Xor)
    } else if word_eq3(id, 83, 85, 66) {
        Some(Kw::Sub)
    } else if word_eq3(id, 83, 72, 82) {
        Some(Kw::Shr)
    } else if word_eq4(id, 83, 85, 66, 78) {
        Some(Kw::Subn)
    } else if word_eq3(id, 83, 72, 76) {
        Some(Kw::Shl)
    } else if word_eq3(id, 82, 78, 68) {
        Some(Kw::Rnd)
    } else if word_eq3(id, 68, 82, 87) {
        Some(Kw::Drw)
    } else if word_eq3(id, 83, 75, 80) {
        Some(Kw::Skp)
    } else if word_eq4(id, 83, 75, 78, 80) {
        Some(Kw::Sknp)
    } else if word_eq2(id, 68, 66) {
        Some(Kw::Db)
    } else if word_eq2(id, 68, 87) {
        Some(Kw::Dw)
    } else if word_eq1(id, 73) {
        Some(Kw::I)
    } else if word_eq2(id, 68, 84) {
        Some(Kw::Dt)
    } else if word_eq2(id, 83, 84) {
        Some(Kw::St)
    } else if word_eq1(id, 70) {
        Some(Kw::F)
    } else if word_eq1(id, 66) {
        Some(Kw::B)
    } else if word_eq3(id, 91, 73, 93) {
        Some(Kw::MemI)
    } else if word_eq1(id, 75) {
        Some(Kw::K)
    } else {
        None
    }
}

/// The emission cursor two bytes further, wrapping as a 16-bit counter.
pub open spec fn cursor2(a: u16) -> u16 {
    ((a + 2) % 0x10000) as u16
}

/// The emission cursor one byte further, wrapping as a 16-bit counter.
pub open spec fn cursor1(a: u16) -> u16 {
    ((a + 1) % 0x10000) as u16
}

/// The word a directly resolved label reference encodes: the high
/// nibble over the raw recorded address.
pub open spec fn label_word(s: u8, addr: u16) -> u16 {
    (((s as u16) << 12u16) | addr) as u16
}

/// First-pass result for one line: the slice or error, the new cursor,
/// and the new label table.
pub open spec fn cast_addr(s: u8, num: u16, ln: int, a0: u16, l0: Seq<(Seq<u8>, u16)>) -> (
    Result<SliceView, ErrorView>,
    u16,
    Seq<(Seq<u8>, u16)>,
) {
    if num > 0xFFF {
        (Err(ErrorView::InvalidAddress(num, ln)), cursor2(a0), l0)
    } else {
        (Ok(SliceView::Opcode(((s as u16) * 0x1000 + num) as u16)), cursor2(a0), l0)
    }
}

/// First-pass result for an instruction whose address operand names a
/// label: resolved at once when already defined, pending otherwise.
pub open spec fn cast_label(s: u8, lb: Seq<u8>, ln: int, a0: u16, l0: Seq<(Seq<u8>, u16)>) -> (
    Result<SliceView, ErrorView>,
    u16,
    Seq<(Seq<u8>, u16)>,
) {
    match spec_lookup(l0, lb) {
        Some(addr) => (Ok(SliceView::Opcode(label_word(s, addr))), cursor2(a0), l0),
        None => (Ok(SliceView::Pending(s, lb, ln)), cursor2(a0), l0),
    }
}

/// First-pass result for a finished opcode word.
pub open spec fn cast_op(w: u16, a0: u16, l0: Seq<(Seq<u8>, u16)>) -> (
    Result<SliceView, ErrorView>,
    u16,
    Seq<(Seq<u8>, u16)>,
) {
    (Ok(SliceView::Opcode(w)), cursor2(a0), l0)
}

/// First-pass rejection of a line matching no template.
pub open spec fn cast_bad(l: LineView, a0: u16, l0: Seq<(Seq<u8>, u16)>) -> (
    Result<SliceView, ErrorView>,
    u16,
    Seq<(Seq<u8>, u16)>,
) {
    (Err(ErrorView::InvalidLine(l)), a0, l0)
}

/// The whole first pass for one token line: match it against the
/// instruction templates, yielding its memory slice, the advanced
/// emission cursor, and the extended label table.
///
/// This is the template table of the assembler; register operands are
/// assumed in range, as the tokenizer guarantees.
pub open spec fn spec_cast(l: LineView, a0: u16, l0: Seq<(Seq<u8>, u16)>) -> (
    Result<SliceView, ErrorView>,
    u16,
    Seq<(Seq<u8>, u16)>,
) {
    let ts = l.tokens;
    let ln = l.line;
    if ts.len() == 0 {
        (Ok(SliceView::Empty), a0, l0)
    } else if ts.len() == 1 {
        match ts[0] {
            TokenView::Label(name) => if spec_has_label(l0, name) {
                (Err(ErrorView::DuplicateLabel(name, ln)), a0, l0)
            } else {
                (Ok(SliceView::Empty), a0, l0.push((name, a0)))
            },
            TokenView::Identifier(id) => match spec_kw(id) {
                Some(Kw::Cls) => cast_op(0x00E0, a0, l0),
                Some(Kw::Ret) => cast_op(0x00EE, a0, l0),
                _ => cast_bad(l, a0, l0),
            },
            _ => cast_bad(l, a0, l0),
        }
    } else if ts.len() == 2 {
        match (ts[0], ts[1]) {
            (TokenView::Identifier(id), TokenView::Number(num)) => match spec_kw(id) {
                Some(Kw::Sys) => cast_addr(0x0, num, ln, a0, l0),
                Some(Kw::Jp) => cast_addr(0x1, num, ln, a0, l0),
                Some(Kw::Call) => cast_addr(0x2, num, ln, a0, l0),
                Some(Kw::Db) => if num > 0xFF {
                    (Err(ErrorView::InvalidByte(num, ln)), cursor1(a0), l0)
                } else {
                    (Ok(SliceView::Byte(num as u8)), cursor1(a0), l0)
                },
                Some(Kw::Dw) => (Ok(SliceView::Word(num)), cursor2(a0), l0),
                _ => cast_bad(l, a0, l0),
            },
            (TokenView::Identifier(id), TokenView::Identifier(lb)) => match spec_kw(id) {
                Some(Kw::Sys) => cast_label(0x0, lb, ln, a0, l0),
                Some(Kw::Jp) => cast_label(0x1, lb, ln, a0, l0),
                Some(Kw::Call) => cast_label(0x2, lb, ln, a0, l0),
                _ => cast_bad(l, a0, l0),
            },
            (TokenView::Identifier(id), TokenView::Register(x)) => match spec_kw(id) {
                Some(Kw::Shr) => cast_op((0x8016 + (x as u16) * 0x100) as u16, a0, l0),
                Some(Kw::Shl) => cast_op((0x800E + (x as u16) * 0x100) as u16, a0, l0),
                Some(Kw::Skp) => cast_op((0xE09E + (x as u16) * 0x100) as u16, a0, l0),
                Some(Kw::Sknp) => cast_op((0xE0A1 + (x as u16) * 0x100) as u16, a0, l0),
                _ => cast_bad(l, a0, l0),
            },
            _ => cast_bad(l, a0, l0),
        }
    } else if ts.len() == 4 {
        match (ts[0], ts[1], ts[2], ts[3]) {
            (
                TokenView::Identifier(id),
                TokenView::Register(x),
                TokenView::Comma,
                TokenView::Number(kk),
            ) => match spec_kw(id) {
                Some(Kw::Se) => cast_xkk(0x3, x, kk, ln, a0, l0),
                Some(Kw::Sne) => cast_xkk(0x4, x, kk, ln, a0, l0),
                Some(Kw::Ld) => cast_xkk(0x6, x, kk, ln, a0, l0),
                Some(Kw::Add) => cast_xkk(0x7, x, kk, ln, a0, l0),
                Some(Kw::Rnd) => cast_xkk(0xC, x, kk, ln, a0, l0),
                Some(Kw::Jp) => if x == 0 {
                    cast_addr(0xB, kk, ln, a0, l0)
                } else {
                    cast_bad(l, a0, l0)
                },
                _ => cast_bad(l, a0, l0),
            },
            (
                TokenView::Identifier(id),
                TokenView::Register(x),
                TokenView::Comma,
                TokenView::Register(y),
            ) => match spec_kw(id) {
                Some(Kw::Se) => cast_op((0x5000 + (x as u16) * 0x100 + (y as u16) * 0x10) as u16, a0, l0),
                Some(Kw::Sne) => cast_op((0x9000 + (x as u16) * 0x100 + (y as u16) * 0x10) as u16, a0, l0),
                Some(Kw::Ld) => cast_op((0x8000 + (x as u16) * 0x100 + (y as u16) * 0x10) as u16, a0, l0),
                Some(Kw::Add) => cast_op((0x8004 + (x as u16) * 0x100 + (y as u16) * 0x10) as u16, a0, l0),
                Some(Kw::Or) => cast_op((0x8001 + (x as u16) * 0x100 + (y as u16) * 0x10) as u16, a0, l0),
                Some(Kw::And) => cast_op((0x8002 + (x as u16) * 0x100 + (y as u16) * 0x10) as u16, a0, l0),
                Some(Kw::Xor) => cast_op((0x8003 + (x as u16) * 0x100 + (y as u16) * 0x10) as u16, a0, l0),
                Some(Kw::Sub) => cast_op((0x8005 + (x as u16) * 0x100 + (y as u16) * 0x10) as u16, a0, l0),
                Some(Kw::Subn) => cast_op((0x8007 + (x as u16) * 0x100 + (y as u16) * 0x10) as u16, a0, l0),
                _ => cast_bad(l, a0, l0),
            },
            (
                TokenView::Identifier(id),
                TokenView::Register(x),
                TokenView::Comma,
                TokenView::Identifier(id2),
            ) => match (spec_kw(id), spec_kw(id2)) {
                (Some(Kw::Ld), Some(Kw::Dt)) => cast_op((0xF007 + (x as u16) * 0x100) as u16, a0, l0),
                (Some(Kw::Ld), Some(Kw::K)) => cast_op((0xF00A + (x as u16) * 0x100) as u16, a0, l0),
                (Some(Kw::Ld), Some(Kw::MemI)) => cast_op((0xF065 + (x as u16) * 0x100) as u16, a0, l0),
                (Some(Kw::Jp), _) => if x == 0 {
                    cast_label(0xB, id2, ln, a0, l0)
                } else {
                    cast_bad(l, a0, l0)
                },
                _ => cast_bad(l, a0, l0),
            },
            (
                TokenView::Identifier(id),
                TokenView::Identifier(id2),
                TokenView::Comma,
                TokenView::Number(num),
            ) => match (spec_kw(id), spec_kw(id2)) {
                (Some(Kw::Ld), Some(Kw::I)) => cast_addr(0xA, num, ln, a0, l0),
                _ => cast_bad(l, a0, l0),
            },
            (
                TokenView::Identifier(id),
                TokenView::Identifier(id2),
                TokenView::Comma,
                TokenView::Identifier(lb),
            ) => match (spec_kw(id), spec_kw(id2)) {
                (Some(Kw::Ld), Some(Kw::I)) => cast_label(0xA, lb, ln, a0, l0),
                _ => cast_bad(l, a0, l0),
            },
            (
                TokenView::Identifier(id),
                TokenView::Identifier(id2),
                TokenView::Comma,
                TokenView::Register(x),
            ) => match (spec_kw(id), spec_kw(id2)) {
                (Some(Kw::Ld), Some(Kw::Dt)) => cast_op((0xF015 + (x as u16) * 0x100) as u16, a0, l0),
                (Some(Kw::Ld), Some(Kw::St)) => cast_op((0xF018 + (x as u16) * 0x100) as u16, a0, l0),
                (Some(Kw::Ld), Some(Kw::F)) => cast_op((0xF029 + (x as u16) * 0x100) as u16, a0, l0),
                (Some(Kw::Ld), Some(Kw::B)) => cast_op((0xF033 + (x as u16) * 0x100) as u16, a0, l0),
                (Some(Kw::Ld), Some(Kw::MemI)) => cast_op((0xF055 + (x as u16) * 0x100) as u16, a0, l0),
                (Some(Kw::Add), Some(Kw::I)) => cast_op((0xF01E + (x as u16) * 0x100) as u16, a0, l0),
                _ => cast_bad(l, a0, l0),
            },
            _ => cast_bad(l, a0, l0),
        }
    } else if ts.len() == 6 {
        match (ts[0], ts[1], ts[2], ts[3], ts[4], ts[5]) {
            (
                TokenView::Identifier(id),
                TokenView::Register(x),
                TokenView::Comma,
                TokenView::Register(y),
                TokenView::Comma,
                TokenView::Number(num),
            ) => match spec_kw(id) {
                Some(Kw::Drw) => if num > 0xF {
                    (Err(ErrorView::InvalidNibble(num, ln)), cursor2(a0), l0)
                } else {
                    cast_op((0xD000 + (x as u16) * 0x100 + (y as u16) * 0x10 + num) as u16, a0, l0)
                },
                _ => cast_bad(l, a0, l0),
            },
            _ => cast_bad(l, a0, l0),
        }
    } else {
        cast_bad(l, a0, l0)
    }
}

/// First-pass result for an instruction with a register and a byte
/// operand.
pub open spec fn cast_xkk(s: u8, x: u8, kk: u16, ln: int, a0: u16, l0: Seq<(Seq<u8>, u16)>) -> (
    Result<SliceView, ErrorView>,
    u16,
    Seq<(Seq<u8>, u16)>,
) {
    if kk > 0xFF {
        (Err(ErrorView::InvalidByte(kk, ln)), cursor2(a0), l0)
    } else {
        (
            Ok(SliceView::Opcode(((s as u16) * 0x1000 + (x as u16) * 0x100 + kk) as u16)),
            cursor2(a0),
            l0,
        )
    }
}

/// A fresh byte string holding the same bytes.
fn clone_bytes(v: &Vec<u8>) -> (r: Vec<u8>)
    ensures
        r@ =~= v@,
{
    let mut out: Vec<u8> = Vec::new();
    let mut j: usize = 0;
    while j < v.len()
        invariant
            j <= v@.len(),
            out@.len() == j,
            forall|t: int| 0 <= t < j ==> out@[t] == v@[t],
        decreases v@.len() - j,
    {
        out.push(v[j]);
        j = j + 1;
    }
    out
}

/// A fresh token with the same shape.
fn clone_token(t: &Token) -> (r: Token)
    ensures
        r@ == t@,
{
    match t {
        Token::Label(v) => Token::Label(clone_bytes(v)),
        Token::Identifier(v) => Token::Identifier(clone_bytes(v)),
        Token::Register(v) => Token::Register(*v),
        Token::Number(v) => Token::Number(*v),
        Token::Comma => Token::Comma,
        Token::LineBreak => Token::LineBreak,
        Token::Eof => Token::Eof,
    }
}

/// A fresh line with the same shape.
fn clone_line(l: &Line) -> (r: Line)
    ensures
        r@ == l@,
{
    let mut tokens: Vec<Token> = Vec::new();
    let mut j: usize = 0;
    while j < l.tokens.len()
        invariant
            j <= l.tokens@.len(),
            tokens@.len() == j,
            forall|t: int| 0 <= t < j ==> (#[trigger] tokens@[t])@ == l.tokens@[t]@,
        decreases l.tokens@.len() - j,
    {
        let t = clone_token(&l.tokens[j]);
        tokens.push(t);
        j = j + 1;
    }
    let r = Line { tokens, line: l.line };
    proof {
        assert(r@.tokens =~= l@.tokens);
    }
    r
}

/// The cursor two bytes on, wrapping.
fn bump2(a: u16) -> (r: u16)
    ensures
        r == cursor2(a),
{
    proof {
        if a + 2 > 0xFFFF {
            vstd::arithmetic::div_mod::lemma_mod_sub_multiples_vanish(a + 2, 0x10000);
            vstd::arithmetic::div_mod::lemma_small_mod((a + 2 - 0x10000) as nat, 0x10000);
        } else {
            vstd::arithmetic::div_mod::lemma_small_mod((a + 2) as nat, 0x10000);
        }
    }
    a.wrapping_add(2)
}

/// The cursor one byte on, wrapping.
fn bump1(a: u16) -> (r: u16)
    ensures
        r == cursor1(a),
{
    proof {
        if a + 1 > 0xFFFF {
            vstd::arithmetic::div_mod::lemma_mod_sub_multiples_vanish(a + 1, 0x10000);
            vstd::arithmetic::div_mod::lemma_small_mod((a + 1 - 0x10000) as nat, 0x10000);
        } else {
            vstd::arithmetic::div_mod::lemma_small_mod((a + 1) as nat, 0x10000);
        }
    }
    a.wrapping_add(1)
}

/// First pass over one tokenized line: match the instruction templates,
/// emit the line's memory slice, advance the emission cursor, record a
/// label definition.  Exactly `spec_cast` happens, error for error.
fn cast_line(line: &Line, address: &mut u16, labels: &mut LabelMap) -> (r: Result<
    MemorySlices,
    Error,
>)
    requires
        forall|t: int| 0 <= t < line.tokens@.len() ==> token_wf(#[trigger] line.tokens@[t]),
    ensures
        *final(address) == spec_cast(line@, *old(address), old(labels)@).1,
        final(labels)@ =~= spec_cast(line@, *old(address), old(labels)@).2,
        match (r, spec_cast(line@, *old(address), old(labels)@).0) {
            (Ok(s), Ok(sv)) => s@ == sv,
            (Err(e), Err(ev)) => e@ == ev,
            _ => false,
        },
{
    let n = line.tokens.len();
    if n == 0 {
        return Ok(MemorySlices::Empty);
    }
    if n == 1 {
        match &line.tokens[0] {
            Token::Label(name) => {
                if labels.contains(name.as_slice()) {
                    return Err(Error::DuplicateLabel(clone_bytes(name), line.line));
                }
                labels.insert(clone_bytes(name), *address);
                return Ok(MemorySlices::Empty);
            },
            Token::Identifier(id) => {
                match kw(id.as_slice()) {
                    Some(Kw::Cls) => {
                        *address = bump2(*address);
                        return Ok(MemorySlices::Opcode(0x00E0));
                    },
                    Some(Kw::Ret) => {
                        *address = bump2(*address);
                        return Ok(MemorySlices::Opcode(0x00EE));
                    },
                    _ => {
                        return Err(Error::InvalidLine(clone_line(line)));
                    },
                }
            },
            _ => {
                return Err(Error::InvalidLine(clone_line(line)));
            },
        }
    }
    if n == 2 {
        proof {
            assert(token_wf(line.tokens@[1]));
        }
        match (&line.tokens[0], &line.tokens[1]) {
            (Token::Identifier(id), Token::Number(num)) => {
                match kw(id.as_slice()) {
                    Some(Kw::Sys) => {
                        return emit_addr(0x0, *num, line.line, address);
                    },
                    Some(Kw::Jp) => {
                        return emit_addr(0x1, *num, line.line, address);
                    },
                    Some(Kw::Call) => {
                        return emit_addr(0x2, *num, line.line, address);
                    },
                    Some(Kw::Db) => {
                        *address = bump1(*address);
                        if *num > 0xFF {
                            return Err(Error::InvalidByte(*num, line.line));
                        }
                        return Ok(MemorySlices::Byte(*num as u8));
                    },
                    Some(Kw::Dw) => {
                        *address = bump2(*address);
                        return Ok(MemorySlices::Word(*num));
                    },
                    _ => {
                        return Err(Error::InvalidLine(clone_line(line)));
                    },
                }
            },
            (Token::Identifier(id), Token::Identifier(lb)) => {
                match kw(id.as_slice()) {
                    Some(Kw::Sys) => {
                        return emit_label(0x0, lb, line.line, address, labels);
                    },
                    Some(Kw::Jp) => {
                        return emit_label(0x1, lb, line.line, address, labels);
                    },
                    Some(Kw::Call) => {
                        return emit_label(0x2, lb, line.line, address, labels);
                    },
                    _ => {
                        return Err(Error::InvalidLine(clone_line(line)));
                    },
                }
            },
            (Token::Identifier(id), Token::Register(x)) => {
                match kw(id.as_slice()) {
                    Some(Kw::Shr) => {
                        *address = bump2(*address);
                        return Ok(MemorySlices::Opcode(0x8016 + (*x as u16) * 0x100));
                    },
                    Some(Kw::Shl) => {
                        *address = bump2(*address);
                        return Ok(MemorySlices::Opcode(0x800E + (*x as u16) * 0x100));
                    },
                    Some(Kw::Skp) => {
                        *address = bump2(*address);
                        return Ok(MemorySlices::Opcode(0xE09E + (*x as u16) * 0x100));
                    },
                    Some(Kw::Sknp) => {
                        *address = bump2(*address);
                        return Ok(MemorySlices::Opcode(0xE0A1 + (*x as u16) * 0x100));
                    },
                    _ => {
                        return Err(Error::InvalidLine(clone_line(line)));
                    },
                }
            },
            _ => {
                return Err(Error::InvalidLine(clone_line(line)));
            },
        }
    }
    if n == 4 {
        proof {
            assert(token_wf(line.tokens@[1]));
            assert(token_wf(line.tokens@[3]));
        }
        match (&line.tokens[0], &line.tokens[1], &line.tokens[2], &line.tokens[3]) {
            (Token::Identifier(id), Token::Register(x), Token::Comma, Token::Number(kk)) => {
                match kw(id.as_slice()) {
                    Some(Kw::Se) => {
                        return emit_xkk(0x3, *x, *kk, line.line, address);
                    },
                    Some(Kw::Sne) => {
                        return emit_xkk(0x4, *x, *kk, line.line, address);
                    },
                    Some(Kw::Ld) => {
                        return emit_xkk(0x6, *x, *kk, line.line, address);
                    },
                    Some(Kw::Add) => {
                        return emit_xkk(0x7, *x, *kk, line.line, address);
                    },
                    Some(Kw::Rnd) => {
                        return emit_xkk(0xC, *x, *kk, line.line, address);
                    },
                    Some(Kw::Jp) => {
                        if *x == 0 {
                            return emit_addr(0xB, *kk, line.line, address);
                        }
                        return Err(Error::InvalidLine(clone_line(line)));
                    },
                    _ => {
                        return Err(Error::InvalidLine(clone_line(line)));
                    },
                }
            },
            (Token::Identifier(id), Token::Register(x), Token::Comma, Token::Register(y)) => {
                let base: u16 = match kw(id.as_slice()) {
                    Some(Kw::Se) => 0x5000,
                    Some(Kw::Sne) => 0x9000,
                    Some(Kw::Ld) => 0x8000,
                    Some(Kw::Add) => 0x8004,
                    Some(Kw::Or) => 0x8001,
                    Some(Kw::And) => 0x8002,
                    Some(Kw::Xor) => 0x8003,
                    Some(Kw::Sub) => 0x8005,
                    Some(Kw::Subn) => 0x8007,
                    _ => {
                        return Err(Error::InvalidLine(clone_line(line)));
                    },
                };
                *address = bump2(*address);
                return Ok(MemorySlices::Opcode(base + (*x as u16) * 0x100 + (*y as u16) * 0x10));
            },
            (Token::Identifier(id), Token::Register(x), Token::Comma, Token::Identifier(id2)) => {
                match (kw(id.as_slice()), kw(id2.as_slice())) {
                    (Some(Kw::Ld), Some(Kw::Dt)) => {
                        *address = bump2(*address);
                        return Ok(MemorySlices::Opcode(0xF007 + (*x as u16) * 0x100));
                    },
                    (Some(Kw::Ld), Some(Kw::K)) => {
                        *address = bump2(*address);
                        return Ok(MemorySlices::Opcode(0xF00A + (*x as u16) * 0x100));
                    },
                    (Some(Kw::Ld), Some(Kw::MemI)) => {
                        *address = bump2(*address);
                        return Ok(MemorySlices::Opcode(0xF065 + (*x as u16) * 0x100));
                    },
                    (Some(Kw::Jp), _) => {
                        if *x == 0 {
                            return emit_label(0xB, id2, line.line, address, labels);
                        }
                        return Err(Error::InvalidLine(clone_line(line)));
                    },
                    _ => {
                        return Err(Error::InvalidLine(clone_line(line)));
                    },
                }
            },
            (Token::Identifier(id), Token::Identifier(id2), Token::Comma, Token::Number(num)) => {
                match (kw(id.as_slice()), kw(id2.as_slice())) {
                    (Some(Kw::Ld), Some(Kw::I)) => {
                        return emit_addr(0xA, *num, line.line, address);
                    },
                    _ => {
                        return Err(Error::InvalidLine(clone_line(line)));
                    },
                }
            },
            (Token::Identifier(id), Token::Identifier(id2), Token::Comma, Token::Identifier(lb)) => {
                match (kw(id.as_slice()), kw(id2.as_slice())) {
                    (Some(Kw::Ld), Some(Kw::I)) => {
                        return emit_label(0xA, lb, line.line, address, labels);
                    },
                    _ => {
                        return Err(Error::InvalidLine(clone_line(line)));
                    },
                }
            },
            (Token::Identifier(id), Token::Identifier(id2), Token::Comma, Token::Register(x)) => {
                let base: u16 = match (kw(id.as_slice()), kw(id2.as_slice())) {
                    (Some(Kw::Ld), Some(Kw::Dt)) => 0xF015,
                    (Some(Kw::Ld), Some(Kw::St)) => 0xF018,
                    (Some(Kw::Ld), Some(Kw::F)) => 0xF029,
                    (Some(Kw::Ld), Some(Kw::B)) => 0xF033,
                    (Some(Kw::Ld), Some(Kw::MemI)) => 0xF055,
                    (Some(Kw::Add), Some(Kw::I)) => 0xF01E,
                    _ => {
                        return Err(Error::InvalidLine(clone_line(line)));
                    },
                };
                *address = bump2(*address);
                return Ok(MemorySlices::Opcode(base + (*x as u16) * 0x100));
            },
            _ => {
                return Err(Error::InvalidLine(clone_line(line)));
            },
        }
    }
    if n == 6 {
        proof {
            assert(token_wf(line.tokens@[1]));
            assert(token_wf(line.tokens@[3]));
        }
        match (
            &line.tokens[0],
            &line.tokens[1],
            &line.tokens[2],
            &line.tokens[3],
            &line.tokens[4],
            &line.tokens[5],
        ) {
            (
                Token::Identifier(id),
                Token::Register(x),
                Token::Comma,
                Token::Register(y),
                Token::Comma,
                Token::Number(num),
            ) => {
                match kw(id.as_slice()) {
                    Some(Kw::Drw) => {
                        *address = bump2(*address);
                        if *num > 0xF {
                            return Err(Error::InvalidNibble(*num, line.line));
                        }
                        return Ok(
                            MemorySlices::Opcode(
                                0xD000 + (*x as u16) * 0x100 + (*y as u16) * 0x10 + *num,
                            ),
                        );
                    },
                    _ => {
                        return Err(Error::InvalidLine(clone_line(line)));
                    },
                }
            },
            _ => {
                return Err(Error::InvalidLine(clone_line(line)));
            },
        }
    }
    Err(Error::InvalidLine(clone_line(line)))
}

/// Emit an instruction with a 12-bit address operand.
fn emit_addr(s: u8, num: u16, ln: usize, address: &mut u16) -> (r: Result<MemorySlices, Error>)
    requires
        s <= 0xF,
    ensures
        *final(address) == cursor2(*old(address)),
        match (r, cast_addr(s, num, ln as int, *old(address), Seq::<(Seq<u8>, u16)>::empty()).0) {
            (Ok(sl), Ok(sv)) => sl@ == sv,
            (Err(e), Err(ev)) => e@ == ev,
            _ => false,
        },
{
    *address = bump2(*address);
    if num > 0xFFF {
        return Err(Error::InvalidAddress(num, ln));
    }
    Ok(MemorySlices::Opcode((s as u16) * 0x1000 + num))
}

/// Emit an instruction with a register and a byte operand.
fn emit_xkk(s: u8, x: u8, kk: u16, ln: usize, address: &mut u16) -> (r: Result<
    MemorySlices,
    Error,
>)
    requires
        s <= 0xF,
        x <= 0xF,
    ensures
        *final(address) == cursor2(*old(address)),
        match (r, cast_xkk(s, x, kk, ln as int, *old(address), Seq::<(Seq<u8>, u16)>::empty()).0) {
            (Ok(sl), Ok(sv)) => sl@ == sv,
            (Err(e), Err(ev)) => e@ == ev,
            _ => false,
        },
{
    *address = bump2(*address);
    if kk > 0xFF {
        return Err(Error::InvalidByte(kk, ln));
    }
    Ok(MemorySlices::Opcode((s as u16) * 0x1000 + (x as u16) * 0x100 + kk))
}

/// Emit an instruction whose address operand names a label: resolved at
/// once when already defined, pending otherwise.
fn emit_label(s: u8, lb: &Vec<u8>, ln: usize, address: &mut u16, labels: &LabelMap) -> (r: Result<
    MemorySlices,
    Error,
>)
    requires
        s <= 0xF,
    ensures
        *final(address) == cursor2(*old(address)),
        match (r, cast_label(s, lb@, ln as int, *old(address), labels@).0) {
            (Ok(sl), Ok(sv)) => sl@ == sv,
            (Err(e), Err(ev)) => e@ == ev,
            _ => false,
        },
{
    *address = bump2(*address);
    match labels.get(lb.as_slice()) {
        Some(addr) => {
            proof {
                assert((((s as u16) << 12u16) | addr) == label_word(s, addr));
            }
            Ok(MemorySlices::Opcode(((s as u16) << 12u16) | addr))
        },
        None => Ok(MemorySlices::Pending(s, clone_bytes(lb), ln)),
    }
}

/// The mathematical shape of one first-pass slot.
pub open spec fn res_view(r: Result<MemorySlices, Error>) -> Result<SliceView, ErrorView> {
    match r {
        Ok(s) => Ok(s@),
        Err(e) => Err(e@),
    }
}

/// The mathematical shapes of all first-pass slots.
pub open spec fn views_of(s: Seq<Result<MemorySlices, Error>>) -> Seq<
    Result<SliceView, ErrorView>,
> {
    s.map_values(|it: Result<MemorySlices, Error>| res_view(it))
}

/// The whole second pass: write every slice in order against the final
/// label table; the first failed slot, in line order, stops it.
pub open spec fn spec_pass2(
    slices: Seq<Result<SliceView, ErrorView>>,
    labels: Seq<(Seq<u8>, u16)>,
    out: Seq<u8>,
) -> Result<Seq<u8>, ErrorView>
    decreases slices.len(),
{
    if slices.len() == 0 {
        Ok(out)
    } else {
        match slices[0] {
            Err(e) => Err(e),
            Ok(s) => match spec_write(s, labels, out) {
                Err(e) => Err(e),
                Ok(out2) => spec_pass2(slices.drop_first(), labels, out2),
            },
        }
    }
}

/// The first pass over line slots that may already hold a lexical
/// error: an error slot passes through, touching nothing.
pub open spec fn spec_pass1_results(
    items: Seq<Result<LineView, ErrorView>>,
    a0: u16,
    l0: Seq<(Seq<u8>, u16)>,
) -> (Seq<Result<SliceView, ErrorView>>, u16, Seq<(Seq<u8>, u16)>)
    decreases items.len(),
{
    if items.len() == 0 {
        (Seq::empty(), a0, l0)
    } else {
        let prev = spec_pass1_results(items.drop_last(), a0, l0);
        match items.last() {
            Ok(l) => {
                let step = spec_cast(l, prev.1, prev.2);
                (prev.0.push(step.0), step.1, step.2)
            },
            Err(e) => (prev.0.push(Err(e)), prev.1, prev.2),
        }
    }
}

/// The whole assembler on source text: tokenize every line, run both
/// passes from a fresh cursor, and keep the first error in line order.
pub open spec fn spec_assemble_source(src: Seq<u8>) -> Result<Seq<u8>, ErrorView> {
    let items = spec_tokenize(src, 0, 1);
    let p1 = spec_pass1_results(items, 0x200, Seq::empty());
    spec_pass2(p1.0, p1.2, Seq::empty())
}

/// Write the collected slices against the final label table.
fn write_slices(slices: &mut Vec<Result<MemorySlices, Error>>, labels: &LabelMap) -> (r: Result<
    Vec<u8>,
    Error,
>)
    ensures
        match (
            r,
            spec_pass2(views_of(old(slices)@), labels@, Seq::<u8>::empty()),
        ) {
            (Ok(v), Ok(o)) => v@ =~= o,
            (Err(e), Err(ev)) => e@ == ev,
            _ => false,
        },
{
    let ghost all = views_of(slices@);
    let mut out: Vec<u8> = Vec::new();
    proof {
        assert(all =~= all.skip(0));
    }
    while slices.len() > 0
        invariant
            all == views_of(old(slices)@),
            slices@.len() <= all.len(),
            views_of(slices@) =~= all.skip(all.len() - slices@.len()),
            spec_pass2(all, labels@, Seq::<u8>::empty()) == spec_pass2(
                all.skip(all.len() - slices@.len()),
                labels@,
                out@,
            ),
        decreases slices@.len(),
    {
        let item = slices.remove(0);
        proof {
            let rest = all.skip(all.len() - slices@.len() - 1);
            assert(rest.drop_first() =~= all.skip(all.len() - slices@.len()));
            assert(rest[0] == res_view(item));
            assert(spec_pass2(all, labels@, Seq::<u8>::empty()) == spec_pass2(
                rest,
                labels@,
                out@,
            ));
        }
        match item {
            Err(e) => {
                proof {
                    let rest = all.skip(all.len() - slices@.len() - 1);
                    assert(spec_pass2(rest, labels@, out@) == Err::<Seq<u8>, ErrorView>(e@));
                }
                return Err(e);
            },
            Ok(s) => {
                let ghost out0 = out@;
                let ghost sv = s@;
                match s.write(labels, &mut out) {
                    Err(e) => {
                        proof {
                            let rest = all.skip(all.len() - slices@.len() - 1);
                            assert(spec_write(sv, labels@, out0) == Err::<Seq<u8>, ErrorView>(e@));
                            assert(spec_pass2(rest, labels@, out0) == Err::<Seq<u8>, ErrorView>(
                                e@,
                            ));
                            assert(spec_pass2(views_of(old(slices)@), labels@, Seq::<u8>::empty())
                                == Err::<Seq<u8>, ErrorView>(e@));
                        }
                        return Err(e);
                    },
                    Ok(_) => {},
                }
            },
        }
    }
    proof {
        assert(all.skip(all.len() as int) =~= Seq::<Result<SliceView, ErrorView>>::empty());
    }
    Ok(out)
}

/// A table recording only 12-bit addresses resolves every name to a
/// 12-bit address.
proof fn lemma_lookup_bounded(l0: Seq<(Seq<u8>, u16)>, name: Seq<u8>)
    requires
        forall|j: int| 0 <= j < l0.len() ==> (#[trigger] l0[j]).1 <= 0xFFF,
    ensures
        spec_lookup(l0, name) matches Some(a) ==> a <= 0xFFF,
    decreases l0.len(),
{
    if l0.len() > 0 && !(l0[0].0 == name) {
        assert(forall|j: int|
            0 <= j < l0.drop_first().len() ==> (#[trigger] l0.drop_first()[j]).1 <= 0xFFF);
        lemma_lookup_bounded(l0.drop_first(), name);
    }
}

/// For a nibble and a 12-bit address, the or-composed word is the plain
/// sum of high nibble and address.
proof fn lemma_label_word_linear(s: u8, addr: u16)
    requires
        s <= 0xF,
        addr <= 0xFFF,
    ensures
        label_word(s, addr) == (s as int) * 0x1000 + addr,
{
    let s16 = s as u16;
    assert(((s16 << 12u16) | addr) == s16 * 0x1000 + addr) by (bit_vector)
        requires
            s16 <= 0xF && addr <= 0xFFF,
    ;
}

/// Round trip of an address-operand emission: when it emits a word, the
/// word decodes to a non-`Invalid` instruction that re-encodes to it.
proof fn lemma_cast_addr_roundtrip(s: u8, num: u16, ln: int, a0: u16, l0: Seq<(Seq<u8>, u16)>)
    requires
        s == 0x0 || s == 0x1 || s == 0x2 || s == 0xA || s == 0xB,
    ensures
        match cast_addr(s, num, ln, a0, l0).0 {
            Ok(SliceView::Opcode(w)) => !(spec_decode(w) is Invalid) && spec_encode(
                spec_decode(w),
            ) == w,
            _ => true,
        },
{
    if num <= 0xFFF {
        let w = ((s as u16) * 0x1000 + num) as u16;
        lemma_nnn_op_roundtrip(s, num, w);
    }
}

/// Round trip of the word `s * 0x1000 + num` for the address-operand
/// instruction families.
proof fn lemma_nnn_op_roundtrip(s: u8, num: u16, w: u16)
    requires
        s == 0x0 || s == 0x1 || s == 0x2 || s == 0xA || s == 0xB,
        num <= 0xFFF,
        w == (s as int) * 0x1000 + num,
    ensures
        !(spec_decode(w) is Invalid),
        spec_encode(spec_decode(w)) == w,
{
    broadcast use crate::address::Address::lemma_spec_masked;

    let a = crate::address::Address::spec_masked(num);
    if s == 0x0 {
        if num == 0x0E0 {
            assert(spec_decode(w) == Opcode::Cls);
        } else if num == 0x0EE {
            assert(spec_decode(w) == Opcode::Ret);
        } else {
            lemma_word_roundtrip(Opcode::Sys { address: a }, w);
        }
    } else if s == 0x1 {
        lemma_word_roundtrip(Opcode::Jp { address: a }, w);
    } else if s == 0x2 {
        lemma_word_roundtrip(Opcode::Call { address: a }, w);
    } else if s == 0xA {
        lemma_word_roundtrip(Opcode::LdI { address: a }, w);
    } else {
        lemma_word_roundtrip(Opcode::JpV0 { address: a }, w);
    }
}

/// Round trip of a label-operand emission, given that the table holds
/// only 12-bit addresses.
proof fn lemma_cast_label_roundtrip(s: u8, lb: Seq<u8>, ln: int, a0: u16, l0: Seq<(Seq<u8>, u16)>)
    requires
        s == 0x0 || s == 0x1 || s == 0x2 || s == 0xA || s == 0xB,
        forall|j: int| 0 <= j < l0.len() ==> (#[trigger] l0[j]).1 <= 0xFFF,
    ensures
        match cast_label(s, lb, ln, a0, l0).0 {
            Ok(SliceView::Opcode(w)) => !(spec_decode(w) is Invalid) && spec_encode(
                spec_decode(w),
            ) == w,
            _ => true,
        },
{
    lemma_lookup_bounded(l0, lb);
    match spec_lookup(l0, lb) {
        Some(addr) => {
            lemma_label_word_linear(s, addr);
            lemma_nnn_op_roundtrip(s, addr, label_word(s, addr));
        },
        None => {},
    }
}

/// Round trip of a register-and-byte emission.
proof fn lemma_cast_xkk_roundtrip(s: u8, x: u8, kk: u16, ln: int, a0: u16, l0: Seq<(Seq<u8>, u16)>)
    requires
        s == 0x3 || s == 0x4 || s == 0x6 || s == 0x7 || s == 0xC,
        x <= 0xF,
    ensures
        match cast_xkk(s, x, kk, ln, a0, l0).0 {
            Ok(SliceView::Opcode(w)) => !(spec_decode(w) is Invalid) && spec_encode(
                spec_decode(w),
            ) == w,
            _ => true,
        },
{
    broadcast use crate::register::RegisterIndex::lemma_spec_masked;

    if kk <= 0xFF {
        let w = ((s as u16) * 0x1000 + (x as u16) * 0x100 + kk) as u16;
        let rx = crate::register::RegisterIndex::spec_masked(x);
        let b = kk as u8;
        if s == 0x3 {
            lemma_word_roundtrip(Opcode::SeByte { x: rx, byte: b }, w);
        } else if s == 0x4 {
            lemma_word_roundtrip(Opcode::SneByte { x: rx, byte: b }, w);
        } else if s == 0x6 {
            lemma_word_roundtrip(Opcode::LdByte { x: rx, byte: b }, w);
        } else if s == 0x7 {
            lemma_word_roundtrip(Opcode::AddByte { x: rx, byte: b }, w);
        } else {
            lemma_word_roundtrip(Opcode::Rnd { x: rx, byte: b }, w);
        }
    }
}

/// Every opcode word the first pass emits decodes to a non-`Invalid`
/// instruction whose canonical re-encoding is the word itself: the
/// assembled bytes fetch and disassemble back to the source instruction.
///
/// The label table is assumed to hold 12-bit addresses, as every table
/// the assembler builds for a ROM-sized program does.
#[verifier::rlimit(80)]
#[verifier::spinoff_prover]
pub proof fn lemma_assemble_fetch_roundtrip(l: LineView, a0: u16, l0: Seq<(Seq<u8>, u16)>)
    requires
        forall|t: int| 0 <= t < l.tokens.len() ==> token_view_wf(#[trigger] l.tokens[t]),
        forall|j: int| 0 <= j < l0.len() ==> (#[trigger] l0[j]).1 <= 0xFFF,
    ensures
        match spec_cast(l, a0, l0).0 {
            Ok(SliceView::Opcode(w)) => !(spec_decode(w) is Invalid) && spec_encode(
                spec_decode(w),
            ) == w,
            _ => true,
        },
{
    broadcast use crate::register::RegisterIndex::lemma_spec_masked;

    let ts = l.tokens;
    let ln = l.line;
    if ts.len() == 1 {
        match ts[0] {
            TokenView::Identifier(id) => {
                if spec_kw(id) == Some(Kw::Cls) {
                    lemma_word_roundtrip(Opcode::Cls, 0x00E0);
                } else if spec_kw(id) == Some(Kw::Ret) {
                    lemma_word_roundtrip(Opcode::Ret, 0x00EE);
                }
            },
            _ => {},
        }
    } else if ts.len() == 2 {
        match (ts[0], ts[1]) {
            (TokenView::Identifier(id), TokenView::Number(num)) => {
                match spec_kw(id) {
                    Some(Kw::Sys) => lemma_cast_addr_roundtrip(0x0, num, ln, a0, l0),
                    Some(Kw::Jp) => lemma_cast_addr_roundtrip(0x1, num, ln, a0, l0),
                    Some(Kw::Call) => lemma_cast_addr_roundtrip(0x2, num, ln, a0, l0),
                    _ => {},
                }
            },
            (TokenView::Identifier(id), TokenView::Identifier(lb)) => {
                match spec_kw(id) {
                    Some(Kw::Sys) => lemma_cast_label_roundtrip(0x0, lb, ln, a0, l0),
                    Some(Kw::Jp) => lemma_cast_label_roundtrip(0x1, lb, ln, a0, l0),
                    Some(Kw::Call) => lemma_cast_label_roundtrip(0x2, lb, ln, a0, l0),
                    _ => {},
                }
            },
            (TokenView::Identifier(id), TokenView::Register(x)) => {
                assert(token_view_wf(ts[1]));
                let rx = crate::register::RegisterIndex::spec_masked(x);
                match spec_kw(id) {
                    Some(Kw::Shr) => lemma_word_roundtrip(
                        Opcode::Shr { x: rx },
                        (0x8016 + (x as u16) * 0x100) as u16,
                    ),
                    Some(Kw::Shl) => lemma_word_roundtrip(
                        Opcode::Shl { x: rx },
                        (0x800E + (x as u16) * 0x100) as u16,
                    ),
                    Some(Kw::Skp) => lemma_word_roundtrip(
                        Opcode::Skp { x: rx },
                        (0xE09E + (x as u16) * 0x100) as u16,
                    ),
                    Some(Kw::Sknp) => lemma_word_roundtrip(
                        Opcode::Sknp { x: rx },
                        (0xE0A1 + (x as u16) * 0x100) as u16,
                    ),
                    _ => {},
                }
            },
            _ => {},
        }
    } else if ts.len() == 4 {
        match (ts[0], ts[1], ts[2], ts[3]) {
            (
                TokenView::Identifier(id),
                TokenView::Register(x),
                TokenView::Comma,
                TokenView::Number(kk),
            ) => {
                assert(token_view_wf(ts[1]));
                match spec_kw(id) {
                    Some(Kw::Se) => lemma_cast_xkk_roundtrip(0x3, x, kk, ln, a0, l0),
                    Some(Kw::Sne) => lemma_cast_xkk_roundtrip(0x4, x, kk, ln, a0, l0),
                    Some(Kw::Ld) => lemma_cast_xkk_roundtrip(0x6, x, kk, ln, a0, l0),
                    Some(Kw::Add) => lemma_cast_xkk_roundtrip(0x7, x, kk, ln, a0, l0),
                    Some(Kw::Rnd) => lemma_cast_xkk_roundtrip(0xC, x, kk, ln, a0, l0),
                    Some(Kw::Jp) => {
                        if x == 0 {
                            lemma_cast_addr_roundtrip(0xB, kk, ln, a0, l0);
                        }
                    },
                    _ => {},
                }
            },
            (
                TokenView::Identifier(id),
                TokenView::Register(x),
                TokenView::Comma,
                TokenView::Register(y),
            ) => {
                assert(token_view_wf(ts[1]));
                assert(token_view_wf(ts[3]));
                let rx = crate::register::RegisterIndex::spec_masked(x);
                let ry = crate::register::RegisterIndex::spec_masked(y);
                let xy = (x as u16) * 0x100 + (y as u16) * 0x10;
                match spec_kw(id) {
                    Some(Kw::Se) => lemma_word_roundtrip(
                        Opcode::SeRegister { x: rx, y: ry },
                        (0x5000 + xy) as u16,
                    ),
                    Some(Kw::Sne) => lemma_word_roundtrip(
                        Opcode::SneRegister { x: rx, y: ry },
                        (0x9000 + xy) as u16,
                    ),
                    Some(Kw::Ld) => lemma_word_roundtrip(
                        Opcode::LdRegister { x: rx, y: ry },
                        (0x8000 + xy) as u16,
                    ),
                    Some(Kw::Add) => lemma_word_roundtrip(
                        Opcode::AddRegister { x: rx, y: ry },
                        (0x8004 + xy) as u16,
                    ),
                    Some(Kw::Or) => lemma_word_roundtrip(
                        Opcode::Or { x: rx, y: ry },
                        (0x8001 + xy) as u16,
                    ),
                    Some(Kw::And) => lemma_word_roundtrip(
                        Opcode::And { x: rx, y: ry },
                        (0x8002 + xy) as u16,
                    ),
                    Some(Kw::Xor) => lemma_word_roundtrip(
                        Opcode::Xor { x: rx, y: ry },
                        (0x8003 + xy) as u16,
                    ),
                    Some(Kw::Sub) => lemma_word_roundtrip(
                        Opcode::Sub { x: rx, y: ry },
                        (0x8005 + xy) as u16,
                    ),
                    Some(Kw::Subn) => lemma_word_roundtrip(
                        Opcode::Subn { x: rx, y: ry },
                        (0x8007 + xy) as u16,
                    ),
                    _ => {},
                }
            },
            (
                TokenView::Identifier(id),
                TokenView::Register(x),
                TokenView::Comma,
                TokenView::Identifier(id2),
            ) => {
                assert(token_view_wf(ts[1]));
                let rx = crate::register::RegisterIndex::spec_masked(x);
                match (spec_kw(id), spec_kw(id2)) {
                    (Some(Kw::Ld), Some(Kw::Dt)) => lemma_word_roundtrip(
                        Opcode::LdVxDT { x: rx },
                        (0xF007 + (x as u16) * 0x100) as u16,
                    ),
                    (Some(Kw::Ld), Some(Kw::K)) => lemma_word_roundtrip(
                        Opcode::LdVxK { x: rx },
                        (0xF00A + (x as u16) * 0x100) as u16,
                    ),
                    (Some(Kw::Ld), Some(Kw::MemI)) => lemma_word_roundtrip(
                        Opcode::LdVxI { x: rx },
                        (0xF065 + (x as u16) * 0x100) as u16,
                    ),
                    (Some(Kw::Jp), _) => {
                        if x == 0 {
                            lemma_cast_label_roundtrip(0xB, id2, ln, a0, l0);
                        }
                    },
                    _ => {},
                }
            },
            (
                TokenView::Identifier(id),
                TokenView::Identifier(id2),
                TokenView::Comma,
                TokenView::Number(num),
            ) => {
                match (spec_kw(id), spec_kw(id2)) {
                    (Some(Kw::Ld), Some(Kw::I)) => lemma_cast_addr_roundtrip(0xA, num, ln, a0, l0),
                    _ => {},
                }
            },
            (
                TokenView::Identifier(id),
                TokenView::Identifier(id2),
                TokenView::Comma,
                TokenView::Identifier(lb),
            ) => {
                match (spec_kw(id), spec_kw(id2)) {
                    (Some(Kw::Ld), Some(Kw::I)) => lemma_cast_label_roundtrip(0xA, lb, ln, a0, l0),
                    _ => {},
                }
            },
            (
                TokenView::Identifier(id),
                TokenView::Identifier(id2),
                TokenView::Comma,
                TokenView::Register(x),
            ) => {
                assert(token_view_wf(ts[3]));
                let rx = crate::register::RegisterIndex::spec_masked(x);
                match (spec_kw(id), spec_kw(id2)) {
                    (Some(Kw::Ld), Some(Kw::Dt)) => lemma_word_roundtrip(
                        Opcode::LdDTVx { x: rx },
                        (0xF015 + (x as u16) * 0x100) as u16,
                    ),
                    (Some(Kw::Ld), Some(Kw::St)) => lemma_word_roundtrip(
                        Opcode::LdSTVx { x: rx },
                        (0xF018 + (x as u16) * 0x100) as u16,
                    ),
                    (Some(Kw::Ld), Some(Kw::F)) => lemma_word_roundtrip(
                        Opcode::LdFVx { x: rx },
                        (0xF029 + (x as u16) * 0x100) as u16,
                    ),
                    (Some(Kw::Ld), Some(Kw::B)) => lemma_word_roundtrip(
                        Opcode::LdBVx { x: rx },
                        (0xF033 + (x as u16) * 0x100) as u16,
                    ),
                    (Some(Kw::Ld), Some(Kw::MemI)) => lemma_word_roundtrip(
                        Opcode::LdIVx { x: rx },
                        (0xF055 + (x as u16) * 0x100) as u16,
                    ),
                    (Some(Kw::Add), Some(Kw::I)) => lemma_word_roundtrip(
                        Opcode::AddIVx { x: rx },
                        (0xF01E + (x as u16) * 0x100) as u16,
                    ),
                    _ => {},
                }
            },
            _ => {},
        }
    } else if ts.len() == 6 {
        match (ts[0], ts[1], ts[2], ts[3], ts[4], ts[5]) {
            (
                TokenView::Identifier(id),
                TokenView::Register(x),
                TokenView::Comma,
                TokenView::Register(y),
                TokenView::Comma,
                TokenView::Number(num),
            ) => {
                assert(token_view_wf(ts[1]));
                assert(token_view_wf(ts[3]));
                if spec_kw(id) == Some(Kw::Drw) && num <= 0xF {
                    let rx = crate::register::RegisterIndex::spec_masked(x);
                    let ry = crate::register::RegisterIndex::spec_masked(y);
                    lemma_word_roundtrip(
                        Opcode::Drw { x: rx, y: ry, n: num as u8 },
                        (0xD000 + (x as u16) * 0x100 + (y as u16) * 0x10 + num) as u16,
                    );
                }
            },
            _ => {},
        }
    }
}

/// Whether a line slot is a lone label definition.
pub open spec fn is_label_def_line(item: Result<LineView, ErrorView>) -> bool {
    match item {
        Ok(l) => l.tokens.len() == 1 && l.tokens[0] is Label,
        Err(_) => false,
    }
}

/// The name a label token defines.
pub open spec fn label_name(t: TokenView) -> Seq<u8> {
    match t {
        TokenView::Label(n) => n,
        _ => Seq::empty(),
    }
}

/// Whether some line slot defines the name.
pub open spec fn defines_label(items: Seq<Result<LineView, ErrorView>>, name: Seq<u8>) -> bool {
    exists|k: int|
        0 <= k < items.len() && is_label_def_line(#[trigger] items[k]) && label_name(
            match items[k] {
                Ok(l) => l.tokens[0],
                Err(_) => TokenView::Eof,
            },
        ) == name
}

/// Appending an entry to a label table resolves exactly the old names
/// plus the new one, old bindings first.
proof fn lemma_lookup_push(entries: Seq<(Seq<u8>, u16)>, e: (Seq<u8>, u16), name: Seq<u8>)
    ensures
        spec_lookup(entries.push(e), name) == (match spec_lookup(entries, name) {
            Some(a) => Some(a),
            None => if e.0 == name {
                Some(e.1)
            } else {
                None
            },
        }),
    decreases entries.len(),
{
    let p = entries.push(e);
    assert(p.len() == entries.len() + 1);
    if entries.len() > 0 {
        assert(p[0] == entries[0]);
        assert(p.drop_first() =~= entries.drop_first().push(e));
        if entries[0].0 == name {
            assert(spec_lookup(p, name) == Some(p[0].1));
            assert(spec_lookup(entries, name) == Some(entries[0].1));
        } else {
            lemma_lookup_push(entries.drop_first(), e, name);
            assert(spec_lookup(p, name) == spec_lookup(p.drop_first(), name));
            assert(spec_lookup(entries, name) == spec_lookup(entries.drop_first(), name));
        }
    } else {
        assert(p[0] == e);
        assert(p.drop_first() =~= Seq::<(Seq<u8>, u16)>::empty());
        if p[0].0 == name {
            assert(spec_lookup(p, name) == Some(e.1));
        } else {
            assert(spec_lookup(p, name) == spec_lookup(p.drop_first(), name));
        }
        assert(spec_lookup(entries, name) == None::<u16>);
    }
}

/// How one line moves the label table: a fresh lone definition appends
/// its name at the cursor, a repeated one fails with `DuplicateLabel`,
/// and no other line touches the table or can raise that error.
#[verifier::rlimit(60)]
#[verifier::spinoff_prover]
proof fn lemma_cast_labels_effect(l: LineView, a0: u16, l0: Seq<(Seq<u8>, u16)>)
    ensures
        ({
            let c = spec_cast(l, a0, l0);
            if l.tokens.len() == 1 && l.tokens[0] is Label {
                let n = label_name(l.tokens[0]);
                if spec_has_label(l0, n) {
                    c.0 == Err::<SliceView, ErrorView>(ErrorView::DuplicateLabel(n, l.line))
                        && c.2 == l0
                } else {
                    c.0 == Ok::<SliceView, ErrorView>(SliceView::Empty) && c.2 == l0.push((n, a0))
                }
            } else {
                c.2 == l0 && match c.0 {
                    Err(e) => !(e is DuplicateLabel),
                    Ok(_) => true,
                }
            }
        }),
{
}

/// The label table after the first pass resolves exactly the names it
/// started with and the names the lines define.
pub proof fn lemma_pass1_labels(
    items: Seq<Result<LineView, ErrorView>>,
    a0: u16,
    l0: Seq<(Seq<u8>, u16)>,
    name: Seq<u8>,
)
    ensures
        spec_has_label(spec_pass1_results(items, a0, l0).2, name) <==> (spec_has_label(l0, name)
            || defines_label(items, name)),
    decreases items.len(),
{
    if items.len() == 0 {
        assert(!defines_label(items, name));
    } else {
        let prev = spec_pass1_results(items.drop_last(), a0, l0);
        lemma_pass1_labels(items.drop_last(), a0, l0, name);
        match items.last() {
            Err(_) => {},
            Ok(l) => {
                lemma_cast_labels_effect(l, prev.1, prev.2);
                if l.tokens.len() == 1 && l.tokens[0] is Label {
                    let n = label_name(l.tokens[0]);
                    if !spec_has_label(prev.2, n) {
                        lemma_lookup_push(prev.2, (n, prev.1), name);
                    }
                }
            },
        }
        assert forall|k: int|
            0 <= k < items.len() - 1 && is_label_def_line(#[trigger] items[k]) implies items.drop_last()[k]
            == items[k] by {}
        if defines_label(items, name) {
            let k = choose|k: int|
                0 <= k < items.len() && is_label_def_line(#[trigger] items[k]) && label_name(
                    match items[k] {
                        Ok(l2) => l2.tokens[0],
                        Err(_) => TokenView::Eof,
                    },
                ) == name;
            if k < items.len() - 1 {
                assert(is_label_def_line(items.drop_last()[k]));
                assert(defines_label(items.drop_last(), name));
            }
        }
        if defines_label(items.drop_last(), name) {
            let k = choose|k: int|
                0 <= k < items.drop_last().len() && is_label_def_line(
                    #[trigger] items.drop_last()[k],
                ) && label_name(
                    match items.drop_last()[k] {
                        Ok(l2) => l2.tokens[0],
                        Err(_) => TokenView::Eof,
                    },
                ) == name;
            assert(is_label_def_line(items[k]));
        }
    }
}

/// The first pass yields one slice slot per line slot.
pub proof fn lemma_pass1_len(items: Seq<Result<LineView, ErrorView>>, a0: u16, l0: Seq<(Seq<u8>, u16)>)
    ensures
        spec_pass1_results(items, a0, l0).0.len() == items.len(),
    decreases items.len(),
{
    if items.len() > 0 {
        lemma_pass1_len(items.drop_last(), a0, l0);
    }
}

/// The slice in slot `k` of the first pass is the cast of line `k` in
/// the state the earlier lines left behind.
pub proof fn lemma_pass1_slot(
    items: Seq<Result<LineView, ErrorView>>,
    a0: u16,
    l0: Seq<(Seq<u8>, u16)>,
    k: int,
)
    requires
        0 <= k < items.len(),
    ensures
        spec_pass1_results(items, a0, l0).0.len() == items.len(),
        spec_pass1_results(items, a0, l0).0[k] == (match items[k] {
            Ok(l) => spec_cast(
                l,
                spec_pass1_results(items.take(k), a0, l0).1,
                spec_pass1_results(items.take(k), a0, l0).2,
            ).0,
            Err(e) => Err(e),
        }),
    decreases items.len(),
{
    lemma_pass1_len(items, a0, l0);
    lemma_pass1_len(items.drop_last(), a0, l0);
    if k == items.len() - 1 {
        assert(items.take(k) =~= items.drop_last());
    } else {
        lemma_pass1_slot(items.drop_last(), a0, l0, k);
        assert(items.drop_last().take(k) =~= items.take(k));
        assert(items.drop_last()[k] == items[k]);
    }
}

/// The whole-source duplicate-label law: starting from an empty table, a
/// lone `name:` definition line fails with `DuplicateLabel` naming it and
/// its line exactly when an earlier line already defines the name, and no
/// other kind of line can raise that error.
pub proof fn lemma_duplicate_label_source(
    items: Seq<Result<LineView, ErrorView>>,
    a0: u16,
    k: int,
)
    requires
        0 <= k < items.len(),
    ensures
        ({
            let slot = spec_pass1_results(items, a0, Seq::empty()).0[k];
            match items[k] {
                Ok(l) => if l.tokens.len() == 1 && l.tokens[0] is Label {
                    let n = label_name(l.tokens[0]);
                    (slot == Err::<SliceView, ErrorView>(ErrorView::DuplicateLabel(n, l.line))
                        <==> defines_label(items.take(k), n)) && (!defines_label(items.take(k), n)
                        ==> slot == Ok::<SliceView, ErrorView>(SliceView::Empty))
                } else {
                    match slot {
                        Err(e) => !(e is DuplicateLabel),
                        Ok(_) => true,
                    }
                },
                Err(e) => slot == Err::<SliceView, ErrorView>(e),
            }
        }),
{
    lemma_pass1_slot(items, a0, Seq::empty(), k);
    let prefix = spec_pass1_results(items.take(k), a0, Seq::empty());
    match items[k] {
        Ok(l) => {
            lemma_cast_labels_effect(l, prefix.1, prefix.2);
            if l.tokens.len() == 1 && l.tokens[0] is Label {
                lemma_pass1_labels(items.take(k), a0, Seq::empty(), label_name(l.tokens[0]));
            }
        },
        Err(_) => {},
    }
}

/// Whether writing a slice slot fails in pass two: an error slot fails
/// with its own error, a pending reference with no definition fails with
/// `UndefinedLabel`, and nothing else fails.
pub open spec fn slot_fails(s: Result<SliceView, ErrorView>, labels: Seq<(Seq<u8>, u16)>) -> bool {
    match s {
        Err(_) => true,
        Ok(SliceView::Pending(_, n, _)) => !spec_has_label(labels, n),
        Ok(_) => false,
    }
}

/// The error a failing slot raises.
pub open spec fn slot_error(s: Result<SliceView, ErrorView>, labels: Seq<(Seq<u8>, u16)>) -> ErrorView {
    match s {
        Err(e) => e,
        Ok(SliceView::Pending(_, n, ln)) => ErrorView::UndefinedLabel(n, ln),
        Ok(_) => ErrorView::UndefinedLabel(Seq::empty(), 0),
    }
}

/// When no slot fails, the second pass succeeds.
pub proof fn lemma_pass2_total(
    slots: Seq<Result<SliceView, ErrorView>>,
    labels: Seq<(Seq<u8>, u16)>,
    out: Seq<u8>,
)
    requires
        forall|j: int| 0 <= j < slots.len() ==> !slot_fails(#[trigger] slots[j], labels),
    ensures
        spec_pass2(slots, labels, out) is Ok,
    decreases slots.len(),
{
    if slots.len() > 0 {
        assert(!slot_fails(slots[0], labels));
        match slots[0] {
            Err(_) => {},
            Ok(s) => {
                match spec_write(s, labels, out) {
                    Err(_) => {},
                    Ok(out2) => {
                        assert(forall|j: int|
                            0 <= j < slots.drop_first().len() ==> !slot_fails(
                                #[trigger] slots.drop_first()[j],
                                labels,
                            ));
                        lemma_pass2_total(slots.drop_first(), labels, out2);
                    },
                }
            },
        }
    }
}

/// The second pass returns exactly the error of the first failing slot,
/// in line order.
pub proof fn lemma_pass2_first_error(
    slots: Seq<Result<SliceView, ErrorView>>,
    labels: Seq<(Seq<u8>, u16)>,
    out: Seq<u8>,
    k: int,
)
    requires
        0 <= k < slots.len(),
        forall|j: int| 0 <= j < k ==> !slot_fails(#[trigger] slots[j], labels),
        slot_fails(slots[k], labels),
    ensures
        spec_pass2(slots, labels, out) == Err::<Seq<u8>, ErrorView>(slot_error(slots[k], labels)),
    decreases slots.len(),
{
    if k == 0 {
        match slots[0] {
            Err(_) => {},
            Ok(s) => {},
        }
    } else {
        assert(!slot_fails(slots[0], labels));
        match slots[0] {
            Err(_) => {},
            Ok(s) => {
                match spec_write(s, labels, out) {
                    Err(_) => {},
                    Ok(out2) => {
                        assert(forall|j: int|
                            0 <= j < k - 1 ==> slots.drop_first()[j] == slots[j + 1]
                                && !slot_fails(#[trigger] slots.drop_first()[j], labels));
                        assert(slots.drop_first()[k - 1] == slots[k]);
                        lemma_pass2_first_error(slots.drop_first(), labels, out2, k - 1);
                    },
                }
            },
        }
    }
}

/// The whole-source undefined-label law, starting from an empty table:
/// when the first pass produced no error slot and every other pending
/// reference resolves, the assembly fails with `UndefinedLabel` naming
/// reference `k` exactly when no line defines its name; when every
/// reference resolves, the assembly succeeds.
pub proof fn lemma_undefined_label_source(
    items: Seq<Result<LineView, ErrorView>>,
    a0: u16,
    k: int,
    f: u8,
    n: Seq<u8>,
    ln: int,
)
    requires
        ({
            let p = spec_pass1_results(items, a0, Seq::empty());
            &&& 0 <= k < p.0.len()
            &&& p.0[k] == Ok::<SliceView, ErrorView>(SliceView::Pending(f, n, ln))
            &&& forall|j: int| 0 <= j < p.0.len() && j != k ==> !slot_fails(#[trigger] p.0[j], p.2)
        }),
    ensures
        ({
            let p = spec_pass1_results(items, a0, Seq::empty());
            &&& spec_pass2(p.0, p.2, Seq::empty()) == Err::<Seq<u8>, ErrorView>(
                ErrorView::UndefinedLabel(n, ln),
            ) <==> !defines_label(items, n)
            &&& defines_label(items, n) ==> spec_pass2(p.0, p.2, Seq::empty()) is Ok
        }),
{
    let p = spec_pass1_results(items, a0, Seq::empty());
    lemma_pass1_labels(items, a0, Seq::empty(), n);
    if defines_label(items, n) {
        assert(!slot_fails(p.0[k], p.2));
        lemma_pass2_total(p.0, p.2, Seq::empty());
    } else {
        assert(slot_fails(p.0[k], p.2));
        lemma_pass2_first_error(p.0, p.2, Seq::empty(), k);
    }
}

/// The token line the canonical mnemonic of an instruction reads as:
/// the uppercase mnemonic word, register operands as register tokens,
/// immediates as number tokens — exactly what tokenizing the rendered
/// mnemonic yields, since `#`-prefixed uppercase hex reads back as the
/// same number and `V` plus a hex digit as the same register.
pub open spec fn canonical_tokens(op: Opcode) -> Seq<TokenView> {
    match op {
        Opcode::Cls => seq![TokenView::Identifier(seq![67u8, 76, 83])],
        Opcode::Ret => seq![TokenView::Identifier(seq![82u8, 69, 84])],
        Opcode::Sys { address } => seq![
            TokenView::Identifier(seq![83u8, 89, 83]),
            TokenView::Number(address@),
        ],
        Opcode::Jp { address } => seq![
            TokenView::Identifier(seq![74u8, 80]),
            TokenView::Number(address@),
        ],
        Opcode::Call { address } => seq![
            TokenView::Identifier(seq![67u8, 65, 76, 76]),
            TokenView::Number(address@),
        ],
        Opcode::SeByte { x, byte } => seq![
            TokenView::Identifier(seq![83u8, 69]),
            TokenView::Register(x@),
            TokenView::Comma,
            TokenView::Number(byte as u16),
        ],
        Opcode::SneByte { x, byte } => seq![
            TokenView::Identifier(seq![83u8, 78, 69]),
            TokenView::Register(x@),
            TokenView::Comma,
            TokenView::Number(byte as u16),
        ],
        Opcode::SeRegister { x, y } => seq![
            TokenView::Identifier(seq![83u8, 69]),
            TokenView::Register(x@),
            TokenView::Comma,
            TokenView::Register(y@),
        ],
        Opcode::LdByte { x, byte } => seq![
            TokenView::Identifier(seq![76u8, 68]),
            TokenView::Register(x@),
            TokenView::Comma,
            TokenView::Number(byte as u16),
        ],
        Opcode::AddByte { x, byte } => seq![
            TokenView::Identifier(seq![65u8, 68, 68]),
            TokenView::Register(x@),
            TokenView::Comma,
            TokenView::Number(byte as u16),
        ],
        Opcode::LdRegister { x, y } => seq![
            TokenView::Identifier(seq![76u8, 68]),
            TokenView::Register(x@),
            TokenView::Comma,
            TokenView::Register(y@),
        ],
        Opcode::Or { x, y } => seq![
            TokenView::Identifier(seq![79u8, 82]),
            TokenView::Register(x@),
            TokenView::Comma,
            TokenView::Register(y@),
        ],
        Opcode::And { x, y } => seq![
            TokenView::Identifier(seq![65u8, 78, 68]),
            TokenView::Register(x@),
            TokenView::Comma,
            TokenView::Register(y@),
        ],
        Opcode::Xor { x, y } => seq![
            TokenView::Identifier(seq![88u8, 79, 82]),
            TokenView::Register(x@),
            TokenView::Comma,
            TokenView::Register(y@),
        ],
        Opcode::AddRegister { x, y } => seq![
            TokenView::Identifier(seq![65u8, 68, 68]),
            TokenView::Register(x@),
            TokenView::Comma,
            TokenView::Register(y@),
        ],
        Opcode::Sub { x, y } => seq![
            TokenView::Identifier(seq![83u8, 85, 66]),
            TokenView::Register(x@),
            TokenView::Comma,
            TokenView::Register(y@),
        ],
        Opcode::Shr { x } => seq![
            TokenView::Identifier(seq![83u8, 72, 82]),
            TokenView::Register(x@),
        ],
        Opcode::Subn { x, y } => seq![
            TokenView::Identifier(seq![83u8, 85, 66, 78]),
            TokenView::Register(x@),
            TokenView::Comma,
            TokenView::Register(y@),
        ],
        Opcode::Shl { x } => seq![
            TokenView::Identifier(seq![83u8, 72, 76]),
            TokenView::Register(x@),
        ],
        Opcode::SneRegister { x, y } => seq![
            TokenView::Identifier(seq![83u8, 78, 69]),
            TokenView::Register(x@),
            TokenView::Comma,
            TokenView::Register(y@),
        ],
        Opcode::LdI { address } => seq![
            TokenView::Identifier(seq![76u8, 68]),
            TokenView::Identifier(seq![73u8]),
            TokenView::Comma,
            TokenView::Number(address@),
        ],
        Opcode::JpV0 { address } => seq![
            TokenView::Identifier(seq![74u8, 80]),
            TokenView::Register(0),
            TokenView::Comma,
            TokenView::Number(address@),
        ],
        Opcode::Rnd { x, byte } => seq![
            TokenView::Identifier(seq![82u8, 78, 68]),
            TokenView::Register(x@),
            TokenView::Comma,
            TokenView::Number(byte as u16),
        ],
        Opcode::Drw { x, y, n } => seq![
            TokenView::Identifier(seq![68u8, 82, 87]),
            TokenView::Register(x@),
            TokenView::Comma,
            TokenView::Register(y@),
            TokenView::Comma,
            TokenView::Number(n as u16),
        ],
        Opcode::Skp { x } => seq![
            TokenView::Identifier(seq![83u8, 75, 80]),
            TokenView::Register(x@),
        ],
        Opcode::Sknp { x } => seq![
            TokenView::Identifier(seq![83u8, 75, 78, 80]),
            TokenView::Register(x@),
        ],
        Opcode::LdVxDT { x } => seq![
            TokenView::Identifier(seq![76u8, 68]),
            TokenView::Register(x@),
            TokenView::Comma,
            TokenView::Identifier(seq![68u8, 84]),
        ],
        Opcode::LdVxK { x } => seq![
            TokenView::Identifier(seq![76u8, 68]),
            TokenView::Register(x@),
            TokenView::Comma,
            TokenView::Identifier(seq![75u8]),
        ],
        Opcode::LdDTVx { x } => seq![
            TokenView::Identifier(seq![76u8, 68]),
            TokenView::Identifier(seq![68u8, 84]),
            TokenView::Comma,
            TokenView::Register(x@),
        ],
        Opcode::LdSTVx { x } => seq![
            TokenView::Identifier(seq![76u8, 68]),
            TokenView::Identifier(seq![83u8, 84]),
            TokenView::Comma,
            TokenView::Register(x@),
        ],
        Opcode::AddIVx { x } => seq![
            TokenView::Identifier(seq![65u8, 68, 68]),
            TokenView::Identifier(seq![73u8]),
            TokenView::Comma,
            TokenView::Register(x@),
        ],
        Opcode::LdFVx { x } => seq![
            TokenView::Identifier(seq![76u8, 68]),
            TokenView::Identifier(seq![70u8]),
            TokenView::Comma,
            TokenView::Register(x@),
        ],
        Opcode::LdBVx { x } => seq![
            TokenView::Identifier(seq![76u8, 68]),
            TokenView::Identifier(seq![66u8]),
            TokenView::Comma,
            TokenView::Register(x@),
        ],
        Opcode::LdIVx { x } => seq![
            TokenView::Identifier(seq![76u8, 68]),
            TokenView::Identifier(seq![91u8, 73, 93]),
            TokenView::Comma,
            TokenView::Register(x@),
        ],
        Opcode::LdVxI { x } => seq![
            TokenView::Identifier(seq![76u8, 68]),
            TokenView::Register(x@),
            TokenView::Comma,
            TokenView::Identifier(seq![91u8, 73, 93]),
        ],
        Opcode::Invalid(_) => seq![],
    }
}

/// The mnemonic-to-assembler direction of the round trip: the canonical
/// token line of every well-formed instruction matches a template and
/// re-assembles to exactly the instruction's encoding, whatever the
/// cursor and label table; neither moves beyond the usual advance.
#[verifier::rlimit(80)]
#[verifier::spinoff_prover]
pub proof fn lemma_mnemonic_reassembles(op: Opcode, ln: int, a0: u16, l0: Seq<(Seq<u8>, u16)>)
    requires
        op.wf(),
    ensures
        spec_cast(LineView { tokens: canonical_tokens(op), line: ln }, a0, l0).0 == Ok::<
            SliceView,
            ErrorView,
        >(SliceView::Opcode(spec_encode(op) as u16)),
        spec_cast(LineView { tokens: canonical_tokens(op), line: ln }, a0, l0).1 == cursor2(a0),
        spec_cast(LineView { tokens: canonical_tokens(op), line: ln }, a0, l0).2 == l0,
{
}

/// Assemble CHIP-8 source text into ROM bytes.
///
/// The text is tokenized line by line; each line is cast against the
/// instruction templates while labels are collected, and a second pass
/// writes the bytes with label references resolved.  The first error in
/// source order is returned, and no partial output with it: exactly
/// `spec_assemble_source` on the bytes.
pub fn assemble(source: &[u8]) -> (r: Result<Vec<u8>, Error>)
    ensures
        match (r, spec_assemble_source(source@)) {
            (Ok(v), Ok(o)) => v@ =~= o,
            (Err(e), Err(ev)) => e@ == ev,
            _ => false,
        },
{
    let mut tokenizer = Tokenizer::new(source);
    let ghost src = tokenizer.spec_src();
    let mut address: u16 = 0x200;
    let mut labels = LabelMap::new();
    let mut slices: Vec<Result<MemorySlices, Error>> = Vec::new();
    let ghost mut items_done: Seq<Result<LineView, ErrorView>> = Seq::empty();
    proof {
        assert(spec_tokenize(src, 0, 1) =~= items_done + spec_tokenize(src, 0, 1));
        assert(labels@ =~= Seq::<(Seq<u8>, u16)>::empty());
        assert(views_of(slices@) =~= Seq::<Result<SliceView, ErrorView>>::empty());
    }
    loop
        invariant
            0 <= tokenizer.spec_pos() <= tokenizer.spec_src().len(),
            tokenizer.spec_src() == src,
            src =~= source@,
            spec_tokenize(src, 0, 1) == items_done + spec_tokenize(
                src,
                tokenizer.spec_pos(),
                tokenizer.spec_line(),
            ),
            views_of(slices@) =~= spec_pass1_results(items_done, 0x200, Seq::empty()).0,
            address == spec_pass1_results(items_done, 0x200, Seq::empty()).1,
            labels@ =~= spec_pass1_results(items_done, 0x200, Seq::empty()).2,
        decreases tokenizer.spec_src().len() - tokenizer.spec_pos(),
    {
        let ghost pos0 = tokenizer.spec_pos();
        let ghost line0 = tokenizer.spec_line();
        proof {
            lemma_get_line_progress(src, pos0, line0);
        }
        match tokenizer.get_line() {
            Err(e) => {
                proof {
                    let item = Err::<LineView, ErrorView>(e@);
                    lemma_pass1_results_snoc(items_done, item, 0x200, Seq::empty());
                    items_done = items_done.push(item);
                    assert(spec_tokenize(src, pos0, line0) =~= seq![item] + spec_tokenize(
                        src,
                        tokenizer.spec_pos(),
                        tokenizer.spec_line(),
                    ));
                    assert(items_done + spec_tokenize(
                        src,
                        tokenizer.spec_pos(),
                        tokenizer.spec_line(),
                    ) =~= items_done.drop_last() + spec_tokenize(src, pos0, line0));
                }
                slices.push(Err(e));
            },
            Ok(l) => {
                if l.tokens.len() == 1 && matches!(&l.tokens[0], Token::Eof) {
                    proof {
                        assert(l@.tokens =~= seq![TokenView::Eof]);
                        assert(spec_tokenize(src, pos0, line0) =~= Seq::<
                            Result<LineView, ErrorView>,
                        >::empty());
                        assert(spec_tokenize(src, 0, 1) =~= items_done);
                    }
                    return write_slices(&mut slices, &labels);
                }
                proof {
                    assert(!(l@.tokens =~= seq![TokenView::Eof])) by {
                        if l.tokens@.len() == 1 {
                            let t0 = l.tokens@[0];
                            assert(l@.tokens[0] == t0@);
                            assert(!(t0 is Eof));
                            match t0 {
                                Token::Label(_) => {},
                                Token::Identifier(_) => {},
                                Token::Register(_) => {},
                                Token::Number(_) => {},
                                Token::Comma => {},
                                Token::LineBreak => {},
                                Token::Eof => {},
                            }
                        } else {
                            assert(l@.tokens.len() != 1);
                        }
                    }
                    let item = Ok::<LineView, ErrorView>(l@);
                    lemma_pass1_results_snoc(items_done, item, 0x200, Seq::empty());
                    items_done = items_done.push(item);
                    assert(spec_tokenize(src, pos0, line0) =~= seq![item] + spec_tokenize(
                        src,
                        tokenizer.spec_pos(),
                        tokenizer.spec_line(),
                    ));
                    assert(items_done + spec_tokenize(
                        src,
                        tokenizer.spec_pos(),
                        tokenizer.spec_line(),
                    ) =~= items_done.drop_last() + spec_tokenize(src, pos0, line0));
                }
                let r = cast_line(&l, &mut address, &mut labels);
                slices.push(r);
            },
        }
    }
}

/// Appending one line slot to the first pass processes it last.
proof fn lemma_pass1_results_snoc(
    items: Seq<Result<LineView, ErrorView>>,
    item: Result<LineView, ErrorView>,
    a0: u16,
    l0: Seq<(Seq<u8>, u16)>,
)
    ensures
        spec_pass1_results(items.push(item), a0, l0).0 == spec_pass1_results(items, a0, l0).0.push(
            match item {
                Ok(l) => spec_cast(
                    l,
                    spec_pass1_results(items, a0, l0).1,
                    spec_pass1_results(items, a0, l0).2,
                ).0,
                Err(e) => Err(e),
            },
        ),
        spec_pass1_results(items.push(item), a0, l0).1 == (match item {
            Ok(l) => spec_cast(
                l,
                spec_pass1_results(items, a0, l0).1,
                spec_pass1_results(items, a0, l0).2,
            ).1,
            Err(_) => spec_pass1_results(items, a0, l0).1,
        }),
        spec_pass1_results(items.push(item), a0, l0).2 == (match item {
            Ok(l) => spec_cast(
                l,
                spec_pass1_results(items, a0, l0).1,
                spec_pass1_results(items, a0, l0).2,
            ).2,
            Err(_) => spec_pass1_results(items, a0, l0).2,
        }),
{
    assert(items.push(item).drop_last() =~= items);
    assert(items.push(item).last() == item);
}

} // verus!
