use vstd::prelude::*;

use crate::asm_error::Error;
use crate::asm_error::ErrorView;

verus! {

/// One lexical token of CHIP-8 assembly source.
#[derive(Clone, Debug, PartialEq, Eq)]
pub enum Token {
    /// A `name:` definition, the colon stripped.
    Label(Vec<u8>),
    /// A bare word: a mnemonic, an operand keyword or a label reference.
    Identifier(Vec<u8>),
    /// `Vx`: a register operand, always in `[0x0, 0xF]`.
    Register(u8),
    /// A numeric literal, decimal or `#`-prefixed hexadecimal.
    Number(u16),
    /// The `,` separator.
    Comma,
    /// The end of a source line.
    LineBreak,
    /// The end of the source text.
    Eof,
}

/// The mathematical shape of a token, for use in contracts.
pub enum TokenView {
    Label(Seq<u8>),
    Identifier(Seq<u8>),
    Register(u8),
    Number(u16),
    Comma,
    LineBreak,
    Eof,
}

impl Token {
    /// The token's mathematical shape.
    pub open spec fn view(self) -> TokenView {
        match self {
            Token::Label(v) => TokenView::Label(v@),
            Token::Identifier(v) => TokenView::Identifier(v@),
            Token::Register(v) => TokenView::Register(v),
            Token::Number(v) => TokenView::Number(v),
            Token::Comma => TokenView::Comma,
            Token::LineBreak => TokenView::LineBreak,
            Token::Eof => TokenView::Eof,
        }
    }
}

/// Whether a token keeps the tokenizer's promises: register operands
/// fit in a nibble.
pub open spec fn token_wf(t: Token) -> bool {
    match t {
        Token::Register(v) => v <= 0xF,
        _ => true,
    }
}

/// `token_wf`, stated on the token's shape.
pub open spec fn token_view_wf(t: TokenView) -> bool {
    match t {
        TokenView::Register(v) => v <= 0xF,
        _ => true,
    }
}

/// The tokens of one source line, with its 1-based line number.
#[derive(Clone, Debug, PartialEq, Eq)]
pub struct Line {
    /// The tokens, line break excluded.
    pub tokens: Vec<Token>,
    /// The 1-based source line number.
    pub line: usize,
}

/// The mathematical shape of a token line, for use in contracts.
pub struct LineView {
    /// The token shapes.
    pub tokens: Seq<TokenView>,
    /// The 1-based source line number.
    pub line: int,
}

impl Line {
    /// The line's mathematical shape.
    pub open spec fn view(self) -> LineView {
        LineView { tokens: self.tokens@.map_values(|t: Token| t@), line: self.line as int }
    }
}

/// The numeric value of an ASCII hex digit, or -1.
pub open spec fn hex_digit_val(b: u8) -> int {
    if 48 <= b <= 57 {
        b - 48
    } else if 97 <= b <= 102 {
        b - 87
    } else if 65 <= b <= 70 {
        b - 55
    } else {
        -1
    }
}

/// Fold the digits of `s` onto `acc` in the given radix; `None` on a bad
/// digit or once the value passes `limit`.
pub open spec fn fold_digits(s: Seq<u8>, radix: int, limit: int, acc: int) -> Option<int>
    decreases s.len(),
{
    if s.len() == 0 {
        Some(acc)
    } else {
        let d = hex_digit_val(s[0]);
        if d < 0 || d >= radix {
            None
        } else if acc * radix + d > limit {
            None
        } else {
            fold_digits(s.drop_first(), radix, limit, acc * radix + d)
        }
    }
}

/// The value of a numeric word: at least one digit, all digits valid in
/// the radix, and the value within `limit`.
pub open spec fn spec_parse_number(s: Seq<u8>, radix: int, limit: int) -> Option<int> {
    if s.len() == 0 {
        None
    } else {
        fold_digits(s, radix, limit, 0)
    }
}

/// Parse a numeric word.  Yields exactly the value `spec_parse_number`
/// names, and nothing on empty input, an invalid digit, or overflow.
pub fn parse_number(bytes: &[u8], radix: u16, limit: u16) -> (r: Option<u16>)
    requires
        2 <= radix <= 16,
    ensures
        r is Some <==> spec_parse_number(bytes@, radix as int, limit as int) is Some,
        r matches Some(v) ==> spec_parse_number(bytes@, radix as int, limit as int) == Some(
            v as int,
        ) && v <= limit,
{
    if bytes.len() == 0 {
        return None;
    }
    let mut acc: u16 = 0;
    let mut j: usize = 0;
    proof {
        assert(bytes@.skip(0) =~= bytes@);
    }
    while j < bytes.len()
        invariant
            2 <= radix <= 16,
            j <= bytes@.len(),
            acc <= limit,
            fold_digits(bytes@, radix as int, limit as int, 0) == fold_digits(
                bytes@.skip(j as int),
                radix as int,
                limit as int,
                acc as int,
            ),
        decreases bytes@.len() - j,
    {
        let b = bytes[j];
        let d: i32 = if 48 <= b && b <= 57 {
            b as i32 - 48
        } else if 97 <= b && b <= 102 {
            b as i32 - 87
        } else if 65 <= b && b <= 70 {
            b as i32 - 55
        } else {
            -1
        };
        proof {
            assert(bytes@.skip(j as int).drop_first() =~= bytes@.skip(j + 1));
        }
        if d < 0 || d >= radix as i32 {
            return None;
        }
        proof {
            vstd::arithmetic::mul::lemma_mul_upper_bound(acc as int, 0xFFFF, radix as int, 16);
        }
        let next: u32 = acc as u32 * radix as u32 + d as u32;
        if next > limit as u32 {
            return None;
        }
        acc = next as u16;
        j = j + 1;
    }
    proof {
        assert(bytes@.skip(bytes@.len() as int) =~= Seq::<u8>::empty());
    }
    Some(acc)
}

/// Whether a byte separates tokens: space, tab, newline, carriage
/// return or comma.
pub open spec fn is_separator(b: u8) -> bool {
    b == 32 || b == 9 || b == 10 || b == 13 || b == 44
}

/// The first separator position at or after `pos`, or the end.
pub open spec fn spec_find_sep(src: Seq<u8>, pos: int) -> int
    decreases src.len() - pos,
{
    if pos < 0 || pos >= src.len() {
        src.len() as int
    } else if is_separator(src[pos]) {
        pos
    } else {
        spec_find_sep(src, pos + 1)
    }
}

/// The first line break at or after `pos`, or the end.
pub open spec fn spec_find_nl(src: Seq<u8>, pos: int) -> int
    decreases src.len() - pos,
{
    if pos < 0 || pos >= src.len() {
        src.len() as int
    } else if src[pos] == 10 {
        pos
    } else {
        spec_find_nl(src, pos + 1)
    }
}

/// The scan for a line break never moves backwards and stays in bounds.
proof fn lemma_find_nl_bounds(src: Seq<u8>, pos: int)
    requires
        0 <= pos <= src.len(),
    ensures
        pos <= spec_find_nl(src, pos) <= src.len(),
    decreases src.len() - pos,
{
    if pos < src.len() && src[pos] != 10 {
        lemma_find_nl_bounds(src, pos + 1);
    }
}

/// The scan for a separator never moves backwards and stays in bounds.
proof fn lemma_find_sep_bounds(src: Seq<u8>, pos: int)
    requires
        0 <= pos <= src.len(),
    ensures
        pos <= spec_find_sep(src, pos) <= src.len(),
    decreases src.len() - pos,
{
    if pos < src.len() && !is_separator(src[pos]) {
        lemma_find_sep_bounds(src, pos + 1);
    }
}

/// The line counter one line further; it saturates at the top rather
/// than wrap, far beyond any real source.
pub open spec fn bump_line(line: int) -> int {
    if line < usize::MAX {
        line + 1
    } else {
        line
    }
}

/// The next token scanned from `pos`, with the positions and line
/// number after it: the whole lexical rule set of the assembler.
pub open spec fn spec_next_token(src: Seq<u8>, pos: int, line: int) -> (
    Result<TokenView, ErrorView>,
    int,
    int,
)
    recommends
        0 <= pos <= src.len(),
    decreases src.len() - pos,
    when 0 <= pos <= src.len()
    via check_next_token_decreases
{
    if pos >= src.len() {
        (Ok(TokenView::Eof), pos, line)
    } else {
        let b = src[pos];
        if b == 32 || b == 9 || b == 13 {
            spec_next_token(src, pos + 1, line)
        } else if b == 10 {
            (Ok(TokenView::LineBreak), pos + 1, bump_line(line))
        } else if b == 59 {
            spec_next_token(src, spec_find_nl(src, pos + 1), line)
        } else if b == 86 && pos + 1 < src.len() && spec_is_hex_digit(src[pos + 1]) {
            let end = spec_find_sep(src, pos + 1);
            let word = src.subrange(pos + 1, end);
            match spec_parse_number(word, 16, 0xFF) {
                Some(v) => if v > 0xF {
                    (Err(ErrorView::InvalidRegister(v as u16, line)), end, line)
                } else {
                    (Ok(TokenView::Register(v as u8)), end, line)
                },
                None => (Err(ErrorView::InvalidNumber(word, line)), end, line),
            }
        } else if b == 35 && pos + 1 < src.len() && spec_is_hex_digit(src[pos + 1]) {
            let end = spec_find_sep(src, pos + 1);
            let word = src.subrange(pos + 1, end);
            match spec_parse_number(word, 16, 0xFFFF) {
                Some(v) => (Ok(TokenView::Number(v as u16)), end, line),
                None => (Err(ErrorView::InvalidNumber(word, line)), end, line),
            }
        } else if 48 <= b && b <= 57 {
            let end = spec_find_sep(src, pos);
            let word = src.subrange(pos, end);
            match spec_parse_number(word, 10, 0xFFFF) {
                Some(v) => (Ok(TokenView::Number(v as u16)), end, line),
                None => (Err(ErrorView::InvalidNumber(word, line)), end, line),
            }
        } else if b == 44 {
            (Ok(TokenView::Comma), pos + 1, line)
        } else if (65 <= b && b <= 90) || (97 <= b && b <= 122) || b == 91 || b == 93 {
            let end = spec_find_sep(src, pos);
            let word = src.subrange(pos, end);
            if word.len() > 0 && word[word.len() - 1] == 58 {
                (Ok(TokenView::Label(word.drop_last())), end, line)
            } else {
                (Ok(TokenView::Identifier(word)), end, line)
            }
        } else {
            let end = spec_find_sep(src, pos);
            let word = src.subrange(pos, end);
            (Err(ErrorView::InvalidToken(word, line)), end, line)
        }
    }
}

#[via_fn]
proof fn check_next_token_decreases(src: Seq<u8>, pos: int, line: int) {
    if 0 <= pos < src.len() && src[pos] == 59 {
        lemma_find_nl_bounds(src, pos + 1);
    }
}

/// Scanning a token never moves backwards, stays in bounds, and
/// consumes at least one byte unless it reaches the end of the source.
proof fn lemma_next_token_progress(src: Seq<u8>, pos: int, line: int)
    requires
        0 <= pos <= src.len(),
    ensures
        pos <= spec_next_token(src, pos, line).1 <= src.len(),
        !(spec_next_token(src, pos, line).0 == Ok::<TokenView, ErrorView>(TokenView::Eof))
            ==> spec_next_token(src, pos, line).1 > pos,
        spec_next_token(src, pos, line).0 == Ok::<TokenView, ErrorView>(TokenView::Eof)
            ==> spec_next_token(src, pos, line).1 == src.len(),
    decreases src.len() - pos,
{
    if pos < src.len() {
        let b = src[pos];
        if b == 32 || b == 9 || b == 13 {
            lemma_next_token_progress(src, pos + 1, line);
        } else if b == 59 {
            lemma_find_nl_bounds(src, pos + 1);
            lemma_next_token_progress(src, spec_find_nl(src, pos + 1), line);
        } else if b == 10 || b == 44 {
        } else if b == 86 && pos + 1 < src.len() && spec_is_hex_digit(src[pos + 1]) {
            lemma_find_sep_bounds(src, pos + 1);
        } else if b == 35 && pos + 1 < src.len() && spec_is_hex_digit(src[pos + 1]) {
            lemma_find_sep_bounds(src, pos + 1);
        } else {
            lemma_find_sep_bounds(src, pos + 1);
            assert(spec_find_sep(src, pos) == spec_find_sep(src, pos + 1));
        }
    }
}

/// The line-oriented lexer: hands out one `Line` of tokens at a time.
pub struct Tokenizer {
    src: Vec<u8>,
    pos: usize,
    line: usize,
}

impl Tokenizer {
    /// The source bytes, for use in contracts.
    pub closed spec fn spec_src(self) -> Seq<u8> {
        self.src@
    }

    /// The scan position, for use in contracts.
    pub closed spec fn spec_pos(self) -> int {
        self.pos as int
    }

    /// The current 1-based line number, for use in contracts.
    pub closed spec fn spec_line(self) -> int {
        self.line as int
    }

    /// A tokenizer at the start of the given source text.
    pub fn new(src: &[u8]) -> (r: Self)
        ensures
            r.spec_src() =~= src@,
            r.spec_pos() == 0,
            r.spec_line() == 1,
    {
        Tokenizer { src: vstd::slice::slice_to_vec(src), pos: 0, line: 1 }
    }

    /// First separator position at or after `from`.
    fn next_space(&self, from: usize) -> (r: usize)
        requires
            from <= self.spec_src().len(),
        ensures
            from <= r <= self.spec_src().len(),
            r == spec_find_sep(self.spec_src(), from as int),
            forall|t: int| from <= t < r ==> !is_separator(self.spec_src()[t]),
            r < self.spec_src().len() ==> is_separator(self.spec_src()[r as int]),
    {
        let mut j: usize = from;
        while j < self.src.len()
            invariant
                from <= j <= self.spec_src().len(),
                spec_find_sep(self.spec_src(), from as int) == spec_find_sep(
                    self.spec_src(),
                    j as int,
                ),
                forall|t: int| from <= t < j ==> !is_separator(self.spec_src()[t]),
            decreases self.spec_src().len() - j,
        {
            let b = self.src[j];
            if b == 32 || b == 9 || b == 10 || b == 13 || b == 44 {
                return j;
            }
            j = j + 1;
        }
        j
    }

    /// Consume the word running from the scan position to the next
    /// separator, and return its bytes.
    fn take_word(&mut self) -> (r: Vec<u8>)
        requires
            old(self).spec_pos() <= old(self).spec_src().len(),
        ensures
            final(self).spec_src() == old(self).spec_src(),
            final(self).spec_line() == old(self).spec_line(),
            old(self).spec_pos() <= final(self).spec_pos() <= final(self).spec_src().len(),
            final(self).spec_pos() == spec_find_sep(old(self).spec_src(), old(self).spec_pos()),
            r@ =~= old(self).spec_src().subrange(old(self).spec_pos(), final(self).spec_pos()),
            final(self).spec_pos() < final(self).spec_src().len() ==> is_separator(
                final(self).spec_src()[final(self).spec_pos()],
            ),
    {
        let end = self.next_space(self.pos);
        let mut word: Vec<u8> = Vec::new();
        let mut j: usize = self.pos;
        while j < end
            invariant
                old(self).spec_pos() <= j <= end,
                end <= self.spec_src().len(),
                self.spec_src() == old(self).spec_src(),
                self.spec_pos() == old(self).spec_pos(),
                self.spec_line() == old(self).spec_line(),
                word@.len() == j - old(self).spec_pos(),
                forall|t: int|
                    old(self).spec_pos() <= t < j ==> word@[t - old(self).spec_pos()]
                        == self.spec_src()[t],
            decreases end - j,
        {
            word.push(self.src[j]);
            j = j + 1;
        }
        self.pos = end;
        word
    }

    /// Scan the next token, exactly as `spec_next_token` reads it: the
    /// scan position never moves backwards, line numbers only grow,
    /// register tokens fit in a nibble, and every error names the line
    /// it was found on.
    pub fn next_token(&mut self) -> (r: Result<Token, Error>)
        requires
            old(self).spec_pos() <= old(self).spec_src().len(),
        ensures
            final(self).spec_src() == old(self).spec_src(),
            old(self).spec_pos() <= final(self).spec_pos() <= final(self).spec_src().len(),
            old(self).spec_line() <= final(self).spec_line(),
            r matches Ok(t) ==> token_wf(t),
            r matches Ok(t) && t is Eof ==> final(self).spec_pos()
                == final(self).spec_src().len(),
            r matches Ok(t) && !(t is Eof) ==> final(self).spec_pos() > old(self).spec_pos(),
            r is Err ==> final(self).spec_pos() > old(self).spec_pos(),
            r matches Ok(t) && !(t is LineBreak) ==> final(self).spec_line() == old(self).spec_line(),
            ({
                let step = spec_next_token(
                    old(self).spec_src(),
                    old(self).spec_pos(),
                    old(self).spec_line(),
                );
                &&& match r {
                    Ok(t) => step.0 == Ok::<TokenView, ErrorView>(t@),
                    Err(e) => step.0 == Err::<TokenView, ErrorView>(e@),
                }
                &&& final(self).spec_pos() == step.1
                &&& final(self).spec_line() == step.2
            }),
    {
        loop
            invariant
                self.spec_pos() <= self.spec_src().len(),
                self.spec_src() == old(self).spec_src(),
                old(self).spec_pos() <= self.spec_pos(),
                old(self).spec_line() <= self.spec_line(),
                self.spec_line() == old(self).spec_line(),
                spec_next_token(self.spec_src(), self.spec_pos(), self.spec_line())
                    == spec_next_token(
                    old(self).spec_src(),
                    old(self).spec_pos(),
                    old(self).spec_line(),
                ),
            decreases self.spec_src().len() - self.spec_pos(),
        {
            if self.pos >= self.src.len() {
                return Ok(Token::Eof);
            }
            let b = self.src[self.pos];
            if b == 32 || b == 9 || b == 13 {
                self.pos = self.pos + 1;
            } else if b == 10 {
                if self.line < usize::MAX {
                    self.line = self.line + 1;
                }
                self.pos = self.pos + 1;
                return Ok(Token::LineBreak);
            } else if b == 59 {
                // comment: skip to the end of the line
                let mut j: usize = self.pos + 1;
                while j < self.src.len() && self.src[j] != 10
                    invariant
                        self.spec_pos() < j <= self.spec_src().len(),
                        spec_find_nl(self.spec_src(), self.spec_pos() + 1) == spec_find_nl(
                            self.spec_src(),
                            j as int,
                        ),
                    decreases self.spec_src().len() - j,
                {
                    j = j + 1;
                }
                proof {
                    assert(j == spec_find_nl(self.spec_src(), self.spec_pos() + 1));
                }
                self.pos = j;
            } else if b == 86 && self.pos + 1 < self.src.len() && is_hex_digit_byte(
                self.src[self.pos + 1],
            ) {
                // a register word: V followed by hex digits
                self.pos = self.pos + 1;
                let word = self.take_word();
                match parse_number(word.as_slice(), 16, 0xFF) {
                    Some(v) => {
                        if v > 0xF {
                            return Err(Error::InvalidRegister(v, self.line));
                        }
                        return Ok(Token::Register(v as u8));
                    },
                    None => {
                        return Err(Error::InvalidNumber(word, self.line));
                    },
                }
            } else if b == 35 && self.pos + 1 < self.src.len() && is_hex_digit_byte(
                self.src[self.pos + 1],
            ) {
                // a hexadecimal number: # followed by hex digits
                self.pos = self.pos + 1;
                let word = self.take_word();
                match parse_number(word.as_slice(), 16, 0xFFFF) {
                    Some(v) => {
                        return Ok(Token::Number(v));
                    },
                    None => {
                        return Err(Error::InvalidNumber(word, self.line));
                    },
                }
            } else if 48 <= b && b <= 57 {
                // a decimal number
                let word = self.take_word();
                match parse_number(word.as_slice(), 10, 0xFFFF) {
                    Some(v) => {
                        return Ok(Token::Number(v));
                    },
                    None => {
                        return Err(Error::InvalidNumber(word, self.line));
                    },
                }
            } else if b == 44 {
                self.pos = self.pos + 1;
                return Ok(Token::Comma);
            } else if (65 <= b && b <= 90) || (97 <= b && b <= 122) || b == 91 || b == 93 {
                // an identifier or a label definition
                let mut word = self.take_word();
                if word.len() > 0 && word[word.len() - 1] == 58 {
                    let _ = word.pop();
                    return Ok(Token::Label(word));
                }
                return Ok(Token::Identifier(word));
            } else {
                let word = self.take_word();
                return Err(Error::InvalidToken(word, self.line));
            }
        }
    }

    /// Scan one line of tokens, exactly as `spec_get_line` reads it.  A
    /// line holding only `Eof` marks the end
    /// of the source; every other result consumed at least one byte.
    pub fn get_line(&mut self) -> (r: Result<Line, Error>)
        requires
            old(self).spec_pos() <= old(self).spec_src().len(),
        ensures
            final(self).spec_src() == old(self).spec_src(),
            old(self).spec_pos() <= final(self).spec_pos() <= final(self).spec_src().len(),
            old(self).spec_line() <= final(self).spec_line(),
            r matches Ok(l) ==> l.line == old(self).spec_line() && forall|t: int|
                0 <= t < l.tokens@.len() ==> token_wf(#[trigger] l.tokens@[t]),
            r matches Ok(l) && !(l.tokens@.len() == 1 && l.tokens@[0] is Eof) ==> final(self).spec_pos() > old(self).spec_pos(),
            r matches Ok(l) && l.tokens@.len() == 1 && l.tokens@[0] is Eof ==> final(self).spec_pos() == final(self).spec_src().len(),
            r matches Ok(l) ==> forall|t: int|
                0 <= t < l.tokens@.len() ==> !((#[trigger] l.tokens@[t]) is LineBreak),
            r is Err ==> final(self).spec_pos() > old(self).spec_pos(),
            ({
                let g = spec_get_line(old(self).spec_src(), old(self).spec_pos(), old(self).spec_line());
                &&& match r {
                    Ok(l) => g.0 == Ok::<Seq<TokenView>, ErrorView>(l@.tokens) && l.line == old(
                        self,
                    ).spec_line(),
                    Err(e) => g.0 == Err::<Seq<TokenView>, ErrorView>(e@),
                }
                &&& final(self).spec_pos() == g.1
                &&& final(self).spec_line() == g.2
            }),
    {
        let mut tokens: Vec<Token> = Vec::new();
        let ghost line0 = self.spec_line();
        let line = self.line;
        proof {
            assert(tokens@.map_values(|t: Token| t@) =~= Seq::<TokenView>::empty());
        }
        loop
            invariant
                self.spec_pos() <= self.spec_src().len(),
                self.spec_src() == old(self).spec_src(),
                old(self).spec_pos() <= self.spec_pos(),
                line0 == old(self).spec_line(),
                line == line0,
                line0 <= self.spec_line(),
                tokens@.len() > 0 ==> self.spec_pos() > old(self).spec_pos(),
                forall|t: int| 0 <= t < tokens@.len() ==> token_wf(#[trigger] tokens@[t]),
                forall|t: int|
                    0 <= t < tokens@.len() ==> !((#[trigger] tokens@[t]) is LineBreak) && !((
                    #[trigger] tokens@[t]) is Eof),
                spec_get_line_from(
                    old(self).spec_src(),
                    old(self).spec_pos(),
                    old(self).spec_line(),
                    Seq::empty(),
                ) == spec_get_line_from(
                    self.spec_src(),
                    self.spec_pos(),
                    self.spec_line(),
                    tokens@.map_values(|t: Token| t@),
                ),
            decreases self.spec_src().len() - self.spec_pos() + 1,
        {
            let ghost acc = tokens@.map_values(|t: Token| t@);
            let token = match self.next_token() {
                Ok(t) => t,
                Err(e) => {
                    return Err(e);
                },
            };
            match token {
                Token::LineBreak => {
                    return Ok(Line { tokens, line });
                },
                Token::Eof => {
                    if tokens.len() == 0 {
                        let mut only: Vec<Token> = Vec::new();
                        only.push(Token::Eof);
                        proof {
                            assert(only@.map_values(|t: Token| t@) =~= seq![TokenView::Eof]);
                        }
                        return Ok(Line { tokens: only, line });
                    }
                    return Ok(Line { tokens, line });
                },
                t => {
                    proof {
                        assert(acc.push(t@) =~= tokens@.push(t).map_values(|tk: Token| tk@));
                    }
                    tokens.push(t);
                },
            }
        }
    }
}

/// One source line scanned from `pos` with the tokens already in `acc`:
/// the tokens up to the line break, or `[Eof]` for the empty tail.
pub open spec fn spec_get_line_from(src: Seq<u8>, pos: int, line: int, acc: Seq<TokenView>) -> (
    Result<Seq<TokenView>, ErrorView>,
    int,
    int,
)
    recommends
        0 <= pos <= src.len(),
    decreases src.len() - pos,
    when 0 <= pos <= src.len()
    via check_get_line_decreases
{
    let step = spec_next_token(src, pos, line);
    match step.0 {
        Err(e) => (Err(e), step.1, step.2),
        Ok(t) => match t {
            TokenView::LineBreak => (Ok(acc), step.1, step.2),
            TokenView::Eof => if acc.len() == 0 {
                (Ok(seq![TokenView::Eof]), step.1, step.2)
            } else {
                (Ok(acc), step.1, step.2)
            },
            _ => spec_get_line_from(src, step.1, step.2, acc.push(t)),
        },
    }
}

#[via_fn]
proof fn check_get_line_decreases(src: Seq<u8>, pos: int, line: int, acc: Seq<TokenView>) {
    lemma_next_token_progress(src, pos, line);
}

/// One source line scanned from `pos`.
pub open spec fn spec_get_line(src: Seq<u8>, pos: int, line: int) -> (
    Result<Seq<TokenView>, ErrorView>,
    int,
    int,
) {
    spec_get_line_from(src, pos, line, Seq::empty())
}

/// Scanning a line never moves the position backwards.
proof fn lemma_get_line_from_monotone(src: Seq<u8>, pos: int, line: int, acc: Seq<TokenView>)
    requires
        0 <= pos <= src.len(),
    ensures
        pos <= spec_get_line_from(src, pos, line, acc).1 <= src.len(),
    decreases src.len() - pos,
{
    lemma_next_token_progress(src, pos, line);
    let step = spec_next_token(src, pos, line);
    match step.0 {
        Err(_) => {},
        Ok(t) => match t {
            TokenView::LineBreak => {},
            TokenView::Eof => {},
            _ => {
                lemma_get_line_from_monotone(src, step.1, step.2, acc.push(t));
            },
        },
    }
}

/// Any line other than the `[Eof]` end marker consumed at least one byte.
pub proof fn lemma_get_line_progress(src: Seq<u8>, pos: int, line: int)
    requires
        0 <= pos <= src.len(),
    ensures
        pos <= spec_get_line(src, pos, line).1 <= src.len(),
        spec_get_line(src, pos, line).0 != Ok::<Seq<TokenView>, ErrorView>(
            seq![TokenView::Eof],
        ) ==> spec_get_line(src, pos, line).1 > pos,
{
    lemma_get_line_from_monotone(src, pos, line, Seq::empty());
    lemma_next_token_progress(src, pos, line);
    let step = spec_next_token(src, pos, line);
    match step.0 {
        Err(_) => {},
        Ok(t) => match t {
            TokenView::LineBreak => {},
            TokenView::Eof => {},
            _ => {
                lemma_get_line_from_monotone(src, step.1, step.2, Seq::empty().push(t));
            },
        },
    }
}

/// All the source's token lines in order, each line either its tokens
/// or the lexical error that stopped it; ends at the `[Eof]` marker.
pub open spec fn spec_tokenize(src: Seq<u8>, pos: int, line: int) -> Seq<
    Result<LineView, ErrorView>,
>
    recommends
        0 <= pos <= src.len(),
    decreases src.len() - pos,
    when 0 <= pos <= src.len()
    via check_tokenize_decreases
{
    let g = spec_get_line(src, pos, line);
    if g.0 == Ok::<Seq<TokenView>, ErrorView>(seq![TokenView::Eof]) {
        Seq::empty()
    } else {
        let item = match g.0 {
            Ok(tokens) => Ok(LineView { tokens, line }),
            Err(e) => Err(e),
        };
        seq![item] + spec_tokenize(src, g.1, g.2)
    }
}

#[via_fn]
proof fn check_tokenize_decreases(src: Seq<u8>, pos: int, line: int) {
    lemma_get_line_progress(src, pos, line);
}

/// Whether a byte is an ASCII hexadecimal digit.
pub open spec fn spec_is_hex_digit(b: u8) -> bool {
    hex_digit_val(b) >= 0
}

/// Whether a byte is an ASCII hexadecimal digit.
fn is_hex_digit_byte(b: u8) -> (r: bool)
    ensures
        r == spec_is_hex_digit(b),
{
    (48 <= b && b <= 57) || (97 <= b && b <= 102) || (65 <= b && b <= 70)
}

} // verus!
