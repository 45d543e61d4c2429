//! The scanner: converts a source string into a sequential, on-demand
//! stream of tokens. It works byte by byte with a one-character lookahead,
//! skips whitespace before each token, and never backtracks.

use vstd::prelude::*;
use vstd::string::*;

use crate::render::push_char;
use crate::token::Token;
use crate::token::TokenS;

verus! {

/// An ASCII letter or underscore: the characters identifiers are made of.
pub open spec fn is_letter_byte(b: u8) -> bool {
    (97 <= b <= 122) || (65 <= b <= 90) || b == 95
}

/// An ASCII decimal digit.
pub open spec fn is_digit_byte(b: u8) -> bool {
    48 <= b <= 57
}

/// Space, tab, newline or carriage return.
pub open spec fn is_ws_byte(b: u8) -> bool {
    b == 32 || b == 9 || b == 10 || b == 13
}

/// The byte at a position, with 0 standing for the end of the input.
pub open spec fn byte_at(input: Seq<u8>, i: int) -> u8 {
    if 0 <= i < input.len() {
        input[i]
    } else {
        0
    }
}

/// The first position at or after `i` that holds no whitespace.
pub open spec fn skip_ws(input: Seq<u8>, i: int) -> int
    decreases input.len() - i,
{
    if 0 <= i < input.len() && is_ws_byte(input[i]) {
        skip_ws(input, i + 1)
    } else {
        i
    }
}

/// The end of the maximal letter run starting at `i`.
pub open spec fn word_end(input: Seq<u8>, i: int) -> int
    decreases input.len() - i,
{
    if 0 <= i < input.len() && is_letter_byte(input[i]) {
        word_end(input, i + 1)
    } else {
        i
    }
}

/// The end of the maximal digit run starting at `i`.
pub open spec fn digit_end(input: Seq<u8>, i: int) -> int
    decreases input.len() - i,
{
    if 0 <= i < input.len() && is_digit_byte(input[i]) {
        digit_end(input, i + 1)
    } else {
        i
    }
}

/// The value of the decimal digits in `input[i..j)`.
pub open spec fn digits_val(input: Seq<u8>, i: int, j: int) -> int
    decreases j - i,
{
    if i < j {
        digits_val(input, i, j - 1) * 10 + (input[j - 1] - 48)
    } else {
        0
    }
}

/// ASCII bytes read as the characters with the same code points.
pub open spec fn bytes_to_chars(s: Seq<u8>) -> Seq<char> {
    s.map_values(|b: u8| b as char)
}

/// The token a maximal letter run produces: a reserved word where the text
/// matches one, a generic identifier carrying the exact text otherwise.
pub open spec fn keyword_or_ident(cs: Seq<char>) -> TokenS {
    if cs == "fn"@ {
        TokenS::Function
    } else if cs == "let"@ {
        TokenS::Let
    } else if cs == "true"@ {
        TokenS::Bool(true)
    } else if cs == "false"@ {
        TokenS::Bool(false)
    } else if cs == "if"@ {
        TokenS::If
    } else if cs == "else"@ {
        TokenS::Else
    } else if cs == "return"@ {
        TokenS::Return
    } else {
        TokenS::Ident(cs)
    }
}

/// The token a maximal digit run produces: its value as a 64-bit integer,
/// or the illegal token when the value does not fit.
pub open spec fn number_token(input: Seq<u8>, i: int, j: int) -> TokenS {
    if digits_val(input, i, j) <= i64::MAX {
        TokenS::Int(digits_val(input, i, j) as i64)
    } else {
        TokenS::Illegal
    }
}

/// One scanned token and the position just after it.
pub struct ScanR {
    pub tok: TokenS,
    pub end: int,
}

/// The token starting at position `i`, after skipping whitespace, and the
/// position after its last byte. A byte matching no rule yields an illegal
/// token and advances by one; at the end of the input the scan yields the
/// end-of-input token forever after.
pub open spec fn scan(input: Seq<u8>, i: int) -> ScanR {
    let p = skip_ws(input, i);
    if !(0 <= p < input.len()) {
        ScanR { tok: TokenS::Eof, end: input.len() as int }
    } else {
        let b = input[p];
        if b == 61 {  // '='
            if byte_at(input, p + 1) == 61 {
                ScanR { tok: TokenS::Equal, end: p + 2 }
            } else {
                ScanR { tok: TokenS::Assign, end: p + 1 }
            }
        } else if b == 33 {  // '!'
            if byte_at(input, p + 1) == 61 {
                ScanR { tok: TokenS::NotEqual, end: p + 2 }
            } else {
                ScanR { tok: TokenS::Bang, end: p + 1 }
            }
        } else if b == 60 {  // '<'
            if byte_at(input, p + 1) == 61 {
                ScanR { tok: TokenS::LessThanEqual, end: p + 2 }
            } else {
                ScanR { tok: TokenS::LessThan, end: p + 1 }
            }
        } else if b == 62 {  // '>'
            if byte_at(input, p + 1) == 61 {
                ScanR { tok: TokenS::GreaterThanEqual, end: p + 2 }
            } else {
                ScanR { tok: TokenS::GreaterThan, end: p + 1 }
            }
        } else if b == 43 {  // '+'
            ScanR { tok: TokenS::Plus, end: p + 1 }
        } else if b == 45 {  // '-'
            ScanR { tok: TokenS::Minus, end: p + 1 }
        } else if b == 47 {  // '/'
            ScanR { tok: TokenS::Slash, end: p + 1 }
        } else if b == 42 {  // '*'
            ScanR { tok: TokenS::Asterisk, end: p + 1 }
        } else if b == 59 {  // ';'
            ScanR { tok: TokenS::Semicolon, end: p + 1 }
        } else if b == 44 {  // ','
            ScanR { tok: TokenS::Comma, end: p + 1 }
        } else if b == 40 {  // '('
            ScanR { tok: TokenS::LParen, end: p + 1 }
        } else if b == 41 {  // ')'
            ScanR { tok: TokenS::RParen, end: p + 1 }
        } else if b == 123 {  // '{'
            ScanR { tok: TokenS::LBrace, end: p + 1 }
        } else if b == 125 {  // '}'
            ScanR { tok: TokenS::RBrace, end: p + 1 }
        } else if is_letter_byte(b) {
            let q = word_end(input, p);
            ScanR { tok: keyword_or_ident(bytes_to_chars(input.subrange(p, q))), end: q }
        } else if is_digit_byte(b) {
            let q = digit_end(input, p);
            ScanR { tok: number_token(input, p, q), end: q }
        } else {
            ScanR { tok: TokenS::Illegal, end: p + 1 }
        }
    }
}

/// The whole token stream from position `i` on, ending before the
/// end-of-input token.
pub open spec fn lex_tokens(input: Seq<u8>, i: int) -> Seq<TokenS>
    decreases input.len() - i,
{
    if !(0 <= i <= input.len()) {
        Seq::empty()
    } else {
        let s = scan(input, i);
        if s.tok == TokenS::Eof {
            Seq::empty()
        } else if i < s.end <= input.len() {
            seq![s.tok] + lex_tokens(input, s.end)
        } else {
            seq![s.tok]
        }
    }
}

/// Whitespace skipping lands between `i` and the end of the input.
pub proof fn lemma_skip_ws_bounds(input: Seq<u8>, i: int)
    requires
        0 <= i <= input.len(),
    ensures
        i <= skip_ws(input, i) <= input.len(),
    decreases input.len() - i,
{
    if i < input.len() && is_ws_byte(input[i]) {
        lemma_skip_ws_bounds(input, i + 1)
    }
}

/// A letter run ends between `i` and the end of the input.
pub proof fn lemma_word_end_bounds(input: Seq<u8>, i: int)
    requires
        0 <= i <= input.len(),
    ensures
        i <= word_end(input, i) <= input.len(),
        i < input.len() && is_letter_byte(input[i]) ==> i < word_end(input, i),
    decreases input.len() - i,
{
    if i < input.len() && is_letter_byte(input[i]) {
        lemma_word_end_bounds(input, i + 1)
    }
}

/// A digit run ends between `i` and the end of the input.
pub proof fn lemma_digit_end_bounds(input: Seq<u8>, i: int)
    requires
        0 <= i <= input.len(),
    ensures
        i <= digit_end(input, i) <= input.len(),
        i < input.len() && is_digit_byte(input[i]) ==> i < digit_end(input, i),
    decreases input.len() - i,
{
    if i < input.len() && is_digit_byte(input[i]) {
        lemma_digit_end_bounds(input, i + 1)
    }
}

/// A scan moves forward and never past the end; only the end-of-input token
/// can stand still.
pub proof fn lemma_scan_bounds(input: Seq<u8>, i: int)
    requires
        0 <= i <= input.len(),
    ensures
        i <= scan(input, i).end <= input.len(),
        scan(input, i).tok != TokenS::Eof ==> i < scan(input, i).end,
{
    lemma_skip_ws_bounds(input, i);
    let p = skip_ws(input, i);
    if 0 <= p < input.len() {
        lemma_word_end_bounds(input, p);
        lemma_digit_end_bounds(input, p);
    }
}

/// One unfolding step of the token stream.
pub proof fn lemma_lex_tokens_step(input: Seq<u8>, i: int)
    requires
        0 <= i <= input.len(),
    ensures
        scan(input, i).tok == TokenS::Eof ==> lex_tokens(input, i) == Seq::<TokenS>::empty(),
        scan(input, i).tok != TokenS::Eof ==> lex_tokens(input, i) == seq![scan(input, i).tok]
            + lex_tokens(input, scan(input, i).end),
{
    lemma_scan_bounds(input, i);
}

/// The scanner. It holds the input as bytes, a cursor to the current byte,
/// and the byte under examination (0 at the end of the input).
pub struct Lexer {
    bytes: Vec<u8>,
    /// current position in input (points to current byte)
    pos: usize,
    /// current byte under examination
    ch: u8,
}

/// The scanner's abstract state: the input bytes and the cursor.
pub struct LexerV {
    pub bytes: Seq<u8>,
    pub pos: int,
}

impl View for Lexer {
    type V = LexerV;

    closed spec fn view(&self) -> LexerV {
        LexerV { bytes: self.bytes@, pos: self.pos as int }
    }
}

impl Lexer {
    /// The cursor sits inside the input and the byte under examination is
    /// the one at the cursor.
    pub closed spec fn wf(&self) -> bool {
        self.pos <= self.bytes@.len() && self.ch == byte_at(self.bytes@, self.pos as int)
    }

    /// A well-formed scanner's cursor sits inside its input.
    pub proof fn lemma_wf_bounds(&self)
        requires
            self.wf(),
        ensures
            0 <= self@.pos <= self@.bytes.len(),
    {
    }

    /// A scanner over the bytes of `input`, with the cursor at the start.
    pub fn new(input: &str) -> (r: Lexer)
        ensures
            r.wf(),
            r@.bytes == input.spec_bytes(),
            r@.pos == 0,
    {
        let bytes = input.as_bytes_vec();
        let ch: u8 = if bytes.len() > 0 {
            bytes[0]
        } else {
            0
        };
        Lexer { bytes, pos: 0, ch }
    }

    /// Moves the cursor one byte forward, unless it is already at the end.
    fn read_char(&mut self)
        requires
            old(self).wf(),
        ensures
            final(self).wf(),
            final(self)@.bytes == old(self)@.bytes,
            final(self)@.pos == if old(self)@.pos < old(self)@.bytes.len() {
                old(self)@.pos + 1
            } else {
                old(self)@.pos
            },
    {
        if self.pos < self.bytes.len() {
            self.pos = self.pos + 1;
        }
        self.ch = if self.pos < self.bytes.len() {
            self.bytes[self.pos]
        } else {
            0
        };
    }

    /// The byte after the cursor, without moving: one character of
    /// lookahead, used to tell two-character operators from their
    /// one-character prefixes.
    fn peek_char(&self) -> (r: u8)
        requires
            self.wf(),
        ensures
            r == byte_at(self@.bytes, self@.pos + 1),
    {
        if self.pos < self.bytes.len() && self.pos + 1 < self.bytes.len() {
            self.bytes[self.pos + 1]
        } else {
            0
        }
    }

    /// Skips whitespace: afterwards the cursor sits on the first
    /// non-whitespace byte.
    fn skip_whitespace(&mut self)
        requires
            old(self).wf(),
        ensures
            final(self).wf(),
            final(self)@.bytes == old(self)@.bytes,
            final(self)@.pos == skip_ws(old(self)@.bytes, old(self)@.pos),
    {
        while self.ch == 32 || self.ch == 9 || self.ch == 10 || self.ch == 13
            invariant
                self.wf(),
                self@.bytes == old(self)@.bytes,
                skip_ws(self@.bytes, self@.pos) == skip_ws(old(self)@.bytes, old(self)@.pos),
            decreases self@.bytes.len() - self@.pos,
        {
            self.read_char();
        }
    }

    /// Scans a maximal letter run and produces the reserved word it names,
    /// or a generic identifier carrying the exact text.
    fn read_identifier(&mut self) -> (t: Token)
        requires
            old(self).wf(),
            is_letter_byte(byte_at(old(self)@.bytes, old(self)@.pos)),
        ensures
            final(self).wf(),
            final(self)@.bytes == old(self)@.bytes,
            final(self)@.pos == word_end(old(self)@.bytes, old(self)@.pos),
            t@ == keyword_or_ident(
                bytes_to_chars(
                    old(self)@.bytes.subrange(old(self)@.pos, final(self)@.pos),
                ),
            ),
    {
        let from = self.pos;
        while 97 <= self.ch && self.ch <= 122 || 65 <= self.ch && self.ch <= 90 || self.ch == 95
            invariant
                self.wf(),
                self@.bytes == old(self)@.bytes,
                from as int <= self@.pos <= self@.bytes.len(),
                word_end(self@.bytes, self@.pos) == word_end(old(self)@.bytes, old(self)@.pos),
            decreases self@.bytes.len() - self@.pos,
        {
            self.read_char();
        }
        let mut literal = String::new();
        let mut k = from;
        while k < self.pos
            invariant
                self.wf(),
                self@.bytes == old(self)@.bytes,
                from as int <= k as int <= self@.pos <= self@.bytes.len(),
                literal@ == bytes_to_chars(self@.bytes.subrange(from as int, k as int)),
            decreases self@.pos - k,
        {
            let b = self.bytes[k];
            push_char(&mut literal, b as char);
            k = k + 1;
            proof {
                assert(literal@ =~= bytes_to_chars(
                    self@.bytes.subrange(from as int, k as int),
                ));
            }
        }
        Self::keyword_token(literal)
    }

    /// The reserved-word token for a text, or a generic identifier.
    fn keyword_token(literal: String) -> (t: Token)
        ensures
            t@ == keyword_or_ident(literal@),
    {
        if literal.eq(&String::from_str("fn")) {
            Token::Function
        } else if literal.eq(&String::from_str("let")) {
            Token::Let
        } else if literal.eq(&String::from_str("true")) {
            Token::Bool(true)
        } else if literal.eq(&String::from_str("false")) {
            Token::Bool(false)
        } else if literal.eq(&String::from_str("if")) {
            Token::If
        } else if literal.eq(&String::from_str("else")) {
            Token::Else
        } else if literal.eq(&String::from_str("return")) {
            Token::Return
        } else {
            Token::Ident(literal)
        }
    }

    /// Scans a maximal digit run and parses it as a 64-bit integer; a run
    /// whose value does not fit yields an illegal token.
    fn read_number(&mut self) -> (t: Token)
        requires
            old(self).wf(),
            is_digit_byte(byte_at(old(self)@.bytes, old(self)@.pos)),
        ensures
            final(self).wf(),
            final(self)@.bytes == old(self)@.bytes,
            final(self)@.pos == digit_end(old(self)@.bytes, old(self)@.pos),
            t@ == number_token(old(self)@.bytes, old(self)@.pos, final(self)@.pos),
    {
        let from = self.pos;
        while is_number(self.ch)
            invariant
                self.wf(),
                self@.bytes == old(self)@.bytes,
                from as int <= self@.pos <= self@.bytes.len(),
                forall|j: int| from as int <= j < self@.pos ==> is_digit_byte(self@.bytes[j]),
                digit_end(self@.bytes, self@.pos) == digit_end(old(self)@.bytes, old(self)@.pos),
            decreases self@.bytes.len() - self@.pos,
        {
            self.read_char();
        }
        let mut val: u64 = 0;
        let mut over = false;
        let mut k = from;
        while k < self.pos
            invariant
                self.wf(),
                self@.bytes == old(self)@.bytes,
                from as int <= k as int <= self@.pos <= self@.bytes.len(),
                forall|j: int| from as int <= j < self@.pos ==> is_digit_byte(self@.bytes[j]),
                !over ==> val as int == digits_val(self@.bytes, from as int, k as int) && val
                    <= i64::MAX as u64,
                over ==> digits_val(self@.bytes, from as int, k as int) > i64::MAX,
            decreases self@.pos - k,
        {
            let d: u64 = (self.bytes[k] - 48) as u64;
            proof {
                assert(digits_val(self@.bytes, from as int, k + 1) == digits_val(
                    self@.bytes,
                    from as int,
                    k as int,
                ) * 10 + d);
            }
            if !over {
                if val <= (9223372036854775807u64 - d) / 10 {
                    val = val * 10 + d;
                } else {
                    over = true;
                    proof {
                        let m: int = 9223372036854775807 - d;
                        assert(10 * (m / 10) >= m - 9);
                        assert(val as int * 10 + d > i64::MAX);
                    }
                }
            } else {
                proof {
                    assert(digits_val(self@.bytes, from as int, k as int) * 10 + d > i64::MAX);
                }
            }
            k = k + 1;
        }
        if over {
            Token::Illegal
        } else {
            Token::Int(val as i64)
        }
    }

    /// Produces the next token and moves the cursor past it. Once the input
    /// is exhausted it returns the end-of-input token forever after.
    pub fn move_to_next_tok(&mut self) -> (t: Token)
        requires
            old(self).wf(),
        ensures
            final(self).wf(),
            final(self)@.bytes == old(self)@.bytes,
            t@ == scan(old(self)@.bytes, old(self)@.pos).tok,
            final(self)@.pos == scan(old(self)@.bytes, old(self)@.pos).end,
    {
        self.skip_whitespace();
        let tok: Token;
        if self.ch == 61 {
            if self.peek_char() == 61 {
                self.read_char();
                tok = Token::Equal;
            } else {
                tok = Token::Assign;
            }
        } else if self.ch == 33 {
            if self.peek_char() == 61 {
                self.read_char();
                tok = Token::NotEqual;
            } else {
                tok = Token::Bang;
            }
        } else if self.ch == 60 {
            if self.peek_char() == 61 {
                self.read_char();
                tok = Token::LessThanEqual;
            } else {
                tok = Token::LessThan;
            }
        } else if self.ch == 62 {
            if self.peek_char() == 61 {
                self.read_char();
                tok = Token::GreaterThanEqual;
            } else {
                tok = Token::GreaterThan;
            }
        } else if self.ch == 43 {
            tok = Token::Plus;
        } else if self.ch == 45 {
            tok = Token::Minus;
        } else if self.ch == 47 {
            tok = Token::Slash;
        } else if self.ch == 42 {
            tok = Token::Asterisk;
        } else if self.ch == 59 {
            tok = Token::Semicolon;
        } else if self.ch == 44 {
            tok = Token::Comma;
        } else if self.ch == 40 {
            tok = Token::LParen;
        } else if self.ch == 41 {
            tok = Token::RParen;
        } else if self.ch == 123 {
            tok = Token::LBrace;
        } else if self.ch == 125 {
            tok = Token::RBrace;
        } else if 97 <= self.ch && self.ch <= 122 || 65 <= self.ch && self.ch <= 90 || self.ch
            == 95 {
            return self.read_identifier();
        } else if 48 <= self.ch && self.ch <= 57 {
            return self.read_number();
        } else if self.pos >= self.bytes.len() {
            tok = Token::Eof;
        } else {
            tok = Token::Illegal;
        }
        self.read_char();
        tok
    }
}

/// Whether a byte is an ASCII decimal digit.
fn is_number(ch: u8) -> (r: bool)
    ensures
        r == is_digit_byte(ch),
{
    48 <= ch && ch <= 57
}

} // verus!
