//! The scanner: a cursor over an ASCII buffer that produces one token per
//! call to [`Lexer::next_token`].

pub mod token;

use vstd::prelude::*;
use vstd::utf8::is_ascii_chars;
use vstd::string::StrSliceExecFns;
use crate::lexer::token::{Token, TokenModel, word_token, number_token, digits_val};

verus! {

/// The code of the character at position `p`, or 0 out of bounds.  For an
/// ASCII buffer the cast loses nothing.  A `'\0'` inside the buffer also has
/// code 0; whether a position is past the end is always decided by `p`
/// against the length, never by the code.
pub open spec fn char_code(input: Seq<char>, p: int) -> u8 {
    if 0 <= p < input.len() {
        input[p] as u8
    } else {
        0
    }
}

/// Space, tab, line feed or carriage return.
pub open spec fn is_ws_code(c: u8) -> bool {
    c == 32 || c == 9 || c == 10 || c == 13
}

/// An ASCII letter or underscore: the characters an identifier is made of.
pub open spec fn is_letter_code(c: u8) -> bool {
    (97 <= c && c <= 122) || (65 <= c && c <= 90) || c == 95
}

/// An ASCII decimal digit.
pub open spec fn is_digit_code(c: u8) -> bool {
    48 <= c && c <= 57
}

/// The first position at or after `p` that holds no whitespace character,
/// capped at the end of the buffer.
pub open spec fn skip_ws(input: Seq<char>, p: int) -> int
    decreases input.len() - p,
{
    if 0 <= p < input.len() && is_ws_code(input[p] as u8) {
        skip_ws(input, p + 1)
    } else {
        p
    }
}

/// The end of the maximal run of identifier characters starting at `p`.
pub open spec fn ident_end(input: Seq<char>, p: int) -> int
    decreases input.len() - p,
{
    if 0 <= p < input.len() && is_letter_code(input[p] as u8) {
        ident_end(input, p + 1)
    } else {
        p
    }
}

/// The end of the maximal run of digit characters starting at `p`.
pub open spec fn number_end(input: Seq<char>, p: int) -> int
    decreases input.len() - p,
{
    if 0 <= p < input.len() && is_digit_code(input[p] as u8) {
        number_end(input, p + 1)
    } else {
        p
    }
}

/// The token whose lexeme starts at `q`, a position already past any
/// whitespace.  At or past the end of the buffer it is end-of-input; inside
/// it, the codes tested are `=` (61), `!` (33) and the single-character
/// operators and delimiters, and any other character — `'\0'` among them —
/// starts no token and is illegal.
pub open spec fn token_model(input: Seq<char>, q: int) -> TokenModel {
    let c = char_code(input, q);
    if q >= input.len() {
        TokenModel::Eof
    } else if is_letter_code(c) {
        word_token(input.subrange(q, ident_end(input, q)))
    } else if is_digit_code(c) {
        number_token(input.subrange(q, number_end(input, q)))
    } else if c == 61 {
        if char_code(input, q + 1) == 61 {
            TokenModel::Equal
        } else {
            TokenModel::Assign
        }
    } else if c == 33 {
        if char_code(input, q + 1) == 61 {
            TokenModel::NotEqual
        } else {
            TokenModel::Bang
        }
    } else if c == 43 {
        TokenModel::Plus
    } else if c == 45 {
        TokenModel::Minus
    } else if c == 42 {
        TokenModel::Asterisk
    } else if c == 47 {
        TokenModel::Slash
    } else if c == 60 {
        TokenModel::LessThan
    } else if c == 62 {
        TokenModel::GreaterThan
    } else if c == 44 {
        TokenModel::Comma
    } else if c == 59 {
        TokenModel::Semicolon
    } else if c == 40 {
        TokenModel::Lparen
    } else if c == 41 {
        TokenModel::Rparen
    } else if c == 123 {
        TokenModel::Lbrace
    } else if c == 125 {
        TokenModel::Rbrace
    } else {
        TokenModel::Illegal
    }
}

/// The cursor position after the lexeme that starts at `q`, a position
/// already past any whitespace.  At the end of the buffer the cursor stays
/// where it is; everywhere else it moves strictly forward.
pub open spec fn token_end(input: Seq<char>, q: int) -> int {
    let c = char_code(input, q);
    if q >= input.len() {
        q
    } else if is_letter_code(c) {
        ident_end(input, q)
    } else if is_digit_code(c) {
        number_end(input, q)
    } else if (c == 61 || c == 33) && char_code(input, q + 1) == 61 {
        q + 2
    } else {
        q + 1
    }
}

/// The token a call to `next_token` returns when the cursor stands at `p`.
pub open spec fn next_token_model(input: Seq<char>, p: int) -> TokenModel {
    token_model(input, skip_ws(input, p))
}

/// The cursor position after a call to `next_token` made with the cursor at
/// `p`.
pub open spec fn next_token_end(input: Seq<char>, p: int) -> int {
    token_end(input, skip_ws(input, p))
}

/// Whitespace transparency: a call passes over exactly the whitespace before
/// the token it returns — every character skipped is whitespace, and the
/// character the lexeme starts at, if any, is not.
pub proof fn lemma_skip_ws_exact(input: Seq<char>, p: int)
    requires
        0 <= p <= input.len(),
    ensures
        p <= skip_ws(input, p) <= input.len(),
        forall|i: int| p <= i < skip_ws(input, p) ==> is_ws_code(#[trigger] char_code(input, i)),
        skip_ws(input, p) == input.len() || !is_ws_code(
            char_code(input, skip_ws(input, p)),
        ),
    decreases input.len() - p,
{
    if p < input.len() && is_ws_code(input[p] as u8) {
        lemma_skip_ws_exact(input, p + 1);
    }
}

/// Maximal munch for identifiers: the lexeme runs to the first character
/// that is no identifier character, never shorter — so a keyword is never
/// read out of the front of a longer word.
pub proof fn lemma_ident_run_maximal(input: Seq<char>, p: int)
    requires
        0 <= p <= input.len(),
    ensures
        p <= ident_end(input, p) <= input.len(),
        forall|i: int|
            p <= i < ident_end(input, p) ==> is_letter_code(#[trigger] char_code(input, i)),
        ident_end(input, p) == input.len() || !is_letter_code(
            char_code(input, ident_end(input, p)),
        ),
    decreases input.len() - p,
{
    if p < input.len() && is_letter_code(input[p] as u8) {
        lemma_ident_run_maximal(input, p + 1);
    }
}

/// Maximal munch for integer literals: the lexeme runs to the first
/// character that is no digit, never shorter.
pub proof fn lemma_number_run_maximal(input: Seq<char>, p: int)
    requires
        0 <= p <= input.len(),
    ensures
        p <= number_end(input, p) <= input.len(),
        forall|i: int|
            p <= i < number_end(input, p) ==> is_digit_code(#[trigger] char_code(input, i)),
        number_end(input, p) == input.len() || !is_digit_code(
            char_code(input, number_end(input, p)),
        ),
    decreases input.len() - p,
{
    if p < input.len() && is_digit_code(input[p] as u8) {
        lemma_number_run_maximal(input, p + 1);
    }
}

/// Progress: a call never moves the cursor backwards or out of the buffer,
/// and every token but end-of-input moves it strictly forward.
pub proof fn lemma_next_token_progress(input: Seq<char>, p: int)
    requires
        0 <= p <= input.len(),
    ensures
        p <= next_token_end(input, p) <= input.len(),
        next_token_model(input, p) != TokenModel::Eof ==> p < next_token_end(input, p),
{
    lemma_skip_ws_exact(input, p);
    let q = skip_ws(input, p);
    let c = char_code(input, q);
    if is_letter_code(c) {
        lemma_ident_run_maximal(input, q + 1);
    } else if is_digit_code(c) {
        lemma_number_run_maximal(input, q + 1);
    }
}

/// Idempotent terminal state: with the cursor at the end of the buffer a
/// call returns the end-of-input token and leaves the cursor where it is.
pub proof fn lemma_eof_stable(input: Seq<char>, p: int)
    requires
        input.len() <= p,
    ensures
        next_token_model(input, p) == TokenModel::Eof,
        next_token_end(input, p) == p,
{
}

/// The end-of-input token appears exactly when the cursor runs out to the
/// end of the buffer, where it is stable by [`lemma_eof_stable`]; no
/// character of the buffer — `'\0'` included — is read as end of input.
pub proof fn lemma_eof_only_at_end(input: Seq<char>, p: int)
    requires
        0 <= p <= input.len(),
    ensures
        next_token_model(input, p) == TokenModel::Eof <==> skip_ws(input, p) == input.len(),
        next_token_model(input, p) == TokenModel::Eof ==> next_token_end(input, p)
            == input.len(),
{
    lemma_skip_ws_exact(input, p);
}

/// The whole stream of tokens read from position `p`: one token after the
/// other, up to and including the first end-of-input token.
pub open spec fn token_seq(input: Seq<char>, p: int) -> Seq<TokenModel>
    decreases input.len() - p
        when 0 <= p <= input.len()
        via token_seq_decreases
{
    let t = next_token_model(input, p);
    if t == TokenModel::Eof {
        seq![t]
    } else {
        seq![t] + token_seq(input, next_token_end(input, p))
    }
}

#[via_fn]
proof fn token_seq_decreases(input: Seq<char>, p: int) {
    lemma_next_token_progress(input, p);
}

/// Totality: from any position the scanner produces a finite stream of
/// tokens that ends in exactly one end-of-input token.
pub proof fn lemma_token_seq_total(input: Seq<char>, p: int)
    requires
        0 <= p <= input.len(),
    ensures
        token_seq(input, p).len() >= 1,
        token_seq(input, p).last() == TokenModel::Eof,
        forall|i: int|
            0 <= i < token_seq(input, p).len() - 1 ==> token_seq(input, p)[i]
                != TokenModel::Eof,
    decreases input.len() - p,
{
    let t = next_token_model(input, p);
    if t != TokenModel::Eof {
        lemma_next_token_progress(input, p);
        lemma_token_seq_total(input, next_token_end(input, p));
    }
}

/// The scanner.  It holds a read-only view of the buffer it was built over
/// and a cursor into it; each call to [`Lexer::next_token`] returns the
/// token at the cursor and advances past it.
pub struct Lexer<'a> {
    /// The scanned buffer.
    pub input: &'a str,
    /// Its length in characters, equal to its length in bytes: the buffer is
    /// ASCII.
    pub len: usize,
    /// The position of the current character.
    pub position: usize,
    /// The position of the lookahead character, always one past the current
    /// one.
    pub next_position: usize,
    /// The current character's code, or 0 with the cursor at the end of the
    /// buffer.
    pub ch: u8,
}

impl<'a> Lexer<'a> {
    /// The cursor fields agree with the buffer: the cursor never leaves it
    /// further than its end, the lookahead stands one past the current
    /// character, and `ch` holds the current character's code — 0 at the
    /// end.
    pub open spec fn cursor_ok(self) -> bool {
        &&& self.position <= self.len
        &&& self.next_position == self.position + 1
        &&& self.ch == char_code(self.input@, self.position as int)
    }

    /// Well-formedness: the buffer is ASCII and leaves the lookahead
    /// position representable, `len` caches its length, and the cursor is
    /// consistent with it.
    pub open spec fn wf(self) -> bool {
        &&& is_ascii_chars(self.input@)
        &&& self.len == self.input@.len()
        &&& self.len < usize::MAX
        &&& self.cursor_ok()
    }

    /// Builds a scanner over `input` with the cursor on its first character.
    pub fn new(input: &'a str) -> (l: Lexer<'a>)
        requires
            input.is_ascii(),
            input@.len() < usize::MAX,
        ensures
            l.wf(),
            l.input@ == input@,
            l.position == 0,
    {
        let len = input.unicode_len();
        let mut l = Lexer {
            input,
            len,
            position: 0,
            next_position: 0,
            ch: 0,
        };
        l.read_char();
        l
    }

    /// Moves the cursor to the lookahead position and loads the character
    /// there, or the sentinel 0 at the end of the buffer.
    fn read_char(&mut self)
        requires
            is_ascii_chars(old(self).input@),
            old(self).len == old(self).input@.len(),
            old(self).len < usize::MAX,
            old(self).next_position <= old(self).len,
        ensures
            final(self).input == old(self).input,
            final(self).len == old(self).len,
            final(self).position == old(self).next_position,
            final(self).cursor_ok(),
    {
        if self.next_position < self.len {
            self.ch = self.input.get_ascii(self.next_position);
        } else {
            self.ch = 0;
        }
        self.position = self.next_position;
        self.next_position = self.next_position + 1;
    }

    /// Advances the cursor past spaces, tabs, line feeds and carriage
    /// returns, emitting nothing for them.
    fn skip_whitespace(&mut self)
        requires
            old(self).wf(),
        ensures
            final(self).wf(),
            final(self).input == old(self).input,
            final(self).len == old(self).len,
            final(self).position as int == skip_ws(old(self).input@, old(self).position as int),
    {
        while self.ch == 32 || self.ch == 9 || self.ch == 10 || self.ch == 13
            invariant
                self.wf(),
                self.input == old(self).input,
                self.len == old(self).len,
                skip_ws(self.input@, self.position as int) == skip_ws(
                    old(self).input@,
                    old(self).position as int,
                ),
            decreases self.len - self.position,
        {
            self.read_char();
        }
    }

    /// Returns the code of the lookahead character without consuming the
    /// current one, or the sentinel 0 when no character follows.
    fn peek(&self) -> (c: u8)
        requires
            self.wf(),
        ensures
            c == char_code(self.input@, self.next_position as int),
    {
        if self.next_position < self.len {
            self.input.get_ascii(self.next_position)
        } else {
            0
        }
    }

    /// Consumes the maximal run of identifier characters at the cursor and
    /// classifies it: a keyword or boolean literal on an exact match, an
    /// identifier otherwise.
    fn read_identifier(&mut self) -> (t: Token)
        requires
            old(self).wf(),
            is_letter_code(char_code(old(self).input@, old(self).position as int)),
        ensures
            final(self).wf(),
            final(self).input == old(self).input,
            final(self).len == old(self).len,
            final(self).position as int == ident_end(old(self).input@, old(self).position as int),
            t@ == word_token(
                old(self).input@.subrange(
                    old(self).position as int,
                    final(self).position as int,
                ),
            ),
    {
        let position = self.position;
        while is_letter(self.ch)
            invariant
                self.wf(),
                self.input == old(self).input,
                self.len == old(self).len,
                position <= self.position,
                ident_end(self.input@, position as int) == ident_end(
                    self.input@,
                    self.position as int,
                ),
            decreases self.len - self.position,
        {
            self.read_char();
        }
        let literal = self.input.substring_ascii(position, self.position);
        let word = literal.to_owned();
        if word == "fn".to_owned() {
            Token::Func
        } else if word == "let".to_owned() {
            Token::Let
        } else if word == "true".to_owned() {
            Token::Bool(true)
        } else if word == "false".to_owned() {
            Token::Bool(false)
        } else if word == "if".to_owned() {
            Token::If
        } else if word == "else".to_owned() {
            Token::Else
        } else if word == "return".to_owned() {
            Token::Return
        } else {
            Token::Ident(word)
        }
    }

    /// Returns the next token and advances the cursor past it.
    ///
    /// Whitespace before the token is skipped and yields no token.  At the
    /// end of the buffer the call returns the end-of-input token without
    /// advancing further, so every later call returns it again.  A character
    /// that starts no token yields the illegal token and advances the cursor
    /// by one, so a call always makes progress elsewhere.
    pub fn next_token(&mut self) -> (t: Token)
        requires
            old(self).wf(),
        ensures
            final(self).wf(),
            final(self).input == old(self).input,
            final(self).len == old(self).len,
            t@ == next_token_model(old(self).input@, old(self).position as int),
            final(self).position as int == next_token_end(
                old(self).input@,
                old(self).position as int,
            ),
    {
        self.skip_whitespace();
        if self.position >= self.len {
            return Token::Eof;
        }
        let c = self.ch;
        if is_letter(c) {
            return self.read_identifier();
        }
        if is_digit(c) {
            return self.read_number();
        }
        let tok = if c == 61 {
            if self.peek() == 61 {
                self.read_char();
                Token::Equal
            } else {
                Token::Assign
            }
        } else if c == 33 {
            if self.peek() == 61 {
                self.read_char();
                Token::NotEqual
            } else {
                Token::Bang
            }
        } else if c == 43 {
            Token::Plus
        } else if c == 45 {
            Token::Minus
        } else if c == 42 {
            Token::Asterisk
        } else if c == 47 {
            Token::Slash
        } else if c == 60 {
            Token::LessThan
        } else if c == 62 {
            Token::GreaterThan
        } else if c == 44 {
            Token::Comma
        } else if c == 59 {
            Token::Semicolon
        } else if c == 40 {
            Token::Lparen
        } else if c == 41 {
            Token::Rparen
        } else if c == 123 {
            Token::Lbrace
        } else if c == 125 {
            Token::Rbrace
        } else {
            Token::Illegal
        };
        self.read_char();
        tok
    }

    /// Consumes the maximal run of digit characters at the cursor and parses
    /// it as a signed 64-bit integer; a value out of range yields the illegal
    /// token.
    fn read_number(&mut self) -> (t: Token)
        requires
            old(self).wf(),
            is_digit_code(char_code(old(self).input@, old(self).position as int)),
        ensures
            final(self).wf(),
            final(self).input == old(self).input,
            final(self).len == old(self).len,
            final(self).position as int == number_end(old(self).input@, old(self).position as int),
            t@ == number_token(
                old(self).input@.subrange(
                    old(self).position as int,
                    final(self).position as int,
                ),
            ),
    {
        let ghost input = self.input@;
        let position = self.position;
        let mut value: i64 = 0;
        let mut fits: bool = true;
        proof {
            assert(input.subrange(position as int, position as int) =~= Seq::<char>::empty());
        }
        while is_digit(self.ch)
            invariant
                self.wf(),
                self.input == old(self).input,
                self.input@ == input,
                self.len == old(self).len,
                position <= self.position,
                number_end(input, position as int) == number_end(input, self.position as int),
                0 <= value,
                fits ==> value == digits_val(
                    input.subrange(position as int, self.position as int),
                ),
                !fits ==> digits_val(input.subrange(position as int, self.position as int))
                    > i64::MAX,
            decreases self.len - self.position,
        {
            let d = (self.ch - 48) as i64;
            let ghost pre = input.subrange(position as int, self.position as int);
            let ghost ext = input.subrange(position as int, self.position as int + 1);
            proof {
                assert(ext.drop_last() =~= pre);
            }
            // value * 10 + d stays representable exactly when value is below
            // i64::MAX / 10, or equal to it with d at most i64::MAX % 10.
            if fits && (value < 922_337_203_685_477_580i64 || (value == 922_337_203_685_477_580i64
                && d <= 7)) {
                value = value * 10 + d;
            } else {
                fits = false;
            }
            self.read_char();
        }
        if fits {
            Token::Int(value)
        } else {
            Token::Illegal
        }
    }
}

/// Scans a whole buffer: the stream of its tokens, up to and including the
/// first end-of-input token.
pub fn tokenize(input: &str) -> (tokens: Vec<Token>)
    requires
        input.is_ascii(),
        input@.len() < usize::MAX,
    ensures
        tokens@.map_values(|t: Token| t@) == token_seq(input@, 0),
{
    let mut l = Lexer::new(input);
    let mut tokens: Vec<Token> = Vec::new();
    loop
        invariant
            l.wf(),
            l.input@ == input@,
            token_seq(input@, 0) == tokens@.map_values(|t: Token| t@) + token_seq(
                input@,
                l.position as int,
            ),
        decreases l.len - l.position,
    {
        let ghost p0 = l.position as int;
        let ghost prefix = tokens@.map_values(|t: Token| t@);
        let t = l.next_token();
        let done = matches!(t, Token::Eof);
        proof {
            lemma_next_token_progress(input@, p0);
        }
        tokens.push(t);
        proof {
            assert(tokens@.map_values(|t: Token| t@) =~= prefix.push(t@));
        }
        if done {
            proof {
                assert(token_seq(input@, 0) =~= tokens@.map_values(|t: Token| t@));
            }
            return tokens;
        }
    }
}

/// An ASCII letter or underscore: the characters an identifier is made of.
fn is_letter(ch: u8) -> (r: bool)
    ensures
        r == is_letter_code(ch),
{
    (97 <= ch && ch <= 122) || (65 <= ch && ch <= 90) || ch == 95
}

/// An ASCII decimal digit.
fn is_digit(ch: u8) -> (r: bool)
    ensures
        r == is_digit_code(ch),
{
    48 <= ch && ch <= 57
}

} // verus!
