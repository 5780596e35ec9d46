//! The token type produced by the scanner, its mathematical model, and the
//! classification of scanned lexemes (keyword lookup, integer-literal value).

use vstd::prelude::*;

verus! {

/// One lexical token.  A token is fully self-describing: identifier and
/// literal tokens own their payload, so no token borrows from the scanned
/// buffer.
#[derive(Debug, Clone, PartialEq, Eq)]
pub enum Token {
    /// A byte sequence that forms no token, or an integer literal out of range.
    Illegal,
    /// End of input.  Once reached, the scanner keeps returning it.
    Eof,
    /// An identifier, carrying its text verbatim.
    Ident(String),
    /// An integer literal.
    Int(i64),
    /// A boolean literal, `true` or `false`.
    Bool(bool),
    /// The keyword `fn`.
    Func,
    /// The keyword `let`.
    Let,
    /// The keyword `if`.
    If,
    /// The keyword `else`.
    Else,
    /// The keyword `return`.
    Return,
    /// `=`
    Assign,
    /// `==`
    Equal,
    /// `!=`
    NotEqual,
    /// `!`
    Bang,
    /// `+`
    Plus,
    /// `-`
    Minus,
    /// `*`
    Asterisk,
    /// `/`
    Slash,
    /// `<`
    LessThan,
    /// `>`
    GreaterThan,
    /// `,`
    Comma,
    /// `;`
    Semicolon,
    /// `(`
    Lparen,
    /// `)`
    Rparen,
    /// `{`
    Lbrace,
    /// `}`
    Rbrace,
}

/// The mathematical model of a [`Token`]: the same tagged value, with the
/// identifier text as a sequence of characters and the integer value
/// unbounded.  Contracts speak of this type.
pub enum TokenModel {
    Illegal,
    Eof,
    Ident(Seq<char>),
    Int(int),
    Bool(bool),
    Func,
    Let,
    If,
    Else,
    Return,
    Assign,
    Equal,
    NotEqual,
    Bang,
    Plus,
    Minus,
    Asterisk,
    Slash,
    LessThan,
    GreaterThan,
    Comma,
    Semicolon,
    Lparen,
    Rparen,
    Lbrace,
    Rbrace,
}

impl View for Token {
    type V = TokenModel;

    open spec fn view(&self) -> TokenModel {
        match self {
            Token::Illegal => TokenModel::Illegal,
            Token::Eof => TokenModel::Eof,
            Token::Ident(s) => TokenModel::Ident(s@),
            Token::Int(n) => TokenModel::Int(*n as int),
            Token::Bool(b) => TokenModel::Bool(*b),
            Token::Func => TokenModel::Func,
            Token::Let => TokenModel::Let,
            Token::If => TokenModel::If,
            Token::Else => TokenModel::Else,
            Token::Return => TokenModel::Return,
            Token::Assign => TokenModel::Assign,
            Token::Equal => TokenModel::Equal,
            Token::NotEqual => TokenModel::NotEqual,
            Token::Bang => TokenModel::Bang,
            Token::Plus => TokenModel::Plus,
            Token::Minus => TokenModel::Minus,
            Token::Asterisk => TokenModel::Asterisk,
            Token::Slash => TokenModel::Slash,
            Token::LessThan => TokenModel::LessThan,
            Token::GreaterThan => TokenModel::GreaterThan,
            Token::Comma => TokenModel::Comma,
            Token::Semicolon => TokenModel::Semicolon,
            Token::Lparen => TokenModel::Lparen,
            Token::Rparen => TokenModel::Rparen,
            Token::Lbrace => TokenModel::Lbrace,
            Token::Rbrace => TokenModel::Rbrace,
        }
    }
}

/// The token that a scanned word (a maximal run of letters and underscores)
/// denotes: one of the fixed keywords on an exact, case-sensitive match, and
/// an identifier carrying the text verbatim otherwise.
pub open spec fn word_token(s: Seq<char>) -> TokenModel {
    if s == "fn"@ {
        TokenModel::Func
    } else if s == "let"@ {
        TokenModel::Let
    } else if s == "true"@ {
        TokenModel::Bool(true)
    } else if s == "false"@ {
        TokenModel::Bool(false)
    } else if s == "if"@ {
        TokenModel::If
    } else if s == "else"@ {
        TokenModel::Else
    } else if s == "return"@ {
        TokenModel::Return
    } else {
        TokenModel::Ident(s)
    }
}

/// The value of a run of decimal digit characters, read most significant
/// first.  The empty run has value zero.
pub open spec fn digits_val(s: Seq<char>) -> int
    decreases s.len(),
{
    if s.len() == 0 {
        0
    } else {
        digits_val(s.drop_last()) * 10 + (s.last() as u8 - 48)
    }
}

/// The token that a scanned run of digits denotes: its value when that value
/// is representable as a 64-bit signed integer, and the illegal token on
/// overflow.
pub open spec fn number_token(s: Seq<char>) -> TokenModel {
    if digits_val(s) <= i64::MAX {
        TokenModel::Int(digits_val(s))
    } else {
        TokenModel::Illegal
    }
}

/// Ten to the power `n`.
pub open spec fn pow10(n: nat) -> int
    decreases n,
{
    if n == 0 {
        1
    } else {
        10 * pow10((n - 1) as nat)
    }
}

proof fn lemma_pow10_increases(a: nat, b: nat)
    requires
        a <= b,
    ensures
        1 <= pow10(a) <= pow10(b),
    decreases b,
{
    if a < b {
        lemma_pow10_increases(a, (b - 1) as nat);
    } else if 0 < b {
        lemma_pow10_increases((a - 1) as nat, (b - 1) as nat);
    }
}

proof fn lemma_digits_val_lower(s: Seq<char>)
    requires
        1 <= s.len(),
        forall|i: int| 0 <= i < s.len() ==> '0' <= #[trigger] s[i] <= '9',
        s[0] != '0',
    ensures
        digits_val(s) >= pow10((s.len() - 1) as nat),
    decreases s.len(),
{
    if s.len() == 1 {
        assert(s.drop_last() =~= Seq::<char>::empty());
    } else {
        lemma_digits_val_lower(s.drop_last());
        lemma_pow10_increases(0, (s.len() - 2) as nat);
        let prefix_val = digits_val(s.drop_last());
        let prefix_pow = pow10((s.len() - 2) as nat);
        assert(48 <= s.last() as u8 <= 57);
        assert(prefix_val * 10 >= prefix_pow * 10) by (nonlinear_arith)
            requires
                prefix_val >= prefix_pow,
        ;
    }
}

/// On overflow the scanner flags, never wraps: a run of digits longer than
/// any value of the 64-bit range can have, with no leading zero, denotes the
/// illegal token.
pub proof fn lemma_long_number_illegal(s: Seq<char>)
    requires
        20 <= s.len(),
        forall|i: int| 0 <= i < s.len() ==> '0' <= #[trigger] s[i] <= '9',
        s[0] != '0',
    ensures
        number_token(s) == TokenModel::Illegal,
{
    lemma_digits_val_lower(s);
    lemma_pow10_increases(19, (s.len() - 1) as nat);
    assert(pow10(19) == 10_000_000_000_000_000_000) by {
        reveal_with_fuel(pow10, 20);
    }
}

} // verus!
