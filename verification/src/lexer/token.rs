//! Token taxonomy and keyword table.

use vstd::prelude::*;

verus! {

/// The closed set of token kinds the scanner can produce.
#[derive(PartialEq, Eq, Structural, Debug, Clone, Copy)]
pub enum TokenType {
    Illegal,
    Eof,
    Ident,
    Int,
    Assign,
    Plus,
    Minus,
    Not,
    Asterisk,
    Slash,
    Lt,
    Gt,
    Eq,
    Neq,
    Comma,
    Semicolon,
    LParen,
    RParen,
    LBrace,
    RBrace,
    Function,
    Let,
    If,
    Else,
    True,
    False,
    Return,
}

/// One lexical unit: a kind together with the exact source text that
/// produced it (empty only for the end-of-input token).
pub struct Token<'a> {
    pub kind: TokenType,
    pub literal: &'a str,
}

/// The fixed keyword table: which spellings are reserved words rather than
/// identifiers.  Everything not listed here is an identifier.
pub open spec fn keyword_kind(lit: Seq<char>) -> TokenType {
    if lit == "fn"@ {
        TokenType::Function
    } else if lit == "let"@ {
        TokenType::Let
    } else if lit == "if"@ {
        TokenType::If
    } else if lit == "else"@ {
        TokenType::Else
    } else if lit == "return"@ {
        TokenType::Return
    } else if lit == "true"@ {
        TokenType::True
    } else if lit == "false"@ {
        TokenType::False
    } else {
        TokenType::Ident
    }
}

/// Character-by-character string comparison, so that keyword lookup can be
/// proved against [`keyword_kind`] exactly.
fn str_eq(a: &str, b: &str) -> (r: bool)
    ensures
        r == (a@ == b@),
{
    let a_len: usize = a.unicode_len();
    let b_len: usize = b.unicode_len();
    if a_len != b_len {
        return false;
    }
    let mut i: usize = 0;
    while i < a_len
        invariant
            i <= a_len,
            a_len == a@.len(),
            b_len == b@.len(),
            a_len == b_len,
            forall|k: int| 0 <= k < i ==> a@[k] == b@[k],
        decreases a_len - i,
    {
        if a.get_char(i) != b.get_char(i) {
            return false;
        }
        i = i + 1;
    }
    proof {
        assert(a@ =~= b@);
    }
    true
}

impl<'a> Token<'a> {
    /// Constructs a new token from its kind and source text.
    pub fn new(kind: TokenType, literal: &'a str) -> (t: Self)
        ensures
            t.kind == kind,
            t.literal == literal,
    {
        Self { kind, literal }
    }

    /// Classifies a scanned literal as a keyword or a plain identifier by an
    /// exact match against the keyword table.
    pub fn lookup_ident(literal: &str) -> (kind: TokenType)
        ensures
            kind == keyword_kind(literal@),
    {
        if str_eq(literal, "fn") {
            TokenType::Function
        } else if str_eq(literal, "let") {
            TokenType::Let
        } else if str_eq(literal, "if") {
            TokenType::If
        } else if str_eq(literal, "else") {
            TokenType::Else
        } else if str_eq(literal, "return") {
            TokenType::Return
        } else if str_eq(literal, "true") {
            TokenType::True
        } else if str_eq(literal, "false") {
            TokenType::False
        } else {
            TokenType::Ident
        }
    }
}

} // verus!
