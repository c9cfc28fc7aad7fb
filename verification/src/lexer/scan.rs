//! The mathematical model of scanning.
//!
//! [`scan_step`] says, for an input and a cursor position, which token the
//! scanner hands out next, what its exact text is, and where the cursor
//! stands afterwards.  The executable scanner is proved to follow it, and
//! the laws about single tokens (maximal munch, two-character lookahead,
//! keyword precedence) are proved from it here.

use crate::lexer::token::keyword_kind;
use crate::lexer::token::TokenType;
use vstd::prelude::*;

verus! {

/// Characters that may appear in an identifier: ASCII letters and the
/// underscore (digits are not identifier characters in this scanner).
pub open spec fn is_letter_char(c: char) -> bool {
    ('a' <= c && c <= 'z') || ('A' <= c && c <= 'Z') || c == '_'
}

/// ASCII digits, the only characters of an integer literal.
pub open spec fn is_digit_char(c: char) -> bool {
    '0' <= c && c <= '9'
}

/// The whitespace the scanner skips: space, tab, carriage return, newline.
pub open spec fn is_whitespace_char(c: char) -> bool {
    c == ' ' || c == '\t' || c == '\r' || c == '\n'
}

/// Position just past the maximal run of whitespace starting at `i`.
pub open spec fn whitespace_end(s: Seq<char>, i: int) -> int
    decreases s.len() - i,
{
    if 0 <= i < s.len() && is_whitespace_char(s[i]) {
        whitespace_end(s, i + 1)
    } else {
        i
    }
}

/// Position just past the maximal run of identifier characters starting at
/// `i`.
pub open spec fn letter_run_end(s: Seq<char>, i: int) -> int
    decreases s.len() - i,
{
    if 0 <= i < s.len() && is_letter_char(s[i]) {
        letter_run_end(s, i + 1)
    } else {
        i
    }
}

/// Position just past the maximal run of digits starting at `i`.
pub open spec fn digit_run_end(s: Seq<char>, i: int) -> int
    decreases s.len() - i,
{
    if 0 <= i < s.len() && is_digit_char(s[i]) {
        digit_run_end(s, i + 1)
    } else {
        i
    }
}

/// The outcome of scanning one token: its kind, its exact text, and the
/// cursor position just past it.
#[verifier::ext_equal]
pub struct ScanStep {
    pub kind: TokenType,
    pub literal: Seq<char>,
    pub end: int,
}

/// A token of a single character taken from position `i`.
pub open spec fn one_char_step(s: Seq<char>, i: int, kind: TokenType) -> ScanStep {
    ScanStep { kind, literal: s.subrange(i, i + 1), end: i + 1 }
}

/// A token of two characters taken from positions `i` and `i + 1`.
pub open spec fn two_char_step(s: Seq<char>, i: int, kind: TokenType) -> ScanStep {
    ScanStep { kind, literal: s.subrange(i, i + 2), end: i + 2 }
}

/// What one request for a token yields when the cursor stands at `pos` in
/// input `s`: skip whitespace, then classify with at most one character of
/// lookahead.  Once the cursor is past the remaining whitespace there is
/// nothing left, the answer is the end-of-input token with an empty text
/// and the cursor does not move past the input.
pub open spec fn scan_step(s: Seq<char>, pos: int) -> ScanStep
    recommends
        0 <= pos <= s.len(),
{
    let i = whitespace_end(s, pos);
    if i >= s.len() {
        ScanStep { kind: TokenType::Eof, literal: Seq::empty(), end: s.len() as int }
    } else if s[i] == '=' {
        if i + 1 < s.len() && s[i + 1] == '=' {
            two_char_step(s, i, TokenType::Eq)
        } else {
            one_char_step(s, i, TokenType::Assign)
        }
    } else if s[i] == ';' {
        one_char_step(s, i, TokenType::Semicolon)
    } else if s[i] == '+' {
        one_char_step(s, i, TokenType::Plus)
    } else if s[i] == ',' {
        one_char_step(s, i, TokenType::Comma)
    } else if s[i] == '(' {
        one_char_step(s, i, TokenType::LParen)
    } else if s[i] == ')' {
        one_char_step(s, i, TokenType::RParen)
    } else if s[i] == '{' {
        one_char_step(s, i, TokenType::LBrace)
    } else if s[i] == '}' {
        one_char_step(s, i, TokenType::RBrace)
    } else if s[i] == '!' {
        if i + 1 < s.len() && s[i + 1] == '=' {
            two_char_step(s, i, TokenType::Neq)
        } else {
            one_char_step(s, i, TokenType::Not)
        }
    } else if s[i] == '-' {
        one_char_step(s, i, TokenType::Minus)
    } else if s[i] == '>' {
        one_char_step(s, i, TokenType::Gt)
    } else if s[i] == '<' {
        one_char_step(s, i, TokenType::Lt)
    } else if s[i] == '*' {
        one_char_step(s, i, TokenType::Asterisk)
    } else if s[i] == '/' {
        one_char_step(s, i, TokenType::Slash)
    } else if is_letter_char(s[i]) {
        let j = letter_run_end(s, i);
        ScanStep { kind: keyword_kind(s.subrange(i, j)), literal: s.subrange(i, j), end: j }
    } else if is_digit_char(s[i]) {
        let j = digit_run_end(s, i);
        ScanStep { kind: TokenType::Int, literal: s.subrange(i, j), end: j }
    } else {
        one_char_step(s, i, TokenType::Illegal)
    }
}

/// What [`whitespace_end`] promises: it never moves backwards or past the
/// end, everything it skipped was whitespace, and it stops only at the end
/// of the input or at a non-whitespace character.
pub proof fn lemma_whitespace_end(s: Seq<char>, i: int)
    requires
        0 <= i <= s.len(),
    ensures
        i <= whitespace_end(s, i) <= s.len(),
        forall|k: int| i <= k < whitespace_end(s, i) ==> is_whitespace_char(s[k]),
        whitespace_end(s, i) == s.len() || !is_whitespace_char(s[whitespace_end(s, i)]),
    decreases s.len() - i,
{
    if i < s.len() && is_whitespace_char(s[i]) {
        lemma_whitespace_end(s, i + 1);
    }
}

/// What [`letter_run_end`] promises, including that the run is non-empty
/// whenever it starts on an identifier character.
pub proof fn lemma_letter_run_end(s: Seq<char>, i: int)
    requires
        0 <= i <= s.len(),
    ensures
        i <= letter_run_end(s, i) <= s.len(),
        i < s.len() && is_letter_char(s[i]) ==> i + 1 <= letter_run_end(s, i),
        forall|k: int| i <= k < letter_run_end(s, i) ==> is_letter_char(s[k]),
        letter_run_end(s, i) == s.len() || !is_letter_char(s[letter_run_end(s, i)]),
    decreases s.len() - i,
{
    if i < s.len() && is_letter_char(s[i]) {
        lemma_letter_run_end(s, i + 1);
    }
}

/// What [`digit_run_end`] promises, including that the run is non-empty
/// whenever it starts on a digit.
pub proof fn lemma_digit_run_end(s: Seq<char>, i: int)
    requires
        0 <= i <= s.len(),
    ensures
        i <= digit_run_end(s, i) <= s.len(),
        i < s.len() && is_digit_char(s[i]) ==> i + 1 <= digit_run_end(s, i),
        forall|k: int| i <= k < digit_run_end(s, i) ==> is_digit_char(s[k]),
        digit_run_end(s, i) == s.len() || !is_digit_char(s[digit_run_end(s, i)]),
    decreases s.len() - i,
{
    if i < s.len() && is_digit_char(s[i]) {
        lemma_digit_run_end(s, i + 1);
    }
}

/// Maximal munch for identifiers: when the first significant character is
/// identifier-class, the token's text is the whole contiguous
/// identifier-class run — every character of the run is identifier-class
/// and the run is delimited by the end of the input or by a character that
/// is not identifier-class, so the text is never a proper prefix.
pub proof fn lemma_maximal_munch(s: Seq<char>, pos: int)
    requires
        0 <= pos <= s.len(),
        whitespace_end(s, pos) < s.len(),
        is_letter_char(s[whitespace_end(s, pos)]),
    ensures
        ({
            let i = whitespace_end(s, pos);
            let st = scan_step(s, pos);
            &&& i < st.end <= s.len()
            &&& st.literal == s.subrange(i, st.end)
            &&& forall|k: int| i <= k < st.end ==> is_letter_char(s[k])
            &&& st.end == s.len() || !is_letter_char(s[st.end])
        }),
{
    lemma_whitespace_end(s, pos);
    lemma_letter_run_end(s, whitespace_end(s, pos));
}

/// Two-character lookahead: `"=="` is one equals token, never two assign
/// tokens, while `"="` followed by anything else (or by the end of the
/// input) is one assign token whose successor starts at the very next
/// character; likewise for `"!="` against `"!"`.
pub proof fn lemma_two_char_lookahead(s: Seq<char>, pos: int)
    requires
        0 <= pos <= s.len(),
        whitespace_end(s, pos) < s.len(),
    ensures
        ({
            let i = whitespace_end(s, pos);
            let st = scan_step(s, pos);
            &&& s[i] == '=' && i + 1 < s.len() && s[i + 1] == '=' ==> st == two_char_step(
                s,
                i,
                TokenType::Eq,
            )
            &&& s[i] == '=' && !(i + 1 < s.len() && s[i + 1] == '=') ==> st == one_char_step(
                s,
                i,
                TokenType::Assign,
            )
            &&& s[i] == '!' && i + 1 < s.len() && s[i + 1] == '=' ==> st == two_char_step(
                s,
                i,
                TokenType::Neq,
            )
            &&& s[i] == '!' && !(i + 1 < s.len() && s[i + 1] == '=') ==> st == one_char_step(
                s,
                i,
                TokenType::Not,
            )
        }),
{
}

/// Keyword precedence: an identifier-class token spelled exactly `"let"`
/// is always the `let` keyword, and one spelled `"lets"` is always a plain
/// identifier.
pub proof fn lemma_keyword_precedence(s: Seq<char>, pos: int)
    requires
        0 <= pos <= s.len(),
        whitespace_end(s, pos) < s.len(),
        is_letter_char(s[whitespace_end(s, pos)]),
    ensures
        scan_step(s, pos).literal == "let"@ ==> scan_step(s, pos).kind == TokenType::Let,
        scan_step(s, pos).literal == "lets"@ ==> scan_step(s, pos).kind == TokenType::Ident,
{
    reveal_strlit("fn");
    reveal_strlit("let");
    reveal_strlit("if");
    reveal_strlit("else");
    reveal_strlit("return");
    reveal_strlit("true");
    reveal_strlit("false");
    reveal_strlit("lets");
    lemma_whitespace_end(s, pos);
    // The keyword spellings all have distinct lengths, except that "lets"
    // differs from the equally long "else" and "true" in its first
    // character already.
    assert("fn"@.len() == 2 && "let"@.len() == 3 && "if"@.len() == 2 && "else"@.len() == 4
        && "return"@.len() == 6 && "true"@.len() == 4 && "false"@.len() == 5 && "lets"@.len()
        == 4);
    assert("lets"@[0] != "else"@[0]);
    assert("lets"@[0] != "true"@[0]);
    assert(keyword_kind("let"@) == TokenType::Let);
    assert(keyword_kind("lets"@) == TokenType::Ident);
}

/// Every request yields exactly one token; the cursor never moves backwards
/// or past the end, it strictly advances unless the token is end-of-input,
/// and end-of-input always carries an empty text with the cursor parked at
/// the end.
pub proof fn lemma_scan_step_progress(s: Seq<char>, pos: int)
    requires
        0 <= pos <= s.len(),
    ensures
        pos <= scan_step(s, pos).end <= s.len(),
        scan_step(s, pos).kind != TokenType::Eof ==> pos < scan_step(s, pos).end,
        scan_step(s, pos).kind == TokenType::Eof ==> scan_step(s, pos).end == s.len()
            && scan_step(s, pos).literal == Seq::<char>::empty(),
{
    lemma_whitespace_end(s, pos);
    let i = whitespace_end(s, pos);
    if i < s.len() {
        lemma_letter_run_end(s, i);
        lemma_digit_run_end(s, i);
    }
}

} // verus!
