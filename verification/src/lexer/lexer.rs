//! The executable scanner.
//!
//! [`Lexer`] owns the input text and a cursor; every call of
//! [`Lexer::next_token`] produces exactly one token and moves the cursor
//! past it, exactly as [`scan_step`] prescribes.

use crate::lexer::scan::digit_run_end;
use crate::lexer::scan::is_digit_char;
use crate::lexer::scan::is_letter_char;
use crate::lexer::scan::is_whitespace_char;
use crate::lexer::scan::lemma_whitespace_end;
use crate::lexer::scan::letter_run_end;
use crate::lexer::scan::scan_step;
use crate::lexer::scan::whitespace_end;
use crate::lexer::token::Token;
use crate::lexer::token::TokenType;
use vstd::prelude::*;
use vstd::string::StrSliceExecFns;

verus! {

/// Whether `c` may appear in an identifier.
fn is_letter(c: char) -> (r: bool)
    ensures
        r == is_letter_char(c),
{
    (c >= 'a' && c <= 'z') || (c >= 'A' && c <= 'Z') || c == '_'
}

/// Whether `c` is an ASCII digit.
fn is_digit(c: char) -> (r: bool)
    ensures
        r == is_digit_char(c),
{
    c >= '0' && c <= '9'
}

/// Whether `c` is whitespace the scanner skips.
fn is_whitespace(c: char) -> (r: bool)
    ensures
        r == is_whitespace_char(c),
{
    c == ' ' || c == '\t' || c == '\r' || c == '\n'
}

/// The scanner: it owns the source text for its whole lifetime and mutates
/// a cursor in place, one token per request.
pub struct Lexer<'a> {
    /// Input source code, immutable for the scanner's lifetime.
    input: &'a str,
    /// Number of characters in `input`, kept so cursor checks are cheap.
    len: usize,
    /// Position of the character currently under the cursor; stays at `len`
    /// once the whole input has been consumed (the exhausted state).
    current_pos: usize,
    /// Position that becomes current on the next advance.
    next_pos: usize,
    /// The character currently under the cursor, `None` when exhausted.
    ch: Option<char>,
}

impl<'a> Lexer<'a> {
    /// The input as a sequence of characters.
    pub closed spec fn src(self) -> Seq<char> {
        self.input@
    }

    /// The cursor: index of the character currently under examination, with
    /// the input length itself standing for the exhausted state.
    pub closed spec fn pos(self) -> int {
        self.current_pos as int
    }

    /// The cursor fields agree with each other and with the input: the
    /// cached length is right, the cursor never passes the end, the next
    /// position trails it by exactly one while scanning, and the cached
    /// character is the one under the cursor.
    pub closed spec fn wf(self) -> bool {
        &&& self.len == self.src().len()
        &&& 0 <= self.current_pos <= self.len
        &&& if self.current_pos < self.len {
            self.next_pos == self.current_pos + 1 && self.ch == Some(
                self.src()[self.current_pos as int],
            )
        } else {
            self.next_pos == self.len && self.ch is None
        }
    }

    /// Constructs a scanner over `input`, with the first character of the
    /// input (if any) already under the cursor.
    pub fn new(input: &'a str) -> (l: Self)
        ensures
            l.wf(),
            l.src() == input@,
            l.pos() == 0,
    {
        let len: usize = input.unicode_len();
        if len > 0 {
            let c: char = input.get_char(0);
            Self { input, len, current_pos: 0, next_pos: 1, ch: Some(c) }
        } else {
            Self { input, len, current_pos: 0, next_pos: 0, ch: None }
        }
    }

    /// Advances the cursor by one character; a no-op once the input is
    /// exhausted, so the exhausted state is permanent.
    fn read_char(&mut self)
        requires
            old(self).wf(),
        ensures
            final(self).wf(),
            final(self).src() == old(self).src(),
            final(self).pos() == (if old(self).pos() < old(self).src().len() {
                old(self).pos() + 1
            } else {
                old(self).pos()
            }),
    {
        if self.next_pos < self.len {
            self.ch = Some(self.input.get_char(self.next_pos));
            self.current_pos = self.next_pos;
            self.next_pos = self.next_pos + 1;
        } else {
            self.ch = None;
            self.current_pos = self.len;
            self.next_pos = self.len;
        }
    }

    /// The character one position past the cursor, without moving the
    /// cursor; `None` once that position is past the end of the input.
    fn peek_char(&self) -> (c: Option<char>)
        requires
            self.wf(),
        ensures
            c == (if self.pos() + 1 < self.src().len() {
                Some(self.src()[self.pos() + 1])
            } else {
                None::<char>
            }),
    {
        if self.next_pos < self.len {
            Some(self.input.get_char(self.next_pos))
        } else {
            None
        }
    }

    /// The one-character literal under the cursor.
    fn literal_here(&self) -> (lit: &'a str)
        requires
            self.wf(),
            self.pos() < self.src().len(),
        ensures
            lit@ == self.src().subrange(self.pos(), self.pos() + 1),
    {
        self.input.substring_char(self.current_pos, self.next_pos)
    }

    /// Skips the maximal run of whitespace under the cursor.
    fn skip_whitespace(&mut self)
        requires
            old(self).wf(),
        ensures
            final(self).wf(),
            final(self).src() == old(self).src(),
            final(self).pos() == whitespace_end(old(self).src(), old(self).pos()),
    {
        while self.current_pos < self.len && is_whitespace(self.ch.unwrap())
            invariant
                self.wf(),
                self.src() == old(self).src(),
                whitespace_end(self.src(), self.pos()) == whitespace_end(
                    old(self).src(),
                    old(self).pos(),
                ),
            decreases self.len - self.current_pos,
        {
            proof {
                assert(whitespace_end(self.src(), self.pos()) == whitespace_end(
                    self.src(),
                    self.pos() + 1,
                ));
            }
            self.read_char();
        }
        proof {
            assert(whitespace_end(self.src(), self.pos()) == self.pos());
        }
    }

    /// Consumes the maximal identifier run starting under the cursor and
    /// returns it; the cursor ends on the first character past the run.
    fn read_ident(&mut self) -> (lit: &'a str)
        requires
            old(self).wf(),
            old(self).pos() < old(self).src().len(),
            is_letter_char(old(self).src()[old(self).pos()]),
        ensures
            final(self).wf(),
            final(self).src() == old(self).src(),
            final(self).pos() == letter_run_end(old(self).src(), old(self).pos()),
            old(self).pos() < final(self).pos(),
            lit@ == old(self).src().subrange(old(self).pos(), final(self).pos()),
    {
        let input: &'a str = self.input;
        let current: usize = self.current_pos;
        while self.current_pos < self.len && is_letter(self.ch.unwrap())
            invariant
                self.wf(),
                self.src() == old(self).src(),
                input@ == old(self).src(),
                current == old(self).pos(),
                current <= self.current_pos,
                letter_run_end(self.src(), self.pos()) == letter_run_end(
                    old(self).src(),
                    old(self).pos(),
                ),
            decreases self.len - self.current_pos,
        {
            proof {
                assert(letter_run_end(self.src(), self.pos()) == letter_run_end(
                    self.src(),
                    self.pos() + 1,
                ));
            }
            self.read_char();
        }
        proof {
            assert(letter_run_end(self.src(), self.pos()) == self.pos());
        }
        input.substring_char(current, self.current_pos)
    }

    /// Consumes the maximal digit run starting under the cursor and returns
    /// it; the cursor ends on the first character past the run.
    fn read_number(&mut self) -> (lit: &'a str)
        requires
            old(self).wf(),
            old(self).pos() < old(self).src().len(),
            is_digit_char(old(self).src()[old(self).pos()]),
        ensures
            final(self).wf(),
            final(self).src() == old(self).src(),
            final(self).pos() == digit_run_end(old(self).src(), old(self).pos()),
            old(self).pos() < final(self).pos(),
            lit@ == old(self).src().subrange(old(self).pos(), final(self).pos()),
    {
        let input: &'a str = self.input;
        let current: usize = self.current_pos;
        while self.current_pos < self.len && is_digit(self.ch.unwrap())
            invariant
                self.wf(),
                self.src() == old(self).src(),
                input@ == old(self).src(),
                current == old(self).pos(),
                current <= self.current_pos,
                digit_run_end(self.src(), self.pos()) == digit_run_end(
                    old(self).src(),
                    old(self).pos(),
                ),
            decreases self.len - self.current_pos,
        {
            proof {
                assert(digit_run_end(self.src(), self.pos()) == digit_run_end(
                    self.src(),
                    self.pos() + 1,
                ));
            }
            self.read_char();
        }
        proof {
            assert(digit_run_end(self.src(), self.pos()) == self.pos());
        }
        input.substring_char(current, self.current_pos)
    }

    /// Returns the next token and leaves the cursor just past it, exactly
    /// as [`scan_step`] prescribes: whitespace is skipped, the token is
    /// classified with at most one character of lookahead, unrecognized
    /// characters come back as `Illegal` tokens rather than as errors, and
    /// at the end of the input the request repeatably yields the
    /// end-of-input token without moving the cursor.
    pub fn next_token(&mut self) -> (t: Token<'a>)
        requires
            old(self).wf(),
        ensures
            final(self).wf(),
            final(self).src() == old(self).src(),
            0 <= final(self).pos() <= final(self).src().len(),
            ({
                let st = scan_step(old(self).src(), old(self).pos());
                &&& t.kind == st.kind
                &&& t.literal@ == st.literal
                &&& final(self).pos() == st.end
            }),
    {
        proof {
            lemma_whitespace_end(old(self).src(), old(self).pos());
            reveal_strlit("");
            assert(""@ =~= Seq::<char>::empty());
        }
        if self.current_pos >= self.len {
            return Token::new(TokenType::Eof, "");
        }
        self.skip_whitespace();
        if self.current_pos >= self.len {
            return Token::new(TokenType::Eof, "");
        }
        let c: char = self.ch.unwrap();
        let token: Token<'a> = match c {
            '=' => {
                if let Some(p) = self.peek_char() {
                    if p == '=' {
                        let input: &'a str = self.input;
                        self.read_char();
                        Token::new(
                            TokenType::Eq,
                            input.substring_char(self.current_pos - 1, self.next_pos),
                        )
                    } else {
                        Token::new(TokenType::Assign, self.literal_here())
                    }
                } else {
                    Token::new(TokenType::Assign, self.literal_here())
                }
            },
            ';' => Token::new(TokenType::Semicolon, self.literal_here()),
            '+' => Token::new(TokenType::Plus, self.literal_here()),
            ',' => Token::new(TokenType::Comma, self.literal_here()),
            '(' => Token::new(TokenType::LParen, self.literal_here()),
            ')' => Token::new(TokenType::RParen, self.literal_here()),
            '{' => Token::new(TokenType::LBrace, self.literal_here()),
            '}' => Token::new(TokenType::RBrace, self.literal_here()),
            '!' => {
                if let Some(p) = self.peek_char() {
                    if p == '=' {
                        let input: &'a str = self.input;
                        self.read_char();
                        Token::new(
                            TokenType::Neq,
                            input.substring_char(self.current_pos - 1, self.next_pos),
                        )
                    } else {
                        Token::new(TokenType::Not, self.literal_here())
                    }
                } else {
                    Token::new(TokenType::Not, self.literal_here())
                }
            },
            '-' => Token::new(TokenType::Minus, self.literal_here()),
            '>' => Token::new(TokenType::Gt, self.literal_here()),
            '<' => Token::new(TokenType::Lt, self.literal_here()),
            '*' => Token::new(TokenType::Asterisk, self.literal_here()),
            '/' => Token::new(TokenType::Slash, self.literal_here()),
            _ => {
                if is_letter(c) {
                    let literal: &'a str = self.read_ident();
                    let kind: TokenType = Token::lookup_ident(literal);
                    return Token::new(kind, literal);
                } else if is_digit(c) {
                    let literal: &'a str = self.read_number();
                    return Token::new(TokenType::Int, literal);
                } else {
                    Token::new(TokenType::Illegal, self.literal_here())
                }
            },
        };
        self.read_char();
        token
    }
}

} // verus!
