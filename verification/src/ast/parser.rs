//! The parser: the collaborator that consumes the scanner's token stream
//! one token at a time through a single-token lookahead slot.

use crate::lexer::lexer::Lexer;
use crate::lexer::scan::scan_step;
use crate::lexer::token::Token;
use vstd::prelude::*;

verus! {

/// Owns a scanner and a one-token lookahead slot over its stream.
pub struct Parser<'a> {
    lexer: Lexer<'a>,
    cur_token: Option<Token<'a>>,
    peek_token: Option<Token<'a>>,
}

impl<'a> Parser<'a> {
    /// The scanner's input.
    pub closed spec fn src(self) -> Seq<char> {
        self.lexer.src()
    }

    /// The scanner's cursor.
    pub closed spec fn pos(self) -> int {
        self.lexer.pos()
    }

    /// The token under consideration.
    pub closed spec fn spec_cur(self) -> Option<Token<'a>> {
        self.cur_token
    }

    /// The token waiting in the lookahead slot.
    pub closed spec fn spec_peek(self) -> Option<Token<'a>> {
        self.peek_token
    }

    /// The owned scanner is well formed.
    pub closed spec fn wf(self) -> bool {
        self.lexer.wf()
    }

    /// Constructs a parser over a scanner and primes the lookahead slot
    /// with the scanner's first token.
    pub fn new(lexer: Lexer<'a>) -> (p: Self)
        requires
            lexer.wf(),
        ensures
            p.wf(),
            p.src() == lexer.src(),
            p.spec_cur() is None,
            ({
                let st = scan_step(lexer.src(), lexer.pos());
                &&& p.spec_peek() matches Some(t) && t.kind == st.kind && t.literal@ == st.literal
                &&& p.pos() == st.end
            }),
    {
        let mut parser: Self = Self { lexer, cur_token: None, peek_token: None };
        parser.next_token();
        parser
    }

    /// Pulls one token out of the scanner into the lookahead slot, leaving
    /// the current token alone.
    pub fn next_token(&mut self)
        requires
            old(self).wf(),
        ensures
            final(self).wf(),
            final(self).src() == old(self).src(),
            final(self).spec_cur() == old(self).spec_cur(),
            ({
                let st = scan_step(old(self).src(), old(self).pos());
                &&& final(self).spec_peek() matches Some(t) && t.kind == st.kind && t.literal@
                    == st.literal
                &&& final(self).pos() == st.end
            }),
    {
        self.peek_token = Some(self.lexer.next_token());
    }
}

} // verus!
