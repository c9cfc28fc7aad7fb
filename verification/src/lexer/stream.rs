//! The token stream as a whole, and its laws.
//!
//! [`token_stream`] is the finite sequence of tokens that repeated requests
//! drain out of an input.  This module proves the stream-level laws: every
//! input yields a finite stream closed by the end-of-input token, the
//! end-of-input state is permanent, and whitespace slipped in between two
//! tokens never changes the tokens themselves.

use crate::lexer::scan::digit_run_end;
use crate::lexer::scan::is_digit_char;
use crate::lexer::scan::is_letter_char;
use crate::lexer::scan::is_whitespace_char;
use crate::lexer::scan::lemma_digit_run_end;
use crate::lexer::scan::lemma_letter_run_end;
use crate::lexer::scan::lemma_scan_step_progress;
use crate::lexer::scan::lemma_whitespace_end;
use crate::lexer::scan::letter_run_end;
use crate::lexer::scan::scan_step;
use crate::lexer::scan::whitespace_end;
use crate::lexer::token::TokenType;
use vstd::prelude::*;

verus! {

/// The whole stream of tokens that repeated requests yield from position
/// `pos` on: each entry is a kind with its exact text, and the end-of-input
/// token closes the stream.
pub open spec fn token_stream(s: Seq<char>, pos: int) -> Seq<(TokenType, Seq<char>)>
    decreases s.len() - pos
        when 0 <= pos <= s.len()
        via token_stream_decreases
{
    let st = scan_step(s, pos);
    if st.kind == TokenType::Eof {
        seq![(st.kind, st.literal)]
    } else {
        seq![(st.kind, st.literal)] + token_stream(s, st.end)
    }
}

#[via_fn]
proof fn token_stream_decreases(s: Seq<char>, pos: int) {
    lemma_scan_step_progress(s, pos);
}

/// Scanning is total and finite: from any position the stream of tokens is
/// a finite, non-empty sequence whose last element is the end-of-input
/// token with an empty text.
pub proof fn lemma_stream_ends_in_eof(s: Seq<char>, pos: int)
    requires
        0 <= pos <= s.len(),
    ensures
        token_stream(s, pos).len() >= 1,
        token_stream(s, pos).last() == (TokenType::Eof, Seq::<char>::empty()),
    decreases s.len() - pos,
{
    lemma_scan_step_progress(s, pos);
    let st = scan_step(s, pos);
    if st.kind != TokenType::Eof {
        lemma_stream_ends_in_eof(s, st.end);
    }
}

/// Idempotent termination: a request that answers end-of-input leaves the
/// cursor parked at the end of the input, and a further request from there
/// answers exactly the same again — end-of-input, with an empty text,
/// without moving the cursor.
pub proof fn lemma_eof_idempotent(s: Seq<char>, pos: int)
    requires
        0 <= pos <= s.len(),
        scan_step(s, pos).kind == TokenType::Eof,
    ensures
        scan_step(s, pos).end == s.len(),
        scan_step(s, scan_step(s, pos).end) == scan_step(s, pos),
{
    lemma_scan_step_progress(s, pos);
    assert(whitespace_end(s, s.len() as int) == s.len());
}

/// A request made on a whitespace character answers the same as one made
/// just past it: skipping absorbs the character, token and stream alike.
proof fn lemma_stream_skip_ws(s: Seq<char>, pos: int)
    requires
        0 <= pos < s.len(),
        is_whitespace_char(s[pos]),
    ensures
        scan_step(s, pos) == scan_step(s, pos + 1),
        token_stream(s, pos) == token_stream(s, pos + 1),
{
    assert(whitespace_end(s, pos) == whitespace_end(s, pos + 1));
}

/// Scanning looks only at the suffix under the cursor: two inputs that
/// agree from their respective positions on skip the same distance.
proof fn lemma_whitespace_end_shift(s: Seq<char>, t: Seq<char>, i: int, j: int)
    requires
        0 <= i <= s.len(),
        0 <= j <= t.len(),
        s.len() - i == t.len() - j,
        forall|k: int| i <= k < s.len() ==> s[k] == t[k - i + j],
    ensures
        whitespace_end(s, i) - i == whitespace_end(t, j) - j,
    decreases s.len() - i,
{
    if i < s.len() && is_whitespace_char(s[i]) {
        lemma_whitespace_end_shift(s, t, i + 1, j + 1);
    }
}

/// As [`lemma_whitespace_end_shift`], for identifier runs.
proof fn lemma_letter_run_end_shift(s: Seq<char>, t: Seq<char>, i: int, j: int)
    requires
        0 <= i <= s.len(),
        0 <= j <= t.len(),
        s.len() - i == t.len() - j,
        forall|k: int| i <= k < s.len() ==> s[k] == t[k - i + j],
    ensures
        letter_run_end(s, i) - i == letter_run_end(t, j) - j,
    decreases s.len() - i,
{
    if i < s.len() && is_letter_char(s[i]) {
        lemma_letter_run_end_shift(s, t, i + 1, j + 1);
    }
}

/// As [`lemma_whitespace_end_shift`], for digit runs.
proof fn lemma_digit_run_end_shift(s: Seq<char>, t: Seq<char>, i: int, j: int)
    requires
        0 <= i <= s.len(),
        0 <= j <= t.len(),
        s.len() - i == t.len() - j,
        forall|k: int| i <= k < s.len() ==> s[k] == t[k - i + j],
    ensures
        digit_run_end(s, i) - i == digit_run_end(t, j) - j,
    decreases s.len() - i,
{
    if i < s.len() && is_digit_char(s[i]) {
        lemma_digit_run_end_shift(s, t, i + 1, j + 1);
    }
}

/// Two inputs that agree from their respective positions on yield the same
/// next token, with its end shifted by the same offset.
proof fn lemma_scan_step_shift(s: Seq<char>, t: Seq<char>, i: int, j: int)
    requires
        0 <= i <= s.len(),
        0 <= j <= t.len(),
        s.len() - i == t.len() - j,
        forall|k: int| i <= k < s.len() ==> s[k] == t[k - i + j],
    ensures
        scan_step(t, j).kind == scan_step(s, i).kind,
        scan_step(t, j).literal == scan_step(s, i).literal,
        scan_step(t, j).end - j == scan_step(s, i).end - i,
{
    lemma_whitespace_end(s, i);
    lemma_whitespace_end(t, j);
    lemma_whitespace_end_shift(s, t, i, j);
    lemma_scan_step_progress(s, i);
    lemma_scan_step_progress(t, j);
    let wi = whitespace_end(s, i);
    let wj = whitespace_end(t, j);
    if wi < s.len() {
        lemma_letter_run_end(s, wi);
        lemma_letter_run_end(t, wj);
        lemma_letter_run_end_shift(s, t, wi, wj);
        lemma_digit_run_end(s, wi);
        lemma_digit_run_end(t, wj);
        lemma_digit_run_end_shift(s, t, wi, wj);
        assert(s[wi] == t[wj]);
        assert(wi + 1 < s.len() <==> wj + 1 < t.len());
        assert(wi + 1 < s.len() ==> s[wi + 1] == t[wj + 1]);
        let ls = letter_run_end(s, wi);
        let lt = letter_run_end(t, wj);
        let ds = digit_run_end(s, wi);
        let dt = digit_run_end(t, wj);
        assert(s.subrange(wi, ls) =~= t.subrange(wj, lt));
        assert(s.subrange(wi, ds) =~= t.subrange(wj, dt));
        assert(s.subrange(wi, wi + 1) =~= t.subrange(wj, wj + 1));
        assert(wi + 1 < s.len() ==> s.subrange(wi, wi + 2) =~= t.subrange(wj, wj + 2));
        assert(scan_step(t, j).kind == scan_step(s, i).kind);
        assert(scan_step(t, j).literal == scan_step(s, i).literal);
        assert(scan_step(t, j).end - j == scan_step(s, i).end - i);
    }
}

/// Two inputs that agree from their respective positions on yield the same
/// token stream.
proof fn lemma_stream_shift(s: Seq<char>, t: Seq<char>, i: int, j: int)
    requires
        0 <= i <= s.len(),
        0 <= j <= t.len(),
        s.len() - i == t.len() - j,
        forall|k: int| i <= k < s.len() ==> s[k] == t[k - i + j],
    ensures
        token_stream(t, j) == token_stream(s, i),
    decreases s.len() - i,
{
    lemma_scan_step_shift(s, t, i, j);
    lemma_scan_step_progress(s, i);
    lemma_scan_step_progress(t, j);
    let st = scan_step(s, i);
    if st.kind != TokenType::Eof {
        lemma_stream_shift(s, t, st.end, st.end - i + j);
        assert(token_stream(t, j) =~= token_stream(s, i));
    } else {
        assert(token_stream(t, j) =~= token_stream(s, i));
    }
}

/// Skipping whitespace looks only at the characters it skips and the one
/// it stops on: two inputs that agree up to `q` skip to the same place,
/// provided the skip ends strictly before `q`.
proof fn lemma_whitespace_end_agree(s: Seq<char>, t: Seq<char>, pos: int, q: int)
    requires
        0 <= pos <= q,
        q <= s.len(),
        q <= t.len(),
        forall|k: int| pos <= k < q ==> s[k] == t[k],
        whitespace_end(s, pos) < q,
    ensures
        whitespace_end(t, pos) == whitespace_end(s, pos),
    decreases s.len() - pos,
{
    lemma_whitespace_end(s, pos);
    if pos < s.len() && is_whitespace_char(s[pos]) {
        lemma_whitespace_end_agree(s, t, pos + 1, q);
    }
}

/// An identifier run that ends by `q` is the same in two inputs that agree
/// up to `q`, provided nothing in `t` at `q` could extend it.
proof fn lemma_letter_run_end_agree(s: Seq<char>, t: Seq<char>, pos: int, q: int)
    requires
        0 <= pos <= q,
        q <= s.len(),
        q <= t.len(),
        forall|k: int| pos <= k < q ==> s[k] == t[k],
        letter_run_end(s, pos) <= q,
        q == t.len() || !is_letter_char(t[q]),
    ensures
        letter_run_end(t, pos) == letter_run_end(s, pos),
    decreases s.len() - pos,
{
    lemma_letter_run_end(s, pos);
    if pos < s.len() && is_letter_char(s[pos]) {
        lemma_letter_run_end_agree(s, t, pos + 1, q);
    }
}

/// As [`lemma_letter_run_end_agree`], for digit runs.
proof fn lemma_digit_run_end_agree(s: Seq<char>, t: Seq<char>, pos: int, q: int)
    requires
        0 <= pos <= q,
        q <= s.len(),
        q <= t.len(),
        forall|k: int| pos <= k < q ==> s[k] == t[k],
        digit_run_end(s, pos) <= q,
        q == t.len() || !is_digit_char(t[q]),
    ensures
        digit_run_end(t, pos) == digit_run_end(s, pos),
    decreases s.len() - pos,
{
    lemma_digit_run_end(s, pos);
    if pos < s.len() && is_digit_char(s[pos]) {
        lemma_digit_run_end_agree(s, t, pos + 1, q);
    }
}

/// Reading one token looks no further than the token itself and the one
/// character it stops on: if the token ends by `q`, two inputs that agree
/// up to `q` yield exactly the same token, provided `t` ends or carries
/// whitespace at `q`.
proof fn lemma_scan_step_agree(s: Seq<char>, t: Seq<char>, pos: int, q: int)
    requires
        0 <= pos <= q,
        q <= s.len(),
        q <= t.len(),
        forall|k: int| pos <= k < q ==> s[k] == t[k],
        scan_step(s, pos).kind != TokenType::Eof,
        scan_step(s, pos).end <= q,
        q == t.len() || is_whitespace_char(t[q]),
    ensures
        scan_step(t, pos) == scan_step(s, pos),
{
    lemma_whitespace_end(s, pos);
    lemma_scan_step_progress(s, pos);
    let i = whitespace_end(s, pos);
    lemma_letter_run_end(s, i);
    lemma_digit_run_end(s, i);
    // The token is not end-of-input, so it starts strictly before its own
    // end, and its end stays within the region where `s` and `t` agree.
    assert(i < scan_step(s, pos).end);
    assert(i < q);
    lemma_whitespace_end_agree(s, t, pos, q);
    lemma_letter_run_end(t, i);
    lemma_letter_run_end_agree(s, t, i, q);
    lemma_digit_run_end(t, i);
    lemma_digit_run_end_agree(s, t, i, q);
    let ls = letter_run_end(s, i);
    let ds = digit_run_end(s, i);
    assert(s[i] == t[i]);
    assert(i + 1 <= q ==> (i + 1 < q || q == t.len() || t[q] != '='));
    assert(i + 1 < q ==> s[i + 1] == t[i + 1]);
    assert(s.subrange(i, ls) =~= t.subrange(i, ls));
    assert(s.subrange(i, ds) =~= t.subrange(i, ds));
    assert(s.subrange(i, i + 1) =~= t.subrange(i, i + 1));
    assert(i + 2 <= q ==> s.subrange(i, i + 2) =~= t.subrange(i, i + 2));
    assert(scan_step(t, pos).kind == scan_step(s, pos).kind);
    assert(scan_step(t, pos).literal == scan_step(s, pos).literal);
    assert(scan_step(t, pos).end == scan_step(s, pos).end);
}

/// `q` is a token boundary of `s` seen from `pos`: some number of whole
/// tokens, requested in order from `pos`, leaves the cursor exactly at `q`.
pub open spec fn is_boundary(s: Seq<char>, pos: int, q: int) -> bool
    decreases s.len() - pos
        when 0 <= pos <= s.len()
        via is_boundary_decreases
{
    pos == q || (scan_step(s, pos).kind != TokenType::Eof && is_boundary(
        s,
        scan_step(s, pos).end,
        q,
    ))
}

#[via_fn]
proof fn is_boundary_decreases(s: Seq<char>, pos: int, q: int) {
    lemma_scan_step_progress(s, pos);
}

/// A boundary lies between the position it is seen from and the end of the
/// input.
proof fn lemma_boundary_bounds(s: Seq<char>, pos: int, q: int)
    requires
        0 <= pos <= s.len(),
        is_boundary(s, pos, q),
    ensures
        pos <= q <= s.len(),
    decreases s.len() - pos,
{
    if pos != q {
        lemma_scan_step_progress(s, pos);
        lemma_boundary_bounds(s, scan_step(s, pos).end, q);
    }
}

/// Inserting one whitespace character at the boundary `q` leaves every
/// token from `pos` on unchanged, kind and text alike.
proof fn lemma_ws_insert_from(s: Seq<char>, t: Seq<char>, q: int, w: char, pos: int)
    requires
        is_whitespace_char(w),
        0 <= pos <= q <= s.len(),
        t == s.insert(q, w),
        is_boundary(s, pos, q),
    ensures
        token_stream(t, pos) == token_stream(s, pos),
    decreases s.len() - pos,
{
    s.insert_ensures(q, w);
    lemma_scan_step_progress(s, pos);
    if pos == q {
        assert(t[q] == w);
        lemma_stream_skip_ws(t, q);
        lemma_stream_shift(s, t, q, q + 1);
    } else {
        let st = scan_step(s, pos);
        lemma_boundary_bounds(s, st.end, q);
        lemma_scan_step_agree(s, t, pos, q);
        lemma_scan_step_progress(t, pos);
        lemma_ws_insert_from(s, t, q, w, st.end);
        assert(token_stream(t, pos) =~= token_stream(s, pos));
    }
}

/// Whitespace transparency: inserting a whitespace character between two
/// tokens (at a token boundary) never changes the resulting token kinds or
/// literals.  Read in the other direction, the same equation says that
/// removing such a character changes nothing either, and a whole run of
/// whitespace is inserted or removed one character at a time.
pub proof fn lemma_whitespace_transparent(s: Seq<char>, q: int, w: char)
    requires
        is_whitespace_char(w),
        is_boundary(s, 0, q),
    ensures
        token_stream(s.insert(q, w), 0) == token_stream(s, 0),
{
    lemma_boundary_bounds(s, 0, q);
    lemma_ws_insert_from(s, s.insert(q, w), q, w, 0);
}

} // verus!
