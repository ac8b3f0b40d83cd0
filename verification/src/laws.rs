//! The general properties the model guarantees, stated and proved once and
//! for all inputs: a successful scan covers the source exactly (nothing
//! dropped, nothing duplicated), its token sequence is closed by a single
//! end-of-input token, and newlines inside strings and block comments move
//! the line and column counters the way the scanner documents.

use vstd::prelude::*;
use crate::model::{
    block_comment_scan, emit, lemma_step_in_bounds, next_is, spec_lex_from, spec_step, stepped,
    string_scan, LexState, StepResult,
};
use crate::token::{SpecLexError, SpecToken, TokenType};

verus! {

/// One maximal piece of a successful scan: either a span that produced no
/// token (whitespace, a newline or a comment) or the token whose lexeme
/// the span is.
pub enum LexPiece {
    Skipped { span: Seq<char> },
    Lexed { token: SpecToken },
}

/// The source text a piece stands for.
pub open spec fn piece_text(p: LexPiece) -> Seq<char> {
    match p {
        LexPiece::Skipped { span } => span,
        LexPiece::Lexed { token } => token.lexeme,
    }
}

/// The texts of all pieces, concatenated in order.
pub open spec fn pieces_text(ps: Seq<LexPiece>) -> Seq<char>
    decreases ps.len(),
{
    if ps.len() == 0 {
        Seq::empty()
    } else {
        piece_text(ps[0]) + pieces_text(ps.drop_first())
    }
}

/// The tokens among the pieces, in order.
pub open spec fn pieces_tokens(ps: Seq<LexPiece>) -> Seq<SpecToken>
    decreases ps.len(),
{
    if ps.len() == 0 {
        Seq::empty()
    } else {
        match ps[0] {
            LexPiece::Lexed { token } => seq![token] + pieces_tokens(ps.drop_first()),
            LexPiece::Skipped { span } => pieces_tokens(ps.drop_first()),
        }
    }
}

/// The pieces the scan of s from st consumes, step by step, while it
/// succeeds.
pub open spec fn spec_pieces(s: Seq<char>, st: LexState) -> Seq<LexPiece>
    decreases s.len() - st.pos
        when 0 <= st.pos
        via spec_pieces_decreases
{
    if st.pos >= s.len() {
        Seq::empty()
    } else {
        match spec_step(s, st) {
            StepResult::Skip { next } => seq![
                LexPiece::Skipped { span: s.subrange(st.pos, next.pos) },
            ] + spec_pieces(s, next),
            StepResult::Emit { next, token } => seq![LexPiece::Lexed { token }] + spec_pieces(
                s,
                next,
            ),
            StepResult::Fail { err } => Seq::empty(),
        }
    }
}

#[via_fn]
proof fn spec_pieces_decreases(s: Seq<char>, st: LexState) {
    if 0 <= st.pos && st.pos < s.len() {
        lemma_step_in_bounds(s, st);
    }
}

/// A step that emits a token consumes exactly that token's lexeme: the
/// characters between the old and the new cursor position.
pub proof fn lemma_emitted_lexeme_is_span(s: Seq<char>, st: LexState)
    requires
        0 <= st.pos && st.pos < s.len(),
    ensures
        match spec_step(s, st) {
            StepResult::Emit { next, token } => token.lexeme == s.subrange(st.pos, next.pos),
            _ => true,
        },
{
}

/// No scan step emits an end-of-input token: that token is appended once,
/// after the input is exhausted.
pub proof fn lemma_step_token_kind(s: Seq<char>, st: LexState)
    requires
        0 <= st.pos && st.pos < s.len(),
    ensures
        match spec_step(s, st) {
            StepResult::Emit { next, token } => token.token_type != TokenType::Eof,
            _ => true,
        },
{
}

/// Coverage: while a scan of s from st succeeds, the texts of its pieces —
/// each skipped whitespace or comment span and each token's lexeme, in
/// order — concatenate to exactly the unread part of the source.  No
/// character is dropped and none is duplicated.
pub proof fn lemma_coverage(s: Seq<char>, st: LexState)
    requires
        0 <= st.pos && st.pos <= s.len(),
        spec_lex_from(s, st) is Ok,
    ensures
        pieces_text(spec_pieces(s, st)) == s.subrange(st.pos, s.len() as int),
    decreases s.len() - st.pos,
{
    if st.pos >= s.len() {
        assert(pieces_text(spec_pieces(s, st)) =~= s.subrange(st.pos, s.len() as int));
    } else {
        lemma_step_in_bounds(s, st);
        match spec_step(s, st) {
            StepResult::Skip { next } => {
                lemma_coverage(s, next);
                let ps = spec_pieces(s, st);
                assert(ps.drop_first() =~= spec_pieces(s, next));
                assert(pieces_text(ps) =~= s.subrange(st.pos, s.len() as int));
            },
            StepResult::Emit { next, token } => {
                lemma_emitted_lexeme_is_span(s, st);
                lemma_coverage(s, next);
                let ps = spec_pieces(s, st);
                assert(ps.drop_first() =~= spec_pieces(s, next));
                assert(pieces_text(ps) =~= s.subrange(st.pos, s.len() as int));
            },
            StepResult::Fail { err } => {},
        }
    }
}

/// Termination: a successful scan ends with exactly one end-of-input
/// token — it stands last, and no earlier token has that kind.
pub proof fn lemma_single_eof(s: Seq<char>, st: LexState)
    requires
        0 <= st.pos && st.pos <= s.len(),
        spec_lex_from(s, st) is Ok,
    ensures
        ({
            let toks = spec_lex_from(s, st)->Ok_0;
            &&& toks.len() >= 1
            &&& toks.last().token_type == TokenType::Eof
            &&& forall|i: int|
                0 <= i && i < toks.len() - 1 ==> toks[i].token_type != TokenType::Eof
        }),
    decreases s.len() - st.pos,
{
    if st.pos >= s.len() {
    } else {
        lemma_step_in_bounds(s, st);
        match spec_step(s, st) {
            StepResult::Skip { next } => {
                lemma_single_eof(s, next);
            },
            StepResult::Emit { next, token } => {
                lemma_step_token_kind(s, st);
                lemma_single_eof(s, next);
                let rest = spec_lex_from(s, next)->Ok_0;
                let toks = spec_lex_from(s, st)->Ok_0;
                assert(toks =~= seq![token] + rest);
                assert(toks.last() == rest.last());
                assert forall|i: int|
                    0 <= i && i < toks.len() - 1 implies toks[i].token_type
                    != TokenType::Eof by {
                    if i > 0 {
                        assert(toks[i] == rest[i - 1]);
                    }
                }
            },
            StepResult::Fail { err } => {},
        }
    }
}

/// On success, the tokens of the scan are exactly the tokens among its
/// pieces, in order, followed by the end-of-input token.
pub proof fn lemma_tokens_are_piece_tokens(s: Seq<char>, st: LexState)
    requires
        0 <= st.pos && st.pos <= s.len(),
        spec_lex_from(s, st) is Ok,
    ensures
        spec_lex_from(s, st)->Ok_0.drop_last() == pieces_tokens(spec_pieces(s, st)),
    decreases s.len() - st.pos,
{
    if st.pos >= s.len() {
        assert(spec_lex_from(s, st)->Ok_0.drop_last() =~= pieces_tokens(spec_pieces(s, st)));
    } else {
        lemma_step_in_bounds(s, st);
        match spec_step(s, st) {
            StepResult::Skip { next } => {
                lemma_tokens_are_piece_tokens(s, next);
                let ps = spec_pieces(s, st);
                assert(ps.drop_first() =~= spec_pieces(s, next));
                assert(spec_lex_from(s, st)->Ok_0.drop_last() =~= pieces_tokens(ps));
            },
            StepResult::Emit { next, token } => {
                lemma_single_eof(s, next);
                lemma_tokens_are_piece_tokens(s, next);
                let ps = spec_pieces(s, st);
                let rest = spec_lex_from(s, next)->Ok_0;
                let toks = spec_lex_from(s, st)->Ok_0;
                assert(ps.drop_first() =~= spec_pieces(s, next));
                assert(toks.drop_last() =~= seq![token] + rest.drop_last());
                assert(toks.drop_last() =~= pieces_tokens(ps));
            },
            StepResult::Fail { err } => {},
        }
    }
}

/// Maximal munch: a greater-than sign followed by another yields one
/// shift token spanning both characters, never two comparison tokens.
pub proof fn lemma_munch_shift_right(s: Seq<char>, st: LexState)
    requires
        0 <= st.pos && st.pos < s.len(),
        s[st.pos] == '>',
        next_is(s, st.pos + 1, '>'),
    ensures
        spec_step(s, st) == emit(s, st.pos, stepped(st, 2), TokenType::ShiftRight),
{
}

/// Maximal munch: three dots yield one ellipsis token spanning all three
/// characters.
pub proof fn lemma_munch_ellipsis(s: Seq<char>, st: LexState)
    requires
        0 <= st.pos && st.pos < s.len(),
        s[st.pos] == '.',
        next_is(s, st.pos + 1, '.'),
        next_is(s, st.pos + 2, '.'),
    ensures
        spec_step(s, st) == emit(s, st.pos, stepped(st, 3), TokenType::Ellipsis),
{
}

/// Two dots not followed by a third are a fault, never two dot tokens.
pub proof fn lemma_two_dots_fault(s: Seq<char>, st: LexState)
    requires
        0 <= st.pos && st.pos < s.len(),
        s[st.pos] == '.',
        next_is(s, st.pos + 1, '.'),
        !next_is(s, st.pos + 2, '.'),
    ensures
        spec_step(s, st) == (StepResult::Fail {
            err: SpecLexError::MalformedEllipsis { line: st.line },
        }),
{
}

/// A newline inside a block comment sets the line counter up by one and
/// the column counter to one before the newline itself is consumed, so
/// the scan goes on at column two of the next line.
pub proof fn lemma_newline_in_block_comment(s: Seq<char>, st: LexState)
    requires
        0 <= st.pos && st.pos < s.len(),
        s[st.pos] == '\n',
    ensures
        block_comment_scan(s, st) == block_comment_scan(
            s,
            LexState { pos: st.pos + 1, line: st.line + 1, col: 2 },
        ),
{
}

/// A newline inside a string literal sets the line counter up by one and
/// the column counter to zero before the newline itself is consumed, so
/// the scan goes on at column one of the next line.
pub proof fn lemma_newline_in_string(s: Seq<char>, st: LexState)
    requires
        0 <= st.pos && st.pos < s.len(),
        s[st.pos] == '\n',
    ensures
        string_scan(s, st) == string_scan(
            s,
            LexState { pos: st.pos + 1, line: st.line + 1, col: 1 },
        ),
{
}

} // verus!
