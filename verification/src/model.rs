//! The mathematical model of the scan: a step function over a cursor state
//! that yields one skipped span, one token or one fault, and the recursive
//! function that folds steps into the full token sequence.  The laws at the
//! end state the properties the model guarantees: coverage of the source,
//! a single terminating end-of-input token, and the line and column
//! bookkeeping inside comments and strings.

use vstd::prelude::*;
use crate::token::{SpecLexError, SpecToken, TokenType};

verus! {

/// Cursor state of a scan: next unread position, 1-based line number, and
/// the column counter (the count of characters consumed since the last
/// line start, plus one).
pub struct LexState {
    pub pos: int,
    pub line: int,
    pub col: int,
}

/// Outcome of scanning one lexeme: a span that produced no token, a token,
/// or a terminal fault.
pub enum StepResult {
    Skip { next: LexState },
    Emit { next: LexState, token: SpecToken },
    Fail { err: SpecLexError },
}

/// Whether c is an ASCII decimal digit.
pub open spec fn is_digit_char(c: char) -> bool {
    48 <= c as u32 && c as u32 <= 57
}

/// Whether c is an ASCII letter or the underscore.
pub open spec fn is_alpha_char(c: char) -> bool {
    (97 <= c as u32 && c as u32 <= 122) || (65 <= c as u32 && c as u32 <= 90) || c == '_'
}

/// Whether c may continue an identifier.
pub open spec fn is_alpha_numeric_char(c: char) -> bool {
    is_alpha_char(c) || is_digit_char(c)
}

/// The character at position i of s, or the nul sentinel past the end.
pub open spec fn char_at(s: Seq<char>, i: int) -> char {
    if 0 <= i && i < s.len() {
        s[i]
    } else {
        '\0'
    }
}

/// Whether position i holds exactly the character c.
pub open spec fn next_is(s: Seq<char>, i: int, c: char) -> bool {
    0 <= i && i < s.len() && s[i] == c
}

/// The cursor st after consuming k characters on the same line.
pub open spec fn stepped(st: LexState, k: int) -> LexState {
    LexState { pos: st.pos + k, line: st.line, col: st.col + k }
}

/// The cursor st after one advance: one character consumed if any is left.
pub open spec fn advanced(st: LexState, s: Seq<char>) -> LexState {
    if st.pos < s.len() {
        stepped(st, 1)
    } else {
        st
    }
}

/// The exact reserved-word table: the kind belonging to an identifier text.
pub open spec fn keyword_kind(text: Seq<char>) -> TokenType {
    if text == "class"@ { TokenType::Class }
    else if text == "interface"@ { TokenType::Interface }
    else if text == "import"@ { TokenType::Import }
    else if text == "package"@ { TokenType::Package }
    else if text == "enum"@ { TokenType::Enum }
    else if text == "struct"@ { TokenType::Struct }
    else if text == "protected"@ { TokenType::Protected }
    else if text == "private"@ { TokenType::Private }
    else if text == "override"@ { TokenType::Override }
    else if text == "this"@ { TokenType::This }
    else if text == "new"@ { TokenType::New }
    else if text == "super"@ { TokenType::Super }
    else if text == "constructor"@ { TokenType::Constructor }
    else if text == "data"@ { TokenType::Data }
    else if text == "typeof"@ { TokenType::Typeof }
    else if text == "annotation"@ { TokenType::Annotation }
    else if text == "if"@ { TokenType::If }
    else if text == "else"@ { TokenType::Else }
    else if text == "elif"@ { TokenType::Elif }
    else if text == "while"@ { TokenType::While }
    else if text == "for"@ { TokenType::For }
    else if text == "loop"@ { TokenType::Loop }
    else if text == "break"@ { TokenType::Break }
    else if text == "continue"@ { TokenType::Continue }
    else if text == "async"@ { TokenType::Async }
    else if text == "await"@ { TokenType::Await }
    else if text == "fn"@ { TokenType::Function }
    else if text == "return"@ { TokenType::Return }
    else if text == "true"@ { TokenType::True }
    else if text == "false"@ { TokenType::False }
    else if text == "null"@ { TokenType::Null }
    else if text == "mut"@ { TokenType::Mut }
    else if text == "val"@ { TokenType::Val }
    else if text == "and"@ { TokenType::And }
    else if text == "or"@ { TokenType::Or }
    else if text == "not"@ { TokenType::Not }
    else if text == "is"@ { TokenType::Is }
    else if text == "in"@ { TokenType::In }
    else if text == "of"@ { TokenType::Of }
    else { TokenType::Identifier }
}

/// The first position at or after i that does not hold a decimal digit,
/// or the end of s.
pub open spec fn digit_run_end(s: Seq<char>, i: int) -> int
    decreases s.len() - i,
{
    if i < 0 || i >= s.len() || !is_digit_char(s[i]) {
        i
    } else {
        digit_run_end(s, i + 1)
    }
}

/// The first position at or after i that cannot continue an identifier,
/// or the end of s.
pub open spec fn ident_run_end(s: Seq<char>, i: int) -> int
    decreases s.len() - i,
{
    if i < 0 || i >= s.len() || !is_alpha_numeric_char(s[i]) {
        i
    } else {
        ident_run_end(s, i + 1)
    }
}

/// The first position at or after i that holds a newline, or the end of s:
/// where a line comment stops (the newline itself is not consumed).
pub open spec fn line_comment_end(s: Seq<char>, i: int) -> int
    decreases s.len() - i,
{
    if i < 0 || i >= s.len() || s[i] == '\n' {
        i
    } else {
        line_comment_end(s, i + 1)
    }
}

/// Scans the inside of a string literal from st.  Ok holds the cursor just
/// past the closing quote; Err holds the line at which the input ran out.
/// A newline sets the line up by one and the column to zero before it is
/// itself consumed, so the cursor stands at column one after it.
pub open spec fn string_scan(s: Seq<char>, st: LexState) -> Result<LexState, int>
    decreases s.len() - st.pos,
{
    if st.pos < 0 || st.pos >= s.len() {
        Err(st.line)
    } else if s[st.pos] == '"' {
        Ok(stepped(st, 1))
    } else if s[st.pos] == '\n' {
        string_scan(s, LexState { pos: st.pos + 1, line: st.line + 1, col: 1 })
    } else {
        string_scan(s, stepped(st, 1))
    }
}

/// Scans the inside of a block comment from st.  Ok holds the cursor just
/// past the closing pair; Err holds the line at which the input ran out.
/// A newline sets the line up by one and the column to one before it is
/// itself consumed, so the cursor stands at column two after it.
pub open spec fn block_comment_scan(s: Seq<char>, st: LexState) -> Result<LexState, int>
    decreases s.len() - st.pos,
{
    if st.pos < 0 || st.pos >= s.len() {
        Err(st.line)
    } else if s[st.pos] == '*' && next_is(s, st.pos + 1, '/') {
        Ok(stepped(st, 2))
    } else if s[st.pos] == '\n' {
        block_comment_scan(s, LexState { pos: st.pos + 1, line: st.line + 1, col: 2 })
    } else {
        block_comment_scan(s, stepped(st, 1))
    }
}

/// The cursor after a number lexeme whose digits begin at st: a maximal
/// digit run, then a fraction part only where a dot is followed by another
/// digit.
pub open spec fn number_scan_end(s: Seq<char>, st: LexState) -> LexState {
    let d1 = digit_run_end(s, st.pos);
    if next_is(s, d1, '.') && d1 + 1 < s.len() && is_digit_char(s[d1 + 1]) {
        let d2 = digit_run_end(s, d1 + 1);
        LexState { pos: d2, line: st.line, col: st.col + (d2 - st.pos) }
    } else {
        LexState { pos: d1, line: st.line, col: st.col + (d1 - st.pos) }
    }
}

/// The cursor after the maximal identifier run beginning at st.
pub open spec fn ident_scan_end(s: Seq<char>, st: LexState) -> LexState {
    let e = ident_run_end(s, st.pos);
    LexState { pos: e, line: st.line, col: st.col + (e - st.pos) }
}

/// The token made of s[start .. end.pos], stamped with the cursor's line and
/// column at end: the column names the cursor position after the lexeme,
/// not its start.
pub open spec fn span_token(s: Seq<char>, start: int, end: LexState, kind: TokenType) -> SpecToken {
    SpecToken { token_type: kind, lexeme: s.subrange(start, end.pos), line: end.line, column: end.col }
}

/// A step that emits the token spanning from start to end.
pub open spec fn emit(s: Seq<char>, start: int, end: LexState, kind: TokenType) -> StepResult {
    StepResult::Emit { next: end, token: span_token(s, start, end, kind) }
}

/// The end-of-input token stamped at st.
pub open spec fn eof_token(st: LexState) -> SpecToken {
    SpecToken { token_type: TokenType::Eof, lexeme: Seq::empty(), line: st.line, column: st.col }
}

/// One full step of the scanner from st, which must stand on a character:
/// dispatch on that character, consume one lexeme (or skipped span), and
/// yield the outcome.  Multi-character operators take the longest match.
pub open spec fn spec_step(s: Seq<char>, st: LexState) -> StepResult {
    let c = s[st.pos];
    if c == ' ' || c == '\r' || c == '\t' {
        StepResult::Skip { next: stepped(st, 1) }
    } else if c == '\n' {
        StepResult::Skip { next: LexState { pos: st.pos + 1, line: st.line + 1, col: 1 } }
    } else if c == '/' {
        if next_is(s, st.pos + 1, '/') {
            let end = line_comment_end(s, st.pos + 2);
            StepResult::Skip { next: LexState { pos: end, line: st.line, col: st.col + (end - st.pos) } }
        } else if next_is(s, st.pos + 1, '*') {
            match block_comment_scan(s, stepped(st, 2)) {
                Ok(done) => StepResult::Skip { next: done },
                Err(line) => StepResult::Fail { err: SpecLexError::UnterminatedBlockComment { line } },
            }
        } else {
            emit(s, st.pos, stepped(st, 1), TokenType::Slash)
        }
    } else if c == '"' || c == '\'' {
        match string_scan(s, stepped(st, 1)) {
            Ok(done) => emit(s, st.pos, done, TokenType::StringLiteral),
            Err(line) => StepResult::Fail { err: SpecLexError::UnterminatedStringLiteral { line } },
        }
    } else if c == '+' {
        if next_is(s, st.pos + 1, '+') {
            emit(s, st.pos, stepped(st, 2), TokenType::PlusPlus)
        } else {
            emit(s, st.pos, stepped(st, 1), TokenType::Plus)
        }
    } else if c == '-' {
        if next_is(s, st.pos + 1, '-') {
            emit(s, st.pos, stepped(st, 2), TokenType::MinusMinus)
        } else if next_is(s, st.pos + 1, '>') {
            emit(s, st.pos, stepped(st, 2), TokenType::Arrow)
        } else {
            emit(s, st.pos, stepped(st, 1), TokenType::Minus)
        }
    } else if c == '*' {
        emit(s, st.pos, stepped(st, 1), TokenType::Star)
    } else if c == '%' {
        emit(s, st.pos, stepped(st, 1), TokenType::Percent)
    } else if c == '=' {
        if next_is(s, st.pos + 1, '=') {
            emit(s, st.pos, stepped(st, 2), TokenType::EqualEqual)
        } else {
            emit(s, st.pos, stepped(st, 1), TokenType::Equal)
        }
    } else if c == '!' {
        if next_is(s, st.pos + 1, '=') {
            emit(s, st.pos, stepped(st, 2), TokenType::NotEqual)
        } else if next_is(s, st.pos + 1, '!') {
            emit(s, st.pos, stepped(st, 2), TokenType::BangBang)
        } else {
            emit(s, st.pos, stepped(st, 1), TokenType::NotBang)
        }
    } else if c == '>' {
        if next_is(s, st.pos + 1, '=') {
            emit(s, st.pos, stepped(st, 2), TokenType::GreaterEqual)
        } else if next_is(s, st.pos + 1, '>') {
            emit(s, st.pos, stepped(st, 2), TokenType::ShiftRight)
        } else {
            emit(s, st.pos, stepped(st, 1), TokenType::Greater)
        }
    } else if c == '<' {
        if next_is(s, st.pos + 1, '=') {
            emit(s, st.pos, stepped(st, 2), TokenType::LessEqual)
        } else if next_is(s, st.pos + 1, '<') {
            emit(s, st.pos, stepped(st, 2), TokenType::ShiftLeft)
        } else {
            emit(s, st.pos, stepped(st, 1), TokenType::Less)
        }
    } else if c == '&' {
        if next_is(s, st.pos + 1, '&') {
            emit(s, st.pos, stepped(st, 2), TokenType::AndAnd)
        } else {
            emit(s, st.pos, stepped(st, 1), TokenType::BitAnd)
        }
    } else if c == '|' {
        if next_is(s, st.pos + 1, '|') {
            emit(s, st.pos, stepped(st, 2), TokenType::OrOr)
        } else {
            emit(s, st.pos, stepped(st, 1), TokenType::BitOr)
        }
    } else if c == ':' {
        if next_is(s, st.pos + 1, ':') {
            emit(s, st.pos, stepped(st, 2), TokenType::ColonColon)
        } else {
            emit(s, st.pos, stepped(st, 1), TokenType::Colon)
        }
    } else if c == '.' {
        if next_is(s, st.pos + 1, '.') {
            if next_is(s, st.pos + 2, '.') {
                emit(s, st.pos, stepped(st, 3), TokenType::Ellipsis)
            } else {
                StepResult::Fail { err: SpecLexError::MalformedEllipsis { line: st.line } }
            }
        } else {
            emit(s, st.pos, stepped(st, 1), TokenType::Dot)
        }
    } else if c == '?' {
        emit(s, st.pos, stepped(st, 1), TokenType::Question)
    } else if c == ',' {
        emit(s, st.pos, stepped(st, 1), TokenType::Comma)
    } else if c == ';' {
        emit(s, st.pos, stepped(st, 1), TokenType::Semicolon)
    } else if c == '(' {
        emit(s, st.pos, stepped(st, 1), TokenType::LeftParen)
    } else if c == ')' {
        emit(s, st.pos, stepped(st, 1), TokenType::RightParen)
    } else if c == '{' {
        emit(s, st.pos, stepped(st, 1), TokenType::LeftBrace)
    } else if c == '}' {
        emit(s, st.pos, stepped(st, 1), TokenType::RightBrace)
    } else if c == '[' {
        emit(s, st.pos, stepped(st, 1), TokenType::LeftBracket)
    } else if c == ']' {
        emit(s, st.pos, stepped(st, 1), TokenType::RightBracket)
    } else if c == '$' {
        emit(s, st.pos, stepped(st, 1), TokenType::Dollar)
    } else if c == '@' {
        emit(s, st.pos, stepped(st, 1), TokenType::AT)
    } else if is_digit_char(c) {
        emit(s, st.pos, number_scan_end(s, stepped(st, 1)), TokenType::NumberLiteral)
    } else if is_alpha_char(c) {
        let end = ident_scan_end(s, stepped(st, 1));
        emit(s, st.pos, end, keyword_kind(s.subrange(st.pos, end.pos)))
    } else {
        StepResult::Fail {
            err: SpecLexError::UnexpectedCharacter { ch: c, line: st.line, column: st.col + 1 },
        }
    }
}

/// The token sequence of scanning s from st to the end of the input, or the
/// first fault.  On success the sequence ends with the end-of-input token,
/// stamped where the cursor came to rest.
pub open spec fn spec_lex_from(s: Seq<char>, st: LexState) -> Result<Seq<SpecToken>, SpecLexError>
    decreases s.len() - st.pos
        when 0 <= st.pos
        via spec_lex_from_decreases
{
    if st.pos >= s.len() {
        Ok(seq![eof_token(st)])
    } else {
        match spec_step(s, st) {
            StepResult::Skip { next } => spec_lex_from(s, next),
            StepResult::Emit { next, token } => match spec_lex_from(s, next) {
                Ok(rest) => Ok(seq![token] + rest),
                Err(e) => Err(e),
            },
            StepResult::Fail { err } => Err(err),
        }
    }
}

#[via_fn]
proof fn spec_lex_from_decreases(s: Seq<char>, st: LexState) {
    if 0 <= st.pos && st.pos < s.len() {
        lemma_step_in_bounds(s, st);
    }
}

/// The whole scan of s, from the start of the input at line one, column one.
pub open spec fn spec_lex(s: Seq<char>) -> Result<Seq<SpecToken>, SpecLexError> {
    spec_lex_from(s, LexState { pos: 0, line: 1, col: 1 })
}

/// Whether scanning the rest of s from st, after the tokens in done have
/// been produced, completes the whole scan: the shape of the loop invariant
/// the scanner maintains.
pub open spec fn lex_decomposes(s: Seq<char>, st: LexState, done: Seq<SpecToken>) -> bool {
    match spec_lex_from(s, st) {
        Ok(rest) => spec_lex(s) == Ok::<Seq<SpecToken>, SpecLexError>(done + rest),
        Err(e) => spec_lex(s) == Err::<Seq<SpecToken>, SpecLexError>(e),
    }
}

pub proof fn lemma_digit_run_end_bounds(s: Seq<char>, i: int)
    requires
        0 <= i && i <= s.len(),
    ensures
        i <= digit_run_end(s, i) && digit_run_end(s, i) <= s.len(),
    decreases s.len() - i,
{
    if i < s.len() && is_digit_char(s[i]) {
        lemma_digit_run_end_bounds(s, i + 1);
    }
}

pub proof fn lemma_ident_run_end_bounds(s: Seq<char>, i: int)
    requires
        0 <= i && i <= s.len(),
    ensures
        i <= ident_run_end(s, i) && ident_run_end(s, i) <= s.len(),
    decreases s.len() - i,
{
    if i < s.len() && is_alpha_numeric_char(s[i]) {
        lemma_ident_run_end_bounds(s, i + 1);
    }
}

pub proof fn lemma_line_comment_end_bounds(s: Seq<char>, i: int)
    requires
        0 <= i && i <= s.len(),
    ensures
        i <= line_comment_end(s, i) && line_comment_end(s, i) <= s.len(),
    decreases s.len() - i,
{
    if i < s.len() && s[i] != '\n' {
        lemma_line_comment_end_bounds(s, i + 1);
    }
}

pub proof fn lemma_string_scan_bounds(s: Seq<char>, st: LexState)
    requires
        0 <= st.pos && st.pos <= s.len(),
    ensures
        match string_scan(s, st) {
            Ok(done) => st.pos < done.pos && done.pos <= s.len(),
            Err(_) => true,
        },
    decreases s.len() - st.pos,
{
    if st.pos < s.len() && s[st.pos] != '"' {
        if s[st.pos] == '\n' {
            lemma_string_scan_bounds(s, LexState { pos: st.pos + 1, line: st.line + 1, col: 1 });
        } else {
            lemma_string_scan_bounds(s, stepped(st, 1));
        }
    }
}

pub proof fn lemma_block_comment_scan_bounds(s: Seq<char>, st: LexState)
    requires
        0 <= st.pos && st.pos <= s.len(),
    ensures
        match block_comment_scan(s, st) {
            Ok(done) => st.pos < done.pos && done.pos <= s.len(),
            Err(_) => true,
        },
    decreases s.len() - st.pos,
{
    if st.pos < s.len() && !(s[st.pos] == '*' && next_is(s, st.pos + 1, '/')) {
        if s[st.pos] == '\n' {
            lemma_block_comment_scan_bounds(s, LexState { pos: st.pos + 1, line: st.line + 1, col: 2 });
        } else {
            lemma_block_comment_scan_bounds(s, stepped(st, 1));
        }
    }
}

/// A scan step always moves the cursor strictly forward, and never past the
/// end of the input.
pub proof fn lemma_step_in_bounds(s: Seq<char>, st: LexState)
    requires
        0 <= st.pos && st.pos < s.len(),
    ensures
        match spec_step(s, st) {
            StepResult::Skip { next } => st.pos < next.pos && next.pos <= s.len(),
            StepResult::Emit { next, token } => st.pos < next.pos && next.pos <= s.len(),
            StepResult::Fail { err } => true,
        },
{
    let c = s[st.pos];
    if c == '/' && next_is(s, st.pos + 1, '/') {
        lemma_line_comment_end_bounds(s, st.pos + 2);
    } else if c == '/' && next_is(s, st.pos + 1, '*') {
        lemma_block_comment_scan_bounds(s, stepped(st, 2));
    } else if c == '"' || c == '\'' {
        lemma_string_scan_bounds(s, stepped(st, 1));
    } else if is_digit_char(c) {
        lemma_digit_run_end_bounds(s, st.pos + 1);
        let d1 = digit_run_end(s, st.pos + 1);
        if next_is(s, d1, '.') && d1 + 1 < s.len() && is_digit_char(s[d1 + 1]) {
            lemma_digit_run_end_bounds(s, d1 + 1);
        }
    } else if is_alpha_char(c) {
        lemma_ident_run_end_bounds(s, st.pos + 1);
    }
}

} // verus!
