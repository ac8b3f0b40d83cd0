//! The scanner: a cursor over one immutable source buffer, the
//! character-dispatch that consumes one lexeme at a time, and the scan loop
//! that folds the steps into the full token sequence.  Every operation is
//! proved to perform exactly the corresponding step of the model in
//! `model`.

use vstd::prelude::*;
use vstd::string::StrSliceExecFns;
use crate::model::{
    advanced, block_comment_scan, char_at, eof_token, ident_run_end, ident_scan_end, is_alpha_char,
    is_alpha_numeric_char, is_digit_char, keyword_kind, lex_decomposes, lemma_step_in_bounds,
    line_comment_end, digit_run_end, next_is, number_scan_end, span_token, spec_lex,
    spec_lex_from, spec_step, stepped, string_scan, LexState, StepResult,
};
use crate::token::{push_char, tokens_view, LexError, SpecLexError, SpecToken, Token, TokenType};

verus! {

/// The longest source the scanner accepts: far below the capacity of the
/// signed 64-bit line and column counters, so that no counter can ever
/// overflow.
pub open spec fn max_source_len() -> int {
    0x7fff_ffff_ffff_fff0
}

/// The scanner: owns the source buffer as characters, the cursor over it,
/// and the tokens produced so far.  One instance scans one buffer once.
pub struct Lexer {
    source: Vec<char>,
    start: usize,
    current: usize,
    line: i64,
    column: i64,
    tokens: Vec<Token>,
}

impl Lexer {
    /// The characters of the source buffer the scanner was built over.
    pub closed spec fn src(self) -> Seq<char> {
        self.source@
    }

    /// The cursor: next unread position, line, and column.
    pub closed spec fn cursor(self) -> LexState {
        LexState { pos: self.current as int, line: self.line as int, col: self.column as int }
    }

    /// The position where the lexeme being scanned begins.
    pub closed spec fn lexeme_start(self) -> int {
        self.start as int
    }

    /// The images of the tokens produced so far.
    pub closed spec fn toks(self) -> Seq<SpecToken> {
        tokens_view(self.tokens@)
    }

    /// Structural soundness of the scanner state: the lexeme start never
    /// passes the cursor, the cursor never passes the end of the source,
    /// and the line and column counters stay within reach of the cursor,
    /// which keeps them within a signed 64-bit number.
    pub closed spec fn inv(self) -> bool {
        &&& self.start <= self.current
        &&& self.current <= self.source@.len()
        &&& self.source@.len() <= max_source_len()
        &&& 1 <= self.line && self.line <= self.current + 2
        &&& 0 <= self.column && self.column <= self.current + 2
    }

    /// A scanner as construction leaves it: nothing consumed, nothing
    /// produced, the cursor at line one, column one.
    pub closed spec fn fresh(self) -> bool {
        &&& self.start == 0
        &&& self.current == 0
        &&& self.line == 1
        &&& self.column == 1
        &&& self.tokens@ == Seq::<Token>::empty()
    }

    /// Builds a scanner bound to one immutable source buffer.
    pub fn new(source: String) -> (r: Lexer)
        requires
            source@.len() <= max_source_len(),
        ensures
            r.inv(),
            r.fresh(),
            r.src() == source@,
            r.cursor() == (LexState { pos: 0, line: 1, col: 1 }),
            r.lexeme_start() == 0,
            r.toks() == Seq::<SpecToken>::empty(),
    {
        let n = source.as_str().unicode_len();
        let mut chars: Vec<char> = Vec::new();
        let mut i: usize = 0;
        while i < n
            invariant
                i <= n,
                n == source@.len(),
                chars@ =~= source@.subrange(0, i as int),
            decreases n - i,
        {
            let c = source.as_str().get_char(i);
            chars.push(c);
            i = i + 1;
            proof {
                assert(chars@ =~= source@.subrange(0, i as int));
            }
        }
        proof {
            assert(chars@ =~= source@);
        }
        let lx = Lexer { source: chars, start: 0, current: 0, line: 1, column: 1, tokens: Vec::new() };
        proof {
            assert(lx.toks() =~= Seq::<SpecToken>::empty());
        }
        lx
    }

    /// Whether every character of the source has been consumed.
    pub fn is_at_end(&self) -> (r: bool)
        ensures
            r == (self.cursor().pos >= self.src().len()),
            self.src().len() <= usize::MAX,
    {
        self.current >= self.source.len()
    }

    /// Consumes one character and counts the column up; past the end it
    /// returns the nul sentinel and changes nothing.
    pub fn advance(&mut self) -> (c: char)
        requires
            old(self).cursor().col < i64::MAX,
        ensures
            c == char_at(old(self).src(), old(self).cursor().pos),
            final(self).src() == old(self).src(),
            final(self).lexeme_start() == old(self).lexeme_start(),
            final(self).toks() == old(self).toks(),
            final(self).cursor() == advanced(old(self).cursor(), old(self).src()),
            old(self).inv() ==> final(self).inv(),
    {
        if self.is_at_end() {
            return '\0';
        }
        let c = self.source[self.current];
        self.current = self.current + 1;
        self.column = self.column + 1;
        c
    }

    /// Consumes the next character only where it equals expected: the
    /// one-step lookahead behind the longest-match rule.
    pub fn match_char(&mut self, expected: char) -> (r: bool)
        requires
            old(self).cursor().col < i64::MAX,
        ensures
            r == next_is(old(self).src(), old(self).cursor().pos, expected),
            final(self).src() == old(self).src(),
            final(self).lexeme_start() == old(self).lexeme_start(),
            final(self).toks() == old(self).toks(),
            final(self).cursor() == (if r {
                stepped(old(self).cursor(), 1)
            } else {
                old(self).cursor()
            }),
            old(self).inv() ==> final(self).inv(),
    {
        if self.is_at_end() {
            return false;
        }
        if self.source[self.current] != expected {
            return false;
        }
        self.current = self.current + 1;
        self.column = self.column + 1;
        true
    }

    /// The next unread character, or the nul sentinel past the end.
    pub fn peek(&self) -> (c: char)
        ensures
            c == char_at(self.src(), self.cursor().pos),
    {
        if self.is_at_end() {
            '\0'
        } else {
            self.source[self.current]
        }
    }

    /// The character one past the next unread one, or the nul sentinel.
    pub fn peek_next(&self) -> (c: char)
        ensures
            c == char_at(self.src(), self.cursor().pos + 1),
    {
        if self.current >= self.source.len() {
            '\0'
        } else if self.current + 1 >= self.source.len() {
            '\0'
        } else {
            self.source[self.current + 1]
        }
    }

    /// Appends the token for the lexeme span now under the cursor, stamped
    /// with the cursor's line and column.
    fn add_token(&mut self, token_type: TokenType) -> (r: Result<(), LexError>)
        requires
            old(self).inv(),
        ensures
            r is Ok,
            final(self).inv(),
            final(self).src() == old(self).src(),
            final(self).lexeme_start() == old(self).lexeme_start(),
            final(self).cursor() == old(self).cursor(),
            final(self).toks() == old(self).toks().push(
                span_token(
                    old(self).src(),
                    old(self).lexeme_start(),
                    old(self).cursor(),
                    token_type,
                ),
            ),
    {
        let lexeme = span_to_string(&self.source, self.start, self.current);
        let tok = Token { token_type, lexeme, line: self.line, column: self.column };
        self.tokens.push(tok);
        proof {
            assert(self.toks() =~= old(self).toks().push(
                span_token(
                    old(self).src(),
                    old(self).lexeme_start(),
                    old(self).cursor(),
                    token_type,
                ),
            ));
        }
        Ok(())
    }

    /// Scans the rest of a string literal, the opening quote already
    /// consumed, and appends its token; reaching the end of the input
    /// before the closing quote is a terminal fault, reported at the line
    /// the cursor had reached when the input ran out.
    pub fn string(&mut self) -> (r: Result<(), LexError>)
        requires
            old(self).inv(),
        ensures
            final(self).inv(),
            final(self).src() == old(self).src(),
            final(self).lexeme_start() == old(self).lexeme_start(),
            match string_scan(old(self).src(), old(self).cursor()) {
                Ok(done) => {
                    &&& r is Ok
                    &&& final(self).cursor() == done
                    &&& final(self).toks() == old(self).toks().push(
                        span_token(
                            old(self).src(),
                            old(self).lexeme_start(),
                            done,
                            TokenType::StringLiteral,
                        ),
                    )
                },
                Err(line) => match r {
                    Ok(u) => false,
                    Err(e) => {
                        &&& e@ == (SpecLexError::UnterminatedStringLiteral { line })
                        &&& e.wf()
                        &&& final(self).toks() == old(self).toks()
                        &&& final(self).cursor().pos == final(self).src().len()
                        &&& final(self).cursor().line == line
                    },
                },
            },
    {
        let ghost init = *self;
        loop
            invariant_except_break
                string_scan(self.src(), self.cursor()) == string_scan(init.src(), init.cursor()),
            invariant
                init == *old(self),
                self.inv(),
                self.src() == init.src(),
                self.lexeme_start() == init.lexeme_start(),
                self.toks() == init.toks(),
            ensures
                self.inv(),
                self.src() == init.src(),
                self.lexeme_start() == init.lexeme_start(),
                self.toks() == init.toks(),
                string_scan(init.src(), init.cursor()) == Ok::<LexState, int>(self.cursor()),
            decreases self.src().len() - self.cursor().pos,
        {
            if self.is_at_end() {
                return Err(LexError::UnterminatedStringLiteral { line: self.line });
            }
            if self.peek() == '"' {
                self.advance();
                break;
            }
            if self.peek() == '\n' {
                self.line = self.line + 1;
                self.column = 0;
            }
            self.advance();
        }
        self.add_token(TokenType::StringLiteral)
    }

    /// Scans to the closing pair of a block comment, the opening pair
    /// already consumed; reaching the end of the input first is a terminal
    /// fault, reported at the line the cursor had reached when the input
    /// ran out.  No token is produced.
    pub fn block_comment(&mut self) -> (r: Result<(), LexError>)
        requires
            old(self).inv(),
        ensures
            final(self).inv(),
            final(self).src() == old(self).src(),
            final(self).lexeme_start() == old(self).lexeme_start(),
            final(self).toks() == old(self).toks(),
            match block_comment_scan(old(self).src(), old(self).cursor()) {
                Ok(done) => r is Ok && final(self).cursor() == done,
                Err(line) => match r {
                    Ok(u) => false,
                    Err(e) => {
                        &&& e@ == (SpecLexError::UnterminatedBlockComment { line })
                        &&& e.wf()
                        &&& final(self).cursor().pos == final(self).src().len()
                        &&& final(self).cursor().line == line
                    },
                },
            },
    {
        let ghost init = *self;
        loop
            invariant_except_break
                block_comment_scan(self.src(), self.cursor()) == block_comment_scan(
                    init.src(),
                    init.cursor(),
                ),
            invariant
                init == *old(self),
                self.inv(),
                self.src() == init.src(),
                self.lexeme_start() == init.lexeme_start(),
                self.toks() == init.toks(),
            ensures
                self.inv(),
                self.src() == init.src(),
                self.lexeme_start() == init.lexeme_start(),
                self.toks() == init.toks(),
                block_comment_scan(init.src(), init.cursor()) == Ok::<LexState, int>(self.cursor()),
            decreases self.src().len() - self.cursor().pos,
        {
            if self.is_at_end() {
                return Err(LexError::UnterminatedBlockComment { line: self.line });
            }
            if self.peek() == '*' && self.peek_next() == '/' {
                self.advance();
                self.advance();
                break;
            }
            if self.peek() == '\n' {
                self.line = self.line + 1;
                self.column = 1;
            }
            self.advance();
        }
        Ok(())
    }

    /// Scans the rest of a number literal, the first digit already
    /// consumed: a maximal digit run, then a fraction part only where a
    /// dot is followed by another digit, and appends the token.
    pub fn number(&mut self) -> (r: Result<(), LexError>)
        requires
            old(self).inv(),
        ensures
            r is Ok,
            final(self).inv(),
            final(self).src() == old(self).src(),
            final(self).lexeme_start() == old(self).lexeme_start(),
            final(self).cursor() == number_scan_end(old(self).src(), old(self).cursor()),
            final(self).toks() == old(self).toks().push(
                span_token(
                    old(self).src(),
                    old(self).lexeme_start(),
                    number_scan_end(old(self).src(), old(self).cursor()),
                    TokenType::NumberLiteral,
                ),
            ),
    {
        let ghost init = *self;
        while is_digit(self.peek())
            invariant
                self.inv(),
                self.src() == init.src(),
                self.lexeme_start() == init.lexeme_start(),
                self.toks() == init.toks(),
                self.cursor().line == init.cursor().line,
                self.cursor().col - init.cursor().col == self.cursor().pos - init.cursor().pos,
                init.cursor().pos <= self.cursor().pos,
                digit_run_end(self.src(), init.cursor().pos) == digit_run_end(
                    self.src(),
                    self.cursor().pos,
                ),
            decreases self.src().len() - self.cursor().pos,
        {
            self.advance();
        }
        if self.peek() == '.' && is_digit(self.peek_next()) {
            self.advance();
            let ghost afterdot = *self;
            while is_digit(self.peek())
                invariant
                    self.inv(),
                    self.src() == afterdot.src(),
                    self.lexeme_start() == afterdot.lexeme_start(),
                    self.toks() == afterdot.toks(),
                    self.cursor().line == afterdot.cursor().line,
                    self.cursor().col - afterdot.cursor().col == self.cursor().pos
                        - afterdot.cursor().pos,
                    afterdot.cursor().pos <= self.cursor().pos,
                    digit_run_end(self.src(), afterdot.cursor().pos) == digit_run_end(
                        self.src(),
                        self.cursor().pos,
                    ),
                decreases self.src().len() - self.cursor().pos,
            {
                self.advance();
            }
        }
        self.add_token(TokenType::NumberLiteral)
    }

    /// Scans the rest of an identifier, the first character already
    /// consumed, resolves its text against the reserved words, and appends
    /// the token of the resolved kind.
    pub fn identifier(&mut self) -> (r: Result<(), LexError>)
        requires
            old(self).inv(),
        ensures
            r is Ok,
            final(self).inv(),
            final(self).src() == old(self).src(),
            final(self).lexeme_start() == old(self).lexeme_start(),
            final(self).cursor() == ident_scan_end(old(self).src(), old(self).cursor()),
            final(self).toks() == old(self).toks().push(
                span_token(
                    old(self).src(),
                    old(self).lexeme_start(),
                    ident_scan_end(old(self).src(), old(self).cursor()),
                    keyword_kind(
                        old(self).src().subrange(
                            old(self).lexeme_start(),
                            ident_scan_end(old(self).src(), old(self).cursor()).pos,
                        ),
                    ),
                ),
            ),
    {
        let ghost init = *self;
        while is_alpha_numeric(self.peek())
            invariant
                self.inv(),
                self.src() == init.src(),
                self.lexeme_start() == init.lexeme_start(),
                self.toks() == init.toks(),
                self.cursor().line == init.cursor().line,
                self.cursor().col - init.cursor().col == self.cursor().pos - init.cursor().pos,
                init.cursor().pos <= self.cursor().pos,
                ident_run_end(self.src(), init.cursor().pos) == ident_run_end(
                    self.src(),
                    self.cursor().pos,
                ),
            decreases self.src().len() - self.cursor().pos,
        {
            self.advance();
        }
        let text = span_to_string(&self.source, self.start, self.current);
        let kind = lookup_keyword(text.as_str());
        self.add_token(kind)
    }

    /// Scans one lexeme from the character under the cursor: whitespace
    /// and comments are skipped, every other recognized character begins a
    /// token, and an unrecognized one stops the scan.  The outcome is
    /// exactly one step of the model.
    pub fn scan_tokens(&mut self) -> (r: Result<(), LexError>)
        requires
            old(self).inv(),
            old(self).lexeme_start() == old(self).cursor().pos,
            old(self).cursor().pos < old(self).src().len(),
        ensures
            final(self).inv(),
            final(self).src() == old(self).src(),
            final(self).lexeme_start() == old(self).lexeme_start(),
            match spec_step(old(self).src(), old(self).cursor()) {
                StepResult::Skip { next } => {
                    &&& r is Ok
                    &&& final(self).cursor() == next
                    &&& final(self).toks() == old(self).toks()
                },
                StepResult::Emit { next, token } => {
                    &&& r is Ok
                    &&& final(self).cursor() == next
                    &&& final(self).toks() == old(self).toks().push(token)
                },
                StepResult::Fail { err } => match r {
                    Ok(u) => false,
                    Err(e) => {
                        &&& e@ == err
                        &&& e.wf()
                        &&& final(self).toks() == old(self).toks()
                        &&& old(self).cursor().pos < final(self).cursor().pos
                        &&& final(self).cursor().pos <= old(self).src().len()
                    },
                },
            },
    {
        let ghost s = self.src();
        let ghost st0 = self.cursor();
        let c = self.advance();
        if c == ' ' || c == '\r' || c == '\t' {
            Ok(())
        } else if c == '\n' {
            self.line = self.line + 1;
            self.column = 1;
            Ok(())
        } else if c == '/' {
            if self.match_char('/') {
                let ghost mid = *self;
                while !self.is_at_end() && self.peek() != '\n'
                    invariant
                        self.inv(),
                        self.src() == mid.src(),
                        self.lexeme_start() == mid.lexeme_start(),
                        self.toks() == mid.toks(),
                        self.cursor().line == mid.cursor().line,
                        self.cursor().col - mid.cursor().col == self.cursor().pos
                            - mid.cursor().pos,
                        mid.cursor().pos <= self.cursor().pos,
                        line_comment_end(self.src(), mid.cursor().pos) == line_comment_end(
                            self.src(),
                            self.cursor().pos,
                        ),
                    decreases self.src().len() - self.cursor().pos,
                {
                    self.advance();
                }
                Ok(())
            } else if self.match_char('*') {
                self.block_comment()
            } else {
                self.add_token(TokenType::Slash)
            }
        } else if c == '"' || c == '\'' {
            self.string()
        } else if c == '+' {
            if self.match_char('+') {
                self.add_token(TokenType::PlusPlus)
            } else {
                self.add_token(TokenType::Plus)
            }
        } else if c == '-' {
            if self.match_char('-') {
                self.add_token(TokenType::MinusMinus)
            } else if self.match_char('>') {
                self.add_token(TokenType::Arrow)
            } else {
                self.add_token(TokenType::Minus)
            }
        } else if c == '*' {
            self.add_token(TokenType::Star)
        } else if c == '%' {
            self.add_token(TokenType::Percent)
        } else if c == '=' {
            if self.match_char('=') {
                self.add_token(TokenType::EqualEqual)
            } else {
                self.add_token(TokenType::Equal)
            }
        } else if c == '!' {
            if self.match_char('=') {
                self.add_token(TokenType::NotEqual)
            } else if self.match_char('!') {
                self.add_token(TokenType::BangBang)
            } else {
                self.add_token(TokenType::NotBang)
            }
        } else if c == '>' {
            if self.match_char('=') {
                self.add_token(TokenType::GreaterEqual)
            } else if self.match_char('>') {
                self.add_token(TokenType::ShiftRight)
            } else {
                self.add_token(TokenType::Greater)
            }
        } else if c == '<' {
            if self.match_char('=') {
                self.add_token(TokenType::LessEqual)
            } else if self.match_char('<') {
                self.add_token(TokenType::ShiftLeft)
            } else {
                self.add_token(TokenType::Less)
            }
        } else if c == '&' {
            if self.match_char('&') {
                self.add_token(TokenType::AndAnd)
            } else {
                self.add_token(TokenType::BitAnd)
            }
        } else if c == '|' {
            if self.match_char('|') {
                self.add_token(TokenType::OrOr)
            } else {
                self.add_token(TokenType::BitOr)
            }
        } else if c == ':' {
            if self.match_char(':') {
                self.add_token(TokenType::ColonColon)
            } else {
                self.add_token(TokenType::Colon)
            }
        } else if c == '.' {
            if self.match_char('.') {
                if self.match_char('.') {
                    self.add_token(TokenType::Ellipsis)
                } else {
                    Err(LexError::MalformedEllipsis { line: self.line })
                }
            } else {
                self.add_token(TokenType::Dot)
            }
        } else if c == '?' {
            self.add_token(TokenType::Question)
        } else if c == ',' {
            self.add_token(TokenType::Comma)
        } else if c == ';' {
            self.add_token(TokenType::Semicolon)
        } else if c == '(' {
            self.add_token(TokenType::LeftParen)
        } else if c == ')' {
            self.add_token(TokenType::RightParen)
        } else if c == '{' {
            self.add_token(TokenType::LeftBrace)
        } else if c == '}' {
            self.add_token(TokenType::RightBrace)
        } else if c == '[' {
            self.add_token(TokenType::LeftBracket)
        } else if c == ']' {
            self.add_token(TokenType::RightBracket)
        } else if c == '$' {
            self.add_token(TokenType::Dollar)
        } else if c == '@' {
            self.add_token(TokenType::AT)
        } else if is_digit(c) {
            self.number()
        } else if is_alpha(c) {
            self.identifier()
        } else {
            Err(LexError::UnexpectedCharacter { ch: c, line: self.line, column: self.column })
        }
    }

    /// Runs the whole scan: yields the full token sequence, closed by the
    /// end-of-input token, or the first fault with no tokens at all.  A
    /// scanner is single-use: the contract speaks of a freshly built one.
    pub fn lex(&mut self) -> (r: Result<Vec<Token>, LexError>)
        requires
            old(self).inv(),
            old(self).fresh(),
        ensures
            match r {
                Ok(tokens) => spec_lex(old(self).src()) == Ok::<Seq<SpecToken>, SpecLexError>(
                    tokens_view(tokens@),
                ),
                Err(e) => spec_lex(old(self).src()) == Err::<Seq<SpecToken>, SpecLexError>(e@)
                    && e.wf(),
            },
    {
        let ghost s = self.src();
        proof {
            assert(self.toks() =~= Seq::<SpecToken>::empty());
            match spec_lex_from(s, LexState { pos: 0, line: 1, col: 1 }) {
                Ok(rest) => {
                    assert(Seq::<SpecToken>::empty() + rest =~= rest);
                },
                Err(e) => {},
            }
        }
        while !self.is_at_end()
            invariant
                s == old(self).src(),
                self.inv(),
                self.src() == s,
                lex_decomposes(s, self.cursor(), self.toks()),
            decreases s.len() - self.cursor().pos,
        {
            self.start = self.current;
            let ghost stp = self.cursor();
            let ghost donep = self.toks();
            proof {
                lemma_step_in_bounds(s, stp);
            }
            let res = self.scan_tokens();
            match res {
                Ok(u) => {
                    proof {
                        match spec_step(s, stp) {
                            StepResult::Skip { next } => {},
                            StepResult::Emit { next, token } => {
                                match spec_lex_from(s, next) {
                                    Ok(rest) => {
                                        assert(donep + (seq![token] + rest) =~= donep.push(token)
                                            + rest);
                                    },
                                    Err(e) => {},
                                }
                            },
                            StepResult::Fail { err } => {},
                        }
                    }
                },
                Err(e) => {
                    return Err(e);
                },
            }
        }
        let ghost stfin = self.cursor();
        let ghost donefin = self.toks();
        let eof = Token {
            token_type: TokenType::Eof,
            lexeme: String::new(),
            line: self.line,
            column: self.column,
        };
        self.tokens.push(eof);
        proof {
            assert(self.toks() =~= donefin + seq![eof_token(stfin)]);
        }
        let mut out: Vec<Token> = Vec::new();
        core::mem::swap(&mut out, &mut self.tokens);
        Ok(out)
    }
}

/// The characters of v between from and to, as one owned string.
fn span_to_string(v: &Vec<char>, from: usize, to: usize) -> (s: String)
    requires
        from <= to,
        to <= v@.len(),
    ensures
        s@ == v@.subrange(from as int, to as int),
{
    let mut s = String::new();
    let mut i: usize = from;
    while i < to
        invariant
            from <= i,
            i <= to,
            to <= v@.len(),
            s@ =~= v@.subrange(from as int, i as int),
        decreases to - i,
    {
        push_char(&mut s, v[i]);
        i = i + 1;
        proof {
            assert(s@ =~= v@.subrange(from as int, i as int));
        }
    }
    s
}

/// Whether two strings hold the same characters.
fn str_eq(a: &str, b: &str) -> (r: bool)
    ensures
        r == (a@ == b@),
{
    let an = a.unicode_len();
    let bn = b.unicode_len();
    if an != bn {
        return false;
    }
    let mut i: usize = 0;
    while i < an
        invariant
            i <= an,
            an == a@.len(),
            bn == b@.len(),
            an == bn,
            forall|j: int| 0 <= j && j < i ==> a@[j] == b@[j],
        decreases an - i,
    {
        if a.get_char(i) != b.get_char(i) {
            return false;
        }
        i = i + 1;
    }
    proof {
        assert(a@ =~= b@);
    }
    true
}

/// Resolves an identifier text against the reserved-word table.
fn lookup_keyword(text: &str) -> (kind: TokenType)
    ensures
        kind == keyword_kind(text@),
{
    if str_eq(text, "class") { TokenType::Class }
    else if str_eq(text, "interface") { TokenType::Interface }
    else if str_eq(text, "import") { TokenType::Import }
    else if str_eq(text, "package") { TokenType::Package }
    else if str_eq(text, "enum") { TokenType::Enum }
    else if str_eq(text, "struct") { TokenType::Struct }
    else if str_eq(text, "protected") { TokenType::Protected }
    else if str_eq(text, "private") { TokenType::Private }
    else if str_eq(text, "override") { TokenType::Override }
    else if str_eq(text, "this") { TokenType::This }
    else if str_eq(text, "new") { TokenType::New }
    else if str_eq(text, "super") { TokenType::Super }
    else if str_eq(text, "constructor") { TokenType::Constructor }
    else if str_eq(text, "data") { TokenType::Data }
    else if str_eq(text, "typeof") { TokenType::Typeof }
    else if str_eq(text, "annotation") { TokenType::Annotation }
    else if str_eq(text, "if") { TokenType::If }
    else if str_eq(text, "else") { TokenType::Else }
    else if str_eq(text, "elif") { TokenType::Elif }
    else if str_eq(text, "while") { TokenType::While }
    else if str_eq(text, "for") { TokenType::For }
    else if str_eq(text, "loop") { TokenType::Loop }
    else if str_eq(text, "break") { TokenType::Break }
    else if str_eq(text, "continue") { TokenType::Continue }
    else if str_eq(text, "async") { TokenType::Async }
    else if str_eq(text, "await") { TokenType::Await }
    else if str_eq(text, "fn") { TokenType::Function }
    else if str_eq(text, "return") { TokenType::Return }
    else if str_eq(text, "true") { TokenType::True }
    else if str_eq(text, "false") { TokenType::False }
    else if str_eq(text, "null") { TokenType::Null }
    else if str_eq(text, "mut") { TokenType::Mut }
    else if str_eq(text, "val") { TokenType::Val }
    else if str_eq(text, "and") { TokenType::And }
    else if str_eq(text, "or") { TokenType::Or }
    else if str_eq(text, "not") { TokenType::Not }
    else if str_eq(text, "is") { TokenType::Is }
    else if str_eq(text, "in") { TokenType::In }
    else if str_eq(text, "of") { TokenType::Of }
    else { TokenType::Identifier }
}

/// Whether c is an ASCII decimal digit.
fn is_digit(c: char) -> (r: bool)
    ensures
        r == is_digit_char(c),
{
    let u = c as u32;
    48 <= u && u <= 57
}

/// Whether c is an ASCII letter or the underscore.
fn is_alpha(c: char) -> (r: bool)
    ensures
        r == is_alpha_char(c),
{
    let u = c as u32;
    (97 <= u && u <= 122) || (65 <= u && u <= 90) || c == '_'
}

/// Whether c may continue an identifier.
fn is_alpha_numeric(c: char) -> (r: bool)
    ensures
        r == is_alpha_numeric_char(c),
{
    is_alpha(c) || is_digit(c)
}

} // verus!
