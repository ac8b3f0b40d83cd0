use lexer::{LexError, Lexer, Token, TokenType};

fn lex_ok(src: &str) -> Vec<Token> {
    let mut lx = Lexer::new(String::from(src));
    match lx.lex() {
        Ok(tokens) => tokens,
        Err(e) => panic!("expected a token sequence, got: {}", e.message()),
    }
}

fn lex_err(src: &str) -> LexError {
    let mut lx = Lexer::new(String::from(src));
    match lx.lex() {
        Ok(_) => panic!("expected a lexical fault"),
        Err(e) => e,
    }
}

fn kinds(tokens: &[Token]) -> Vec<TokenType> {
    tokens.iter().map(|t| t.token_type).collect()
}

#[test]
fn scenario_assignment() {
    let toks = lex_ok("x=42;");
    assert_eq!(
        kinds(&toks),
        vec![
            TokenType::Identifier,
            TokenType::Equal,
            TokenType::NumberLiteral,
            TokenType::Semicolon,
            TokenType::Eof,
        ]
    );
    assert_eq!(toks[0].lexeme, "x");
    assert_eq!(toks[1].lexeme, "=");
    assert_eq!(toks[2].lexeme, "42");
    assert_eq!(toks[3].lexeme, ";");
    assert_eq!(toks[4].lexeme, "");
}

#[test]
fn scenario_logical_and() {
    let toks = lex_ok("a&&b");
    assert_eq!(
        kinds(&toks),
        vec![TokenType::Identifier, TokenType::AndAnd, TokenType::Identifier, TokenType::Eof]
    );
    assert_eq!(toks[0].lexeme, "a");
    assert_eq!(toks[1].lexeme, "&&");
    assert_eq!(toks[2].lexeme, "b");
}

#[test]
fn scenario_line_comment() {
    let toks = lex_ok("// c\nx");
    assert_eq!(kinds(&toks), vec![TokenType::Identifier, TokenType::Eof]);
    assert_eq!(toks[0].lexeme, "x");
    assert_eq!(toks[0].line, 2);
}

#[test]
fn scenario_unterminated_block_comment() {
    let e = lex_err("/* unterminated");
    assert_eq!(e, LexError::UnterminatedBlockComment { line: 1 });
    assert_eq!(e.message(), "Unterminated block comment at line 1");
}

#[test]
fn scenario_two_dots() {
    let e = lex_err("..");
    assert_eq!(e, LexError::MalformedEllipsis { line: 1 });
    assert_eq!(e.message(), "Expected third '.' for ellipsis at line 1");
}

#[test]
fn scenario_decimal_number() {
    let toks = lex_ok("3.14");
    assert_eq!(kinds(&toks), vec![TokenType::NumberLiteral, TokenType::Eof]);
    assert_eq!(toks[0].lexeme, "3.14");
}

#[test]
fn maximal_munch_shift_right() {
    let toks = lex_ok(">>");
    assert_eq!(kinds(&toks), vec![TokenType::ShiftRight, TokenType::Eof]);
    assert_eq!(toks[0].lexeme, ">>");
}

#[test]
fn maximal_munch_ellipsis() {
    let toks = lex_ok("...");
    assert_eq!(kinds(&toks), vec![TokenType::Ellipsis, TokenType::Eof]);
    assert_eq!(toks[0].lexeme, "...");
}

#[test]
fn keyword_class() {
    let toks = lex_ok("class");
    assert_eq!(kinds(&toks), vec![TokenType::Class, TokenType::Eof]);
    assert_eq!(toks[0].lexeme, "class");
}

#[test]
fn identifier_classify() {
    let toks = lex_ok("classify");
    assert_eq!(kinds(&toks), vec![TokenType::Identifier, TokenType::Eof]);
    assert_eq!(toks[0].lexeme, "classify");
}

#[test]
fn keywords_resolve() {
    let toks = lex_ok("if else elif while for loop break continue fn return mut val and or not is in of true false null");
    assert_eq!(
        kinds(&toks),
        vec![
            TokenType::If,
            TokenType::Else,
            TokenType::Elif,
            TokenType::While,
            TokenType::For,
            TokenType::Loop,
            TokenType::Break,
            TokenType::Continue,
            TokenType::Function,
            TokenType::Return,
            TokenType::Mut,
            TokenType::Val,
            TokenType::And,
            TokenType::Or,
            TokenType::Not,
            TokenType::Is,
            TokenType::In,
            TokenType::Of,
            TokenType::True,
            TokenType::False,
            TokenType::Null,
            TokenType::Eof,
        ]
    );
}

#[test]
fn structural_keywords_resolve() {
    let toks = lex_ok("class interface import package enum struct protected private override this new super constructor data typeof annotation async await");
    assert_eq!(
        kinds(&toks),
        vec![
            TokenType::Class,
            TokenType::Interface,
            TokenType::Import,
            TokenType::Package,
            TokenType::Enum,
            TokenType::Struct,
            TokenType::Protected,
            TokenType::Private,
            TokenType::Override,
            TokenType::This,
            TokenType::New,
            TokenType::Super,
            TokenType::Constructor,
            TokenType::Data,
            TokenType::Typeof,
            TokenType::Annotation,
            TokenType::Async,
            TokenType::Await,
            TokenType::Eof,
        ]
    );
}

#[test]
fn operators_resolve() {
    let toks = lex_ok("+ ++ - -- -> * / % = == ! != !! > >= < <= << & && | || : :: . ? , ; ( ) { } [ ] $ @");
    assert_eq!(
        kinds(&toks),
        vec![
            TokenType::Plus,
            TokenType::PlusPlus,
            TokenType::Minus,
            TokenType::MinusMinus,
            TokenType::Arrow,
            TokenType::Star,
            TokenType::Slash,
            TokenType::Percent,
            TokenType::Equal,
            TokenType::EqualEqual,
            TokenType::NotBang,
            TokenType::NotEqual,
            TokenType::BangBang,
            TokenType::Greater,
            TokenType::GreaterEqual,
            TokenType::Less,
            TokenType::LessEqual,
            TokenType::ShiftLeft,
            TokenType::BitAnd,
            TokenType::AndAnd,
            TokenType::BitOr,
            TokenType::OrOr,
            TokenType::Colon,
            TokenType::ColonColon,
            TokenType::Dot,
            TokenType::Question,
            TokenType::Comma,
            TokenType::Semicolon,
            TokenType::LeftParen,
            TokenType::RightParen,
            TokenType::LeftBrace,
            TokenType::RightBrace,
            TokenType::LeftBracket,
            TokenType::RightBracket,
            TokenType::Dollar,
            TokenType::AT,
            TokenType::Eof,
        ]
    );
}

#[test]
fn newline_in_block_comment_tracking() {
    let toks = lex_ok("/*\n*/x");
    assert_eq!(kinds(&toks), vec![TokenType::Identifier, TokenType::Eof]);
    assert_eq!(toks[0].lexeme, "x");
    assert_eq!(toks[0].line, 2);
    assert_eq!(toks[0].column, 5);
}

#[test]
fn newline_in_string_tracking() {
    let toks = lex_ok("\"a\nb\"x");
    assert_eq!(kinds(&toks), vec![TokenType::StringLiteral, TokenType::Identifier, TokenType::Eof]);
    assert_eq!(toks[0].lexeme, "\"a\nb\"");
    assert_eq!(toks[0].line, 2);
    assert_eq!(toks[0].column, 3);
    assert_eq!(toks[1].line, 2);
    assert_eq!(toks[1].column, 4);
}

#[test]
fn unterminated_string() {
    let e = lex_err("\"abc");
    assert_eq!(e, LexError::UnterminatedStringLiteral { line: 1 });
    assert_eq!(e.message(), "Unterminated string literal at line 1");
}

#[test]
fn unexpected_character() {
    let e = lex_err("#");
    assert_eq!(e, LexError::UnexpectedCharacter { ch: '#', line: 1, column: 2 });
    assert_eq!(e.message(), "Unexpected character '#' at line 1 column 2");
}

#[test]
fn single_quote_opens_double_quote_closes() {
    let toks = lex_ok("'abc\"");
    assert_eq!(kinds(&toks), vec![TokenType::StringLiteral, TokenType::Eof]);
    assert_eq!(toks[0].lexeme, "'abc\"");
}

#[test]
fn empty_source_yields_single_eof() {
    let toks = lex_ok("");
    assert_eq!(kinds(&toks), vec![TokenType::Eof]);
    assert_eq!(toks[0].lexeme, "");
    assert_eq!(toks[0].line, 1);
    assert_eq!(toks[0].column, 1);
}

#[test]
fn number_without_fraction_keeps_dot_separate() {
    let toks = lex_ok("3.");
    assert_eq!(kinds(&toks), vec![TokenType::NumberLiteral, TokenType::Dot, TokenType::Eof]);
    assert_eq!(toks[0].lexeme, "3");
    assert_eq!(toks[1].lexeme, ".");
}

#[test]
fn coverage_without_whitespace() {
    let src = "a+b*(c-1)";
    let toks = lex_ok(src);
    let mut rebuilt = String::new();
    for t in &toks {
        rebuilt.push_str(&t.lexeme);
    }
    assert_eq!(rebuilt, src);
}

#[test]
fn eof_is_last_and_unique() {
    let toks = lex_ok("val x = 1 // end\n");
    assert_eq!(toks.last().unwrap().token_type, TokenType::Eof);
    let eof_count = toks.iter().filter(|t| t.token_type == TokenType::Eof).count();
    assert_eq!(eof_count, 1);
}

#[test]
fn cursor_columns_after_lexemes() {
    let toks = lex_ok("x=42;");
    assert_eq!(toks[0].column, 2);
    assert_eq!(toks[1].column, 3);
    assert_eq!(toks[2].column, 5);
    assert_eq!(toks[3].column, 6);
    assert_eq!(toks[4].column, 6);
    for t in &toks {
        assert_eq!(t.line, 1);
    }
}

#[test]
fn underscore_starts_identifier() {
    let toks = lex_ok("_name9");
    assert_eq!(kinds(&toks), vec![TokenType::Identifier, TokenType::Eof]);
    assert_eq!(toks[0].lexeme, "_name9");
}

#[test]
fn unexpected_character_on_later_line() {
    let e = lex_err("x\n  #");
    assert_eq!(e, LexError::UnexpectedCharacter { ch: '#', line: 2, column: 4 });
    assert_eq!(e.message(), "Unexpected character '#' at line 2 column 4");
}

#[test]
fn unreserved_words_lex_as_identifiers() {
    // These kinds exist in the token enumeration but have no entry in the
    // keyword table, so the words resolve to plain identifiers.
    let toks = lex_ok("try catch finally throw switch case default");
    for t in toks.iter().take(7) {
        assert_eq!(t.token_type, TokenType::Identifier);
    }
    assert_eq!(toks.len(), 8);
}

#[test]
fn equal_then_greater_not_fat_arrow() {
    let toks = lex_ok("=>");
    assert_eq!(kinds(&toks), vec![TokenType::Equal, TokenType::Greater, TokenType::Eof]);
}

#[test]
fn two_dots_after_number_are_malformed_ellipsis() {
    let e = lex_err("1..2");
    assert_eq!(e, LexError::MalformedEllipsis { line: 1 });
}

#[test]
fn whitespace_is_skipped() {
    let toks = lex_ok(" \t\r x");
    assert_eq!(kinds(&toks), vec![TokenType::Identifier, TokenType::Eof]);
    assert_eq!(toks[0].lexeme, "x");
    assert_eq!(toks[0].line, 1);
}

#[test]
fn carriage_return_does_not_count_lines() {
    let toks = lex_ok("a\r\nb");
    assert_eq!(toks[0].line, 1);
    assert_eq!(toks[1].line, 2);
}

#[test]
fn token_description() {
    let toks = lex_ok("x=42;");
    assert_eq!(toks[0].display_string(), "Identifier('x') at 1:2");
    assert_eq!(toks[2].display_string(), "NumberLiteral('42') at 1:5");
    assert_eq!(toks[4].display_string(), "Eof('') at 1:6");
}
