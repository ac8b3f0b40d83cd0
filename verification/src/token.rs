//! Tokens, token kinds, and lexical errors, together with their mathematical
//! images and the rendering of an error as a human-readable message.

use vstd::prelude::*;
use vstd::string::StringExecFns;

verus! {

/// The closed set of categories a token can belong to.
#[derive(Debug, PartialEq, Eq, Clone, Copy, Structural)]
pub enum TokenType {
    Eof,
    // Identifiers and literals
    Identifier,
    NumberLiteral,
    StringLiteral,
    // Reserved words: structure
    Class,
    Interface,
    Import,
    Package,
    Enum,
    Struct,
    Protected,
    Private,
    Override,
    This,
    New,
    Super,
    Constructor,
    Data,
    Typeof,
    Annotation,
    // Reserved words: control flow
    If,
    Else,
    Elif,
    While,
    For,
    Loop,
    Break,
    Continue,
    // Reserved words: functions
    Async,
    Await,
    Function,
    Return,
    // Reserved words: literal values
    True,
    False,
    Null,
    // Reserved words: bindings
    Mut,
    Val,
    // Reserved words: word operators
    And,
    Or,
    Not,
    Is,
    In,
    Of,
    // Reserved words: error handling
    Try,
    Catch,
    Finally,
    Throw,
    // Reserved words: selection
    Switch,
    Case,
    Default,
    // Operator symbols
    Plus,
    Minus,
    Star,
    Slash,
    Percent,
    AndAnd,
    OrOr,
    NotBang,
    NotEqual,
    EqualEqual,
    Colon,
    Greater,
    Less,
    GreaterEqual,
    LessEqual,
    MinusMinus,
    PlusPlus,
    Dollar,
    BangBang,
    // Assignment
    Equal,
    // Brackets
    LeftParen,
    RightParen,
    LeftBrace,
    RightBrace,
    LeftBracket,
    RightBracket,
    // Arrows, paths and markers
    Arrow,
    FatArrow,
    ColonColon,
    Question,
    Ellipsis,
    BitAnd,
    BitOr,
    BitXor,
    ShiftLeft,
    ShiftRight,
    AT,
    // Punctuation
    Comma,
    Dot,
    Semicolon,
}

/// One token: its kind, the exact source text it was read from, and the
/// 1-based line and the column of the cursor once the lexeme was consumed.
#[derive(Debug)]
pub struct Token {
    pub token_type: TokenType,
    pub lexeme: String,
    pub line: i64,
    pub column: i64,
}

/// The mathematical image of a token: the lexeme as a character sequence and
/// unbounded position numbers.
pub struct SpecToken {
    pub token_type: TokenType,
    pub lexeme: Seq<char>,
    pub line: int,
    pub column: int,
}

impl View for Token {
    type V = SpecToken;

    open spec fn view(&self) -> SpecToken {
        SpecToken {
            token_type: self.token_type,
            lexeme: self.lexeme@,
            line: self.line as int,
            column: self.column as int,
        }
    }
}

/// The images of a sequence of tokens, in order.
pub open spec fn tokens_view(tokens: Seq<Token>) -> Seq<SpecToken> {
    tokens.map(|i: int, t: Token| t@)
}

impl Token {
    /// Renders the token the way the scanner describes one: its kind's
    /// name, its lexeme, and its line and column.
    pub fn display_string(&self) -> (m: String)
        requires
            0 <= self.line,
            0 <= self.column,
        ensures
            m@ == spec_display(self@),
    {
        let mut m = String::new();
        m.append(kind_name_str(self.token_type));
        m.append("('");
        m.append(self.lexeme.as_str());
        m.append("') at ");
        push_decimal(&mut m, self.line);
        m.append(":");
        push_decimal(&mut m, self.column);
        proof {
            assert(m@ =~= spec_display(self@));
        }
        m
    }
}

/// The description text belonging to a token.
pub open spec fn spec_display(t: SpecToken) -> Seq<char> {
    kind_name(t.token_type) + "('"@ + t.lexeme + "') at "@ + decimal_digits(t.line) + ":"@
        + decimal_digits(t.column)
}

/// The name of a token kind, as the kind's description renders it.
pub open spec fn kind_name(k: TokenType) -> Seq<char> {
    match k {
        TokenType::Eof => "Eof"@,
        TokenType::Identifier => "Identifier"@,
        TokenType::NumberLiteral => "NumberLiteral"@,
        TokenType::StringLiteral => "StringLiteral"@,
        TokenType::Class => "Class"@,
        TokenType::Interface => "Interface"@,
        TokenType::Import => "Import"@,
        TokenType::Package => "Package"@,
        TokenType::Enum => "Enum"@,
        TokenType::Struct => "Struct"@,
        TokenType::Protected => "Protected"@,
        TokenType::Private => "Private"@,
        TokenType::Override => "Override"@,
        TokenType::This => "This"@,
        TokenType::New => "New"@,
        TokenType::Super => "Super"@,
        TokenType::Constructor => "Constructor"@,
        TokenType::Data => "Data"@,
        TokenType::Typeof => "Typeof"@,
        TokenType::Annotation => "Annotation"@,
        TokenType::If => "If"@,
        TokenType::Else => "Else"@,
        TokenType::Elif => "Elif"@,
        TokenType::While => "While"@,
        TokenType::For => "For"@,
        TokenType::Loop => "Loop"@,
        TokenType::Break => "Break"@,
        TokenType::Continue => "Continue"@,
        TokenType::Async => "Async"@,
        TokenType::Await => "Await"@,
        TokenType::Function => "Function"@,
        TokenType::Return => "Return"@,
        TokenType::True => "True"@,
        TokenType::False => "False"@,
        TokenType::Null => "Null"@,
        TokenType::Mut => "Mut"@,
        TokenType::Val => "Val"@,
        TokenType::And => "And"@,
        TokenType::Or => "Or"@,
        TokenType::Not => "Not"@,
        TokenType::Is => "Is"@,
        TokenType::In => "In"@,
        TokenType::Of => "Of"@,
        TokenType::Try => "Try"@,
        TokenType::Catch => "Catch"@,
        TokenType::Finally => "Finally"@,
        TokenType::Throw => "Throw"@,
        TokenType::Switch => "Switch"@,
        TokenType::Case => "Case"@,
        TokenType::Default => "Default"@,
        TokenType::Plus => "Plus"@,
        TokenType::Minus => "Minus"@,
        TokenType::Star => "Star"@,
        TokenType::Slash => "Slash"@,
        TokenType::Percent => "Percent"@,
        TokenType::AndAnd => "AndAnd"@,
        TokenType::OrOr => "OrOr"@,
        TokenType::NotBang => "NotBang"@,
        TokenType::NotEqual => "NotEqual"@,
        TokenType::EqualEqual => "EqualEqual"@,
        TokenType::Colon => "Colon"@,
        TokenType::Greater => "Greater"@,
        TokenType::Less => "Less"@,
        TokenType::GreaterEqual => "GreaterEqual"@,
        TokenType::LessEqual => "LessEqual"@,
        TokenType::MinusMinus => "MinusMinus"@,
        TokenType::PlusPlus => "PlusPlus"@,
        TokenType::Dollar => "Dollar"@,
        TokenType::BangBang => "BangBang"@,
        TokenType::Equal => "Equal"@,
        TokenType::LeftParen => "LeftParen"@,
        TokenType::RightParen => "RightParen"@,
        TokenType::LeftBrace => "LeftBrace"@,
        TokenType::RightBrace => "RightBrace"@,
        TokenType::LeftBracket => "LeftBracket"@,
        TokenType::RightBracket => "RightBracket"@,
        TokenType::Arrow => "Arrow"@,
        TokenType::FatArrow => "FatArrow"@,
        TokenType::ColonColon => "ColonColon"@,
        TokenType::Question => "Question"@,
        TokenType::Ellipsis => "Ellipsis"@,
        TokenType::BitAnd => "BitAnd"@,
        TokenType::BitOr => "BitOr"@,
        TokenType::BitXor => "BitXor"@,
        TokenType::ShiftLeft => "ShiftLeft"@,
        TokenType::ShiftRight => "ShiftRight"@,
        TokenType::AT => "AT"@,
        TokenType::Comma => "Comma"@,
        TokenType::Dot => "Dot"@,
        TokenType::Semicolon => "Semicolon"@,
    }
}

/// The name of a token kind.
fn kind_name_str(k: TokenType) -> (r: &'static str)
    ensures
        r@ == kind_name(k),
{
    match k {
        TokenType::Eof => "Eof",
        TokenType::Identifier => "Identifier",
        TokenType::NumberLiteral => "NumberLiteral",
        TokenType::StringLiteral => "StringLiteral",
        TokenType::Class => "Class",
        TokenType::Interface => "Interface",
        TokenType::Import => "Import",
        TokenType::Package => "Package",
        TokenType::Enum => "Enum",
        TokenType::Struct => "Struct",
        TokenType::Protected => "Protected",
        TokenType::Private => "Private",
        TokenType::Override => "Override",
        TokenType::This => "This",
        TokenType::New => "New",
        TokenType::Super => "Super",
        TokenType::Constructor => "Constructor",
        TokenType::Data => "Data",
        TokenType::Typeof => "Typeof",
        TokenType::Annotation => "Annotation",
        TokenType::If => "If",
        TokenType::Else => "Else",
        TokenType::Elif => "Elif",
        TokenType::While => "While",
        TokenType::For => "For",
        TokenType::Loop => "Loop",
        TokenType::Break => "Break",
        TokenType::Continue => "Continue",
        TokenType::Async => "Async",
        TokenType::Await => "Await",
        TokenType::Function => "Function",
        TokenType::Return => "Return",
        TokenType::True => "True",
        TokenType::False => "False",
        TokenType::Null => "Null",
        TokenType::Mut => "Mut",
        TokenType::Val => "Val",
        TokenType::And => "And",
        TokenType::Or => "Or",
        TokenType::Not => "Not",
        TokenType::Is => "Is",
        TokenType::In => "In",
        TokenType::Of => "Of",
        TokenType::Try => "Try",
        TokenType::Catch => "Catch",
        TokenType::Finally => "Finally",
        TokenType::Throw => "Throw",
        TokenType::Switch => "Switch",
        TokenType::Case => "Case",
        TokenType::Default => "Default",
        TokenType::Plus => "Plus",
        TokenType::Minus => "Minus",
        TokenType::Star => "Star",
        TokenType::Slash => "Slash",
        TokenType::Percent => "Percent",
        TokenType::AndAnd => "AndAnd",
        TokenType::OrOr => "OrOr",
        TokenType::NotBang => "NotBang",
        TokenType::NotEqual => "NotEqual",
        TokenType::EqualEqual => "EqualEqual",
        TokenType::Colon => "Colon",
        TokenType::Greater => "Greater",
        TokenType::Less => "Less",
        TokenType::GreaterEqual => "GreaterEqual",
        TokenType::LessEqual => "LessEqual",
        TokenType::MinusMinus => "MinusMinus",
        TokenType::PlusPlus => "PlusPlus",
        TokenType::Dollar => "Dollar",
        TokenType::BangBang => "BangBang",
        TokenType::Equal => "Equal",
        TokenType::LeftParen => "LeftParen",
        TokenType::RightParen => "RightParen",
        TokenType::LeftBrace => "LeftBrace",
        TokenType::RightBrace => "RightBrace",
        TokenType::LeftBracket => "LeftBracket",
        TokenType::RightBracket => "RightBracket",
        TokenType::Arrow => "Arrow",
        TokenType::FatArrow => "FatArrow",
        TokenType::ColonColon => "ColonColon",
        TokenType::Question => "Question",
        TokenType::Ellipsis => "Ellipsis",
        TokenType::BitAnd => "BitAnd",
        TokenType::BitOr => "BitOr",
        TokenType::BitXor => "BitXor",
        TokenType::ShiftLeft => "ShiftLeft",
        TokenType::ShiftRight => "ShiftRight",
        TokenType::AT => "AT",
        TokenType::Comma => "Comma",
        TokenType::Dot => "Dot",
        TokenType::Semicolon => "Semicolon",
    }
}

/// A lexical fault: the one kind of failure the scanner reports, with the
/// position data its rendered message carries.
#[derive(Debug, PartialEq, Eq, Clone, Copy, Structural)]
pub enum LexError {
    UnexpectedCharacter { ch: char, line: i64, column: i64 },
    UnterminatedStringLiteral { line: i64 },
    UnterminatedBlockComment { line: i64 },
    MalformedEllipsis { line: i64 },
}

/// The mathematical image of a lexical fault, with unbounded positions.
pub enum SpecLexError {
    UnexpectedCharacter { ch: char, line: int, column: int },
    UnterminatedStringLiteral { line: int },
    UnterminatedBlockComment { line: int },
    MalformedEllipsis { line: int },
}

impl View for LexError {
    type V = SpecLexError;

    open spec fn view(&self) -> SpecLexError {
        match *self {
            LexError::UnexpectedCharacter { ch, line, column } => {
                SpecLexError::UnexpectedCharacter { ch, line: line as int, column: column as int }
            },
            LexError::UnterminatedStringLiteral { line } => {
                SpecLexError::UnterminatedStringLiteral { line: line as int }
            },
            LexError::UnterminatedBlockComment { line } => {
                SpecLexError::UnterminatedBlockComment { line: line as int }
            },
            LexError::MalformedEllipsis { line } => {
                SpecLexError::MalformedEllipsis { line: line as int }
            },
        }
    }
}

impl LexError {
    /// The positions an error produced by the scanner always carries.
    pub open spec fn wf(self) -> bool {
        match self {
            LexError::UnexpectedCharacter { ch, line, column } => 0 <= line && 0 <= column,
            LexError::UnterminatedStringLiteral { line } => 0 <= line,
            LexError::UnterminatedBlockComment { line } => 0 <= line,
            LexError::MalformedEllipsis { line } => 0 <= line,
        }
    }

    /// Renders the fault as the scanner's human-readable message.
    pub fn message(&self) -> (m: String)
        requires
            self.wf(),
        ensures
            m@ == spec_message(self@),
    {
        let mut m = String::new();
        match *self {
            LexError::UnexpectedCharacter { ch, line, column } => {
                m.append("Unexpected character '");
                push_char(&mut m, ch);
                m.append("' at line ");
                push_decimal(&mut m, line);
                m.append(" column ");
                push_decimal(&mut m, column);
            },
            LexError::UnterminatedStringLiteral { line } => {
                m.append("Unterminated string literal at line ");
                push_decimal(&mut m, line);
            },
            LexError::UnterminatedBlockComment { line } => {
                m.append("Unterminated block comment at line ");
                push_decimal(&mut m, line);
            },
            LexError::MalformedEllipsis { line } => {
                m.append("Expected third '.' for ellipsis at line ");
                push_decimal(&mut m, line);
            },
        }
        proof {
            assert(m@ =~= spec_message(self@));
        }
        m
    }
}

/// The message text belonging to a fault.
pub open spec fn spec_message(e: SpecLexError) -> Seq<char> {
    match e {
        SpecLexError::UnexpectedCharacter { ch, line, column } => {
            "Unexpected character '"@ + seq![ch] + "' at line "@ + decimal_digits(line) + " column "@
                + decimal_digits(column)
        },
        SpecLexError::UnterminatedStringLiteral { line } => {
            "Unterminated string literal at line "@ + decimal_digits(line)
        },
        SpecLexError::UnterminatedBlockComment { line } => {
            "Unterminated block comment at line "@ + decimal_digits(line)
        },
        SpecLexError::MalformedEllipsis { line } => {
            "Expected third '.' for ellipsis at line "@ + decimal_digits(line)
        },
    }
}

/// The decimal digit character standing for d, for 0 <= d <= 9.
pub open spec fn decimal_digit_char(d: int) -> char {
    ((48 + d) as u8) as char
}

/// The decimal numeral of n, most significant digit first.
pub open spec fn decimal_digits(n: int) -> Seq<char>
    decreases n,
{
    if n < 10 {
        seq![decimal_digit_char(if n < 0 { 0 } else { n })]
    } else {
        proof {
            assert(n / 10 < n && n / 10 >= 0) by (nonlinear_arith)
                requires n >= 10;
        }
        decimal_digits(n / 10).push(decimal_digit_char(n % 10))
    }
}

/// Appends one character at the end of a string.
/// Relies on std's String::push: the character becomes the last of the string.
#[verifier::external_body]
pub(crate) fn push_char(s: &mut String, c: char)
    ensures
        final(s)@ == old(s)@.push(c),
{
    s.push(c);
}

/// Appends the decimal numeral of n.
fn push_decimal(s: &mut String, n: i64)
    requires
        0 <= n,
    ensures
        final(s)@ == old(s)@ + decimal_digits(n as int),
    decreases n,
{
    if n >= 10 {
        push_decimal(s, n / 10);
    }
    push_char(s, (48 + (n % 10) as u8) as char);
    proof {
        if n < 10 {
            assert(s@ =~= old(s)@ + decimal_digits(n as int));
        } else {
            assert(n / 10 < n && n / 10 >= 0) by (nonlinear_arith)
                requires n >= 10;
            assert(s@ =~= old(s)@ + decimal_digits(n as int));
        }
    }
}

} // verus!
