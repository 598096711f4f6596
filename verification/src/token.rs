use vstd::prelude::*;

verus! {

/// The kind of a lexical token. `String` carries the decoded text between the
/// quotes, `Number` the bit pattern of the IEEE 754 binary64 value the lexeme
/// denotes, and `SyntaxErr` a diagnostic message for an in-band lexical error.
#[derive(Debug, PartialEq)]
pub enum TokenType {
    // Single-character tokens.
    LeftParen,
    RightParen,
    LeftBrace,
    RightBrace,
    Comma,
    Dot,
    Minus,
    Plus,
    Semicolon,
    Slash,
    Star,
    // One or two character tokens.
    Bang,
    BangEqual,
    Equal,
    EqualEqual,
    Greater,
    GreaterEqual,
    Less,
    LessEqual,
    // Literals.
    Identifier,
    String(String),
    Number(u64),
    // Keywords.
    And,
    Class,
    Else,
    False,
    Fun,
    For,
    If,
    Nil,
    Or,
    Print,
    Return,
    Super,
    This,
    True,
    Var,
    While,
    // Token for a lexical error, carrying its diagnostic message.
    SyntaxErr(String),
    EOF,
}

/// The mathematical model of a token kind: the same closed set of tags, with
/// text carried as a sequence of characters.
pub enum SpecTokenType {
    LeftParen,
    RightParen,
    LeftBrace,
    RightBrace,
    Comma,
    Dot,
    Minus,
    Plus,
    Semicolon,
    Slash,
    Star,
    Bang,
    BangEqual,
    Equal,
    EqualEqual,
    Greater,
    GreaterEqual,
    Less,
    LessEqual,
    Identifier,
    String(Seq<char>),
    Number(u64),
    And,
    Class,
    Else,
    False,
    Fun,
    For,
    If,
    Nil,
    Or,
    Print,
    Return,
    Super,
    This,
    True,
    Var,
    While,
    SyntaxErr(Seq<char>),
    EOF,
}

impl View for TokenType {
    type V = SpecTokenType;

    open spec fn view(&self) -> SpecTokenType {
        match self {
            TokenType::LeftParen => SpecTokenType::LeftParen,
            TokenType::RightParen => SpecTokenType::RightParen,
            TokenType::LeftBrace => SpecTokenType::LeftBrace,
            TokenType::RightBrace => SpecTokenType::RightBrace,
            TokenType::Comma => SpecTokenType::Comma,
            TokenType::Dot => SpecTokenType::Dot,
            TokenType::Minus => SpecTokenType::Minus,
            TokenType::Plus => SpecTokenType::Plus,
            TokenType::Semicolon => SpecTokenType::Semicolon,
            TokenType::Slash => SpecTokenType::Slash,
            TokenType::Star => SpecTokenType::Star,
            TokenType::Bang => SpecTokenType::Bang,
            TokenType::BangEqual => SpecTokenType::BangEqual,
            TokenType::Equal => SpecTokenType::Equal,
            TokenType::EqualEqual => SpecTokenType::EqualEqual,
            TokenType::Greater => SpecTokenType::Greater,
            TokenType::GreaterEqual => SpecTokenType::GreaterEqual,
            TokenType::Less => SpecTokenType::Less,
            TokenType::LessEqual => SpecTokenType::LessEqual,
            TokenType::Identifier => SpecTokenType::Identifier,
            TokenType::String(s) => SpecTokenType::String(s@),
            TokenType::Number(bits) => SpecTokenType::Number(*bits),
            TokenType::And => SpecTokenType::And,
            TokenType::Class => SpecTokenType::Class,
            TokenType::Else => SpecTokenType::Else,
            TokenType::False => SpecTokenType::False,
            TokenType::Fun => SpecTokenType::Fun,
            TokenType::For => SpecTokenType::For,
            TokenType::If => SpecTokenType::If,
            TokenType::Nil => SpecTokenType::Nil,
            TokenType::Or => SpecTokenType::Or,
            TokenType::Print => SpecTokenType::Print,
            TokenType::Return => SpecTokenType::Return,
            TokenType::Super => SpecTokenType::Super,
            TokenType::This => SpecTokenType::This,
            TokenType::True => SpecTokenType::True,
            TokenType::Var => SpecTokenType::Var,
            TokenType::While => SpecTokenType::While,
            TokenType::SyntaxErr(m) => SpecTokenType::SyntaxErr(m@),
            TokenType::EOF => SpecTokenType::EOF,
        }
    }
}

impl Clone for TokenType {
    /// A clone denotes exactly the same token kind.
    fn clone(&self) -> (r: Self)
        ensures
            r == *self,
    {
        match self {
            TokenType::LeftParen => TokenType::LeftParen,
            TokenType::RightParen => TokenType::RightParen,
            TokenType::LeftBrace => TokenType::LeftBrace,
            TokenType::RightBrace => TokenType::RightBrace,
            TokenType::Comma => TokenType::Comma,
            TokenType::Dot => TokenType::Dot,
            TokenType::Minus => TokenType::Minus,
            TokenType::Plus => TokenType::Plus,
            TokenType::Semicolon => TokenType::Semicolon,
            TokenType::Slash => TokenType::Slash,
            TokenType::Star => TokenType::Star,
            TokenType::Bang => TokenType::Bang,
            TokenType::BangEqual => TokenType::BangEqual,
            TokenType::Equal => TokenType::Equal,
            TokenType::EqualEqual => TokenType::EqualEqual,
            TokenType::Greater => TokenType::Greater,
            TokenType::GreaterEqual => TokenType::GreaterEqual,
            TokenType::Less => TokenType::Less,
            TokenType::LessEqual => TokenType::LessEqual,
            TokenType::Identifier => TokenType::Identifier,
            TokenType::String(s) => TokenType::String(s.clone()),
            TokenType::Number(bits) => TokenType::Number(*bits),
            TokenType::And => TokenType::And,
            TokenType::Class => TokenType::Class,
            TokenType::Else => TokenType::Else,
            TokenType::False => TokenType::False,
            TokenType::Fun => TokenType::Fun,
            TokenType::For => TokenType::For,
            TokenType::If => TokenType::If,
            TokenType::Nil => TokenType::Nil,
            TokenType::Or => TokenType::Or,
            TokenType::Print => TokenType::Print,
            TokenType::Return => TokenType::Return,
            TokenType::Super => TokenType::Super,
            TokenType::This => TokenType::This,
            TokenType::True => TokenType::True,
            TokenType::Var => TokenType::Var,
            TokenType::While => TokenType::While,
            TokenType::SyntaxErr(m) => TokenType::SyntaxErr(m.clone()),
            TokenType::EOF => TokenType::EOF,
        }
    }
}

/// A token kind with its payload stripped: one tag per `TokenType` variant,
/// for reporting and comparisons that only care which kind a token is.
#[derive(Debug, Clone, Copy, PartialEq, Eq)]
pub enum TokenDiscriminant {
    LeftParen,
    RightParen,
    LeftBrace,
    RightBrace,
    Comma,
    Dot,
    Minus,
    Plus,
    Semicolon,
    Slash,
    Star,
    Bang,
    BangEqual,
    Equal,
    EqualEqual,
    Greater,
    GreaterEqual,
    Less,
    LessEqual,
    Identifier,
    String,
    Number,
    And,
    Class,
    Else,
    False,
    Fun,
    For,
    If,
    Nil,
    Or,
    Print,
    Return,
    Super,
    This,
    True,
    Var,
    While,
    SyntaxErr,
    EOF,
}

/// The discriminant of a token kind: the same tag with the payload dropped.
pub open spec fn spec_discriminant(k: SpecTokenType) -> TokenDiscriminant {
    match k {
        SpecTokenType::LeftParen => TokenDiscriminant::LeftParen,
        SpecTokenType::RightParen => TokenDiscriminant::RightParen,
        SpecTokenType::LeftBrace => TokenDiscriminant::LeftBrace,
        SpecTokenType::RightBrace => TokenDiscriminant::RightBrace,
        SpecTokenType::Comma => TokenDiscriminant::Comma,
        SpecTokenType::Dot => TokenDiscriminant::Dot,
        SpecTokenType::Minus => TokenDiscriminant::Minus,
        SpecTokenType::Plus => TokenDiscriminant::Plus,
        SpecTokenType::Semicolon => TokenDiscriminant::Semicolon,
        SpecTokenType::Slash => TokenDiscriminant::Slash,
        SpecTokenType::Star => TokenDiscriminant::Star,
        SpecTokenType::Bang => TokenDiscriminant::Bang,
        SpecTokenType::BangEqual => TokenDiscriminant::BangEqual,
        SpecTokenType::Equal => TokenDiscriminant::Equal,
        SpecTokenType::EqualEqual => TokenDiscriminant::EqualEqual,
        SpecTokenType::Greater => TokenDiscriminant::Greater,
        SpecTokenType::GreaterEqual => TokenDiscriminant::GreaterEqual,
        SpecTokenType::Less => TokenDiscriminant::Less,
        SpecTokenType::LessEqual => TokenDiscriminant::LessEqual,
        SpecTokenType::Identifier => TokenDiscriminant::Identifier,
        SpecTokenType::String(_) => TokenDiscriminant::String,
        SpecTokenType::Number(_) => TokenDiscriminant::Number,
        SpecTokenType::And => TokenDiscriminant::And,
        SpecTokenType::Class => TokenDiscriminant::Class,
        SpecTokenType::Else => TokenDiscriminant::Else,
        SpecTokenType::False => TokenDiscriminant::False,
        SpecTokenType::Fun => TokenDiscriminant::Fun,
        SpecTokenType::For => TokenDiscriminant::For,
        SpecTokenType::If => TokenDiscriminant::If,
        SpecTokenType::Nil => TokenDiscriminant::Nil,
        SpecTokenType::Or => TokenDiscriminant::Or,
        SpecTokenType::Print => TokenDiscriminant::Print,
        SpecTokenType::Return => TokenDiscriminant::Return,
        SpecTokenType::Super => TokenDiscriminant::Super,
        SpecTokenType::This => TokenDiscriminant::This,
        SpecTokenType::True => TokenDiscriminant::True,
        SpecTokenType::Var => TokenDiscriminant::Var,
        SpecTokenType::While => TokenDiscriminant::While,
        SpecTokenType::SyntaxErr(_) => TokenDiscriminant::SyntaxErr,
        SpecTokenType::EOF => TokenDiscriminant::EOF,
    }
}

/// A lexical token: its kind, the exact source substring it was scanned from,
/// and the 1-based source line it starts on.
#[derive(Debug, PartialEq)]
pub struct Token {
    pub kind: TokenType,
    pub lexeme: String,
    pub line: u64,
}

/// The mathematical model of a token.
pub struct SpecToken {
    pub kind: SpecTokenType,
    pub lexeme: Seq<char>,
    pub line: int,
}

impl View for Token {
    type V = SpecToken;

    open spec fn view(&self) -> SpecToken {
        SpecToken { kind: self.kind@, lexeme: self.lexeme@, line: self.line as int }
    }
}

impl Token {
    /// The tag of this token's kind, with the payload dropped.
    pub fn discriminant(&self) -> (r: TokenDiscriminant)
        ensures
            r == spec_discriminant(self.kind@),
    {
        match &self.kind {
            TokenType::LeftParen => TokenDiscriminant::LeftParen,
            TokenType::RightParen => TokenDiscriminant::RightParen,
            TokenType::LeftBrace => TokenDiscriminant::LeftBrace,
            TokenType::RightBrace => TokenDiscriminant::RightBrace,
            TokenType::Comma => TokenDiscriminant::Comma,
            TokenType::Dot => TokenDiscriminant::Dot,
            TokenType::Minus => TokenDiscriminant::Minus,
            TokenType::Plus => TokenDiscriminant::Plus,
            TokenType::Semicolon => TokenDiscriminant::Semicolon,
            TokenType::Slash => TokenDiscriminant::Slash,
            TokenType::Star => TokenDiscriminant::Star,
            TokenType::Bang => TokenDiscriminant::Bang,
            TokenType::BangEqual => TokenDiscriminant::BangEqual,
            TokenType::Equal => TokenDiscriminant::Equal,
            TokenType::EqualEqual => TokenDiscriminant::EqualEqual,
            TokenType::Greater => TokenDiscriminant::Greater,
            TokenType::GreaterEqual => TokenDiscriminant::GreaterEqual,
            TokenType::Less => TokenDiscriminant::Less,
            TokenType::LessEqual => TokenDiscriminant::LessEqual,
            TokenType::Identifier => TokenDiscriminant::Identifier,
            TokenType::String(_) => TokenDiscriminant::String,
            TokenType::Number(_) => TokenDiscriminant::Number,
            TokenType::And => TokenDiscriminant::And,
            TokenType::Class => TokenDiscriminant::Class,
            TokenType::Else => TokenDiscriminant::Else,
            TokenType::False => TokenDiscriminant::False,
            TokenType::Fun => TokenDiscriminant::Fun,
            TokenType::For => TokenDiscriminant::For,
            TokenType::If => TokenDiscriminant::If,
            TokenType::Nil => TokenDiscriminant::Nil,
            TokenType::Or => TokenDiscriminant::Or,
            TokenType::Print => TokenDiscriminant::Print,
            TokenType::Return => TokenDiscriminant::Return,
            TokenType::Super => TokenDiscriminant::Super,
            TokenType::This => TokenDiscriminant::This,
            TokenType::True => TokenDiscriminant::True,
            TokenType::Var => TokenDiscriminant::Var,
            TokenType::While => TokenDiscriminant::While,
            TokenType::SyntaxErr(_) => TokenDiscriminant::SyntaxErr,
            TokenType::EOF => TokenDiscriminant::EOF,
        }
    }
}

impl Clone for Token {
    /// A clone denotes exactly the same token.
    fn clone(&self) -> (r: Self)
        ensures
            r == *self,
    {
        Token { kind: self.kind.clone(), lexeme: self.lexeme.clone(), line: self.line }
    }
}

/// The model of a sequence of tokens.
pub open spec fn spec_tokens(toks: Seq<Token>) -> Seq<SpecToken> {
    toks.map_values(|t: Token| t@)
}

/// The end-of-stream token the lexer closes every stream with.
pub open spec fn spec_eof_token(line: int) -> SpecToken {
    SpecToken { kind: SpecTokenType::EOF, lexeme: Seq::empty(), line }
}

} // verus!
