//! Tokens: what the scanner produces and the parser consumes.

use crate::number::Number;
use crate::text::copy_string;
use vstd::prelude::*;

verus! {

/// The kind of a token, with the payload of identifiers and literals.
#[derive(Debug, Clone, PartialEq)]
pub enum TokenType {
    LeftParen,
    RightParen,
    LeftBrace,
    RightBrace,
    Comma,
    Dot,
    Minus,
    Plus,
    SemiColon,
    Slash,
    Star,
    Bang,
    BangEqual,
    Equal,
    EqualEqual,
    Greater,
    GreaterEqual,
    Less,
    LessEqual,
    Identifier(String),
    Str(String),
    Number(Number),
    And,
    Class,
    Else,
    False,
    Fun,
    For,
    If,
    Nil,
    Or,
    Print,
    Return,
    Super,
    This,
    True,
    Var,
    While,
    Eof,
}

/// A token kind as a mathematical value: texts are character sequences.
pub enum TokenTypeView {
    LeftParen,
    RightParen,
    LeftBrace,
    RightBrace,
    Comma,
    Dot,
    Minus,
    Plus,
    SemiColon,
    Slash,
    Star,
    Bang,
    BangEqual,
    Equal,
    EqualEqual,
    Greater,
    GreaterEqual,
    Less,
    LessEqual,
    Identifier(Seq<char>),
    Str(Seq<char>),
    Number(Number),
    And,
    Class,
    Else,
    False,
    Fun,
    For,
    If,
    Nil,
    Or,
    Print,
    Return,
    Super,
    This,
    True,
    Var,
    While,
    Eof,
}

impl View for TokenType {
    type V = TokenTypeView;

    open spec fn view(&self) -> TokenTypeView {
        match self {
            TokenType::LeftParen => TokenTypeView::LeftParen,
            TokenType::RightParen => TokenTypeView::RightParen,
            TokenType::LeftBrace => TokenTypeView::LeftBrace,
            TokenType::RightBrace => TokenTypeView::RightBrace,
            TokenType::Comma => TokenTypeView::Comma,
            TokenType::Dot => TokenTypeView::Dot,
            TokenType::Minus => TokenTypeView::Minus,
            TokenType::Plus => TokenTypeView::Plus,
            TokenType::SemiColon => TokenTypeView::SemiColon,
            TokenType::Slash => TokenTypeView::Slash,
            TokenType::Star => TokenTypeView::Star,
            TokenType::Bang => TokenTypeView::Bang,
            TokenType::BangEqual => TokenTypeView::BangEqual,
            TokenType::Equal => TokenTypeView::Equal,
            TokenType::EqualEqual => TokenTypeView::EqualEqual,
            TokenType::Greater => TokenTypeView::Greater,
            TokenType::GreaterEqual => TokenTypeView::GreaterEqual,
            TokenType::Less => TokenTypeView::Less,
            TokenType::LessEqual => TokenTypeView::LessEqual,
            TokenType::Identifier(name) => TokenTypeView::Identifier(name@),
            TokenType::Str(text) => TokenTypeView::Str(text@),
            TokenType::Number(value) => TokenTypeView::Number(*value),
            TokenType::And => TokenTypeView::And,
            TokenType::Class => TokenTypeView::Class,
            TokenType::Else => TokenTypeView::Else,
            TokenType::False => TokenTypeView::False,
            TokenType::Fun => TokenTypeView::Fun,
            TokenType::For => TokenTypeView::For,
            TokenType::If => TokenTypeView::If,
            TokenType::Nil => TokenTypeView::Nil,
            TokenType::Or => TokenTypeView::Or,
            TokenType::Print => TokenTypeView::Print,
            TokenType::Return => TokenTypeView::Return,
            TokenType::Super => TokenTypeView::Super,
            TokenType::This => TokenTypeView::This,
            TokenType::True => TokenTypeView::True,
            TokenType::Var => TokenTypeView::Var,
            TokenType::While => TokenTypeView::While,
            TokenType::Eof => TokenTypeView::Eof,
        }
    }
}

/// A token: its kind and the line of the source on which it stands.
#[derive(Debug, Clone, PartialEq)]
pub struct Token {
    pub token_type: TokenType,
    pub line: u32,
}

/// A token as a mathematical value.
pub struct TokenView {
    pub token_type: TokenTypeView,
    pub line: u32,
}

impl View for Token {
    type V = TokenView;

    open spec fn view(&self) -> TokenView {
        TokenView { token_type: self.token_type@, line: self.line }
    }
}

/// The views of a sequence of tokens.
pub open spec fn tokens_view(tokens: Seq<Token>) -> Seq<TokenView> {
    tokens.map_values(|t: Token| t@)
}

/// The word that the scanner reads as the given keyword; empty for every other
/// kind.
pub open spec fn keyword_text(kind: TokenTypeView) -> Seq<char> {
    match kind {
        TokenTypeView::And => "and"@,
        TokenTypeView::Class => "class"@,
        TokenTypeView::Else => "else"@,
        TokenTypeView::False => "false"@,
        TokenTypeView::Fun => "fun"@,
        TokenTypeView::For => "for"@,
        TokenTypeView::If => "if"@,
        TokenTypeView::Nil => "nil"@,
        TokenTypeView::Or => "or"@,
        TokenTypeView::Print => "print"@,
        TokenTypeView::Return => "return"@,
        TokenTypeView::Super => "super"@,
        TokenTypeView::This => "this"@,
        TokenTypeView::True => "true"@,
        TokenTypeView::Var => "var"@,
        TokenTypeView::While => "while"@,
        _ => Seq::empty(),
    }
}

/// How a token is shown in a message: punctuation and keywords as they are
/// written, an identifier by its name, a string by its content, every number by
/// the word `number`, the end of the input by `EOF`.
pub open spec fn token_text(kind: TokenTypeView) -> Seq<char> {
    match kind {
        TokenTypeView::LeftParen => "("@,
        TokenTypeView::RightParen => ")"@,
        TokenTypeView::LeftBrace => "{"@,
        TokenTypeView::RightBrace => "}"@,
        TokenTypeView::Comma => ","@,
        TokenTypeView::Dot => "."@,
        TokenTypeView::Minus => "-"@,
        TokenTypeView::Plus => "+"@,
        TokenTypeView::SemiColon => ";"@,
        TokenTypeView::Slash => "/"@,
        TokenTypeView::Star => "*"@,
        TokenTypeView::Bang => "!"@,
        TokenTypeView::BangEqual => "!="@,
        TokenTypeView::Equal => "="@,
        TokenTypeView::EqualEqual => "=="@,
        TokenTypeView::Greater => ">"@,
        TokenTypeView::GreaterEqual => ">="@,
        TokenTypeView::Less => "<"@,
        TokenTypeView::LessEqual => "<="@,
        TokenTypeView::Identifier(name) => name,
        TokenTypeView::Str(text) => text,
        TokenTypeView::Number(_) => "number"@,
        TokenTypeView::Eof => "EOF"@,
        _ => keyword_text(kind),
    }
}

impl TokenType {
    /// A copy of the kind, payload included.
    pub fn duplicate(&self) -> (r: TokenType)
        ensures
            r@ == self@,
    {
        match self {
            TokenType::LeftParen => TokenType::LeftParen,
            TokenType::RightParen => TokenType::RightParen,
            TokenType::LeftBrace => TokenType::LeftBrace,
            TokenType::RightBrace => TokenType::RightBrace,
            TokenType::Comma => TokenType::Comma,
            TokenType::Dot => TokenType::Dot,
            TokenType::Minus => TokenType::Minus,
            TokenType::Plus => TokenType::Plus,
            TokenType::SemiColon => TokenType::SemiColon,
            TokenType::Slash => TokenType::Slash,
            TokenType::Star => TokenType::Star,
            TokenType::Bang => TokenType::Bang,
            TokenType::BangEqual => TokenType::BangEqual,
            TokenType::Equal => TokenType::Equal,
            TokenType::EqualEqual => TokenType::EqualEqual,
            TokenType::Greater => TokenType::Greater,
            TokenType::GreaterEqual => TokenType::GreaterEqual,
            TokenType::Less => TokenType::Less,
            TokenType::LessEqual => TokenType::LessEqual,
            TokenType::Identifier(name) => TokenType::Identifier(copy_string(name.as_str())),
            TokenType::Str(text) => TokenType::Str(copy_string(text.as_str())),
            TokenType::Number(value) => TokenType::Number(*value),
            TokenType::And => TokenType::And,
            TokenType::Class => TokenType::Class,
            TokenType::Else => TokenType::Else,
            TokenType::False => TokenType::False,
            TokenType::Fun => TokenType::Fun,
            TokenType::For => TokenType::For,
            TokenType::If => TokenType::If,
            TokenType::Nil => TokenType::Nil,
            TokenType::Or => TokenType::Or,
            TokenType::Print => TokenType::Print,
            TokenType::Return => TokenType::Return,
            TokenType::Super => TokenType::Super,
            TokenType::This => TokenType::This,
            TokenType::True => TokenType::True,
            TokenType::Var => TokenType::Var,
            TokenType::While => TokenType::While,
            TokenType::Eof => TokenType::Eof,
        }
    }

    /// Whether two kinds are the same, payload included.
    pub fn same(&self, other: &TokenType) -> (r: bool)
        ensures
            r == (self@ == other@),
    {
        match (self, other) {
            (TokenType::LeftParen, TokenType::LeftParen) => true,
            (TokenType::RightParen, TokenType::RightParen) => true,
            (TokenType::LeftBrace, TokenType::LeftBrace) => true,
            (TokenType::RightBrace, TokenType::RightBrace) => true,
            (TokenType::Comma, TokenType::Comma) => true,
            (TokenType::Dot, TokenType::Dot) => true,
            (TokenType::Minus, TokenType::Minus) => true,
            (TokenType::Plus, TokenType::Plus) => true,
            (TokenType::SemiColon, TokenType::SemiColon) => true,
            (TokenType::Slash, TokenType::Slash) => true,
            (TokenType::Star, TokenType::Star) => true,
            (TokenType::Bang, TokenType::Bang) => true,
            (TokenType::BangEqual, TokenType::BangEqual) => true,
            (TokenType::Equal, TokenType::Equal) => true,
            (TokenType::EqualEqual, TokenType::EqualEqual) => true,
            (TokenType::Greater, TokenType::Greater) => true,
            (TokenType::GreaterEqual, TokenType::GreaterEqual) => true,
            (TokenType::Less, TokenType::Less) => true,
            (TokenType::LessEqual, TokenType::LessEqual) => true,
            (TokenType::Identifier(a), TokenType::Identifier(b)) => *a.as_str() == *b.as_str(),
            (TokenType::Str(a), TokenType::Str(b)) => *a.as_str() == *b.as_str(),
            (TokenType::Number(a), TokenType::Number(b)) => a.bits == b.bits,
            (TokenType::And, TokenType::And) => true,
            (TokenType::Class, TokenType::Class) => true,
            (TokenType::Else, TokenType::Else) => true,
            (TokenType::False, TokenType::False) => true,
            (TokenType::Fun, TokenType::Fun) => true,
            (TokenType::For, TokenType::For) => true,
            (TokenType::If, TokenType::If) => true,
            (TokenType::Nil, TokenType::Nil) => true,
            (TokenType::Or, TokenType::Or) => true,
            (TokenType::Print, TokenType::Print) => true,
            (TokenType::Return, TokenType::Return) => true,
            (TokenType::Super, TokenType::Super) => true,
            (TokenType::This, TokenType::This) => true,
            (TokenType::True, TokenType::True) => true,
            (TokenType::Var, TokenType::Var) => true,
            (TokenType::While, TokenType::While) => true,
            (TokenType::Eof, TokenType::Eof) => true,
            _ => false,
        }
    }

    /// The text that stands for the kind in a message.
    pub fn to_string(&self) -> (s: String)
        ensures
            s@ == token_text(self@),
    {
        match self {
            TokenType::LeftParen => copy_string("("),
            TokenType::RightParen => copy_string(")"),
            TokenType::LeftBrace => copy_string("{"),
            TokenType::RightBrace => copy_string("}"),
            TokenType::Comma => copy_string(","),
            TokenType::Dot => copy_string("."),
            TokenType::Minus => copy_string("-"),
            TokenType::Plus => copy_string("+"),
            TokenType::SemiColon => copy_string(";"),
            TokenType::Slash => copy_string("/"),
            TokenType::Star => copy_string("*"),
            TokenType::Bang => copy_string("!"),
            TokenType::BangEqual => copy_string("!="),
            TokenType::Equal => copy_string("="),
            TokenType::EqualEqual => copy_string("=="),
            TokenType::Greater => copy_string(">"),
            TokenType::GreaterEqual => copy_string(">="),
            TokenType::Less => copy_string("<"),
            TokenType::LessEqual => copy_string("<="),
            TokenType::Identifier(name) => copy_string(name.as_str()),
            TokenType::Str(text) => copy_string(text.as_str()),
            TokenType::Number(_) => copy_string("number"),
            TokenType::And => copy_string("and"),
            TokenType::Class => copy_string("class"),
            TokenType::Else => copy_string("else"),
            TokenType::False => copy_string("false"),
            TokenType::Fun => copy_string("fun"),
            TokenType::For => copy_string("for"),
            TokenType::If => copy_string("if"),
            TokenType::Nil => copy_string("nil"),
            TokenType::Or => copy_string("or"),
            TokenType::Print => copy_string("print"),
            TokenType::Return => copy_string("return"),
            TokenType::Super => copy_string("super"),
            TokenType::This => copy_string("this"),
            TokenType::True => copy_string("true"),
            TokenType::Var => copy_string("var"),
            TokenType::While => copy_string("while"),
            TokenType::Eof => copy_string("EOF"),
        }
    }
}

impl Token {
    /// The token of the given kind on the given line.
    pub fn new(token_type: TokenType, line: u32) -> (t: Token)
        ensures
            t.token_type == token_type,
            t.line == line,
    {
        Token { token_type, line }
    }

    /// A copy of the token.
    pub fn duplicate(&self) -> (r: Token)
        ensures
            r@ == self@,
    {
        Token { token_type: self.token_type.duplicate(), line: self.line }
    }

    /// The text that stands for the token in a message.
    pub fn to_string(&self) -> (s: String)
        ensures
            s@ == token_text(self@.token_type),
    {
        self.token_type.to_string()
    }
}

} // verus!
