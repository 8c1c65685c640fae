//! Tokens: the classified lexical units that the parser consumes.
use crate::common::ast::{Spannable, WithSpan};
use crate::common::text::{decimal, push_decimal};
use vstd::prelude::*;

verus! {

/// A lexical unit of the language.
#[derive(Debug, PartialEq, Clone)]
pub enum Token {
    Identifier(String),
    NumericLiteral(i32),
    StringLiteral(String),
    BooleanLiteral(bool),
    BinaryOperator(BinaryOperator),
    UnaryOperator(UnaryOperator),
    Comma,
    Colon,
    Assign,
    LeftParen,
    RightParen,
    LeftBrace,
    RightBrace,
    Semicolon,
    EOF,
}

/// The operators that stand between two operands.
#[derive(Debug, PartialEq, Eq, Clone, Copy, Structural)]
pub enum BinaryOperator {
    Add,
    Subtract,
    Multiply,
    Divide,
    Modulo,
    NotEqual,
    Equal,
    GreaterThan,
    LessThan,
    GreaterThanOrEqual,
    LessThanOrEqual,
}

/// The operators that stand before one operand.
#[derive(Debug, PartialEq, Eq, Clone, Copy, Structural)]
pub enum UnaryOperator {
    Not,
}

/// A token together with the line and column at which it ends.
#[derive(Clone, Debug)]
pub struct TokenWithLocation {
    pub token: Token,
    pub line: usize,
    pub column: usize,
}

/// A token with its source position.
pub type SpannedToken = WithSpan<Token>;

impl Spannable for Token {

}

/// The mathematical content of a [`Token`]: text is a sequence of characters.
pub enum TokenView {
    Identifier(Seq<char>),
    NumericLiteral(i32),
    StringLiteral(Seq<char>),
    BooleanLiteral(bool),
    BinaryOperator(BinaryOperator),
    UnaryOperator(UnaryOperator),
    Comma,
    Colon,
    Assign,
    LeftParen,
    RightParen,
    LeftBrace,
    RightBrace,
    Semicolon,
    EOF,
}

impl View for Token {
    type V = TokenView;

    open spec fn view(&self) -> TokenView {
        match *self {
            Token::Identifier(name) => TokenView::Identifier(name@),
            Token::NumericLiteral(n) => TokenView::NumericLiteral(n),
            Token::StringLiteral(text) => TokenView::StringLiteral(text@),
            Token::BooleanLiteral(b) => TokenView::BooleanLiteral(b),
            Token::BinaryOperator(op) => TokenView::BinaryOperator(op),
            Token::UnaryOperator(op) => TokenView::UnaryOperator(op),
            Token::Comma => TokenView::Comma,
            Token::Colon => TokenView::Colon,
            Token::Assign => TokenView::Assign,
            Token::LeftParen => TokenView::LeftParen,
            Token::RightParen => TokenView::RightParen,
            Token::LeftBrace => TokenView::LeftBrace,
            Token::RightBrace => TokenView::RightBrace,
            Token::Semicolon => TokenView::Semicolon,
            Token::EOF => TokenView::EOF,
        }
    }
}

/// The views of a sequence of positioned tokens, element by element.
pub open spec fn tokens_view(tokens: Seq<SpannedToken>) -> Seq<WithSpan<TokenView>> {
    tokens.map_values(|t: SpannedToken| t@)
}

impl BinaryOperator {
    /// How tightly the operator binds: comparisons 1, additive operators 9,
    /// multiplicative operators 10.
    pub open spec fn precedence(self) -> u8 {
        match self {
            BinaryOperator::Equal => 1,
            BinaryOperator::NotEqual => 1,
            BinaryOperator::LessThan => 1,
            BinaryOperator::LessThanOrEqual => 1,
            BinaryOperator::GreaterThan => 1,
            BinaryOperator::GreaterThanOrEqual => 1,
            BinaryOperator::Add => 9,
            BinaryOperator::Subtract => 9,
            BinaryOperator::Multiply => 10,
            BinaryOperator::Divide => 10,
            BinaryOperator::Modulo => 10,
        }
    }

    /// Whether the operator yields a truth value (equality and ordering).
    pub open spec fn is_comparison(self) -> bool {
        self.precedence() == 1
    }

    /// The operator as it is written in source text.
    pub open spec fn symbol(self) -> Seq<char> {
        match self {
            BinaryOperator::Add => "+"@,
            BinaryOperator::Subtract => "-"@,
            BinaryOperator::Multiply => "*"@,
            BinaryOperator::Divide => "/"@,
            BinaryOperator::Modulo => "%"@,
            BinaryOperator::NotEqual => "!="@,
            BinaryOperator::Equal => "=="@,
            BinaryOperator::GreaterThan => ">"@,
            BinaryOperator::LessThan => "<"@,
            BinaryOperator::GreaterThanOrEqual => ">="@,
            BinaryOperator::LessThanOrEqual => "<="@,
        }
    }

    /// How tightly the operator binds.
    pub fn get_precedence(&self) -> (p: u8)
        ensures
            p == self.precedence(),
    {
        match self {
            BinaryOperator::Equal => 1,
            BinaryOperator::NotEqual => 1,
            BinaryOperator::LessThan => 1,
            BinaryOperator::LessThanOrEqual => 1,
            BinaryOperator::GreaterThan => 1,
            BinaryOperator::GreaterThanOrEqual => 1,
            BinaryOperator::Add => 9,
            BinaryOperator::Subtract => 9,
            BinaryOperator::Multiply => 10,
            BinaryOperator::Divide => 10,
            BinaryOperator::Modulo => 10,
        }
    }

    /// The operator's source text.
    pub fn get_symbol(&self) -> (r: &'static str)
        ensures
            r@ == self.symbol(),
    {
        match self {
            BinaryOperator::Add => "+",
            BinaryOperator::Subtract => "-",
            BinaryOperator::Multiply => "*",
            BinaryOperator::Divide => "/",
            BinaryOperator::Modulo => "%",
            BinaryOperator::NotEqual => "!=",
            BinaryOperator::Equal => "==",
            BinaryOperator::GreaterThan => ">",
            BinaryOperator::LessThan => "<",
            BinaryOperator::GreaterThanOrEqual => ">=",
            BinaryOperator::LessThanOrEqual => "<=",
        }
    }
}

impl TokenView {
    /// The binary operator that the token holds, if it is one.
    pub open spec fn binary_operator(self) -> Option<BinaryOperator> {
        match self {
            TokenView::BinaryOperator(op) => Some(op),
            _ => None,
        }
    }

    /// How the token is named in a diagnostic.
    pub open spec fn describe(self) -> Seq<char> {
        match self {
            TokenView::Identifier(name) => "identifier '"@ + name + "'"@,
            TokenView::NumericLiteral(n) => "number "@ + decimal(n as int),
            TokenView::StringLiteral(text) => "string \""@ + text + "\""@,
            TokenView::BooleanLiteral(b) => if b {
                "boolean true"@
            } else {
                "boolean false"@
            },
            TokenView::BinaryOperator(op) => "operator '"@ + op.symbol() + "'"@,
            TokenView::UnaryOperator(_) => "operator '!'"@,
            TokenView::Comma => "','"@,
            TokenView::Colon => "':'"@,
            TokenView::Assign => "'='"@,
            TokenView::LeftParen => "'('"@,
            TokenView::RightParen => "')'"@,
            TokenView::LeftBrace => "'{'"@,
            TokenView::RightBrace => "'}'"@,
            TokenView::Semicolon => "';'"@,
            TokenView::EOF => "end of input"@,
        }
    }
}

impl Token {
    /// The token together with the line and column at which it ends.
    pub fn with_location(self, line: usize, column: usize) -> (r: TokenWithLocation)
        ensures
            r.token == self,
            r.line == line,
            r.column == column,
    {
        TokenWithLocation { token: self, line, column }
    }

    /// The binary operator that the token holds, if it is one.
    pub fn get_binary_operator(&self) -> (r: Option<BinaryOperator>)
        ensures
            r == self@.binary_operator(),
    {
        match self {
            Token::BinaryOperator(op) => Some(*op),
            _ => None,
        }
    }

    /// The token's name for a diagnostic.
    pub fn describe(&self) -> (r: String)
        ensures
            r@ == self@.describe(),
    {
        match self {
            Token::Identifier(name) => {
                let mut r = String::from_str("identifier '");
                r.append(name.as_str());
                r.append("'");
                r
            },
            Token::NumericLiteral(n) => {
                let mut r = String::from_str("number ");
                push_decimal(&mut r, *n as i64);
                r
            },
            Token::StringLiteral(text) => {
                let mut r = String::from_str("string \"");
                r.append(text.as_str());
                r.append("\"");
                r
            },
            Token::BooleanLiteral(b) => if *b {
                String::from_str("boolean true")
            } else {
                String::from_str("boolean false")
            },
            Token::BinaryOperator(op) => {
                let mut r = String::from_str("operator '");
                r.append(op.get_symbol());
                r.append("'");
                r
            },
            Token::UnaryOperator(_) => String::from_str("operator '!'"),
            Token::Comma => String::from_str("','"),
            Token::Colon => String::from_str("':'"),
            Token::Assign => String::from_str("'='"),
            Token::LeftParen => String::from_str("'('"),
            Token::RightParen => String::from_str("')'"),
            Token::LeftBrace => String::from_str("'{'"),
            Token::RightBrace => String::from_str("'}'"),
            Token::Semicolon => String::from_str("';'"),
            Token::EOF => String::from_str("end of input"),
        }
    }

    /// Whether two tokens are the same: same kind, same content.
    pub fn same_as(&self, other: &Token) -> (r: bool)
        ensures
            r == (self@ == other@),
    {
        match (self, other) {
            (Token::Identifier(a), Token::Identifier(b)) => *a == *b,
            (Token::NumericLiteral(a), Token::NumericLiteral(b)) => *a == *b,
            (Token::StringLiteral(a), Token::StringLiteral(b)) => *a == *b,
            (Token::BooleanLiteral(a), Token::BooleanLiteral(b)) => *a == *b,
            (Token::BinaryOperator(a), Token::BinaryOperator(b)) => *a == *b,
            (Token::UnaryOperator(a), Token::UnaryOperator(b)) => *a == *b,
            (Token::Comma, Token::Comma) => true,
            (Token::Colon, Token::Colon) => true,
            (Token::Assign, Token::Assign) => true,
            (Token::LeftParen, Token::LeftParen) => true,
            (Token::RightParen, Token::RightParen) => true,
            (Token::LeftBrace, Token::LeftBrace) => true,
            (Token::RightBrace, Token::RightBrace) => true,
            (Token::Semicolon, Token::Semicolon) => true,
            (Token::EOF, Token::EOF) => true,
            _ => false,
        }
    }

    /// A copy of the token.
    pub fn duplicate(&self) -> (r: Token)
        ensures
            r == *self,
    {
        match self {
            Token::Identifier(name) => Token::Identifier(name.clone()),
            Token::NumericLiteral(n) => Token::NumericLiteral(*n),
            Token::StringLiteral(text) => Token::StringLiteral(text.clone()),
            Token::BooleanLiteral(b) => Token::BooleanLiteral(*b),
            Token::BinaryOperator(op) => Token::BinaryOperator(*op),
            Token::UnaryOperator(op) => Token::UnaryOperator(*op),
            Token::Comma => Token::Comma,
            Token::Colon => Token::Colon,
            Token::Assign => Token::Assign,
            Token::LeftParen => Token::LeftParen,
            Token::RightParen => Token::RightParen,
            Token::LeftBrace => Token::LeftBrace,
            Token::RightBrace => Token::RightBrace,
            Token::Semicolon => Token::Semicolon,
            Token::EOF => Token::EOF,
        }
    }
}

} // verus!
