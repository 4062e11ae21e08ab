use crate::lexer::{LexerError, Token, TokenDebugInfo, TokenType};
use crate::syntax::NoSuchInfixOperatorError;
use vstd::prelude::*;

verus! {

/// How tightly an operator binds, from the loosest to the tightest. The
/// connectives `AND` and `OR` bind tighter than the comparisons and looser
/// than the arithmetic operators.
#[derive(Debug, Clone, Copy, PartialEq, Eq, PartialOrd, Ord, Structural)]
pub enum Precedence {
    Lowest,
    Equality,
    Inequality,
    And,
    Or,
    Sum,
    Product,
    Prefix,
    Call,
}

impl Precedence {
    /// The place of this precedence in the order: a greater level binds
    /// tighter.
    pub open spec fn level(self) -> nat {
        match self {
            Precedence::Lowest => 0,
            Precedence::Equality => 1,
            Precedence::Inequality => 2,
            Precedence::And => 3,
            Precedence::Or => 4,
            Precedence::Sum => 5,
            Precedence::Product => 6,
            Precedence::Prefix => 7,
            Precedence::Call => 8,
        }
    }

    /// The precedence of a token of this kind where an operator may stand. A
    /// token that is no operator has the lowest. An opening parenthesis there
    /// opens the arguments of a call.
    pub open spec fn of_kind(kind: TokenType) -> Precedence {
        match kind {
            TokenType::GThan => Precedence::Inequality,
            TokenType::LThan => Precedence::Inequality,
            TokenType::LThanOrEqual => Precedence::Inequality,
            TokenType::GThanOrEqual => Precedence::Inequality,
            TokenType::DoubleEquals => Precedence::Equality,
            TokenType::NotEqual => Precedence::Equality,
            TokenType::Plus => Precedence::Sum,
            TokenType::Minus => Precedence::Sum,
            TokenType::FSlash => Precedence::Product,
            TokenType::Asterisk => Precedence::Product,
            TokenType::Mod => Precedence::Product,
            TokenType::Div => Precedence::Product,
            TokenType::And => Precedence::And,
            TokenType::Or => Precedence::Or,
            TokenType::LParenthasis => Precedence::Call,
            _ => Precedence::Lowest,
        }
    }

    /// Whether this precedence binds tighter than `other`.
    pub open spec fn binds_tighter(self, other: Precedence) -> bool {
        self.level() > other.level()
    }

    /// The place of this precedence in the order.
    pub fn rank(&self) -> (n: u8)
        ensures
            n == self.level(),
    {
        match self {
            Precedence::Lowest => 0,
            Precedence::Equality => 1,
            Precedence::Inequality => 2,
            Precedence::And => 3,
            Precedence::Or => 4,
            Precedence::Sum => 5,
            Precedence::Product => 6,
            Precedence::Prefix => 7,
            Precedence::Call => 8,
        }
    }
}

impl Default for Precedence {
    fn default() -> (p: Self)
        ensures
            p == Precedence::Lowest,
    {
        Precedence::Lowest
    }
}

impl<'a> From<Token<'a>> for Precedence {
    fn from(value: Token<'a>) -> (p: Precedence) {
        match value {
            Token::GThan | Token::LThan | Token::LThanOrEqual | Token::GThanOrEqual => {
                Precedence::Inequality
            },
            Token::DoubleEquals | Token::NotEqual => Precedence::Equality,
            Token::Plus | Token::Minus => Precedence::Sum,
            Token::FSlash | Token::Asterisk | Token::Mod | Token::Div => Precedence::Product,
            Token::And => Precedence::And,
            Token::Or => Precedence::Or,
            Token::LParenthasis => Precedence::Call,
            _ => Precedence::Lowest,
        }
    }
}

impl<'a> vstd::std_specs::convert::FromSpecImpl<Token<'a>> for Precedence {
    open spec fn obeys_from_spec() -> bool {
        true
    }

    open spec fn from_spec(value: Token<'a>) -> Precedence {
        Precedence::of_kind(value.kind())
    }
}

/// Why no program was produced: the first violation that the parser met.
#[derive(Debug, Clone, Copy, PartialEq, Eq, Structural)]
pub enum ParserError {
    /// The input ended inside an open quote.
    UnterminatedStringLiteral,
    /// A number literal is not a run of digits.
    InvalidNumberLiteral,
    /// A number literal stands for a value that does not fit.
    TooLargeInteger,
    /// A token stands where the grammar has no place for it.
    UnexpectedToken(TokenDebugInfo),
}

impl ParserError {
    /// The error for a token of this kind that the grammar has no place for.
    pub open spec fn unexpected(kind: TokenType) -> ParserError {
        ParserError::UnexpectedToken(TokenDebugInfo { tok_type: kind })
    }

    /// The parser's error for a failure of the lexer or of the conversion of a
    /// literal.
    pub open spec fn lexical(e: LexerError) -> ParserError {
        match e {
            LexerError::UnterminatedStringLiteral => ParserError::UnterminatedStringLiteral,
            LexerError::InvalidNumberLiteral => ParserError::InvalidNumberLiteral,
            LexerError::TooLargeInteger => ParserError::TooLargeInteger,
        }
    }
}

impl From<LexerError> for ParserError {
    fn from(value: LexerError) -> (e: ParserError) {
        match value {
            LexerError::UnterminatedStringLiteral => ParserError::UnterminatedStringLiteral,
            LexerError::InvalidNumberLiteral => ParserError::InvalidNumberLiteral,
            LexerError::TooLargeInteger => ParserError::TooLargeInteger,
        }
    }
}

impl vstd::std_specs::convert::FromSpecImpl<LexerError> for ParserError {
    open spec fn obeys_from_spec() -> bool {
        true
    }

    open spec fn from_spec(value: LexerError) -> ParserError {
        ParserError::lexical(value)
    }
}

impl<'a> From<NoSuchInfixOperatorError<'a>> for ParserError {
    fn from(value: NoSuchInfixOperatorError<'a>) -> (e: ParserError) {
        ParserError::UnexpectedToken(TokenDebugInfo::from(value.tok))
    }
}

impl<'a> vstd::std_specs::convert::FromSpecImpl<NoSuchInfixOperatorError<'a>> for ParserError {
    open spec fn obeys_from_spec() -> bool {
        true
    }

    open spec fn from_spec(value: NoSuchInfixOperatorError<'a>) -> ParserError {
        ParserError::unexpected(value.tok.kind())
    }
}

} // verus!
