use crate::lexer::{Token, TokenType};
use vstd::prelude::*;

verus! {

/// The operators that stand before one operand.
#[derive(Debug, Clone, Copy, PartialEq, Eq, Structural)]
pub enum PrefixOperator {
    Plus,
    Minus,
    Not,
}

/// The operators that stand between two operands. `AND` is one of them, like
/// `OR`.
#[derive(Debug, Clone, Copy, PartialEq, Eq, PartialOrd, Ord, Structural)]
pub enum InfixOperator {
    Plus,
    Minus,
    Divide,
    Div,
    Mod,
    Multiply,
    DoubleEquals,
    NotEqual,
    LThan,
    LThanOrEqual,
    GThanOrEqual,
    GThan,
    Or,
    And,
}

/// The token that was found where an infix operator was expected.
#[derive(Debug, Clone, Copy)]
pub struct NoSuchInfixOperatorError<'a> {
    pub tok: Token<'a>,
}

impl PrefixOperator {
    /// How the operator is written in canonical form. `NOT` is a word and
    /// takes a space behind it.
    pub open spec fn symbol(self) -> Seq<char> {
        match self {
            PrefixOperator::Plus => "+"@,
            PrefixOperator::Minus => "-"@,
            PrefixOperator::Not => "NOT "@,
        }
    }

    /// The kind of the token that stands for this operator.
    pub open spec fn kind(self) -> TokenType {
        match self {
            PrefixOperator::Plus => TokenType::Plus,
            PrefixOperator::Minus => TokenType::Minus,
            PrefixOperator::Not => TokenType::Not,
        }
    }

    /// The operator that a token of this kind stands for before an operand.
    pub open spec fn of_kind(kind: TokenType) -> Option<PrefixOperator> {
        match kind {
            TokenType::Plus => Some(PrefixOperator::Plus),
            TokenType::Minus => Some(PrefixOperator::Minus),
            TokenType::Not => Some(PrefixOperator::Not),
            _ => None,
        }
    }

    /// The canonical spelling of the operator.
    pub fn as_str(&self) -> (text: &'static str)
        ensures
            text@ == self.symbol(),
    {
        match self {
            PrefixOperator::Plus => "+",
            PrefixOperator::Minus => "-",
            PrefixOperator::Not => "NOT ",
        }
    }

    /// The canonical spelling of the operator, as an owned string.
    pub fn to_string(&self) -> (text: String)
        ensures
            text@ == self.symbol(),
    {
        self.as_str().to_owned()
    }
}

impl InfixOperator {
    /// How the operator is written in canonical form. An operator that is a
    /// word takes a space on either side.
    pub open spec fn symbol(self) -> Seq<char> {
        match self {
            InfixOperator::Div => " DIV "@,
            InfixOperator::Mod => " MOD "@,
            InfixOperator::Or => " OR "@,
            InfixOperator::And => " AND "@,
            InfixOperator::Plus => "+"@,
            InfixOperator::Minus => "-"@,
            InfixOperator::Divide => "/"@,
            InfixOperator::Multiply => "*"@,
            InfixOperator::DoubleEquals => "=="@,
            InfixOperator::LThanOrEqual => "<="@,
            InfixOperator::LThan => "<"@,
            InfixOperator::GThan => ">"@,
            InfixOperator::GThanOrEqual => ">="@,
            InfixOperator::NotEqual => "!="@,
        }
    }

    /// The kind of the token that stands for this operator.
    pub open spec fn kind(self) -> TokenType {
        match self {
            InfixOperator::Plus => TokenType::Plus,
            InfixOperator::Minus => TokenType::Minus,
            InfixOperator::Divide => TokenType::FSlash,
            InfixOperator::Div => TokenType::Div,
            InfixOperator::Mod => TokenType::Mod,
            InfixOperator::Multiply => TokenType::Asterisk,
            InfixOperator::DoubleEquals => TokenType::DoubleEquals,
            InfixOperator::NotEqual => TokenType::NotEqual,
            InfixOperator::LThan => TokenType::LThan,
            InfixOperator::LThanOrEqual => TokenType::LThanOrEqual,
            InfixOperator::GThanOrEqual => TokenType::GThanOrEqual,
            InfixOperator::GThan => TokenType::GThan,
            InfixOperator::Or => TokenType::Or,
            InfixOperator::And => TokenType::And,
        }
    }

    /// The operator that a token of this kind stands for between two operands.
    pub open spec fn of_kind(kind: TokenType) -> Option<InfixOperator> {
        match kind {
            TokenType::Plus => Some(InfixOperator::Plus),
            TokenType::Minus => Some(InfixOperator::Minus),
            TokenType::FSlash => Some(InfixOperator::Divide),
            TokenType::Div => Some(InfixOperator::Div),
            TokenType::Mod => Some(InfixOperator::Mod),
            TokenType::Asterisk => Some(InfixOperator::Multiply),
            TokenType::DoubleEquals => Some(InfixOperator::DoubleEquals),
            TokenType::LThan => Some(InfixOperator::LThan),
            TokenType::LThanOrEqual => Some(InfixOperator::LThanOrEqual),
            TokenType::GThan => Some(InfixOperator::GThan),
            TokenType::GThanOrEqual => Some(InfixOperator::GThanOrEqual),
            TokenType::NotEqual => Some(InfixOperator::NotEqual),
            TokenType::Or => Some(InfixOperator::Or),
            TokenType::And => Some(InfixOperator::And),
            _ => None,
        }
    }

    /// The canonical spelling of the operator.
    pub fn as_str(&self) -> (text: &'static str)
        ensures
            text@ == self.symbol(),
    {
        match self {
            InfixOperator::Div => " DIV ",
            InfixOperator::Mod => " MOD ",
            InfixOperator::Or => " OR ",
            InfixOperator::And => " AND ",
            InfixOperator::Plus => "+",
            InfixOperator::Minus => "-",
            InfixOperator::Divide => "/",
            InfixOperator::Multiply => "*",
            InfixOperator::DoubleEquals => "==",
            InfixOperator::LThanOrEqual => "<=",
            InfixOperator::LThan => "<",
            InfixOperator::GThan => ">",
            InfixOperator::GThanOrEqual => ">=",
            InfixOperator::NotEqual => "!=",
        }
    }

    /// The canonical spelling of the operator, as an owned string.
    pub fn to_string(&self) -> (text: String)
        ensures
            text@ == self.symbol(),
    {
        self.as_str().to_owned()
    }
}

impl<'a> TryFrom<Token<'a>> for PrefixOperator {
    type Error = ();

    fn try_from(value: Token<'a>) -> (res: Result<Self, Self::Error>) {
        match value {
            Token::Plus => Ok(PrefixOperator::Plus),
            Token::Minus => Ok(PrefixOperator::Minus),
            Token::Not => Ok(PrefixOperator::Not),
            _ => Err(()),
        }
    }
}

impl<'a> vstd::std_specs::convert::TryFromSpecImpl<Token<'a>> for PrefixOperator {
    open spec fn obeys_try_from_spec() -> bool {
        true
    }

    open spec fn try_from_spec(value: Token<'a>) -> Result<Self, Self::Error> {
        match PrefixOperator::of_kind(value.kind()) {
            Some(op) => Ok(op),
            None => Err(()),
        }
    }
}

impl<'a> TryFrom<Token<'a>> for InfixOperator {
    type Error = NoSuchInfixOperatorError<'a>;

    fn try_from(value: Token<'a>) -> (res: Result<Self, Self::Error>) {
        match value {
            Token::Plus => Ok(InfixOperator::Plus),
            Token::Minus => Ok(InfixOperator::Minus),
            Token::FSlash => Ok(InfixOperator::Divide),
            Token::Div => Ok(InfixOperator::Div),
            Token::Mod => Ok(InfixOperator::Mod),
            Token::Asterisk => Ok(InfixOperator::Multiply),
            Token::DoubleEquals => Ok(InfixOperator::DoubleEquals),
            Token::LThan => Ok(InfixOperator::LThan),
            Token::LThanOrEqual => Ok(InfixOperator::LThanOrEqual),
            Token::GThan => Ok(InfixOperator::GThan),
            Token::GThanOrEqual => Ok(InfixOperator::GThanOrEqual),
            Token::NotEqual => Ok(InfixOperator::NotEqual),
            Token::Or => Ok(InfixOperator::Or),
            Token::And => Ok(InfixOperator::And),
            _ => Err(NoSuchInfixOperatorError { tok: value }),
        }
    }
}

impl<'a> vstd::std_specs::convert::TryFromSpecImpl<Token<'a>> for InfixOperator {
    open spec fn obeys_try_from_spec() -> bool {
        true
    }

    open spec fn try_from_spec(value: Token<'a>) -> Result<Self, Self::Error> {
        match InfixOperator::of_kind(value.kind()) {
            Some(op) => Ok(op),
            None => Err(NoSuchInfixOperatorError { tok: value }),
        }
    }
}

/// Each operator has a token of its own: the token that stands for an operator
/// stands for no other.
pub proof fn lemma_operator_of_its_token(infix: InfixOperator, prefix: PrefixOperator)
    ensures
        InfixOperator::of_kind(infix.kind()) == Some(infix),
        PrefixOperator::of_kind(prefix.kind()) == Some(prefix),
{
}

/// A token can be used as an infix operator exactly if it stands for one, and
/// as a prefix operator exactly if it stands for one.
pub proof fn lemma_operator_tokens(kind: TokenType)
    ensures
        crate::lexer::infix_capable(kind) <==> InfixOperator::of_kind(kind) is Some,
        crate::lexer::prefix_capable(kind) <==> PrefixOperator::of_kind(kind) is Some,
{
}

} // verus!
