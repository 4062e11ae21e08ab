use pseudocode::lexer::Token;
use pseudocode::syntax::Expression;
use pseudocode::syntax::Identifier;
use pseudocode::syntax::InfixExpression;
use pseudocode::syntax::InfixOperator;
use pseudocode::syntax::PlaceholderExpression;
use pseudocode::syntax::PrefixExpression;
use pseudocode::syntax::PrefixOperator;
use pseudocode::syntax::PrettyPrint;

#[test]
fn test_pretty_print_identifiers() {
    let ident = Identifier {
        token: Token::Identifier("ItsGoodToBeD"),
    };
    assert_eq!(ident.pretty_print(), "ItsGoodToBeD".to_owned());
}

#[test]
fn test_pretty_print_prefix_op() {
    let op = PrefixExpression {
        subject: Box::new(Expression::Placeholder(PlaceholderExpression {})),
        operator: PrefixOperator::Minus,
        token: Token::default(),
    };
    assert_eq!(op.pretty_print(), "-<PLACEHOLDER_EXPRESSION>");

    let op = PrefixExpression {
        subject: Box::new(Expression::Placeholder(PlaceholderExpression {})),
        operator: PrefixOperator::Not,
        token: Token::default(),
    };
    assert_eq!(op.pretty_print(), "NOT <PLACEHOLDER_EXPRESSION>")
}

#[test]
fn test_pretty_print_infix_op() {
    let op = InfixExpression {
        operator: InfixOperator::Divide,
        left: Box::new(Expression::Placeholder(PlaceholderExpression {})),
        right: Box::new(Expression::Placeholder(PlaceholderExpression {})),
        token: Token::default(),
    };
    assert_eq!(op.pretty_print(), "<PLACEHOLDER_EXPRESSION>/<PLACEHOLDER_EXPRESSION>")
}
