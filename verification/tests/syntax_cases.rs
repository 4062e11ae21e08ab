use pseudocode::lexer::LexerError;
use pseudocode::lexer::Token;
use pseudocode::syntax::parse_integer;
use pseudocode::syntax::AssignStatement;
use pseudocode::syntax::BlockStatement;
use pseudocode::syntax::BooleanExpression;
use pseudocode::syntax::EmptyStatement;
use pseudocode::syntax::Expression;
use pseudocode::syntax::ExpressionStatement;
use pseudocode::syntax::ExpressionType;
use pseudocode::syntax::FunctionCallExpression;
use pseudocode::syntax::FunctionStatement;
use pseudocode::syntax::Identifier;
use pseudocode::syntax::IfStatement;
use pseudocode::syntax::InfixExpression;
use pseudocode::syntax::InfixOperator;
use pseudocode::syntax::IntegerLiteralExpression;
use pseudocode::syntax::NoSuchInfixOperatorError;
use pseudocode::syntax::PlaceholderExpression;
use pseudocode::syntax::PrefixExpression;
use pseudocode::syntax::PrefixOperator;
use pseudocode::syntax::PrettyPrint;
use pseudocode::syntax::ReturnStatement;
use pseudocode::syntax::Statement;
use pseudocode::syntax::StatementType;

fn name(text: &str) -> Identifier<'_> {
    Identifier { token: Token::Identifier(text) }
}

fn var(text: &str) -> Expression<'_> {
    Expression::Identifier(name(text))
}

fn num(value: i128) -> Expression<'static> {
    Expression::IntegerLiteral(IntegerLiteralExpression { token: Token::NumberLiteral("?"), value })
}

fn binary<'a>(left: Expression<'a>, operator: InfixOperator, right: Expression<'a>) -> Expression<'a> {
    Expression::Infix(InfixExpression {
        token: Token::Illegal,
        operator,
        left: Box::new(left),
        right: Box::new(right),
    })
}

fn unary(operator: PrefixOperator, subject: Expression<'_>) -> Expression<'_> {
    Expression::Prefix(PrefixExpression { token: Token::Illegal, operator, subject: Box::new(subject) })
}

#[test]
fn integers_in_decimal() {
    assert_eq!(num(0).pretty_print(), "0");
    assert_eq!(num(7).pretty_print(), "7");
    assert_eq!(num(10).pretty_print(), "10");
    assert_eq!(num(1234567890).pretty_print(), "1234567890");
    assert_eq!(num(-5).pretty_print(), "-5");
    assert_eq!(num(i128::MAX).pretty_print(), "170141183460469231731687303715884105727");
    assert_eq!(num(i128::MIN).pretty_print(), "-170141183460469231731687303715884105728");
    assert_eq!(num(-100).pretty_print_with_brackets(), "-100");
}

#[test]
fn number_literal_values() {
    assert_eq!(parse_integer("0"), Ok(0));
    assert_eq!(parse_integer("007"), Ok(7));
    assert_eq!(parse_integer("1234567890"), Ok(1234567890));
    assert_eq!(parse_integer("170141183460469231731687303715884105727"), Ok(i128::MAX));
    assert_eq!(
        parse_integer("170141183460469231731687303715884105728"),
        Err(LexerError::TooLargeInteger)
    );
    assert_eq!(
        parse_integer("99999999999999999999999999999999999999999999"),
        Err(LexerError::TooLargeInteger)
    );
    assert_eq!(
        parse_integer("0000000000000000000000000000000000000000000000000001"),
        Ok(1)
    );
    assert_eq!(parse_integer(""), Err(LexerError::InvalidNumberLiteral));
    assert_eq!(parse_integer("12a"), Err(LexerError::InvalidNumberLiteral));
    assert_eq!(parse_integer("-1"), Err(LexerError::InvalidNumberLiteral));
    assert_eq!(parse_integer("+1"), Err(LexerError::InvalidNumberLiteral));
    assert_eq!(parse_integer("1 "), Err(LexerError::InvalidNumberLiteral));
    assert_eq!(parse_integer("\u{661}"), Err(LexerError::InvalidNumberLiteral));
    assert_eq!(
        parse_integer("99999999999999999999999999999999999999999999x"),
        Err(LexerError::InvalidNumberLiteral)
    );
}

#[test]
fn decimal_text_reads_back() {
    for value in [0i128, 1, 9, 10, 99, 100, 4711, i128::MAX] {
        assert_eq!(parse_integer(&num(value).pretty_print()), Ok(value));
    }
}

#[test]
fn operator_spellings() {
    assert_eq!(InfixOperator::Div.to_string(), " DIV ");
    assert_eq!(InfixOperator::Mod.to_string(), " MOD ");
    assert_eq!(InfixOperator::Or.to_string(), " OR ");
    assert_eq!(InfixOperator::And.to_string(), " AND ");
    assert_eq!(InfixOperator::Plus.to_string(), "+");
    assert_eq!(InfixOperator::Minus.to_string(), "-");
    assert_eq!(InfixOperator::Divide.to_string(), "/");
    assert_eq!(InfixOperator::Multiply.to_string(), "*");
    assert_eq!(InfixOperator::DoubleEquals.to_string(), "==");
    assert_eq!(InfixOperator::NotEqual.to_string(), "!=");
    assert_eq!(InfixOperator::LThan.to_string(), "<");
    assert_eq!(InfixOperator::LThanOrEqual.to_string(), "<=");
    assert_eq!(InfixOperator::GThan.to_string(), ">");
    assert_eq!(InfixOperator::GThanOrEqual.to_string(), ">=");
    assert_eq!(PrefixOperator::Plus.to_string(), "+");
    assert_eq!(PrefixOperator::Minus.to_string(), "-");
    assert_eq!(PrefixOperator::Not.to_string(), "NOT ");
    assert_eq!(InfixOperator::Mod.as_str(), " MOD ");
    assert_eq!(PrefixOperator::Not.as_str(), "NOT ");
}

#[test]
fn operators_of_tokens() {
    assert_eq!(InfixOperator::try_from(Token::Asterisk).unwrap(), InfixOperator::Multiply);
    assert_eq!(InfixOperator::try_from(Token::FSlash).unwrap(), InfixOperator::Divide);
    assert_eq!(InfixOperator::try_from(Token::Div).unwrap(), InfixOperator::Div);
    assert_eq!(InfixOperator::try_from(Token::And).unwrap(), InfixOperator::And);
    assert_eq!(InfixOperator::try_from(Token::GThanOrEqual).unwrap(), InfixOperator::GThanOrEqual);
    let refused: NoSuchInfixOperatorError = InfixOperator::try_from(Token::Not).unwrap_err();
    assert_eq!(refused.tok, Token::Not);
    assert_eq!(InfixOperator::try_from(Token::Equals).unwrap_err().tok, Token::Equals);
    assert_eq!(PrefixOperator::try_from(Token::Not), Ok(PrefixOperator::Not));
    assert_eq!(PrefixOperator::try_from(Token::Plus), Ok(PrefixOperator::Plus));
    assert_eq!(PrefixOperator::try_from(Token::Minus), Ok(PrefixOperator::Minus));
    assert_eq!(PrefixOperator::try_from(Token::Asterisk), Err(()));
}

#[test]
fn a_token_is_infix_capable_exactly_if_it_has_an_operator() {
    for tok in [
        Token::Plus,
        Token::Minus,
        Token::Asterisk,
        Token::FSlash,
        Token::Div,
        Token::Mod,
        Token::DoubleEquals,
        Token::NotEqual,
        Token::LThan,
        Token::LThanOrEqual,
        Token::GThan,
        Token::GThanOrEqual,
        Token::Or,
        Token::And,
        Token::Not,
        Token::Equals,
        Token::LParenthasis,
        Token::Comma,
        Token::Identifier("x"),
        Token::Eof,
    ] {
        assert_eq!(tok.is_infix_op(), InfixOperator::try_from(tok).is_ok());
        assert_eq!(tok.is_prefix_op(), PrefixOperator::try_from(tok).is_ok());
    }
}

#[test]
fn every_operator_application_gets_brackets() {
    let e = binary(var("a"), InfixOperator::Plus, binary(var("b"), InfixOperator::Multiply, var("c")));
    assert_eq!(e.pretty_print(), "a+b*c");
    assert_eq!(e.pretty_print_with_brackets(), "(a+(b*c))");
    let e = unary(PrefixOperator::Minus, unary(PrefixOperator::Minus, var("a")));
    assert_eq!(e.pretty_print(), "--a");
    assert_eq!(e.pretty_print_with_brackets(), "(-(-a))");
    let e = unary(
        PrefixOperator::Not,
        binary(var("a"), InfixOperator::Plus, binary(var("b"), InfixOperator::Multiply, var("c"))),
    );
    assert_eq!(e.pretty_print(), "NOT a+b*c");
    assert_eq!(e.pretty_print_with_brackets(), "(NOT (a+(b*c)))");
    let e = binary(var("a"), InfixOperator::Div, var("b"));
    assert_eq!(e.pretty_print_with_brackets(), "(a DIV b)");
}

#[test]
fn calls_print_their_arguments() {
    let call = |args| FunctionCallExpression { token: Token::Identifier("f"), func: name("f"), args };
    assert_eq!(call(vec![]).pretty_print(), "f()");
    assert_eq!(call(vec![num(1)]).pretty_print(), "f(1)");
    assert_eq!(call(vec![num(1), var("x"), num(3)]).pretty_print(), "f(1, x, 3)");
    let nested = call(vec![binary(var("a"), InfixOperator::Plus, var("b")), num(2)]);
    assert_eq!(nested.pretty_print(), "f(a+b, 2)");
    assert_eq!(nested.pretty_print_with_brackets(), "f((a+b), 2)");
    assert_eq!(Expression::FunctionCall(nested).pretty_print_with_brackets(), "f((a+b), 2)");
}

#[test]
fn plain_nodes() {
    let yes = BooleanExpression { token: Token::True, value: true };
    let no = BooleanExpression { token: Token::False, value: false };
    assert_eq!(yes.pretty_print(), "true");
    assert_eq!(no.pretty_print(), "false");
    assert_eq!(no.pretty_print_with_brackets(), "false");
    assert_eq!(PlaceholderExpression {}.pretty_print(), "<PLACEHOLDER_EXPRESSION>");
    assert_eq!(PlaceholderExpression {}.pretty_print_with_brackets(), "<PLACEHOLDER_EXPRESSION>");
    assert_eq!(name("abc").pretty_print_with_brackets(), "abc");
    assert_eq!(name("abc").get_ident(), "abc");
    assert_eq!(Identifier::from(Token::Identifier("n")), name("n"));
    assert_eq!(EmptyStatement {}.pretty_print(), "");
    assert_eq!(Statement::Empty.pretty_print(), "");
}

#[test]
fn a_name_without_an_identifier_token_is_empty() {
    assert_eq!(Identifier { token: Token::Plus }.get_ident(), "");
    assert_eq!(Identifier { token: Token::NumberLiteral("12") }.get_ident(), "");
    assert_eq!(Identifier { token: Token::Illegal }.pretty_print(), "");
}

#[test]
fn statements_print_one_per_line() {
    let assign = |global, n, value| {
        Statement::Assign(AssignStatement { token: Token::Illegal, ident: name(n), global, value })
    };
    assert_eq!(assign(false, "x", num(1)).pretty_print(), "x=1");
    assert_eq!(assign(true, "x", num(1)).pretty_print(), "global x=1");
    let ret = |value| ReturnStatement { token: Token::Return, value };
    assert_eq!(ret(None).pretty_print(), "return");
    assert_eq!(ret(Some(var("x"))).pretty_print(), "return x");
    assert_eq!(ExpressionStatement { value: var("x") }.pretty_print(), "x");

    let block = |statements| BlockStatement { token: Token::Illegal, statements };
    assert_eq!(block(vec![]).pretty_print(), "");
    assert_eq!(block(vec![assign(false, "x", num(1))]).pretty_print(), "x=1");
    assert_eq!(
        block(vec![assign(false, "x", num(1)), assign(true, "y", num(2)), Statement::Return(ret(None))])
            .pretty_print(),
        "x=1\nglobal y=2\nreturn"
    );
    assert_eq!(
        Statement::Block(block(vec![assign(false, "x", num(1)), assign(false, "y", num(2))]))
            .pretty_print(),
        "x=1\ny=2"
    );
}

#[test]
fn if_statement_text() {
    let assign = |n, value| {
        Statement::Assign(AssignStatement {
            token: Token::Illegal,
            ident: name(n),
            global: false,
            value,
        })
    };
    let block = |statements| BlockStatement { token: Token::Illegal, statements };
    let short = IfStatement {
        token: Token::If,
        condition: var("c"),
        consequence: block(vec![assign("x", num(1))]),
        alternative: None,
    };
    assert_eq!(short.pretty_print(), "if c then\nx=1\nendif");
    let long = IfStatement {
        token: Token::If,
        condition: binary(var("a"), InfixOperator::LThan, num(2)),
        consequence: block(vec![assign("x", num(1)), assign("y", num(2))]),
        alternative: Some(block(vec![assign("z", num(3))])),
    };
    assert_eq!(long.pretty_print(), "if a<2 then\nx=1\ny=2\nelse\nz=3\nendif");
    assert_eq!(Statement::If(long).pretty_print(), "if a<2 then\nx=1\ny=2\nelse\nz=3\nendif");
}

#[test]
fn declaration_text() {
    let body = BlockStatement {
        token: Token::Illegal,
        statements: vec![Statement::Return(ReturnStatement {
            token: Token::Return,
            value: Some(var("a")),
        })],
    };
    let f = FunctionStatement {
        token: Token::Function,
        ident: name("f"),
        params: vec![name("a"), name("b"), name("c")],
        body,
        is_procedure: false,
    };
    assert_eq!(f.pretty_print(), "function f(a, b, c)\nreturn a\nendfunction");
    let p = FunctionStatement {
        token: Token::Procedure,
        ident: name("p"),
        params: vec![],
        body: BlockStatement { token: Token::Illegal, statements: vec![] },
        is_procedure: true,
    };
    assert_eq!(p.pretty_print(), "procedure p()\n\nendprocedure");
}

#[test]
fn classification() {
    let e = binary(var("a"), InfixOperator::Plus, num(1));
    assert!(matches!(e.get_type(), ExpressionType::Infix(n) if n.operator == InfixOperator::Plus));
    assert!(matches!(var("a").get_type(), ExpressionType::Identifier(n) if n.get_ident() == "a"));
    assert!(matches!(num(3).get_type(), ExpressionType::IntegerLiteral(n) if n.value == 3));
    assert!(matches!(
        unary(PrefixOperator::Not, var("a")).get_type(),
        ExpressionType::Prefix(n) if n.operator == PrefixOperator::Not
    ));
    assert!(matches!(
        Expression::Placeholder(PlaceholderExpression {}).get_type(),
        ExpressionType::Placeholder(_)
    ));
    assert!(matches!(
        Expression::Boolean(BooleanExpression { token: Token::True, value: true }).get_type(),
        ExpressionType::Boolean(n) if n.value
    ));
    assert!(matches!(name("a").get_type(), ExpressionType::Identifier(_)));
    assert!(matches!(PlaceholderExpression {}.get_type(), ExpressionType::Placeholder(_)));
    assert!(matches!(Statement::Empty.get_type(), StatementType::Empty));
    assert!(matches!(EmptyStatement {}.get_type(), StatementType::Empty));
    let s = Statement::Expression(ExpressionStatement { value: var("q") });
    assert!(matches!(s.get_type(), StatementType::Expression(n) if n.value == var("q")));
    let r = ReturnStatement { token: Token::Return, value: None };
    assert!(matches!(r.get_type(), StatementType::Return(n) if n.value.is_none()));
}
