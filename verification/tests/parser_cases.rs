use pseudocode::lexer::Lexer;
use pseudocode::lexer::LexerError;
use pseudocode::lexer::Token;
use pseudocode::lexer::TokenDebugInfo;
use pseudocode::lexer::TokenType;
use pseudocode::parser::parse_from_lexer;
use pseudocode::parser::parse_from_string;
use pseudocode::parser::Parser;
use pseudocode::parser::ParserError;
use pseudocode::parser::Precedence;
use pseudocode::parser::Program;
use pseudocode::syntax::ExpressionType;
use pseudocode::syntax::InfixOperator;
use pseudocode::syntax::NoSuchInfixOperatorError;
use pseudocode::syntax::PrettyPrint;
use pseudocode::syntax::StatementType;

fn unexpected(tok_type: TokenType) -> ParserError {
    ParserError::UnexpectedToken(TokenDebugInfo { tok_type })
}

fn failure(input: &str) -> ParserError {
    parse_from_string(input).unwrap_err()
}

fn printed(prog: &Program) -> String {
    prog.statements.iter().map(|s| s.pretty_print()).collect::<Vec<String>>().join("\n")
}

fn bracketed(input: &str) -> String {
    let prog = parse_from_string(input).unwrap();
    assert_eq!(prog.statements.len(), 1);
    match prog.statements[0].get_type() {
        StatementType::Expression(x) => x.value.pretty_print_with_brackets(),
        other => panic!("no expression statement: {:?}", other),
    }
}

#[test]
fn assignments_keep_their_global_flag() {
    let input = "a=1\nglobal bb=22\nccc=333";
    let prog = parse_from_string(input).unwrap();
    assert_eq!(prog.statements.len(), 3);
    let mut flags = Vec::new();
    for s in prog.statements.iter() {
        match s.get_type() {
            StatementType::Assign(a) => flags.push(a.global),
            other => panic!("no assignment: {:?}", other),
        }
    }
    assert_eq!(flags, vec![false, true, false]);
    assert_eq!(printed(&prog), input);
}

#[test]
fn empty_input_is_the_empty_program() {
    assert_eq!(parse_from_string("").unwrap().statements.len(), 0);
    assert_eq!(parse_from_string("\n\n  \n").unwrap().statements.len(), 0);
    assert_eq!(parse_from_string("// nothing\n").unwrap().statements.len(), 0);
    assert_eq!(Program::default().statements.len(), 0);
}

#[test]
fn closing_keyword_must_match() {
    assert_eq!(failure("function f()\nx=1\nendprocedure"), unexpected(TokenType::Endprocedure));
    assert_eq!(failure("procedure f()\nx=1\nendfunction"), unexpected(TokenType::Endfunction));
    assert_eq!(failure("function f()\nx=1\nendif"), unexpected(TokenType::Endif));
    assert_eq!(failure("function f()\nx=1\n"), unexpected(TokenType::Eof));
    assert!(parse_from_string("function f()\nx=1\nendfunction").is_ok());
    assert!(parse_from_string("procedure f()\nx=1\nendprocedure").is_ok());
}

#[test]
fn declaration_round_trip() {
    let input = "function my_func(arg1, arg2)\nx=1\nendfunction";
    let prog = parse_from_string(input).unwrap();
    assert_eq!(prog.statements.len(), 1);
    match prog.statements[0].get_type() {
        StatementType::Function(f) => {
            assert!(!f.is_procedure);
            assert_eq!(f.ident.get_ident(), "my_func");
            assert_eq!(f.params.len(), 2);
            assert_eq!(f.params[0].get_ident(), "arg1");
            assert_eq!(f.params[1].get_ident(), "arg2");
            assert_eq!(f.token, Token::Function);
            assert_eq!(f.body.statements.len(), 1);
            assert_eq!(f.pretty_print(), input);
        }
        other => panic!("no declaration: {:?}", other),
    }
    assert_eq!(printed(&prog), input);
    let text = printed(&prog);
    let again = parse_from_string(&text).unwrap();
    assert_eq!(again, prog);
}

#[test]
fn call_with_three_arguments() {
    let prog = parse_from_string("y=my_function(1, x+3, y)").unwrap();
    assert_eq!(prog.statements.len(), 1);
    let assign = match prog.statements[0].get_type() {
        StatementType::Assign(a) => a,
        other => panic!("no assignment: {:?}", other),
    };
    assert_eq!(assign.ident.get_ident(), "y");
    let call = match assign.value.get_type() {
        ExpressionType::FunctionCall(c) => c,
        other => panic!("no call: {:?}", other),
    };
    assert_eq!(call.func.get_ident(), "my_function");
    assert_eq!(call.token, Token::Identifier("my_function"));
    assert_eq!(call.args.len(), 3);
    assert!(matches!(call.args[0].get_type(), ExpressionType::IntegerLiteral(n) if n.value == 1));
    match call.args[1].get_type() {
        ExpressionType::Infix(n) => {
            assert_eq!(n.operator, InfixOperator::Plus);
            assert_eq!(n.token, Token::Plus);
            assert!(matches!(n.left.get_type(), ExpressionType::Identifier(i) if i.get_ident() == "x"));
            assert!(matches!(n.right.get_type(), ExpressionType::IntegerLiteral(i) if i.value == 3));
        }
        other => panic!("no infix expression: {:?}", other),
    }
    assert!(matches!(call.args[2].get_type(), ExpressionType::Identifier(i) if i.get_ident() == "y"));
}

#[test]
fn call_arguments_may_stand_on_lines_of_their_own() {
    assert_eq!(bracketed("f(\n1,\n2\n)"), "f(1, 2)");
    assert_eq!(bracketed("f(1\n,2\n,\n\n3\n\n)"), "f(1, 2, 3)");
    assert_eq!(bracketed("f(\n)"), "f()");
    assert_eq!(bracketed("f(g(1), h())"), "f(g(1), h())");
    assert_eq!(bracketed("f(a+b, -c)"), "f((a+b), (-c))");
    assert_eq!(bracketed("1+f(2)*3"), "(1+(f(2)*3))");
}

#[test]
fn call_needs_a_bare_name_before_the_parenthesis() {
    assert_eq!(failure("1(2)"), unexpected(TokenType::LParenthasis));
    assert_eq!(failure("(a)(2)"), unexpected(TokenType::LParenthasis));
    assert_eq!(failure("a(1)(2)"), unexpected(TokenType::LParenthasis));
    assert_eq!(failure("true(2)"), unexpected(TokenType::LParenthasis));
    assert_eq!(failure("f(1 2)"), unexpected(TokenType::NumberLiteral));
    assert_eq!(failure("f(1,)"), unexpected(TokenType::RParenthasis));
    assert_eq!(failure("f(1"), unexpected(TokenType::Eof));
    assert_eq!(failure("f(,1)"), unexpected(TokenType::Comma));
}

#[test]
fn operators_of_one_precedence_group_from_the_left() {
    assert_eq!(bracketed("1-2-3"), "((1-2)-3)");
    assert_eq!(bracketed("1-2+3"), "((1-2)+3)");
    assert_eq!(bracketed("8/4/2"), "((8/4)/2)");
    assert_eq!(bracketed("8 DIV 4 MOD 3 * 2"), "(((8 DIV 4) MOD 3)*2)");
    assert_eq!(bracketed("a<b<c"), "((a<b)<c)");
    assert_eq!(bracketed("a==b!=c"), "((a==b)!=c)");
}

#[test]
fn connectives_bind_tighter_than_comparisons() {
    assert_eq!(bracketed("a AND b"), "(a AND b)");
    assert_eq!(bracketed("a == b OR c"), "(a==(b OR c))");
    assert_eq!(bracketed("a < b AND c"), "(a<(b AND c))");
    assert_eq!(bracketed("a OR b AND c"), "((a OR b) AND c)");
    assert_eq!(bracketed("a AND b OR c"), "(a AND (b OR c))");
    assert_eq!(bracketed("a + b OR c"), "((a+b) OR c)");
    assert_eq!(bracketed("a OR b + c"), "(a OR (b+c))");
    assert_eq!(bracketed("a < b == c"), "((a<b)==c)");
    assert_eq!(bracketed("a == b < c"), "(a==(b<c))");
    assert_eq!(bracketed("NOT a == b"), "((NOT a)==b)");
    assert_eq!(bracketed("- a * b"), "((-a)*b)");
    assert_eq!(bracketed("- - a"), "(-(-a))");
    assert_eq!(bracketed("NOT NOT true"), "(NOT (NOT true))");
}

#[test]
fn parentheses_group() {
    assert_eq!(bracketed("(1+2)*3"), "((1+2)*3)");
    assert_eq!(bracketed("((1))"), "1");
    assert_eq!(bracketed("-(a+b*c)"), "(-(a+(b*c)))");
    assert_eq!(bracketed("(a)"), "a");
    assert_eq!(failure("(1+2"), unexpected(TokenType::Eof));
    assert_eq!(failure("(1+2\n)"), unexpected(TokenType::Newline));
    assert_eq!(failure("(1 2)"), unexpected(TokenType::NumberLiteral));
    assert_eq!(failure("()"), unexpected(TokenType::RParenthasis));
    assert_eq!(failure(")"), unexpected(TokenType::RParenthasis));
}

#[test]
fn number_literals_are_converted() {
    let prog = parse_from_string("170141183460469231731687303715884105727").unwrap();
    match prog.statements[0].get_type() {
        StatementType::Expression(x) => match x.value.get_type() {
            ExpressionType::IntegerLiteral(n) => {
                assert_eq!(n.value, i128::MAX);
                assert_eq!(n.token, Token::NumberLiteral("170141183460469231731687303715884105727"));
            }
            other => panic!("no number: {:?}", other),
        },
        other => panic!("no expression statement: {:?}", other),
    }
    assert_eq!(failure("170141183460469231731687303715884105728"), ParserError::TooLargeInteger);
    assert_eq!(failure("x=1+99999999999999999999999999999999999999999999"), ParserError::TooLargeInteger);
    assert_eq!(printed(&parse_from_string("x=007").unwrap()), "x=7");
}

#[test]
fn open_quote_stops_the_parser() {
    assert_eq!(failure("\"abc"), ParserError::UnterminatedStringLiteral);
    assert_eq!(failure("x \"abc"), ParserError::UnterminatedStringLiteral);
    assert_eq!(failure("x = \"abc"), ParserError::UnterminatedStringLiteral);
    assert_eq!(failure("x = 1 + \"abc"), ParserError::UnterminatedStringLiteral);
    // the grammar is violated before the lexer reaches the open quote
    assert_eq!(failure(") 1 2 \"abc"), unexpected(TokenType::RParenthasis));
    assert_eq!(failure("x = \"abc\""), unexpected(TokenType::StringLiteral));
}

#[test]
fn tokens_without_a_rule_are_unexpected() {
    assert_eq!(failure("endif"), unexpected(TokenType::Endif));
    assert_eq!(failure("x = "), unexpected(TokenType::Eof));
    assert_eq!(failure("x = \n1"), unexpected(TokenType::Newline));
    assert_eq!(failure("global 1"), unexpected(TokenType::NumberLiteral));
    assert_eq!(failure("global x 1"), unexpected(TokenType::NumberLiteral));
    assert_eq!(failure("1 + * 2"), unexpected(TokenType::Asterisk));
    assert_eq!(failure("@"), unexpected(TokenType::Illegal));
    assert_eq!(failure("switch x"), unexpected(TokenType::Switch));
    assert_eq!(failure("while x"), unexpected(TokenType::While));
    assert_eq!(failure("x = 1\nfor"), unexpected(TokenType::For));
    assert_eq!(failure("[1]"), unexpected(TokenType::LSquareBracket));
}

#[test]
fn return_with_and_without_value() {
    let prog = parse_from_string("return\nreturn 1+2\nreturn f(x)\nreturn // done").unwrap();
    assert_eq!(prog.statements.len(), 4);
    assert_eq!(printed(&prog), "return\nreturn 1+2\nreturn f(x)\nreturn");
    match prog.statements[0].get_type() {
        StatementType::Return(r) => {
            assert!(r.value.is_none());
            assert_eq!(r.token, Token::Return);
        }
        other => panic!("no return: {:?}", other),
    }
    assert_eq!(failure("return )"), unexpected(TokenType::RParenthasis));
}

#[test]
fn if_statement_needs_then_and_endif() {
    let input = "if a<2 then\nx=1\ny=2\nelse\nz=3\nendif";
    let prog = parse_from_string(input).unwrap();
    assert_eq!(prog.statements.len(), 1);
    assert_eq!(printed(&prog), input);
    let text = printed(&prog);
    assert_eq!(parse_from_string(&text).unwrap(), prog);

    let prog = parse_from_string("if c then x=1 endif").unwrap();
    assert_eq!(printed(&prog), "if c then\nx=1\nendif");
    let prog = parse_from_string("if c then\nendif\nx=1").unwrap();
    assert_eq!(prog.statements.len(), 2);
    assert_eq!(printed(&prog), "if c then\n\nendif\nx=1");

    assert_eq!(failure("if c\nx=1\nendif"), unexpected(TokenType::Newline));
    assert_eq!(failure("if c x=1 endif"), unexpected(TokenType::Identifier));
    assert_eq!(failure("if c then\nx=1\n"), unexpected(TokenType::Eof));
    assert_eq!(failure("if c then\nx=1\nendfunction"), unexpected(TokenType::Endfunction));
    assert_eq!(failure("if c then\nx=1\nelse\ny=2\nendwhile"), unexpected(TokenType::Endwhile));
    assert_eq!(failure("if c then\nx=1\nelse\ny=2\nelse\nz=3\nendif"), unexpected(TokenType::Else));
    assert_eq!(failure("if then\nendif"), unexpected(TokenType::Then));
}

#[test]
fn blocks_nest() {
    let input = "procedure p(a)\nif a then\nif b then\nx=1\nendif\nelse\nreturn\nendif\ny=2\nendprocedure\nz=3";
    let prog = parse_from_string(input).unwrap();
    assert_eq!(prog.statements.len(), 2);
    assert_eq!(printed(&prog), input);
    match prog.statements[0].get_type() {
        StatementType::Function(f) => {
            assert!(f.is_procedure);
            assert_eq!(f.body.statements.len(), 2);
            assert_eq!(f.body.token, Token::If);
            match f.body.statements[0].get_type() {
                StatementType::If(i) => {
                    assert_eq!(i.consequence.statements.len(), 1);
                    assert_eq!(i.alternative.as_ref().unwrap().statements.len(), 1);
                }
                other => panic!("no if statement: {:?}", other),
            }
        }
        other => panic!("no declaration: {:?}", other),
    }
}

#[test]
fn parameters_of_a_declaration() {
    let params = |input: &str| -> Vec<String> {
        let prog = parse_from_string(input).unwrap();
        match prog.statements[0].get_type() {
            StatementType::Function(f) => f.params.iter().map(|p| p.get_ident().to_owned()).collect(),
            other => panic!("no declaration: {:?}", other),
        }
    };
    assert_eq!(params("function f()\nendfunction"), Vec::<String>::new());
    assert_eq!(params("function f(a)\nendfunction"), vec!["a"]);
    assert_eq!(params("function f(a,b , c)\nendfunction"), vec!["a", "b", "c"]);
    assert_eq!(params("function f(a,)\nendfunction"), vec!["a"]);
    assert_eq!(failure("function f(a b)\nendfunction"), unexpected(TokenType::Identifier));
    assert_eq!(failure("function f(1)\nendfunction"), unexpected(TokenType::NumberLiteral));
    assert_eq!(failure("function f(,a)\nendfunction"), unexpected(TokenType::Comma));
    assert_eq!(failure("function f\nendfunction"), unexpected(TokenType::Newline));
    assert_eq!(failure("function (a)\nendfunction"), unexpected(TokenType::LParenthasis));
    assert_eq!(failure("function f(a"), unexpected(TokenType::Eof));
}

#[test]
fn statements_need_no_line_of_their_own() {
    let prog = parse_from_string("x=1 y=2 return").unwrap();
    assert_eq!(printed(&prog), "x=1\ny=2\nreturn");
    let prog = parse_from_string("\n\nx=1\n\n\ny=2\n\n").unwrap();
    assert_eq!(printed(&prog), "x=1\ny=2");
}

#[test]
fn name_before_equals_starts_an_assignment() {
    let kinds = |input: &str| -> Vec<&'static str> {
        parse_from_string(input)
            .unwrap()
            .statements
            .iter()
            .map(|s| match s.get_type() {
                StatementType::Assign(_) => "assign",
                StatementType::Expression(_) => "expression",
                _ => "other",
            })
            .collect()
    };
    assert_eq!(kinds("x=1"), vec!["assign"]);
    assert_eq!(kinds("x==1"), vec!["expression"]);
    assert_eq!(kinds("x"), vec!["expression"]);
    assert_eq!(kinds("global x=1"), vec!["assign"]);
    assert_eq!(failure("1=2"), unexpected(TokenType::Equals));
    assert_eq!(failure("x=1=2"), unexpected(TokenType::Equals));
}

#[test]
fn parser_holds_what_it_parsed_before_a_violation() {
    let mut parser = Parser::new(Lexer::new("x=1\ny=2\n)")).unwrap();
    assert_eq!(parser.parse(), Err(unexpected(TokenType::RParenthasis)));
    assert_eq!(printed(&parser.prog), "x=1\ny=2");

    let mut parser = Parser::new(Lexer::new("x=1\ny=2")).unwrap();
    assert_eq!(parser.parse(), Ok(()));
    assert_eq!(printed(&parser.prog), "x=1\ny=2");
    assert_eq!(parser.current(), Token::Eof);
    assert_eq!(parser.parse(), Ok(()));
    assert_eq!(printed(&parser.prog), "x=1\ny=2");
}

#[test]
fn parser_moves_token_by_token() {
    let mut parser = Parser::new(Lexer::new("a b \"c")).unwrap();
    assert_eq!(parser.current(), Token::Identifier("a"));
    assert_eq!(parser.peek(), Token::Identifier("b"));
    assert_eq!(parser.next_token(), Err(LexerError::UnterminatedStringLiteral));
    assert_eq!(parser.current(), Token::Identifier("a"));
    assert_eq!(parser.peek(), Token::Identifier("b"));
    assert_eq!(parser.next_token(), Err(LexerError::UnterminatedStringLiteral));

    let mut parser = Parser::new(Lexer::new("a b")).unwrap();
    assert_eq!(parser.next_token(), Ok(()));
    assert_eq!(parser.current(), Token::Identifier("b"));
    assert_eq!(parser.peek(), Token::Eof);
    assert_eq!(parser.next_token(), Ok(()));
    assert_eq!(parser.current(), Token::Eof);
    assert_eq!(parser.next_token(), Ok(()));
    assert_eq!(parser.current(), Token::Eof);

    assert!(matches!(Parser::new(Lexer::new("\"a")), Err(LexerError::UnterminatedStringLiteral)));
    assert!(matches!(Parser::new(Lexer::new("a \"b")), Err(LexerError::UnterminatedStringLiteral)));
}

#[test]
fn parsing_starts_where_the_lexer_stands() {
    let mut lexer = Lexer::new(") x=1");
    assert_eq!(lexer.next_token(), Ok(Token::RParenthasis));
    let prog = parse_from_lexer(lexer).unwrap();
    assert_eq!(printed(&prog), "x=1");
    assert_eq!(parse_from_lexer(Lexer::new("\"x")).unwrap_err(), ParserError::UnterminatedStringLiteral);
}

#[test]
fn zero_byte_ends_the_program() {
    let prog = parse_from_string("x=1\n\0y=2").unwrap();
    assert_eq!(printed(&prog), "x=1");
}

#[test]
fn precedence_table() {
    assert_eq!(Precedence::from(Token::LThan), Precedence::Inequality);
    assert_eq!(Precedence::from(Token::GThanOrEqual), Precedence::Inequality);
    assert_eq!(Precedence::from(Token::DoubleEquals), Precedence::Equality);
    assert_eq!(Precedence::from(Token::NotEqual), Precedence::Equality);
    assert_eq!(Precedence::from(Token::Plus), Precedence::Sum);
    assert_eq!(Precedence::from(Token::Minus), Precedence::Sum);
    assert_eq!(Precedence::from(Token::Asterisk), Precedence::Product);
    assert_eq!(Precedence::from(Token::FSlash), Precedence::Product);
    assert_eq!(Precedence::from(Token::Div), Precedence::Product);
    assert_eq!(Precedence::from(Token::Mod), Precedence::Product);
    assert_eq!(Precedence::from(Token::And), Precedence::And);
    assert_eq!(Precedence::from(Token::Or), Precedence::Or);
    assert_eq!(Precedence::from(Token::LParenthasis), Precedence::Call);
    assert_eq!(Precedence::from(Token::Not), Precedence::Lowest);
    assert_eq!(Precedence::from(Token::Equals), Precedence::Lowest);
    assert_eq!(Precedence::from(Token::Identifier("x")), Precedence::Lowest);
    assert_eq!(Precedence::default(), Precedence::Lowest);
    let order = [
        Precedence::Lowest,
        Precedence::Equality,
        Precedence::Inequality,
        Precedence::And,
        Precedence::Or,
        Precedence::Sum,
        Precedence::Product,
        Precedence::Prefix,
        Precedence::Call,
    ];
    for (i, p) in order.iter().enumerate() {
        assert_eq!(p.rank() as usize, i);
        for (j, q) in order.iter().enumerate() {
            assert_eq!(p < q, i < j);
        }
    }
}

#[test]
fn errors_of_the_lexer_keep_their_names() {
    assert_eq!(
        ParserError::from(LexerError::UnterminatedStringLiteral),
        ParserError::UnterminatedStringLiteral
    );
    assert_eq!(ParserError::from(LexerError::InvalidNumberLiteral), ParserError::InvalidNumberLiteral);
    assert_eq!(ParserError::from(LexerError::TooLargeInteger), ParserError::TooLargeInteger);
    assert_eq!(
        ParserError::from(NoSuchInfixOperatorError { tok: Token::Then }),
        unexpected(TokenType::Then)
    );
}

#[test]
fn bracketed_text_parses_back() {
    for input in [
        "a",
        "true",
        "0",
        "170141183460469231731687303715884105727",
        "- a",
        "NOT NOT b",
        "a + b * c - d / e",
        "a DIV b MOD c",
        "a AND b OR c == d != e",
        "a < b <= c > d >= e",
        "(a + b) * (c - d)",
        "f()",
        "f(1)",
        "f(a, g(b, c + d), - e, h())",
        "NOT f(a OR b) AND (c DIV 2 == 0)",
        "x_1 + forward * OReo",
    ] {
        let first = parse_from_string(input).unwrap();
        assert_eq!(first.statements.len(), 1);
        let text = match first.statements[0].get_type() {
            StatementType::Expression(x) => x.value.pretty_print_with_brackets(),
            other => panic!("no expression statement: {:?}", other),
        };
        let second = parse_from_string(&text).unwrap();
        assert_eq!(second, first, "{}", text);
        assert_eq!(bracketed(&text), text);
    }
}

#[test]
fn program_text_parses_back() {
    for input in [
        "",
        "a=1",
        "a=1\nglobal bb=22\nccc=333",
        "return\nreturn x\nreturn f(1, g(a), true)",
        "f()\nx\n12\nfalse",
        "function my_func(arg1, arg2)\nx=1\nendfunction",
        "procedure p()\n\nendprocedure",
        "if c then\n\nendif",
        "if f(x) then\nx=1\nreturn\nelse\n\nendif\ny=2",
        "function f(a)\nif a then\nif b then\nreturn 1\nelse\nreturn g(2)\nendif\nendif\nprocedure q(x, y, z)\nglobal w=x\nendprocedure\nendfunction",
        "x=y+5\nif x+y>5 then\nx=y+5\nendif",
        "a=-b*c+NOT d",
        "x=1-2-3\ny=a DIV b MOD c\nz=a<b==c",
        "return -f(a+1, -b)*2",
        "--a\n+-+a\nNOT NOT true\n-NOT a\na--b\na/-b\na<-b",
        "a AND b OR c==d\na OR b AND c",
    ] {
        let first = parse_from_string(input).unwrap();
        assert_eq!(printed(&first), input);
        let text = printed(&first);
        let second = parse_from_string(&text).unwrap();
        assert_eq!(second, first, "{}", text);
    }
}
