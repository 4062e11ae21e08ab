use pseudocode::lexer::lookup_keyword;
use pseudocode::lexer::Lexer;
use pseudocode::lexer::LexerError;
use pseudocode::lexer::Token;
use pseudocode::lexer::TokenDebugInfo;
use pseudocode::lexer::TokenType;

fn tokens(input: &str) -> Vec<Token<'_>> {
    let mut lexer = Lexer::new(input);
    let mut out = Vec::new();
    loop {
        let tok = lexer.next_token().unwrap();
        out.push(tok);
        if tok == Token::Eof {
            return out;
        }
    }
}

#[test]
fn word_that_starts_with_a_keyword_is_one_identifier() {
    assert_eq!(tokens("forward"), vec![Token::Identifier("forward"), Token::Eof]);
    assert_eq!(tokens("iff"), vec![Token::Identifier("iff"), Token::Eof]);
    assert_eq!(tokens("endifx then_"), vec![
        Token::Identifier("endifx"),
        Token::Identifier("then_"),
        Token::Eof
    ]);
    assert_eq!(tokens("for ward"), vec![Token::For, Token::Identifier("ward"), Token::Eof]);
}

#[test]
fn keywords_are_case_sensitive() {
    assert_eq!(tokens("or OR Or"), vec![
        Token::Identifier("or"),
        Token::Or,
        Token::Identifier("Or"),
        Token::Eof
    ]);
    assert_eq!(tokens("div mod and not"), vec![
        Token::Identifier("div"),
        Token::Identifier("mod"),
        Token::Identifier("and"),
        Token::Identifier("not"),
        Token::Eof
    ]);
    assert_eq!(tokens("Global TRUE"), vec![
        Token::Identifier("Global"),
        Token::Identifier("TRUE"),
        Token::Eof
    ]);
}

#[test]
fn comment_contributes_no_token() {
    assert_eq!(tokens("function // comment\nglobal"), vec![
        Token::Function,
        Token::Newline,
        Token::Global,
        Token::Eof
    ]);
    assert_eq!(tokens("x // to the end"), vec![Token::Identifier("x"), Token::Eof]);
    assert_eq!(tokens("//\n//"), vec![Token::Newline, Token::Eof]);
    assert_eq!(tokens("a / b"), vec![
        Token::Identifier("a"),
        Token::FSlash,
        Token::Identifier("b"),
        Token::Eof
    ]);
}

#[test]
fn end_of_input_repeats() {
    let mut lexer = Lexer::new("");
    assert_eq!(lexer.next_token().unwrap(), Token::Eof);
    assert_eq!(lexer.next_token().unwrap(), Token::Eof);
    let mut lexer = Lexer::new("a");
    assert_eq!(lexer.next_token().unwrap(), Token::Identifier("a"));
    assert_eq!(lexer.next_token().unwrap(), Token::Eof);
    assert_eq!(lexer.next_token().unwrap(), Token::Eof);
    let mut lexer = Lexer::default();
    assert_eq!(lexer.next_token().unwrap(), Token::Eof);
}

#[test]
fn zero_byte_is_an_end_sentinel() {
    let mut lexer = Lexer::new("a\0b");
    assert_eq!(lexer.next_token().unwrap(), Token::Identifier("a"));
    assert_eq!(lexer.next_token().unwrap(), Token::Eof);
    assert_eq!(lexer.next_token().unwrap(), Token::Identifier("b"));
    assert_eq!(lexer.next_token().unwrap(), Token::Eof);
}

#[test]
fn asterisk_and_equals() {
    assert_eq!(tokens("a*b"), vec![
        Token::Identifier("a"),
        Token::Asterisk,
        Token::Identifier("b"),
        Token::Eof
    ]);
    assert_eq!(tokens("= == === !=="), vec![
        Token::Equals,
        Token::DoubleEquals,
        Token::DoubleEquals,
        Token::Equals,
        Token::NotEqual,
        Token::Equals,
        Token::Eof
    ]);
    assert_eq!(tokens("<=>"), vec![Token::LThanOrEqual, Token::GThan, Token::Eof]);
}

#[test]
fn what_starts_no_token_is_illegal() {
    assert_eq!(tokens("!"), vec![Token::Illegal, Token::Eof]);
    assert_eq!(tokens("! ="), vec![Token::Illegal, Token::Equals, Token::Eof]);
    assert_eq!(tokens("@ # ^ ; ."), vec![
        Token::Illegal,
        Token::Illegal,
        Token::Illegal,
        Token::Illegal,
        Token::Illegal,
        Token::Eof
    ]);
    assert_eq!(tokens("_x"), vec![Token::Illegal, Token::Identifier("x"), Token::Eof]);
    assert_eq!(tokens("x_1"), vec![Token::Identifier("x_1"), Token::Eof]);
}

#[test]
fn only_space_and_tab_are_passed() {
    assert_eq!(tokens(" \t a \t"), vec![Token::Identifier("a"), Token::Eof]);
    assert_eq!(tokens("a\r\nb"), vec![
        Token::Identifier("a"),
        Token::Illegal,
        Token::Newline,
        Token::Identifier("b"),
        Token::Eof
    ]);
}

#[test]
fn bytes_above_ascii_are_illegal_one_by_one() {
    // the letter is two bytes long
    assert_eq!(tokens("a\u{e9}b"), vec![
        Token::Identifier("a"),
        Token::Illegal,
        Token::Illegal,
        Token::Identifier("b"),
        Token::Eof
    ]);
    // the sign is three bytes long
    assert_eq!(tokens("1\u{20ac}"), vec![
        Token::NumberLiteral("1"),
        Token::Illegal,
        Token::Illegal,
        Token::Illegal,
        Token::Eof
    ]);
}

#[test]
fn string_literals() {
    assert_eq!(tokens("\"\""), vec![Token::StringLiteral(""), Token::Eof]);
    assert_eq!(tokens("x=\"a b\"y"), vec![
        Token::Identifier("x"),
        Token::Equals,
        Token::StringLiteral("a b"),
        Token::Identifier("y"),
        Token::Eof
    ]);
    assert_eq!(tokens("\"caf\u{e9} \u{20ac}\""), vec![
        Token::StringLiteral("caf\u{e9} \u{20ac}"),
        Token::Eof
    ]);
    assert_eq!(tokens("\"two\nlines\""), vec![Token::StringLiteral("two\nlines"), Token::Eof]);
    assert_eq!(tokens("\"// no comment\""), vec![
        Token::StringLiteral("// no comment"),
        Token::Eof
    ]);
}

#[test]
fn open_quote_at_the_end_fails() {
    let mut lexer = Lexer::new("\"abc");
    assert_eq!(lexer.next_token(), Err(LexerError::UnterminatedStringLiteral));
    let mut lexer = Lexer::new("x \"");
    assert_eq!(lexer.next_token(), Ok(Token::Identifier("x")));
    assert_eq!(lexer.next_token(), Err(LexerError::UnterminatedStringLiteral));
    let mut lexer = Lexer::new("\"a\0b\"");
    assert_eq!(lexer.next_token(), Err(LexerError::UnterminatedStringLiteral));
}

#[test]
fn long_number_is_kept_as_text() {
    let digits = "123456789012345678901234567890123456789012345678901234567890";
    assert_eq!(tokens(digits), vec![Token::NumberLiteral(digits), Token::Eof]);
    assert_eq!(tokens("007"), vec![Token::NumberLiteral("007"), Token::Eof]);
    assert_eq!(tokens("1_000"), vec![
        Token::NumberLiteral("1"),
        Token::Illegal,
        Token::NumberLiteral("000"),
        Token::Eof
    ]);
}

#[test]
fn keyword_table() {
    assert_eq!(lookup_keyword("true"), Token::True);
    assert_eq!(lookup_keyword("false"), Token::False);
    assert_eq!(lookup_keyword("endprocedure"), Token::Endprocedure);
    assert_eq!(lookup_keyword("endfunction"), Token::Endfunction);
    assert_eq!(lookup_keyword("AND"), Token::And);
    assert_eq!(lookup_keyword("DIV"), Token::Div);
    assert_eq!(lookup_keyword("MOD"), Token::Mod);
    assert_eq!(lookup_keyword("next"), Token::Next);
    assert_eq!(lookup_keyword("forward"), Token::Identifier("forward"));
    assert_eq!(lookup_keyword(""), Token::Identifier(""));
    assert_eq!(lookup_keyword("tru"), Token::Identifier("tru"));
    assert_eq!(lookup_keyword("truer"), Token::Identifier("truer"));
}

#[test]
fn block_enders() {
    for tok in [
        Token::Endif,
        Token::Endfunction,
        Token::Endprocedure,
        Token::Endfor,
        Token::Endwhile,
        Token::Endswitch,
        Token::Else,
    ] {
        assert!(tok.is_block_ender());
    }
    for tok in [Token::Eof, Token::Newline, Token::If, Token::Then, Token::Return, Token::Next] {
        assert!(!tok.is_block_ender());
    }
}

#[test]
fn infix_tokens_are_those_with_an_operator() {
    assert!(Token::Asterisk.is_infix_op());
    assert!(Token::FSlash.is_infix_op());
    assert!(Token::DoubleEquals.is_infix_op());
    assert!(Token::NotEqual.is_infix_op());
    assert!(!Token::Equals.is_infix_op());
    assert!(!Token::LParenthasis.is_infix_op());
    assert!(!Token::Identifier("a").is_infix_op());
    assert!(!Token::Asterisk.is_prefix_op());
}

#[test]
fn token_classification() {
    assert_eq!(TokenType::from(Token::Identifier("abc")), TokenType::Identifier);
    assert_eq!(TokenType::from(Token::NumberLiteral("1")), TokenType::NumberLiteral);
    assert_eq!(TokenType::from(Token::StringLiteral("s")), TokenType::StringLiteral);
    assert_eq!(TokenType::from(Token::Endwhile), TokenType::Endwhile);
    assert_eq!(TokenType::from(Token::Caret), TokenType::Caret);
    assert_eq!(TokenDebugInfo::from(Token::Then), TokenDebugInfo { tok_type: TokenType::Then });
    assert_eq!(Token::default(), Token::Illegal);
    assert_eq!(TokenType::default(), TokenType::Illegal);
}
