use super::bracketed::{
    all_parseable, bracketed, bracketed_arguments, lemma_bracketed_form_parses_back, parseable,
};
use super::grammar::{program, progress, statement, Parsed};
use super::rules::{ParserError, Precedence};
use super::stream::{lemma_behind_parts, lemma_lex_at_end, lemma_lex_step, lex, TokenStream};
use crate::lexer::{
    byte_at, is_digit, is_letter, is_name, is_word_char, lemma_keyword_table, lemma_placed_parts,
    lemma_scan_comparison, lemma_scan_number, lemma_scan_punctuation, lemma_scan_word, placed,
    scan, spaces, ByteClass, LexerError, Scan, TokenType, TokenView,
};
use crate::syntax::{
    decimal, decimal_digits, lemma_decimal_round_trip, lemma_operator_of_its_token, render_args,
    render_expr, ExprView, InfixOperator, PrefixOperator, StmtView,
};
use vstd::prelude::*;
use vstd::string::StringSliceAdditionalSpecFns;
use vstd::utf8::{is_ascii_chars, is_ascii_chars_encode_utf8};

verus! {

/// Whether an expression is one that the parser yields for its own canonical
/// text: each node holds the token that the lexer reads for it there.
pub open spec fn canonical(e: ExprView) -> bool
    decreases e,
{
    match e {
        ExprView::Identifier { token } => is_name(token),
        ExprView::Boolean { token, value } => token == TokenView::plain(
            if value {
                TokenType::True
            } else {
                TokenType::False
            },
        ),
        ExprView::IntegerLiteral { token, value } => 0 <= value <= i128::MAX && token
            == (TokenView { kind: TokenType::NumberLiteral, text: decimal(value) }),
        ExprView::Prefix { token, operator, subject } => token == TokenView::plain(operator.kind())
            && canonical(*subject),
        ExprView::Infix { token, operator, left, right } => token == TokenView::plain(
            operator.kind(),
        ) && canonical(*left) && canonical(*right),
        ExprView::FunctionCall { token, func, args } => token == func && is_name(func)
            && all_canonical(args),
        ExprView::Placeholder => false,
    }
}

/// Whether all of `args` are canonical.
pub open spec fn all_canonical(args: Seq<ExprView>) -> bool
    decreases args,
{
    args.len() == 0 || (canonical(args[0]) && all_canonical(args.drop_first()))
}

/// Whether a byte can start an operand in the bracketed form: a parenthesis, a
/// letter or a digit.
pub open spec fn starts_operand(b: u8) -> bool {
    b == '(' as u8 || is_letter(b) || is_digit(b)
}

/// Whether a byte behind an operator leaves the operator as it is: with a
/// second slash it would start a comment, and with `=` another operator.
pub open spec fn follows_operator(b: u8) -> bool {
    b != '/' as u8 && b != '=' as u8
}

/// The digits of a number are digits.
pub(super) proof fn lemma_digits_are_digits(n: nat)
    ensures
        decimal_digits(n).len() >= 1,
        forall|k: int|
            0 <= k < decimal_digits(n).len() ==> is_digit(#[trigger] decimal_digits(n)[k] as u8)
                && (decimal_digits(n)[k] as u8) as char == decimal_digits(n)[k],
    decreases n,
{
    if n >= 10 {
        lemma_digits_are_digits(n / 10);
    }
}

/// A canonical expression is one that the parser can yield.
pub(super) proof fn lemma_canonical_is_parseable(e: ExprView)
    requires
        canonical(e),
    ensures
        parseable(e),
    decreases e, 1nat,
{
    match e {
        ExprView::IntegerLiteral { token, value } => {
            lemma_decimal_round_trip(value as nat);
        },
        ExprView::Prefix { token, operator, subject } => {
            lemma_canonical_is_parseable(*subject);
            lemma_operator_of_its_token(InfixOperator::Plus, operator);
        },
        ExprView::Infix { token, operator, left, right } => {
            lemma_canonical_is_parseable(*left);
            lemma_canonical_is_parseable(*right);
            lemma_operator_of_its_token(operator, PrefixOperator::Plus);
        },
        ExprView::FunctionCall { token, func, args } => {
            lemma_all_canonical_are_parseable(args);
        },
        _ => {},
    }
}

proof fn lemma_all_canonical_are_parseable(args: Seq<ExprView>)
    requires
        all_canonical(args),
    ensures
        all_parseable(args),
    decreases args, 0nat,
{
    if args.len() > 0 {
        lemma_canonical_is_parseable(args[0]);
        lemma_all_canonical_are_parseable(args.drop_first());
    }
}

/// The bracketed text of a canonical expression starts with a parenthesis, a
/// letter or a digit.
pub(super) proof fn lemma_text_starts_an_operand(e: ExprView)
    requires
        canonical(e),
    ensures
        render_expr(e, true).len() >= 1,
        starts_operand(render_expr(e, true)[0] as u8),
{
    reveal_strlit("(");
    reveal_strlit("true");
    reveal_strlit("false");
    match e {
        ExprView::IntegerLiteral { token, value } => {
            lemma_digits_are_digits(value as nat);
            assert(is_digit(decimal_digits(value as nat)[0] as u8));
        },
        ExprView::Identifier { token } => {
            assert(is_word_char(token.text[0]));
        },
        ExprView::FunctionCall { token, func, args } => {
            assert(is_word_char(func.text[0]));
        },
        _ => {},
    }
}

/// A prefix operator is read as its token: where its spelling stands behind
/// the spaces at `pos`, and an operand behind it, the lexer reads the operator
/// and stops at the operand or at the space before it.
proof fn lemma_scan_prefix_operator(src: Seq<u8>, pos: int, start: int, op: PrefixOperator) -> (next:
    int)
    requires
        spaces(src, pos, start),
        placed(src, start, op.symbol()),
    ensures
        scan(src, pos) == (Scan { token: Ok(TokenView::plain(op.kind())), next }),
        start < next <= src.len(),
        spaces(src, next, start + op.symbol().len()),
{
    reveal_strlit("+");
    reveal_strlit("-");
    reveal_strlit("NOT ");
    reveal_strlit("NOT");
    match op {
        PrefixOperator::Plus => {
            assert(src[start + 0] == '+' as u8);
            lemma_scan_punctuation(src, pos, start);
            start + 1
        },
        PrefixOperator::Minus => {
            assert(src[start + 0] == '-' as u8);
            lemma_scan_punctuation(src, pos, start);
            start + 1
        },
        PrefixOperator::Not => {
            assert("NOT "@ =~= "NOT"@ + seq![' ']);
            lemma_placed_parts(src, start, "NOT"@, seq![' ']);
            assert(src[start + 3 + 0] == ' ' as u8);
            lemma_keyword_table();
            lemma_scan_word(src, pos, start, "NOT"@);
            start + 3
        },
    }
}

/// An infix operator is read as its token: where its spelling stands behind
/// the spaces at `pos`, and an operand behind it, the lexer reads the operator
/// and stops at the operand or at the space before it.
proof fn lemma_scan_infix_operator(src: Seq<u8>, pos: int, start: int, op: InfixOperator) -> (next:
    int)
    requires
        spaces(src, pos, start),
        placed(src, start, op.symbol()),
        follows_operator(byte_at(src, start + op.symbol().len())),
    ensures
        scan(src, pos) == (Scan { token: Ok(TokenView::plain(op.kind())), next }),
        start < next <= src.len(),
        spaces(src, next, start + op.symbol().len()),
{
    reveal_strlit("+");
    reveal_strlit("-");
    reveal_strlit("*");
    reveal_strlit("/");
    reveal_strlit("==");
    reveal_strlit("!=");
    reveal_strlit("<");
    reveal_strlit("<=");
    reveal_strlit(">");
    reveal_strlit(">=");
    match op {
        InfixOperator::Plus | InfixOperator::Minus | InfixOperator::Multiply
        | InfixOperator::Divide => {
            assert(src[start + 0] == op.symbol()[0] as u8);
            lemma_scan_punctuation(src, pos, start);
            start + 1
        },
        InfixOperator::LThan | InfixOperator::GThan => {
            assert(src[start + 0] == op.symbol()[0] as u8);
            lemma_scan_comparison(src, pos, start);
            start + 1
        },
        InfixOperator::DoubleEquals | InfixOperator::NotEqual | InfixOperator::LThanOrEqual
        | InfixOperator::GThanOrEqual => {
            assert(src[start + 0] == op.symbol()[0] as u8);
            assert(src[start + 1] == op.symbol()[1] as u8);
            lemma_scan_comparison(src, pos, start);
            start + 2
        },
        InfixOperator::Div => lemma_scan_word_operator(src, pos, start, op, "DIV"@),
        InfixOperator::Mod => lemma_scan_word_operator(src, pos, start, op, "MOD"@),
        InfixOperator::Or => lemma_scan_word_operator(src, pos, start, op, "OR"@),
        InfixOperator::And => lemma_scan_word_operator(src, pos, start, op, "AND"@),
    }
}

/// The step for an operator that is a word with a space on either side.
proof fn lemma_scan_word_operator(
    src: Seq<u8>,
    pos: int,
    start: int,
    op: InfixOperator,
    word: Seq<char>,
) -> (next: int)
    requires
        spaces(src, pos, start),
        placed(src, start, op.symbol()),
        op == InfixOperator::Div && word == "DIV"@ || op == InfixOperator::Mod && word == "MOD"@
            || op == InfixOperator::Or && word == "OR"@ || op == InfixOperator::And && word
            == "AND"@,
    ensures
        scan(src, pos) == (Scan { token: Ok(TokenView::plain(op.kind())), next }),
        next == start + 1 + word.len(),
        start < next <= src.len(),
        spaces(src, next, start + op.symbol().len()),
{
    reveal_strlit(" DIV ");
    reveal_strlit(" MOD ");
    reveal_strlit(" OR ");
    reveal_strlit(" AND ");
    reveal_strlit("DIV");
    reveal_strlit("MOD");
    reveal_strlit("OR");
    reveal_strlit("AND");
    let symbol = op.symbol();
    assert(symbol =~= seq![' '] + word + seq![' ']);
    lemma_placed_parts(src, start, seq![' '] + word, seq![' ']);
    lemma_placed_parts(src, start, seq![' '], word);
    assert(src[start + 0] == ' ' as u8);
    assert(src[start + 1 + word.len() + 0] == ' ' as u8);
    assert(spaces(src, pos, start + 1));
    lemma_keyword_table();
    lemma_scan_word(src, pos, start + 1, word);
    start + 1 + word.len()
}

/// Whether an expression is one token long: a name, `true`, `false` or a
/// number.
pub open spec fn is_plain(e: ExprView) -> bool {
    e is Identifier || e is Boolean || e is IntegerLiteral
}

/// The arguments of a call are written one behind the other: the first, and
/// behind a comma and a space the others.
pub(super) proof fn lemma_render_args_from_the_front(args: Seq<ExprView>, brackets: bool)
    requires
        args.len() >= 2,
    ensures
        render_args(args, brackets) == render_expr(args[0], brackets) + ", "@ + render_args(
            args.drop_first(),
            brackets,
        ),
    decreases args.len(),
{
    let front = args.drop_last();
    let back = args.drop_first();
    let first = render_expr(args[0], brackets);
    let last = render_expr(args.last(), brackets);
    assert(render_args(args, brackets) == render_args(front, brackets) + ", "@ + last);
    assert(front[0] == args[0]);
    assert(back.last() == args.last());
    if args.len() == 2 {
        assert(render_args(front, brackets) == first);
        assert(back[0] == args.last());
        assert(render_args(back, brackets) == last);
    } else {
        lemma_render_args_from_the_front(front, brackets);
        assert(front.drop_first() =~= back.drop_last());
        let middle = render_args(back.drop_last(), brackets);
        assert(render_args(back, brackets) == middle + ", "@ + last);
        assert((first + ", "@ + middle) + ", "@ + last =~= first + ", "@ + (middle + ", "@ + last));
    }
}

/// The step for an expression of one token.
pub(super) proof fn lemma_lex_plain(src: Seq<u8>, pos: int, start: int, e: ExprView)
    requires
        is_plain(e),
        canonical(e),
        spaces(src, pos, start),
        placed(src, start, render_expr(e, true)),
        !ByteClass::Word.holds(byte_at(src, start + render_expr(e, true).len())),
    ensures
        render_expr(e, true).len() >= 1,
        lex(src, pos) == lex(src, start + render_expr(e, true).len()).behind(bracketed(e)),
{
    match e {
        ExprView::Identifier { token } => {
            assert forall|k: int| 0 <= k < token.text.len() implies ByteClass::Word.holds(
                #[trigger] token.text[k] as u8,
            ) && (token.text[k] as u8) as char == token.text[k] by {
                assert(is_word_char(token.text[k]));
            }
            lemma_scan_word(src, pos, start, token.text);
        },
        ExprView::Boolean { token, value } => {
            reveal_strlit("true");
            reveal_strlit("false");
            lemma_keyword_table();
            if value {
                lemma_scan_word(src, pos, start, "true"@);
            } else {
                lemma_scan_word(src, pos, start, "false"@);
            }
        },
        ExprView::IntegerLiteral { token, value } => {
            lemma_digits_are_digits(value as nat);
            lemma_scan_number(src, pos, start, decimal_digits(value as nat));
        },
        _ => {},
    }
    lemma_lex_step(src, pos);
}

/// The step for a parenthesis and for a comma.
pub(super) proof fn lemma_lex_mark(src: Seq<u8>, pos: int, kind: TokenType)
    requires
        0 <= pos < src.len(),
        src[pos] == '(' as u8 && kind == TokenType::LParenthasis || src[pos] == ')' as u8 && kind
            == TokenType::RParenthasis || src[pos] == ',' as u8 && kind == TokenType::Comma,
    ensures
        lex(src, pos) == lex(src, pos + 1).behind(seq![TokenView::plain(kind)]),
{
    lemma_scan_punctuation(src, pos, pos);
    lemma_lex_step(src, pos);
}

/// The step for the name of the function in a call.
pub(super) proof fn lemma_lex_callee(src: Seq<u8>, pos: int, start: int, func: TokenView)
    requires
        is_name(func),
        spaces(src, pos, start),
        placed(src, start, func.text),
        byte_at(src, start + func.text.len()) == '(' as u8,
    ensures
        lex(src, pos) == lex(src, start + func.text.len()).behind(seq![func]),
{
    assert forall|k: int| 0 <= k < func.text.len() implies ByteClass::Word.holds(
        #[trigger] func.text[k] as u8,
    ) && (func.text[k] as u8) as char == func.text[k] by {
        assert(is_word_char(func.text[k]));
    }
    lemma_scan_word(src, pos, start, func.text);
    lemma_lex_step(src, pos);
}

/// The step for a prefix operator.
pub(super) proof fn lemma_lex_prefix_operator(
    src: Seq<u8>,
    pos: int,
    start: int,
    op: PrefixOperator,
) -> (next: int)
    requires
        spaces(src, pos, start),
        placed(src, start, op.symbol()),
    ensures
        lex(src, pos) == lex(src, next).behind(seq![TokenView::plain(op.kind())]),
        spaces(src, next, start + op.symbol().len()),
{
    let next = lemma_scan_prefix_operator(src, pos, start, op);
    lemma_lex_step(src, pos);
    next
}

/// The step for an infix operator.
pub(super) proof fn lemma_lex_infix_operator(src: Seq<u8>, pos: int, op: InfixOperator) -> (next:
    int)
    requires
        0 <= pos,
        placed(src, pos, op.symbol()),
        follows_operator(byte_at(src, pos + op.symbol().len())),
    ensures
        lex(src, pos) == lex(src, next).behind(seq![TokenView::plain(op.kind())]),
        spaces(src, next, pos + op.symbol().len()),
{
    let next = lemma_scan_infix_operator(src, pos, pos, op);
    lemma_lex_step(src, pos);
    next
}

/// Where the parts of the bracketed text of a prefix operator with its operand
/// stand.
proof fn lemma_prefix_parts(src: Seq<u8>, start: int, e: ExprView)
    requires
        e is Prefix,
        canonical(e),
        placed(src, start, render_expr(e, true)),
    ensures
        ({
            let mark = e->Prefix_operator.symbol();
            let inner = render_expr(*e->subject, true);
            &&& render_expr(e, true).len() == 2 + mark.len() + inner.len()
            &&& src[start] == '(' as u8
            &&& placed(src, start + 1, mark)
            &&& placed(src, start + 1 + mark.len(), inner)
            &&& inner.len() >= 1
            &&& starts_operand(byte_at(src, start + 1 + mark.len()))
            &&& src[start + 1 + mark.len() + inner.len()] == ')' as u8
        }),
{
    reveal_strlit("(");
    reveal_strlit(")");
    let mark = e->Prefix_operator.symbol();
    let inner = render_expr(*e->subject, true);
    lemma_placed_parts(src, start, "("@ + mark + inner, ")"@);
    lemma_placed_parts(src, start, "("@ + mark, inner);
    lemma_placed_parts(src, start, "("@, mark);
    assert(src[start + 0] == '(' as u8);
    assert(src[start + 1 + mark.len() + inner.len() + 0] == ')' as u8);
    lemma_text_starts_an_operand(*e->subject);
    assert(src[start + 1 + mark.len() + 0] == inner[0] as u8);
}

/// Where the parts of the bracketed text of an infix operator with its
/// operands stand.
proof fn lemma_infix_parts(src: Seq<u8>, start: int, e: ExprView)
    requires
        e is Infix,
        canonical(e),
        placed(src, start, render_expr(e, true)),
    ensures
        ({
            let mark = e->Infix_operator.symbol();
            let l = render_expr(*e->left, true);
            let r = render_expr(*e->right, true);
            &&& render_expr(e, true).len() == 2 + l.len() + mark.len() + r.len()
            &&& src[start] == '(' as u8
            &&& placed(src, start + 1, l)
            &&& l.len() >= 1
            &&& placed(src, start + 1 + l.len(), mark)
            &&& !ByteClass::Word.holds(byte_at(src, start + 1 + l.len()))
            &&& placed(src, start + 1 + l.len() + mark.len(), r)
            &&& r.len() >= 1
            &&& starts_operand(byte_at(src, start + 1 + l.len() + mark.len()))
            &&& src[start + 1 + l.len() + mark.len() + r.len()] == ')' as u8
        }),
{
    reveal_strlit("(");
    reveal_strlit(")");
    let mark = e->Infix_operator.symbol();
    let l = render_expr(*e->left, true);
    let r = render_expr(*e->right, true);
    lemma_placed_parts(src, start, "("@ + l + mark + r, ")"@);
    lemma_placed_parts(src, start, "("@ + l + mark, r);
    lemma_placed_parts(src, start, "("@ + l, mark);
    lemma_placed_parts(src, start, "("@, l);
    assert(src[start + 0] == '(' as u8);
    assert(src[start + 1 + l.len() + mark.len() + r.len() + 0] == ')' as u8);
    lemma_text_starts_an_operand(*e->left);
    lemma_text_starts_an_operand(*e->right);
    assert(src[start + 1 + l.len() + mark.len() + 0] == r[0] as u8);
    lemma_mark_ends_a_token(e->Infix_operator);
    assert(src[start + 1 + l.len() + 0] == mark[0] as u8);
}

/// Where the parts of the bracketed text of a call stand.
pub(super) proof fn lemma_call_parts(src: Seq<u8>, start: int, e: ExprView)
    requires
        e is FunctionCall,
        canonical(e),
        placed(src, start, render_expr(e, true)),
    ensures
        ({
            let callee = e->func.text;
            let inner = render_args(e->args, true);
            &&& render_expr(e, true).len() == 2 + callee.len() + inner.len()
            &&& placed(src, start, callee)
            &&& src[start + callee.len()] == '(' as u8
            &&& placed(src, start + callee.len() + 1, inner)
            &&& src[start + callee.len() + 1 + inner.len()] == ')' as u8
            &&& e->args.len() == 0 ==> inner.len() == 0
        }),
{
    reveal_strlit("(");
    reveal_strlit(")");
    let callee = e->func.text;
    let inner = render_args(e->args, true);
    lemma_placed_parts(src, start, callee + "("@ + inner, ")"@);
    lemma_placed_parts(src, start, callee + "("@, inner);
    lemma_placed_parts(src, start, callee, "("@);
    assert(src[start + callee.len() + 0] == '(' as u8);
    assert(src[start + callee.len() + 1 + inner.len() + 0] == ')' as u8);
}

/// Where the parts of the bracketed text of two or more arguments stand.
pub(super) proof fn lemma_argument_parts(src: Seq<u8>, start: int, args: Seq<ExprView>)
    requires
        args.len() >= 2,
        placed(src, start, render_args(args, true)),
    ensures
        ({
            let first = render_expr(args[0], true);
            let others = render_args(args.drop_first(), true);
            &&& render_args(args, true).len() == first.len() + 2 + others.len()
            &&& placed(src, start, first)
            &&& src[start + first.len()] == ',' as u8
            &&& src[start + first.len() + 1] == ' ' as u8
            &&& placed(src, start + first.len() + 2, others)
        }),
{
    reveal_strlit(", ");
    let first = render_expr(args[0], true);
    let others = render_args(args.drop_first(), true);
    lemma_render_args_from_the_front(args, true);
    lemma_placed_parts(src, start, first + ", "@, others);
    lemma_placed_parts(src, start, first, ", "@);
    assert(src[start + first.len() + 0] == ',' as u8);
    assert(src[start + first.len() + 1] == ' ' as u8);
}

/// Four runs of tokens before a stream, put there one after the other.
pub(super) proof fn lemma_behind_four(
    ts: TokenStream,
    a: Seq<TokenView>,
    b: Seq<TokenView>,
    c: Seq<TokenView>,
    d: Seq<TokenView>,
)
    ensures
        ts.behind(d).behind(c).behind(b).behind(a) == ts.behind(a + b + c + d),
{
    assert(a + (b + (c + (d + ts.tokens))) =~= (a + b + c + d) + ts.tokens);
}

/// The lexer reads the bracketed text of a canonical expression as the tokens
/// of its bracketed form: where the text stands behind the spaces at `pos`, the
/// tokens from `pos` on are these tokens, and then the tokens from the end of
/// the text on. Behind an expression of one token there must be something that
/// ends the token.
pub(super) proof fn lemma_lex_rendered(src: Seq<u8>, pos: int, start: int, e: ExprView)
    requires
        canonical(e),
        spaces(src, pos, start),
        placed(src, start, render_expr(e, true)),
        is_plain(e) ==> !ByteClass::Word.holds(byte_at(src, start + render_expr(e, true).len())),
    ensures
        render_expr(e, true).len() >= 1,
        lex(src, pos) == lex(src, start + render_expr(e, true).len()).behind(bracketed(e)),
    decreases e, 1nat,
{
    let lp = seq![TokenView::plain(TokenType::LParenthasis)];
    let rp = seq![TokenView::plain(TokenType::RParenthasis)];
    match e {
        ExprView::Prefix { token, operator, subject } => {
            let p1 = start + 1;
            let p2 = p1 + operator.symbol().len();
            let p3 = p2 + render_expr(*subject, true).len();
            lemma_prefix_parts(src, start, e);
            lemma_lex_mark(src, start, TokenType::LParenthasis);
            lemma_spaces_do_not_count(src, pos, start);
            let next = lemma_lex_prefix_operator(src, p1, p1, operator);
            lemma_lex_rendered(src, next, p2, *subject);
            lemma_lex_mark(src, p3, TokenType::RParenthasis);
            lemma_behind_four(lex(src, p3 + 1), lp, seq![token], bracketed(*subject), rp);
            assert(lp + seq![token] + bracketed(*subject) + rp =~= bracketed(e));
        },
        ExprView::Infix { token, operator, left, right } => {
            let p1 = start + 1;
            let p2 = p1 + render_expr(*left, true).len();
            let p3 = p2 + operator.symbol().len();
            let p4 = p3 + render_expr(*right, true).len();
            lemma_infix_parts(src, start, e);
            lemma_lex_mark(src, start, TokenType::LParenthasis);
            lemma_spaces_do_not_count(src, pos, start);
            lemma_lex_rendered(src, p1, p1, *left);
            let next = lemma_lex_infix_operator(src, p2, operator);
            lemma_lex_rendered(src, next, p3, *right);
            lemma_lex_mark(src, p4, TokenType::RParenthasis);
            let end = lex(src, p4 + 1);
            lemma_behind_four(end, bracketed(*left), seq![token], bracketed(*right), rp);
            lemma_behind_parts(
                end,
                lp,
                bracketed(*left) + seq![token] + bracketed(*right) + rp,
            );
            assert(lp + (bracketed(*left) + seq![token] + bracketed(*right) + rp) =~= bracketed(e));
        },
        ExprView::FunctionCall { token, func, args } => {
            let p1 = start + func.text.len();
            let p2 = p1 + 1;
            let p3 = p2 + render_args(args, true).len();
            lemma_call_parts(src, start, e);
            lemma_lex_callee(src, pos, start, func);
            lemma_lex_mark(src, p1, TokenType::LParenthasis);
            if args.len() > 0 {
                lemma_lex_rendered_arguments(src, p2, p2, args);
            } else {
                assert(lex(src, p2).behind(bracketed_arguments(args)) == lex(src, p2));
            }
            lemma_lex_mark(src, p3, TokenType::RParenthasis);
            lemma_behind_four(lex(src, p3 + 1), seq![func], lp, bracketed_arguments(args), rp);
            assert(seq![func] + lp + bracketed_arguments(args) + rp =~= bracketed(e));
        },
        ExprView::Placeholder => {},
        _ => {
            lemma_lex_plain(src, pos, start, e);
        },
    }
}

/// The spaces before a token do not count: the tokens from the first of them
/// on are the tokens from the token on.
proof fn lemma_spaces_do_not_count(src: Seq<u8>, pos: int, start: int)
    requires
        spaces(src, pos, start),
        start < src.len(),
        src[start] == '(' as u8,
    ensures
        lex(src, pos) == lex(src, start),
{
    lemma_scan_punctuation(src, pos, start);
    lemma_scan_punctuation(src, start, start);
    lemma_lex_step(src, pos);
    lemma_lex_step(src, start);
}

/// The spelling of an infix operator starts with a character that ends a name
/// and a number.
pub(super) proof fn lemma_mark_ends_a_token(op: InfixOperator)
    ensures
        op.symbol().len() >= 1,
        !ByteClass::Word.holds(op.symbol()[0] as u8),
{
    reveal_strlit("+");
    reveal_strlit("-");
    reveal_strlit("*");
    reveal_strlit("/");
    reveal_strlit("==");
    reveal_strlit("!=");
    reveal_strlit("<");
    reveal_strlit("<=");
    reveal_strlit(">");
    reveal_strlit(">=");
    reveal_strlit(" DIV ");
    reveal_strlit(" MOD ");
    reveal_strlit(" OR ");
    reveal_strlit(" AND ");
}

/// The lexer reads the bracketed text of the arguments of a call as the tokens
/// of their bracketed forms, with a comma between one and the next.
proof fn lemma_lex_rendered_arguments(src: Seq<u8>, pos: int, start: int, args: Seq<ExprView>)
    requires
        args.len() >= 1,
        all_canonical(args),
        spaces(src, pos, start),
        placed(src, start, render_args(args, true)),
        byte_at(src, start + render_args(args, true).len()) == ')' as u8,
    ensures
        lex(src, pos) == lex(src, start + render_args(args, true).len()).behind(
            bracketed_arguments(args),
        ),
    decreases args, 0nat,
{
    if args.len() == 1 {
        lemma_lex_rendered(src, pos, start, args[0]);
    } else {
        let rest = args.drop_first();
        let p1 = start + render_expr(args[0], true).len();
        lemma_argument_parts(src, start, args);
        lemma_lex_rendered(src, pos, start, args[0]);
        lemma_lex_mark(src, p1, TokenType::Comma);
        assert(spaces(src, p1 + 1, p1 + 2));
        lemma_lex_rendered_arguments(src, p1 + 1, p1 + 2, rest);
        let end = lex(src, p1 + 2 + render_args(rest, true).len());
        let comma = seq![TokenView::plain(TokenType::Comma)];
        lemma_behind_parts(end, comma, bracketed_arguments(rest));
        lemma_behind_parts(end, bracketed(args[0]), comma + bracketed_arguments(rest));
        assert(bracketed(args[0]) + (comma + bracketed_arguments(rest)) =~= bracketed_arguments(
            args,
        ));
    }
}

/// The bracketed text of a canonical expression is plain ASCII.
pub(super) proof fn lemma_rendered_is_ascii(e: ExprView, brackets: bool)
    requires
        canonical(e),
    ensures
        is_ascii_chars(render_expr(e, brackets)),
    decreases e, 1nat,
{
    reveal_strlit("(");
    reveal_strlit(")");
    reveal_strlit("true");
    reveal_strlit("false");
    match e {
        ExprView::Identifier { token } => {
            lemma_name_is_ascii(token);
        },
        ExprView::IntegerLiteral { token, value } => {
            lemma_digits_are_digits(value as nat);
        },
        ExprView::Prefix { token, operator, subject } => {
            lemma_rendered_is_ascii(*subject, brackets);
            lemma_marks_are_ascii(InfixOperator::Plus, operator);
        },
        ExprView::Infix { token, operator, left, right } => {
            lemma_rendered_is_ascii(*left, brackets);
            lemma_rendered_is_ascii(*right, brackets);
            lemma_marks_are_ascii(operator, PrefixOperator::Plus);
        },
        ExprView::FunctionCall { token, func, args } => {
            lemma_name_is_ascii(func);
            lemma_rendered_arguments_are_ascii(args, brackets);
        },
        _ => {},
    }
}

proof fn lemma_rendered_arguments_are_ascii(args: Seq<ExprView>, brackets: bool)
    requires
        all_canonical(args),
    ensures
        is_ascii_chars(render_args(args, brackets)),
    decreases args, 0nat,
{
    reveal_strlit(", ");
    if args.len() == 1 {
        lemma_rendered_is_ascii(args[0], brackets);
    } else if args.len() >= 2 {
        lemma_render_args_from_the_front(args, brackets);
        lemma_rendered_is_ascii(args[0], brackets);
        lemma_rendered_arguments_are_ascii(args.drop_first(), brackets);
    }
}

/// A name as the lexer reads one is plain ASCII.
pub(super) proof fn lemma_name_is_ascii(token: TokenView)
    requires
        is_name(token),
    ensures
        is_ascii_chars(token.text),
{
    assert forall|k: int| 0 <= k < token.text.len() implies '\0' <= #[trigger] token.text[k]
        <= '\u{7f}' by {
        assert(is_word_char(token.text[k]));
    }
}

/// The spellings of the operators are plain ASCII.
proof fn lemma_marks_are_ascii(infix: InfixOperator, prefix: PrefixOperator)
    ensures
        is_ascii_chars(infix.symbol()),
        is_ascii_chars(prefix.symbol()),
{
    reveal_strlit("+");
    reveal_strlit("-");
    reveal_strlit("*");
    reveal_strlit("/");
    reveal_strlit("==");
    reveal_strlit("!=");
    reveal_strlit("<");
    reveal_strlit("<=");
    reveal_strlit(">");
    reveal_strlit(">=");
    reveal_strlit(" DIV ");
    reveal_strlit(" MOD ");
    reveal_strlit(" OR ");
    reveal_strlit(" AND ");
    reveal_strlit("NOT ");
}

/// The lexer reads the bracketed text of a canonical expression as the tokens
/// of its bracketed form, and `Eof` behind them.
pub proof fn lemma_bracketed_text_is_its_tokens(src: Seq<u8>, e: ExprView)
    requires
        canonical(e),
        src.len() == render_expr(e, true).len(),
        placed(src, 0, render_expr(e, true)),
    ensures
        lex(src, 0) == (TokenStream {
            tokens: bracketed(e) + seq![TokenView::plain(TokenType::Eof)],
            failure: None,
        }),
{
    lemma_lex_rendered(src, 0, 0, e);
    lemma_lex_at_end(src);
}

/// The program of one statement that is the expression `e`.
pub open spec fn expression_alone(e: ExprView) -> Seq<StmtView> {
    seq![StmtView::Expression { value: e }]
}

/// A stream that holds the bracketed form of a canonical expression and
/// nothing else is the program of this one expression.
proof fn lemma_bracketed_tokens_are_a_program(ts: TokenStream, e: ExprView)
    requires
        canonical(e),
        ts == (TokenStream {
            tokens: bracketed(e) + seq![TokenView::plain(TokenType::Eof)],
            failure: None,
        }),
    ensures
        program(ts) == Ok::<Seq<StmtView>, ParserError>(expression_alone(e)),
{
    let tokens = bracketed(e);
    let n = tokens.len() as int;
    lemma_canonical_is_parseable(e);
    assert forall|k: int| 0 <= k < n implies #[trigger] ts.at(0int + k) == Ok::<
        TokenView,
        LexerError,
    >(tokens[k]) by {
        assert(ts.tokens[k] == tokens[k]);
    }
    assert(ts.tokens[n] == TokenView::plain(TokenType::Eof));
    assert(ts.at(0int + n) is Ok);
    lemma_bracketed_form_parses_back(ts, 0, e, Precedence::Lowest);
    lemma_first_tokens(e);
    assert(ts.at(0) == Ok::<TokenView, LexerError>(tokens[0]));
    if n >= 2 {
        assert(ts.at(0int + 1) == Ok::<TokenView, LexerError>(tokens[1]));
    }
    assert(statement(ts, 0) == Ok::<Parsed<Option<StmtView>>, ParserError>(
        Parsed { value: Some(StmtView::Expression { value: e }), used: (n - 1) as nat },
    )) by {
        reveal(statement);
    }
    reveal_with_fuel(progress, 2);
    assert(seq![StmtView::Expression { value: e }] + Seq::<StmtView>::empty() =~= expression_alone(
        e,
    ));
}

/// The bracketed form of a canonical expression starts like an operand, and
/// where it starts with a name, a parenthesis or nothing follows the name.
pub(super) proof fn lemma_first_tokens(e: ExprView)
    requires
        canonical(e),
    ensures
        bracketed(e).len() >= 1,
        ({
            let first = bracketed(e)[0].kind;
            first == TokenType::Identifier || first == TokenType::True || first == TokenType::False
                || first == TokenType::NumberLiteral || first == TokenType::LParenthasis
        }),
        bracketed(e).len() >= 2 && bracketed(e)[0].kind == TokenType::Identifier ==> bracketed(
            e,
        )[1].kind == TokenType::LParenthasis,
{
}

/// What is printed with brackets is parsed back as it was. The bracketed text
/// of a canonical expression is read as one statement, and this statement is
/// the expression itself: the brackets alone say how it is built, so the
/// precedences of the operators decide nothing of it.
pub proof fn lemma_bracketed_text_parses_back(text: &str, e: ExprView)
    requires
        canonical(e),
        text@ == render_expr(e, true),
    ensures
        program(lex(text.spec_bytes(), 0)) == Ok::<Seq<StmtView>, ParserError>(
            expression_alone(e),
        ),
{
    let src = text.spec_bytes();
    lemma_rendered_is_ascii(e, true);
    is_ascii_chars_encode_utf8(text@);
    lemma_bracketed_text_is_its_tokens(src, e);
    lemma_bracketed_tokens_are_a_program(lex(src, 0), e);
}

} // verus!
