use super::bracketed::bracketed;
use super::compact::{compact, compact_arguments};
use super::bracketed_text::{
    all_canonical, canonical, follows_operator, is_plain, lemma_behind_four,
    lemma_digits_are_digits, lemma_lex_callee, lemma_lex_infix_operator, lemma_lex_mark,
    lemma_lex_plain, lemma_lex_prefix_operator, lemma_mark_ends_a_token,
    lemma_render_args_from_the_front,
};
use super::stream::{lemma_lex_chain, lex};
use crate::lexer::{
    byte_at, is_digit, is_letter, is_word_char, lemma_placed_parts, placed, spaces, ByteClass,
    TokenType, TokenView,
};
use crate::syntax::{render_args, render_expr, ExprView};
use vstd::prelude::*;

verus! {

/// Whether a byte can start an expression in the compact form: a letter, a
/// digit, or the sign of a prefix operator.
pub open spec fn starts_expression(b: u8) -> bool {
    is_letter(b) || is_digit(b) || b == '+' as u8 || b == '-' as u8
}

/// The compact text of a canonical expression starts with a letter, a digit or
/// the sign of a prefix operator.
pub proof fn lemma_compact_text_starts(e: ExprView)
    requires
        canonical(e),
    ensures
        render_expr(e, false).len() >= 1,
        starts_expression(render_expr(e, false)[0] as u8),
        follows_operator(render_expr(e, false)[0] as u8),
    decreases e,
{
    reveal_strlit("true");
    reveal_strlit("false");
    reveal_strlit("+");
    reveal_strlit("-");
    reveal_strlit("NOT ");
    match e {
        ExprView::IntegerLiteral { token, value } => {
            lemma_digits_are_digits(value as nat);
        },
        ExprView::Identifier { token } => {
            assert(is_word_char(token.text[0]));
        },
        ExprView::FunctionCall { token, func, args } => {
            assert(is_word_char(func.text[0]));
        },
        ExprView::Infix { token, operator, left, right } => {
            lemma_compact_text_starts(*left);
            assert(render_expr(e, false)[0] == render_expr(*left, false)[0]);
        },
        _ => {},
    }
}

/// Where the parts of the compact text of a prefix operator with its operand
/// stand.
proof fn lemma_prefix_text(src: Seq<u8>, start: int, e: ExprView)
    requires
        e is Prefix,
        canonical(e),
        placed(src, start, render_expr(e, false)),
    ensures
        ({
            let mark = e->Prefix_operator.symbol();
            let inner = render_expr(*e->subject, false);
            &&& render_expr(e, false).len() == mark.len() + inner.len()
            &&& placed(src, start, mark)
            &&& placed(src, start + mark.len(), inner)
        }),
{
    let mark = e->Prefix_operator.symbol();
    let inner = render_expr(*e->subject, false);
    assert(render_expr(e, false) =~= mark + inner);
    lemma_placed_parts(src, start, mark, inner);
}

/// Where the parts of the compact text of an infix operator with its operands
/// stand.
proof fn lemma_infix_text(src: Seq<u8>, start: int, e: ExprView)
    requires
        e is Infix,
        canonical(e),
        placed(src, start, render_expr(e, false)),
    ensures
        ({
            let mark = e->Infix_operator.symbol();
            let l = render_expr(*e->left, false);
            let r = render_expr(*e->right, false);
            &&& render_expr(e, false).len() == l.len() + mark.len() + r.len()
            &&& placed(src, start, l)
            &&& l.len() >= 1
            &&& placed(src, start + l.len(), mark)
            &&& !ByteClass::Word.holds(byte_at(src, start + l.len()))
            &&& placed(src, start + l.len() + mark.len(), r)
            &&& r.len() >= 1
            &&& follows_operator(byte_at(src, start + l.len() + mark.len()))
        }),
{
    let mark = e->Infix_operator.symbol();
    let l = render_expr(*e->left, false);
    let r = render_expr(*e->right, false);
    assert(render_expr(e, false) =~= l + mark + r);
    lemma_placed_parts(src, start, l + mark, r);
    lemma_placed_parts(src, start, l, mark);
    lemma_compact_text_starts(*e->left);
    lemma_compact_text_starts(*e->right);
    assert(src[start + l.len() + mark.len() + 0] == r[0] as u8);
    lemma_mark_ends_a_token(e->Infix_operator);
    assert(src[start + l.len() + 0] == mark[0] as u8);
}

/// Where the parts of the compact text of a call stand.
proof fn lemma_call_text(src: Seq<u8>, start: int, e: ExprView)
    requires
        e is FunctionCall,
        canonical(e),
        placed(src, start, render_expr(e, false)),
    ensures
        ({
            let callee = e->func.text;
            let inner = render_args(e->args, false);
            &&& render_expr(e, false).len() == 2 + callee.len() + inner.len()
            &&& placed(src, start, callee)
            &&& src[start + callee.len()] == '(' as u8
            &&& placed(src, start + callee.len() + 1, inner)
            &&& src[start + callee.len() + 1 + inner.len()] == ')' as u8
            &&& e->args.len() == 0 ==> inner.len() == 0
        }),
{
    reveal_strlit("(");
    reveal_strlit(")");
    let callee = e->func.text;
    let inner = render_args(e->args, false);
    lemma_placed_parts(src, start, callee + "("@ + inner, ")"@);
    lemma_placed_parts(src, start, callee + "("@, inner);
    lemma_placed_parts(src, start, callee, "("@);
    assert(src[start + callee.len() + 0] == '(' as u8);
    assert(src[start + callee.len() + 1 + inner.len() + 0] == ')' as u8);
}

/// Where the parts of the compact text of two or more arguments stand.
proof fn lemma_arguments_text(src: Seq<u8>, start: int, args: Seq<ExprView>)
    requires
        args.len() >= 2,
        placed(src, start, render_args(args, false)),
    ensures
        ({
            let first = render_expr(args[0], false);
            let others = render_args(args.drop_first(), false);
            &&& render_args(args, false).len() == first.len() + 2 + others.len()
            &&& placed(src, start, first)
            &&& src[start + first.len()] == ',' as u8
            &&& src[start + first.len() + 1] == ' ' as u8
            &&& placed(src, start + first.len() + 2, others)
        }),
{
    reveal_strlit(", ");
    let first = render_expr(args[0], false);
    let others = render_args(args.drop_first(), false);
    lemma_render_args_from_the_front(args, false);
    lemma_placed_parts(src, start, first + ", "@, others);
    lemma_placed_parts(src, start, first, ", "@);
    assert(src[start + first.len() + 0] == ',' as u8);
    assert(src[start + first.len() + 1] == ' ' as u8);
}

/// The lexer reads the compact text of a canonical expression as the tokens of
/// its compact form: where the text stands behind the spaces at `pos`, and
/// behind it something that ends a word, the tokens from `pos` on are these
/// tokens, and then the tokens from the end of the text on.
pub proof fn lemma_lex_compact(src: Seq<u8>, pos: int, start: int, e: ExprView)
    requires
        canonical(e),
        spaces(src, pos, start),
        placed(src, start, render_expr(e, false)),
        !ByteClass::Word.holds(byte_at(src, start + render_expr(e, false).len())),
    ensures
        render_expr(e, false).len() >= 1,
        lex(src, pos) == lex(src, start + render_expr(e, false).len()).behind(compact(e)),
    decreases e, 1nat,
{
    match e {
        ExprView::Prefix { token, operator, subject } => {
            let p1 = start + operator.symbol().len();
            let p2 = p1 + render_expr(*subject, false).len();
            lemma_prefix_text(src, start, e);
            let next = lemma_lex_prefix_operator(src, pos, start, operator);
            lemma_lex_compact(src, next, p1, *subject);
            lemma_lex_chain(src, pos, next, p2, seq![token], compact(*subject));
        },
        ExprView::Infix { token, operator, left, right } => {
            let p1 = start + render_expr(*left, false).len();
            let p2 = p1 + operator.symbol().len();
            let p3 = p2 + render_expr(*right, false).len();
            lemma_infix_text(src, start, e);
            lemma_lex_compact(src, pos, start, *left);
            let next = lemma_lex_infix_operator(src, p1, operator);
            lemma_lex_compact(src, next, p2, *right);
            lemma_lex_chain(src, p1, next, p3, seq![token], compact(*right));
            lemma_lex_chain(src, pos, p1, p3, compact(*left), seq![token] + compact(*right));
            assert(compact(*left) + (seq![token] + compact(*right)) =~= compact(e));
        },
        ExprView::FunctionCall { token, func, args } => {
            let p1 = start + func.text.len();
            let p2 = p1 + 1;
            let p3 = p2 + render_args(args, false).len();
            let lp = seq![TokenView::plain(TokenType::LParenthasis)];
            let rp = seq![TokenView::plain(TokenType::RParenthasis)];
            lemma_call_text(src, start, e);
            lemma_lex_callee(src, pos, start, func);
            lemma_lex_mark(src, p1, TokenType::LParenthasis);
            if args.len() > 0 {
                lemma_lex_compact_arguments(src, p2, p2, args);
            } else {
                assert(lex(src, p2).behind(compact_arguments(args)) == lex(src, p2));
            }
            lemma_lex_mark(src, p3, TokenType::RParenthasis);
            lemma_behind_four(lex(src, p3 + 1), seq![func], lp, compact_arguments(args), rp);
            assert(seq![func] + lp + compact_arguments(args) + rp =~= compact(e));
        },
        ExprView::Placeholder => {},
        _ => {
            assert(is_plain(e));
            assert(render_expr(e, false) == render_expr(e, true));
            lemma_lex_plain(src, pos, start, e);
            assert(bracketed(e) == compact(e));
        },
    }
}

/// The lexer reads the compact text of the arguments of a call as the tokens
/// of their compact forms, with a comma between one and the next.
proof fn lemma_lex_compact_arguments(src: Seq<u8>, pos: int, start: int, args: Seq<ExprView>)
    requires
        args.len() >= 1,
        all_canonical(args),
        spaces(src, pos, start),
        placed(src, start, render_args(args, false)),
        byte_at(src, start + render_args(args, false).len()) == ')' as u8,
    ensures
        lex(src, pos) == lex(src, start + render_args(args, false).len()).behind(
            compact_arguments(args),
        ),
    decreases args, 0nat,
{
    if args.len() == 1 {
        lemma_lex_compact(src, pos, start, args[0]);
    } else {
        let rest = args.drop_first();
        let p1 = start + render_expr(args[0], false).len();
        lemma_arguments_text(src, start, args);
        lemma_lex_compact(src, pos, start, args[0]);
        lemma_lex_mark(src, p1, TokenType::Comma);
        assert(spaces(src, p1 + 1, p1 + 2));
        lemma_lex_compact_arguments(src, p1 + 1, p1 + 2, rest);
        let end = p1 + 2 + render_args(rest, false).len();
        let comma = seq![TokenView::plain(TokenType::Comma)];
        lemma_lex_chain(src, p1, p1 + 1, end, comma, compact_arguments(rest));
        lemma_lex_chain(src, pos, p1, end, compact(args[0]), comma + compact_arguments(rest));
        assert(compact(args[0]) + (comma + compact_arguments(rest)) =~= compact_arguments(args));
    }
}

} // verus!
