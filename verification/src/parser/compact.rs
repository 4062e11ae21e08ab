use super::bracketed::{
    all_parseable, bare_name, holds_at, later, lemma_argument_in_place,
    lemma_arguments_in_brackets, lemma_arguments_in_place, lemma_call_in_brackets,
    lemma_holds_at_parts, lemma_operand_then_climb, lemma_plain_in_place, parseable,
};
use super::grammar::{application, arguments, climb, expression, operand, Parsed};
use super::rules::{ParserError, Precedence};
use super::stream::TokenStream;
use crate::lexer::{LexerError, TokenType, TokenView};
use crate::syntax::{ExprView, InfixOperator, PrefixOperator};
use vstd::prelude::*;

verus! {

/// The tokens of the compact form of an expression: no parenthesis but those
/// of a call.
pub open spec fn compact(e: ExprView) -> Seq<TokenView>
    decreases e,
{
    match e {
        ExprView::Identifier { token } => seq![token],
        ExprView::Boolean { token, .. } => seq![token],
        ExprView::IntegerLiteral { token, .. } => seq![token],
        ExprView::Prefix { token, subject, .. } => seq![token] + compact(*subject),
        ExprView::Infix { token, left, right, .. } => compact(*left) + seq![token] + compact(
            *right,
        ),
        ExprView::FunctionCall { func, args, .. } => seq![
            func,
            TokenView::plain(TokenType::LParenthasis),
        ] + compact_arguments(args) + seq![TokenView::plain(TokenType::RParenthasis)],
        ExprView::Placeholder => Seq::empty(),
    }
}

/// The tokens of the arguments of a call, each in its compact form, with a
/// comma between one and the next.
pub open spec fn compact_arguments(args: Seq<ExprView>) -> Seq<TokenView>
    decreases args,
{
    if args.len() == 0 {
        Seq::empty()
    } else if args.len() == 1 {
        compact(args[0])
    } else {
        compact(args[0]) + seq![TokenView::plain(TokenType::Comma)] + compact_arguments(
            args.drop_first(),
        )
    }
}

/// Whether a token of this kind ends an expression that is parsed at the
/// precedence `prec`: the end of the line or of the input, or a token that does
/// not bind tighter than `prec`.
pub open spec fn halts(kind: TokenType, prec: Precedence) -> bool {
    kind == TokenType::Newline || kind == TokenType::Eof || !Precedence::of_kind(
        kind,
    ).binds_tighter(prec)
}

/// Whether an expression is built as the parser builds one from a text without
/// parentheses, when it is asked for an expression at the precedence `prec`
/// and, if `next` is given, an operator of that precedence follows:
///
/// - every operator binds tighter than the precedence that its expression was
///   asked for: `prec` for the expression itself and for its left operands,
///   the operator's own precedence for its right operand;
/// - a left operand is not followed by an operator that binds tighter than its
///   own: so operators of one precedence group from the left;
/// - the operand of a prefix operator is no infix expression.
pub open spec fn settled(e: ExprView, prec: Precedence, next: Option<Precedence>) -> bool
    decreases e,
{
    match e {
        ExprView::Identifier { .. } => true,
        ExprView::Boolean { .. } => true,
        ExprView::IntegerLiteral { .. } => true,
        ExprView::Prefix { subject, .. } => !(*subject is Infix) && settled(
            *subject,
            Precedence::Prefix,
            None,
        ),
        ExprView::Infix { token, left, right, .. } => {
            let own = Precedence::of_kind(token.kind);
            &&& own.binds_tighter(prec)
            &&& match next {
                Some(n) => !n.binds_tighter(own),
                None => true,
            }
            &&& settled(*left, prec, Some(own))
            &&& settled(*right, own, None)
        },
        ExprView::FunctionCall { args, .. } => all_settled(args),
        ExprView::Placeholder => false,
    }
}

/// Whether all of `args` are built as the parser builds the arguments of a
/// call.
pub open spec fn all_settled(args: Seq<ExprView>) -> bool
    decreases args,
{
    args.len() == 0 || (settled(args[0], Precedence::Lowest, None) && all_settled(
        args.drop_first(),
    ))
}

/// Whether a token of this kind ends the operands at the right edge of `e`.
pub open spec fn ends_operands(e: ExprView, kind: TokenType) -> bool {
    match e {
        ExprView::Infix { token, .. } => halts(kind, Precedence::of_kind(token.kind)),
        ExprView::Prefix { .. } => halts(kind, Precedence::Prefix),
        _ => true,
    }
}

/// What is printed without parentheses is parsed back as it was. Where the
/// tokens of the compact form of an expression stand that is built as the
/// parser builds one, and behind them a token that ends the expression, the
/// parser yields exactly that expression, and it ends at the last of these
/// tokens.
pub proof fn lemma_compact_form_parses_back(
    ts: TokenStream,
    i: int,
    e: ExprView,
    prec: Precedence,
)
    requires
        parseable(e),
        settled(e, prec, None),
        holds_at(ts, i, compact(e)),
        ts.at(i + compact(e).len()) is Ok,
        Precedence::Call.binds_tighter(prec),
        halts(ts.kind(i + compact(e).len()), prec),
    ensures
        compact(e).len() >= 1,
        expression(ts, i, prec) == Ok::<Parsed<ExprView>, ParserError>(
            Parsed { value: e, used: (compact(e).len() - 1) as nat },
        ),
{
    lemma_compact_expression(ts, i, e, prec, None);
    lemma_climb_halts(ts, i + compact(e).len() - 1, e, bare_name(e), prec);
}

/// Nothing is taken behind an operand where a token follows that ends the
/// expression.
proof fn lemma_climb_halts(
    ts: TokenStream,
    i: int,
    left: ExprView,
    callee: Option<TokenView>,
    prec: Precedence,
)
    requires
        halts(ts.kind(i + 1), prec),
    ensures
        climb(ts, i, left, callee, prec) == Ok::<Parsed<ExprView>, ParserError>(
            Parsed { value: left, used: 0 },
        ),
{
    reveal(climb);
}

/// The compact form of an expression that the parser can yield starts with a
/// token that starts an operand.
pub proof fn lemma_compact_starts(e: ExprView)
    requires
        parseable(e),
    ensures
        compact(e).len() >= 1,
        ({
            let first = compact(e)[0].kind;
            first == TokenType::Identifier || first == TokenType::True || first == TokenType::False
                || first == TokenType::NumberLiteral || PrefixOperator::of_kind(first) is Some
        }),
    decreases e,
{
    match e {
        ExprView::Infix { token, operator, left, right } => {
            lemma_compact_starts(*left);
        },
        _ => {},
    }
}

/// The step for a prefix operator.
proof fn lemma_prefix_in_place(ts: TokenStream, i: int, e: ExprView, used: nat)
    requires
        e is Prefix,
        parseable(e),
        ts.at(i) == Ok::<TokenView, LexerError>(e->Prefix_token),
        ts.at(i + 2) is Ok,
        expression(ts, i + 1, Precedence::Prefix) == Ok::<Parsed<ExprView>, ParserError>(
            Parsed { value: *e->subject, used },
        ),
    ensures
        operand(ts, i) == Ok::<Parsed<ExprView>, ParserError>(
            Parsed { value: e, used: 1 + used },
        ),
{
    reveal(operand);
    reveal(expression);
}

/// The step for an infix operator behind its left operand.
proof fn lemma_infix_in_place(
    ts: TokenStream,
    i: int,
    e: ExprView,
    callee: Option<TokenView>,
    prec: Precedence,
    used: nat,
)
    requires
        e is Infix,
        parseable(e),
        ts.at(i + 1) == Ok::<TokenView, LexerError>(e->Infix_token),
        Precedence::of_kind(e->Infix_token.kind).binds_tighter(prec),
        ts.at(i + 2) is Ok,
        ts.at(i + 3) is Ok,
        expression(ts, i + 2, Precedence::of_kind(e->Infix_token.kind)) == Ok::<
            Parsed<ExprView>,
            ParserError,
        >(Parsed { value: *e->right, used }),
    ensures
        climb(ts, i, *e->left, callee, prec) == later(
            climb(ts, i + 2 + used, e, None, prec),
            2 + used as int,
        ),
{
    reveal(climb);
    reveal(application);
    reveal(expression);
    let kind = ts.kind(i + 1);
    assert(kind != TokenType::Newline && kind != TokenType::Eof);
    assert(kind != TokenType::LParenthasis);
    assert(application(ts, i + 1, *e->left, callee) == Ok::<Parsed<ExprView>, ParserError>(
        Parsed { value: e, used: 1 + used },
    ));
    assert(climb(ts, i, *e->left, callee, prec) == match application(
        ts,
        i + 1,
        *e->left,
        callee,
    ) {
        Err(e) => Err::<Parsed<ExprView>, ParserError>(e),
        Ok(applied) => match climb(ts, i + 1 + applied.used, applied.value, None, prec) {
            Err(e) => Err(e),
            Ok(all) => Ok(Parsed { value: all.value, used: 1 + applied.used + all.used }),
        },
    });
}

/// No infix operator binds as tight as a prefix operator.
proof fn lemma_infix_binds_looser_than_prefix(kind: TokenType)
    requires
        InfixOperator::of_kind(kind) is Some,
    ensures
        Precedence::Prefix.binds_tighter(Precedence::of_kind(kind)),
        Precedence::of_kind(kind).binds_tighter(Precedence::Lowest),
{
}

/// Where the compact form of an expression stands that is built as the parser
/// builds one, and behind it a token that ends its last operands, the parser
/// reads the expression and goes on behind it as behind any operand.
proof fn lemma_compact_expression(
    ts: TokenStream,
    i: int,
    e: ExprView,
    prec: Precedence,
    next: Option<Precedence>,
)
    requires
        parseable(e),
        settled(e, prec, next),
        holds_at(ts, i, compact(e)),
        ts.at(i + compact(e).len()) is Ok,
        Precedence::Call.binds_tighter(prec),
        ends_operands(e, ts.kind(i + compact(e).len())),
    ensures
        compact(e).len() >= 1,
        expression(ts, i, prec) == later(
            climb(ts, i + compact(e).len() - 1, e, bare_name(e), prec),
            compact(e).len() - 1,
        ),
    decreases e, 1nat,
{
    reveal_with_fuel(parseable, 2);
    reveal_with_fuel(settled, 2);
    match e {
        ExprView::Prefix { token, operator, subject } => {
            let inner = compact(*subject);
            let n = inner.len() as int;
            lemma_holds_at_parts(ts, i, seq![token], inner);
            assert(ts.at(i + 0) == Ok::<TokenView, LexerError>(seq![token][0]));
            lemma_compact_starts(*subject);
            assert(ts.at(i + 1 + 0) == Ok::<TokenView, LexerError>(inner[0]));
            assert(ts.at(i + 2) is Ok) by {
                if n >= 2 {
                    assert(ts.at(i + 1 + 1) == Ok::<TokenView, LexerError>(inner[1]));
                }
            }
            lemma_compact_expression(ts, i + 1, *subject, Precedence::Prefix, None);
            lemma_climb_halts(ts, i + n, *subject, bare_name(*subject), Precedence::Prefix);
            lemma_prefix_in_place(ts, i, e, (n - 1) as nat);
            lemma_operand_then_climb(ts, i, prec);
        },
        ExprView::Infix { token, operator, left, right } => {
            let l = compact(*left);
            let r = compact(*right);
            let own = Precedence::of_kind(token.kind);
            let nl = l.len() as int;
            let nr = r.len() as int;
            lemma_holds_at_parts(ts, i, l + seq![token], r);
            lemma_holds_at_parts(ts, i, l, seq![token]);
            assert(ts.at(i + nl + 0) == Ok::<TokenView, LexerError>(seq![token][0]));
            lemma_compact_starts(*left);
            lemma_compact_starts(*right);
            assert(ts.at(i + nl + 1 + 0) == Ok::<TokenView, LexerError>(r[0]));
            assert(ts.at(i + nl + 2) is Ok) by {
                if nr >= 2 {
                    assert(ts.at(i + nl + 1 + 1) == Ok::<TokenView, LexerError>(r[1]));
                }
            }
            lemma_infix_binds_looser_than_prefix(token.kind);
            if *left is Infix {
                lemma_infix_binds_looser_than_prefix(left->Infix_token.kind);
            }
            if *right is Infix {
                lemma_infix_binds_looser_than_prefix(right->Infix_token.kind);
            }
            lemma_compact_expression(ts, i, *left, prec, Some(own));
            lemma_compact_expression(ts, i + nl + 1, *right, own, None);
            lemma_climb_halts(ts, i + nl + nr, *right, bare_name(*right), own);
            lemma_infix_in_place(ts, i + nl - 1, e, bare_name(*left), prec, (nr - 1) as nat);
        },
        ExprView::FunctionCall { token, func, args } => {
            let head = seq![func, TokenView::plain(TokenType::LParenthasis)];
            let inner = compact_arguments(args);
            let tail = seq![TokenView::plain(TokenType::RParenthasis)];
            lemma_holds_at_parts(ts, i, head + inner, tail);
            lemma_holds_at_parts(ts, i, head, inner);
            assert(ts.at(i + 0) == Ok::<TokenView, LexerError>(head[0]));
            assert(ts.at(i + 1) == Ok::<TokenView, LexerError>(head[1]));
            assert(ts.at(i + 2 + inner.len() + 0) == Ok::<TokenView, LexerError>(tail[0]));
            if args.len() > 0 {
                lemma_compact_arguments(ts, i + 2, args);
            }
            lemma_arguments_in_brackets(ts, i + 1, args, inner.len() as int);
            lemma_call_in_brackets(ts, i, e, prec);
        },
        ExprView::Placeholder => {},
        _ => {
            assert(ts.at(i + 0) == Ok::<TokenView, LexerError>(compact(e)[0]));
            lemma_plain_in_place(ts, i, e, prec);
        },
    }
}

/// Where the compact forms of the arguments of a call stand, with commas
/// between them and the closing parenthesis behind them, the parser reads
/// exactly these arguments and ends at the parenthesis.
proof fn lemma_compact_arguments(ts: TokenStream, i: int, args: Seq<ExprView>)
    requires
        args.len() > 0,
        all_parseable(args),
        all_settled(args),
        holds_at(ts, i, compact_arguments(args)),
        ts.kind(i + compact_arguments(args).len()) == TokenType::RParenthasis,
        ts.at(i + compact_arguments(args).len()) is Ok,
        ts.at(i + compact_arguments(args).len() + 1) is Ok,
    ensures
        compact_arguments(args).len() >= 1,
        ts.kind(i) != TokenType::Newline,
        ts.kind(i) != TokenType::RParenthasis,
        arguments(ts, i) == Ok::<Parsed<Seq<ExprView>>, ParserError>(
            Parsed { value: args, used: compact_arguments(args).len() },
        ),
    decreases args, 0nat,
{
    let first = compact(args[0]);
    let n = first.len() as int;
    lemma_compact_starts(args[0]);
    if args.len() == 1 {
        assert(ts.at(i + 0) == Ok::<TokenView, LexerError>(first[0]));
        lemma_compact_expression(ts, i, args[0], Precedence::Lowest, None);
        lemma_argument_in_place(ts, i, args[0], n);
        lemma_arguments_in_place(ts, i, args[0], n, Seq::empty(), 0);
        assert(seq![args[0]] + Seq::<ExprView>::empty() =~= args);
    } else {
        let comma = seq![TokenView::plain(TokenType::Comma)];
        let rest = args.drop_first();
        let others = compact_arguments(rest);
        lemma_holds_at_parts(ts, i, first + comma, others);
        lemma_holds_at_parts(ts, i, first, comma);
        assert(ts.at(i + 0) == Ok::<TokenView, LexerError>(first[0]));
        assert(ts.at(i + n + 0) == Ok::<TokenView, LexerError>(comma[0]));
        lemma_compact_expression(ts, i, args[0], Precedence::Lowest, None);
        lemma_compact_arguments(ts, i + n + 1, rest);
        assert(ts.at(i + n + 1) is Ok);
        assert(ts.at(i + n + 2) is Ok) by {
            if others.len() >= 2 {
                assert(ts.at(i + n + 1 + 1) == Ok::<TokenView, LexerError>(others[1]));
            }
        }
        lemma_argument_in_place(ts, i, args[0], n);
        lemma_arguments_in_place(ts, i, args[0], n, rest, others.len() as int);
        assert(seq![args[0]] + rest =~= args);
    }
}

} // verus!
