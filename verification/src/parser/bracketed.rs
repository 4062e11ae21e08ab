use super::grammar::{
    application, argument, arguments, call_arguments, climb, expression, newlines, operand,
    Parsed,
};
use super::rules::{ParserError, Precedence};
use super::stream::TokenStream;
use crate::lexer::{LexerError, TokenType, TokenView};
use crate::syntax::{number_value, ExprView, InfixOperator, PrefixOperator};
use vstd::prelude::*;

verus! {

/// Whether an expression is one that the parser can yield: each node holds the
/// token that stands for it.
pub open spec fn parseable(e: ExprView) -> bool
    decreases e,
{
    match e {
        ExprView::Identifier { token } => token.kind == TokenType::Identifier,
        ExprView::Boolean { token, value } => (token.kind == TokenType::True || token.kind
            == TokenType::False) && value == (token.kind == TokenType::True),
        ExprView::IntegerLiteral { token, value } => token.kind == TokenType::NumberLiteral
            && number_value(token.text) is Ok && number_value(token.text)->Ok_0 == value,
        ExprView::Prefix { token, operator, subject } => PrefixOperator::of_kind(token.kind)
            == Some(operator) && parseable(*subject),
        ExprView::Infix { token, operator, left, right } => InfixOperator::of_kind(token.kind)
            == Some(operator) && parseable(*left) && parseable(*right),
        ExprView::FunctionCall { token, func, args } => token == func && func.kind
            == TokenType::Identifier && all_parseable(args),
        ExprView::Placeholder => false,
    }
}

/// Whether all of `args` are expressions that the parser can yield.
pub open spec fn all_parseable(args: Seq<ExprView>) -> bool
    decreases args,
{
    args.len() == 0 || (parseable(args[0]) && all_parseable(args.drop_first()))
}

/// The tokens of the fully bracketed form of an expression: every application
/// of an operator stands between a pair of parentheses of its own.
pub open spec fn bracketed(e: ExprView) -> Seq<TokenView>
    decreases e,
{
    match e {
        ExprView::Identifier { token } => seq![token],
        ExprView::Boolean { token, .. } => seq![token],
        ExprView::IntegerLiteral { token, .. } => seq![token],
        ExprView::Prefix { token, subject, .. } => seq![
            TokenView::plain(TokenType::LParenthasis),
            token,
        ] + bracketed(*subject) + seq![TokenView::plain(TokenType::RParenthasis)],
        ExprView::Infix { token, left, right, .. } => seq![
            TokenView::plain(TokenType::LParenthasis),
        ] + bracketed(*left) + seq![token] + bracketed(*right) + seq![
            TokenView::plain(TokenType::RParenthasis),
        ],
        ExprView::FunctionCall { func, args, .. } => seq![
            func,
            TokenView::plain(TokenType::LParenthasis),
        ] + bracketed_arguments(args) + seq![TokenView::plain(TokenType::RParenthasis)],
        ExprView::Placeholder => Seq::empty(),
    }
}

/// The tokens of the arguments of a call, each in its fully bracketed form,
/// with a comma between one and the next.
pub open spec fn bracketed_arguments(args: Seq<ExprView>) -> Seq<TokenView>
    decreases args,
{
    if args.len() == 0 {
        Seq::empty()
    } else if args.len() == 1 {
        bracketed(args[0])
    } else {
        bracketed(args[0]) + seq![TokenView::plain(TokenType::Comma)] + bracketed_arguments(
            args.drop_first(),
        )
    }
}

/// Whether the lexer yields the tokens `toks`, one after the other, from its
/// call number `i` on.
pub open spec fn holds_at(ts: TokenStream, i: int, toks: Seq<TokenView>) -> bool {
    forall|k: int| 0 <= k < toks.len() ==> #[trigger] ts.at(i + k) == Ok::<TokenView, LexerError>(
        toks[k],
    )
}

/// The name that a call right behind `e` would call: `e` itself, if it is a
/// bare name.
pub open spec fn bare_name(e: ExprView) -> Option<TokenView> {
    match e {
        ExprView::Identifier { token } => Some(token),
        _ => None,
    }
}

/// A result with `n` more tokens passed.
pub open spec fn later(r: Result<Parsed<ExprView>, ParserError>, n: int) -> Result<
    Parsed<ExprView>,
    ParserError,
> {
    match r {
        Ok(p) => Ok(Parsed { value: p.value, used: (p.used + n) as nat }),
        Err(e) => Err(e),
    }
}

/// The fully bracketed form says how an expression is built, whatever the
/// precedences of its operators: where the tokens of the bracketed form of an
/// expression stand, and behind them the line or the input ends or a token that
/// does not bind tighter than the precedence asked for, the parser yields
/// exactly that expression, and it ends at the last of these tokens.
pub proof fn lemma_bracketed_form_parses_back(
    ts: TokenStream,
    i: int,
    e: ExprView,
    prec: Precedence,
)
    requires
        parseable(e),
        holds_at(ts, i, bracketed(e)),
        ts.at(i + bracketed(e).len()) is Ok,
        Precedence::Call.binds_tighter(prec),
        ({
            let follow = ts.kind(i + bracketed(e).len());
            follow == TokenType::Newline || follow == TokenType::Eof || !Precedence::of_kind(
                follow,
            ).binds_tighter(prec)
        }),
    ensures
        expression(ts, i, prec) == Ok::<Parsed<ExprView>, ParserError>(
            Parsed { value: e, used: (bracketed(e).len() - 1) as nat },
        ),
{
    lemma_bracketed_expression(ts, i, e, prec);
    lemma_starts_an_operand(e);
    reveal(climb);
}

/// The bracketed form of an expression starts with a token that starts an
/// operand, so it is not empty and does not start with a line break.
pub(super) proof fn lemma_starts_an_operand(e: ExprView)
    requires
        parseable(e),
    ensures
        bracketed(e).len() >= 1,
        ({
            let first = bracketed(e)[0].kind;
            first == TokenType::Identifier || first == TokenType::True || first == TokenType::False
                || first == TokenType::NumberLiteral || first == TokenType::LParenthasis
        }),
{
}

/// Tokens that stand in a row stand there part by part.
pub(super) proof fn lemma_holds_at_parts(ts: TokenStream, i: int, a: Seq<TokenView>, b: Seq<TokenView>)
    requires
        holds_at(ts, i, a + b),
    ensures
        holds_at(ts, i, a),
        holds_at(ts, i + a.len(), b),
{
    assert forall|k: int| 0 <= k < a.len() implies #[trigger] ts.at(i + k) == Ok::<
        TokenView,
        LexerError,
    >(a[k]) by {
        assert((a + b)[k] == a[k]);
    }
    assert forall|k: int| 0 <= k < b.len() implies #[trigger] ts.at(i + a.len() + k) == Ok::<
        TokenView,
        LexerError,
    >(b[k]) by {
        assert((a + b)[a.len() + k] == b[k]);
        assert(ts.at(i + (a.len() + k)) == Ok::<TokenView, LexerError>((a + b)[a.len() + k]));
    }
}

/// Where the bracketed form of an expression stands, the parser reads the
/// expression as an operand, and goes on behind it as behind any operand.
proof fn lemma_bracketed_expression(ts: TokenStream, i: int, e: ExprView, prec: Precedence)
    requires
        parseable(e),
        holds_at(ts, i, bracketed(e)),
        ts.at(i + bracketed(e).len()) is Ok,
        Precedence::Call.binds_tighter(prec),
    ensures
        bracketed(e).len() >= 1,
        expression(ts, i, prec) == later(
            climb(ts, i + bracketed(e).len() - 1, e, bare_name(e), prec),
            bracketed(e).len() - 1,
        ),
    decreases e, 1nat,
{
    let toks = bracketed(e);
    match e {
        ExprView::Identifier { token } => {
            assert(ts.at(i + 0) == Ok::<TokenView, LexerError>(toks[0]));
            lemma_plain_in_place(ts, i, e, prec);
        },
        ExprView::Boolean { token, value } => {
            assert(ts.at(i + 0) == Ok::<TokenView, LexerError>(toks[0]));
            lemma_plain_in_place(ts, i, e, prec);
        },
        ExprView::IntegerLiteral { token, value } => {
            assert(ts.at(i + 0) == Ok::<TokenView, LexerError>(toks[0]));
            lemma_plain_in_place(ts, i, e, prec);
        },
        ExprView::Prefix { token, operator, subject } => {
            let head = seq![TokenView::plain(TokenType::LParenthasis), token];
            let inner = bracketed(*subject);
            let tail = seq![TokenView::plain(TokenType::RParenthasis)];
            lemma_holds_at_parts(ts, i, head + inner, tail);
            lemma_holds_at_parts(ts, i, head, inner);
            assert(ts.at(i + 0) == Ok::<TokenView, LexerError>(head[0]));
            assert(ts.at(i + 1) == Ok::<TokenView, LexerError>(head[1]));
            assert(ts.at(i + 2 + inner.len() + 0) == Ok::<TokenView, LexerError>(tail[0]));
            lemma_starts_an_operand(*subject);
            assert(ts.at(i + 2 + 0) == Ok::<TokenView, LexerError>(inner[0]));
            lemma_bracketed_expression(ts, i + 2, *subject, Precedence::Prefix);
            lemma_prefix_in_brackets(ts, i, e);
            lemma_operand_then_climb(ts, i, prec);
        },
        ExprView::Infix { token, operator, left, right } => {
            let open = seq![TokenView::plain(TokenType::LParenthasis)];
            let l = bracketed(*left);
            let op = seq![token];
            let r = bracketed(*right);
            let close = seq![TokenView::plain(TokenType::RParenthasis)];
            lemma_holds_at_parts(ts, i, open + l + op + r, close);
            lemma_holds_at_parts(ts, i, open + l + op, r);
            lemma_holds_at_parts(ts, i, open + l, op);
            lemma_holds_at_parts(ts, i, open, l);
            assert(ts.at(i + 0) == Ok::<TokenView, LexerError>(open[0]));
            assert(ts.at(i + 1 + l.len() + 0) == Ok::<TokenView, LexerError>(op[0]));
            assert(ts.at(i + 2 + l.len() + r.len() + 0) == Ok::<TokenView, LexerError>(close[0]));
            lemma_starts_an_operand(*left);
            lemma_starts_an_operand(*right);
            assert(ts.at(i + 1 + 0) == Ok::<TokenView, LexerError>(l[0]));
            assert(ts.at(i + 2 + l.len() + 0) == Ok::<TokenView, LexerError>(r[0]));
            lemma_bracketed_expression(ts, i + 1, *left, Precedence::Lowest);
            lemma_bracketed_expression(
                ts,
                i + 2 + l.len(),
                *right,
                Precedence::of_kind(token.kind),
            );
            lemma_infix_in_brackets(ts, i, e);
            lemma_operand_then_climb(ts, i, prec);
        },
        ExprView::FunctionCall { token, func, args } => {
            let head = seq![func, TokenView::plain(TokenType::LParenthasis)];
            let inner = bracketed_arguments(args);
            let tail = seq![TokenView::plain(TokenType::RParenthasis)];
            lemma_holds_at_parts(ts, i, head + inner, tail);
            lemma_holds_at_parts(ts, i, head, inner);
            assert(ts.at(i + 0) == Ok::<TokenView, LexerError>(head[0]));
            assert(ts.at(i + 1) == Ok::<TokenView, LexerError>(head[1]));
            assert(ts.at(i + 2 + inner.len() + 0) == Ok::<TokenView, LexerError>(tail[0]));
            if args.len() > 0 {
                lemma_bracketed_arguments(ts, i + 2, args);
            }
            lemma_arguments_in_brackets(ts, i + 1, args, inner.len() as int);
            lemma_call_in_brackets(ts, i, e, prec);
        },
        ExprView::Placeholder => {},
    }
}

/// An expression is an operand and what stands behind it.
pub(super) proof fn lemma_operand_then_climb(ts: TokenStream, i: int, prec: Precedence)
    ensures
        expression(ts, i, prec) == match operand(ts, i) {
            Err(e) => Err::<Parsed<ExprView>, ParserError>(e),
            Ok(left) => later(
                climb(
                    ts,
                    i + left.used,
                    left.value,
                    if ts.kind(i) == TokenType::Identifier {
                        Some(ts.token(i))
                    } else {
                        None
                    },
                    prec,
                ),
                left.used as int,
            ),
        },
{
    reveal(expression);
    reveal(operand);
    reveal(climb);
}

/// The step of the proof for a name, `true`, `false` and a number.
pub(super) proof fn lemma_plain_in_place(ts: TokenStream, i: int, e: ExprView, prec: Precedence)
    requires
        e is Identifier || e is Boolean || e is IntegerLiteral,
        parseable(e),
        ts.at(i) == Ok::<TokenView, LexerError>(bracketed(e)[0]),
    ensures
        expression(ts, i, prec) == later(climb(ts, i, e, bare_name(e), prec), 0),
{
    reveal(expression);
    reveal(operand);
    reveal(climb);
}

/// The step of the proof for one argument of a call.
pub(super) proof fn lemma_argument_in_place(ts: TokenStream, i: int, arg: ExprView, n: int)
    requires
        n >= 1,
        expression(ts, i, Precedence::Lowest) == later(
            climb(ts, i + n - 1, arg, bare_name(arg), Precedence::Lowest),
            n - 1,
        ),
        ts.kind(i + n) == TokenType::Comma || ts.kind(i + n) == TokenType::RParenthasis,
        ts.at(i + n + 1) is Ok,
    ensures
        argument(ts, i) == Ok::<Parsed<ExprView>, ParserError>(
            Parsed { value: arg, used: n as nat },
        ),
{
    reveal(argument);
    reveal(expression);
    reveal(climb);
    assert(climb(ts, i + n - 1, arg, bare_name(arg), Precedence::Lowest) == Ok::<
        Parsed<ExprView>,
        ParserError,
    >(Parsed { value: arg, used: 0 }));
    assert(newlines(ts, i + n) == Ok::<nat, ParserError>(0));
}

/// The step of the proof for the arguments of a call: the last one, or one
/// with a comma and more arguments behind it.
pub(super) proof fn lemma_arguments_in_place(
    ts: TokenStream,
    i: int,
    arg: ExprView,
    n: int,
    rest: Seq<ExprView>,
    m: int,
)
    requires
        n >= 1,
        m >= 0,
        argument(ts, i) == Ok::<Parsed<ExprView>, ParserError>(
            Parsed { value: arg, used: n as nat },
        ),
        rest.len() == 0 ==> ts.kind(i + n) != TokenType::Comma,
        rest.len() > 0 ==> ts.kind(i + n) == TokenType::Comma && ts.at(i + n + 2) is Ok && ts.kind(
            i + n + 1,
        ) != TokenType::Newline && arguments(ts, i + n + 1) == Ok::<
            Parsed<Seq<ExprView>>,
            ParserError,
        >(Parsed { value: rest, used: m as nat }),
    ensures
        arguments(ts, i) == Ok::<Parsed<Seq<ExprView>>, ParserError>(
            Parsed {
                value: seq![arg] + rest,
                used: if rest.len() == 0 {
                    n as nat
                } else {
                    (n + 1 + m) as nat
                },
            },
        ),
{
    reveal(arguments);
    reveal(argument);
    if rest.len() == 0 {
        assert(seq![arg] + rest =~= seq![arg]);
    } else {
        assert(newlines(ts, i + n + 1) == Ok::<nat, ParserError>(0));
    }
}

/// The step of the proof for a prefix operator in parentheses.
proof fn lemma_prefix_in_brackets(ts: TokenStream, i: int, e: ExprView)
    requires
        e is Prefix,
        parseable(e),
        ts.kind(i) == TokenType::LParenthasis,
        ts.at(i + 1) == Ok::<TokenView, LexerError>(e->Prefix_token),
        ts.at(i + 2) is Ok,
        ts.kind(i + 2 + bracketed(*e->subject).len()) == TokenType::RParenthasis,
        ts.at(i + 3 + bracketed(*e->subject).len()) is Ok,
        bracketed(*e->subject).len() >= 1,
        expression(ts, i + 2, Precedence::Prefix) == later(
            climb(
                ts,
                i + 2 + bracketed(*e->subject).len() - 1,
                *e->subject,
                bare_name(*e->subject),
                Precedence::Prefix,
            ),
            bracketed(*e->subject).len() - 1,
        ),
    ensures
        operand(ts, i) == Ok::<Parsed<ExprView>, ParserError>(
            Parsed { value: e, used: (bracketed(*e->subject).len() + 2) as nat },
        ),
{
    reveal(expression);
    reveal(operand);
    reveal(climb);
    let n = bracketed(*e->subject).len() as int;
    assert(ts.at(i + 2 + n) is Ok);
    assert(climb(ts, i + 1 + n, *e->subject, bare_name(*e->subject), Precedence::Prefix) == Ok::<
        Parsed<ExprView>,
        ParserError,
    >(Parsed { value: *e->subject, used: 0 }));
    assert(operand(ts, i + 1) == Ok::<Parsed<ExprView>, ParserError>(
        Parsed { value: e, used: n as nat },
    ));
    assert(climb(ts, i + 1 + n, e, None, Precedence::Lowest) == Ok::<Parsed<ExprView>, ParserError>(
        Parsed { value: e, used: 0 },
    ));
    assert(expression(ts, i + 1, Precedence::Lowest) == Ok::<Parsed<ExprView>, ParserError>(
        Parsed { value: e, used: n as nat },
    ));
}

/// The step of the proof for an infix operator in parentheses.
proof fn lemma_infix_in_brackets(ts: TokenStream, i: int, e: ExprView)
    requires
        e is Infix,
        parseable(e),
        ts.kind(i) == TokenType::LParenthasis,
        ts.at(i + 1) is Ok,
        bracketed(*e->left).len() >= 1,
        bracketed(*e->right).len() >= 1,
        ts.at(i + 1 + bracketed(*e->left).len()) == Ok::<TokenView, LexerError>(e->Infix_token),
        ts.at(i + 2 + bracketed(*e->left).len()) is Ok,
        ts.kind(i + 2 + bracketed(*e->left).len() + bracketed(*e->right).len())
            == TokenType::RParenthasis,
        ts.at(i + 3 + bracketed(*e->left).len() + bracketed(*e->right).len()) is Ok,
        expression(ts, i + 1, Precedence::Lowest) == later(
            climb(
                ts,
                i + bracketed(*e->left).len(),
                *e->left,
                bare_name(*e->left),
                Precedence::Lowest,
            ),
            bracketed(*e->left).len() - 1,
        ),
        expression(
            ts,
            i + 2 + bracketed(*e->left).len(),
            Precedence::of_kind(e->Infix_token.kind),
        ) == later(
            climb(
                ts,
                i + 1 + bracketed(*e->left).len() + bracketed(*e->right).len(),
                *e->right,
                bare_name(*e->right),
                Precedence::of_kind(e->Infix_token.kind),
            ),
            bracketed(*e->right).len() - 1,
        ),
    ensures
        operand(ts, i) == Ok::<Parsed<ExprView>, ParserError>(
            Parsed {
                value: e,
                used: (bracketed(*e->left).len() + bracketed(*e->right).len() + 2) as nat,
            },
        ),
{
    reveal(expression);
    reveal(operand);
    reveal(climb);
    reveal(application);
    let l = bracketed(*e->left).len() as int;
    let r = bracketed(*e->right).len() as int;
    let prec = Precedence::of_kind(e->Infix_token.kind);
    assert(ts.at(i + 2 + l + r) is Ok);
    assert(ts.at(i + 1 + l + r) is Ok);
    assert(climb(ts, i + 1 + l + r, *e->right, bare_name(*e->right), prec) == Ok::<
        Parsed<ExprView>,
        ParserError,
    >(Parsed { value: *e->right, used: 0 }));
    assert(application(ts, i + 1 + l, *e->left, bare_name(*e->left)) == Ok::<
        Parsed<ExprView>,
        ParserError,
    >(Parsed { value: e, used: r as nat }));
    assert(climb(ts, i + 1 + l + r, e, None, Precedence::Lowest) == Ok::<
        Parsed<ExprView>,
        ParserError,
    >(Parsed { value: e, used: 0 }));
    assert(climb(ts, i + l, *e->left, bare_name(*e->left), Precedence::Lowest) == Ok::<
        Parsed<ExprView>,
        ParserError,
    >(Parsed { value: e, used: (1 + r) as nat }));
    assert(expression(ts, i + 1, Precedence::Lowest) == Ok::<Parsed<ExprView>, ParserError>(
        Parsed { value: e, used: (l + r) as nat },
    ));
}

/// The step of the proof for the parentheses of a call.
pub(super) proof fn lemma_arguments_in_brackets(ts: TokenStream, i: int, args: Seq<ExprView>, n: int)
    requires
        n >= 0,
        ts.kind(i) == TokenType::LParenthasis,
        ts.at(i + 1) is Ok,
        ts.at(i + 2) is Ok,
        ts.kind(i + 1 + n) == TokenType::RParenthasis,
        args.len() > 0 ==> n >= 1 && ts.kind(i + 1) != TokenType::Newline && ts.kind(i + 1)
            != TokenType::RParenthasis && arguments(ts, i + 1) == Ok::<
            Parsed<Seq<ExprView>>,
            ParserError,
        >(Parsed { value: args, used: n as nat }),
        args.len() == 0 ==> n == 0,
    ensures
        call_arguments(ts, i) == Ok::<Parsed<Seq<ExprView>>, ParserError>(
            Parsed { value: args, used: (1 + n) as nat },
        ),
{
    reveal(call_arguments);
    reveal(arguments);
    assert(newlines(ts, i + 1) == Ok::<nat, ParserError>(0));
    if args.len() == 0 {
        assert(args =~= Seq::<ExprView>::empty());
    }
}

/// The step of the proof for a call.
pub(super) proof fn lemma_call_in_brackets(ts: TokenStream, i: int, e: ExprView, prec: Precedence)
    requires
        e is FunctionCall,
        parseable(e),
        ts.at(i) == Ok::<TokenView, LexerError>(e->func),
        ts.kind(i + 1) == TokenType::LParenthasis,
        ts.at(i + 2) is Ok,
        call_arguments(ts, i + 1) is Ok,
        call_arguments(ts, i + 1)->Ok_0.value == e->args,
        Precedence::Call.binds_tighter(prec),
    ensures
        expression(ts, i, prec) == later(
            climb(ts, i + 1 + call_arguments(ts, i + 1)->Ok_0.used, e, None, prec),
            1 + call_arguments(ts, i + 1)->Ok_0.used as int,
        ),
{
    let callee = ExprView::Identifier { token: e->func };
    let used = call_arguments(ts, i + 1)->Ok_0.used;
    lemma_operand_then_climb(ts, i, prec);
    assert(operand(ts, i) == Ok::<Parsed<ExprView>, ParserError>(
        Parsed { value: callee, used: 0 },
    )) by {
        reveal(operand);
    }
    assert(application(ts, i + 1, callee, Some(e->func)) == Ok::<Parsed<ExprView>, ParserError>(
        Parsed { value: e, used },
    )) by {
        reveal(application);
        reveal(call_arguments);
    }
    assert(climb(ts, i, callee, Some(e->func), prec) == later(
        climb(ts, i + 1 + used, e, None, prec),
        1 + used as int,
    )) by {
        reveal(climb);
        reveal(application);
    }
}

/// Where the bracketed forms of the arguments of a call stand, with commas
/// between them and the closing parenthesis behind them, the parser reads
/// exactly these arguments and ends at the parenthesis.
proof fn lemma_bracketed_arguments(ts: TokenStream, i: int, args: Seq<ExprView>)
    requires
        args.len() > 0,
        all_parseable(args),
        holds_at(ts, i, bracketed_arguments(args)),
        ts.kind(i + bracketed_arguments(args).len()) == TokenType::RParenthasis,
        ts.at(i + bracketed_arguments(args).len()) is Ok,
        ts.at(i + bracketed_arguments(args).len() + 1) is Ok,
    ensures
        bracketed_arguments(args).len() >= 1,
        ts.kind(i) != TokenType::Newline,
        ts.kind(i) != TokenType::RParenthasis,
        arguments(ts, i) == Ok::<Parsed<Seq<ExprView>>, ParserError>(
            Parsed { value: args, used: bracketed_arguments(args).len() },
        ),
    decreases args, 0nat,
{
    let first = bracketed(args[0]);
    let n = first.len() as int;
    lemma_starts_an_operand(args[0]);
    if args.len() == 1 {
        assert(ts.at(i + 0) == Ok::<TokenView, LexerError>(first[0]));
        lemma_bracketed_expression(ts, i, args[0], Precedence::Lowest);
        lemma_argument_in_place(ts, i, args[0], n);
        lemma_arguments_in_place(ts, i, args[0], n, Seq::empty(), 0);
        assert(seq![args[0]] + Seq::<ExprView>::empty() =~= args);
    } else {
        let comma = seq![TokenView::plain(TokenType::Comma)];
        let rest = args.drop_first();
        let others = bracketed_arguments(rest);
        lemma_holds_at_parts(ts, i, first + comma, others);
        lemma_holds_at_parts(ts, i, first, comma);
        assert(ts.at(i + 0) == Ok::<TokenView, LexerError>(first[0]));
        assert(ts.at(i + n + 0) == Ok::<TokenView, LexerError>(comma[0]));
        lemma_bracketed_expression(ts, i, args[0], Precedence::Lowest);
        lemma_bracketed_arguments(ts, i + n + 1, rest);
        assert(ts.at(i + n + 1) is Ok);
        assert(ts.at(i + n + 2) is Ok) by {
            if others.len() >= 2 {
                assert(ts.at(i + n + 1 + 1) == Ok::<TokenView, LexerError>(others[1]));
            }
        }
        lemma_argument_in_place(ts, i, args[0], n);
        lemma_arguments_in_place(ts, i, args[0], n, rest, others.len() as int);
        assert(seq![args[0]] + rest =~= args);
    }
}

} // verus!
