use super::grammar::{
    application, block, block_statements, call_arguments, callee_at, climb, else_branch,
    expression,
    function_statement,
    if_statement, newlines, operand, program, progress, statement, Parsed,
};
use super::rules::{ParserError, Precedence};
use super::stream::TokenStream;
use crate::lexer::{
    ends_block, is_digit, lemma_number_is_digits, scan, LexerError, TokenType, TokenView,
};
use crate::syntax::{
    digit_value, is_digits, number_value, ExprView, InfixOperator, StmtView,
};
use vstd::prelude::*;

verus! {

/// A declaration is closed by the keyword that belongs to its opening one:
/// where the rule yields a declaration, it is a procedure exactly if it opened
/// with `procedure`, and it ends at `endprocedure` if it is one and at
/// `endfunction` otherwise. So `function` closed by `endprocedure`, or
/// `procedure` closed by `endfunction`, is never accepted.
pub proof fn lemma_closing_keyword_matches(ts: TokenStream, i: int)
    requires
        function_statement(ts, i) is Ok,
    ensures
        ({
            let parsed = function_statement(ts, i)->Ok_0;
            let opened_procedure = ts.kind(i) == TokenType::Procedure;
            &&& ts.kind(i) == TokenType::Function || ts.kind(i) == TokenType::Procedure
            &&& parsed.value matches StmtView::Function { is_procedure, .. }
            &&& is_procedure == opened_procedure
            &&& ts.kind(i + parsed.used) == if opened_procedure {
                TokenType::Endprocedure
            } else {
                TokenType::Endfunction
            }
        }),
{
    reveal(function_statement);
}

/// An `if` statement ends at its `endif`, with or without a second branch.
pub proof fn lemma_if_ends_at_endif(ts: TokenStream, i: int)
    requires
        if_statement(ts, i) is Ok,
    ensures
        ts.kind(i) == TokenType::If,
        ts.kind(i + if_statement(ts, i)->Ok_0.used) == TokenType::Endif,
{
    reveal(if_statement);
    reveal(else_branch);
}

/// The rule for a statement yields none only where the input ends: the
/// current token is then `Eof`.
pub proof fn lemma_no_statement_at_eof(ts: TokenStream, i: int)
    requires
        statement(ts, i) is Ok,
        statement(ts, i)->Ok_0.value is None,
    ensures
        ts.kind(i + statement(ts, i)->Ok_0.used) == TokenType::Eof,
    decreases ts.remaining(i),
{
    reveal(statement);
    if ts.kind(i) == TokenType::Newline {
        lemma_no_statement_at_eof(ts, i + 1);
    }
}

/// A block does not take the token that ends it: behind a block, the current
/// token is one that ends a block, or the end of the input.
pub proof fn lemma_block_stops_at_its_end(ts: TokenStream, i: int)
    requires
        block(ts, i) is Ok,
    ensures
        ({
            let end = ts.kind(i + block(ts, i)->Ok_0.used);
            ends_block(end) || end == TokenType::Eof
        }),
{
    reveal(block);
    reveal(block_statements);
    lemma_statements_stop_at_block_end(ts, i);
}

proof fn lemma_statements_stop_at_block_end(ts: TokenStream, i: int)
    requires
        block_statements(ts, i) is Ok,
    ensures
        ({
            let end = ts.kind(i + block_statements(ts, i)->Ok_0.used);
            ends_block(end) || end == TokenType::Eof
        }),
    decreases ts.remaining(i),
{
    reveal(block_statements);
    reveal(statement);
    if !(ends_block(ts.kind(i)) || ts.kind(i) == TokenType::Eof) {
        let first = statement(ts, i)->Ok_0;
        if first.value is None {
            lemma_no_statement_at_eof(ts, i);
        } else {
            let n = newlines(ts, i + first.used + 1)->Ok_0;
            lemma_statements_stop_at_block_end(ts, i + first.used + 1 + n);
        }
    }
}

/// A number that the lexer reads is never refused as invalid: its text is a run
/// of digits, so its conversion yields a value or finds it too large.
pub proof fn lemma_lexed_number_is_valid(src: Seq<u8>, pos: int)
    requires
        0 <= pos <= src.len(),
        scan(src, pos).token is Ok,
        scan(src, pos).token->Ok_0.kind == TokenType::NumberLiteral,
    ensures
        is_digits(scan(src, pos).token->Ok_0.text),
        number_value(scan(src, pos).token->Ok_0.text) != Err::<i128, LexerError>(
            LexerError::InvalidNumberLiteral,
        ),
{
    lemma_number_is_digits(src, pos);
    let text = scan(src, pos).token->Ok_0.text;
    assert forall|k: int| 0 <= k < text.len() implies (#[trigger] digit_value(text[k])) is Some by {
        assert(is_digit(text[k] as u8) && (text[k] as u8) as char == text[k]);
    }
}

/// An input without statements is the empty program: where the first token is
/// `Eof` and the lexer does not fail at the second, parsing yields no statement
/// and no error.
pub proof fn lemma_no_tokens_no_statements(ts: TokenStream)
    requires
        ts.kind(0) == TokenType::Eof,
        ts.at(0) is Ok,
        ts.at(1) is Ok,
    ensures
        program(ts) == Ok::<Seq<StmtView>, ParserError>(Seq::empty()),
{
}

/// Parsing reports at most one violation, and it is the one at which it
/// stopped: where a program is produced, no violation was met.
pub proof fn lemma_program_or_failure(ts: TokenStream)
    ensures
        program(ts) is Ok <==> ts.at(0) is Ok && ts.at(1) is Ok && progress(ts, 0).failure is None,
        program(ts) is Ok ==> program(ts)->Ok_0 == progress(ts, 0).statements,
{
}

/// Whether a token of this kind is an operand by itself, whatever follows it:
/// a name, `true` or `false`.
pub open spec fn is_plain_operand(kind: TokenType) -> bool {
    kind == TokenType::Identifier || kind == TokenType::True || kind == TokenType::False
}

/// The expression that a token that is an operand by itself stands for.
pub open spec fn plain_operand(token: TokenView) -> ExprView {
    if token.kind == TokenType::Identifier {
        ExprView::Identifier { token }
    } else {
        ExprView::Boolean { token, value: token.kind == TokenType::True }
    }
}

/// The application of the operator `token` to two operands.
pub open spec fn infix(token: TokenView, left: ExprView, right: ExprView) -> ExprView {
    ExprView::Infix {
        token,
        operator: InfixOperator::of_kind(token.kind)->0,
        left: Box::new(left),
        right: Box::new(right),
    }
}

/// Precedence and grouping from the left. In `a op b op' c`, three plain
/// operands with two operators between them and the end of the line behind
/// them, the second operator takes `b` if it binds tighter than the first, and
/// the result is `a op (b op' c)`. Otherwise the first takes it, and the result
/// is `(a op b) op' c`: so it is for two operators of one precedence.
pub proof fn lemma_tighter_operator_takes_operand(ts: TokenStream, i: int)
    requires
        forall|k: int| i <= k <= i + 6 ==> (#[trigger] ts.at(k)) is Ok,
        is_plain_operand(ts.kind(i)),
        InfixOperator::of_kind(ts.kind(i + 1)) is Some,
        is_plain_operand(ts.kind(i + 2)),
        InfixOperator::of_kind(ts.kind(i + 3)) is Some,
        is_plain_operand(ts.kind(i + 4)),
        ts.kind(i + 5) == TokenType::Newline || ts.kind(i + 5) == TokenType::Eof,
    ensures
        ({
            let a = plain_operand(ts.token(i));
            let b = plain_operand(ts.token(i + 2));
            let c = plain_operand(ts.token(i + 4));
            let first = ts.token(i + 1);
            let second = ts.token(i + 3);
            expression(ts, i, Precedence::Lowest) == Ok::<Parsed<ExprView>, ParserError>(
                Parsed {
                    value: if Precedence::of_kind(second.kind).binds_tighter(
                        Precedence::of_kind(first.kind),
                    ) {
                        infix(first, a, infix(second, b, c))
                    } else {
                        infix(second, infix(first, a, b), c)
                    },
                    used: 4,
                },
            )
        }),
{
    let a = plain_operand(ts.token(i));
    let b = plain_operand(ts.token(i + 2));
    let c = plain_operand(ts.token(i + 4));
    let first = ts.token(i + 1);
    let second = ts.token(i + 3);
    let loose = Precedence::of_kind(first.kind);
    let tight = Precedence::of_kind(second.kind);
    assert(ts.at(i + 2) is Ok && ts.at(i + 3) is Ok && ts.at(i + 4) is Ok);
    assert(ts.at(i + 5) is Ok && ts.at(i + 6) is Ok);
    lemma_expression_is_operand_and_climb(ts, i, Precedence::Lowest);
    lemma_expression_is_operand_and_climb(ts, i + 2, loose);
    lemma_expression_is_operand_and_climb(ts, i + 4, tight);
    lemma_plain_operand(ts, i);
    lemma_plain_operand(ts, i + 2);
    lemma_plain_operand(ts, i + 4);
    lemma_climb_stops(ts, i + 4, c, callee_at(ts, i + 4), tight);
    lemma_climb_takes_operator(ts, i, a, callee_at(ts, i), Precedence::Lowest);
    if tight.binds_tighter(loose) {
        let inner = infix(second, b, c);
        lemma_climb_takes_operator(ts, i + 2, b, callee_at(ts, i + 2), loose);
        lemma_climb_stops(ts, i + 4, inner, None, loose);
        lemma_climb_stops(ts, i + 4, infix(first, a, inner), None, Precedence::Lowest);
    } else {
        let inner = infix(first, a, b);
        lemma_climb_stops(ts, i + 2, b, callee_at(ts, i + 2), loose);
        lemma_climb_takes_operator(ts, i + 2, inner, None, Precedence::Lowest);
        lemma_climb_stops(ts, i + 4, infix(second, inner, c), None, Precedence::Lowest);
    }
}

/// Parentheses override precedence. In `a op (b op' c)`, with plain operands
/// and the end of the line behind the closing parenthesis, the result is
/// `a op (b op' c)` whatever the two operators are.
pub proof fn lemma_grouping_overrides_precedence(ts: TokenStream, i: int)
    requires
        forall|k: int| i <= k <= i + 8 ==> (#[trigger] ts.at(k)) is Ok,
        is_plain_operand(ts.kind(i)),
        InfixOperator::of_kind(ts.kind(i + 1)) is Some,
        ts.kind(i + 2) == TokenType::LParenthasis,
        is_plain_operand(ts.kind(i + 3)),
        InfixOperator::of_kind(ts.kind(i + 4)) is Some,
        is_plain_operand(ts.kind(i + 5)),
        ts.kind(i + 6) == TokenType::RParenthasis,
        ts.kind(i + 7) == TokenType::Newline || ts.kind(i + 7) == TokenType::Eof,
    ensures
        ({
            let a = plain_operand(ts.token(i));
            let b = plain_operand(ts.token(i + 3));
            let c = plain_operand(ts.token(i + 5));
            expression(ts, i, Precedence::Lowest) == Ok::<Parsed<ExprView>, ParserError>(
                Parsed {
                    value: infix(ts.token(i + 1), a, infix(ts.token(i + 4), b, c)),
                    used: 6,
                },
            )
        }),
{
    let a = plain_operand(ts.token(i));
    let b = plain_operand(ts.token(i + 3));
    let c = plain_operand(ts.token(i + 5));
    let outer = Precedence::of_kind(ts.kind(i + 1));
    let inner = Precedence::of_kind(ts.kind(i + 4));
    let group = infix(ts.token(i + 4), b, c);
    assert(ts.at(i + 2) is Ok && ts.at(i + 3) is Ok && ts.at(i + 4) is Ok);
    assert(ts.at(i + 5) is Ok && ts.at(i + 6) is Ok && ts.at(i + 7) is Ok);
    assert(ts.at(i + 8) is Ok);
    lemma_plain_operand(ts, i);
    lemma_plain_operand(ts, i + 3);
    lemma_plain_operand(ts, i + 5);
    // the group
    lemma_expression_is_operand_and_climb(ts, i + 5, inner);
    lemma_climb_stops(ts, i + 5, c, callee_at(ts, i + 5), inner);
    lemma_expression_is_operand_and_climb(ts, i + 3, Precedence::Lowest);
    lemma_climb_takes_operator(ts, i + 3, b, callee_at(ts, i + 3), Precedence::Lowest);
    lemma_climb_stops(ts, i + 5, group, None, Precedence::Lowest);
    lemma_grouped_operand(ts, i + 2);
    // the whole
    lemma_expression_is_operand_and_climb(ts, i + 2, outer);
    lemma_climb_stops(ts, i + 6, group, callee_at(ts, i + 2), outer);
    lemma_expression_is_operand_and_climb(ts, i, Precedence::Lowest);
    lemma_climb_takes_operator(ts, i, a, callee_at(ts, i), Precedence::Lowest);
    lemma_climb_stops(ts, i + 6, infix(ts.token(i + 1), a, group), None, Precedence::Lowest);
}

/// An expression in parentheses is an operand: the expression itself, with the
/// two parentheses passed.
proof fn lemma_grouped_operand(ts: TokenStream, i: int)
    requires
        ts.kind(i) == TokenType::LParenthasis,
        ts.at(i + 2) is Ok,
    ensures
        operand(ts, i) == match expression(ts, i + 1, Precedence::Lowest) {
            Err(e) => Err::<Parsed<ExprView>, ParserError>(e),
            Ok(inner) => {
                let last = i + 1 + inner.used;
                if ts.blocked(last) is Some {
                    Err(ts.blocked(last)->0)
                } else if ts.kind(last + 1) != TokenType::RParenthasis {
                    Err(ParserError::unexpected(ts.kind(last + 1)))
                } else {
                    Ok(Parsed { value: inner.value, used: inner.used + 2 })
                }
            },
        },
{
    reveal(operand);
    reveal(expression);
}

/// A name with parentheses right behind it is a call of that name. Where the
/// arguments in the parentheses parse and the line or the input ends behind
/// the closing parenthesis, the expression is the call of the name with
/// exactly these arguments, in their order. This holds at every precedence
/// that an expression is parsed at: a call binds tighter than all of them.
pub proof fn lemma_call_of_bare_name(ts: TokenStream, i: int, prec: Precedence)
    requires
        Precedence::Call.binds_tighter(prec),
        ts.kind(i) == TokenType::Identifier,
        ts.kind(i + 1) == TokenType::LParenthasis,
        ts.at(i + 2) is Ok,
        call_arguments(ts, i + 1) is Ok,
        ({
            let close = i + 1 + call_arguments(ts, i + 1)->Ok_0.used;
            ts.kind(close + 1) == TokenType::Newline || ts.kind(close + 1) == TokenType::Eof
        }),
    ensures
        ({
            let args = call_arguments(ts, i + 1)->Ok_0;
            expression(ts, i, prec) == Ok::<Parsed<ExprView>, ParserError>(
                Parsed {
                    value: ExprView::FunctionCall {
                        token: ts.token(i),
                        func: ts.token(i),
                        args: args.value,
                    },
                    used: 1 + args.used,
                },
            )
        }),
{
    let args = call_arguments(ts, i + 1)->Ok_0;
    let call = ExprView::FunctionCall { token: ts.token(i), func: ts.token(i), args: args.value };
    lemma_expression_is_operand_and_climb(ts, i, prec);
    lemma_plain_operand(ts, i);
    lemma_climb_stops(ts, i + 1 + args.used, call, None, prec);
    assert(climb(ts, i, plain_operand(ts.token(i)), callee_at(ts, i), prec) == Ok::<
        Parsed<ExprView>,
        ParserError,
    >(Parsed { value: call, used: 1 + args.used })) by {
        reveal(climb);
        reveal(application);
        reveal(call_arguments);
        let name = plain_operand(ts.token(i));
        let callee = callee_at(ts, i);
        assert(ts.blocked(i) is None);
        assert(application(ts, i + 1, name, callee) == Ok::<Parsed<ExprView>, ParserError>(
            Parsed { value: call, used: args.used },
        ));
        assert(climb(ts, i, name, callee, prec) == match application(ts, i + 1, name, callee) {
            Err(e) => Err::<Parsed<ExprView>, ParserError>(e),
            Ok(applied) => match climb(ts, i + 1 + applied.used, applied.value, None, prec) {
                Err(e) => Err(e),
                Ok(all) => Ok(Parsed { value: all.value, used: 1 + applied.used + all.used }),
            },
        });
    }
}

/// An expression is an operand and what stands behind it.
proof fn lemma_expression_is_operand_and_climb(ts: TokenStream, i: int, prec: Precedence)
    ensures
        expression(ts, i, prec) == match operand(ts, i) {
            Err(e) => Err::<Parsed<ExprView>, ParserError>(e),
            Ok(left) => match climb(ts, i + left.used, left.value, callee_at(ts, i), prec) {
                Err(e) => Err(e),
                Ok(all) => Ok(Parsed { value: all.value, used: left.used + all.used }),
            },
        },
{
    reveal(expression);
    reveal(operand);
    reveal(climb);
}

/// A name, `true` and `false` are operands of one token.
proof fn lemma_plain_operand(ts: TokenStream, i: int)
    requires
        is_plain_operand(ts.kind(i)),
    ensures
        operand(ts, i) == Ok::<Parsed<ExprView>, ParserError>(
            Parsed { value: plain_operand(ts.token(i)), used: 0 },
        ),
{
    reveal(operand);
}

/// Nothing is taken behind an operand where the line or the input ends, or
/// where the next token does not bind tighter than the precedence asked for.
proof fn lemma_climb_stops(
    ts: TokenStream,
    i: int,
    left: ExprView,
    callee: Option<TokenView>,
    prec: Precedence,
)
    requires
        ts.kind(i + 1) == TokenType::Newline || ts.kind(i + 1) == TokenType::Eof
            || !Precedence::of_kind(ts.kind(i + 1)).binds_tighter(prec),
    ensures
        climb(ts, i, left, callee, prec) == Ok::<Parsed<ExprView>, ParserError>(
            Parsed { value: left, used: 0 },
        ),
{
    reveal(climb);
}

/// An operator that binds tighter than the precedence asked for is taken with
/// the expression behind it, as far as that one binds tighter than the
/// operator, and the result is the operand of what follows.
proof fn lemma_climb_takes_operator(
    ts: TokenStream,
    i: int,
    left: ExprView,
    callee: Option<TokenView>,
    prec: Precedence,
)
    requires
        InfixOperator::of_kind(ts.kind(i + 1)) is Some,
        Precedence::of_kind(ts.kind(i + 1)).binds_tighter(prec),
        ts.at(i + 2) is Ok,
        ts.at(i + 3) is Ok,
    ensures
        climb(ts, i, left, callee, prec) == match expression(
            ts,
            i + 2,
            Precedence::of_kind(ts.kind(i + 1)),
        ) {
            Err(e) => Err::<Parsed<ExprView>, ParserError>(e),
            Ok(right) => match climb(
                ts,
                i + 2 + right.used,
                infix(ts.token(i + 1), left, right.value),
                None,
                prec,
            ) {
                Err(e) => Err(e),
                Ok(all) => Ok(Parsed { value: all.value, used: 2 + right.used + all.used }),
            },
        },
{
    reveal(climb);
    reveal(application);
    reveal(expression);
    let kind = ts.kind(i + 1);
    assert(kind != TokenType::Newline && kind != TokenType::Eof);
    assert(ts.blocked(i) is None);
    assert(ts.blocked(i + 1) is None);
    assert(kind != TokenType::LParenthasis);
    assert(climb(ts, i, left, callee, prec) == match application(ts, i + 1, left, callee) {
        Err(e) => Err::<Parsed<ExprView>, ParserError>(e),
        Ok(applied) => match climb(ts, i + 1 + applied.used, applied.value, None, prec) {
            Err(e) => Err(e),
            Ok(all) => Ok(Parsed { value: all.value, used: 1 + applied.used + all.used }),
        },
    });
    assert(application(ts, i + 1, left, callee) == match expression(
        ts,
        i + 2,
        Precedence::of_kind(kind),
    ) {
        Err(e) => Err::<Parsed<ExprView>, ParserError>(e),
        Ok(right) => Ok(
            Parsed { value: infix(ts.token(i + 1), left, right.value), used: 1 + right.used },
        ),
    });
}

} // verus!
