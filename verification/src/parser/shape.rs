use super::bracketed::{all_parseable, parseable};
use super::grammar::{
    application, argument, arguments, block, block_statements, call_arguments, callee_at, climb,
    else_branch, expression, function_statement, if_condition, if_statement, newlines, operand,
    parameters, program, progress, signature, statement,
};
use super::rules::Precedence;
use super::stream::TokenStream;
use crate::lexer::{ends_block, TokenType, TokenView};
use crate::syntax::{ExprView, PrefixOperator, StmtView};
use vstd::prelude::*;

verus! {

/// Whether a statement holds, in each of its nodes, the token that stands for
/// the node: a name where a name belongs, the keyword that opened the
/// statement, and in every expression the operator that its token stands for.
/// A statement of this shape holds no placeholder, no block that stands by
/// itself and no empty statement.
pub open spec fn well_formed(s: StmtView) -> bool
    decreases s,
{
    match s {
        StmtView::Assign { token, ident, global, value } => ident.kind == TokenType::Identifier
            && token.kind == (if global {
            TokenType::Global
        } else {
            TokenType::Identifier
        }) && parseable(value),
        StmtView::Return { token, value } => token.kind == TokenType::Return && (match value {
            Some(v) => parseable(v),
            None => true,
        }),
        StmtView::Expression { value } => parseable(value),
        StmtView::If { token, condition, consequence, alternative } => token.kind == TokenType::If
            && parseable(condition) && all_well_formed(consequence.statements) && (
        match alternative {
            Some(b) => all_well_formed(b.statements),
            None => true,
        }),
        StmtView::Function { token, ident, params, body, is_procedure } => token.kind == (
        if is_procedure {
            TokenType::Procedure
        } else {
            TokenType::Function
        }) && ident.kind == TokenType::Identifier && all_names(params) && all_well_formed(
            body.statements,
        ),
        StmtView::Block { .. } => false,
        StmtView::Empty => false,
    }
}

/// Whether all of `stmts` are well-formed.
pub open spec fn all_well_formed(stmts: Seq<StmtView>) -> bool
    decreases stmts,
{
    stmts.len() == 0 || (well_formed(stmts[0]) && all_well_formed(stmts.drop_first()))
}

/// Whether all of `tokens` are names.
pub open spec fn all_names(tokens: Seq<TokenView>) -> bool
    decreases tokens.len(),
{
    tokens.len() == 0 || (tokens[0].kind == TokenType::Identifier && all_names(
        tokens.drop_first(),
    ))
}

/// Every tree that the parser yields is well-formed: each node holds the token
/// that introduced it, and the tree holds neither a placeholder nor a block
/// that stands by itself nor an empty statement.
pub proof fn lemma_program_is_well_formed(ts: TokenStream)
    requires
        program(ts) is Ok,
    ensures
        all_well_formed(program(ts)->Ok_0),
{
    lemma_progress_shape(ts, 0);
}

/// Every expression that the parser yields holds in each node the token that
/// introduced it, and no placeholder.
pub proof fn lemma_expression_shape(ts: TokenStream, i: int, prec: Precedence)
    requires
        expression(ts, i, prec) is Ok,
    ensures
        parseable(expression(ts, i, prec)->Ok_0.value),
    decreases ts.remaining(i), 1nat,
{
    reveal(expression);
    reveal(operand);
    reveal(climb);
    lemma_operand_shape(ts, i);
    let left = operand(ts, i)->Ok_0;
    lemma_climb_shape(ts, i + left.used, left.value, callee_at(ts, i), prec);
}

proof fn lemma_operand_shape(ts: TokenStream, i: int)
    requires
        operand(ts, i) is Ok,
    ensures
        parseable(operand(ts, i)->Ok_0.value),
    decreases ts.remaining(i), 0nat,
{
    reveal(operand);
    reveal(expression);
    let kind = ts.kind(i);
    if PrefixOperator::of_kind(kind) is Some {
        lemma_expression_shape(ts, i + 1, Precedence::Prefix);
    } else if kind == TokenType::LParenthasis {
        lemma_expression_shape(ts, i + 1, Precedence::Lowest);
    }
}

proof fn lemma_climb_shape(
    ts: TokenStream,
    i: int,
    left: ExprView,
    callee: Option<TokenView>,
    prec: Precedence,
)
    requires
        parseable(left),
        callee matches Some(name) ==> name.kind == TokenType::Identifier,
        climb(ts, i, left, callee, prec) is Ok,
    ensures
        parseable(climb(ts, i, left, callee, prec)->Ok_0.value),
    decreases ts.remaining(i), 0nat,
{
    reveal(climb);
    reveal(application);
    let next = ts.kind(i + 1);
    if !(next == TokenType::Newline || next == TokenType::Eof || !Precedence::of_kind(
        next,
    ).binds_tighter(prec)) {
        lemma_application_shape(ts, i + 1, left, callee);
        let applied = application(ts, i + 1, left, callee)->Ok_0;
        lemma_climb_shape(ts, i + 1 + applied.used, applied.value, None, prec);
    }
}

proof fn lemma_application_shape(
    ts: TokenStream,
    i: int,
    left: ExprView,
    callee: Option<TokenView>,
)
    requires
        parseable(left),
        callee matches Some(name) ==> name.kind == TokenType::Identifier,
        application(ts, i, left, callee) is Ok,
    ensures
        parseable(application(ts, i, left, callee)->Ok_0.value),
    decreases ts.remaining(i), 1nat,
{
    reveal(application);
    reveal(call_arguments);
    reveal(expression);
    let kind = ts.kind(i);
    if kind == TokenType::LParenthasis {
        lemma_call_arguments_shape(ts, i);
    } else {
        lemma_expression_shape(ts, i + 1, Precedence::of_kind(kind));
    }
}

proof fn lemma_call_arguments_shape(ts: TokenStream, i: int)
    requires
        call_arguments(ts, i) is Ok,
    ensures
        all_parseable(call_arguments(ts, i)->Ok_0.value),
    decreases ts.remaining(i), 0nat,
{
    reveal(call_arguments);
    reveal(arguments);
    let n = newlines(ts, i + 1)->Ok_0;
    if ts.kind(i + 1 + n) != TokenType::RParenthasis {
        lemma_arguments_shape(ts, i + 1 + n);
    }
}

proof fn lemma_arguments_shape(ts: TokenStream, i: int)
    requires
        arguments(ts, i) is Ok,
    ensures
        all_parseable(arguments(ts, i)->Ok_0.value),
    decreases ts.remaining(i), 3nat,
{
    reveal(arguments);
    reveal(argument);
    reveal(expression);
    lemma_expression_shape(ts, i, Precedence::Lowest);
    let arg = argument(ts, i)->Ok_0;
    let comma = i + arg.used;
    if ts.kind(comma) != TokenType::Comma {
        let all = seq![arg.value];
        assert(all[0] == arg.value);
        assert(all.drop_first() =~= Seq::<ExprView>::empty());
        assert(all_parseable(Seq::<ExprView>::empty()));
        assert(all_parseable(all));
    } else {
        let m = newlines(ts, comma + 1)->Ok_0;
        lemma_arguments_shape(ts, comma + 1 + m);
        let rest = arguments(ts, comma + 1 + m)->Ok_0.value;
        let all = seq![arg.value] + rest;
        assert(all[0] == arg.value);
        assert(all.drop_first() =~= rest);
        assert(all_parseable(all));
    }
}

/// The parameters that the parser yields are names.
proof fn lemma_parameters_shape(ts: TokenStream, i: int)
    requires
        parameters(ts, i) is Ok,
    ensures
        all_names(parameters(ts, i)->Ok_0.value),
    decreases ts.remaining(i),
{
    if ts.kind(i + 1) != TokenType::RParenthasis {
        let first = ts.token(i + 1);
        if ts.kind(i + 2) == TokenType::RParenthasis {
            let all = seq![first];
            assert(all[0] == first);
            assert(all.drop_first() =~= Seq::<TokenView>::empty());
            assert(all_names(Seq::<TokenView>::empty()));
            assert(all_names(all));
        } else {
            lemma_parameters_shape(ts, i + 2);
            let rest = parameters(ts, i + 2)->Ok_0.value;
            let all = seq![first] + rest;
            assert(all[0] == first);
            assert(all.drop_first() =~= rest);
            assert(all_names(all));
        }
    } else {
        assert(parameters(ts, i)->Ok_0.value =~= Seq::<TokenView>::empty());
    }
}

/// Every statement that the parser yields is well-formed.
pub proof fn lemma_statement_shape(ts: TokenStream, i: int)
    requires
        statement(ts, i) is Ok,
        statement(ts, i)->Ok_0.value is Some,
    ensures
        well_formed(statement(ts, i)->Ok_0.value->0),
    decreases ts.remaining(i), 2nat,
{
    reveal(statement);
    reveal(if_statement);
    reveal(function_statement);
    let kind = ts.kind(i);
    if kind == TokenType::Newline {
        lemma_statement_shape(ts, i + 1);
    } else if kind == TokenType::Return {
        if !(ts.kind(i + 1) == TokenType::Newline || ts.kind(i + 1) == TokenType::Eof) {
            lemma_expression_shape(ts, i + 1, Precedence::Lowest);
        }
    } else if kind == TokenType::If {
        lemma_if_shape(ts, i);
    } else if kind == TokenType::Function || kind == TokenType::Procedure {
        lemma_function_shape(ts, i);
    } else if kind == TokenType::Global || (kind == TokenType::Identifier && ts.kind(i + 1)
        == TokenType::Equals) {
        let name = if kind == TokenType::Global {
            i + 1
        } else {
            i
        };
        lemma_expression_shape(ts, name + 2, Precedence::Lowest);
    } else {
        lemma_expression_shape(ts, i, Precedence::Lowest);
    }
}

proof fn lemma_if_shape(ts: TokenStream, i: int)
    requires
        if_statement(ts, i) is Ok,
    ensures
        well_formed(if_statement(ts, i)->Ok_0.value),
    decreases ts.remaining(i), 1nat,
{
    reveal(if_statement);
    reveal(if_condition);
    reveal(block);
    reveal(else_branch);
    let condition = if_condition(ts, i + 1)->Ok_0;
    lemma_expression_shape(ts, i + 1, Precedence::Lowest);
    lemma_block_shape(ts, i + 1 + condition.used);
    let consequence = block(ts, i + 1 + condition.used)->Ok_0;
    let end = i + 1 + condition.used + consequence.used;
    if ts.kind(end) != TokenType::Endif {
        let n = newlines(ts, end + 1)->Ok_0;
        lemma_block_shape(ts, end + 1 + n);
    }
}

proof fn lemma_function_shape(ts: TokenStream, i: int)
    requires
        function_statement(ts, i) is Ok,
    ensures
        well_formed(function_statement(ts, i)->Ok_0.value),
    decreases ts.remaining(i), 0nat,
{
    reveal(function_statement);
    reveal(signature);
    reveal(block);
    let head = signature(ts, i + 1)->Ok_0;
    lemma_parameters_shape(ts, i + 2);
    lemma_block_shape(ts, i + 1 + head.used);
}

proof fn lemma_block_shape(ts: TokenStream, i: int)
    requires
        block(ts, i) is Ok,
    ensures
        all_well_formed(block(ts, i)->Ok_0.value.statements),
    decreases ts.remaining(i), 4nat,
{
    reveal(block);
    reveal(block_statements);
    lemma_block_statements_shape(ts, i);
}

proof fn lemma_block_statements_shape(ts: TokenStream, i: int)
    requires
        block_statements(ts, i) is Ok,
    ensures
        all_well_formed(block_statements(ts, i)->Ok_0.value),
    decreases ts.remaining(i), 3nat,
{
    reveal(block_statements);
    reveal(statement);
    if !(ends_block(ts.kind(i)) || ts.kind(i) == TokenType::Eof) {
        let first = statement(ts, i)->Ok_0;
        if first.value is Some {
            lemma_statement_shape(ts, i);
            let n = newlines(ts, i + first.used + 1)->Ok_0;
            lemma_block_statements_shape(ts, i + first.used + 1 + n);
            let rest = block_statements(ts, i + first.used + 1 + n)->Ok_0.value;
            let all = seq![first.value->0] + rest;
            assert(all[0] == first.value->0);
            assert(all.drop_first() =~= rest);
            assert(all_well_formed(all));
        }
    }
}

proof fn lemma_progress_shape(ts: TokenStream, i: int)
    ensures
        all_well_formed(progress(ts, i).statements),
    decreases ts.remaining(i),
{
    if ts.kind(i) != TokenType::Eof {
        match statement(ts, i) {
            Ok(first) => {
                if first.value is Some {
                    lemma_statement_shape(ts, i);
                    let last = i + first.used;
                    if ts.blocked(last) is Some {
                        let all = seq![first.value->0];
                        assert(all[0] == first.value->0);
                        assert(all.drop_first() =~= Seq::<StmtView>::empty());
                        assert(all_well_formed(Seq::<StmtView>::empty()));
                        assert(all_well_formed(all));
                    } else {
                        lemma_progress_shape(ts, last + 1);
                        let rest = progress(ts, last + 1).statements;
                        let all = seq![first.value->0] + rest;
                        assert(all[0] == first.value->0);
                        assert(all.drop_first() =~= rest);
                        assert(all_well_formed(all));
                    }
                }
            },
            Err(_) => {},
        }
    }
}

} // verus!
