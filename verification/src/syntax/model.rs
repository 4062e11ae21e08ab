use super::decimal::decimal;
use super::operators::{InfixOperator, PrefixOperator};
use crate::lexer::TokenView;
use vstd::prelude::*;

verus! {

/// What an expression is in contracts: the tree, with each token taken by its
/// view.
#[allow(inconsistent_fields)]
pub enum ExprView {
    Identifier { token: TokenView },
    Boolean { token: TokenView, value: bool },
    IntegerLiteral { token: TokenView, value: int },
    Prefix { token: TokenView, operator: PrefixOperator, subject: Box<ExprView> },
    Infix { token: TokenView, operator: InfixOperator, left: Box<ExprView>, right: Box<ExprView> },
    FunctionCall { token: TokenView, func: TokenView, args: Seq<ExprView> },
    Placeholder,
}

/// What a block is in contracts.
pub struct BlockView {
    pub token: TokenView,
    pub statements: Seq<StmtView>,
}

/// What a statement is in contracts.
#[allow(inconsistent_fields)]
pub enum StmtView {
    Assign { token: TokenView, ident: TokenView, global: bool, value: ExprView },
    Return { token: TokenView, value: Option<ExprView> },
    If {
        token: TokenView,
        condition: ExprView,
        consequence: BlockView,
        alternative: Option<BlockView>,
    },
    Function {
        token: TokenView,
        ident: TokenView,
        params: Seq<TokenView>,
        body: BlockView,
        is_procedure: bool,
    },
    Block { block: BlockView },
    Expression { value: ExprView },
    Empty,
}

/// The text that stands for an expression that was not parsed.
pub open spec fn placeholder_text() -> Seq<char> {
    "<PLACEHOLDER_EXPRESSION>"@
}

/// The canonical text of an expression. With `brackets`, every application of
/// an operator, at any depth, stands in parentheses of its own; without them no
/// parenthesis is written but those of a call.
pub open spec fn render_expr(e: ExprView, brackets: bool) -> Seq<char>
    decreases e,
{
    match e {
        ExprView::Identifier { token } => token.name(),
        ExprView::Boolean { value, .. } => if value {
            "true"@
        } else {
            "false"@
        },
        ExprView::IntegerLiteral { value, .. } => decimal(value),
        ExprView::Prefix { operator, subject, .. } => open_bracket(brackets) + operator.symbol()
            + render_expr(*subject, brackets) + close_bracket(brackets),
        ExprView::Infix { operator, left, right, .. } => open_bracket(brackets) + render_expr(
            *left,
            brackets,
        ) + operator.symbol() + render_expr(*right, brackets) + close_bracket(brackets),
        ExprView::FunctionCall { func, args, .. } => func.name() + "("@ + render_args(
            args,
            brackets,
        ) + ")"@,
        ExprView::Placeholder => placeholder_text(),
    }
}

/// The opening parenthesis of an operator application, if any is written.
pub open spec fn open_bracket(brackets: bool) -> Seq<char> {
    if brackets {
        "("@
    } else {
        Seq::empty()
    }
}

/// The closing parenthesis of an operator application, if any is written.
pub open spec fn close_bracket(brackets: bool) -> Seq<char> {
    if brackets {
        ")"@
    } else {
        Seq::empty()
    }
}

/// The arguments of a call, separated by a comma and a space.
pub open spec fn render_args(args: Seq<ExprView>, brackets: bool) -> Seq<char>
    decreases args,
{
    if args.len() == 0 {
        Seq::empty()
    } else if args.len() == 1 {
        render_expr(args[0], brackets)
    } else {
        render_args(args.drop_last(), brackets) + ", "@ + render_expr(args.last(), brackets)
    }
}

/// The names of parameters, separated by a comma and a space.
pub open spec fn render_names(names: Seq<TokenView>) -> Seq<char>
    decreases names.len(),
{
    if names.len() == 0 {
        Seq::empty()
    } else if names.len() == 1 {
        names[0].name()
    } else {
        render_names(names.drop_last()) + ", "@ + names.last().name()
    }
}

/// The canonical text of a statement.
pub open spec fn render_stmt(s: StmtView) -> Seq<char>
    decreases s,
{
    match s {
        StmtView::Assign { ident, global, value, .. } => (if global {
            "global "@
        } else {
            Seq::empty()
        }) + ident.name() + "="@ + render_expr(value, false),
        StmtView::Return { value, .. } => match value {
            Some(v) => "return "@ + render_expr(v, false),
            None => "return"@,
        },
        StmtView::If { condition, consequence, alternative, .. } => "if "@ + render_expr(
            condition,
            false,
        ) + " then\n"@ + render_stmts(consequence.statements) + "\n"@ + (match alternative {
            Some(block) => "else\n"@ + render_stmts(block.statements) + "\n"@,
            None => Seq::empty(),
        }) + "endif"@,
        StmtView::Function { ident, params, body, is_procedure, .. } => (if is_procedure {
            "procedure "@
        } else {
            "function "@
        }) + ident.name() + "("@ + render_names(params) + ")\n"@ + render_stmts(body.statements)
            + "\n"@ + (if is_procedure {
            "endprocedure"@
        } else {
            "endfunction"@
        }),
        StmtView::Block { block } => render_stmts(block.statements),
        StmtView::Expression { value } => render_expr(value, false),
        StmtView::Empty => Seq::empty(),
    }
}

/// The canonical text of a run of statements: one per line.
pub open spec fn render_stmts(stmts: Seq<StmtView>) -> Seq<char>
    decreases stmts,
{
    if stmts.len() == 0 {
        Seq::empty()
    } else if stmts.len() == 1 {
        render_stmt(stmts[0])
    } else {
        render_stmts(stmts.drop_last()) + "\n"@ + render_stmt(stmts.last())
    }
}

} // verus!
