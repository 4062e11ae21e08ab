use super::decimal::write_decimal;
use super::model::{
    placeholder_text, render_args, render_expr, render_names, render_stmt, render_stmts,
    BlockView, ExprView, StmtView,
};
use super::operators::{InfixOperator, PrefixOperator};
use crate::lexer::{Token, TokenView};
use std::fmt::Debug;
use vstd::prelude::*;
use vstd::string::StringExecFns;

verus! {

/// What every node of the syntax tree can do: print itself.
pub trait AstNode: PrettyPrint + Debug {

}

/// Rendering of a node as canonical source text: compact, with no whitespace
/// that the language does not need.
pub trait PrettyPrint {
    /// The canonical text of this node.
    spec fn rendered(&self) -> Seq<char>;

    fn pretty_print(&self) -> (text: String)
        ensures
            text@ == self.rendered(),
    ;
}

/// A name.
#[derive(Debug, Clone, Copy, PartialEq, Eq)]
pub struct Identifier<'a> {
    /// The token that holds the name. In a tree that the parser built it is
    /// always an `Identifier`.
    pub token: Token<'a>,
}

/// The literals `true` and `false`.
#[derive(Debug, Clone, Copy, PartialEq, Eq)]
pub struct BooleanExpression<'a> {
    pub token: Token<'a>,
    pub value: bool,
}

/// A whole number.
#[derive(Debug, Clone, Copy, PartialEq, Eq)]
pub struct IntegerLiteralExpression<'a> {
    pub token: Token<'a>,
    pub value: i128,
}

/// An operator before its operand.
#[derive(Debug, PartialEq, Eq)]
pub struct PrefixExpression<'a> {
    pub token: Token<'a>,
    pub operator: PrefixOperator,
    pub subject: Box<Expression<'a>>,
}

/// An operator between its two operands.
#[derive(Debug, PartialEq, Eq)]
pub struct InfixExpression<'a> {
    pub token: Token<'a>,
    pub operator: InfixOperator,
    pub left: Box<Expression<'a>>,
    pub right: Box<Expression<'a>>,
}

/// A call of a named function with its arguments.
#[derive(Debug, PartialEq, Eq)]
pub struct FunctionCallExpression<'a> {
    pub token: Token<'a>,
    pub func: Identifier<'a>,
    pub args: Vec<Expression<'a>>,
}

/// Stands where an expression belongs that was not parsed. The parser never
/// builds one.
#[derive(Debug, Clone, Copy, PartialEq, Eq)]
pub struct PlaceholderExpression {}

/// An expression: one of a closed set of node kinds. Every node keeps the
/// token that introduced it.
#[derive(Debug, PartialEq, Eq)]
pub enum Expression<'a> {
    Identifier(Identifier<'a>),
    Boolean(BooleanExpression<'a>),
    Placeholder(PlaceholderExpression),
    IntegerLiteral(IntegerLiteralExpression<'a>),
    Prefix(PrefixExpression<'a>),
    Infix(InfixExpression<'a>),
    FunctionCall(FunctionCallExpression<'a>),
}

/// The kind of an expression, with the node itself.
#[derive(Debug, Clone, Copy)]
pub enum ExpressionType<'a> {
    Identifier(&'a Identifier<'a>),
    Boolean(&'a BooleanExpression<'a>),
    Placeholder(&'a PlaceholderExpression),
    IntegerLiteral(&'a IntegerLiteralExpression<'a>),
    Prefix(&'a PrefixExpression<'a>),
    Infix(&'a InfixExpression<'a>),
    FunctionCall(&'a FunctionCallExpression<'a>),
}

/// `[global] name = value`.
#[derive(Debug, PartialEq, Eq)]
pub struct AssignStatement<'a> {
    pub token: Token<'a>,
    pub ident: Identifier<'a>,
    pub global: bool,
    pub value: Expression<'a>,
}

/// `return`, with or without a value.
#[derive(Debug, PartialEq, Eq)]
pub struct ReturnStatement<'a> {
    pub token: Token<'a>,
    pub value: Option<Expression<'a>>,
}

/// An expression that stands as a statement.
#[derive(Debug, PartialEq, Eq)]
pub struct ExpressionStatement<'a> {
    pub value: Expression<'a>,
}

/// `if condition then`, a block, optionally `else` and a second block, and
/// `endif`.
#[derive(Debug, PartialEq, Eq)]
pub struct IfStatement<'a> {
    pub token: Token<'a>,
    pub condition: Expression<'a>,
    pub consequence: BlockStatement<'a>,
    pub alternative: Option<BlockStatement<'a>>,
}

/// A run of statements. `token` is the token at which the block began.
#[derive(Debug, PartialEq, Eq)]
pub struct BlockStatement<'a> {
    pub token: Token<'a>,
    pub statements: Vec<Statement<'a>>,
}

/// The declaration of a function or of a procedure.
#[derive(Debug, PartialEq, Eq)]
pub struct FunctionStatement<'a> {
    pub token: Token<'a>,
    pub ident: Identifier<'a>,
    pub params: Vec<Identifier<'a>>,
    pub body: BlockStatement<'a>,
    pub is_procedure: bool,
}

/// The statement that does nothing.
#[derive(Debug, Clone, Copy, PartialEq, Eq)]
pub struct EmptyStatement {}

/// A statement: one of a closed set of node kinds.
#[derive(Debug, PartialEq, Eq)]
pub enum Statement<'a> {
    Assign(AssignStatement<'a>),
    Return(ReturnStatement<'a>),
    Expression(ExpressionStatement<'a>),
    If(IfStatement<'a>),
    Block(BlockStatement<'a>),
    Function(FunctionStatement<'a>),
    Empty,
}

/// The kind of a statement, with the node itself.
#[derive(Debug, Clone, Copy)]
pub enum StatementType<'a> {
    Assign(&'a AssignStatement<'a>),
    Return(&'a ReturnStatement<'a>),
    Expression(&'a ExpressionStatement<'a>),
    If(&'a IfStatement<'a>),
    Block(&'a BlockStatement<'a>),
    Function(&'a FunctionStatement<'a>),
    Empty,
}

/// The view of an expression.
pub open spec fn expr_view(e: Expression) -> ExprView
    decreases e,
{
    match e {
        Expression::Identifier(n) => ExprView::Identifier { token: n.token@ },
        Expression::Boolean(n) => ExprView::Boolean { token: n.token@, value: n.value },
        Expression::Placeholder(_) => ExprView::Placeholder,
        Expression::IntegerLiteral(n) => ExprView::IntegerLiteral {
            token: n.token@,
            value: n.value as int,
        },
        Expression::Prefix(n) => ExprView::Prefix {
            token: n.token@,
            operator: n.operator,
            subject: Box::new(expr_view(*n.subject)),
        },
        Expression::Infix(n) => ExprView::Infix {
            token: n.token@,
            operator: n.operator,
            left: Box::new(expr_view(*n.left)),
            right: Box::new(expr_view(*n.right)),
        },
        Expression::FunctionCall(n) => ExprView::FunctionCall {
            token: n.token@,
            func: n.func.token@,
            args: exprs_view(n.args@),
        },
    }
}

/// The views of a run of expressions, one for one.
pub open spec fn exprs_view(items: Seq<Expression>) -> Seq<ExprView>
    decreases items,
{
    Seq::new(
        items.len(),
        |i: int|
            if 0 <= i < items.len() {
                expr_view(items[i])
            } else {
                ExprView::Placeholder
            },
    )
}

/// The views of a run of names, one for one.
pub open spec fn names_view(names: Seq<Identifier>) -> Seq<TokenView> {
    Seq::new(names.len(), |i: int| names[i].token@)
}

/// The view of a block.
pub open spec fn block_view(b: BlockStatement) -> BlockView
    decreases b,
{
    BlockView { token: b.token@, statements: stmts_view(b.statements@) }
}

/// The view of a statement.
pub open spec fn stmt_view(s: Statement) -> StmtView
    decreases s,
{
    match s {
        Statement::Assign(n) => StmtView::Assign {
            token: n.token@,
            ident: n.ident.token@,
            global: n.global,
            value: expr_view(n.value),
        },
        Statement::Return(n) => StmtView::Return {
            token: n.token@,
            value: match n.value {
                Some(v) => Some(expr_view(v)),
                None => None,
            },
        },
        Statement::Expression(n) => StmtView::Expression { value: expr_view(n.value) },
        Statement::If(n) => StmtView::If {
            token: n.token@,
            condition: expr_view(n.condition),
            consequence: block_view(n.consequence),
            alternative: match n.alternative {
                Some(b) => Some(block_view(b)),
                None => None,
            },
        },
        Statement::Block(n) => StmtView::Block { block: block_view(n) },
        Statement::Function(n) => StmtView::Function {
            token: n.token@,
            ident: n.ident.token@,
            params: names_view(n.params@),
            body: block_view(n.body),
            is_procedure: n.is_procedure,
        },
        Statement::Empty => StmtView::Empty,
    }
}

/// The views of a run of statements, one for one.
pub open spec fn stmts_view(items: Seq<Statement>) -> Seq<StmtView>
    decreases items,
{
    Seq::new(
        items.len(),
        |i: int|
            if 0 <= i < items.len() {
                stmt_view(items[i])
            } else {
                StmtView::Empty
            },
    )
}

impl<'a> View for Expression<'a> {
    type V = ExprView;

    open spec fn view(&self) -> ExprView {
        expr_view(*self)
    }
}

impl<'a> View for Statement<'a> {
    type V = StmtView;

    open spec fn view(&self) -> StmtView {
        stmt_view(*self)
    }
}

impl<'a> View for Identifier<'a> {
    type V = ExprView;

    open spec fn view(&self) -> ExprView {
        expr_view(Expression::Identifier(*self))
    }
}

impl<'a> View for BooleanExpression<'a> {
    type V = ExprView;

    open spec fn view(&self) -> ExprView {
        expr_view(Expression::Boolean(*self))
    }
}

impl View for PlaceholderExpression {
    type V = ExprView;

    open spec fn view(&self) -> ExprView {
        expr_view(Expression::Placeholder(*self))
    }
}

impl<'a> View for IntegerLiteralExpression<'a> {
    type V = ExprView;

    open spec fn view(&self) -> ExprView {
        expr_view(Expression::IntegerLiteral(*self))
    }
}

impl<'a> View for PrefixExpression<'a> {
    type V = ExprView;

    open spec fn view(&self) -> ExprView {
        expr_view(Expression::Prefix(*self))
    }
}

impl<'a> View for InfixExpression<'a> {
    type V = ExprView;

    open spec fn view(&self) -> ExprView {
        expr_view(Expression::Infix(*self))
    }
}

impl<'a> View for FunctionCallExpression<'a> {
    type V = ExprView;

    open spec fn view(&self) -> ExprView {
        expr_view(Expression::FunctionCall(*self))
    }
}

impl<'a> View for AssignStatement<'a> {
    type V = StmtView;

    open spec fn view(&self) -> StmtView {
        stmt_view(Statement::Assign(*self))
    }
}

impl<'a> View for ReturnStatement<'a> {
    type V = StmtView;

    open spec fn view(&self) -> StmtView {
        stmt_view(Statement::Return(*self))
    }
}

impl<'a> View for ExpressionStatement<'a> {
    type V = StmtView;

    open spec fn view(&self) -> StmtView {
        stmt_view(Statement::Expression(*self))
    }
}

impl<'a> View for IfStatement<'a> {
    type V = StmtView;

    open spec fn view(&self) -> StmtView {
        stmt_view(Statement::If(*self))
    }
}

impl<'a> View for BlockStatement<'a> {
    type V = BlockView;

    open spec fn view(&self) -> BlockView {
        block_view(*self)
    }
}

impl<'a> View for FunctionStatement<'a> {
    type V = StmtView;

    open spec fn view(&self) -> StmtView {
        stmt_view(Statement::Function(*self))
    }
}

impl<'a> Identifier<'a> {
    /// The name. A node whose token is no `Identifier` has the empty name.
    pub fn get_ident(&self) -> (name: &str)
        ensures
            name@ == self.token@.name(),
    {
        match self.token {
            Token::Identifier(name) => name,
            _ => {
                proof {
                    reveal_strlit("");
                    assert(""@ =~= Seq::<char>::empty());
                }
                ""
            },
        }
    }

    /// Appends the name to `out`.
    pub fn write_to(&self, out: &mut String)
        ensures
            final(out)@ == old(out)@ + self.token@.name(),
    {
        out.append(self.get_ident());
    }

    pub fn get_type(&self) -> (kind: ExpressionType<'_>)
        ensures
            kind == ExpressionType::Identifier(self),
    {
        ExpressionType::Identifier(self)
    }

    /// The name: it holds no operator, so the brackets change nothing.
    pub fn pretty_print_with_brackets(&self) -> (text: String)
        ensures
            text@ == render_expr(self@, true),
    {
        self.pretty_print()
    }
}

impl<'a> From<Token<'a>> for Identifier<'a> {
    fn from(value: Token<'a>) -> (ident: Identifier<'a>) {
        Identifier { token: value }
    }
}

impl<'a> vstd::std_specs::convert::FromSpecImpl<Token<'a>> for Identifier<'a> {
    open spec fn obeys_from_spec() -> bool {
        true
    }

    open spec fn from_spec(value: Token<'a>) -> Identifier<'a> {
        Identifier { token: value }
    }
}

impl<'a> BooleanExpression<'a> {
    /// Appends `true` or `false` to `out`.
    pub fn write_to(&self, out: &mut String)
        ensures
            final(out)@ == old(out)@ + render_expr(self@, false),
            final(out)@ == old(out)@ + render_expr(self@, true),
    {
        if self.value {
            out.append("true");
        } else {
            out.append("false");
        }
    }
}

impl<'a> IntegerLiteralExpression<'a> {
    /// Appends the value in decimal notation to `out`.
    pub fn write_to(&self, out: &mut String)
        ensures
            final(out)@ == old(out)@ + render_expr(self@, false),
            final(out)@ == old(out)@ + render_expr(self@, true),
    {
        write_decimal(out, self.value);
    }
}

impl PlaceholderExpression {
    /// Appends the placeholder text to `out`.
    pub fn write_to(&self, out: &mut String)
        ensures
            final(out)@ == old(out)@ + placeholder_text(),
    {
        out.append("<PLACEHOLDER_EXPRESSION>");
    }
}

impl<'a> PrefixExpression<'a> {
    /// Appends the operator and its operand to `out`, with or without the
    /// brackets round every operator application.
    pub fn write_to(&self, out: &mut String, brackets: bool)
        ensures
            final(out)@ == old(out)@ + render_expr(self@, brackets),
        decreases self,
    {
        if brackets {
            out.append("(");
        }
        out.append(self.operator.as_str());
        self.subject.write_to(out, brackets);
        if brackets {
            out.append(")");
        }
        assert(final(out)@ =~= old(out)@ + render_expr(self@, brackets));
    }
}

impl<'a> InfixExpression<'a> {
    /// Appends the operands with the operator between them to `out`, with or
    /// without the brackets round every operator application.
    pub fn write_to(&self, out: &mut String, brackets: bool)
        ensures
            final(out)@ == old(out)@ + render_expr(self@, brackets),
        decreases self,
    {
        if brackets {
            out.append("(");
        }
        self.left.write_to(out, brackets);
        out.append(self.operator.as_str());
        self.right.write_to(out, brackets);
        if brackets {
            out.append(")");
        }
        assert(final(out)@ =~= old(out)@ + render_expr(self@, brackets));
    }
}

impl<'a> FunctionCallExpression<'a> {
    /// Appends the call to `out`: the name, and in parentheses the arguments,
    /// separated by a comma and a space.
    pub fn write_to(&self, out: &mut String, brackets: bool)
        ensures
            final(out)@ == old(out)@ + render_expr(self@, brackets),
        decreases self,
    {
        let ghost args = exprs_view(self.args@);
        let ghost head = old(out)@ + self.func.token@.name() + "("@;
        self.func.write_to(out);
        out.append("(");
        let mut i: usize = 0;
        while i < self.args.len()
            invariant
                0 <= i <= self.args.len(),
                args == exprs_view(self.args@),
                out@ == head + render_args(args.take(i as int), brackets),
            decreases self.args.len() - i,
        {
            let ghost before = out@;
            if i > 0 {
                out.append(", ");
            }
            self.args[i].write_to(out, brackets);
            proof {
                let upto = args.take(i + 1);
                assert(upto.drop_last() =~= args.take(i as int));
                assert(upto.last() == expr_view(self.args@[i as int]));
                assert(out@ =~= head + render_args(upto, brackets));
            }
            i += 1;
        }
        out.append(")");
        proof {
            assert(args.take(i as int) =~= args);
            assert(final(out)@ =~= old(out)@ + render_expr(self@, brackets));
        }
    }
}

impl<'a> Expression<'a> {
    /// Appends the canonical text of this expression to `out`, with or without
    /// the brackets round every operator application.
    pub fn write_to(&self, out: &mut String, brackets: bool)
        ensures
            final(out)@ == old(out)@ + render_expr(self@, brackets),
        decreases self,
    {
        match self {
            Expression::Identifier(n) => n.write_to(out),
            Expression::Boolean(n) => n.write_to(out),
            Expression::Placeholder(n) => n.write_to(out),
            Expression::IntegerLiteral(n) => n.write_to(out),
            Expression::Prefix(n) => n.write_to(out, brackets),
            Expression::Infix(n) => n.write_to(out, brackets),
            Expression::FunctionCall(n) => n.write_to(out, brackets),
        }
    }

    /// The kind of this expression, with the node.
    pub fn get_type(&self) -> (kind: ExpressionType<'_>)
        ensures
            kind == self.classify(),
    {
        match self {
            Expression::Identifier(n) => ExpressionType::Identifier(n),
            Expression::Boolean(n) => ExpressionType::Boolean(n),
            Expression::Placeholder(n) => ExpressionType::Placeholder(n),
            Expression::IntegerLiteral(n) => ExpressionType::IntegerLiteral(n),
            Expression::Prefix(n) => ExpressionType::Prefix(n),
            Expression::Infix(n) => ExpressionType::Infix(n),
            Expression::FunctionCall(n) => ExpressionType::FunctionCall(n),
        }
    }

    /// The kind of this expression, with the node.
    pub open spec fn classify(&self) -> ExpressionType<'_> {
        match self {
            Expression::Identifier(n) => ExpressionType::Identifier(n),
            Expression::Boolean(n) => ExpressionType::Boolean(n),
            Expression::Placeholder(n) => ExpressionType::Placeholder(n),
            Expression::IntegerLiteral(n) => ExpressionType::IntegerLiteral(n),
            Expression::Prefix(n) => ExpressionType::Prefix(n),
            Expression::Infix(n) => ExpressionType::Infix(n),
            Expression::FunctionCall(n) => ExpressionType::FunctionCall(n),
        }
    }

    /// The text of this expression with every operator application in
    /// parentheses of its own: `1+2*3` is printed as `(1+(2*3))`.
    pub fn pretty_print_with_brackets(&self) -> (text: String)
        ensures
            text@ == render_expr(self@, true),
    {
        let mut text = String::new();
        self.write_to(&mut text, true);
        assert(text@ =~= render_expr(self@, true));
        text
    }
}

impl<'a> BooleanExpression<'a> {
    pub fn get_type(&self) -> (kind: ExpressionType<'_>)
        ensures
            kind == ExpressionType::Boolean(self),
    {
        ExpressionType::Boolean(self)
    }

    /// The text of this node with every operator application in parentheses
    /// of its own.
    pub fn pretty_print_with_brackets(&self) -> (text: String)
        ensures
            text@ == render_expr(self@, true),
    {
        let mut text = String::new();
        self.write_to(&mut text);
        assert(text@ =~= render_expr(self@, true));
        text
    }
}

impl PlaceholderExpression {
    pub fn get_type(&self) -> (kind: ExpressionType<'_>)
        ensures
            kind == ExpressionType::Placeholder(self),
    {
        ExpressionType::Placeholder(self)
    }

    /// The text of this node with every operator application in parentheses
    /// of its own.
    pub fn pretty_print_with_brackets(&self) -> (text: String)
        ensures
            text@ == render_expr(self@, true),
    {
        let mut text = String::new();
        self.write_to(&mut text);
        assert(text@ =~= render_expr(self@, true));
        text
    }
}

impl<'a> IntegerLiteralExpression<'a> {
    pub fn get_type(&self) -> (kind: ExpressionType<'_>)
        ensures
            kind == ExpressionType::IntegerLiteral(self),
    {
        ExpressionType::IntegerLiteral(self)
    }

    /// The text of this node with every operator application in parentheses
    /// of its own.
    pub fn pretty_print_with_brackets(&self) -> (text: String)
        ensures
            text@ == render_expr(self@, true),
    {
        let mut text = String::new();
        self.write_to(&mut text);
        assert(text@ =~= render_expr(self@, true));
        text
    }
}

impl<'a> PrefixExpression<'a> {
    pub fn get_type(&self) -> (kind: ExpressionType<'_>)
        ensures
            kind == ExpressionType::Prefix(self),
    {
        ExpressionType::Prefix(self)
    }

    /// The text of this node with every operator application in parentheses
    /// of its own.
    pub fn pretty_print_with_brackets(&self) -> (text: String)
        ensures
            text@ == render_expr(self@, true),
    {
        let mut text = String::new();
        self.write_to(&mut text, true);
        assert(text@ =~= render_expr(self@, true));
        text
    }
}

impl<'a> InfixExpression<'a> {
    pub fn get_type(&self) -> (kind: ExpressionType<'_>)
        ensures
            kind == ExpressionType::Infix(self),
    {
        ExpressionType::Infix(self)
    }

    /// The text of this node with every operator application in parentheses
    /// of its own.
    pub fn pretty_print_with_brackets(&self) -> (text: String)
        ensures
            text@ == render_expr(self@, true),
    {
        let mut text = String::new();
        self.write_to(&mut text, true);
        assert(text@ =~= render_expr(self@, true));
        text
    }
}

impl<'a> FunctionCallExpression<'a> {
    pub fn get_type(&self) -> (kind: ExpressionType<'_>)
        ensures
            kind == ExpressionType::FunctionCall(self),
    {
        ExpressionType::FunctionCall(self)
    }

    /// The text of this node with every operator application in parentheses
    /// of its own.
    pub fn pretty_print_with_brackets(&self) -> (text: String)
        ensures
            text@ == render_expr(self@, true),
    {
        let mut text = String::new();
        self.write_to(&mut text, true);
        assert(text@ =~= render_expr(self@, true));
        text
    }
}

impl<'a> PrettyPrint for Identifier<'a> {
    open spec fn rendered(&self) -> Seq<char> {
        render_expr(self@, false)
    }

    fn pretty_print(&self) -> (text: String) {
        let mut text = String::new();
        self.write_to(&mut text);
        assert(text@ =~= render_expr(self@, false));
        text
    }
}

impl<'a> AstNode for Identifier<'a> {

}

impl<'a> PrettyPrint for BooleanExpression<'a> {
    open spec fn rendered(&self) -> Seq<char> {
        render_expr(self@, false)
    }

    fn pretty_print(&self) -> (text: String) {
        let mut text = String::new();
        self.write_to(&mut text);
        assert(text@ =~= render_expr(self@, false));
        text
    }
}

impl<'a> AstNode for BooleanExpression<'a> {

}

impl PrettyPrint for PlaceholderExpression {
    open spec fn rendered(&self) -> Seq<char> {
        render_expr(self@, false)
    }

    fn pretty_print(&self) -> (text: String) {
        let mut text = String::new();
        self.write_to(&mut text);
        assert(text@ =~= render_expr(self@, false));
        text
    }
}

impl AstNode for PlaceholderExpression {

}

impl<'a> PrettyPrint for IntegerLiteralExpression<'a> {
    open spec fn rendered(&self) -> Seq<char> {
        render_expr(self@, false)
    }

    fn pretty_print(&self) -> (text: String) {
        let mut text = String::new();
        self.write_to(&mut text);
        assert(text@ =~= render_expr(self@, false));
        text
    }
}

impl<'a> AstNode for IntegerLiteralExpression<'a> {

}

impl<'a> PrettyPrint for PrefixExpression<'a> {
    open spec fn rendered(&self) -> Seq<char> {
        render_expr(self@, false)
    }

    fn pretty_print(&self) -> (text: String) {
        let mut text = String::new();
        self.write_to(&mut text, false);
        assert(text@ =~= render_expr(self@, false));
        text
    }
}

impl<'a> AstNode for PrefixExpression<'a> {

}

impl<'a> PrettyPrint for InfixExpression<'a> {
    open spec fn rendered(&self) -> Seq<char> {
        render_expr(self@, false)
    }

    fn pretty_print(&self) -> (text: String) {
        let mut text = String::new();
        self.write_to(&mut text, false);
        assert(text@ =~= render_expr(self@, false));
        text
    }
}

impl<'a> AstNode for InfixExpression<'a> {

}

impl<'a> PrettyPrint for FunctionCallExpression<'a> {
    open spec fn rendered(&self) -> Seq<char> {
        render_expr(self@, false)
    }

    fn pretty_print(&self) -> (text: String) {
        let mut text = String::new();
        self.write_to(&mut text, false);
        assert(text@ =~= render_expr(self@, false));
        text
    }
}

impl<'a> AstNode for FunctionCallExpression<'a> {

}

impl<'a> PrettyPrint for Expression<'a> {
    open spec fn rendered(&self) -> Seq<char> {
        render_expr(self@, false)
    }

    fn pretty_print(&self) -> (text: String) {
        let mut text = String::new();
        self.write_to(&mut text, false);
        assert(text@ =~= render_expr(self@, false));
        text
    }
}

impl<'a> AstNode for Expression<'a> {

}

/// Appends the names to `out`, separated by a comma and a space.
fn write_names(names: &Vec<Identifier>, out: &mut String)
    ensures
        final(out)@ == old(out)@ + render_names(names_view(names@)),
{
    let ghost views = names_view(names@);
    let mut i: usize = 0;
    while i < names.len()
        invariant
            0 <= i <= names.len(),
            views == names_view(names@),
            out@ == old(out)@ + render_names(views.take(i as int)),
        decreases names.len() - i,
    {
        if i > 0 {
            out.append(", ");
        }
        names[i].write_to(out);
        proof {
            let upto = views.take(i + 1);
            assert(upto.drop_last() =~= views.take(i as int));
            assert(upto.last() == names@[i as int].token@);
            assert(out@ =~= old(out)@ + render_names(upto));
        }
        i += 1;
    }
    proof {
        assert(views.take(i as int) =~= views);
    }
}

/// Appends the statements to `out`, one per line.
fn write_stmts(stmts: &Vec<Statement>, out: &mut String)
    ensures
        final(out)@ == old(out)@ + render_stmts(stmts_view(stmts@)),
    decreases stmts,
{
    let ghost views = stmts_view(stmts@);
    let mut i: usize = 0;
    while i < stmts.len()
        invariant
            0 <= i <= stmts.len(),
            views == stmts_view(stmts@),
            out@ == old(out)@ + render_stmts(views.take(i as int)),
        decreases stmts.len() - i,
    {
        if i > 0 {
            out.append("\n");
        }
        stmts[i].write_to(out);
        proof {
            let upto = views.take(i + 1);
            assert(upto.drop_last() =~= views.take(i as int));
            assert(upto.last() == stmt_view(stmts@[i as int]));
            assert(out@ =~= old(out)@ + render_stmts(upto));
        }
        i += 1;
    }
    proof {
        assert(views.take(i as int) =~= views);
    }
}

impl<'a> AssignStatement<'a> {
    /// Appends the assignment to `out`.
    pub fn write_to(&self, out: &mut String)
        ensures
            final(out)@ == old(out)@ + render_stmt(self@),
    {
        if self.global {
            out.append("global ");
        }
        self.ident.write_to(out);
        out.append("=");
        self.value.write_to(out, false);
        assert(final(out)@ =~= old(out)@ + render_stmt(self@));
    }
}

impl<'a> ReturnStatement<'a> {
    /// Appends the statement to `out`.
    pub fn write_to(&self, out: &mut String)
        ensures
            final(out)@ == old(out)@ + render_stmt(self@),
    {
        match &self.value {
            Some(v) => {
                out.append("return ");
                v.write_to(out, false);
            },
            None => {
                out.append("return");
            },
        }
        assert(final(out)@ =~= old(out)@ + render_stmt(self@));
    }
}

impl<'a> ExpressionStatement<'a> {
    /// Appends the expression to `out`.
    pub fn write_to(&self, out: &mut String)
        ensures
            final(out)@ == old(out)@ + render_stmt(self@),
    {
        self.value.write_to(out, false);
    }
}

impl<'a> BlockStatement<'a> {
    /// Appends the statements of the block to `out`, one per line.
    pub fn write_to(&self, out: &mut String)
        ensures
            final(out)@ == old(out)@ + render_stmts(self@.statements),
        decreases self,
    {
        write_stmts(&self.statements, out);
    }
}

impl<'a> IfStatement<'a> {
    /// Appends the statement to `out`: the condition on the first line, each
    /// block on lines of its own, and `endif` on the last.
    pub fn write_to(&self, out: &mut String)
        ensures
            final(out)@ == old(out)@ + render_stmt(self@),
        decreases self,
    {
        out.append("if ");
        self.condition.write_to(out, false);
        out.append(" then\n");
        self.consequence.write_to(out);
        out.append("\n");
        match &self.alternative {
            Some(block) => {
                out.append("else\n");
                block.write_to(out);
                out.append("\n");
            },
            None => {},
        }
        out.append("endif");
        assert(final(out)@ =~= old(out)@ + render_stmt(self@));
    }
}

impl<'a> FunctionStatement<'a> {
    /// Appends the declaration to `out`: the header on the first line, the
    /// body on lines of its own, and the closing keyword on the last.
    pub fn write_to(&self, out: &mut String)
        ensures
            final(out)@ == old(out)@ + render_stmt(self@),
        decreases self,
    {
        if self.is_procedure {
            out.append("procedure ");
        } else {
            out.append("function ");
        }
        self.ident.write_to(out);
        out.append("(");
        write_names(&self.params, out);
        out.append(")\n");
        self.body.write_to(out);
        out.append("\n");
        if self.is_procedure {
            out.append("endprocedure");
        } else {
            out.append("endfunction");
        }
        assert(final(out)@ =~= old(out)@ + render_stmt(self@));
    }
}

impl EmptyStatement {
    pub fn get_type(&self) -> (kind: StatementType<'_>)
        ensures
            kind == StatementType::Empty,
    {
        StatementType::Empty
    }
}

impl PrettyPrint for EmptyStatement {
    open spec fn rendered(&self) -> Seq<char> {
        Seq::empty()
    }

    fn pretty_print(&self) -> (text: String) {
        String::new()
    }
}

impl AstNode for EmptyStatement {

}

impl<'a> Statement<'a> {
    /// Appends the canonical text of this statement to `out`.
    pub fn write_to(&self, out: &mut String)
        ensures
            final(out)@ == old(out)@ + render_stmt(self@),
        decreases self,
    {
        match self {
            Statement::Assign(n) => n.write_to(out),
            Statement::Return(n) => n.write_to(out),
            Statement::Expression(n) => n.write_to(out),
            Statement::If(n) => n.write_to(out),
            Statement::Block(n) => n.write_to(out),
            Statement::Function(n) => n.write_to(out),
            Statement::Empty => {},
        }
    }

    /// The kind of this statement, with the node.
    pub fn get_type(&self) -> (kind: StatementType<'_>)
        ensures
            kind == self.classify(),
    {
        match self {
            Statement::Assign(n) => StatementType::Assign(n),
            Statement::Return(n) => StatementType::Return(n),
            Statement::Expression(n) => StatementType::Expression(n),
            Statement::If(n) => StatementType::If(n),
            Statement::Block(n) => StatementType::Block(n),
            Statement::Function(n) => StatementType::Function(n),
            Statement::Empty => StatementType::Empty,
        }
    }

    /// The kind of this statement, with the node.
    pub open spec fn classify(&self) -> StatementType<'_> {
        match self {
            Statement::Assign(n) => StatementType::Assign(n),
            Statement::Return(n) => StatementType::Return(n),
            Statement::Expression(n) => StatementType::Expression(n),
            Statement::If(n) => StatementType::If(n),
            Statement::Block(n) => StatementType::Block(n),
            Statement::Function(n) => StatementType::Function(n),
            Statement::Empty => StatementType::Empty,
        }
    }
}

impl<'a> AssignStatement<'a> {
    pub fn get_type(&self) -> (kind: StatementType<'_>)
        ensures
            kind == StatementType::Assign(self),
    {
        StatementType::Assign(self)
    }
}

impl<'a> ReturnStatement<'a> {
    pub fn get_type(&self) -> (kind: StatementType<'_>)
        ensures
            kind == StatementType::Return(self),
    {
        StatementType::Return(self)
    }
}

impl<'a> ExpressionStatement<'a> {
    pub fn get_type(&self) -> (kind: StatementType<'_>)
        ensures
            kind == StatementType::Expression(self),
    {
        StatementType::Expression(self)
    }
}

impl<'a> IfStatement<'a> {
    pub fn get_type(&self) -> (kind: StatementType<'_>)
        ensures
            kind == StatementType::If(self),
    {
        StatementType::If(self)
    }
}

impl<'a> BlockStatement<'a> {
    pub fn get_type(&self) -> (kind: StatementType<'_>)
        ensures
            kind == StatementType::Block(self),
    {
        StatementType::Block(self)
    }
}

impl<'a> FunctionStatement<'a> {
    pub fn get_type(&self) -> (kind: StatementType<'_>)
        ensures
            kind == StatementType::Function(self),
    {
        StatementType::Function(self)
    }
}

impl<'a> PrettyPrint for AssignStatement<'a> {
    open spec fn rendered(&self) -> Seq<char> {
        render_stmt(self@)
    }

    fn pretty_print(&self) -> (text: String) {
        let mut text = String::new();
        self.write_to(&mut text);
        assert(text@ =~= render_stmt(self@));
        text
    }
}

impl<'a> AstNode for AssignStatement<'a> {

}

impl<'a> PrettyPrint for ReturnStatement<'a> {
    open spec fn rendered(&self) -> Seq<char> {
        render_stmt(self@)
    }

    fn pretty_print(&self) -> (text: String) {
        let mut text = String::new();
        self.write_to(&mut text);
        assert(text@ =~= render_stmt(self@));
        text
    }
}

impl<'a> AstNode for ReturnStatement<'a> {

}

impl<'a> PrettyPrint for ExpressionStatement<'a> {
    open spec fn rendered(&self) -> Seq<char> {
        render_stmt(self@)
    }

    fn pretty_print(&self) -> (text: String) {
        let mut text = String::new();
        self.write_to(&mut text);
        assert(text@ =~= render_stmt(self@));
        text
    }
}

impl<'a> AstNode for ExpressionStatement<'a> {

}

impl<'a> PrettyPrint for IfStatement<'a> {
    open spec fn rendered(&self) -> Seq<char> {
        render_stmt(self@)
    }

    fn pretty_print(&self) -> (text: String) {
        let mut text = String::new();
        self.write_to(&mut text);
        assert(text@ =~= render_stmt(self@));
        text
    }
}

impl<'a> AstNode for IfStatement<'a> {

}

impl<'a> PrettyPrint for BlockStatement<'a> {
    open spec fn rendered(&self) -> Seq<char> {
        render_stmts(self@.statements)
    }

    fn pretty_print(&self) -> (text: String) {
        let mut text = String::new();
        self.write_to(&mut text);
        assert(text@ =~= render_stmts(self@.statements));
        text
    }
}

impl<'a> AstNode for BlockStatement<'a> {

}

impl<'a> PrettyPrint for FunctionStatement<'a> {
    open spec fn rendered(&self) -> Seq<char> {
        render_stmt(self@)
    }

    fn pretty_print(&self) -> (text: String) {
        let mut text = String::new();
        self.write_to(&mut text);
        assert(text@ =~= render_stmt(self@));
        text
    }
}

impl<'a> AstNode for FunctionStatement<'a> {

}

impl<'a> PrettyPrint for Statement<'a> {
    open spec fn rendered(&self) -> Seq<char> {
        render_stmt(self@)
    }

    fn pretty_print(&self) -> (text: String) {
        let mut text = String::new();
        self.write_to(&mut text);
        assert(text@ =~= render_stmt(self@));
        text
    }
}

impl<'a> AstNode for Statement<'a> {

}

} // verus!
