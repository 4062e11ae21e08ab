//! The syntax tree, its view in contracts, and its canonical text.

mod ast;
mod decimal;
mod model;
mod operators;

pub use ast::AssignStatement;
pub use ast::AstNode;
pub use ast::block_view;
pub use ast::BlockStatement;
pub use ast::BooleanExpression;
pub use ast::EmptyStatement;
pub use ast::expr_view;
pub use ast::Expression;
pub use ast::ExpressionStatement;
pub use ast::ExpressionType;
pub use ast::exprs_view;
pub use ast::FunctionCallExpression;
pub use ast::FunctionStatement;
pub use ast::Identifier;
pub use ast::IfStatement;
pub use ast::InfixExpression;
pub use ast::IntegerLiteralExpression;
pub use ast::names_view;
pub use ast::PlaceholderExpression;
pub use ast::PrefixExpression;
pub use ast::PrettyPrint;
pub use ast::ReturnStatement;
pub use ast::Statement;
pub use ast::StatementType;
pub use ast::stmt_view;
pub use ast::stmts_view;
pub use decimal::decimal;
pub use decimal::decimal_digits;
pub use decimal::digit_char;
pub use decimal::digit_value;
pub use decimal::digits_value;
pub use decimal::is_digits;
pub use decimal::lemma_decimal_round_trip;
pub use decimal::number_value;
pub use decimal::parse_integer;
pub use decimal::write_decimal;
pub use model::BlockView;
pub use model::close_bracket;
pub use model::ExprView;
pub use model::open_bracket;
pub use model::placeholder_text;
pub use model::render_args;
pub use model::render_expr;
pub use model::render_names;
pub use model::render_stmt;
pub use model::render_stmts;
pub use model::StmtView;
pub use operators::InfixOperator;
pub use operators::lemma_operator_of_its_token;
pub use operators::lemma_operator_tokens;
pub use operators::NoSuchInfixOperatorError;
pub use operators::PrefixOperator;
