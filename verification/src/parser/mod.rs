//! The parser: the grammar, the recursive-descent parser that follows it, and
//! what holds of the two.

mod bracketed;
mod bracketed_text;
mod compact;
mod compact_text;
mod expressions;
mod grammar;
mod laws;
#[allow(clippy::module_inception)]
mod parser;
mod program_text;
mod rules;
mod shape;
mod statement_tokens;
mod statements;
mod stream;

pub use bracketed::all_parseable;
pub use bracketed::bare_name;
pub use bracketed::bracketed;
pub use bracketed::bracketed_arguments;
pub use bracketed::holds_at;
pub use bracketed::later;
pub use bracketed::lemma_bracketed_form_parses_back;
pub use bracketed::parseable;
pub use bracketed_text::all_canonical;
pub use bracketed_text::canonical;
pub use bracketed_text::expression_alone;
pub use bracketed_text::follows_operator;
pub use bracketed_text::is_plain;
pub use bracketed_text::lemma_bracketed_text_is_its_tokens;
pub use bracketed_text::lemma_bracketed_text_parses_back;
pub use bracketed_text::starts_operand;
pub use compact::all_settled;
pub use compact::compact;
pub use compact::compact_arguments;
pub use compact::ends_operands;
pub use compact::halts;
pub use compact::lemma_compact_form_parses_back;
pub use compact::lemma_compact_starts;
pub use compact::settled;
pub use compact_text::lemma_compact_text_starts;
pub use compact_text::lemma_lex_compact;
pub use compact_text::starts_expression;
pub use grammar::application;
pub use grammar::argument;
pub use grammar::arguments;
pub use grammar::assign_statement;
pub use grammar::block;
pub use grammar::block_statements;
pub use grammar::boolean;
pub use grammar::call_arguments;
pub use grammar::callee_at;
pub use grammar::climb;
pub use grammar::else_branch;
pub use grammar::expression;
pub use grammar::function_statement;
pub use grammar::if_condition;
pub use grammar::if_statement;
pub use grammar::name;
pub use grammar::newlines;
pub use grammar::number;
pub use grammar::operand;
pub use grammar::parameters;
pub use grammar::Parsed;
pub use grammar::program;
pub use grammar::program_statements;
pub use grammar::Progress;
pub use grammar::progress;
pub use grammar::return_statement;
pub use grammar::Signature;
pub use grammar::signature;
pub use grammar::statement;
pub use laws::infix;
pub use laws::is_plain_operand;
pub use laws::lemma_block_stops_at_its_end;
pub use laws::lemma_call_of_bare_name;
pub use laws::lemma_closing_keyword_matches;
pub use laws::lemma_grouping_overrides_precedence;
pub use laws::lemma_if_ends_at_endif;
pub use laws::lemma_lexed_number_is_valid;
pub use laws::lemma_no_statement_at_eof;
pub use laws::lemma_no_tokens_no_statements;
pub use laws::lemma_program_or_failure;
pub use laws::lemma_tighter_operator_takes_operand;
pub use laws::plain_operand;
pub use parser::agrees;
pub use parser::parse_from_lexer;
pub use parser::parse_from_string;
pub use parser::Parser;
pub use parser::Program;
pub use parser::viewed;
pub use program_text::else_text;
pub use program_text::is_statement_keyword;
pub use program_text::lemma_program_text_parses_back;
pub use program_text::spelling;
pub use rules::ParserError;
pub use rules::Precedence;
pub use shape::all_names;
pub use shape::all_well_formed;
pub use shape::lemma_expression_shape;
pub use shape::lemma_program_is_well_formed;
pub use shape::lemma_statement_shape;
pub use shape::well_formed;
pub use statement_tokens::all_canonical_statements;
pub use statement_tokens::block_tokens;
pub use statement_tokens::canonical_block;
pub use statement_tokens::canonical_statement;
pub use statement_tokens::closing_keyword;
pub use statement_tokens::else_tokens;
pub use statement_tokens::gap;
pub use statement_tokens::lemma_program_of_its_tokens;
pub use statement_tokens::lemma_statement_in_place;
pub use statement_tokens::line_break;
pub use statement_tokens::neat;
pub use statement_tokens::opening_keyword;
pub use statement_tokens::parameter_tokens;
pub use statement_tokens::statement_tokens;
pub use statements::maybe_viewed;
pub use stream::follows;
pub use stream::lemma_behind_parts;
pub use stream::lemma_follows_start;
pub use stream::lemma_follows_step;
pub use stream::lemma_lex_at_end;
pub use stream::lemma_lex_chain;
pub use stream::lemma_lex_step;
pub use stream::lex;
pub use stream::TokenStream;
