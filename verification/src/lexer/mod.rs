//! The tokens, the lexer that reads them from a source text, and what holds
//! of the two.

#[allow(clippy::module_inception)]
mod lexer;
mod scanning;
mod spelling;
mod tokens;

pub use lexer::lemma_boundary_after_ascii;
pub use lexer::lemma_boundary_at;
pub use lexer::lexed_view;
pub use lexer::Lexer;
pub use scanning::byte_at;
pub use scanning::ByteClass;
pub use scanning::Comparison;
pub use scanning::comparison;
pub use scanning::is_digit;
pub use scanning::is_letter;
pub use scanning::lemma_ascii_text;
pub use scanning::lemma_comment_is_no_token;
pub use scanning::lemma_end_is_eof;
pub use scanning::lemma_run_end;
pub use scanning::lemma_run_end_resume;
pub use scanning::lemma_scan_advances;
pub use scanning::lemma_word_is_whole;
pub use scanning::LexerError;
pub use scanning::punctuation;
pub use scanning::run_end;
pub use scanning::Scan;
pub use scanning::scan;
pub use scanning::scan_at;
pub use scanning::text_between;
pub use scanning::token_start;
pub use spelling::is_name;
pub use spelling::is_word_char;
pub use spelling::lemma_caret_is_reserved;
pub use spelling::lemma_identifier_is_a_name;
pub use spelling::lemma_number_is_digits;
pub use spelling::lemma_only_an_open_quote_fails;
pub use spelling::lemma_placed_parts;
pub use spelling::lemma_scan_comparison;
pub use spelling::lemma_scan_number;
pub use spelling::lemma_scan_punctuation;
pub use spelling::lemma_scan_word;
pub use spelling::lemma_token_starts_behind_spaces;
pub use spelling::placed;
pub use spelling::spaces;
pub use tokens::ends_block;
pub use tokens::infix_capable;
pub use tokens::keyword_kind;
pub use tokens::keyword_token;
pub use tokens::lemma_keyword_table;
pub use tokens::lookup_keyword;
pub use tokens::prefix_capable;
pub use tokens::Token;
pub use tokens::TokenDebugInfo;
pub use tokens::TokenType;
pub use tokens::TokenView;
