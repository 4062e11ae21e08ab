use super::bracketed::{holds_at, lemma_holds_at_parts, parseable};
use super::compact::{compact, lemma_compact_form_parses_back, lemma_compact_starts, settled};
use super::grammar::{
    block, block_statements, else_branch, function_statement, if_condition, if_statement,
    newlines, parameters, program, progress, signature, statement, Parsed, Signature,
};
use super::bracketed_text::{canonical, lemma_canonical_is_parseable};
use super::rules::{ParserError, Precedence};
use super::stream::TokenStream;
use crate::lexer::{ends_block, is_name, LexerError, TokenType, TokenView};
use crate::syntax::{BlockView, ExprView, StmtView};
use vstd::prelude::*;

verus! {

/// Whether an expression is one that the parser yields for its own compact
/// text: it is canonical, and built as the parser builds an expression from a
/// text without parentheses.
pub open spec fn neat(e: ExprView) -> bool {
    canonical(e) && settled(e, Precedence::Lowest, None)
}

/// The token of a line break.
pub open spec fn line_break() -> TokenView {
    TokenView::plain(TokenType::Newline)
}

/// The keyword that closes a declaration.
pub open spec fn closing_keyword(is_procedure: bool) -> TokenType {
    if is_procedure {
        TokenType::Endprocedure
    } else {
        TokenType::Endfunction
    }
}

/// The keyword that opens a declaration.
pub open spec fn opening_keyword(is_procedure: bool) -> TokenType {
    if is_procedure {
        TokenType::Procedure
    } else {
        TokenType::Function
    }
}

/// The tokens of the canonical text of a statement.
pub open spec fn statement_tokens(s: StmtView) -> Seq<TokenView>
    decreases s,
{
    match s {
        StmtView::Assign { ident, global, value, .. } => (if global {
            seq![TokenView::plain(TokenType::Global)]
        } else {
            Seq::empty()
        }) + seq![ident, TokenView::plain(TokenType::Equals)] + compact(value),
        StmtView::Return { value, .. } => seq![TokenView::plain(TokenType::Return)] + (match value {
            Some(v) => compact(v),
            None => Seq::empty(),
        }),
        StmtView::Expression { value } => compact(value),
        StmtView::If { condition, consequence, alternative, .. } => seq![
            TokenView::plain(TokenType::If),
        ] + compact(condition) + seq![TokenView::plain(TokenType::Then), line_break()]
            + block_tokens(consequence.statements) + seq![line_break()] + (match alternative {
            Some(b) => seq![TokenView::plain(TokenType::Else), line_break()] + block_tokens(
                b.statements,
            ) + seq![line_break()],
            None => Seq::empty(),
        }) + seq![TokenView::plain(TokenType::Endif)],
        StmtView::Function { ident, params, body, is_procedure, .. } => seq![
            TokenView::plain(opening_keyword(is_procedure)),
            ident,
            TokenView::plain(TokenType::LParenthasis),
        ] + parameter_tokens(params) + seq![
            TokenView::plain(TokenType::RParenthasis),
            line_break(),
        ] + block_tokens(body.statements) + seq![
            line_break(),
            TokenView::plain(closing_keyword(is_procedure)),
        ],
        StmtView::Block { .. } => Seq::empty(),
        StmtView::Empty => Seq::empty(),
    }
}

/// The tokens of the canonical text of a run of statements: those of each
/// statement, with a line break between one and the next.
pub open spec fn block_tokens(stmts: Seq<StmtView>) -> Seq<TokenView>
    decreases stmts,
{
    if stmts.len() == 0 {
        Seq::empty()
    } else if stmts.len() == 1 {
        statement_tokens(stmts[0])
    } else {
        statement_tokens(stmts[0]) + seq![line_break()] + block_tokens(stmts.drop_first())
    }
}

/// The tokens of the parameters of a declaration, with a comma between one
/// and the next.
pub open spec fn parameter_tokens(params: Seq<TokenView>) -> Seq<TokenView>
    decreases params.len(),
{
    if params.len() == 0 {
        Seq::empty()
    } else if params.len() == 1 {
        seq![params[0]]
    } else {
        seq![params[0], TokenView::plain(TokenType::Comma)] + parameter_tokens(
            params.drop_first(),
        )
    }
}

/// Whether a statement is one that the parser yields for its own canonical
/// text: each node holds the token that the lexer reads for it there, and each
/// expression is built as the parser builds one.
pub open spec fn canonical_statement(s: StmtView) -> bool
    decreases s,
{
    match s {
        StmtView::Assign { token, ident, global, value } => is_name(ident) && token == (
        if global {
            TokenView::plain(TokenType::Global)
        } else {
            ident
        }) && neat(value),
        StmtView::Return { token, value } => token == TokenView::plain(TokenType::Return) && (
        match value {
            Some(v) => neat(v),
            None => true,
        }),
        StmtView::Expression { value } => neat(value),
        StmtView::If { token, condition, consequence, alternative } => token == TokenView::plain(
            TokenType::If,
        ) && neat(condition) && (match alternative {
            Some(b) => canonical_block(consequence, TokenType::Else) && canonical_block(
                b,
                TokenType::Endif,
            ),
            None => canonical_block(consequence, TokenType::Endif),
        }),
        StmtView::Function { token, ident, params, body, is_procedure } => token
            == TokenView::plain(opening_keyword(is_procedure)) && is_name(ident) && (forall|
            k: int,
        | 0 <= k < params.len() ==> is_name(#[trigger] params[k])) && canonical_block(
            body,
            closing_keyword(is_procedure),
        ),
        StmtView::Block { .. } => false,
        StmtView::Empty => false,
    }
}

/// Whether a block is one that the parser yields for its own canonical text
/// before the keyword `ender`: its statements are canonical, and its token is
/// the first token of its first statement or, if it has none, the keyword.
pub open spec fn canonical_block(b: BlockView, ender: TokenType) -> bool
    decreases b,
{
    all_canonical_statements(b.statements) && b.token == if b.statements.len() == 0 {
        TokenView::plain(ender)
    } else {
        statement_tokens(b.statements[0])[0]
    }
}

/// Whether all of `stmts` are canonical statements.
pub open spec fn all_canonical_statements(stmts: Seq<StmtView>) -> bool
    decreases stmts,
{
    stmts.len() == 0 || (canonical_statement(stmts[0]) && all_canonical_statements(
        stmts.drop_first(),
    ))
}

/// In the compact form of an expression, no `=` follows the first token.
proof fn lemma_compact_second(e: ExprView)
    requires
        parseable(e),
        compact(e).len() >= 2,
    ensures
        compact(e)[1].kind != TokenType::Equals,
    decreases e,
{
    match e {
        ExprView::Prefix { token, operator, subject } => {
            lemma_compact_starts(*subject);
            assert(compact(e)[1] == compact(*subject)[0]);
        },
        ExprView::Infix { token, operator, left, right } => {
            lemma_compact_starts(*left);
            if compact(*left).len() >= 2 {
                lemma_compact_second(*left);
                assert(compact(e)[1] == compact(*left)[1]);
            } else {
                assert(compact(e)[1] == token);
            }
        },
        _ => {},
    }
}

/// What the parser needs of the first tokens of a neat expression: it starts
/// like an operand, with no keyword of a statement, and no `=` follows its
/// first token.
proof fn lemma_neat_starts(e: ExprView)
    requires
        neat(e),
    ensures
        parseable(e),
        compact(e).len() >= 1,
        ({
            let first = compact(e)[0].kind;
            first == TokenType::Identifier || first == TokenType::True || first == TokenType::False
                || first == TokenType::NumberLiteral || first == TokenType::Plus || first
                == TokenType::Minus || first == TokenType::Not
        }),
        compact(e).len() >= 2 ==> compact(e)[1].kind != TokenType::Equals,
{
    lemma_canonical_is_parseable(e);
    lemma_compact_starts(e);
    if compact(e).len() >= 2 {
        lemma_compact_second(e);
    }
}

/// The parser passes the line break before a block that is not empty, and the
/// two line breaks that stand where a block is empty.
proof fn lemma_newlines_in_place(ts: TokenStream, i: int, empty: bool)
    requires
        ts.kind(i) == TokenType::Newline,
        ts.at(i + 2) is Ok,
        !empty ==> ts.kind(i + 1) != TokenType::Newline,
        empty ==> ts.kind(i + 1) == TokenType::Newline && ts.kind(i + 2) != TokenType::Newline
            && ts.at(i + 3) is Ok,
    ensures
        newlines(ts, i) == Ok::<nat, ParserError>(
            if empty {
                2
            } else {
                1
            },
        ),
{
    reveal_with_fuel(newlines, 3);
}

/// A canonical statement starts with a token that is no line break, no end of
/// input and no keyword that ends a block.
proof fn lemma_statement_starts(s: StmtView)
    requires
        canonical_statement(s),
    ensures
        statement_tokens(s).len() >= 1,
        ({
            let first = statement_tokens(s)[0].kind;
            &&& first != TokenType::Newline
            &&& first != TokenType::Eof
            &&& !ends_block(first)
        }),
{
    match s {
        StmtView::Expression { value } => {
            lemma_neat_starts(value);
        },
        _ => {},
    }
}

/// The step for an assignment.
proof fn lemma_assignment_in_place(ts: TokenStream, i: int, s: StmtView)
    requires
        s is Assign,
        canonical_statement(s),
        holds_at(ts, i, statement_tokens(s)),
        ts.at(i + statement_tokens(s).len()) is Ok,
        ts.kind(i + statement_tokens(s).len()) == TokenType::Newline || ts.kind(
            i + statement_tokens(s).len(),
        ) == TokenType::Eof,
    ensures
        statement(ts, i) == Ok::<Parsed<Option<StmtView>>, ParserError>(
            Parsed { value: Some(s), used: (statement_tokens(s).len() - 1) as nat },
        ),
{
    let value = s->Assign_value;
    let head = (if s->global {
        seq![TokenView::plain(TokenType::Global)]
    } else {
        Seq::empty()
    }) + seq![s->Assign_ident, TokenView::plain(TokenType::Equals)];
    let name = if s->global {
        i + 1
    } else {
        i
    };
    lemma_neat_starts(value);
    lemma_holds_at_parts(ts, i, head, compact(value));
    assert(ts.at(i + 0) == Ok::<TokenView, LexerError>(head[0]));
    assert(ts.at(i + 1) == Ok::<TokenView, LexerError>(head[1]));
    if s->global {
        assert(ts.at(i + 2) == Ok::<TokenView, LexerError>(head[2]));
    }
    assert(ts.at(name + 2 + 0) == Ok::<TokenView, LexerError>(compact(value)[0]));
    if compact(value).len() >= 2 {
        assert(ts.at(name + 2 + 1) == Ok::<TokenView, LexerError>(compact(value)[1]));
    }
    lemma_compact_form_parses_back(ts, name + 2, value, Precedence::Lowest);
    reveal(statement);
}

/// The step for `return`.
proof fn lemma_return_in_place(ts: TokenStream, i: int, s: StmtView)
    requires
        s is Return,
        canonical_statement(s),
        holds_at(ts, i, statement_tokens(s)),
        ts.at(i + statement_tokens(s).len()) is Ok,
        ts.kind(i + statement_tokens(s).len()) == TokenType::Newline || ts.kind(
            i + statement_tokens(s).len(),
        ) == TokenType::Eof,
    ensures
        statement(ts, i) == Ok::<Parsed<Option<StmtView>>, ParserError>(
            Parsed { value: Some(s), used: (statement_tokens(s).len() - 1) as nat },
        ),
{
    let head = seq![TokenView::plain(TokenType::Return)];
    assert(ts.at(i + 0) == Ok::<TokenView, LexerError>(statement_tokens(s)[0]));
    match s->Return_value {
        Some(value) => {
            lemma_neat_starts(value);
            lemma_holds_at_parts(ts, i, head, compact(value));
            assert(ts.at(i + 1 + 0) == Ok::<TokenView, LexerError>(compact(value)[0]));
            if compact(value).len() >= 2 {
                assert(ts.at(i + 1 + 1) == Ok::<TokenView, LexerError>(compact(value)[1]));
            }
            lemma_compact_form_parses_back(ts, i + 1, value, Precedence::Lowest);
        },
        None => {},
    }
    reveal(statement);
}

/// The step for an expression that stands as a statement.
proof fn lemma_expression_in_place(ts: TokenStream, i: int, s: StmtView)
    requires
        s is Expression,
        canonical_statement(s),
        holds_at(ts, i, statement_tokens(s)),
        ts.at(i + statement_tokens(s).len()) is Ok,
        ts.kind(i + statement_tokens(s).len()) == TokenType::Newline || ts.kind(
            i + statement_tokens(s).len(),
        ) == TokenType::Eof,
    ensures
        statement(ts, i) == Ok::<Parsed<Option<StmtView>>, ParserError>(
            Parsed { value: Some(s), used: (statement_tokens(s).len() - 1) as nat },
        ),
{
    let value = s->Expression_value;
    lemma_neat_starts(value);
    assert(ts.at(i + 0) == Ok::<TokenView, LexerError>(compact(value)[0]));
    if compact(value).len() >= 2 {
        assert(ts.at(i + 1) == Ok::<TokenView, LexerError>(compact(value)[1]));
    }
    lemma_compact_form_parses_back(ts, i, value, Precedence::Lowest);
    reveal(statement);
}

/// The parameters of a declaration have a token each, and a comma between
/// one and the next.
proof fn lemma_parameter_tokens_len(params: Seq<TokenView>)
    ensures
        params.len() >= 1 ==> parameter_tokens(params).len() >= 1,
        params.len() >= 1 ==> parameter_tokens(params)[0] == params[0],
    decreases params.len(),
{
    if params.len() >= 2 {
        lemma_parameter_tokens_len(params.drop_first());
    }
}

/// Where the parameters of a declaration stand, with commas between them and
/// the closing parenthesis behind them, the parser reads exactly these
/// parameters and ends at the parenthesis.
proof fn lemma_parameters_in_place(ts: TokenStream, i: int, params: Seq<TokenView>)
    requires
        forall|k: int| 0 <= k < params.len() ==> is_name(#[trigger] params[k]),
        holds_at(ts, i + 1, parameter_tokens(params)),
        ts.kind(i + 1 + parameter_tokens(params).len()) == TokenType::RParenthasis,
        ts.at(i + 2 + parameter_tokens(params).len()) is Ok,
    ensures
        parameters(ts, i) == Ok::<Parsed<Seq<TokenView>>, ParserError>(
            Parsed { value: params, used: parameter_tokens(params).len() + 1 },
        ),
    decreases params.len(),
{
    let tokens = parameter_tokens(params);
    if params.len() == 0 {
        assert(params =~= Seq::<TokenView>::empty());
    } else if params.len() == 1 {
        assert(ts.at(i + 1 + 0) == Ok::<TokenView, LexerError>(tokens[0]));
        assert(is_name(params[0]));
        assert(seq![params[0]] =~= params);
    } else {
        let rest = params.drop_first();
        let head = seq![params[0], TokenView::plain(TokenType::Comma)];
        lemma_holds_at_parts(ts, i + 1, head, parameter_tokens(rest));
        assert(ts.at(i + 1 + 0) == Ok::<TokenView, LexerError>(head[0]));
        assert(ts.at(i + 1 + 1) == Ok::<TokenView, LexerError>(head[1]));
        assert(is_name(params[0]));
        lemma_parameter_tokens_len(rest);
        assert(ts.at(i + 3 + 0) == Ok::<TokenView, LexerError>(parameter_tokens(rest)[0]));
        assert forall|k: int| 0 <= k < rest.len() implies is_name(#[trigger] rest[k]) by {
            assert(rest[k] == params[k + 1]);
        }
        lemma_parameters_in_place(ts, i + 2, rest);
        assert(seq![params[0]] + rest =~= params);
    }
}

/// The step for the end of a block.
proof fn lemma_block_ends(ts: TokenStream, i: int)
    requires
        ends_block(ts.kind(i)) || ts.kind(i) == TokenType::Eof,
    ensures
        block_statements(ts, i) == Ok::<Parsed<Seq<StmtView>>, ParserError>(
            Parsed { value: Seq::empty(), used: 0 },
        ),
{
    reveal(block_statements);
}

/// The step for a statement of a block and what follows it.
proof fn lemma_block_goes_on(
    ts: TokenStream,
    i: int,
    first: StmtView,
    used: nat,
    rest: Seq<StmtView>,
    more: nat,
)
    requires
        !ends_block(ts.kind(i)),
        ts.kind(i) != TokenType::Eof,
        statement(ts, i) == Ok::<Parsed<Option<StmtView>>, ParserError>(
            Parsed { value: Some(first), used },
        ),
        ts.at(i + used + 2) is Ok,
        newlines(ts, i + used + 1) == Ok::<nat, ParserError>(1),
        block_statements(ts, i + used + 2) == Ok::<Parsed<Seq<StmtView>>, ParserError>(
            Parsed { value: rest, used: more },
        ),
    ensures
        block_statements(ts, i) == Ok::<Parsed<Seq<StmtView>>, ParserError>(
            Parsed { value: seq![first] + rest, used: used + 2 + more },
        ),
{
    reveal(block_statements);
    reveal(statement);
}

/// The step from the statements of a block to the block.
proof fn lemma_block_of_statements(ts: TokenStream, i: int, stmts: Seq<StmtView>, used: nat)
    requires
        block_statements(ts, i) == Ok::<Parsed<Seq<StmtView>>, ParserError>(
            Parsed { value: stmts, used },
        ),
    ensures
        block(ts, i) == Ok::<Parsed<BlockView>, ParserError>(
            Parsed { value: BlockView { token: ts.token(i), statements: stmts }, used },
        ),
{
    reveal(block);
    reveal(block_statements);
}

/// The step for the condition of an `if` statement.
proof fn lemma_condition_in_place(ts: TokenStream, i: int, condition: ExprView, gap: nat)
    requires
        neat(condition),
        holds_at(ts, i, compact(condition)),
        ts.kind(i + compact(condition).len()) == TokenType::Then,
        ts.at(i + compact(condition).len() + 1) is Ok,
        ts.at(i + compact(condition).len() + 2) is Ok,
        newlines(ts, i + compact(condition).len() + 1) == Ok::<nat, ParserError>(gap),
    ensures
        if_condition(ts, i) == Ok::<Parsed<ExprView>, ParserError>(
            Parsed { value: condition, used: compact(condition).len() + 1 + gap },
        ),
{
    lemma_neat_starts(condition);
    lemma_compact_form_parses_back(ts, i, condition, Precedence::Lowest);
    reveal(if_condition);
}

/// The step for the second branch of an `if` statement.
proof fn lemma_else_in_place(ts: TokenStream, i: int, b: BlockView, gap: nat, used: nat)
    requires
        ts.kind(i) == TokenType::Else,
        ts.at(i + 2) is Ok,
        newlines(ts, i + 1) == Ok::<nat, ParserError>(gap),
        block(ts, i + 1 + gap) == Ok::<Parsed<BlockView>, ParserError>(Parsed { value: b, used }),
        ts.kind(i + 1 + gap + used) == TokenType::Endif,
    ensures
        else_branch(ts, i) == Ok::<Parsed<BlockView>, ParserError>(
            Parsed { value: b, used: 1 + gap + used },
        ),
{
    reveal(else_branch);
    reveal(block);
}

/// The step for an `if` statement.
proof fn lemma_if_in_place(
    ts: TokenStream,
    i: int,
    condition: Parsed<ExprView>,
    consequence: Parsed<BlockView>,
    alternative: Option<Parsed<BlockView>>,
)
    requires
        ts.kind(i) == TokenType::If,
        ts.at(i + 2) is Ok,
        if_condition(ts, i + 1) == Ok::<Parsed<ExprView>, ParserError>(condition),
        block(ts, i + 1 + condition.used) == Ok::<Parsed<BlockView>, ParserError>(consequence),
        alternative is None ==> ts.kind(i + 1 + condition.used + consequence.used)
            == TokenType::Endif,
        alternative is Some ==> ts.kind(i + 1 + condition.used + consequence.used)
            == TokenType::Else && else_branch(ts, i + 1 + condition.used + consequence.used) == Ok::<
            Parsed<BlockView>,
            ParserError,
        >(alternative->0),
    ensures
        if_statement(ts, i) == Ok::<Parsed<StmtView>, ParserError>(
            Parsed {
                value: StmtView::If {
                    token: ts.token(i),
                    condition: condition.value,
                    consequence: consequence.value,
                    alternative: match alternative {
                        Some(b) => Some(b.value),
                        None => None,
                    },
                },
                used: 1 + condition.used + consequence.used + match alternative {
                    Some(b) => b.used,
                    None => 0,
                },
            },
        ),
{
    reveal(if_statement);
    reveal(block);
    reveal(else_branch);
}

/// The step for the name and the parameters of a declaration.
proof fn lemma_signature_in_place(
    ts: TokenStream,
    i: int,
    ident: TokenView,
    params: Seq<TokenView>,
    gap: nat,
)
    requires
        is_name(ident),
        ts.at(i) == Ok::<TokenView, LexerError>(ident),
        ts.kind(i + 1) == TokenType::LParenthasis,
        ts.at(i + 2) is Ok,
        parameters(ts, i + 1) == Ok::<Parsed<Seq<TokenView>>, ParserError>(
            Parsed { value: params, used: parameter_tokens(params).len() + 1 },
        ),
        ts.at(i + 4 + parameter_tokens(params).len()) is Ok,
        newlines(ts, i + 3 + parameter_tokens(params).len()) == Ok::<nat, ParserError>(gap),
    ensures
        signature(ts, i) == Ok::<Parsed<Signature>, ParserError>(
            Parsed {
                value: Signature { ident, params },
                used: parameter_tokens(params).len() + 3 + gap,
            },
        ),
{
    reveal(signature);
}

/// The step for a declaration.
proof fn lemma_function_in_place(
    ts: TokenStream,
    i: int,
    head: Parsed<Signature>,
    body: Parsed<BlockView>,
)
    requires
        ts.kind(i) == TokenType::Function || ts.kind(i) == TokenType::Procedure,
        ts.at(i + 2) is Ok,
        signature(ts, i + 1) == Ok::<Parsed<Signature>, ParserError>(head),
        block(ts, i + 1 + head.used) == Ok::<Parsed<BlockView>, ParserError>(body),
        ts.kind(i + 1 + head.used + body.used) == closing_keyword(
            ts.kind(i) == TokenType::Procedure,
        ),
    ensures
        function_statement(ts, i) == Ok::<Parsed<StmtView>, ParserError>(
            Parsed {
                value: StmtView::Function {
                    token: ts.token(i),
                    ident: head.value.ident,
                    params: head.value.params,
                    body: body.value,
                    is_procedure: ts.kind(i) == TokenType::Procedure,
                },
                used: 1 + head.used + body.used,
            },
        ),
{
    reveal(function_statement);
    reveal(block);
}

/// The step from an `if` statement or a declaration to the statement.
proof fn lemma_statement_of_compound(ts: TokenStream, i: int, s: Parsed<StmtView>)
    requires
        ts.kind(i) == TokenType::If && if_statement(ts, i) == Ok::<Parsed<StmtView>, ParserError>(
            s,
        ) || (ts.kind(i) == TokenType::Function || ts.kind(i) == TokenType::Procedure)
            && function_statement(ts, i) == Ok::<Parsed<StmtView>, ParserError>(s),
    ensures
        statement(ts, i) == Ok::<Parsed<Option<StmtView>>, ParserError>(
            Parsed { value: Some(s.value), used: s.used },
        ),
{
    reveal(statement);
    reveal(if_statement);
    reveal(function_statement);
}

/// The tokens of the second branch of an `if` statement, with `else` before
/// them and a line break behind them; none if there is no second branch.
pub open spec fn else_tokens(alternative: Option<BlockView>) -> Seq<TokenView> {
    match alternative {
        Some(b) => seq![TokenView::plain(TokenType::Else), line_break()] + block_tokens(
            b.statements,
        ) + seq![line_break()],
        None => Seq::empty(),
    }
}

/// Where the parts of an `if` statement stand.
proof fn lemma_if_parts(ts: TokenStream, i: int, s: StmtView)
    requires
        s is If,
        holds_at(ts, i, statement_tokens(s)),
    ensures
        ({
            let m = compact(s->condition).len();
            let t = block_tokens(s->consequence.statements).len();
            let end = i + 4 + m + t;
            &&& ts.at(i) == Ok::<TokenView, LexerError>(TokenView::plain(TokenType::If))
            &&& holds_at(ts, i + 1, compact(s->condition))
            &&& ts.at(i + 1 + m) == Ok::<TokenView, LexerError>(TokenView::plain(TokenType::Then))
            &&& ts.at(i + 2 + m) == Ok::<TokenView, LexerError>(line_break())
            &&& holds_at(ts, i + 3 + m, block_tokens(s->consequence.statements))
            &&& ts.at(i + 3 + m + t) == Ok::<TokenView, LexerError>(line_break())
            &&& match s->alternative {
                None => {
                    &&& ts.at(end) == Ok::<TokenView, LexerError>(
                        TokenView::plain(TokenType::Endif),
                    )
                    &&& statement_tokens(s).len() == m + t + 5
                },
                Some(b) => {
                    let u = block_tokens(b.statements).len();
                    &&& ts.at(end) == Ok::<TokenView, LexerError>(TokenView::plain(TokenType::Else))
                    &&& ts.at(end + 1) == Ok::<TokenView, LexerError>(line_break())
                    &&& holds_at(ts, end + 2, block_tokens(b.statements))
                    &&& ts.at(end + 2 + u) == Ok::<TokenView, LexerError>(line_break())
                    &&& ts.at(end + 3 + u) == Ok::<TokenView, LexerError>(
                        TokenView::plain(TokenType::Endif),
                    )
                    &&& statement_tokens(s).len() == m + t + u + 8
                },
            }
        }),
{
    let a = seq![TokenView::plain(TokenType::If)];
    let c = compact(s->condition);
    let then = seq![TokenView::plain(TokenType::Then), line_break()];
    let first = block_tokens(s->consequence.statements);
    let br = seq![line_break()];
    let second = else_tokens(s->alternative);
    let z = seq![TokenView::plain(TokenType::Endif)];
    let m = c.len() as int;
    let t = first.len() as int;
    let end = i + 4 + m + t;
    assert(statement_tokens(s) == a + c + then + first + br + second + z);
    lemma_holds_at_parts(ts, i, a + c + then + first + br + second, z);
    lemma_holds_at_parts(ts, i, a + c + then + first + br, second);
    lemma_holds_at_parts(ts, i, a + c + then + first, br);
    lemma_holds_at_parts(ts, i, a + c + then, first);
    lemma_holds_at_parts(ts, i, a + c, then);
    lemma_holds_at_parts(ts, i, a, c);
    assert(ts.at(i + 0) == Ok::<TokenView, LexerError>(a[0]));
    assert(ts.at(i + 1 + m + 0) == Ok::<TokenView, LexerError>(then[0]));
    assert(ts.at(i + 1 + m + 1) == Ok::<TokenView, LexerError>(then[1]));
    assert(ts.at(i + 3 + m + t + 0) == Ok::<TokenView, LexerError>(br[0]));
    assert(ts.at(end + second.len() + 0) == Ok::<TokenView, LexerError>(z[0]));
    match s->alternative {
        None => {},
        Some(b) => {
            let e = seq![TokenView::plain(TokenType::Else), line_break()];
            let inner = block_tokens(b.statements);
            lemma_holds_at_parts(ts, end, e + inner, br);
            lemma_holds_at_parts(ts, end, e, inner);
            assert(ts.at(end + 0) == Ok::<TokenView, LexerError>(e[0]));
            assert(ts.at(end + 1) == Ok::<TokenView, LexerError>(e[1]));
            assert(ts.at(end + 2 + inner.len() + 0) == Ok::<TokenView, LexerError>(br[0]));
        },
    }
}

/// Where the parts of a declaration stand.
proof fn lemma_function_parts(ts: TokenStream, i: int, s: StmtView)
    requires
        s is Function,
        holds_at(ts, i, statement_tokens(s)),
    ensures
        ({
            let p = parameter_tokens(s->params).len();
            let t = block_tokens(s->body.statements).len();
            &&& ts.at(i) == Ok::<TokenView, LexerError>(
                TokenView::plain(opening_keyword(s->is_procedure)),
            )
            &&& ts.at(i + 1) == Ok::<TokenView, LexerError>(s->Function_ident)
            &&& ts.at(i + 2) == Ok::<TokenView, LexerError>(
                TokenView::plain(TokenType::LParenthasis),
            )
            &&& holds_at(ts, i + 3, parameter_tokens(s->params))
            &&& ts.at(i + 3 + p) == Ok::<TokenView, LexerError>(
                TokenView::plain(TokenType::RParenthasis),
            )
            &&& ts.at(i + 4 + p) == Ok::<TokenView, LexerError>(line_break())
            &&& holds_at(ts, i + 5 + p, block_tokens(s->body.statements))
            &&& ts.at(i + 5 + p + t) == Ok::<TokenView, LexerError>(line_break())
            &&& ts.at(i + 6 + p + t) == Ok::<TokenView, LexerError>(
                TokenView::plain(closing_keyword(s->is_procedure)),
            )
            &&& statement_tokens(s).len() == p + t + 7
        }),
{
    let a = seq![
        TokenView::plain(opening_keyword(s->is_procedure)),
        s->Function_ident,
        TokenView::plain(TokenType::LParenthasis),
    ];
    let ps = parameter_tokens(s->params);
    let b = seq![TokenView::plain(TokenType::RParenthasis), line_break()];
    let body = block_tokens(s->body.statements);
    let z = seq![line_break(), TokenView::plain(closing_keyword(s->is_procedure))];
    let p = ps.len() as int;
    let t = body.len() as int;
    assert(statement_tokens(s) == a + ps + b + body + z);
    lemma_holds_at_parts(ts, i, a + ps + b + body, z);
    lemma_holds_at_parts(ts, i, a + ps + b, body);
    lemma_holds_at_parts(ts, i, a + ps, b);
    lemma_holds_at_parts(ts, i, a, ps);
    assert(ts.at(i + 0) == Ok::<TokenView, LexerError>(a[0]));
    assert(ts.at(i + 1) == Ok::<TokenView, LexerError>(a[1]));
    assert(ts.at(i + 2) == Ok::<TokenView, LexerError>(a[2]));
    assert(ts.at(i + 3 + p + 0) == Ok::<TokenView, LexerError>(b[0]));
    assert(ts.at(i + 3 + p + 1) == Ok::<TokenView, LexerError>(b[1]));
    assert(ts.at(i + 5 + p + t + 0) == Ok::<TokenView, LexerError>(z[0]));
    assert(ts.at(i + 5 + p + t + 1) == Ok::<TokenView, LexerError>(z[1]));
}

/// How many line breaks stand before a block: one if it holds a statement,
/// and two if it is empty.
pub open spec fn gap(b: BlockView) -> nat {
    if b.statements.len() == 0 {
        2
    } else {
        1
    }
}

/// Where a canonical statement stands, with the end of the line or of the
/// input behind it, the parser yields exactly this statement, and it ends at
/// the last token of the statement.
pub proof fn lemma_statement_in_place(ts: TokenStream, i: int, s: StmtView)
    requires
        canonical_statement(s),
        holds_at(ts, i, statement_tokens(s)),
        ts.at(i + statement_tokens(s).len()) is Ok,
        ts.kind(i + statement_tokens(s).len()) == TokenType::Newline || ts.kind(
            i + statement_tokens(s).len(),
        ) == TokenType::Eof,
    ensures
        statement_tokens(s).len() >= 1,
        statement(ts, i) == Ok::<Parsed<Option<StmtView>>, ParserError>(
            Parsed { value: Some(s), used: (statement_tokens(s).len() - 1) as nat },
        ),
    decreases s, 2nat,
{
    lemma_statement_starts(s);
    match s {
        StmtView::Assign { .. } => {
            lemma_assignment_in_place(ts, i, s);
        },
        StmtView::Return { .. } => {
            lemma_return_in_place(ts, i, s);
        },
        StmtView::Expression { .. } => {
            lemma_expression_in_place(ts, i, s);
        },
        StmtView::If { token, condition, consequence, alternative } => {
            let m = compact(condition).len() as int;
            let t = block_tokens(consequence.statements).len() as int;
            let end = i + 4 + m + t;
            lemma_if_parts(ts, i, s);
            lemma_neat_starts(condition);
            assert(ts.at(i + 1 + 0) == Ok::<TokenView, LexerError>(compact(condition)[0]));
            let first = if alternative is Some {
                TokenType::Else
            } else {
                TokenType::Endif
            };
            lemma_block_behind_break(ts, i + 2 + m, consequence, first);
            let g = gap(consequence);
            lemma_condition_in_place(ts, i + 1, condition, g);
            let c = Parsed { value: condition, used: (m + 1 + g) as nat };
            let b = Parsed { value: consequence, used: (2 + t - g) as nat };
            match alternative {
                None => {
                    lemma_if_in_place(ts, i, c, b, None);
                    lemma_statement_of_compound(
                        ts,
                        i,
                        Parsed { value: s, used: (m + t + 4) as nat },
                    );
                },
                Some(other) => {
                    let u = block_tokens(other.statements).len() as int;
                    lemma_block_behind_break(ts, end + 1, other, TokenType::Endif);
                    let h = gap(other);
                    lemma_else_in_place(ts, end, other, h, (2 + u - h) as nat);
                    let a = Parsed { value: other, used: (3 + u) as nat };
                    lemma_if_in_place(ts, i, c, b, Some(a));
                    lemma_statement_of_compound(
                        ts,
                        i,
                        Parsed { value: s, used: (m + t + u + 7) as nat },
                    );
                },
            }
        },
        StmtView::Function { token, ident, params, body, is_procedure } => {
            let p = parameter_tokens(params).len() as int;
            let t = block_tokens(body.statements).len() as int;
            lemma_function_parts(ts, i, s);
            lemma_parameters_in_place(ts, i + 2, params);
            lemma_block_behind_break(ts, i + 4 + p, body, closing_keyword(is_procedure));
            let g = gap(body);
            if p > 0 {
                assert(ts.at(i + 3 + 0) == Ok::<TokenView, LexerError>(
                    parameter_tokens(params)[0],
                ));
            }
            lemma_signature_in_place(ts, i + 1, ident, params, g);
            let head = Parsed {
                value: Signature { ident, params },
                used: (p + 3 + g) as nat,
            };
            let b = Parsed { value: body, used: (2 + t - g) as nat };
            lemma_function_in_place(ts, i, head, b);
            lemma_statement_of_compound(ts, i, Parsed { value: s, used: (p + t + 6) as nat });
        },
        _ => {},
    }
}

/// Where a line break stands, behind it the statements of a canonical block, a
/// line break and the keyword that ends the block, the parser passes the line
/// breaks before the block, reads exactly this block and ends at the keyword.
proof fn lemma_block_behind_break(ts: TokenStream, i: int, b: BlockView, ender: TokenType)
    requires
        canonical_block(b, ender),
        ends_block(ender),
        ts.kind(i) == TokenType::Newline,
        holds_at(ts, i + 1, block_tokens(b.statements)),
        ts.kind(i + 1 + block_tokens(b.statements).len()) == TokenType::Newline,
        ts.at(i + 2 + block_tokens(b.statements).len()) == Ok::<TokenView, LexerError>(
            TokenView::plain(ender),
        ),
        ts.at(i + 3 + block_tokens(b.statements).len()) is Ok,
    ensures
        newlines(ts, i) == Ok::<nat, ParserError>(gap(b)),
        block(ts, i + gap(b)) == Ok::<Parsed<BlockView>, ParserError>(
            Parsed { value: b, used: (2 + block_tokens(b.statements).len() - gap(b)) as nat },
        ),
    decreases b, 1nat,
{
    let stmts = b.statements;
    let t = block_tokens(stmts).len() as int;
    if stmts.len() == 0 {
        assert(stmts =~= Seq::<StmtView>::empty());
        lemma_newlines_in_place(ts, i, true);
        lemma_block_ends(ts, i + 2);
        lemma_block_of_statements(ts, i + 2, stmts, 0);
    } else {
        lemma_block_starts(stmts);
        assert(ts.at(i + 1 + 0) == Ok::<TokenView, LexerError>(block_tokens(stmts)[0]));
        if t >= 2 {
            assert(ts.at(i + 1 + 1) == Ok::<TokenView, LexerError>(block_tokens(stmts)[1]));
        }
        lemma_newlines_in_place(ts, i, false);
        lemma_block_in_place(ts, i + 1, stmts);
        lemma_block_of_statements(ts, i + 1, stmts, (t + 1) as nat);
    }
}

/// The tokens of a run of canonical statements start with those of the first
/// statement.
proof fn lemma_block_starts(stmts: Seq<StmtView>)
    requires
        stmts.len() >= 1,
        all_canonical_statements(stmts),
    ensures
        block_tokens(stmts).len() >= statement_tokens(stmts[0]).len(),
        statement_tokens(stmts[0]).len() >= 1,
        block_tokens(stmts)[0] == statement_tokens(stmts[0])[0],
        ({
            let first = block_tokens(stmts)[0].kind;
            &&& first != TokenType::Newline
            &&& first != TokenType::Eof
            &&& !ends_block(first)
        }),
{
    lemma_statement_starts(stmts[0]);
}

/// Where the statements of a canonical block stand, a line break behind them
/// and behind it a keyword that ends a block, the parser reads exactly these
/// statements and ends at the keyword.
proof fn lemma_block_in_place(ts: TokenStream, i: int, stmts: Seq<StmtView>)
    requires
        stmts.len() >= 1,
        all_canonical_statements(stmts),
        holds_at(ts, i, block_tokens(stmts)),
        ts.kind(i + block_tokens(stmts).len()) == TokenType::Newline,
        ends_block(ts.kind(i + 1 + block_tokens(stmts).len())),
        ts.at(i + 2 + block_tokens(stmts).len()) is Ok,
    ensures
        block_statements(ts, i) == Ok::<Parsed<Seq<StmtView>>, ParserError>(
            Parsed { value: stmts, used: block_tokens(stmts).len() + 1 },
        ),
    decreases stmts, 0nat,
{
    let first = stmts[0];
    let rest = stmts.drop_first();
    let n = statement_tokens(first).len() as int;
    lemma_block_starts(stmts);
    assert(ts.at(i + 0) == Ok::<TokenView, LexerError>(block_tokens(stmts)[0]));
    if stmts.len() == 1 {
        lemma_statement_in_place(ts, i, first);
        lemma_newlines_in_place(ts, i + n, false);
        lemma_block_ends(ts, i + n + 1);
        lemma_block_goes_on(ts, i, first, (n - 1) as nat, Seq::empty(), 0);
        assert(seq![first] + Seq::<StmtView>::empty() =~= stmts);
    } else {
        let br = seq![line_break()];
        let others = block_tokens(rest);
        lemma_holds_at_parts(ts, i, statement_tokens(first) + br, others);
        lemma_holds_at_parts(ts, i, statement_tokens(first), br);
        assert(ts.at(i + n + 0) == Ok::<TokenView, LexerError>(br[0]));
        lemma_block_starts(rest);
        assert(ts.at(i + n + 1 + 0) == Ok::<TokenView, LexerError>(others[0]));
        assert(ts.at(i + n + 2) is Ok) by {
            if others.len() >= 2 {
                assert(ts.at(i + n + 1 + 1) == Ok::<TokenView, LexerError>(others[1]));
            }
        }
        lemma_statement_in_place(ts, i, first);
        lemma_newlines_in_place(ts, i + n, false);
        lemma_block_in_place(ts, i + n + 1, rest);
        lemma_block_goes_on(ts, i, first, (n - 1) as nat, rest, others.len() + 1);
        assert(seq![first] + rest =~= stmts);
    }
}

/// The step for the line break before a statement.
proof fn lemma_statement_behind_break(
    ts: TokenStream,
    i: int,
    found: Parsed<Option<StmtView>>,
)
    requires
        ts.kind(i) == TokenType::Newline,
        ts.at(i + 2) is Ok,
        statement(ts, i + 1) == Ok::<Parsed<Option<StmtView>>, ParserError>(found),
    ensures
        statement(ts, i) == Ok::<Parsed<Option<StmtView>>, ParserError>(
            Parsed { value: found.value, used: 1 + found.used },
        ),
{
    reveal(statement);
}

/// The step for a statement of a program and what follows it.
proof fn lemma_program_goes_on(
    ts: TokenStream,
    i: int,
    first: StmtView,
    used: nat,
    rest: Seq<StmtView>,
)
    requires
        ts.kind(i) != TokenType::Eof,
        statement(ts, i) == Ok::<Parsed<Option<StmtView>>, ParserError>(
            Parsed { value: Some(first), used },
        ),
        ts.at(i + used + 2) is Ok,
        progress(ts, i + used + 1).statements == rest,
        progress(ts, i + used + 1).failure is None,
    ensures
        progress(ts, i).statements == seq![first] + rest,
        progress(ts, i).failure is None,
{
}

/// Where the statements of a canonical program stand, behind a line break if
/// `behind_break` says so, and the end of the input behind them, the parser
/// yields exactly these statements.
proof fn lemma_program_in_place(ts: TokenStream, i: int, behind_break: bool, stmts: Seq<StmtView>)
    requires
        stmts.len() >= 1,
        all_canonical_statements(stmts),
        behind_break ==> ts.kind(i) == TokenType::Newline,
        holds_at(
            ts,
            if behind_break {
                i + 1
            } else {
                i
            },
            block_tokens(stmts),
        ),
        ({
            let end = i + block_tokens(stmts).len() + if behind_break {
                1int
            } else {
                0int
            };
            &&& ts.kind(end) == TokenType::Eof
            &&& ts.kind(end + 1) == TokenType::Eof
            &&& ts.at(end) is Ok
            &&& ts.at(end + 1) is Ok
            &&& ts.at(end + 2) is Ok
        }),
    ensures
        progress(ts, i).statements == stmts,
        progress(ts, i).failure is None,
    decreases stmts,
{
    let start = if behind_break {
        i + 1
    } else {
        i
    };
    let first = stmts[0];
    let rest = stmts.drop_first();
    let n = statement_tokens(first).len() as int;
    lemma_block_starts(stmts);
    assert(ts.at(start + 0) == Ok::<TokenView, LexerError>(block_tokens(stmts)[0]));
    if stmts.len() == 1 {
        lemma_statement_in_place(ts, start, first);
        assert(rest =~= Seq::<StmtView>::empty());
        assert(progress(ts, start + n).statements == rest && progress(ts, start + n).failure
            is None);
        assert(seq![first] + rest =~= stmts);
    } else {
        let br = seq![line_break()];
        let others = block_tokens(rest);
        lemma_holds_at_parts(ts, start, statement_tokens(first) + br, others);
        lemma_holds_at_parts(ts, start, statement_tokens(first), br);
        assert(ts.at(start + n + 0) == Ok::<TokenView, LexerError>(br[0]));
        lemma_block_starts(rest);
        assert(ts.at(start + n + 1 + 0) == Ok::<TokenView, LexerError>(others[0]));
        lemma_statement_in_place(ts, start, first);
        lemma_program_in_place(ts, start + n, true, rest);
        assert(seq![first] + rest =~= stmts);
    }
    let found = Parsed { value: Some(first), used: (n - 1) as nat };
    if behind_break {
        if n >= 2 {
            assert(ts.at(start + 1) == Ok::<TokenView, LexerError>(block_tokens(stmts)[1])) by {
                lemma_block_starts(stmts);
                assert(ts.at(start + 1) == Ok::<TokenView, LexerError>(block_tokens(stmts)[1]));
            }
        }
        assert(ts.at(i + 2) is Ok);
        lemma_statement_behind_break(ts, i, found);
        lemma_program_goes_on(ts, i, first, n as nat, rest);
    } else {
        lemma_program_goes_on(ts, i, first, (n - 1) as nat, rest);
    }
}

/// A stream that holds the tokens of a canonical program and nothing else is
/// this program.
pub proof fn lemma_program_of_its_tokens(ts: TokenStream, stmts: Seq<StmtView>)
    requires
        all_canonical_statements(stmts),
        ts == (TokenStream {
            tokens: block_tokens(stmts) + seq![TokenView::plain(TokenType::Eof)],
            failure: None,
        }),
    ensures
        program(ts) == Ok::<Seq<StmtView>, ParserError>(stmts),
{
    let tokens = block_tokens(stmts);
    let n = tokens.len() as int;
    assert(ts.tokens[n] == TokenView::plain(TokenType::Eof));
    if stmts.len() == 0 {
        assert(stmts =~= Seq::<StmtView>::empty());
    } else {
        assert forall|k: int| 0 <= k < n implies #[trigger] ts.at(0int + k) == Ok::<
            TokenView,
            LexerError,
        >(tokens[k]) by {
            assert(ts.tokens[k] == tokens[k]);
        }
        lemma_block_starts(stmts);
        assert(ts.at(0int + 0) == Ok::<TokenView, LexerError>(tokens[0]));
        lemma_program_in_place(ts, 0, false, stmts);
    }
}

} // verus!
