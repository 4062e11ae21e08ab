use super::compact::compact;
use super::compact_text::{lemma_compact_text_starts, lemma_lex_compact};
use super::grammar::program;
use super::bracketed_text::{
    follows_operator, lemma_lex_callee, lemma_lex_mark, lemma_name_is_ascii,
    lemma_rendered_is_ascii,
};
use super::rules::ParserError;
use super::statement_tokens::{
    all_canonical_statements, block_tokens, canonical_statement, closing_keyword, else_tokens,
    lemma_program_of_its_tokens, line_break, neat, opening_keyword, parameter_tokens,
    statement_tokens,
};
use super::stream::{
    lemma_behind_parts, lemma_lex_at_end, lemma_lex_chain, lemma_lex_step, lex,
};
use crate::lexer::{
    byte_at, is_letter, is_name, is_word_char, lemma_keyword_table, lemma_placed_parts, lemma_scan_comparison,
    lemma_scan_punctuation, lemma_scan_word, placed, spaces, ByteClass, TokenType, TokenView,
};
use crate::syntax::{
    render_expr, render_names, render_stmt, render_stmts, BlockView, ExprView, StmtView,
};
use vstd::prelude::*;
use vstd::string::StringSliceAdditionalSpecFns;
use vstd::utf8::{is_ascii_chars, is_ascii_chars_encode_utf8};

verus! {

/// How a keyword of a statement is spelled.
pub open spec fn spelling(kind: TokenType) -> Seq<char> {
    match kind {
        TokenType::Global => "global"@,
        TokenType::Return => "return"@,
        TokenType::If => "if"@,
        TokenType::Then => "then"@,
        TokenType::Else => "else"@,
        TokenType::Endif => "endif"@,
        TokenType::Function => "function"@,
        TokenType::Procedure => "procedure"@,
        TokenType::Endfunction => "endfunction"@,
        TokenType::Endprocedure => "endprocedure"@,
        _ => Seq::empty(),
    }
}

/// Whether a token of this kind is a keyword of a statement.
pub open spec fn is_statement_keyword(kind: TokenType) -> bool {
    kind == TokenType::Global || kind == TokenType::Return || kind == TokenType::If || kind
        == TokenType::Then || kind == TokenType::Else || kind == TokenType::Endif || kind
        == TokenType::Function || kind == TokenType::Procedure || kind == TokenType::Endfunction
        || kind == TokenType::Endprocedure
}

/// The spelling of a keyword is a word of letters.
proof fn lemma_spelling_is_a_word(kind: TokenType)
    requires
        is_statement_keyword(kind),
    ensures
        spelling(kind).len() >= 2,
        is_letter(spelling(kind)[0] as u8),
        forall|k: int|
            0 <= k < spelling(kind).len() ==> ByteClass::Word.holds(#[trigger] spelling(kind)[k] as u8)
                && (spelling(kind)[k] as u8) as char == spelling(kind)[k],
        is_ascii_chars(spelling(kind)),
{
    reveal_strlit("global");
    reveal_strlit("return");
    reveal_strlit("if");
    reveal_strlit("then");
    reveal_strlit("else");
    reveal_strlit("endif");
    reveal_strlit("function");
    reveal_strlit("procedure");
    reveal_strlit("endfunction");
    reveal_strlit("endprocedure");
}

/// How long the keywords of statements are.
proof fn lemma_spelling_lengths()
    ensures
        spelling(TokenType::Global).len() == 6,
        spelling(TokenType::Return).len() == 6,
        spelling(TokenType::If).len() == 2,
        spelling(TokenType::Then).len() == 4,
        spelling(TokenType::Else).len() == 4,
        spelling(TokenType::Endif).len() == 5,
        spelling(TokenType::Function).len() == 8,
        spelling(TokenType::Procedure).len() == 9,
        spelling(TokenType::Endfunction).len() == 11,
        spelling(TokenType::Endprocedure).len() == 12,
{
    reveal_strlit("global");
    reveal_strlit("return");
    reveal_strlit("if");
    reveal_strlit("then");
    reveal_strlit("else");
    reveal_strlit("endif");
    reveal_strlit("function");
    reveal_strlit("procedure");
    reveal_strlit("endfunction");
    reveal_strlit("endprocedure");
}

/// The step for a keyword of a statement.
proof fn lemma_lex_keyword(src: Seq<u8>, pos: int, start: int, kind: TokenType)
    requires
        is_statement_keyword(kind),
        spaces(src, pos, start),
        placed(src, start, spelling(kind)),
        !ByteClass::Word.holds(byte_at(src, start + spelling(kind).len())),
    ensures
        lex(src, pos) == lex(src, start + spelling(kind).len()).behind(
            seq![TokenView::plain(kind)],
        ),
{
    lemma_spelling_is_a_word(kind);
    lemma_keyword_table();
    lemma_scan_word(src, pos, start, spelling(kind));
    lemma_lex_step(src, pos);
}

/// The step for a line break.
proof fn lemma_lex_break(src: Seq<u8>, pos: int)
    requires
        0 <= pos < src.len(),
        src[pos] == '\n' as u8,
    ensures
        lex(src, pos) == lex(src, pos + 1).behind(seq![line_break()]),
{
    lemma_scan_punctuation(src, pos, pos);
    lemma_lex_step(src, pos);
}

/// The step for the `=` of an assignment.
proof fn lemma_lex_equals(src: Seq<u8>, pos: int)
    requires
        0 <= pos < src.len(),
        src[pos] == '=' as u8,
        follows_operator(byte_at(src, pos + 1)),
    ensures
        lex(src, pos) == lex(src, pos + 1).behind(seq![TokenView::plain(TokenType::Equals)]),
{
    lemma_scan_comparison(src, pos, pos);
    lemma_lex_step(src, pos);
}

/// The names of parameters are written one behind the other: the first, and
/// behind a comma and a space the others.
proof fn lemma_render_names_from_the_front(names: Seq<TokenView>)
    requires
        names.len() >= 2,
    ensures
        render_names(names) == names[0].name() + ", "@ + render_names(names.drop_first()),
    decreases names.len(),
{
    let front = names.drop_last();
    let back = names.drop_first();
    let first = names[0].name();
    let last = names.last().name();
    assert(render_names(names) == render_names(front) + ", "@ + last);
    assert(front[0] == names[0]);
    assert(back.last() == names.last());
    if names.len() == 2 {
        assert(render_names(front) == first);
        assert(back[0] == names.last());
        assert(render_names(back) == last);
    } else {
        lemma_render_names_from_the_front(front);
        assert(front.drop_first() =~= back.drop_last());
        let middle = render_names(back.drop_last());
        assert(render_names(back) == middle + ", "@ + last);
        assert((first + ", "@ + middle) + ", "@ + last =~= first + ", "@ + (middle + ", "@ + last));
    }
}

/// The statements of a block are written one behind the other: the first, and
/// behind a line break the others.
proof fn lemma_render_stmts_from_the_front(stmts: Seq<StmtView>)
    requires
        stmts.len() >= 2,
    ensures
        render_stmts(stmts) == render_stmt(stmts[0]) + "\n"@ + render_stmts(stmts.drop_first()),
    decreases stmts.len(),
{
    let front = stmts.drop_last();
    let back = stmts.drop_first();
    let first = render_stmt(stmts[0]);
    let last = render_stmt(stmts.last());
    assert(render_stmts(stmts) == render_stmts(front) + "\n"@ + last);
    assert(front[0] == stmts[0]);
    assert(back.last() == stmts.last());
    if stmts.len() == 2 {
        assert(render_stmts(front) == first);
        assert(back[0] == stmts.last());
        assert(render_stmts(back) == last);
    } else {
        lemma_render_stmts_from_the_front(front);
        assert(front.drop_first() =~= back.drop_last());
        let middle = render_stmts(back.drop_last());
        assert(render_stmts(back) == middle + "\n"@ + last);
        assert((first + "\n"@ + middle) + "\n"@ + last =~= first + "\n"@ + (middle + "\n"@ + last));
    }
}

/// The lexer reads the names of parameters as their tokens, with a comma
/// between one and the next.
proof fn lemma_lex_names(src: Seq<u8>, pos: int, start: int, names: Seq<TokenView>)
    requires
        names.len() >= 1,
        forall|k: int| 0 <= k < names.len() ==> is_name(#[trigger] names[k]),
        spaces(src, pos, start),
        placed(src, start, render_names(names)),
        byte_at(src, start + render_names(names).len()) == ')' as u8,
    ensures
        lex(src, pos) == lex(src, start + render_names(names).len()).behind(
            parameter_tokens(names),
        ),
    decreases names.len(),
{
    let first = names[0];
    assert(is_name(first));
    assert forall|k: int| 0 <= k < first.text.len() implies ByteClass::Word.holds(
        #[trigger] first.text[k] as u8,
    ) && (first.text[k] as u8) as char == first.text[k] by {
        assert(is_word_char(first.text[k]));
    }
    if names.len() == 1 {
        lemma_scan_word(src, pos, start, first.text);
        lemma_lex_step(src, pos);
    } else {
        reveal_strlit(", ");
        let rest = names.drop_first();
        let others = render_names(rest);
        let p1 = start + first.text.len();
        lemma_render_names_from_the_front(names);
        lemma_placed_parts(src, start, first.text + ", "@, others);
        lemma_placed_parts(src, start, first.text, ", "@);
        assert(src[p1 + 0] == ',' as u8);
        assert(src[p1 + 1] == ' ' as u8);
        lemma_scan_word(src, pos, start, first.text);
        lemma_lex_step(src, pos);
        lemma_lex_mark(src, p1, TokenType::Comma);
        assert(spaces(src, p1 + 1, p1 + 2));
        assert forall|k: int| 0 <= k < rest.len() implies is_name(#[trigger] rest[k]) by {
            assert(rest[k] == names[k + 1]);
        }
        lemma_lex_names(src, p1 + 1, p1 + 2, rest);
        let end = lex(src, p1 + 2 + others.len());
        let comma = seq![TokenView::plain(TokenType::Comma)];
        lemma_behind_parts(end, comma, parameter_tokens(rest));
        lemma_behind_parts(end, seq![first], comma + parameter_tokens(rest));
        assert(seq![first] + (comma + parameter_tokens(rest)) =~= parameter_tokens(names));
    }
}

/// The step for a name that is no callee.
proof fn lemma_lex_name(src: Seq<u8>, pos: int, start: int, name: TokenView)
    requires
        is_name(name),
        spaces(src, pos, start),
        placed(src, start, name.text),
        !ByteClass::Word.holds(byte_at(src, start + name.text.len())),
    ensures
        lex(src, pos) == lex(src, start + name.text.len()).behind(seq![name]),
{
    assert forall|k: int| 0 <= k < name.text.len() implies ByteClass::Word.holds(
        #[trigger] name.text[k] as u8,
    ) && (name.text[k] as u8) as char == name.text[k] by {
        assert(is_word_char(name.text[k]));
    }
    lemma_scan_word(src, pos, start, name.text);
    lemma_lex_step(src, pos);
}

/// The step for an expression in a statement.
proof fn lemma_lex_neat(src: Seq<u8>, pos: int, start: int, e: ExprView)
    requires
        neat(e),
        spaces(src, pos, start),
        placed(src, start, render_expr(e, false)),
        !ByteClass::Word.holds(byte_at(src, start + render_expr(e, false).len())),
    ensures
        render_expr(e, false).len() >= 1,
        lex(src, pos) == lex(src, start + render_expr(e, false).len()).behind(compact(e)),
{
    lemma_lex_compact(src, pos, start, e);
}

/// Where the parts of the text of an assignment stand.
proof fn lemma_assignment_text(src: Seq<u8>, start: int, s: StmtView)
    requires
        s is Assign,
        canonical_statement(s),
        placed(src, start, render_stmt(s)),
    ensures
        ({
            let g: int = if s->global {
                7
            } else {
                0
            };
            let n = s->Assign_ident.text.len();
            let v = render_expr(s->Assign_value, false);
            &&& render_stmt(s).len() == g + n + 1 + v.len()
            &&& s->global ==> placed(src, start, spelling(TokenType::Global)) && src[start + 6]
                == ' ' as u8
            &&& placed(src, start + g, s->Assign_ident.text)
            &&& src[start + g + n] == '=' as u8
            &&& placed(src, start + g + n + 1, v)
            &&& v.len() >= 1
            &&& follows_operator(byte_at(src, start + g + n + 1))
        }),
{
    reveal_strlit("global ");
    reveal_strlit("global");
    reveal_strlit("=");
    let head = if s->global {
        "global "@
    } else {
        Seq::empty()
    };
    let name = s->Assign_ident.text;
    let v = render_expr(s->Assign_value, false);
    lemma_compact_text_starts(s->Assign_value);
    lemma_placed_parts(src, start, head + name + "="@, v);
    lemma_placed_parts(src, start, head + name, "="@);
    lemma_placed_parts(src, start, head, name);
    assert(src[start + head.len() + name.len() + 0] == '=' as u8);
    assert(src[start + head.len() + name.len() + 1 + 0] == v[0] as u8);
    if s->global {
        assert("global "@ =~= "global"@ + seq![' ']);
        lemma_placed_parts(src, start, "global"@, seq![' ']);
        assert(src[start + 6 + 0] == ' ' as u8);
    }
}

/// The lexer reads the text of an assignment as its tokens.
proof fn lemma_lex_assignment(src: Seq<u8>, pos: int, start: int, s: StmtView)
    requires
        s is Assign,
        canonical_statement(s),
        spaces(src, pos, start),
        placed(src, start, render_stmt(s)),
        !ByteClass::Word.holds(byte_at(src, start + render_stmt(s).len())),
    ensures
        lex(src, pos) == lex(src, start + render_stmt(s).len()).behind(statement_tokens(s)),
{
    let name = s->Assign_ident;
    let value = s->Assign_value;
    let g: int = if s->global {
        7
    } else {
        0
    };
    let p1 = start + g;
    let p2 = p1 + name.text.len();
    let p3 = p2 + 1;
    let p4 = p3 + render_expr(value, false).len();
    reveal_strlit("global");
    lemma_assignment_text(src, start, s);
    lemma_lex_equals(src, p2);
    lemma_lex_neat(src, p3, p3, value);
    let equals = seq![TokenView::plain(TokenType::Equals)];
    lemma_lex_chain(src, p2, p3, p4, equals, compact(value));
    if s->global {
        let global = seq![TokenView::plain(TokenType::Global)];
        lemma_lex_keyword(src, pos, start, TokenType::Global);
        assert(spaces(src, start + 6, p1));
        lemma_lex_name(src, start + 6, p1, name);
        lemma_lex_chain(src, start + 6, p2, p4, seq![name], equals + compact(value));
        lemma_lex_chain(src, pos, start + 6, p4, global, seq![name] + (equals + compact(value)));
        assert(global + (seq![name] + (equals + compact(value))) =~= statement_tokens(s));
    } else {
        lemma_lex_name(src, pos, p1, name);
        lemma_lex_chain(src, pos, p2, p4, seq![name], equals + compact(value));
        assert(seq![name] + (equals + compact(value)) =~= statement_tokens(s));
    }
}

/// The lexer reads the text of a `return` statement as its tokens.
proof fn lemma_lex_return(src: Seq<u8>, pos: int, start: int, s: StmtView)
    requires
        s is Return,
        canonical_statement(s),
        spaces(src, pos, start),
        placed(src, start, render_stmt(s)),
        !ByteClass::Word.holds(byte_at(src, start + render_stmt(s).len())),
    ensures
        lex(src, pos) == lex(src, start + render_stmt(s).len()).behind(statement_tokens(s)),
{
    reveal_strlit("return ");
    reveal_strlit("return");
    let keyword = seq![TokenView::plain(TokenType::Return)];
    match s->Return_value {
        Some(value) => {
            let v = render_expr(value, false);
            assert("return "@ =~= "return"@ + seq![' ']);
            lemma_placed_parts(src, start, "return "@, v);
            lemma_placed_parts(src, start, "return"@, seq![' ']);
            assert(src[start + 6 + 0] == ' ' as u8);
            lemma_lex_keyword(src, pos, start, TokenType::Return);
            assert(spaces(src, start + 6, start + 7));
            lemma_lex_neat(src, start + 6, start + 7, value);
            lemma_lex_chain(src, pos, start + 6, start + 7 + v.len(), keyword, compact(value));
        },
        None => {
            lemma_lex_keyword(src, pos, start, TokenType::Return);
            assert(keyword + Seq::<TokenView>::empty() =~= keyword);
        },
    }
}

/// The text of the second branch of an `if` statement, with `else` before it
/// and a line break behind it; nothing if there is no second branch.
pub open spec fn else_text(alternative: Option<BlockView>) -> Seq<char> {
    match alternative {
        Some(b) => "else\n"@ + render_stmts(b.statements) + "\n"@,
        None => Seq::empty(),
    }
}

/// Where the parts of the text of an `if` statement stand.
proof fn lemma_if_text(src: Seq<u8>, start: int, s: StmtView)
    requires
        s is If,
        canonical_statement(s),
        placed(src, start, render_stmt(s)),
    ensures
        ({
            let c = render_expr(s->condition, false).len();
            let b = render_stmts(s->consequence.statements).len();
            let tail = else_text(s->alternative);
            let end = start + 10 + c + b;
            &&& render_stmt(s).len() == 15 + c + b + tail.len()
            &&& placed(src, start, spelling(TokenType::If))
            &&& src[start + 2] == ' ' as u8
            &&& placed(src, start + 3, render_expr(s->condition, false))
            &&& src[start + 3 + c] == ' ' as u8
            &&& placed(src, start + 4 + c, spelling(TokenType::Then))
            &&& src[start + 8 + c] == '\n' as u8
            &&& placed(src, start + 9 + c, render_stmts(s->consequence.statements))
            &&& src[start + 9 + c + b] == '\n' as u8
            &&& placed(src, end, tail)
            &&& placed(src, end + tail.len(), spelling(TokenType::Endif))
        }),
{
    reveal_strlit("if ");
    reveal_strlit("if");
    reveal_strlit(" then\n");
    reveal_strlit("then");
    reveal_strlit("\n");
    reveal_strlit("endif");
    let c = render_expr(s->condition, false);
    let b = render_stmts(s->consequence.statements);
    let tail = else_text(s->alternative);
    assert(render_stmt(s) == "if "@ + c + " then\n"@ + b + "\n"@ + tail + "endif"@);
    lemma_placed_parts(src, start, "if "@ + c + " then\n"@ + b + "\n"@ + tail, "endif"@);
    lemma_placed_parts(src, start, "if "@ + c + " then\n"@ + b + "\n"@, tail);
    lemma_placed_parts(src, start, "if "@ + c + " then\n"@ + b, "\n"@);
    lemma_placed_parts(src, start, "if "@ + c + " then\n"@, b);
    lemma_placed_parts(src, start, "if "@ + c, " then\n"@);
    lemma_placed_parts(src, start, "if "@, c);
    assert("if "@ =~= "if"@ + seq![' ']);
    lemma_placed_parts(src, start, "if"@, seq![' ']);
    assert(src[start + 2 + 0] == ' ' as u8);
    let q = start + 3 + c.len();
    assert(" then\n"@ =~= seq![' '] + "then"@ + seq!['\n']);
    lemma_placed_parts(src, q, seq![' '] + "then"@, seq!['\n']);
    lemma_placed_parts(src, q, seq![' '], "then"@);
    assert(src[q + 0] == ' ' as u8);
    assert(src[q + 5 + 0] == '\n' as u8);
    assert(src[q + 6 + b.len() + 0] == '\n' as u8);
}

/// Where the parts of the text of the second branch of an `if` statement
/// stand.
proof fn lemma_else_text(src: Seq<u8>, start: int, b: BlockView)
    requires
        placed(src, start, else_text(Some(b))),
    ensures
        else_text(Some(b)).len() == 6 + render_stmts(b.statements).len(),
        placed(src, start, spelling(TokenType::Else)),
        src[start + 4] == '\n' as u8,
        placed(src, start + 5, render_stmts(b.statements)),
        src[start + 5 + render_stmts(b.statements).len()] == '\n' as u8,
{
    reveal_strlit("else\n");
    reveal_strlit("else");
    reveal_strlit("\n");
    let inner = render_stmts(b.statements);
    lemma_placed_parts(src, start, "else\n"@ + inner, "\n"@);
    lemma_placed_parts(src, start, "else\n"@, inner);
    assert("else\n"@ =~= "else"@ + seq!['\n']);
    lemma_placed_parts(src, start, "else"@, seq!['\n']);
    assert(src[start + 4 + 0] == '\n' as u8);
    assert(src[start + 5 + inner.len() + 0] == '\n' as u8);
}

/// The lexer reads the head of an `if` statement, up to the line break behind
/// `then`, as its tokens.
proof fn lemma_lex_if_head(src: Seq<u8>, pos: int, start: int, condition: ExprView)
    requires
        neat(condition),
        spaces(src, pos, start),
        placed(src, start, spelling(TokenType::If)),
        src[start + 2] == ' ' as u8,
        placed(src, start + 3, render_expr(condition, false)),
        src[start + 3 + render_expr(condition, false).len()] == ' ' as u8,
        placed(src, start + 4 + render_expr(condition, false).len(), spelling(TokenType::Then)),
        start + 8 + render_expr(condition, false).len() < src.len(),
        src[start + 8 + render_expr(condition, false).len()] == '\n' as u8,
    ensures
        lex(src, pos) == lex(src, start + 9 + render_expr(condition, false).len()).behind(
            seq![TokenView::plain(TokenType::If)] + compact(condition) + seq![
                TokenView::plain(TokenType::Then),
                line_break(),
            ],
        ),
{
    reveal_strlit("if");
    reveal_strlit("then");
    let c = render_expr(condition, false).len() as int;
    let q = start + 3 + c;
    let a = seq![TokenView::plain(TokenType::If)];
    let then = seq![TokenView::plain(TokenType::Then)];
    let br = seq![line_break()];
    lemma_lex_keyword(src, pos, start, TokenType::If);
    assert(spaces(src, start + 2, start + 3));
    lemma_lex_neat(src, start + 2, start + 3, condition);
    assert(spaces(src, q, q + 1));
    lemma_lex_keyword(src, q, q + 1, TokenType::Then);
    lemma_lex_break(src, q + 5);
    lemma_lex_chain(src, q, q + 5, q + 6, then, br);
    lemma_lex_chain(src, start + 2, q, q + 6, compact(condition), then + br);
    lemma_lex_chain(src, pos, start + 2, q + 6, a, compact(condition) + (then + br));
    assert(a + (compact(condition) + (then + br)) =~= a + compact(condition) + seq![
        TokenView::plain(TokenType::Then),
        line_break(),
    ]);
}

/// Where the parts of the text of a declaration stand.
proof fn lemma_function_text(src: Seq<u8>, start: int, s: StmtView)
    requires
        s is Function,
        canonical_statement(s),
        placed(src, start, render_stmt(s)),
    ensures
        ({
            let k = spelling(opening_keyword(s->is_procedure)).len();
            let n = s->Function_ident.text.len();
            let p = render_names(s->params).len();
            let b = render_stmts(s->body.statements).len();
            let z = spelling(closing_keyword(s->is_procedure)).len();
            &&& render_stmt(s).len() == k + n + p + b + z + 5
            &&& placed(src, start, spelling(opening_keyword(s->is_procedure)))
            &&& src[start + k] == ' ' as u8
            &&& placed(src, start + k + 1, s->Function_ident.text)
            &&& src[start + k + 1 + n] == '(' as u8
            &&& placed(src, start + k + 2 + n, render_names(s->params))
            &&& src[start + k + 2 + n + p] == ')' as u8
            &&& src[start + k + 3 + n + p] == '\n' as u8
            &&& placed(src, start + k + 4 + n + p, render_stmts(s->body.statements))
            &&& src[start + k + 4 + n + p + b] == '\n' as u8
            &&& placed(
                src,
                start + k + 5 + n + p + b,
                spelling(closing_keyword(s->is_procedure)),
            )
        }),
{
    reveal_strlit("function ");
    reveal_strlit("function");
    reveal_strlit("procedure ");
    reveal_strlit("procedure");
    reveal_strlit("endfunction");
    reveal_strlit("endprocedure");
    reveal_strlit("(");
    reveal_strlit(")\n");
    reveal_strlit("\n");
    let word = spelling(opening_keyword(s->is_procedure));
    let head = if s->is_procedure {
        "procedure "@
    } else {
        "function "@
    };
    let name = s->Function_ident.text;
    let names = render_names(s->params);
    let body = render_stmts(s->body.statements);
    let close = if s->is_procedure {
        "endprocedure"@
    } else {
        "endfunction"@
    };
    assert(render_stmt(s) == head + name + "("@ + names + ")\n"@ + body + "\n"@ + close);
    lemma_placed_parts(src, start, head + name + "("@ + names + ")\n"@ + body + "\n"@, close);
    lemma_placed_parts(src, start, head + name + "("@ + names + ")\n"@ + body, "\n"@);
    lemma_placed_parts(src, start, head + name + "("@ + names + ")\n"@, body);
    lemma_placed_parts(src, start, head + name + "("@ + names, ")\n"@);
    lemma_placed_parts(src, start, head + name + "("@, names);
    lemma_placed_parts(src, start, head + name, "("@);
    lemma_placed_parts(src, start, head, name);
    assert(head =~= word + seq![' ']);
    lemma_placed_parts(src, start, word, seq![' ']);
    let k = word.len() as int;
    let n = name.len() as int;
    let p = names.len() as int;
    let b = body.len() as int;
    assert(src[start + k + 0] == ' ' as u8);
    assert(src[start + k + 1 + n + 0] == '(' as u8);
    assert(src[start + k + 2 + n + p + 0] == ')' as u8);
    assert(src[start + k + 2 + n + p + 1] == '\n' as u8);
    assert(src[start + k + 4 + n + p + b + 0] == '\n' as u8);
}

/// The lexer reads the head of a declaration, up to the line break behind the
/// parameters, as its tokens.
proof fn lemma_lex_function_head(src: Seq<u8>, pos: int, start: int, s: StmtView)
    requires
        s is Function,
        canonical_statement(s),
        spaces(src, pos, start),
        placed(src, start, render_stmt(s)),
    ensures
        ({
            let k = spelling(opening_keyword(s->is_procedure)).len();
            let n = s->Function_ident.text.len();
            let p = render_names(s->params).len();
            lex(src, pos) == lex(src, start + k + 4 + n + p).behind(
                seq![
                    TokenView::plain(opening_keyword(s->is_procedure)),
                    s->Function_ident,
                    TokenView::plain(TokenType::LParenthasis),
                ] + parameter_tokens(s->params) + seq![
                    TokenView::plain(TokenType::RParenthasis),
                    line_break(),
                ],
            )
        }),
{
    let opening = opening_keyword(s->is_procedure);
    let k = spelling(opening).len() as int;
    let name = s->Function_ident;
    let n = name.text.len() as int;
    let p = render_names(s->params).len() as int;
    let p1 = start + k;
    let p2 = p1 + 1 + n;
    let p3 = p2 + 1;
    let p4 = p3 + p;
    lemma_function_text(src, start, s);
    lemma_lex_keyword(src, pos, start, opening);
    assert(spaces(src, p1, p1 + 1));
    lemma_lex_callee(src, p1, p1 + 1, name);
    lemma_lex_mark(src, p2, TokenType::LParenthasis);
    let tokens = parameter_tokens(s->params);
    if s->params.len() > 0 {
        lemma_lex_names(src, p3, p3, s->params);
    } else {
        assert(lex(src, p3).behind(tokens) == lex(src, p3));
    }
    lemma_lex_mark(src, p4, TokenType::RParenthasis);
    lemma_lex_break(src, p4 + 1);
    let a = seq![TokenView::plain(opening)];
    let b = seq![name];
    let c = seq![TokenView::plain(TokenType::LParenthasis)];
    let d = seq![TokenView::plain(TokenType::RParenthasis)];
    let e = seq![line_break()];
    lemma_lex_chain(src, p4, p4 + 1, p4 + 2, d, e);
    lemma_lex_chain(src, p3, p4, p4 + 2, tokens, d + e);
    lemma_lex_chain(src, p2, p3, p4 + 2, c, tokens + (d + e));
    lemma_lex_chain(src, p1, p2, p4 + 2, b, c + (tokens + (d + e)));
    lemma_lex_chain(src, pos, p1, p4 + 2, a, b + (c + (tokens + (d + e))));
    assert(a + (b + (c + (tokens + (d + e)))) =~= seq![
        TokenView::plain(opening),
        name,
        TokenView::plain(TokenType::LParenthasis),
    ] + tokens + seq![TokenView::plain(TokenType::RParenthasis), line_break()]);
}

/// The lexer reads the text of a canonical statement as its tokens: where the
/// text stands behind the spaces at `pos`, and behind it something that ends a
/// word, the tokens from `pos` on are the tokens of the statement, and then the
/// tokens from the end of the text on.
proof fn lemma_lex_statement(src: Seq<u8>, pos: int, start: int, s: StmtView)
    requires
        canonical_statement(s),
        spaces(src, pos, start),
        placed(src, start, render_stmt(s)),
        !ByteClass::Word.holds(byte_at(src, start + render_stmt(s).len())),
    ensures
        lex(src, pos) == lex(src, start + render_stmt(s).len()).behind(statement_tokens(s)),
    decreases s, 1nat,
{
    let br = seq![line_break()];
    lemma_spelling_lengths();
    match s {
        StmtView::Assign { .. } => {
            lemma_lex_assignment(src, pos, start, s);
        },
        StmtView::Return { .. } => {
            lemma_lex_return(src, pos, start, s);
        },
        StmtView::Expression { value } => {
            lemma_lex_neat(src, pos, start, value);
        },
        StmtView::If { token, condition, consequence, alternative } => {
            let c = render_expr(condition, false).len() as int;
            let b = render_stmts(consequence.statements).len() as int;
            let r = start + 9 + c;
            let e = r + b + 1;
            let head = seq![TokenView::plain(TokenType::If)] + compact(condition) + seq![
                TokenView::plain(TokenType::Then),
                line_break(),
            ];
            let first = block_tokens(consequence.statements);
            let second = else_tokens(alternative);
            let z = seq![TokenView::plain(TokenType::Endif)];
            let tail = else_text(alternative).len() as int;
            lemma_if_text(src, start, s);
            lemma_lex_if_head(src, pos, start, condition);
            lemma_lex_block(src, r, consequence.statements);
            lemma_lex_break(src, r + b);
            match alternative {
                None => {
                    assert(lex(src, e).behind(second) == lex(src, e));
                },
                Some(other) => {
                    let u = render_stmts(other.statements).len() as int;
                    let keyword = seq![TokenView::plain(TokenType::Else)];
                    lemma_else_text(src, e, other);
                    lemma_lex_keyword(src, e, e, TokenType::Else);
                    lemma_lex_break(src, e + 4);
                    lemma_lex_block(src, e + 5, other.statements);
                    lemma_lex_break(src, e + 5 + u);
                    lemma_lex_chain(src, e + 5, e + 5 + u, e + 6 + u, block_tokens(other.statements), br);
                    lemma_lex_chain(src, e + 4, e + 5, e + 6 + u, br, block_tokens(other.statements) + br);
                    lemma_lex_chain(
                        src,
                        e,
                        e + 4,
                        e + 6 + u,
                        keyword,
                        br + (block_tokens(other.statements) + br),
                    );
                    assert(keyword + (br + (block_tokens(other.statements) + br)) =~= second);
                },
            }
            lemma_lex_keyword(src, e + tail, e + tail, TokenType::Endif);
            lemma_lex_chain(src, e, e + tail, e + tail + 5, second, z);
            lemma_lex_chain(src, r + b, e, e + tail + 5, br, second + z);
            lemma_lex_chain(src, r, r + b, e + tail + 5, first, br + (second + z));
            lemma_lex_chain(src, pos, r, e + tail + 5, head, first + (br + (second + z)));
            assert(head + (first + (br + (second + z))) =~= statement_tokens(s));
        },
        StmtView::Function { token, ident, params, body, is_procedure } => {
            let k = spelling(opening_keyword(is_procedure)).len() as int;
            let n = ident.text.len() as int;
            let p = render_names(params).len() as int;
            let b = render_stmts(body.statements).len() as int;
            let closing = closing_keyword(is_procedure);
            let r = start + k + 4 + n + p;
            let head = seq![
                TokenView::plain(opening_keyword(is_procedure)),
                ident,
                TokenView::plain(TokenType::LParenthasis),
            ] + parameter_tokens(params) + seq![
                TokenView::plain(TokenType::RParenthasis),
                line_break(),
            ];
            let inner = block_tokens(body.statements);
            let z = seq![TokenView::plain(closing)];
            lemma_function_text(src, start, s);
            lemma_lex_function_head(src, pos, start, s);
            lemma_lex_block(src, r, body.statements);
            lemma_lex_break(src, r + b);
            lemma_lex_keyword(src, r + b + 1, r + b + 1, closing);
            let end = r + b + 1 + spelling(closing).len();
            lemma_lex_chain(src, r + b, r + b + 1, end, br, z);
            lemma_lex_chain(src, r, r + b, end, inner, br + z);
            lemma_lex_chain(src, pos, r, end, head, inner + (br + z));
            assert(head + (inner + (br + z)) =~= statement_tokens(s));
        },
        _ => {},
    }
}

/// The lexer reads the text of a run of canonical statements as their tokens,
/// with a line break between one and the next.
proof fn lemma_lex_block(src: Seq<u8>, pos: int, stmts: Seq<StmtView>)
    requires
        all_canonical_statements(stmts),
        placed(src, pos, render_stmts(stmts)),
        !ByteClass::Word.holds(byte_at(src, pos + render_stmts(stmts).len())),
    ensures
        lex(src, pos) == lex(src, pos + render_stmts(stmts).len()).behind(block_tokens(stmts)),
    decreases stmts, 0nat,
{
    if stmts.len() == 0 {
        let ts = lex(src, pos);
        assert(Seq::<TokenView>::empty() + ts.tokens =~= ts.tokens);
    } else if stmts.len() == 1 {
        lemma_lex_statement(src, pos, pos, stmts[0]);
    } else {
        reveal_strlit("\n");
        let first = render_stmt(stmts[0]);
        let rest = stmts.drop_first();
        let others = render_stmts(rest);
        let p1 = pos + first.len();
        lemma_render_stmts_from_the_front(stmts);
        lemma_placed_parts(src, pos, first + "\n"@, others);
        lemma_placed_parts(src, pos, first, "\n"@);
        assert(src[p1 + 0] == '\n' as u8);
        lemma_lex_statement(src, pos, pos, stmts[0]);
        lemma_lex_break(src, p1);
        lemma_lex_block(src, p1 + 1, rest);
        let br = seq![line_break()];
        lemma_lex_chain(src, p1, p1 + 1, p1 + 1 + others.len(), br, block_tokens(rest));
        lemma_lex_chain(
            src,
            pos,
            p1,
            p1 + 1 + others.len(),
            statement_tokens(stmts[0]),
            br + block_tokens(rest),
        );
        assert(statement_tokens(stmts[0]) + (br + block_tokens(rest)) =~= block_tokens(stmts));
    }
}

/// Two texts of plain ASCII are a text of plain ASCII.
proof fn lemma_ascii_parts(a: Seq<char>, b: Seq<char>)
    requires
        is_ascii_chars(a),
        is_ascii_chars(b),
    ensures
        is_ascii_chars(a + b),
{
    assert forall|i: int| 0 <= i < (a + b).len() implies '\0' <= #[trigger] (a + b)[i]
        <= '\u{7f}' by {
        if i < a.len() {
            assert((a + b)[i] == a[i]);
        } else {
            assert((a + b)[i] == b[i - a.len()]);
        }
    }
}

/// The text of an expression in a statement is plain ASCII.
proof fn lemma_neat_text_is_ascii(e: ExprView)
    requires
        neat(e),
    ensures
        is_ascii_chars(render_expr(e, false)),
{
    lemma_rendered_is_ascii(e, false);
}

/// The names of parameters are plain ASCII.
proof fn lemma_names_text_is_ascii(names: Seq<TokenView>)
    requires
        forall|k: int| 0 <= k < names.len() ==> is_name(#[trigger] names[k]),
    ensures
        is_ascii_chars(render_names(names)),
    decreases names.len(),
{
    reveal_strlit(", ");
    if names.len() == 1 {
        assert(is_name(names[0]));
        lemma_name_is_ascii(names[0]);
    } else if names.len() >= 2 {
        let rest = names.drop_first();
        assert(is_name(names[0]));
        lemma_name_is_ascii(names[0]);
        assert forall|k: int| 0 <= k < rest.len() implies is_name(#[trigger] rest[k]) by {
            assert(rest[k] == names[k + 1]);
        }
        lemma_names_text_is_ascii(rest);
        lemma_render_names_from_the_front(names);
        lemma_ascii_parts(names[0].name(), ", "@);
        lemma_ascii_parts(names[0].name() + ", "@, render_names(rest));
    }
}

/// The literal parts of the texts of statements are plain ASCII.
proof fn lemma_literals_are_ascii()
    ensures
        is_ascii_chars("global "@),
        is_ascii_chars("="@),
        is_ascii_chars("return "@),
        is_ascii_chars("return"@),
        is_ascii_chars("if "@),
        is_ascii_chars(" then\n"@),
        is_ascii_chars("\n"@),
        is_ascii_chars("else\n"@),
        is_ascii_chars("endif"@),
        is_ascii_chars("procedure "@),
        is_ascii_chars("function "@),
        is_ascii_chars("("@),
        is_ascii_chars(")\n"@),
        is_ascii_chars("endprocedure"@),
        is_ascii_chars("endfunction"@),
{
    reveal_strlit("global ");
    reveal_strlit("=");
    reveal_strlit("return ");
    reveal_strlit("return");
    reveal_strlit("if ");
    reveal_strlit(" then\n");
    reveal_strlit("\n");
    reveal_strlit("else\n");
    reveal_strlit("endif");
    reveal_strlit("procedure ");
    reveal_strlit("function ");
    reveal_strlit("(");
    reveal_strlit(")\n");
    reveal_strlit("endprocedure");
    reveal_strlit("endfunction");
}

/// The text of a canonical statement is plain ASCII.
proof fn lemma_statement_text_is_ascii(s: StmtView)
    requires
        canonical_statement(s),
    ensures
        is_ascii_chars(render_stmt(s)),
    decreases s, 1nat,
{
    lemma_literals_are_ascii();
    let none = Seq::<char>::empty();
    match s {
        StmtView::Assign { token, ident, global, value } => {
            let head = if global {
                "global "@
            } else {
                none
            };
            lemma_name_is_ascii(ident);
            lemma_neat_text_is_ascii(value);
            lemma_ascii_parts(head, ident.name());
            lemma_ascii_parts(head + ident.name(), "="@);
            lemma_ascii_parts(head + ident.name() + "="@, render_expr(value, false));
        },
        StmtView::Return { token, value } => {
            match value {
                Some(v) => {
                    lemma_neat_text_is_ascii(v);
                    lemma_ascii_parts("return "@, render_expr(v, false));
                },
                None => {},
            }
        },
        StmtView::Expression { value } => {
            lemma_neat_text_is_ascii(value);
        },
        StmtView::If { token, condition, consequence, alternative } => {
            let c = render_expr(condition, false);
            let b = render_stmts(consequence.statements);
            let tail = else_text(alternative);
            lemma_neat_text_is_ascii(condition);
            lemma_block_text_is_ascii(consequence.statements);
            match alternative {
                Some(other) => {
                    lemma_block_text_is_ascii(other.statements);
                    lemma_ascii_parts("else\n"@, render_stmts(other.statements));
                    lemma_ascii_parts("else\n"@ + render_stmts(other.statements), "\n"@);
                },
                None => {},
            }
            lemma_ascii_parts("if "@, c);
            lemma_ascii_parts("if "@ + c, " then\n"@);
            lemma_ascii_parts("if "@ + c + " then\n"@, b);
            lemma_ascii_parts("if "@ + c + " then\n"@ + b, "\n"@);
            lemma_ascii_parts("if "@ + c + " then\n"@ + b + "\n"@, tail);
            lemma_ascii_parts("if "@ + c + " then\n"@ + b + "\n"@ + tail, "endif"@);
            assert(render_stmt(s) == "if "@ + c + " then\n"@ + b + "\n"@ + tail + "endif"@);
        },
        StmtView::Function { token, ident, params, body, is_procedure } => {
            let head = if is_procedure {
                "procedure "@
            } else {
                "function "@
            };
            let close = if is_procedure {
                "endprocedure"@
            } else {
                "endfunction"@
            };
            let name = ident.name();
            let names = render_names(params);
            let inner = render_stmts(body.statements);
            lemma_name_is_ascii(ident);
            lemma_names_text_is_ascii(params);
            lemma_block_text_is_ascii(body.statements);
            lemma_ascii_parts(head, name);
            lemma_ascii_parts(head + name, "("@);
            lemma_ascii_parts(head + name + "("@, names);
            lemma_ascii_parts(head + name + "("@ + names, ")\n"@);
            lemma_ascii_parts(head + name + "("@ + names + ")\n"@, inner);
            lemma_ascii_parts(head + name + "("@ + names + ")\n"@ + inner, "\n"@);
            lemma_ascii_parts(head + name + "("@ + names + ")\n"@ + inner + "\n"@, close);
            assert(render_stmt(s) == head + name + "("@ + names + ")\n"@ + inner + "\n"@ + close);
        },
        _ => {},
    }
}

/// The text of a run of canonical statements is plain ASCII.
proof fn lemma_block_text_is_ascii(stmts: Seq<StmtView>)
    requires
        all_canonical_statements(stmts),
    ensures
        is_ascii_chars(render_stmts(stmts)),
    decreases stmts, 0nat,
{
    if stmts.len() == 1 {
        lemma_statement_text_is_ascii(stmts[0]);
    } else if stmts.len() >= 2 {
        lemma_literals_are_ascii();
        let rest = stmts.drop_first();
        lemma_statement_text_is_ascii(stmts[0]);
        lemma_block_text_is_ascii(rest);
        lemma_render_stmts_from_the_front(stmts);
        lemma_ascii_parts(render_stmt(stmts[0]), "\n"@);
        lemma_ascii_parts(render_stmt(stmts[0]) + "\n"@, render_stmts(rest));
    }
}

/// What is printed is parsed back as it was. The lexer reads the text of a
/// canonical program, one statement to a line, as the tokens of the program,
/// and the parser reads these tokens as the program itself.
pub proof fn lemma_program_text_parses_back(text: &str, stmts: Seq<StmtView>)
    requires
        all_canonical_statements(stmts),
        text@ == render_stmts(stmts),
    ensures
        program(lex(text.spec_bytes(), 0)) == Ok::<Seq<StmtView>, ParserError>(stmts),
{
    let src = text.spec_bytes();
    lemma_block_text_is_ascii(stmts);
    is_ascii_chars_encode_utf8(text@);
    lemma_lex_block(src, 0, stmts);
    lemma_lex_at_end(src);
    lemma_program_of_its_tokens(lex(src, 0), stmts);
}

} // verus!
