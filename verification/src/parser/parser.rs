use super::grammar::{newlines, program, progress, statement, Parsed};
use super::laws::lemma_no_statement_at_eof;
use super::rules::ParserError;
use super::stream::{follows, lemma_follows_start, lemma_follows_step, lex, TokenStream};
use crate::lexer::{Lexer, LexerError, Token, TokenDebugInfo, TokenType, TokenView};
use crate::syntax::{stmts_view, Statement, StmtView};
use vstd::prelude::*;
use vstd::string::StringSliceAdditionalSpecFns;

verus! {

/// A parsed source unit: its statements, in the order in which they stand in
/// the source.
#[derive(Debug, PartialEq, Eq)]
pub struct Program<'a> {
    pub statements: Vec<Statement<'a>>,
}

impl<'a> View for Program<'a> {
    type V = Seq<StmtView>;

    open spec fn view(&self) -> Seq<StmtView> {
        stmts_view(self.statements@)
    }
}

impl<'a> Default for Program<'a> {
    /// The program without statements.
    fn default() -> (prog: Self)
        ensures
            prog.statements@ == Seq::<Statement<'a>>::empty(),
    {
        Program { statements: Vec::new() }
    }
}

/// What a rule yields, with the node taken by its view.
pub open spec fn viewed<T: View>(res: Result<T, ParserError>) -> Result<T::V, ParserError> {
    match res {
        Ok(node) => Ok(node@),
        Err(e) => Err(e),
    }
}

/// Whether a rule has yielded what the grammar says, and has moved the parser
/// on as far as the grammar says.
pub open spec fn agrees<V>(
    got: Result<V, ParserError>,
    moved: int,
    want: Result<Parsed<V>, ParserError>,
) -> bool {
    match want {
        Ok(parsed) => got == Ok::<V, ParserError>(parsed.value) && moved == parsed.used,
        Err(e) => got == Err::<V, ParserError>(e),
    }
}

/// A recursive-descent parser that holds two tokens, the current one and the
/// one behind it, and reads the others from its lexer one at a time.
pub struct Parser<'a> {
    lexer: Lexer<'a>,
    tok: Token<'a>,
    peek_tok: Token<'a>,
    /// The statements that [`Parser::parse`] has parsed.
    pub prog: Program<'a>,
    stream: Ghost<TokenStream>,
    index: Ghost<int>,
}

impl<'a> Parser<'a> {
    /// The tokens that this parser reads: those of its lexer, from the place
    /// where the lexer stood when the parser was made.
    pub closed spec fn tokens(&self) -> TokenStream {
        self.stream@
    }

    /// The number of the current token in [`Parser::tokens`].
    pub closed spec fn index(&self) -> int {
        self.index@
    }

    /// The parser holds the current token and the one behind it, and its lexer
    /// stands behind these two.
    pub closed spec fn wf(&self) -> bool {
        &&& self.index@ >= 0
        &&& self.stream@.at(self.index@) == Ok::<TokenView, LexerError>(self.tok@)
        &&& self.stream@.at(self.index@ + 1) == Ok::<TokenView, LexerError>(self.peek_tok@)
        &&& follows(self.lexer.source(), self.lexer.cursor(), self.stream@, self.index@ + 2)
    }

    /// Whether this parser is `before` at a later time: it reads the same
    /// tokens and holds the same program.
    pub open spec fn continues(&self, before: &Self) -> bool {
        &&& self.wf()
        &&& self.tokens() == before.tokens()
        &&& self.program() == before.program()
    }

    /// The program that this parser holds in its field `prog`.
    pub closed spec fn program(&self) -> Program<'a> {
        self.prog
    }

    /// A parser over the tokens of `input`. It reads the first two tokens, so
    /// it fails if the lexer fails at one of them.
    pub fn new(input: Lexer<'a>) -> (res: Result<Self, LexerError>)
        ensures
            ({
                let ts = lex(input.source(), input.cursor());
                match res {
                    Ok(parser) => {
                        &&& parser.wf()
                        &&& parser.tokens() == ts
                        &&& parser.index() == 0
                        &&& parser.program().statements@.len() == 0
                        &&& ts.at(0) is Ok
                        &&& ts.at(1) is Ok
                    },
                    Err(e) => ts.at(0) == Err::<TokenView, LexerError>(e) || (ts.at(0) is Ok
                        && ts.at(1) == Err::<TokenView, LexerError>(e)),
                }
            }),
    {
        let ghost src = input.source();
        let ghost ts = lex(src, input.cursor());
        let mut lexer = input;
        proof {
            lemma_follows_start(src, input.cursor());
        }
        let first = lexer.next_token();
        proof {
            lemma_follows_step(src, input.cursor(), ts, 0);
        }
        let tok = match first {
            Ok(tok) => tok,
            Err(e) => {
                return Err(e);
            },
        };
        let ghost middle = lexer.cursor();
        let second = lexer.next_token();
        proof {
            lemma_follows_step(src, middle, ts, 1);
        }
        let peek_tok = match second {
            Ok(tok) => tok,
            Err(e) => {
                return Err(e);
            },
        };
        Ok(
            Parser {
                lexer,
                tok,
                peek_tok,
                prog: Program::default(),
                stream: Ghost(ts),
                index: Ghost(0),
            },
        )
    }

    /// Moves on by one token: the token behind the current one becomes the
    /// current one, and the lexer hands out the next. If the lexer fails, the
    /// parser stays where it is.
    pub fn next_token(&mut self) -> (res: Result<(), LexerError>)
        requires
            old(self).wf(),
        ensures
            final(self).continues(old(self)),
            match res {
                Ok(_) => final(self).index() == old(self).index() + 1 && old(self).tokens().at(
                    old(self).index() + 2,
                ) is Ok,
                Err(e) => final(self).index() == old(self).index() && old(self).tokens().at(
                    old(self).index() + 2,
                ) == Err::<TokenView, LexerError>(e),
            },
    {
        let mut lexer = self.lexer;
        let read = lexer.next_token();
        proof {
            lemma_follows_step(
                self.lexer.source(),
                self.lexer.cursor(),
                self.stream@,
                self.index@ + 2,
            );
        }
        match read {
            Ok(tok) => {
                self.lexer = lexer;
                self.tok = self.peek_tok;
                self.peek_tok = tok;
                self.index = Ghost(self.index@ + 1);
                Ok(())
            },
            Err(e) => Err(e),
        }
    }

    /// Moves on by one token, with a failure of the lexer as the parser's own
    /// error.
    pub(super) fn advance(&mut self) -> (res: Result<(), ParserError>)
        requires
            old(self).wf(),
        ensures
            final(self).continues(old(self)),
            match res {
                Ok(_) => final(self).index() == old(self).index() + 1 && old(self).tokens().blocked(
                    old(self).index(),
                ) is None,
                Err(e) => final(self).index() == old(self).index() && old(self).tokens().blocked(
                    old(self).index(),
                ) == Some(e),
            },
    {
        match self.next_token() {
            Ok(_) => Ok(()),
            Err(e) => Err(ParserError::from(e)),
        }
    }

    /// The error for the current token, where the grammar has no place for it.
    pub(super) fn unexpected(&self) -> (e: ParserError)
        requires
            self.wf(),
        ensures
            e == ParserError::unexpected(self.tokens().kind(self.index())),
    {
        ParserError::UnexpectedToken(TokenDebugInfo::from(self.tok))
    }

    /// Hands out the program that this parser holds.
    pub fn into_program(self) -> (prog: Program<'a>)
        ensures
            prog == self.program(),
    {
        self.prog
    }

    /// The current token.
    pub fn current(&self) -> (tok: Token<'a>)
        requires
            self.wf(),
        ensures
            self.tokens().at(self.index()) == Ok::<TokenView, LexerError>(tok@),
    {
        self.tok
    }

    /// The token behind the current one.
    pub fn peek(&self) -> (tok: Token<'a>)
        requires
            self.wf(),
        ensures
            self.tokens().at(self.index() + 1) == Ok::<TokenView, LexerError>(tok@),
    {
        self.peek_tok
    }

    /// Moves past the line breaks at the current token.
    pub(super) fn skip_newlines(&mut self) -> (res: Result<(), ParserError>)
        requires
            old(self).wf(),
        ensures
            final(self).continues(old(self)),
            agrees(
                res,
                final(self).index() - old(self).index(),
                match newlines(old(self).tokens(), old(self).index()) {
                    Ok(n) => Ok(Parsed { value: (), used: n }),
                    Err(e) => Err(e),
                },
            ),
    {
        let ghost ts = self.tokens();
        let ghost start = self.index();
        while matches!(self.tok, Token::Newline)
            invariant
                self.continues(old(self)),
                ts == self.tokens(),
                start == old(self).index(),
                start <= self.index(),
                newlines(ts, start) == match newlines(ts, self.index()) {
                    Ok(n) => Ok::<nat, ParserError>((n + self.index() - start) as nat),
                    Err(e) => Err(e),
                },
            decreases ts.remaining(self.index()),
        {
            self.advance()?;
        }
        Ok(())
    }
}

impl<'a> Parser<'a> {
    /// Parses the statements from the current token up to the end of the input
    /// and appends them, in their order, to the program that this parser
    /// holds. It stops at the first violation of the grammar; the statements
    /// that were parsed before it stay in the program.
    pub fn parse(&mut self) -> (res: Result<(), ParserError>)
        requires
            old(self).wf(),
        ensures
            final(self).wf(),
            final(self).tokens() == old(self).tokens(),
            final(self).program()@ == old(self).program()@ + progress(
                old(self).tokens(),
                old(self).index(),
            ).statements,
            match progress(old(self).tokens(), old(self).index()).failure {
                Some(e) => res == Err::<(), ParserError>(e),
                None => res is Ok && final(self).tokens().kind(final(self).index())
                    == TokenType::Eof,
            },
    {
        let ghost ts = self.tokens();
        let ghost start = self.index();
        let ghost held = self.program()@;
        loop
            invariant_except_break
                held + progress(ts, start).statements == self.program()@ + progress(
                    ts,
                    self.index(),
                ).statements,
                progress(ts, start).failure == progress(ts, self.index()).failure,
            invariant
                self.wf(),
                ts == self.tokens(),
                ts == old(self).tokens(),
                start == old(self).index(),
                held == old(self).program()@,
            ensures
                held + progress(ts, start).statements == self.program()@,
                progress(ts, start).failure is None,
                ts.kind(self.index()) == TokenType::Eof,
            decreases ts.remaining(self.index()),
        {
            reveal(statement);
            let ghost before = self.program()@;
            let ghost here = self.index();
            let found = match self.parse_statement() {
                Ok(found) => found,
                Err(e) => {
                    assert(self.program()@ + Seq::<StmtView>::empty() =~= self.program()@);
                    return Err(e);
                },
            };
            let stmt = match found {
                Some(stmt) => stmt,
                None => {
                    proof {
                        lemma_no_statement_at_eof(ts, here);
                    }
                    assert(self.program()@ + Seq::<StmtView>::empty() =~= self.program()@);
                    break ;
                },
            };
            let ghost view = stmt@;
            self.prog.statements.push(stmt);
            assert(self.program()@ =~= before + seq![view]);
            proof {
                let rest = progress(ts, self.index() + 1).statements;
                assert(before + (seq![view] + rest) =~= self.program()@ + rest);
                assert(before + seq![view] =~= self.program()@);
            }
            match self.advance() {
                Ok(_) => {},
                Err(e) => {
                    return Err(e);
                },
            }
        }
        Ok(())
    }
}

/// Parses the input that `input` has still to read.
pub fn parse_from_lexer<'a>(input: Lexer<'a>) -> (res: Result<Program<'a>, ParserError>)
    ensures
        viewed(res) == program(lex(input.source(), input.cursor())),
{
    let mut parser = match Parser::new(input) {
        Ok(parser) => parser,
        Err(e) => {
            return Err(ParserError::from(e));
        },
    };
    assert(parser.program()@ =~= Seq::<StmtView>::empty());
    parser.parse()?;
    assert(Seq::<StmtView>::empty() + parser.program()@ =~= parser.program()@);
    Ok(parser.into_program())
}

/// Parses a source text: the program that its tokens stand for, or the first
/// violation of the grammar in it.
pub fn parse_from_string<'a>(input: &'a str) -> (res: Result<Program<'a>, ParserError>)
    ensures
        viewed(res) == program(lex(input.spec_bytes(), 0)),
{
    parse_from_lexer(Lexer::new(input))
}

} // verus!
