use super::grammar::{
    assign_statement, block, block_statements, else_branch, expression, function_statement,
    if_condition, if_statement, parameters, return_statement, signature, statement, Parsed,
    Signature,
};
use super::parser::{agrees, viewed, Parser};
use super::rules::{ParserError, Precedence};
use crate::lexer::{Token, TokenView};
use crate::syntax::{
    names_view, stmts_view, AssignStatement, BlockStatement, Expression, ExpressionStatement,
    FunctionStatement, Identifier, IfStatement, ReturnStatement, Statement, StmtView,
};
use vstd::prelude::*;

verus! {

/// What the rule for a statement yields, with the statement taken by its view.
pub open spec fn maybe_viewed(res: Result<Option<Statement>, ParserError>) -> Result<
    Option<StmtView>,
    ParserError,
> {
    match res {
        Ok(Some(s)) => Ok(Some(s@)),
        Ok(None) => Ok(None),
        Err(e) => Err(e),
    }
}

impl<'a> Parser<'a> {
    /// Parses the statement at the current token, behind the line breaks that
    /// stand there. It yields none only where the input ends.
    pub(super) fn parse_statement(&mut self) -> (res: Result<Option<Statement<'a>>, ParserError>)
        requires
            old(self).wf(),
        ensures
            final(self).continues(old(self)),
            agrees(
                maybe_viewed(res),
                final(self).index() - old(self).index(),
                statement(old(self).tokens(), old(self).index()),
            ),
        decreases old(self).tokens().remaining(old(self).index()), 3nat,
    {
        reveal(statement);
        reveal(if_statement);
        reveal(function_statement);
        let ghost ts = self.tokens();
        let ghost start = self.index();
        while matches!(self.current(), Token::Newline)
            invariant
                self.continues(old(self)),
                ts == self.tokens(),
                start == old(self).index(),
                start <= self.index(),
                statement(ts, start) == match statement(ts, self.index()) {
                    Ok(s) => Ok::<Parsed<Option<StmtView>>, ParserError>(
                        Parsed { value: s.value, used: (self.index() - start + s.used) as nat },
                    ),
                    Err(e) => Err(e),
                },
            decreases ts.remaining(self.index()),
        {
            reveal(statement);
            self.advance()?;
        }
        let tok = self.current();
        if matches!(tok, Token::Eof) {
            Ok(None)
        } else if matches!(tok, Token::Return) {
            Ok(Some(Statement::Return(self.parse_return_statement()?)))
        } else if matches!(tok, Token::If) {
            Ok(Some(Statement::If(self.parse_if_statement()?)))
        } else if matches!(tok, Token::Function | Token::Procedure) {
            Ok(Some(Statement::Function(self.parse_function()?)))
        } else if matches!(tok, Token::Global) || (matches!(tok, Token::Identifier(_)) && matches!(
            self.peek(),
            Token::Equals
        )) {
            Ok(Some(Statement::Assign(self.parse_assign_statement()?)))
        } else {
            reveal(expression);
            let value = self.parse_expr(Precedence::Lowest)?;
            Ok(Some(Statement::Expression(ExpressionStatement { value })))
        }
    }

    /// Parses the parameters of a declaration, from the opening parenthesis at
    /// the current token to the closing one.
    fn parse_params(&mut self) -> (res: Result<Vec<Identifier<'a>>, ParserError>)
        requires
            old(self).wf(),
        ensures
            final(self).continues(old(self)),
            agrees(
                match res {
                    Ok(params) => Ok(names_view(params@)),
                    Err(e) => Err(e),
                },
                final(self).index() - old(self).index(),
                parameters(old(self).tokens(), old(self).index()),
            ),
    {
        let ghost ts = self.tokens();
        let ghost start = self.index();
        let mut params: Vec<Identifier<'a>> = Vec::new();
        assert(names_view(params@) =~= Seq::<TokenView>::empty());
        loop
            invariant_except_break
                parameters(ts, start) == match parameters(ts, self.index()) {
                    Ok(rest) => Ok::<Parsed<Seq<TokenView>>, ParserError>(
                        Parsed {
                            value: names_view(params@) + rest.value,
                            used: (self.index() - start + rest.used) as nat,
                        },
                    ),
                    Err(e) => Err(e),
                },
            invariant
                self.continues(old(self)),
                ts == self.tokens(),
                start == old(self).index(),
                start <= self.index(),
            ensures
                parameters(ts, start) == Ok::<Parsed<Seq<TokenView>>, ParserError>(
                    Parsed { value: names_view(params@), used: (self.index() - start) as nat },
                ),
            decreases ts.remaining(self.index() + 2),
        {
            let ghost before = names_view(params@);
            self.advance()?;
            let tok = self.current();
            if matches!(tok, Token::RParenthasis) {
                assert(before + Seq::<TokenView>::empty() =~= before);
                break ;
            } else if !matches!(tok, Token::Identifier(_)) {
                return Err(self.unexpected());
            }
            params.push(Identifier::from(tok));
            assert(names_view(params@) =~= before + seq![tok@]);
            self.advance()?;
            if matches!(self.current(), Token::RParenthasis) {
                break ;
            } else if !matches!(self.current(), Token::Comma) {
                return Err(self.unexpected());
            }
            proof {
                let rest = parameters(ts, self.index());
                if rest is Ok {
                    assert(before + (seq![tok@] + rest->Ok_0.value) =~= names_view(params@)
                        + rest->Ok_0.value);
                }
            }
        }
        Ok(params)
    }

    /// Parses the name and the parameters of a declaration, and moves on to the
    /// first token of the body.
    fn parse_signature(&mut self) -> (res: Result<(Identifier<'a>, Vec<Identifier<'a>>), ParserError>)
        requires
            old(self).wf(),
        ensures
            final(self).continues(old(self)),
            agrees(
                match res {
                    Ok((ident, params)) => Ok(
                        Signature { ident: ident.token@, params: names_view(params@) },
                    ),
                    Err(e) => Err(e),
                },
                final(self).index() - old(self).index(),
                signature(old(self).tokens(), old(self).index()),
            ),
    {
        reveal(signature);
        let ident = match self.current() {
            Token::Identifier(_) => Identifier::from(self.current()),
            _ => {
                return Err(self.unexpected());
            },
        };
        self.advance()?;
        if !matches!(self.current(), Token::LParenthasis) {
            return Err(self.unexpected());
        }
        let params = self.parse_params()?;
        self.advance()?;
        self.skip_newlines()?;
        Ok((ident, params))
    }

    /// Parses the declaration of a function or procedure at the current token.
    /// The closing keyword must be the one that belongs to the opening one.
    fn parse_function(&mut self) -> (res: Result<FunctionStatement<'a>, ParserError>)
        requires
            old(self).wf(),
        ensures
            final(self).continues(old(self)),
            agrees(
                viewed(res),
                final(self).index() - old(self).index(),
                function_statement(old(self).tokens(), old(self).index()),
            ),
        decreases old(self).tokens().remaining(old(self).index()), 2nat,
    {
        reveal(function_statement);
        reveal(block);
        let token = self.current();
        let is_procedure = matches!(token, Token::Procedure);
        if !is_procedure && !matches!(token, Token::Function) {
            return Err(self.unexpected());
        }
        self.advance()?;
        let (ident, params) = self.parse_signature()?;
        let body = self.parse_block_statement()?;
        match self.current() {
            Token::Endfunction => {
                if is_procedure {
                    return Err(self.unexpected());
                }
            },
            Token::Endprocedure => {
                if !is_procedure {
                    return Err(self.unexpected());
                }
            },
            _ => {
                return Err(self.unexpected());
            },
        }
        Ok(FunctionStatement { token, ident, params, body, is_procedure })
    }

    /// Parses the condition of an `if` statement and the `then` behind it, and
    /// moves on to the first token of the first branch.
    fn parse_if_condition(&mut self) -> (res: Result<Expression<'a>, ParserError>)
        requires
            old(self).wf(),
        ensures
            final(self).continues(old(self)),
            agrees(
                viewed(res),
                final(self).index() - old(self).index(),
                if_condition(old(self).tokens(), old(self).index()),
            ),
    {
        reveal(if_condition);
        reveal(expression);
        let condition = self.parse_expr(Precedence::Lowest)?;
        self.advance()?;
        if !matches!(self.current(), Token::Then) {
            return Err(self.unexpected());
        }
        self.advance()?;
        self.skip_newlines()?;
        Ok(condition)
    }

    /// Parses the branch behind the `else` at the current token, up to
    /// `endif`.
    fn parse_else_branch(&mut self) -> (res: Result<BlockStatement<'a>, ParserError>)
        requires
            old(self).wf(),
        ensures
            final(self).continues(old(self)),
            agrees(
                viewed(res),
                final(self).index() - old(self).index(),
                else_branch(old(self).tokens(), old(self).index()),
            ),
        decreases old(self).tokens().remaining(old(self).index()), 1nat,
    {
        reveal(else_branch);
        reveal(block);
        if !matches!(self.current(), Token::Else) {
            return Err(self.unexpected());
        }
        self.advance()?;
        self.skip_newlines()?;
        let block = self.parse_block_statement()?;
        if !matches!(self.current(), Token::Endif) {
            return Err(self.unexpected());
        }
        Ok(block)
    }

    /// Parses the `if` statement at the current token, up to its `endif`.
    fn parse_if_statement(&mut self) -> (res: Result<IfStatement<'a>, ParserError>)
        requires
            old(self).wf(),
        ensures
            final(self).continues(old(self)),
            agrees(
                viewed(res),
                final(self).index() - old(self).index(),
                if_statement(old(self).tokens(), old(self).index()),
            ),
        decreases old(self).tokens().remaining(old(self).index()), 2nat,
    {
        reveal(if_statement);
        reveal(block);
        reveal(else_branch);
        let token = self.current();
        if !matches!(token, Token::If) {
            return Err(self.unexpected());
        }
        self.advance()?;
        let condition = self.parse_if_condition()?;
        let consequence = self.parse_block_statement()?;
        let alternative = if matches!(self.current(), Token::Endif) {
            None
        } else {
            Some(self.parse_else_branch()?)
        };
        Ok(IfStatement { token, condition, consequence, alternative })
    }

    /// Parses the statements at the current token up to a token that ends a
    /// block or to the end of the input. The parser stops at that token.
    fn parse_block_statement(&mut self) -> (res: Result<BlockStatement<'a>, ParserError>)
        requires
            old(self).wf(),
        ensures
            final(self).continues(old(self)),
            agrees(
                viewed(res),
                final(self).index() - old(self).index(),
                block(old(self).tokens(), old(self).index()),
            ),
        decreases old(self).tokens().remaining(old(self).index()), 4nat,
    {
        reveal(block);
        reveal(block_statements);
        let ghost ts = self.tokens();
        let ghost start = self.index();
        let token = self.current();
        let mut statements: Vec<Statement<'a>> = Vec::new();
        assert(stmts_view(statements@) =~= Seq::<StmtView>::empty());
        loop
            invariant_except_break
                block_statements(ts, start) == match block_statements(ts, self.index()) {
                    Ok(rest) => Ok::<Parsed<Seq<StmtView>>, ParserError>(
                        Parsed {
                            value: stmts_view(statements@) + rest.value,
                            used: (self.index() - start + rest.used) as nat,
                        },
                    ),
                    Err(e) => Err(e),
                },
            invariant
                self.continues(old(self)),
                ts == self.tokens(),
                start == old(self).index(),
                start <= self.index(),
            ensures
                block_statements(ts, start) == Ok::<Parsed<Seq<StmtView>>, ParserError>(
                    Parsed { value: stmts_view(statements@), used: (self.index() - start) as nat },
                ),
            decreases ts.remaining(self.index()),
        {
            reveal(block);
            reveal(block_statements);
            reveal(statement);
            let ghost before = stmts_view(statements@);
            if self.current().is_block_ender() || matches!(self.current(), Token::Eof) {
                assert(before + Seq::<StmtView>::empty() =~= before);
                break ;
            }
            let found = self.parse_statement()?;
            let stmt = match found {
                Some(stmt) => stmt,
                None => {
                    assert(before + Seq::<StmtView>::empty() =~= before);
                    break ;
                },
            };
            let ghost view = stmt@;
            statements.push(stmt);
            assert(stmts_view(statements@) =~= before + seq![view]);
            self.advance()?;
            self.skip_newlines()?;
            proof {
                let rest = block_statements(ts, self.index());
                if rest is Ok {
                    assert(before + (seq![view] + rest->Ok_0.value) =~= stmts_view(statements@)
                        + rest->Ok_0.value);
                }
            }
        }
        Ok(BlockStatement { token, statements })
    }

    /// Parses the `return` statement at the current token. It has no value if
    /// the line or the input ends behind `return`.
    fn parse_return_statement(&mut self) -> (res: Result<ReturnStatement<'a>, ParserError>)
        requires
            old(self).wf(),
        ensures
            final(self).continues(old(self)),
            agrees(
                viewed(res),
                final(self).index() - old(self).index(),
                return_statement(old(self).tokens(), old(self).index()),
            ),
    {
        reveal(expression);
        let token = self.current();
        match self.peek() {
            Token::Newline | Token::Eof => Ok(ReturnStatement { token, value: None }),
            _ => {
                self.advance()?;
                let value = self.parse_expr(Precedence::Lowest)?;
                Ok(ReturnStatement { token, value: Some(value) })
            },
        }
    }

    /// Parses the assignment at the current token: `global`, if it is there,
    /// the name, `=`, and the value.
    fn parse_assign_statement(&mut self) -> (res: Result<AssignStatement<'a>, ParserError>)
        requires
            old(self).wf(),
        ensures
            final(self).continues(old(self)),
            agrees(
                viewed(res),
                final(self).index() - old(self).index(),
                assign_statement(old(self).tokens(), old(self).index()),
            ),
    {
        reveal(expression);
        let token = self.current();
        let global = matches!(token, Token::Global);
        if global {
            self.advance()?;
        }
        let ident = match self.current() {
            Token::Identifier(_) => Identifier::from(self.current()),
            _ => {
                return Err(self.unexpected());
            },
        };
        self.advance()?;
        if !matches!(self.current(), Token::Equals) {
            return Err(self.unexpected());
        }
        self.advance()?;
        let value = self.parse_expr(Precedence::Lowest)?;
        Ok(AssignStatement { token, ident, global, value })
    }
}

} // verus!
