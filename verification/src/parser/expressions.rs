use super::grammar::{
    application, argument, arguments, boolean, call_arguments, climb, expression, name, number,
    operand, Parsed,
};
use super::parser::{agrees, viewed, Parser};
use super::rules::{ParserError, Precedence};
use crate::lexer::{Token, TokenType};
use crate::syntax::{
    exprs_view, parse_integer, BooleanExpression, ExprView, Expression, FunctionCallExpression,
    Identifier, InfixExpression, InfixOperator, IntegerLiteralExpression, PrefixExpression,
    PrefixOperator,
};
use vstd::prelude::*;

verus! {

impl<'a> Parser<'a> {
    /// Parses the expression that starts at the current token, as far as its
    /// operators bind tighter than `prec`.
    pub(super) fn parse_expr(&mut self, prec: Precedence) -> (res: Result<Expression<'a>, ParserError>)
        requires
            old(self).wf(),
        ensures
            final(self).continues(old(self)),
            agrees(
                viewed(res),
                final(self).index() - old(self).index(),
                expression(old(self).tokens(), old(self).index(), prec),
            ),
        decreases old(self).tokens().remaining(old(self).index()), 3nat,
    {
        reveal(expression);
        reveal(operand);
        reveal(climb);
        reveal(application);
        let ghost ts = self.tokens();
        let ghost start = self.index();
        let mut callee: Option<Identifier<'a>> = match self.current() {
            Token::Identifier(_) => Some(Identifier::from(self.current())),
            _ => None,
        };
        let mut left = self.parse_left_expr()?;
        while !matches!(self.peek(), Token::Newline | Token::Eof) && prec.rank()
            < Precedence::from(self.peek()).rank()
            invariant
                self.continues(old(self)),
                ts == self.tokens(),
                start == old(self).index(),
                start <= self.index(),
                callee matches Some(name) ==> name.token@ == ts.token(start)
                    && ts.kind(start) == TokenType::Identifier,
                expression(ts, start, prec) == match climb(
                    ts,
                    self.index(),
                    left@,
                    match callee {
                        Some(name) => Some(name.token@),
                        None => None,
                    },
                    prec,
                ) {
                    Ok(all) => Ok::<Parsed<ExprView>, ParserError>(
                        Parsed { value: all.value, used: (self.index() - start + all.used) as nat },
                    ),
                    Err(e) => Err(e),
                },
            decreases ts.remaining(self.index()),
        {
            reveal(climb);
            reveal(application);
            self.advance()?;
            left = self.parse_infix_expression(left, callee)?;
            callee = None;
        }
        Ok(left)
    }

    /// Parses what the operator or the opening parenthesis at the current
    /// token makes of `left`: an infix expression with the expression behind
    /// the operator, or a call of `ident`.
    fn parse_infix_expression(&mut self, left: Expression<'a>, ident: Option<Identifier<'a>>) -> (res:
        Result<Expression<'a>, ParserError>)
        requires
            old(self).wf(),
        ensures
            final(self).continues(old(self)),
            agrees(
                viewed(res),
                final(self).index() - old(self).index(),
                application(
                    old(self).tokens(),
                    old(self).index(),
                    left@,
                    match ident {
                        Some(name) => Some(name.token@),
                        None => None,
                    },
                ),
            ),
        decreases old(self).tokens().remaining(old(self).index()), 2nat,
    {
        reveal(application);
        reveal(expression);
        reveal(call_arguments);
        if matches!(self.current(), Token::LParenthasis) {
            match ident {
                Some(name) => {
                    let call = self.parse_function_call(name)?;
                    Ok(Expression::FunctionCall(call))
                },
                None => Err(self.unexpected()),
            }
        } else {
            let token = self.current();
            let operator = match InfixOperator::try_from(token) {
                Ok(operator) => operator,
                Err(e) => {
                    return Err(ParserError::from(e));
                },
            };
            let prec = Precedence::from(token);
            self.advance()?;
            let right = self.parse_expr(prec)?;
            Ok(
                Expression::Infix(
                    InfixExpression { token, operator, left: Box::new(left), right: Box::new(right) },
                ),
            )
        }
    }

    /// Parses an operand: a prefix operator with its operand, a name, a
    /// number, `true` or `false`, or an expression in parentheses.
    fn parse_left_expr(&mut self) -> (res: Result<Expression<'a>, ParserError>)
        requires
            old(self).wf(),
        ensures
            final(self).continues(old(self)),
            agrees(
                viewed(res),
                final(self).index() - old(self).index(),
                operand(old(self).tokens(), old(self).index()),
            ),
        decreases old(self).tokens().remaining(old(self).index()), 2nat,
    {
        reveal(operand);
        match self.current() {
            Token::Not | Token::Plus | Token::Minus => Ok(
                Expression::Prefix(self.parse_prefix_expr()?),
            ),
            Token::Identifier(_) => Ok(Expression::Identifier(self.parse_identifier()?)),
            Token::NumberLiteral(_) => Ok(
                Expression::IntegerLiteral(self.parse_number_literal_expr()?),
            ),
            Token::True | Token::False => Ok(Expression::Boolean(self.parse_bool_expr()?)),
            Token::LParenthasis => self.parse_grouped_expr(),
            _ => Err(self.unexpected()),
        }
    }

    /// Parses the expression in the parentheses that open at the current
    /// token. The closing parenthesis must follow it.
    fn parse_grouped_expr(&mut self) -> (res: Result<Expression<'a>, ParserError>)
        requires
            old(self).wf(),
        ensures
            final(self).continues(old(self)),
            old(self).tokens().kind(old(self).index()) == TokenType::LParenthasis ==> agrees(
                viewed(res),
                final(self).index() - old(self).index(),
                operand(old(self).tokens(), old(self).index()),
            ),
            old(self).tokens().kind(old(self).index()) != TokenType::LParenthasis ==> res == Err::<
                Expression<'a>,
                ParserError,
            >(ParserError::unexpected(old(self).tokens().kind(old(self).index()))),
        decreases old(self).tokens().remaining(old(self).index()), 1nat,
    {
        reveal(operand);
        reveal(expression);
        if !matches!(self.current(), Token::LParenthasis) {
            return Err(self.unexpected());
        }
        self.advance()?;
        let expr = self.parse_expr(Precedence::Lowest)?;
        self.advance()?;
        match self.current() {
            Token::RParenthasis => Ok(expr),
            _ => Err(self.unexpected()),
        }
    }

    /// Parses the call of `identifier` whose arguments open at the current
    /// token.
    fn parse_function_call(&mut self, identifier: Identifier<'a>) -> (res: Result<
        FunctionCallExpression<'a>,
        ParserError,
    >)
        requires
            old(self).wf(),
        ensures
            final(self).continues(old(self)),
            agrees(
                viewed(res),
                final(self).index() - old(self).index(),
                match call_arguments(old(self).tokens(), old(self).index()) {
                    Ok(args) => Ok(
                        Parsed {
                            value: ExprView::FunctionCall {
                                token: identifier.token@,
                                func: identifier.token@,
                                args: args.value,
                            },
                            used: args.used,
                        },
                    ),
                    Err(e) => Err(e),
                },
            ),
        decreases old(self).tokens().remaining(old(self).index()), 1nat,
    {
        let args = self.parse_call_args()?;
        Ok(FunctionCallExpression { token: identifier.token, func: identifier, args })
    }

    /// Parses the arguments of a call, from the opening parenthesis at the
    /// current token to the closing one.
    fn parse_call_args(&mut self) -> (res: Result<Vec<Expression<'a>>, ParserError>)
        requires
            old(self).wf(),
        ensures
            final(self).continues(old(self)),
            agrees(
                match res {
                    Ok(args) => Ok(exprs_view(args@)),
                    Err(e) => Err(e),
                },
                final(self).index() - old(self).index(),
                call_arguments(old(self).tokens(), old(self).index()),
            ),
        decreases old(self).tokens().remaining(old(self).index()), 0nat,
    {
        reveal(call_arguments);
        reveal(arguments);
        reveal(argument);
        let ghost ts = self.tokens();
        let ghost start = self.index();
        let mut args: Vec<Expression<'a>> = Vec::new();
        if !matches!(self.current(), Token::LParenthasis) {
            return Err(self.unexpected());
        }
        self.advance()?;
        self.skip_newlines()?;
        if matches!(self.current(), Token::RParenthasis) {
            assert(exprs_view(args@) =~= Seq::<ExprView>::empty());
            return Ok(args);
        }
        let ghost first = self.index();
        loop
            invariant_except_break
                arguments(ts, first) == match arguments(ts, self.index()) {
                    Ok(rest) => Ok::<Parsed<Seq<ExprView>>, ParserError>(
                        Parsed {
                            value: exprs_view(args@) + rest.value,
                            used: (self.index() - first + rest.used) as nat,
                        },
                    ),
                    Err(e) => Err(e),
                },
            invariant
                self.continues(old(self)),
                ts == self.tokens(),
                start == old(self).index(),
                start < first <= self.index(),
                ts.remaining(self.index()) < ts.remaining(start),
                call_arguments(ts, start) == match arguments(ts, first) {
                    Ok(all) => if ts.kind(first + all.used) != TokenType::RParenthasis {
                        Err::<Parsed<Seq<ExprView>>, ParserError>(
                            ParserError::unexpected(ts.kind(first + all.used)),
                        )
                    } else {
                        Ok(Parsed { value: all.value, used: (first - start + all.used) as nat })
                    },
                    Err(e) => Err(e),
                },
            ensures
                arguments(ts, first) == Ok::<Parsed<Seq<ExprView>>, ParserError>(
                    Parsed { value: exprs_view(args@), used: (self.index() - first) as nat },
                ),
            decreases ts.remaining(self.index()),
        {
            reveal(arguments);
            reveal(argument);
            let ghost before = exprs_view(args@);
            let arg = self.parse_call_arg()?;
            args.push(arg);
            assert(exprs_view(args@) =~= before + seq![arg@]);
            if !matches!(self.current(), Token::Comma) {
                break ;
            }
            self.advance()?;
            self.skip_newlines()?;
            proof {
                let rest = arguments(ts, self.index());
                if rest is Ok {
                    assert(before + (seq![arg@] + rest->Ok_0.value) =~= exprs_view(args@)
                        + rest->Ok_0.value);
                }
            }
        }
        if !matches!(self.current(), Token::RParenthasis) {
            return Err(self.unexpected());
        }
        Ok(args)
    }

    /// Parses one argument of a call, and moves past it and the line breaks
    /// behind it.
    fn parse_call_arg(&mut self) -> (res: Result<Expression<'a>, ParserError>)
        requires
            old(self).wf(),
        ensures
            final(self).continues(old(self)),
            agrees(
                viewed(res),
                final(self).index() - old(self).index(),
                argument(old(self).tokens(), old(self).index()),
            ),
        decreases old(self).tokens().remaining(old(self).index()), 4nat,
    {
        reveal(argument);
        reveal(expression);
        let arg = self.parse_expr(Precedence::Lowest)?;
        self.advance()?;
        self.skip_newlines()?;
        Ok(arg)
    }

    /// Parses the prefix operator at the current token with its operand.
    fn parse_prefix_expr(&mut self) -> (res: Result<PrefixExpression<'a>, ParserError>)
        requires
            old(self).wf(),
        ensures
            final(self).continues(old(self)),
            PrefixOperator::of_kind(old(self).tokens().kind(old(self).index())) is Some ==> agrees(
                viewed(res),
                final(self).index() - old(self).index(),
                operand(old(self).tokens(), old(self).index()),
            ),
            PrefixOperator::of_kind(old(self).tokens().kind(old(self).index())) is None ==> res
                == Err::<PrefixExpression<'a>, ParserError>(
                ParserError::unexpected(old(self).tokens().kind(old(self).index())),
            ),
        decreases old(self).tokens().remaining(old(self).index()), 1nat,
    {
        reveal(operand);
        reveal(expression);
        let token = self.current();
        let operator = match PrefixOperator::try_from(token) {
            Ok(operator) => operator,
            Err(_) => {
                return Err(self.unexpected());
            },
        };
        self.advance()?;
        let subject = self.parse_expr(Precedence::Prefix)?;
        Ok(PrefixExpression { token, operator, subject: Box::new(subject) })
    }

    /// Makes a node of `true` or `false` at the current token.
    fn parse_bool_expr(&mut self) -> (res: Result<BooleanExpression<'a>, ParserError>)
        requires
            old(self).wf(),
        ensures
            final(self).continues(old(self)),
            agrees(
                viewed(res),
                final(self).index() - old(self).index(),
                boolean(old(self).tokens(), old(self).index()),
            ),
    {
        let value = match self.current() {
            Token::True => true,
            Token::False => false,
            _ => {
                return Err(self.unexpected());
            },
        };
        Ok(BooleanExpression { token: self.current(), value })
    }

    /// Makes a node of the name at the current token.
    fn parse_identifier(&mut self) -> (res: Result<Identifier<'a>, ParserError>)
        requires
            old(self).wf(),
        ensures
            final(self).continues(old(self)),
            agrees(
                viewed(res),
                final(self).index() - old(self).index(),
                name(old(self).tokens(), old(self).index()),
            ),
    {
        if let Token::Identifier(_) = self.current() {
            Ok(Identifier { token: self.current() })
        } else {
            Err(self.unexpected())
        }
    }

    /// Converts the number literal at the current token to its value.
    fn parse_number_literal_expr(&mut self) -> (res: Result<
        IntegerLiteralExpression<'a>,
        ParserError,
    >)
        requires
            old(self).wf(),
        ensures
            final(self).continues(old(self)),
            agrees(
                viewed(res),
                final(self).index() - old(self).index(),
                number(old(self).tokens(), old(self).index()),
            ),
    {
        let token = self.current();
        match token {
            Token::NumberLiteral(text) => match parse_integer(text) {
                Ok(value) => Ok(IntegerLiteralExpression { token, value }),
                Err(e) => Err(ParserError::from(e)),
            },
            _ => Err(self.unexpected()),
        }
    }
}

} // verus!
