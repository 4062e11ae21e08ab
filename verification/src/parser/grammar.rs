use super::rules::{ParserError, Precedence};
use super::stream::TokenStream;
use crate::lexer::{ends_block, TokenType, TokenView};
use crate::syntax::{number_value, BlockView, ExprView, InfixOperator, PrefixOperator, StmtView};
use vstd::prelude::*;

verus! {

/// What a rule of the grammar yields: the value, and how many tokens the
/// parser has moved on. A rule starts with the first token of its construct as
/// the current one and ends with the last token of the construct as the
/// current one, so a construct of one token moves the parser on by none.
pub struct Parsed<T> {
    pub value: T,
    pub used: nat,
}

impl TokenStream {
    /// The failure, if any, of moving on from the token number `i`. The parser
    /// looks two tokens ahead, so this step reads the token number `i + 2`.
    pub open spec fn blocked(self, i: int) -> Option<ParserError> {
        match self.at(i + 2) {
            Err(e) => Some(ParserError::lexical(e)),
            Ok(_) => None,
        }
    }
}

/// Moves past the line breaks at the token number `i`: how many there are.
pub open spec fn newlines(ts: TokenStream, i: int) -> Result<nat, ParserError>
    decreases ts.remaining(i),
{
    if ts.kind(i) != TokenType::Newline {
        Ok(0)
    } else if ts.blocked(i) is Some {
        Err(ts.blocked(i)->0)
    } else {
        match newlines(ts, i + 1) {
            Err(e) => Err(e),
            Ok(n) => Ok(n + 1),
        }
    }
}

/// The name that a call behind the operand at the token number `i` would call:
/// the operand itself, if it is a bare identifier.
pub open spec fn callee_at(ts: TokenStream, i: int) -> Option<TokenView> {
    if ts.kind(i) == TokenType::Identifier {
        Some(ts.token(i))
    } else {
        None
    }
}

/// An expression that starts at the token number `i`, as far as its operators
/// bind tighter than `prec`.
#[verifier::opaque]
pub open spec fn expression(ts: TokenStream, i: int, prec: Precedence) -> Result<
    Parsed<ExprView>,
    ParserError,
>
    decreases ts.remaining(i), 1nat,
{
    match operand(ts, i) {
        Err(e) => Err(e),
        Ok(left) => match climb(ts, i + left.used, left.value, callee_at(ts, i), prec) {
            Err(e) => Err(e),
            Ok(all) => Ok(Parsed { value: all.value, used: left.used + all.used }),
        },
    }
}

/// An operand at the token number `i`: a prefix operator with its operand, a
/// name, a number, `true` or `false`, or an expression in parentheses.
#[verifier::opaque]
pub open spec fn operand(ts: TokenStream, i: int) -> Result<Parsed<ExprView>, ParserError>
    decreases ts.remaining(i), 0nat,
{
    let kind = ts.kind(i);
    if PrefixOperator::of_kind(kind) is Some {
        if ts.blocked(i) is Some {
            Err(ts.blocked(i)->0)
        } else {
            match expression(ts, i + 1, Precedence::Prefix) {
                Err(e) => Err(e),
                Ok(subject) => Ok(
                    Parsed {
                        value: ExprView::Prefix {
                            token: ts.token(i),
                            operator: PrefixOperator::of_kind(kind)->0,
                            subject: Box::new(subject.value),
                        },
                        used: 1 + subject.used,
                    },
                ),
            }
        }
    } else if kind == TokenType::Identifier {
        name(ts, i)
    } else if kind == TokenType::NumberLiteral {
        number(ts, i)
    } else if kind == TokenType::True || kind == TokenType::False {
        boolean(ts, i)
    } else if kind == TokenType::LParenthasis {
        if ts.blocked(i) is Some {
            Err(ts.blocked(i)->0)
        } else {
            match expression(ts, i + 1, Precedence::Lowest) {
                Err(e) => Err(e),
                Ok(inner) => {
                    let last = i + 1 + inner.used;
                    if ts.blocked(last) is Some {
                        Err(ts.blocked(last)->0)
                    } else if ts.kind(last + 1) != TokenType::RParenthasis {
                        Err(ParserError::unexpected(ts.kind(last + 1)))
                    } else {
                        Ok(Parsed { value: inner.value, used: inner.used + 2 })
                    }
                },
            }
        }
    } else {
        Err(ParserError::unexpected(kind))
    }
}

/// The name at the token number `i`.
pub open spec fn name(ts: TokenStream, i: int) -> Result<Parsed<ExprView>, ParserError> {
    if ts.kind(i) == TokenType::Identifier {
        Ok(Parsed { value: ExprView::Identifier { token: ts.token(i) }, used: 0 })
    } else {
        Err(ParserError::unexpected(ts.kind(i)))
    }
}

/// The number at the token number `i`, with the value of its digits. The
/// digits must stand for a value that fits.
pub open spec fn number(ts: TokenStream, i: int) -> Result<Parsed<ExprView>, ParserError> {
    if ts.kind(i) == TokenType::NumberLiteral {
        match number_value(ts.token(i).text) {
            Err(e) => Err(ParserError::lexical(e)),
            Ok(value) => Ok(
                Parsed {
                    value: ExprView::IntegerLiteral { token: ts.token(i), value: value as int },
                    used: 0,
                },
            ),
        }
    } else {
        Err(ParserError::unexpected(ts.kind(i)))
    }
}

/// `true` or `false` at the token number `i`.
pub open spec fn boolean(ts: TokenStream, i: int) -> Result<Parsed<ExprView>, ParserError> {
    let kind = ts.kind(i);
    if kind == TokenType::True || kind == TokenType::False {
        Ok(
            Parsed {
                value: ExprView::Boolean { token: ts.token(i), value: kind == TokenType::True },
                used: 0,
            },
        )
    } else {
        Err(ParserError::unexpected(kind))
    }
}

/// The operators and calls behind the operand `left`, which ends at the token
/// number `i`: as long as the next token binds tighter than `prec`, it is taken
/// with what follows it, and the result is the operand of the next round. So
/// operators of one precedence group from the left. Only the first round can
/// be a call, and only if `left` is the bare identifier `callee`.
#[verifier::opaque]
pub open spec fn climb(
    ts: TokenStream,
    i: int,
    left: ExprView,
    callee: Option<TokenView>,
    prec: Precedence,
) -> Result<Parsed<ExprView>, ParserError>
    decreases ts.remaining(i), 0nat,
{
    let next = ts.kind(i + 1);
    if next == TokenType::Newline || next == TokenType::Eof || !Precedence::of_kind(
        next,
    ).binds_tighter(prec) {
        Ok(Parsed { value: left, used: 0 })
    } else if ts.blocked(i) is Some {
        Err(ts.blocked(i)->0)
    } else {
        match application(ts, i + 1, left, callee) {
            Err(e) => Err(e),
            Ok(applied) => match climb(ts, i + 1 + applied.used, applied.value, None, prec) {
                Err(e) => Err(e),
                Ok(all) => Ok(Parsed { value: all.value, used: 1 + applied.used + all.used }),
            },
        }
    }
}

/// The application of the operator at the token number `i` to `left` and to
/// the expression behind the operator; or, at an opening parenthesis, the call
/// of `callee` with the arguments in the parentheses.
#[verifier::opaque]
pub open spec fn application(
    ts: TokenStream,
    i: int,
    left: ExprView,
    callee: Option<TokenView>,
) -> Result<Parsed<ExprView>, ParserError>
    decreases ts.remaining(i), 1nat,
{
    let kind = ts.kind(i);
    if kind == TokenType::LParenthasis {
        match callee {
            None => Err(ParserError::unexpected(kind)),
            Some(func) => match call_arguments(ts, i) {
                Err(e) => Err(e),
                Ok(args) => Ok(
                    Parsed {
                        value: ExprView::FunctionCall { token: func, func, args: args.value },
                        used: args.used,
                    },
                ),
            },
        }
    } else if InfixOperator::of_kind(kind) is None {
        Err(ParserError::unexpected(kind))
    } else if ts.blocked(i) is Some {
        Err(ts.blocked(i)->0)
    } else {
        match expression(ts, i + 1, Precedence::of_kind(kind)) {
            Err(e) => Err(e),
            Ok(right) => Ok(
                Parsed {
                    value: ExprView::Infix {
                        token: ts.token(i),
                        operator: InfixOperator::of_kind(kind)->0,
                        left: Box::new(left),
                        right: Box::new(right.value),
                    },
                    used: 1 + right.used,
                },
            ),
        }
    }
}

/// The arguments of a call, from the opening parenthesis at the token number
/// `i` to the closing one. Line breaks may stand behind the opening
/// parenthesis, behind an argument and behind a comma.
#[verifier::opaque]
pub open spec fn call_arguments(ts: TokenStream, i: int) -> Result<
    Parsed<Seq<ExprView>>,
    ParserError,
>
    decreases ts.remaining(i), 0nat,
{
    if ts.kind(i) != TokenType::LParenthasis {
        Err(ParserError::unexpected(ts.kind(i)))
    } else if ts.blocked(i) is Some {
        Err(ts.blocked(i)->0)
    } else {
        match newlines(ts, i + 1) {
            Err(e) => Err(e),
            Ok(n) => {
                let first = i + 1 + n;
                if ts.kind(first) == TokenType::RParenthasis {
                    Ok(Parsed { value: Seq::empty(), used: 1 + n })
                } else {
                    match arguments(ts, first) {
                        Err(e) => Err(e),
                        Ok(args) => {
                            let close = first + args.used;
                            if ts.kind(close) != TokenType::RParenthasis {
                                Err(ParserError::unexpected(ts.kind(close)))
                            } else {
                                Ok(Parsed { value: args.value, used: 1 + n + args.used })
                            }
                        },
                    }
                }
            },
        }
    }
}

/// One argument at the token number `i`, with the line breaks behind it. It
/// ends at the first token behind these.
#[verifier::opaque]
pub open spec fn argument(ts: TokenStream, i: int) -> Result<Parsed<ExprView>, ParserError>
    decreases ts.remaining(i), 2nat,
{
    match expression(ts, i, Precedence::Lowest) {
        Err(e) => Err(e),
        Ok(arg) => {
            let last = i + arg.used;
            if ts.blocked(last) is Some {
                Err(ts.blocked(last)->0)
            } else {
                match newlines(ts, last + 1) {
                    Err(e) => Err(e),
                    Ok(n) => Ok(Parsed { value: arg.value, used: arg.used + 1 + n }),
                }
            }
        },
    }
}

/// One argument at the token number `i`, and those that follow it, each behind
/// a comma. It ends at the first token behind the arguments.
#[verifier::opaque]
pub open spec fn arguments(ts: TokenStream, i: int) -> Result<
    Parsed<Seq<ExprView>>,
    ParserError,
>
    decreases ts.remaining(i), 3nat,
{
    match argument(ts, i) {
        Err(e) => Err(e),
        Ok(arg) => {
            let comma = i + arg.used;
            if ts.kind(comma) != TokenType::Comma {
                Ok(Parsed { value: seq![arg.value], used: arg.used })
            } else if ts.blocked(comma) is Some {
                Err(ts.blocked(comma)->0)
            } else {
                match newlines(ts, comma + 1) {
                    Err(e) => Err(e),
                    Ok(m) => match arguments(ts, comma + 1 + m) {
                        Err(e) => Err(e),
                        Ok(rest) => Ok(
                            Parsed {
                                value: seq![arg.value] + rest.value,
                                used: arg.used + 1 + m + rest.used,
                            },
                        ),
                    },
                }
            }
        },
    }
}

/// `return`, with a value unless the line or the input ends behind it.
pub open spec fn return_statement(ts: TokenStream, i: int) -> Result<
    Parsed<StmtView>,
    ParserError,
> {
    let token = ts.token(i);
    let next = ts.kind(i + 1);
    if next == TokenType::Newline || next == TokenType::Eof {
        Ok(Parsed { value: StmtView::Return { token, value: None }, used: 0 })
    } else if ts.blocked(i) is Some {
        Err(ts.blocked(i)->0)
    } else {
        match expression(ts, i + 1, Precedence::Lowest) {
            Err(e) => Err(e),
            Ok(value) => Ok(
                Parsed {
                    value: StmtView::Return { token, value: Some(value.value) },
                    used: 1 + value.used,
                },
            ),
        }
    }
}

/// `[global] name = value`.
pub open spec fn assign_statement(ts: TokenStream, i: int) -> Result<
    Parsed<StmtView>,
    ParserError,
> {
    let token = ts.token(i);
    let global = ts.kind(i) == TokenType::Global;
    let name: int = if global {
        i + 1
    } else {
        i
    };
    if global && ts.blocked(i) is Some {
        Err(ts.blocked(i)->0)
    } else if ts.kind(name) != TokenType::Identifier {
        Err(ParserError::unexpected(ts.kind(name)))
    } else if ts.blocked(name) is Some {
        Err(ts.blocked(name)->0)
    } else if ts.kind(name + 1) != TokenType::Equals {
        Err(ParserError::unexpected(ts.kind(name + 1)))
    } else if ts.blocked(name + 1) is Some {
        Err(ts.blocked(name + 1)->0)
    } else {
        match expression(ts, name + 2, Precedence::Lowest) {
            Err(e) => Err(e),
            Ok(value) => Ok(
                Parsed {
                    value: StmtView::Assign {
                        token,
                        ident: ts.token(name),
                        global,
                        value: value.value,
                    },
                    used: (name - i + 2 + value.used) as nat,
                },
            ),
        }
    }
}

/// The parameters of a declaration, behind the opening parenthesis or the
/// comma at the token number `i`, up to the closing parenthesis. A comma may
/// stand behind the last parameter.
pub open spec fn parameters(ts: TokenStream, i: int) -> Result<
    Parsed<Seq<TokenView>>,
    ParserError,
>
    decreases ts.remaining(i),
{
    if ts.blocked(i) is Some {
        Err(ts.blocked(i)->0)
    } else if ts.kind(i + 1) == TokenType::RParenthasis {
        Ok(Parsed { value: Seq::empty(), used: 1 })
    } else if ts.kind(i + 1) != TokenType::Identifier {
        Err(ParserError::unexpected(ts.kind(i + 1)))
    } else if ts.blocked(i + 1) is Some {
        Err(ts.blocked(i + 1)->0)
    } else if ts.kind(i + 2) == TokenType::RParenthasis {
        Ok(Parsed { value: seq![ts.token(i + 1)], used: 2 })
    } else if ts.kind(i + 2) != TokenType::Comma {
        Err(ParserError::unexpected(ts.kind(i + 2)))
    } else {
        match parameters(ts, i + 2) {
            Err(e) => Err(e),
            Ok(rest) => Ok(
                Parsed { value: seq![ts.token(i + 1)] + rest.value, used: 2 + rest.used },
            ),
        }
    }
}

/// The statement at the token number `i`, behind the line breaks that stand
/// there; none where the input ends. The rules are tried in this order:
/// `return`, `if`, a declaration, an assignment (which starts with `global`, or
/// with a name and `=`), and an expression.
#[verifier::opaque]
pub open spec fn statement(ts: TokenStream, i: int) -> Result<
    Parsed<Option<StmtView>>,
    ParserError,
>
    decreases ts.remaining(i), 2nat,
{
    let kind = ts.kind(i);
    if kind == TokenType::Newline {
        if ts.blocked(i) is Some {
            Err(ts.blocked(i)->0)
        } else {
            match statement(ts, i + 1) {
                Err(e) => Err(e),
                Ok(s) => Ok(Parsed { value: s.value, used: 1 + s.used }),
            }
        }
    } else if kind == TokenType::Eof {
        Ok(Parsed { value: None, used: 0 })
    } else {
        let found = if kind == TokenType::Return {
            return_statement(ts, i)
        } else if kind == TokenType::If {
            if_statement(ts, i)
        } else if kind == TokenType::Function || kind == TokenType::Procedure {
            function_statement(ts, i)
        } else if kind == TokenType::Global || (kind == TokenType::Identifier && ts.kind(i + 1)
            == TokenType::Equals) {
            assign_statement(ts, i)
        } else {
            match expression(ts, i, Precedence::Lowest) {
                Err(e) => Err(e),
                Ok(value) => Ok(
                    Parsed { value: StmtView::Expression { value: value.value }, used: value.used },
                ),
            }
        };
        match found {
            Err(e) => Err(e),
            Ok(s) => Ok(Parsed { value: Some(s.value), used: s.used }),
        }
    }
}

/// The condition of an `if` statement at the token number `i`, `then` behind
/// it, and the line breaks behind `then`. It ends at the first token of the
/// first branch.
#[verifier::opaque]
pub open spec fn if_condition(ts: TokenStream, i: int) -> Result<Parsed<ExprView>, ParserError> {
    match expression(ts, i, Precedence::Lowest) {
        Err(e) => Err(e),
        Ok(condition) => {
            let last = i + condition.used;
            if ts.blocked(last) is Some {
                Err(ts.blocked(last)->0)
            } else if ts.kind(last + 1) != TokenType::Then {
                Err(ParserError::unexpected(ts.kind(last + 1)))
            } else if ts.blocked(last + 1) is Some {
                Err(ts.blocked(last + 1)->0)
            } else {
                match newlines(ts, last + 2) {
                    Err(e) => Err(e),
                    Ok(n) => Ok(Parsed { value: condition.value, used: condition.used + 2 + n }),
                }
            }
        },
    }
}

/// The second branch of an `if` statement: `else` at the token number `i`, the
/// line breaks behind it, and a block that ends at `endif`.
#[verifier::opaque]
pub open spec fn else_branch(ts: TokenStream, i: int) -> Result<Parsed<BlockView>, ParserError>
    decreases ts.remaining(i), 0nat,
{
    if ts.kind(i) != TokenType::Else {
        Err(ParserError::unexpected(ts.kind(i)))
    } else if ts.blocked(i) is Some {
        Err(ts.blocked(i)->0)
    } else {
        match newlines(ts, i + 1) {
            Err(e) => Err(e),
            Ok(n) => match block(ts, i + 1 + n) {
                Err(e) => Err(e),
                Ok(alternative) => {
                    let close = i + 1 + n + alternative.used;
                    if ts.kind(close) != TokenType::Endif {
                        Err(ParserError::unexpected(ts.kind(close)))
                    } else {
                        Ok(Parsed { value: alternative.value, used: 1 + n + alternative.used })
                    }
                },
            },
        }
    }
}

/// `if condition then`, a block, optionally `else` and a block, and `endif`.
/// Each block may start on the line of its keyword or on a later one, and may
/// be empty.
#[verifier::opaque]
pub open spec fn if_statement(ts: TokenStream, i: int) -> Result<Parsed<StmtView>, ParserError>
    decreases ts.remaining(i), 1nat,
{
    if ts.kind(i) != TokenType::If {
        Err(ParserError::unexpected(ts.kind(i)))
    } else if ts.blocked(i) is Some {
        Err(ts.blocked(i)->0)
    } else {
        match if_condition(ts, i + 1) {
            Err(e) => Err(e),
            Ok(condition) => match block(ts, i + 1 + condition.used) {
                Err(e) => Err(e),
                Ok(consequence) => {
                    let end = i + 1 + condition.used + consequence.used;
                    if ts.kind(end) == TokenType::Endif {
                        Ok(
                            Parsed {
                                value: StmtView::If {
                                    token: ts.token(i),
                                    condition: condition.value,
                                    consequence: consequence.value,
                                    alternative: None,
                                },
                                used: 1 + condition.used + consequence.used,
                            },
                        )
                    } else {
                        match else_branch(ts, end) {
                            Err(e) => Err(e),
                            Ok(alternative) => Ok(
                                Parsed {
                                    value: StmtView::If {
                                        token: ts.token(i),
                                        condition: condition.value,
                                        consequence: consequence.value,
                                        alternative: Some(alternative.value),
                                    },
                                    used: 1 + condition.used + consequence.used
                                        + alternative.used,
                                },
                            ),
                        }
                    }
                },
            },
        }
    }
}

/// The name and the parameters of a declaration.
pub struct Signature {
    pub ident: TokenView,
    pub params: Seq<TokenView>,
}

/// The name of a declaration at the token number `i`, the parameters in
/// parentheses, and the line breaks behind them. It ends at the first token
/// of the body.
#[verifier::opaque]
pub open spec fn signature(ts: TokenStream, i: int) -> Result<Parsed<Signature>, ParserError> {
    if ts.kind(i) != TokenType::Identifier {
        Err(ParserError::unexpected(ts.kind(i)))
    } else if ts.blocked(i) is Some {
        Err(ts.blocked(i)->0)
    } else if ts.kind(i + 1) != TokenType::LParenthasis {
        Err(ParserError::unexpected(ts.kind(i + 1)))
    } else {
        match parameters(ts, i + 1) {
            Err(e) => Err(e),
            Ok(params) => {
                let close = i + 1 + params.used;
                if ts.blocked(close) is Some {
                    Err(ts.blocked(close)->0)
                } else {
                    match newlines(ts, close + 1) {
                        Err(e) => Err(e),
                        Ok(n) => Ok(
                            Parsed {
                                value: Signature { ident: ts.token(i), params: params.value },
                                used: 2 + params.used + n,
                            },
                        ),
                    }
                }
            },
        }
    }
}

/// `function` or `procedure`, a name, the parameters in parentheses, a block,
/// and the closing keyword, which must be the one that belongs to the opening
/// one: `endfunction` closes a function and `endprocedure` a procedure.
#[verifier::opaque]
pub open spec fn function_statement(ts: TokenStream, i: int) -> Result<
    Parsed<StmtView>,
    ParserError,
>
    decreases ts.remaining(i), 0nat,
{
    let is_procedure = ts.kind(i) == TokenType::Procedure;
    if ts.kind(i) != TokenType::Function && ts.kind(i) != TokenType::Procedure {
        Err(ParserError::unexpected(ts.kind(i)))
    } else if ts.blocked(i) is Some {
        Err(ts.blocked(i)->0)
    } else {
        match signature(ts, i + 1) {
            Err(e) => Err(e),
            Ok(head) => match block(ts, i + 1 + head.used) {
                Err(e) => Err(e),
                Ok(body) => {
                    let end = i + 1 + head.used + body.used;
                    let closing = if is_procedure {
                        TokenType::Endprocedure
                    } else {
                        TokenType::Endfunction
                    };
                    if ts.kind(end) != closing {
                        Err(ParserError::unexpected(ts.kind(end)))
                    } else {
                        Ok(
                            Parsed {
                                value: StmtView::Function {
                                    token: ts.token(i),
                                    ident: head.value.ident,
                                    params: head.value.params,
                                    body: body.value,
                                    is_procedure,
                                },
                                used: 1 + head.used + body.used,
                            },
                        )
                    }
                },
            },
        }
    }
}

/// The block that starts at the token number `i`: the statements up to a token
/// that ends a block or to the end of the input. That token is the current one
/// afterwards: the block does not take it.
#[verifier::opaque]
pub open spec fn block(ts: TokenStream, i: int) -> Result<Parsed<BlockView>, ParserError>
    decreases ts.remaining(i), 4nat,
{
    match block_statements(ts, i) {
        Err(e) => Err(e),
        Ok(statements) => Ok(
            Parsed {
                value: BlockView { token: ts.token(i), statements: statements.value },
                used: statements.used,
            },
        ),
    }
}

/// The statements of a block from the token number `i` on.
#[verifier::opaque]
pub open spec fn block_statements(ts: TokenStream, i: int) -> Result<
    Parsed<Seq<StmtView>>,
    ParserError,
>
    decreases ts.remaining(i), 3nat,
{
    if ends_block(ts.kind(i)) || ts.kind(i) == TokenType::Eof {
        Ok(Parsed { value: Seq::empty(), used: 0 })
    } else {
        match statement(ts, i) {
            Err(e) => Err(e),
            Ok(first) => match first.value {
                None => Ok(Parsed { value: Seq::empty(), used: first.used }),
                Some(s) => {
                    let last = i + first.used;
                    if ts.blocked(last) is Some {
                        Err(ts.blocked(last)->0)
                    } else {
                        match newlines(ts, last + 1) {
                            Err(e) => Err(e),
                            Ok(n) => match block_statements(ts, last + 1 + n) {
                                Err(e) => Err(e),
                                Ok(rest) => Ok(
                                    Parsed {
                                        value: seq![s] + rest.value,
                                        used: first.used + 1 + n + rest.used,
                                    },
                                ),
                            },
                        }
                    }
                },
            },
        }
    }
}

/// How far a parser gets with the statements of a program: the statements that
/// it parsed, and the violation at which it stopped, if it met one before the
/// end of the input.
pub struct Progress {
    pub statements: Seq<StmtView>,
    pub failure: Option<ParserError>,
}

/// How far a parser gets with the statements of a program from the token
/// number `i` on. A statement counts as parsed once its last token is the
/// current one, also if the lexer fails right behind it.
pub open spec fn progress(ts: TokenStream, i: int) -> Progress
    decreases ts.remaining(i),
{
    if ts.kind(i) == TokenType::Eof {
        Progress { statements: Seq::empty(), failure: None }
    } else {
        match statement(ts, i) {
            Err(e) => Progress { statements: Seq::empty(), failure: Some(e) },
            Ok(first) => match first.value {
                None => Progress { statements: Seq::empty(), failure: None },
                Some(s) => {
                    let last = i + first.used;
                    if ts.blocked(last) is Some {
                        Progress { statements: seq![s], failure: ts.blocked(last) }
                    } else {
                        let rest = progress(ts, last + 1);
                        Progress { statements: seq![s] + rest.statements, failure: rest.failure }
                    }
                },
            },
        }
    }
}

/// The statements of a program from the token number `i` on, up to the end of
/// the input, or the first violation of the grammar in them.
pub open spec fn program_statements(ts: TokenStream, i: int) -> Result<
    Seq<StmtView>,
    ParserError,
> {
    match progress(ts, i).failure {
        Some(e) => Err(e),
        None => Ok(progress(ts, i).statements),
    }
}

/// The program that a stream of tokens stands for, or the first violation of
/// the grammar in it. The parser holds two tokens before it parses, so a
/// failure of the lexer at one of the first two tokens comes first.
pub open spec fn program(ts: TokenStream) -> Result<Seq<StmtView>, ParserError> {
    match ts.at(0) {
        Err(e) => Err(ParserError::lexical(e)),
        Ok(_) => match ts.at(1) {
            Err(e) => Err(ParserError::lexical(e)),
            Ok(_) => program_statements(ts, 0),
        },
    }
}

} // verus!
