//! The parser: tokens to a syntax tree, by recursive descent.
//!
//! Each parsing function is specified by a spec function of the same shape over the
//! token values (`SpecToken`), a position and the token last stepped over, which
//! gives the line of an error. A spec function whose recursion rests on an earlier
//! step having moved forward checks that it did (`kept`, `strict`); the parser is
//! proved to always move forward, so those checks never fail on its runs.

use vstd::prelude::*;
use crate::ast::{
    Expression, Statement, Program, ExprSpec, StmtSpec, expr_view, exprs_view, pairs_view,
    stmt_view, stmts_view, params_view, opt_text, opt_token,
};
use crate::text::{decimal, append_str, owned, usize_to_string};
use crate::token::{Token, TokenType, SpecToken};

verus! {

/// Where the parser stands: the next token's index and the token last stepped over.
pub struct PState {
    pub pos: int,
    pub prev: Option<SpecToken>,
}

/// What a parsing step gives: a value and where the parser then stands, or an error.
pub type PRes<T> = Result<(T, PState), Seq<char>>;

/// The number of tokens left.
pub open spec fn rest(toks: Seq<SpecToken>, st: PState) -> nat {
    if 0 <= st.pos <= toks.len() {
        (toks.len() - st.pos) as nat
    } else {
        0
    }
}

/// A step's result, where it did not move backwards.
pub open spec fn kept<T>(toks: Seq<SpecToken>, st: PState, r: PRes<T>) -> PRes<T> {
    match r {
        Ok((x, s2)) => if rest(toks, s2) <= rest(toks, st) {
            r
        } else {
            Err(Seq::empty())
        },
        Err(e) => r,
    }
}

/// A step's result, where it moved forward.
pub open spec fn strict<T>(toks: Seq<SpecToken>, st: PState, r: PRes<T>) -> PRes<T> {
    match r {
        Ok((x, s2)) => if rest(toks, s2) < rest(toks, st) {
            r
        } else {
            Err(Seq::empty())
        },
        Err(e) => r,
    }
}

/// Whether the next token is of kind `k`.
pub open spec fn check(toks: Seq<SpecToken>, st: PState, k: TokenType) -> bool {
    0 <= st.pos < toks.len() && toks[st.pos].kind == k
}

/// Steps over the next token, which becomes the one last stepped over.
pub open spec fn advance(toks: Seq<SpecToken>, st: PState) -> PState {
    if 0 <= st.pos < toks.len() {
        PState { pos: st.pos + 1, prev: Some(toks[st.pos]) }
    } else {
        PState { pos: st.pos, prev: None }
    }
}

/// Whether there is no token left but `EOF`.
pub open spec fn at_end(toks: Seq<SpecToken>, st: PState) -> bool {
    !(0 <= st.pos < toks.len()) || toks[st.pos].kind == TokenType::EOF
}

/// The line of the token last stepped over, or 0.
pub open spec fn line_at(st: PState) -> nat {
    match st.prev {
        Some(t) => t.line,
        None => 0,
    }
}

pub open spec fn with_line(msg: Seq<char>, st: PState) -> Seq<char> {
    msg + " at line "@ + decimal(line_at(st))
}

/// The next token, which must be of kind `k`.
pub open spec fn consume(toks: Seq<SpecToken>, st: PState, k: TokenType, msg: Seq<char>) -> PRes<
    SpecToken,
> {
    if check(toks, st, k) {
        Ok((toks[st.pos], advance(toks, st)))
    } else {
        Err(with_line(msg, st))
    }
}

/// The next token, which must be an identifier; it does not become the token last
/// stepped over.
pub open spec fn consume_ident(toks: Seq<SpecToken>, st: PState, msg: Seq<char>) -> PRes<
    SpecToken,
> {
    if check(toks, st, TokenType::Identifier) {
        Ok((toks[st.pos], PState { pos: st.pos + 1, prev: st.prev }))
    } else {
        Err(msg)
    }
}

/// Steps over line breaks.
pub open spec fn skip_newlines(toks: Seq<SpecToken>, st: PState) -> PState
    decreases rest(toks, st),
{
    if check(toks, st, TokenType::Newline) {
        skip_newlines(toks, advance(toks, st))
    } else {
        st
    }
}

pub proof fn lemma_skip_newlines(toks: Seq<SpecToken>, st: PState)
    ensures
        rest(toks, skip_newlines(toks, st)) <= rest(toks, st),
    decreases rest(toks, st),
{
    if check(toks, st, TokenType::Newline) {
        lemma_skip_newlines(toks, advance(toks, st));
    }
}

/// The operators of a level of binary expressions: 1 `or`, 2 `and`, 3 equality,
/// 4 comparison, 5 terms, 6 factors.
pub open spec fn is_level_op(level: nat, k: TokenType) -> bool {
    if level == 1 {
        k == TokenType::Or
    } else if level == 2 {
        k == TokenType::And
    } else if level == 3 {
        k == TokenType::Equal || k == TokenType::NotEqual
    } else if level == 4 {
        k == TokenType::Greater || k == TokenType::GreaterEqual || k == TokenType::Less || k
            == TokenType::LessEqual
    } else if level == 5 {
        k == TokenType::Plus || k == TokenType::Minus
    } else {
        k == TokenType::Multiply || k == TokenType::Divide || k == TokenType::Modulo
    }
}

pub open spec fn next_is_level_op(toks: Seq<SpecToken>, st: PState, level: nat) -> bool {
    0 <= st.pos < toks.len() && is_level_op(level, toks[st.pos].kind)
}

/// An expression, with an assignment to a name or a property at its top.
pub open spec fn expression(toks: Seq<SpecToken>, st: PState) -> PRes<ExprSpec>
    decreases rest(toks, st), 30int,
{
    match kept(toks, st, binary(toks, st, 1)) {
        Err(e) => Err(e),
        Ok((target, s1)) => if check(toks, s1, TokenType::Assign) {
            match expression(toks, advance(toks, s1)) {
                Err(e) => Err(e),
                Ok((value, s2)) => match target {
                    ExprSpec::Identifier(name) => Ok((ExprSpec::Assignment(name, Box::new(value)), s2)),
                    ExprSpec::PropertyAccess(object, property) => Ok(
                        (ExprSpec::PropertyAssignment(object, property, Box::new(value)), s2),
                    ),
                    _ => Err("Invalid assignment target"@),
                },
            }
        } else {
            Ok((target, s1))
        },
    }
}

/// Binary expressions of a level and above, grouped to the left.
pub open spec fn binary(toks: Seq<SpecToken>, st: PState, level: nat) -> PRes<ExprSpec>
    decreases rest(toks, st), 20 - 2 * level,
{
    if level == 0 || level > 6 {
        Err(Seq::empty())
    } else {
        match kept(toks, st, operand(toks, st, level)) {
            Err(e) => Err(e),
            Ok((left, s1)) => binary_tail(toks, s1, level, left),
        }
    }
}

/// The operand of a level: the next level, or a unary expression under factors.
pub open spec fn operand(toks: Seq<SpecToken>, st: PState, level: nat) -> PRes<ExprSpec>
    decreases rest(toks, st), 19 - 2 * level,
{
    if level == 0 || level > 6 {
        Err(Seq::empty())
    } else if level == 6 {
        unary(toks, st)
    } else {
        binary(toks, st, level + 1)
    }
}

/// The operators and operands that follow `left` on a level.
pub open spec fn binary_tail(toks: Seq<SpecToken>, st: PState, level: nat, left: ExprSpec) -> PRes<
    ExprSpec,
>
    decreases rest(toks, st), 19 - 2 * level,
{
    if level == 0 || level > 6 {
        Err(Seq::empty())
    } else if next_is_level_op(toks, st, level) {
        let op = toks[st.pos];
        match strict(toks, st, operand(toks, advance(toks, st), level)) {
            Err(e) => Err(e),
            Ok((right, s2)) => binary_tail(
                toks,
                s2,
                level,
                ExprSpec::Binary(Box::new(left), op, Box::new(right)),
            ),
        }
    } else {
        Ok((left, st))
    }
}

/// `not` and unary minus, then a call chain.
pub open spec fn unary(toks: Seq<SpecToken>, st: PState) -> PRes<ExprSpec>
    decreases rest(toks, st), 6int,
{
    if check(toks, st, TokenType::Not) || check(toks, st, TokenType::Minus) {
        let op = toks[st.pos];
        match unary(toks, advance(toks, st)) {
            Err(e) => Err(e),
            Ok((right, s1)) => Ok((ExprSpec::Unary(op, Box::new(right)), s1)),
        }
    } else {
        call(toks, st)
    }
}

/// A primary expression followed by calls, method calls and property accesses.
pub open spec fn call(toks: Seq<SpecToken>, st: PState) -> PRes<ExprSpec>
    decreases rest(toks, st), 5int,
{
    match kept(toks, st, primary(toks, st)) {
        Err(e) => Err(e),
        Ok((e, s1)) => call_tail(toks, s1, e),
    }
}

/// Arguments up to a closing `)`: none, or a list; then the `)`.
pub open spec fn arguments_then_close(toks: Seq<SpecToken>, st: PState, msg: Seq<char>) -> PRes<
    Seq<ExprSpec>,
>
    decreases rest(toks, st), 41int,
{
    let args = if !check(toks, st, TokenType::RightParen) {
        kept(toks, st, arg_list(toks, st, Seq::empty()))
    } else {
        Ok((Seq::empty(), st))
    };
    match args {
        Err(e) => Err(e),
        Ok((a, s1)) => match consume(toks, s1, TokenType::RightParen, msg) {
            Err(e) => Err(e),
            Ok((_, s2)) => Ok((a, s2)),
        },
    }
}

pub open spec fn call_tail(toks: Seq<SpecToken>, st: PState, e: ExprSpec) -> PRes<ExprSpec>
    decreases rest(toks, st), 4int,
{
    if check(toks, st, TokenType::LeftParen) {
        match strict(
            toks,
            st,
            arguments_then_close(toks, advance(toks, st), "Expected ')' after arguments"@),
        ) {
            Err(err) => Err(err),
            Ok((args, s2)) => call_tail(toks, s2, ExprSpec::Call(Box::new(e), args)),
        }
    } else if check(toks, st, TokenType::Dot) {
        match consume_ident(toks, advance(toks, st), "Expected property name after '.'"@) {
            Err(err) => Err(err),
            Ok((member, s2)) => if check(toks, s2, TokenType::LeftParen) {
                match strict(
                    toks,
                    st,
                    arguments_then_close(toks, advance(toks, s2), "Expected ')' after arguments"@),
                ) {
                    Err(err) => Err(err),
                    Ok((args, s3)) => call_tail(
                        toks,
                        s3,
                        ExprSpec::MethodCall(Box::new(e), member, args),
                    ),
                }
            } else {
                call_tail(toks, s2, ExprSpec::PropertyAccess(Box::new(e), member))
            },
        }
    } else {
        Ok((e, st))
    }
}

/// Expressions separated by commas.
pub open spec fn arg_list(toks: Seq<SpecToken>, st: PState, acc: Seq<ExprSpec>) -> PRes<
    Seq<ExprSpec>,
>
    decreases rest(toks, st), 40int,
{
    match kept(toks, st, expression(toks, st)) {
        Err(e) => Err(e),
        Ok((e, s1)) => if check(toks, s1, TokenType::Comma) {
            arg_list(toks, advance(toks, s1), acc.push(e))
        } else {
            Ok((acc.push(e), s1))
        },
    }
}

/// `key: value` pairs separated by commas.
pub open spec fn pair_list(toks: Seq<SpecToken>, st: PState, acc: Seq<(ExprSpec, ExprSpec)>) -> PRes<
    Seq<(ExprSpec, ExprSpec)>,
>
    decreases rest(toks, st), 40int,
{
    match kept(toks, st, expression(toks, st)) {
        Err(e) => Err(e),
        Ok((key, s1)) => match consume(toks, s1, TokenType::Colon, "Expected ':' after dictionary key"@) {
            Err(e) => Err(e),
            Ok((_, s2)) => match kept(toks, st, expression(toks, s2)) {
                Err(e) => Err(e),
                Ok((value, s3)) => if check(toks, s3, TokenType::Comma) {
                    pair_list(toks, advance(toks, s3), acc.push((key, value)))
                } else {
                    Ok((acc.push((key, value)), s3))
                },
            },
        },
    }
}

/// A literal, a name, a parenthesised expression, an array, a dictionary, `new`
/// or `super`.
pub open spec fn primary(toks: Seq<SpecToken>, st: PState) -> PRes<ExprSpec>
    decreases rest(toks, st), 3int,
{
    if !(0 <= st.pos < toks.len()) {
        Err("Unexpected token at line "@ + decimal(line_at(st)))
    } else {
        let t = toks[st.pos];
        let s1 = advance(toks, st);
        match t.kind {
            TokenType::Number => Ok((ExprSpec::Number(t.lexeme), s1)),
            TokenType::String => Ok((ExprSpec::String(t.lexeme), s1)),
            TokenType::True => Ok((ExprSpec::Boolean(true), s1)),
            TokenType::False => Ok((ExprSpec::Boolean(false), s1)),
            TokenType::Null => Ok((ExprSpec::Null, s1)),
            TokenType::New => match kept(toks, s1, primary(toks, s1)) {
                Err(e) => Err(e),
                Ok((class, s2)) => match consume(toks, s2, TokenType::LeftParen, "Expected '(' after new"@) {
                    Err(e) => Err(e),
                    Ok((_, s3)) => match arguments_then_close(toks, s3, "Expected ')' after arguments"@) {
                        Err(e) => Err(e),
                        Ok((args, s4)) => Ok((ExprSpec::NewInstance(Box::new(class), args), s4)),
                    },
                },
            },
            TokenType::Super => match consume(toks, s1, TokenType::LeftParen, "Expected '(' after super"@) {
                Err(e) => Err(e),
                Ok((_, s2)) => {
                    let method = if check(toks, s2, TokenType::RightParen) {
                        Ok((None, s2))
                    } else {
                        match consume_ident(toks, s2, "Expected method name"@) {
                            Err(e) => Err(e),
                            Ok((m, s3)) => Ok((Some(m), s3)),
                        }
                    };
                    match method {
                        Err(e) => Err(e),
                        Ok((m, s3)) => match arguments_then_close(toks, s3, "Expected ')' after super"@) {
                            Err(e) => Err(e),
                            Ok((args, s4)) => Ok((ExprSpec::SuperCall(m, args), s4)),
                        },
                    }
                },
            },
            TokenType::Identifier => Ok((ExprSpec::Identifier(t), s1)),
            TokenType::SelfKw => Ok((ExprSpec::Identifier(t), s1)),
            TokenType::LeftParen => match kept(toks, s1, expression(toks, s1)) {
                Err(e) => Err(e),
                Ok((inner, s2)) => match consume(toks, s2, TokenType::RightParen, "Expected ')' after expression"@) {
                    Err(e) => Err(e),
                    Ok((_, s3)) => Ok((ExprSpec::Grouping(Box::new(inner)), s3)),
                },
            },
            TokenType::LeftBracket => {
                let elems = if !check(toks, s1, TokenType::RightBracket) {
                    kept(toks, s1, arg_list(toks, s1, Seq::empty()))
                } else {
                    Ok((Seq::empty(), s1))
                };
                match elems {
                    Err(e) => Err(e),
                    Ok((es, s2)) => match consume(toks, s2, TokenType::RightBracket, "Expected ']' after array elements"@) {
                        Err(e) => Err(e),
                        Ok((_, s3)) => Ok((ExprSpec::Array(es), s3)),
                    },
                }
            },
            TokenType::LeftBrace => {
                let pairs = if !check(toks, s1, TokenType::RightBrace) {
                    kept(toks, s1, pair_list(toks, s1, Seq::empty()))
                } else {
                    Ok((Seq::empty(), s1))
                };
                match pairs {
                    Err(e) => Err(e),
                    Ok((ps, s2)) => match consume(toks, s2, TokenType::RightBrace, "Expected '}' after dictionary pairs"@) {
                        Err(e) => Err(e),
                        Ok((_, s3)) => Ok((ExprSpec::Dictionary(ps), s3)),
                    },
                }
            },
            _ => Err("Unexpected token at line "@ + decimal(line_at(st))),
        }
    }
}

/// Parameters: `self` or names, separated by commas; none is typed.
pub open spec fn param_list(
    toks: Seq<SpecToken>,
    st: PState,
    acc: Seq<(SpecToken, Option<Seq<char>>)>,
) -> PRes<Seq<(SpecToken, Option<Seq<char>>)>>
    decreases rest(toks, st),
{
    let p = if check(toks, st, TokenType::SelfKw) {
        Ok((toks[st.pos], advance(toks, st)))
    } else {
        consume_ident(toks, st, "Expected parameter name"@)
    };
    match p {
        Err(e) => Err(e),
        Ok((name, s1)) => if check(toks, s1, TokenType::Comma) {
            param_list(toks, advance(toks, s1), acc.push((name, None)))
        } else {
            Ok((acc.push((name, None)), s1))
        },
    }
}

/// `use name` or `use name as alias`.
pub open spec fn use_statement(toks: Seq<SpecToken>, st: PState) -> PRes<StmtSpec> {
    match consume_ident(toks, st, "Expected module name after 'use'"@) {
        Err(e) => Err(e),
        Ok((module, s1)) => if check(toks, s1, TokenType::As) {
            match consume_ident(toks, advance(toks, s1), "Expected alias name after 'as'"@) {
                Err(e) => Err(e),
                Ok((alias, s2)) => Ok((StmtSpec::Use(module.lexeme, Some(alias.lexeme)), s2)),
            }
        } else {
            Ok((StmtSpec::Use(module.lexeme, None), s1))
        },
    }
}

/// Whether the next tokens read `name =` or `name : type =`.
pub open spec fn is_assignment(toks: Seq<SpecToken>, st: PState) -> bool {
    let p = st.pos;
    &&& check(toks, st, TokenType::Identifier)
    &&& p + 1 < toks.len()
    &&& (toks[p + 1].kind == TokenType::Assign || (toks[p + 1].kind == TokenType::Colon && p + 3
        < toks.len() && toks[p + 2].kind == TokenType::Identifier && toks[p + 3].kind
        == TokenType::Assign))
}

/// `name = value` or `name : type = value`, as a variable declaration.
pub open spec fn assignment_statement(toks: Seq<SpecToken>, st: PState) -> PRes<StmtSpec> {
    match consume_ident(toks, st, "Expected variable name"@) {
        Err(e) => Err(e),
        Ok((name, s1)) => {
            let ty = if check(toks, s1, TokenType::Colon) {
                match consume_ident(toks, advance(toks, s1), "Expected type name"@) {
                    Err(e) => Err(e),
                    Ok((t, s2)) => Ok((Some(t.lexeme), s2)),
                }
            } else {
                Ok((None, s1))
            };
            match ty {
                Err(e) => Err(e),
                Ok((ty, s2)) => match consume(toks, s2, TokenType::Assign, "Expected '=' after variable name"@) {
                    Err(e) => Err(e),
                    Ok((_, s3)) => match expression(toks, s3) {
                        Err(e) => Err(e),
                        Ok((init, s4)) => {
                            let s5 = if check(toks, s4, TokenType::Newline) {
                                advance(toks, s4)
                            } else {
                                s4
                            };
                            Ok((StmtSpec::VariableDeclaration(name, ty, Some(init)), s5))
                        },
                    },
                }
            }
        },
    }
}

/// `throw` and an optional value, which is absent before a line break or the end.
pub open spec fn throw_statement(toks: Seq<SpecToken>, st: PState) -> PRes<StmtSpec> {
    if check(toks, st, TokenType::Newline) || check(toks, st, TokenType::EOF) {
        Ok((StmtSpec::Throw(None), st))
    } else {
        match expression(toks, st) {
            Err(e) => Err(e),
            Ok((v, s1)) => Ok((StmtSpec::Throw(Some(v)), s1)),
        }
    }
}

/// `return` and an optional value, then an optional line break.
pub open spec fn return_statement(toks: Seq<SpecToken>, st: PState) -> PRes<StmtSpec> {
    let v = if !check(toks, st, TokenType::Newline) && !at_end(toks, st) {
        match expression(toks, st) {
            Err(e) => Err(e),
            Ok((v, s1)) => Ok((Some(v), s1)),
        }
    } else {
        Ok((None, st))
    };
    match v {
        Err(e) => Err(e),
        Ok((v, s1)) => {
            let s2 = if check(toks, s1, TokenType::Newline) {
                advance(toks, s1)
            } else {
                s1
            };
            Ok((StmtSpec::Return(v), s2))
        },
    }
}

/// An inline block statement: the next token, which the caller has checked.
pub open spec fn inline_statement(toks: Seq<SpecToken>, st: PState, k: TokenType) -> PRes<
    StmtSpec,
> {
    let s1 = advance(toks, st);
    if !(0 <= st.pos < toks.len()) {
        if k == TokenType::RustInline {
            Err("Expected rust inline block"@)
        } else {
            Err("Expected asm inline block"@)
        }
    } else if toks[st.pos].kind == TokenType::RustInline && k == TokenType::RustInline {
        Ok((StmtSpec::RustInline(toks[st.pos].lexeme), s1))
    } else if toks[st.pos].kind == TokenType::AsmInline && k == TokenType::AsmInline {
        Ok((StmtSpec::AsmInline(toks[st.pos].lexeme), s1))
    } else if k == TokenType::RustInline {
        Err("Expected rust inline block"@)
    } else {
        Err("Expected asm inline block"@)
    }
}

/// A declaration: a function, an import, or a statement.
pub open spec fn declaration(toks: Seq<SpecToken>, st: PState) -> PRes<StmtSpec>
    decreases rest(toks, st), 9int,
{
    if check(toks, st, TokenType::Fn) {
        function_declaration(toks, advance(toks, st))
    } else if check(toks, st, TokenType::Use) {
        use_statement(toks, advance(toks, st))
    } else {
        statement(toks, st)
    }
}

/// `def name(params):` and an indented block.
pub open spec fn function_declaration(toks: Seq<SpecToken>, st: PState) -> PRes<StmtSpec>
    decreases rest(toks, st), 5int,
{
    match consume_ident(toks, st, "Expected function name"@) {
        Err(e) => Err(e),
        Ok((name, s1)) => match consume(toks, s1, TokenType::LeftParen, "Expected '(' after function name"@) {
            Err(e) => Err(e),
            Ok((_, s2)) => {
                let params = if !check(toks, s2, TokenType::RightParen) {
                    kept(toks, s2, param_list(toks, s2, Seq::empty()))
                } else {
                    Ok((Seq::empty(), s2))
                };
                match params {
                    Err(e) => Err(e),
                    Ok((ps, s3)) => match consume(toks, s3, TokenType::RightParen, "Expected ')' after parameters"@) {
                        Err(e) => Err(e),
                        Ok((_, s4)) => match consume(toks, s4, TokenType::Colon, "Expected ':' after function signature"@) {
                            Err(e) => Err(e),
                            Ok((_, s5)) => match block(toks, s5) {
                                Err(e) => Err(e),
                                Ok((body, s6)) => Ok((StmtSpec::FunctionDeclaration(name, ps, None, body), s6)),
                            },
                        },
                    },
                }
            },
        },
    }
}

/// A statement other than a declaration.
pub open spec fn statement(toks: Seq<SpecToken>, st: PState) -> PRes<StmtSpec>
    decreases rest(toks, st), 8int,
{
    let s1 = advance(toks, st);
    if check(toks, st, TokenType::If) {
        if_statement(toks, s1)
    } else if check(toks, st, TokenType::While) {
        while_statement(toks, s1)
    } else if check(toks, st, TokenType::For) {
        for_statement(toks, s1)
    } else if check(toks, st, TokenType::Class) {
        class_statement(toks, s1)
    } else if check(toks, st, TokenType::Try) {
        try_statement(toks, s1)
    } else if check(toks, st, TokenType::Throw) {
        throw_statement(toks, s1)
    } else if check(toks, st, TokenType::Return) {
        return_statement(toks, s1)
    } else if check(toks, st, TokenType::LeftBrace) {
        match block(toks, st) {
            Err(e) => Err(e),
            Ok((b, s2)) => Ok((StmtSpec::Block(b), s2)),
        }
    } else if check(toks, st, TokenType::RustInline) {
        inline_statement(toks, st, TokenType::RustInline)
    } else if check(toks, st, TokenType::AsmInline) {
        inline_statement(toks, st, TokenType::AsmInline)
    } else if is_assignment(toks, st) {
        assignment_statement(toks, st)
    } else {
        match expression(toks, st) {
            Err(e) => Err(e),
            Ok((e, s2)) => {
                let s3 = if check(toks, s2, TokenType::Newline) {
                    advance(toks, s2)
                } else {
                    s2
                };
                Ok((StmtSpec::Expression(e), s3))
            },
        }
    }
}

/// `if cond:` and a block, then `elif` (a nested `if` as the whole else branch) or
/// `else:` and a block.
pub open spec fn if_statement(toks: Seq<SpecToken>, st: PState) -> PRes<StmtSpec>
    decreases rest(toks, st), 5int,
{
    match kept(toks, st, expression(toks, st)) {
        Err(e) => Err(e),
        Ok((cond, s1)) => match consume(toks, s1, TokenType::Colon, "Expected ':' after if condition"@) {
            Err(e) => Err(e),
            Ok((_, s2)) => match kept(toks, st, block(toks, s2)) {
                Err(e) => Err(e),
                Ok((then_b, s3)) => if check(toks, s3, TokenType::Elif) {
                    match if_statement(toks, advance(toks, s3)) {
                        Err(e) => Err(e),
                        Ok((inner, s4)) => Ok((StmtSpec::If(cond, then_b, Some(seq![inner])), s4)),
                    }
                } else if check(toks, s3, TokenType::Else) {
                    match consume(toks, advance(toks, s3), TokenType::Colon, "Expected ':' after else"@) {
                        Err(e) => Err(e),
                        Ok((_, s4)) => match block(toks, s4) {
                            Err(e) => Err(e),
                            Ok((else_b, s5)) => Ok((StmtSpec::If(cond, then_b, Some(else_b)), s5)),
                        },
                    }
                } else {
                    Ok((StmtSpec::If(cond, then_b, None), s3))
                },
            },
        },
    }
}

/// `try:` block `catch:` block.
pub open spec fn try_statement(toks: Seq<SpecToken>, st: PState) -> PRes<StmtSpec>
    decreases rest(toks, st), 5int,
{
    match consume(toks, st, TokenType::Colon, "Expected ':' after try"@) {
        Err(e) => Err(e),
        Ok((_, s1)) => match kept(toks, st, block(toks, s1)) {
            Err(e) => Err(e),
            Ok((t, s2)) => match consume(toks, s2, TokenType::Catch, "Expected 'catch' after try block"@) {
                Err(e) => Err(e),
                Ok((_, s3)) => match consume(toks, s3, TokenType::Colon, "Expected ':' after catch"@) {
                    Err(e) => Err(e),
                    Ok((_, s4)) => match block(toks, s4) {
                        Err(e) => Err(e),
                        Ok((c, s5)) => Ok((StmtSpec::Try(t, c), s5)),
                    },
                },
            },
        },
    }
}

/// `while cond:` and a block.
pub open spec fn while_statement(toks: Seq<SpecToken>, st: PState) -> PRes<StmtSpec>
    decreases rest(toks, st), 5int,
{
    match kept(toks, st, expression(toks, st)) {
        Err(e) => Err(e),
        Ok((cond, s1)) => match consume(toks, s1, TokenType::Colon, "Expected ':' after while condition"@) {
            Err(e) => Err(e),
            Ok((_, s2)) => match block(toks, s2) {
                Err(e) => Err(e),
                Ok((body, s3)) => Ok((StmtSpec::While(cond, body), s3)),
            },
        },
    }
}

/// `for name in iterable:` and a block.
pub open spec fn for_statement(toks: Seq<SpecToken>, st: PState) -> PRes<StmtSpec>
    decreases rest(toks, st), 5int,
{
    match consume_ident(toks, st, "Expected variable name"@) {
        Err(e) => Err(e),
        Ok((var, s1)) => match consume(toks, s1, TokenType::In, "Expected 'in' after for variable"@) {
            Err(e) => Err(e),
            Ok((_, s2)) => match kept(toks, s2, expression(toks, s2)) {
                Err(e) => Err(e),
                Ok((iter, s3)) => match consume(toks, s3, TokenType::Colon, "Expected ':' after for clause"@) {
                    Err(e) => Err(e),
                    Ok((_, s4)) => match block(toks, s4) {
                        Err(e) => Err(e),
                        Ok((body, s5)) => Ok((StmtSpec::For(var, iter, body), s5)),
                    },
                },
            },
        },
    }
}

/// An optional line break, an `Indent`, declarations, and the `Dedent` that ends them.
pub open spec fn block(toks: Seq<SpecToken>, st: PState) -> PRes<Seq<StmtSpec>>
    decreases rest(toks, st), 6int,
{
    let s1 = if check(toks, st, TokenType::Newline) {
        advance(toks, st)
    } else {
        st
    };
    match consume(toks, s1, TokenType::Indent, "Expected indented block"@) {
        Err(e) => Err(e),
        Ok((_, s2)) => match kept(toks, s2, block_body(toks, s2, Seq::empty())) {
            Err(e) => Err(e),
            Ok((body, s3)) => match consume(toks, s3, TokenType::Dedent, "Expected end of indented block"@) {
                Err(e) => Err(e),
                Ok((_, s4)) => Ok((body, s4)),
            },
        },
    }
}

/// The declarations of a block, up to its `Dedent` or the end.
pub open spec fn block_body(toks: Seq<SpecToken>, st: PState, acc: Seq<StmtSpec>) -> PRes<
    Seq<StmtSpec>,
>
    decreases rest(toks, st), 10int,
{
    if check(toks, st, TokenType::Dedent) || at_end(toks, st) {
        Ok((acc, st))
    } else {
        let s1 = skip_newlines(toks, st);
        proof {
            lemma_skip_newlines(toks, st);
        }
        if check(toks, s1, TokenType::Dedent) {
            Ok((acc, s1))
        } else {
            match strict(toks, st, declaration(toks, s1)) {
                Err(e) => Err(e),
                Ok((d, s2)) => block_body(toks, s2, acc.push(d)),
            }
        }
    }
}

/// `class Name:` or `class Name(Super):`, then an indented block of methods.
pub open spec fn class_statement(toks: Seq<SpecToken>, st: PState) -> PRes<StmtSpec>
    decreases rest(toks, st), 5int,
{
    match consume_ident(toks, st, "Expected class name"@) {
        Err(e) => Err(e),
        Ok((name, s1)) => {
            let sup = if check(toks, s1, TokenType::LeftParen) {
                match consume_ident(toks, advance(toks, s1), "Expected superclass name"@) {
                    Err(e) => Err(e),
                    Ok((sn, s2)) => match consume(toks, s2, TokenType::RightParen, "Expected ')' after superclass"@) {
                        Err(e) => Err(e),
                        Ok((_, s3)) => Ok((Some(sn), s3)),
                    },
                }
            } else {
                Ok((None, s1))
            };
            match sup {
                Err(e) => Err(e),
                Ok((sup, s2)) => match consume(toks, s2, TokenType::Colon, "Expected ':' after class declaration"@) {
                    Err(e) => Err(e),
                    Ok((_, s3)) => {
                        let s4 = if check(toks, s3, TokenType::Newline) {
                            advance(toks, s3)
                        } else {
                            s3
                        };
                        match consume(toks, s4, TokenType::Indent, "Expected indented block"@) {
                            Err(e) => Err(e),
                            Ok((_, s5)) => match kept(toks, s5, class_body(toks, s5, Seq::empty())) {
                                Err(e) => Err(e),
                                Ok((methods, s6)) => match consume(toks, s6, TokenType::Dedent, "Expected end of indented block"@) {
                                    Err(e) => Err(e),
                                    Ok((_, s7)) => Ok((StmtSpec::ClassDeclaration(name, sup, methods), s7)),
                                },
                            },
                        }
                    },
                },
            }
        },
    }
}

/// The methods of a class body, up to its `Dedent` or the end.
pub open spec fn class_body(toks: Seq<SpecToken>, st: PState, acc: Seq<StmtSpec>) -> PRes<
    Seq<StmtSpec>,
>
    decreases rest(toks, st), 10int,
{
    if check(toks, st, TokenType::Dedent) || at_end(toks, st) {
        Ok((acc, st))
    } else {
        let s1 = skip_newlines(toks, st);
        proof {
            lemma_skip_newlines(toks, st);
        }
        if check(toks, s1, TokenType::Dedent) {
            Ok((acc, s1))
        } else if check(toks, s1, TokenType::Fn) {
            match strict(toks, st, function_declaration(toks, advance(toks, s1))) {
                Err(e) => Err(e),
                Ok((m, s2)) => class_body(toks, s2, acc.push(m)),
            }
        } else {
            Err("Expected method declaration in class"@)
        }
    }
}

/// The declarations of a program, up to its end.
pub open spec fn program_body(toks: Seq<SpecToken>, st: PState, acc: Seq<StmtSpec>) -> PRes<
    Seq<StmtSpec>,
>
    decreases rest(toks, st),
{
    if at_end(toks, st) {
        Ok((acc, st))
    } else {
        let s1 = skip_newlines(toks, st);
        proof {
            lemma_skip_newlines(toks, st);
        }
        if at_end(toks, s1) {
            Ok((acc, s1))
        } else {
            match strict(toks, st, declaration(toks, s1)) {
                Err(e) => Err(e),
                Ok((d, s2)) => program_body(toks, s2, acc.push(d)),
            }
        }
    }
}

/// The statements of a whole token list, or the first error.
pub open spec fn parse_spec(toks: Seq<SpecToken>) -> Result<Seq<StmtSpec>, Seq<char>> {
    match program_body(toks, PState { pos: 0, prev: None }, Seq::empty()) {
        Ok((ss, _)) => Ok(ss),
        Err(e) => Err(e),
    }
}

/// An expression result against its specification.
pub open spec fn expr_out(r: Result<Expression, String>, s: PRes<ExprSpec>, st: PState) -> bool {
    match r {
        Ok(e) => s == Ok::<(ExprSpec, PState), Seq<char>>((expr_view(e), st)),
        Err(m) => s == Err::<(ExprSpec, PState), Seq<char>>(m@),
    }
}

/// An expression list result against its specification.
pub open spec fn exprs_out(r: Result<Vec<Expression>, String>, s: PRes<Seq<ExprSpec>>, st: PState) -> bool {
    match r {
        Ok(es) => s == Ok::<(Seq<ExprSpec>, PState), Seq<char>>((exprs_view(es@), st)),
        Err(m) => s == Err::<(Seq<ExprSpec>, PState), Seq<char>>(m@),
    }
}

/// A statement result against its specification.
pub open spec fn stmt_out(r: Result<Statement, String>, s: PRes<StmtSpec>, st: PState) -> bool {
    match r {
        Ok(x) => s == Ok::<(StmtSpec, PState), Seq<char>>((stmt_view(x), st)),
        Err(m) => s == Err::<(StmtSpec, PState), Seq<char>>(m@),
    }
}

/// A statement list result against its specification.
pub open spec fn stmts_out(r: Result<Vec<Statement>, String>, s: PRes<Seq<StmtSpec>>, st: PState) -> bool {
    match r {
        Ok(x) => s == Ok::<(Seq<StmtSpec>, PState), Seq<char>>((stmts_view(x@), st)),
        Err(m) => s == Err::<(Seq<StmtSpec>, PState), Seq<char>>(m@),
    }
}

/// A token result against its specification.
pub open spec fn token_out(r: Result<Token, String>, s: PRes<SpecToken>, st: PState) -> bool {
    match r {
        Ok(t) => s == Ok::<(SpecToken, PState), Seq<char>>((t@, st)),
        Err(m) => s == Err::<(SpecToken, PState), Seq<char>>(m@),
    }
}

/// A pair list result against its specification.
pub open spec fn pairs_out(
    r: Result<Vec<(Expression, Expression)>, String>,
    s: PRes<Seq<(ExprSpec, ExprSpec)>>,
    st: PState,
) -> bool {
    match r {
        Ok(ps) => s == Ok::<(Seq<(ExprSpec, ExprSpec)>, PState), Seq<char>>((pairs_view(ps@), st)),
        Err(m) => s == Err::<(Seq<(ExprSpec, ExprSpec)>, PState), Seq<char>>(m@),
    }
}

fn unexpected_token_message(line: usize) -> (r: String)
    ensures
        r@ == "Unexpected token at line "@ + decimal(line as nat),
{
    let mut m = owned("Unexpected token at line ");
    append_str(&mut m, usize_to_string(line).as_str());
    m
}

/// A parameter list result against its specification.
pub open spec fn params_out(
    r: Result<Vec<(Token, Option<String>)>, String>,
    s: PRes<Seq<(SpecToken, Option<Seq<char>>)>>,
    st: PState,
) -> bool {
    match r {
        Ok(ps) => s == Ok::<(Seq<(SpecToken, Option<Seq<char>>)>, PState), Seq<char>>((params_view(ps@), st)),
        Err(m) => s == Err::<(Seq<(SpecToken, Option<Seq<char>>)>, PState), Seq<char>>(m@),
    }
}

/// The parser over one token list.
pub struct Parser {
    tokens: Vec<Token>,
    pos: usize,
    previous: Option<Token>,
}

fn with_line_message(message: &str, line: usize) -> (r: String)
    ensures
        r@ == message@ + " at line "@ + decimal(line as nat),
{
    let mut m = owned(message);
    append_str(&mut m, " at line ");
    append_str(&mut m, usize_to_string(line).as_str());
    m
}

impl Parser {
    /// The token values.
    pub closed spec fn toks(&self) -> Seq<SpecToken> {
        self.tokens@.map_values(|t: Token| t@)
    }

    /// Where the parser stands.
    pub closed spec fn pstate(&self) -> PState {
        PState { pos: self.pos as int, prev: opt_token(self.previous) }
    }

    pub closed spec fn wf(&self) -> bool {
        self.pos <= self.tokens@.len()
    }

    /// A parser at the start of `tokens`.
    pub fn new(tokens: Vec<Token>) -> (r: Self)
        ensures
            r.toks() == tokens@.map_values(|t: Token| t@),
            r.pstate() == (PState { pos: 0, prev: None }),
            r.wf(),
    {
        Parser { tokens, pos: 0, previous: None }
    }

    fn check(&self, k: TokenType) -> (r: bool)
        ensures
            r == check(self.toks(), self.pstate(), k),
    {
        self.pos < self.tokens.len() && self.tokens[self.pos].token_type == k
    }

    fn is_at_end(&self) -> (r: bool)
        ensures
            r == at_end(self.toks(), self.pstate()),
    {
        !(self.pos < self.tokens.len()) || self.tokens[self.pos].token_type == TokenType::EOF
    }

    fn current_line(&self) -> (r: usize)
        ensures
            r as nat == line_at(self.pstate()),
    {
        match &self.previous {
            Some(t) => t.line,
            None => 0,
        }
    }

    fn advance(&mut self) -> (r: Option<Token>)
        requires
            old(self).wf(),
        ensures
            final(self).wf(),
            final(self).tokens@ == old(self).tokens@,
            final(self).pstate() == advance(old(self).toks(), old(self).pstate()),
            opt_token(r) == final(self).pstate().prev,
    {
        if self.pos < self.tokens.len() {
            let t = self.tokens[self.pos].duplicate();
            self.previous = Some(t.duplicate());
            self.pos += 1;
            Some(t)
        } else {
            self.previous = None;
            None
        }
    }

    fn match_token(&mut self, k: TokenType) -> (r: bool)
        requires
            old(self).wf(),
        ensures
            final(self).wf(),
            final(self).tokens@ == old(self).tokens@,
            r == check(old(self).toks(), old(self).pstate(), k),
            final(self).pstate() == if r {
                advance(old(self).toks(), old(self).pstate())
            } else {
                old(self).pstate()
            },
    {
        if self.check(k) {
            self.advance();
            return true;
        }
        false
    }

    fn consume(&mut self, k: TokenType, message: &str) -> (r: Result<Token, String>)
        requires
            old(self).wf(),
        ensures
            final(self).wf(),
            final(self).tokens@ == old(self).tokens@,
            token_out(r, consume(old(self).toks(), old(self).pstate(), k, message@), final(self).pstate()),
            r is Ok ==> rest(old(self).toks(), final(self).pstate()) < rest(old(self).toks(), old(self).pstate()),
            r is Err ==> final(self).pstate() == old(self).pstate(),
    {
        if self.check(k) {
            let t = self.tokens[self.pos].duplicate();
            self.advance();
            Ok(t)
        } else {
            Err(with_line_message(message, self.current_line()))
        }
    }

    fn consume_identifier(&mut self, message: &str) -> (r: Result<Token, String>)
        requires
            old(self).wf(),
        ensures
            final(self).wf(),
            final(self).tokens@ == old(self).tokens@,
            token_out(r, consume_ident(old(self).toks(), old(self).pstate(), message@), final(self).pstate()),
            r is Ok ==> rest(old(self).toks(), final(self).pstate()) < rest(old(self).toks(), old(self).pstate()),
            r is Err ==> final(self).pstate() == old(self).pstate(),
    {
        if self.pos < self.tokens.len() && self.tokens[self.pos].token_type == TokenType::Identifier {
            let t = self.tokens[self.pos].duplicate();
            self.pos += 1;
            return Ok(t);
        }
        Err(owned(message))
    }

    fn skip_newlines(&mut self)
        requires
            old(self).wf(),
        ensures
            final(self).wf(),
            final(self).tokens@ == old(self).tokens@,
            final(self).pstate() == skip_newlines(old(self).toks(), old(self).pstate()),
    {
        let ghost toks = self.toks();
        while self.match_token(TokenType::Newline)
            invariant
                self.wf(),
                self.tokens@ == old(self).tokens@,
                toks == self.toks(),
                skip_newlines(toks, self.pstate()) == skip_newlines(toks, old(self).pstate()),
            decreases rest(toks, self.pstate()),
        {
        }
    }

    /// The token last stepped over.
    fn last_token(&self) -> (t: Token)
        requires
            self.previous is Some,
        ensures
            t@ == self.previous->0@,
    {
        match &self.previous {
            Some(t) => t.duplicate(),
            None => {
                proof {
                    assert(false);
                }
                Token::new(TokenType::EOF, String::new(), 0, 0)
            },
        }
    }

    /// Steps over the next token if it is an operator of `level`.
    fn match_level_op(&mut self, level: u8) -> (r: bool)
        requires
            old(self).wf(),
        ensures
            final(self).wf(),
            final(self).tokens@ == old(self).tokens@,
            r == next_is_level_op(old(self).toks(), old(self).pstate(), level as nat),
            final(self).pstate() == if r {
                advance(old(self).toks(), old(self).pstate())
            } else {
                old(self).pstate()
            },
    {
        if level == 1 {
            self.match_token(TokenType::Or)
        } else if level == 2 {
            self.match_token(TokenType::And)
        } else if level == 3 {
            self.match_token(TokenType::Equal) || self.match_token(TokenType::NotEqual)
        } else if level == 4 {
            self.match_token(TokenType::Greater) || self.match_token(TokenType::GreaterEqual)
                || self.match_token(TokenType::Less) || self.match_token(TokenType::LessEqual)
        } else if level == 5 {
            self.match_token(TokenType::Plus) || self.match_token(TokenType::Minus)
        } else {
            self.match_token(TokenType::Multiply) || self.match_token(TokenType::Divide)
                || self.match_token(TokenType::Modulo)
        }
    }

    /// An expression, with an assignment at its top.
    fn expression(&mut self) -> (r: Result<Expression, String>)
        requires
            old(self).wf(),
        ensures
            final(self).wf(),
            final(self).tokens@ == old(self).tokens@,
            expr_out(r, expression(old(self).toks(), old(self).pstate()), final(self).pstate()),
            r is Ok ==> rest(old(self).toks(), final(self).pstate()) < rest(old(self).toks(), old(self).pstate()),
        decreases rest(old(self).toks(), old(self).pstate()), 30int,
    {
        let expr = self.binary(1)?;
        if self.match_token(TokenType::Assign) {
            let value = self.expression()?;
            match expr {
                Expression::Identifier(name) => {
                    return Ok(Expression::Assignment { name, value: Box::new(value) });
                },
                Expression::PropertyAccess { object, property } => {
                    return Ok(
                        Expression::PropertyAssignment { object, property, value: Box::new(value) },
                    );
                },
                _ => {
                    return Err(owned("Invalid assignment target"));
                },
            }
        }
        Ok(expr)
    }

    /// Binary expressions of `level` and above (1 `or`, 2 `and`, 3 equality,
    /// 4 comparison, 5 terms, 6 factors), grouped to the left.
    fn binary(&mut self, level: u8) -> (r: Result<Expression, String>)
        requires
            old(self).wf(),
            1 <= level <= 6,
        ensures
            final(self).wf(),
            final(self).tokens@ == old(self).tokens@,
            expr_out(r, binary(old(self).toks(), old(self).pstate(), level as nat), final(self).pstate()),
            r is Ok ==> rest(old(self).toks(), final(self).pstate()) < rest(old(self).toks(), old(self).pstate()),
        decreases rest(old(self).toks(), old(self).pstate()), 20 - 2 * level,
    {
        let ghost toks = self.toks();
        let ghost st0 = self.pstate();
        let first = self.operand(level)?;
        let ghost s1 = self.pstate();
        let mut expr = first;
        while self.match_level_op(level)
            invariant
                self.wf(),
                self.tokens@ == old(self).tokens@,
                toks == self.toks(),
                toks == old(self).toks(),
                st0 == old(self).pstate(),
                1 <= level <= 6,
                rest(toks, self.pstate()) < rest(toks, st0),
                binary(toks, st0, level as nat) == binary_tail(
                    toks,
                    self.pstate(),
                    level as nat,
                    expr_view(expr),
                ),
            decreases rest(toks, self.pstate()),
        {
            let operator = self.last_token();
            let right = self.operand(level)?;
            expr = Expression::Binary { left: Box::new(expr), operator, right: Box::new(right) };
        }
        Ok(expr)
    }

    /// The operand of a level: the next level, or a unary expression under factors.
    fn operand(&mut self, level: u8) -> (r: Result<Expression, String>)
        requires
            old(self).wf(),
            1 <= level <= 6,
        ensures
            final(self).wf(),
            final(self).tokens@ == old(self).tokens@,
            expr_out(r, operand(old(self).toks(), old(self).pstate(), level as nat), final(self).pstate()),
            r is Ok ==> rest(old(self).toks(), final(self).pstate()) < rest(old(self).toks(), old(self).pstate()),
        decreases rest(old(self).toks(), old(self).pstate()), 19 - 2 * level,
    {
        if level == 6 {
            self.unary()
        } else {
            self.binary(level + 1)
        }
    }

    /// `not` and unary minus, then a call chain.
    fn unary(&mut self) -> (r: Result<Expression, String>)
        requires
            old(self).wf(),
        ensures
            final(self).wf(),
            final(self).tokens@ == old(self).tokens@,
            expr_out(r, unary(old(self).toks(), old(self).pstate()), final(self).pstate()),
            r is Ok ==> rest(old(self).toks(), final(self).pstate()) < rest(old(self).toks(), old(self).pstate()),
        decreases rest(old(self).toks(), old(self).pstate()), 6int,
    {
        if self.match_token(TokenType::Not) || self.match_token(TokenType::Minus) {
            let operator = self.last_token();
            let right = self.unary()?;
            return Ok(Expression::Unary { operator, right: Box::new(right) });
        }
        self.call()
    }

    /// A primary expression followed by calls, method calls and property accesses.
    #[verifier::rlimit(40)]
    fn call(&mut self) -> (r: Result<Expression, String>)
        requires
            old(self).wf(),
        ensures
            final(self).wf(),
            final(self).tokens@ == old(self).tokens@,
            expr_out(r, call(old(self).toks(), old(self).pstate()), final(self).pstate()),
            r is Ok ==> rest(old(self).toks(), final(self).pstate()) < rest(old(self).toks(), old(self).pstate()),
        decreases rest(old(self).toks(), old(self).pstate()), 5int,
    {
        let ghost toks = self.toks();
        let ghost st0 = self.pstate();
        let mut expr = self.primary()?;
        loop
            invariant_except_break
                self.wf(),
                self.tokens@ == old(self).tokens@,
                toks == self.toks(),
                toks == old(self).toks(),
                st0 == old(self).pstate(),
                rest(toks, self.pstate()) < rest(toks, st0),
                call(toks, st0) == call_tail(toks, self.pstate(), expr_view(expr)),
            ensures
                self.wf(),
                self.tokens@ == old(self).tokens@,
                rest(toks, self.pstate()) < rest(toks, st0),
                call(toks, st0) == Ok::<(ExprSpec, PState), Seq<char>>((expr_view(expr), self.pstate())),
            decreases rest(toks, self.pstate()),
        {
            if self.match_token(TokenType::LeftParen) {
                expr = self.finish_call(expr)?;
            } else if self.match_token(TokenType::Dot) {
                let member = self.consume_identifier("Expected property name after '.'")?;
                if self.match_token(TokenType::LeftParen) {
                    let arguments = self.arguments_then_close("Expected ')' after arguments")?;
                    expr = Expression::MethodCall { object: Box::new(expr), method: member, arguments };
                } else {
                    expr = Expression::PropertyAccess { object: Box::new(expr), property: member };
                }
            } else {
                break;
            }
        }
        Ok(expr)
    }

    /// The arguments of a call after its `(`, and the `)`.
    fn finish_call(&mut self, callee: Expression) -> (r: Result<Expression, String>)
        requires
            old(self).wf(),
        ensures
            final(self).wf(),
            final(self).tokens@ == old(self).tokens@,
            match arguments_then_close(old(self).toks(), old(self).pstate(), "Expected ')' after arguments"@) {
                Ok((args, s)) => r matches Ok(e) && expr_view(e) == ExprSpec::Call(Box::new(expr_view(callee)), args) && s == final(self).pstate(),
                Err(m) => r matches Err(m2) && m2@ == m,
            },
            r is Ok ==> rest(old(self).toks(), final(self).pstate()) < rest(old(self).toks(), old(self).pstate()),
        decreases rest(old(self).toks(), old(self).pstate()), 42int,
    {
        let arguments = self.arguments_then_close("Expected ')' after arguments")?;
        Ok(Expression::Call { callee: Box::new(callee), arguments })
    }

    /// Arguments up to a closing `)`, and the `)`.
    fn arguments_then_close(&mut self, message: &str) -> (r: Result<Vec<Expression>, String>)
        requires
            old(self).wf(),
        ensures
            final(self).wf(),
            final(self).tokens@ == old(self).tokens@,
            exprs_out(r, arguments_then_close(old(self).toks(), old(self).pstate(), message@), final(self).pstate()),
            r is Ok ==> rest(old(self).toks(), final(self).pstate()) < rest(old(self).toks(), old(self).pstate()),
        decreases rest(old(self).toks(), old(self).pstate()), 41int,
    {
        let mut arguments: Vec<Expression> = Vec::new();
        if !self.check(TokenType::RightParen) {
            arguments = self.arg_list()?;
        }
        self.consume(TokenType::RightParen, message)?;
        Ok(arguments)
    }

    /// Expressions separated by commas.
    fn arg_list(&mut self) -> (r: Result<Vec<Expression>, String>)
        requires
            old(self).wf(),
        ensures
            final(self).wf(),
            final(self).tokens@ == old(self).tokens@,
            exprs_out(r, arg_list(old(self).toks(), old(self).pstate(), Seq::empty()), final(self).pstate()),
            r is Ok ==> rest(old(self).toks(), final(self).pstate()) < rest(old(self).toks(), old(self).pstate()),
        decreases rest(old(self).toks(), old(self).pstate()), 40int,
    {
        let ghost toks = self.toks();
        let ghost st0 = self.pstate();
        let mut items: Vec<Expression> = Vec::new();
        let mut more = true;
        assert(exprs_view(items@) =~= Seq::empty());
        while more
            invariant
                self.wf(),
                self.tokens@ == old(self).tokens@,
                toks == self.toks(),
                toks == old(self).toks(),
                st0 == old(self).pstate(),
                rest(toks, self.pstate()) <= rest(toks, st0),
                !more ==> rest(toks, self.pstate()) < rest(toks, st0),
                more ==> arg_list(toks, st0, Seq::empty()) == arg_list(toks, self.pstate(), exprs_view(items@)),
                !more ==> arg_list(toks, st0, Seq::empty()) == Ok::<(Seq<ExprSpec>, PState), Seq<char>>(
                    (exprs_view(items@), self.pstate()),
                ),
            decreases rest(toks, self.pstate()), if more { 1int } else { 0int },
        {
            let ghost before = items@;
            let e = self.expression()?;
            items.push(e);
            assert(items@.drop_last() =~= before);
            more = self.match_token(TokenType::Comma);
        }
        Ok(items)
    }

    /// `key: value` pairs separated by commas.
    fn pair_list(&mut self) -> (r: Result<Vec<(Expression, Expression)>, String>)
        requires
            old(self).wf(),
        ensures
            final(self).wf(),
            final(self).tokens@ == old(self).tokens@,
            pairs_out(r, pair_list(old(self).toks(), old(self).pstate(), Seq::empty()), final(self).pstate()),
            r is Ok ==> rest(old(self).toks(), final(self).pstate()) < rest(old(self).toks(), old(self).pstate()),
        decreases rest(old(self).toks(), old(self).pstate()), 40int,
    {
        let ghost toks = self.toks();
        let ghost st0 = self.pstate();
        let mut items: Vec<(Expression, Expression)> = Vec::new();
        let mut more = true;
        assert(pairs_view(items@) =~= Seq::empty());
        while more
            invariant
                self.wf(),
                self.tokens@ == old(self).tokens@,
                toks == self.toks(),
                toks == old(self).toks(),
                st0 == old(self).pstate(),
                rest(toks, self.pstate()) <= rest(toks, st0),
                !more ==> rest(toks, self.pstate()) < rest(toks, st0),
                more ==> pair_list(toks, st0, Seq::empty()) == pair_list(toks, self.pstate(), pairs_view(items@)),
                !more ==> pair_list(toks, st0, Seq::empty()) == Ok::<(Seq<(ExprSpec, ExprSpec)>, PState), Seq<char>>(
                    (pairs_view(items@), self.pstate()),
                ),
            decreases rest(toks, self.pstate()), if more { 1int } else { 0int },
        {
            let ghost before = items@;
            let key = self.expression()?;
            self.consume(TokenType::Colon, "Expected ':' after dictionary key")?;
            let value = self.expression()?;
            items.push((key, value));
            assert(items@.drop_last() =~= before);
            more = self.match_token(TokenType::Comma);
        }
        Ok(items)
    }

    /// A literal, a name, a parenthesised expression, an array, a dictionary, `new`
    /// or `super`.
    #[verifier::rlimit(40)]
    fn primary(&mut self) -> (r: Result<Expression, String>)
        requires
            old(self).wf(),
        ensures
            final(self).wf(),
            final(self).tokens@ == old(self).tokens@,
            expr_out(r, primary(old(self).toks(), old(self).pstate()), final(self).pstate()),
            r is Ok ==> rest(old(self).toks(), final(self).pstate()) < rest(old(self).toks(), old(self).pstate()),
        decreases rest(old(self).toks(), old(self).pstate()), 3int,
    {
        if self.pos < self.tokens.len() {
            let token = self.tokens[self.pos].duplicate();
            match token.token_type {
                TokenType::Number => {
                    self.advance();
                    return Ok(Expression::Number(token.lexeme));
                },
                TokenType::String => {
                    self.advance();
                    return Ok(Expression::String(token.lexeme));
                },
                TokenType::True => {
                    self.advance();
                    return Ok(Expression::Boolean(true));
                },
                TokenType::False => {
                    self.advance();
                    return Ok(Expression::Boolean(false));
                },
                TokenType::Null => {
                    self.advance();
                    return Ok(Expression::Null);
                },
                TokenType::New => {
                    return self.new_instance();
                },
                TokenType::Super => {
                    return self.super_call();
                },
                TokenType::Identifier | TokenType::SelfKw => {
                    self.advance();
                    return Ok(Expression::Identifier(token));
                },
                TokenType::LeftParen => {
                    return self.grouping();
                },
                TokenType::LeftBracket => {
                    return self.array_literal();
                },
                TokenType::LeftBrace => {
                    return self.dictionary_literal();
                },
                _ => {},
            }
        }
        Err(unexpected_token_message(self.current_line()))
    }

    /// `new`, a class and its arguments.
    fn new_instance(&mut self) -> (r: Result<Expression, String>)
        requires
            old(self).wf(),
            old(self).pos < old(self).tokens@.len(),
            old(self).tokens@[old(self).pos as int].token_type == TokenType::New,
        ensures
            final(self).wf(),
            final(self).tokens@ == old(self).tokens@,
            expr_out(r, primary(old(self).toks(), old(self).pstate()), final(self).pstate()),
            r is Ok ==> rest(old(self).toks(), final(self).pstate()) < rest(old(self).toks(), old(self).pstate()),
        decreases rest(old(self).toks(), old(self).pstate()), 2int,
    {
        self.advance();
        let class = self.primary()?;
        self.consume(TokenType::LeftParen, "Expected '(' after new")?;
        let arguments = self.arguments_then_close("Expected ')' after arguments")?;
        Ok(Expression::NewInstance { class: Box::new(class), arguments })
    }

    /// `super(`, an optional method name and the arguments.
    fn super_call(&mut self) -> (r: Result<Expression, String>)
        requires
            old(self).wf(),
            old(self).pos < old(self).tokens@.len(),
            old(self).tokens@[old(self).pos as int].token_type == TokenType::Super,
        ensures
            final(self).wf(),
            final(self).tokens@ == old(self).tokens@,
            expr_out(r, primary(old(self).toks(), old(self).pstate()), final(self).pstate()),
            r is Ok ==> rest(old(self).toks(), final(self).pstate()) < rest(old(self).toks(), old(self).pstate()),
        decreases rest(old(self).toks(), old(self).pstate()), 2int,
    {
        self.advance();
        self.consume(TokenType::LeftParen, "Expected '(' after super")?;
        let method = if self.check(TokenType::RightParen) {
            None
        } else {
            Some(self.consume_identifier("Expected method name")?)
        };
        let arguments = self.arguments_then_close("Expected ')' after super")?;
        Ok(Expression::SuperCall { method, arguments })
    }

    /// An expression in parentheses.
    fn grouping(&mut self) -> (r: Result<Expression, String>)
        requires
            old(self).wf(),
            old(self).pos < old(self).tokens@.len(),
            old(self).tokens@[old(self).pos as int].token_type == TokenType::LeftParen,
        ensures
            final(self).wf(),
            final(self).tokens@ == old(self).tokens@,
            expr_out(r, primary(old(self).toks(), old(self).pstate()), final(self).pstate()),
            r is Ok ==> rest(old(self).toks(), final(self).pstate()) < rest(old(self).toks(), old(self).pstate()),
        decreases rest(old(self).toks(), old(self).pstate()), 2int,
    {
        self.advance();
        let expr = self.expression()?;
        self.consume(TokenType::RightParen, "Expected ')' after expression")?;
        Ok(Expression::Grouping(Box::new(expr)))
    }

    /// An array: elements in square brackets.
    fn array_literal(&mut self) -> (r: Result<Expression, String>)
        requires
            old(self).wf(),
            old(self).pos < old(self).tokens@.len(),
            old(self).tokens@[old(self).pos as int].token_type == TokenType::LeftBracket,
        ensures
            final(self).wf(),
            final(self).tokens@ == old(self).tokens@,
            expr_out(r, primary(old(self).toks(), old(self).pstate()), final(self).pstate()),
            r is Ok ==> rest(old(self).toks(), final(self).pstate()) < rest(old(self).toks(), old(self).pstate()),
        decreases rest(old(self).toks(), old(self).pstate()), 2int,
    {
        self.advance();
        let mut elements: Vec<Expression> = Vec::new();
        assert(exprs_view(elements@) =~= Seq::empty());
        if !self.check(TokenType::RightBracket) {
            elements = self.arg_list()?;
        }
        self.consume(TokenType::RightBracket, "Expected ']' after array elements")?;
        Ok(Expression::Array(elements))
    }

    /// A dictionary: key-value pairs in braces.
    fn dictionary_literal(&mut self) -> (r: Result<Expression, String>)
        requires
            old(self).wf(),
            old(self).pos < old(self).tokens@.len(),
            old(self).tokens@[old(self).pos as int].token_type == TokenType::LeftBrace,
        ensures
            final(self).wf(),
            final(self).tokens@ == old(self).tokens@,
            expr_out(r, primary(old(self).toks(), old(self).pstate()), final(self).pstate()),
            r is Ok ==> rest(old(self).toks(), final(self).pstate()) < rest(old(self).toks(), old(self).pstate()),
        decreases rest(old(self).toks(), old(self).pstate()), 2int,
    {
        self.advance();
        let mut pairs: Vec<(Expression, Expression)> = Vec::new();
        assert(pairs_view(pairs@) =~= Seq::empty());
        if !self.check(TokenType::RightBrace) {
            pairs = self.pair_list()?;
        }
        self.consume(TokenType::RightBrace, "Expected '}' after dictionary pairs")?;
        Ok(Expression::Dictionary(pairs))
    }

    /// Parameters: `self` or names, separated by commas.
    fn parameters(&mut self) -> (r: Result<Vec<(Token, Option<String>)>, String>)
        requires
            old(self).wf(),
        ensures
            final(self).wf(),
            final(self).tokens@ == old(self).tokens@,
            params_out(r, param_list(old(self).toks(), old(self).pstate(), Seq::empty()), final(self).pstate()),
            r is Ok ==> rest(old(self).toks(), final(self).pstate()) < rest(old(self).toks(), old(self).pstate()),
    {
        let ghost toks = self.toks();
        let ghost st0 = self.pstate();
        let mut items: Vec<(Token, Option<String>)> = Vec::new();
        let mut more = true;
        assert(params_view(items@) =~= Seq::empty());
        while more
            invariant
                self.wf(),
                self.tokens@ == old(self).tokens@,
                toks == self.toks(),
                toks == old(self).toks(),
                st0 == old(self).pstate(),
                rest(toks, self.pstate()) <= rest(toks, st0),
                !more ==> rest(toks, self.pstate()) < rest(toks, st0),
                more ==> param_list(toks, st0, Seq::empty()) == param_list(toks, self.pstate(), params_view(items@)),
                !more ==> param_list(toks, st0, Seq::empty()) == Ok::<(Seq<(SpecToken, Option<Seq<char>>)>, PState), Seq<char>>(
                    (params_view(items@), self.pstate()),
                ),
            decreases rest(toks, self.pstate()), if more { 1int } else { 0int },
        {
            let ghost before = items@;
            let param_name = if self.match_token(TokenType::SelfKw) {
                self.last_token()
            } else {
                self.consume_identifier("Expected parameter name")?
            };
            let item = (param_name, None);
            items.push(item);
            assert(params_view(items@) =~= params_view(before).push((item.0@, None)));
            more = self.match_token(TokenType::Comma);
        }
        Ok(items)
    }

    /// `def name(params):` and an indented block, after the `def`.
    fn function_declaration(&mut self) -> (r: Result<Statement, String>)
        requires
            old(self).wf(),
        ensures
            final(self).wf(),
            final(self).tokens@ == old(self).tokens@,
            stmt_out(r, function_declaration(old(self).toks(), old(self).pstate()), final(self).pstate()),
            r is Ok ==> rest(old(self).toks(), final(self).pstate()) < rest(old(self).toks(), old(self).pstate()),
        decreases rest(old(self).toks(), old(self).pstate()), 5int,
    {
        let name = self.consume_identifier("Expected function name")?;
        self.consume(TokenType::LeftParen, "Expected '(' after function name")?;
        let mut parameters: Vec<(Token, Option<String>)> = Vec::new();
        assert(params_view(parameters@) =~= Seq::empty());
        if !self.check(TokenType::RightParen) {
            parameters = self.parameters()?;
        }
        self.consume(TokenType::RightParen, "Expected ')' after parameters")?;
        self.consume(TokenType::Colon, "Expected ':' after function signature")?;
        let body = self.block()?;
        Ok(Statement::FunctionDeclaration { name, parameters, return_type: None, body })
    }

    /// `use name` or `use name as alias`, after the `use`.
    fn use_statement(&mut self) -> (r: Result<Statement, String>)
        requires
            old(self).wf(),
        ensures
            final(self).wf(),
            final(self).tokens@ == old(self).tokens@,
            stmt_out(r, use_statement(old(self).toks(), old(self).pstate()), final(self).pstate()),
            r is Ok ==> rest(old(self).toks(), final(self).pstate()) < rest(old(self).toks(), old(self).pstate()),
    {
        let module_token = self.consume_identifier("Expected module name after 'use'")?;
        let module = module_token.lexeme;
        let alias = if self.match_token(TokenType::As) {
            let alias_token = self.consume_identifier("Expected alias name after 'as'")?;
            Some(alias_token.lexeme)
        } else {
            None
        };
        Ok(Statement::Use { module, alias })
    }

    /// Whether the next tokens read `name =` or `name : type =`.
    fn is_assignment_statement(&self) -> (r: bool)
        ensures
            r == is_assignment(self.toks(), self.pstate()),
    {
        let p = self.pos;
        let n = self.tokens.len();
        if p < n && self.tokens[p].token_type == TokenType::Identifier {
            if p + 1 < n {
                let next = self.tokens[p + 1].token_type;
                if next == TokenType::Assign {
                    return true;
                } else if next == TokenType::Colon {
                    if p + 2 < n && self.tokens[p + 2].token_type == TokenType::Identifier {
                        if p + 3 < n {
                            return self.tokens[p + 3].token_type == TokenType::Assign;
                        }
                    }
                }
            }
            false
        } else {
            false
        }
    }

    /// `name = value` or `name : type = value`.
    fn assignment_statement(&mut self) -> (r: Result<Statement, String>)
        requires
            old(self).wf(),
        ensures
            final(self).wf(),
            final(self).tokens@ == old(self).tokens@,
            stmt_out(r, assignment_statement(old(self).toks(), old(self).pstate()), final(self).pstate()),
            r is Ok ==> rest(old(self).toks(), final(self).pstate()) < rest(old(self).toks(), old(self).pstate()),
    {
        let name = self.consume_identifier("Expected variable name")?;
        let mut type_annotation: Option<String> = None;
        if self.match_token(TokenType::Colon) {
            let type_token = self.consume_identifier("Expected type name")?;
            type_annotation = Some(type_token.lexeme);
        }
        self.consume(TokenType::Assign, "Expected '=' after variable name")?;
        let initializer = self.expression()?;
        self.match_token(TokenType::Newline);
        Ok(Statement::VariableDeclaration { name, type_annotation, initializer: Some(initializer) })
    }

    /// `throw` and an optional value, after the `throw`.
    fn throw_statement(&mut self) -> (r: Result<Statement, String>)
        requires
            old(self).wf(),
        ensures
            final(self).wf(),
            final(self).tokens@ == old(self).tokens@,
            stmt_out(r, throw_statement(old(self).toks(), old(self).pstate()), final(self).pstate()),
            r is Ok ==> rest(old(self).toks(), final(self).pstate()) <= rest(old(self).toks(), old(self).pstate()),
    {
        let value = if self.check(TokenType::Newline) || self.check(TokenType::EOF) {
            None
        } else {
            Some(self.expression()?)
        };
        Ok(Statement::Throw { value })
    }

    /// `return` and an optional value, after the `return`.
    fn return_statement(&mut self) -> (r: Result<Statement, String>)
        requires
            old(self).wf(),
        ensures
            final(self).wf(),
            final(self).tokens@ == old(self).tokens@,
            stmt_out(r, return_statement(old(self).toks(), old(self).pstate()), final(self).pstate()),
            r is Ok ==> rest(old(self).toks(), final(self).pstate()) <= rest(old(self).toks(), old(self).pstate()),
    {
        let value = if !self.check(TokenType::Newline) && !self.is_at_end() {
            Some(self.expression()?)
        } else {
            None
        };
        self.match_token(TokenType::Newline);
        Ok(Statement::Return { value })
    }

    fn rust_inline_statement(&mut self) -> (r: Result<Statement, String>)
        requires
            old(self).wf(),
        ensures
            final(self).wf(),
            final(self).tokens@ == old(self).tokens@,
            stmt_out(r, inline_statement(old(self).toks(), old(self).pstate(), TokenType::RustInline), final(self).pstate()),
            r is Ok ==> rest(old(self).toks(), final(self).pstate()) < rest(old(self).toks(), old(self).pstate()),
    {
        match self.advance() {
            Some(token) => if token.token_type == TokenType::RustInline {
                Ok(Statement::RustInline { code: token.lexeme })
            } else {
                Err(owned("Expected rust inline block"))
            },
            None => Err(owned("Expected rust inline block")),
        }
    }

    fn asm_inline_statement(&mut self) -> (r: Result<Statement, String>)
        requires
            old(self).wf(),
        ensures
            final(self).wf(),
            final(self).tokens@ == old(self).tokens@,
            stmt_out(r, inline_statement(old(self).toks(), old(self).pstate(), TokenType::AsmInline), final(self).pstate()),
            r is Ok ==> rest(old(self).toks(), final(self).pstate()) < rest(old(self).toks(), old(self).pstate()),
    {
        match self.advance() {
            Some(token) => if token.token_type == TokenType::AsmInline {
                Ok(Statement::AsmInline { code: token.lexeme })
            } else {
                Err(owned("Expected asm inline block"))
            },
            None => Err(owned("Expected asm inline block")),
        }
    }

    /// An optional line break, an `Indent`, declarations, and the closing `Dedent`.
    fn block(&mut self) -> (r: Result<Vec<Statement>, String>)
        requires
            old(self).wf(),
        ensures
            final(self).wf(),
            final(self).tokens@ == old(self).tokens@,
            stmts_out(r, block(old(self).toks(), old(self).pstate()), final(self).pstate()),
            r is Ok ==> rest(old(self).toks(), final(self).pstate()) < rest(old(self).toks(), old(self).pstate()),
        decreases rest(old(self).toks(), old(self).pstate()), 6int,
    {
        self.match_token(TokenType::Newline);
        self.consume(TokenType::Indent, "Expected indented block")?;
        let statements = self.block_body()?;
        self.consume(TokenType::Dedent, "Expected end of indented block")?;
        Ok(statements)
    }

    /// The declarations of a block, up to its `Dedent` or the end.
    fn block_body(&mut self) -> (r: Result<Vec<Statement>, String>)
        requires
            old(self).wf(),
        ensures
            final(self).wf(),
            final(self).tokens@ == old(self).tokens@,
            stmts_out(r, block_body(old(self).toks(), old(self).pstate(), Seq::empty()), final(self).pstate()),
            r is Ok ==> rest(old(self).toks(), final(self).pstate()) <= rest(old(self).toks(), old(self).pstate()),
        decreases rest(old(self).toks(), old(self).pstate()), 10int,
    {
        let ghost toks = self.toks();
        let ghost st0 = self.pstate();
        let mut statements: Vec<Statement> = Vec::new();
        assert(stmts_view(statements@) =~= Seq::empty());
        while !self.check(TokenType::Dedent) && !self.is_at_end()
            invariant_except_break
                self.wf(),
                self.tokens@ == old(self).tokens@,
                toks == self.toks(),
                toks == old(self).toks(),
                st0 == old(self).pstate(),
                rest(toks, self.pstate()) <= rest(toks, st0),
                block_body(toks, st0, Seq::empty()) == block_body(toks, self.pstate(), stmts_view(statements@)),
            ensures
                self.wf(),
                self.tokens@ == old(self).tokens@,
                rest(toks, self.pstate()) <= rest(toks, st0),
                block_body(toks, st0, Seq::empty()) == Ok::<(Seq<StmtSpec>, PState), Seq<char>>(
                    (stmts_view(statements@), self.pstate()),
                ),
            decreases rest(toks, self.pstate()),
        {
            let ghost cur = self.pstate();
            proof {
                lemma_skip_newlines(toks, cur);
            }
            self.skip_newlines();
            if self.check(TokenType::Dedent) {
                break;
            }
            let ghost before = statements@;
            let statement = self.declaration()?;
            statements.push(statement);
            assert(statements@.drop_last() =~= before);
        }
        Ok(statements)
    }

    /// A declaration: a function, an import, or a statement.
    fn declaration(&mut self) -> (r: Result<Statement, String>)
        requires
            old(self).wf(),
        ensures
            final(self).wf(),
            final(self).tokens@ == old(self).tokens@,
            stmt_out(r, declaration(old(self).toks(), old(self).pstate()), final(self).pstate()),
            r is Ok ==> rest(old(self).toks(), final(self).pstate()) < rest(old(self).toks(), old(self).pstate()),
        decreases rest(old(self).toks(), old(self).pstate()), 9int,
    {
        if self.match_token(TokenType::Fn) {
            self.function_declaration()
        } else if self.match_token(TokenType::Use) {
            self.use_statement()
        } else {
            self.statement()
        }
    }

    /// A statement other than a declaration.
    fn statement(&mut self) -> (r: Result<Statement, String>)
        requires
            old(self).wf(),
        ensures
            final(self).wf(),
            final(self).tokens@ == old(self).tokens@,
            stmt_out(r, statement(old(self).toks(), old(self).pstate()), final(self).pstate()),
            r is Ok ==> rest(old(self).toks(), final(self).pstate()) < rest(old(self).toks(), old(self).pstate()),
        decreases rest(old(self).toks(), old(self).pstate()), 8int,
    {
        if self.match_token(TokenType::If) {
            self.if_statement()
        } else if self.match_token(TokenType::While) {
            self.while_statement()
        } else if self.match_token(TokenType::For) {
            self.for_statement()
        } else if self.match_token(TokenType::Class) {
            self.class_statement()
        } else if self.match_token(TokenType::Try) {
            self.try_statement()
        } else if self.match_token(TokenType::Throw) {
            self.throw_statement()
        } else if self.match_token(TokenType::Return) {
            self.return_statement()
        } else if self.check(TokenType::LeftBrace) {
            self.block_statement()
        } else if self.check(TokenType::RustInline) {
            self.rust_inline_statement()
        } else if self.check(TokenType::AsmInline) {
            self.asm_inline_statement()
        } else if self.is_assignment_statement() {
            self.assignment_statement()
        } else {
            let expr = self.expression()?;
            self.match_token(TokenType::Newline);
            Ok(Statement::Expression(expr))
        }
    }

    /// A block standing as a statement.
    fn block_statement(&mut self) -> (r: Result<Statement, String>)
        requires
            old(self).wf(),
        ensures
            final(self).wf(),
            final(self).tokens@ == old(self).tokens@,
            match block(old(self).toks(), old(self).pstate()) {
                Ok((b, s)) => r matches Ok(x) && stmt_view(x) == StmtSpec::Block(b) && s == final(self).pstate(),
                Err(m) => r matches Err(m2) && m2@ == m,
            },
            r is Ok ==> rest(old(self).toks(), final(self).pstate()) < rest(old(self).toks(), old(self).pstate()),
        decreases rest(old(self).toks(), old(self).pstate()), 7int,
    {
        let b = self.block()?;
        Ok(Statement::Block(b))
    }

    /// `if cond:` and a block, then `elif` or `else:`, after the `if`.
    fn if_statement(&mut self) -> (r: Result<Statement, String>)
        requires
            old(self).wf(),
        ensures
            final(self).wf(),
            final(self).tokens@ == old(self).tokens@,
            stmt_out(r, if_statement(old(self).toks(), old(self).pstate()), final(self).pstate()),
            r is Ok ==> rest(old(self).toks(), final(self).pstate()) < rest(old(self).toks(), old(self).pstate()),
        decreases rest(old(self).toks(), old(self).pstate()), 5int,
    {
        let condition = self.expression()?;
        self.consume(TokenType::Colon, "Expected ':' after if condition")?;
        let then_branch = self.block()?;
        let mut else_branch: Option<Vec<Statement>> = None;
        if self.match_token(TokenType::Elif) {
            let inner = self.if_statement()?;
            let v = vec![inner];
            assert(v@ =~= seq![inner]);
            assert(v@.drop_last() =~= Seq::<Statement>::empty());
            assert(stmts_view(Seq::<Statement>::empty()) =~= Seq::empty());
            assert(v@.last() == inner);
            assert(stmts_view(v@) =~= seq![stmt_view(inner)]);
            else_branch = Some(v);
        } else if self.match_token(TokenType::Else) {
            self.consume(TokenType::Colon, "Expected ':' after else")?;
            else_branch = Some(self.block()?);
        }
        Ok(Statement::If { condition, then_branch, else_branch })
    }

    /// `try:` block `catch:` block, after the `try`.
    fn try_statement(&mut self) -> (r: Result<Statement, String>)
        requires
            old(self).wf(),
        ensures
            final(self).wf(),
            final(self).tokens@ == old(self).tokens@,
            stmt_out(r, try_statement(old(self).toks(), old(self).pstate()), final(self).pstate()),
            r is Ok ==> rest(old(self).toks(), final(self).pstate()) < rest(old(self).toks(), old(self).pstate()),
        decreases rest(old(self).toks(), old(self).pstate()), 5int,
    {
        self.consume(TokenType::Colon, "Expected ':' after try")?;
        let try_block = self.block()?;
        self.consume(TokenType::Catch, "Expected 'catch' after try block")?;
        self.consume(TokenType::Colon, "Expected ':' after catch")?;
        let catch_block = self.block()?;
        Ok(Statement::Try { try_block, catch_block })
    }

    /// `while cond:` and a block, after the `while`.
    fn while_statement(&mut self) -> (r: Result<Statement, String>)
        requires
            old(self).wf(),
        ensures
            final(self).wf(),
            final(self).tokens@ == old(self).tokens@,
            stmt_out(r, while_statement(old(self).toks(), old(self).pstate()), final(self).pstate()),
            r is Ok ==> rest(old(self).toks(), final(self).pstate()) < rest(old(self).toks(), old(self).pstate()),
        decreases rest(old(self).toks(), old(self).pstate()), 5int,
    {
        let condition = self.expression()?;
        self.consume(TokenType::Colon, "Expected ':' after while condition")?;
        let body = self.block()?;
        Ok(Statement::While { condition, body })
    }

    /// `for name in iterable:` and a block, after the `for`.
    fn for_statement(&mut self) -> (r: Result<Statement, String>)
        requires
            old(self).wf(),
        ensures
            final(self).wf(),
            final(self).tokens@ == old(self).tokens@,
            stmt_out(r, for_statement(old(self).toks(), old(self).pstate()), final(self).pstate()),
            r is Ok ==> rest(old(self).toks(), final(self).pstate()) < rest(old(self).toks(), old(self).pstate()),
        decreases rest(old(self).toks(), old(self).pstate()), 5int,
    {
        let variable = self.consume_identifier("Expected variable name")?;
        self.consume(TokenType::In, "Expected 'in' after for variable")?;
        let iterable = self.expression()?;
        self.consume(TokenType::Colon, "Expected ':' after for clause")?;
        let body = self.block()?;
        Ok(Statement::For { variable, iterable, body })
    }

    /// `class Name:` or `class Name(Super):` and a block of methods, after the `class`.
    fn class_statement(&mut self) -> (r: Result<Statement, String>)
        requires
            old(self).wf(),
        ensures
            final(self).wf(),
            final(self).tokens@ == old(self).tokens@,
            stmt_out(r, class_statement(old(self).toks(), old(self).pstate()), final(self).pstate()),
            r is Ok ==> rest(old(self).toks(), final(self).pstate()) < rest(old(self).toks(), old(self).pstate()),
        decreases rest(old(self).toks(), old(self).pstate()), 5int,
    {
        let name = self.consume_identifier("Expected class name")?;
        let superclass = if self.match_token(TokenType::LeftParen) {
            let super_name = self.consume_identifier("Expected superclass name")?;
            self.consume(TokenType::RightParen, "Expected ')' after superclass")?;
            Some(super_name)
        } else {
            None
        };
        self.consume(TokenType::Colon, "Expected ':' after class declaration")?;
        self.match_token(TokenType::Newline);
        self.consume(TokenType::Indent, "Expected indented block")?;
        let methods = self.class_body()?;
        self.consume(TokenType::Dedent, "Expected end of indented block")?;
        Ok(Statement::ClassDeclaration { name, superclass, methods })
    }

    /// The methods of a class body, up to its `Dedent` or the end.
    fn class_body(&mut self) -> (r: Result<Vec<Statement>, String>)
        requires
            old(self).wf(),
        ensures
            final(self).wf(),
            final(self).tokens@ == old(self).tokens@,
            stmts_out(r, class_body(old(self).toks(), old(self).pstate(), Seq::empty()), final(self).pstate()),
            r is Ok ==> rest(old(self).toks(), final(self).pstate()) <= rest(old(self).toks(), old(self).pstate()),
        decreases rest(old(self).toks(), old(self).pstate()), 10int,
    {
        let ghost toks = self.toks();
        let ghost st0 = self.pstate();
        let mut methods: Vec<Statement> = Vec::new();
        assert(stmts_view(methods@) =~= Seq::empty());
        while !self.check(TokenType::Dedent) && !self.is_at_end()
            invariant_except_break
                self.wf(),
                self.tokens@ == old(self).tokens@,
                toks == self.toks(),
                toks == old(self).toks(),
                st0 == old(self).pstate(),
                rest(toks, self.pstate()) <= rest(toks, st0),
                class_body(toks, st0, Seq::empty()) == class_body(toks, self.pstate(), stmts_view(methods@)),
            ensures
                self.wf(),
                self.tokens@ == old(self).tokens@,
                rest(toks, self.pstate()) <= rest(toks, st0),
                class_body(toks, st0, Seq::empty()) == Ok::<(Seq<StmtSpec>, PState), Seq<char>>(
                    (stmts_view(methods@), self.pstate()),
                ),
            decreases rest(toks, self.pstate()),
        {
            let ghost cur = self.pstate();
            proof {
                lemma_skip_newlines(toks, cur);
            }
            self.skip_newlines();
            if self.check(TokenType::Dedent) {
                break;
            }
            if self.match_token(TokenType::Fn) {
                let ghost before = methods@;
                let method = self.function_declaration()?;
                methods.push(method);
                assert(methods@.drop_last() =~= before);
            } else {
                return Err(owned("Expected method declaration in class"));
            }
        }
        Ok(methods)
    }

    /// The whole program: declarations up to the end of the tokens.
    pub fn parse(&mut self) -> (r: Result<Program, String>)
        requires
            old(self).wf(),
        ensures
            final(self).wf(),
            match r {
                Ok(p) => program_body(old(self).toks(), old(self).pstate(), Seq::empty())
                    == Ok::<(Seq<StmtSpec>, PState), Seq<char>>((stmts_view(p.statements@), final(self).pstate())),
                Err(m) => program_body(old(self).toks(), old(self).pstate(), Seq::empty())
                    == Err::<(Seq<StmtSpec>, PState), Seq<char>>(m@),
            },
    {
        let ghost toks = self.toks();
        let ghost st0 = self.pstate();
        let mut statements: Vec<Statement> = Vec::new();
        assert(stmts_view(statements@) =~= Seq::empty());
        while !self.is_at_end()
            invariant_except_break
                self.wf(),
                toks == self.toks(),
                toks == old(self).toks(),
                st0 == old(self).pstate(),
                program_body(toks, st0, Seq::empty()) == program_body(toks, self.pstate(), stmts_view(statements@)),
            ensures
                self.wf(),
                program_body(toks, st0, Seq::empty()) == Ok::<(Seq<StmtSpec>, PState), Seq<char>>(
                    (stmts_view(statements@), self.pstate()),
                ),
            decreases rest(toks, self.pstate()),
        {
            let ghost cur = self.pstate();
            proof {
                lemma_skip_newlines(toks, cur);
            }
            self.skip_newlines();
            if self.is_at_end() {
                break;
            }
            let ghost before = statements@;
            let stmt = self.declaration()?;
            statements.push(stmt);
            assert(statements@.drop_last() =~= before);
        }
        Ok(Program { statements })
    }
}

/// The level of a binary operator kind: 1 `or`, 2 `and`, 3 equality, 4 comparison,
/// 5 terms, 6 factors; 0 for any other kind.
pub open spec fn op_level(k: TokenType) -> nat {
    if k == TokenType::Or {
        1
    } else if k == TokenType::And {
        2
    } else if k == TokenType::Equal || k == TokenType::NotEqual {
        3
    } else if k == TokenType::Greater || k == TokenType::GreaterEqual || k == TokenType::Less || k
        == TokenType::LessEqual {
        4
    } else if k == TokenType::Plus || k == TokenType::Minus {
        5
    } else if k == TokenType::Multiply || k == TokenType::Divide || k == TokenType::Modulo {
        6
    } else {
        0
    }
}

/// A token that is a whole operand by itself: a number, a string or a name.
pub open spec fn is_atom(t: SpecToken) -> bool {
    t.kind == TokenType::Number || t.kind == TokenType::String || t.kind == TokenType::Identifier
}

/// The expression such a token stands for.
pub open spec fn atom(t: SpecToken) -> ExprSpec {
    if t.kind == TokenType::Number {
        ExprSpec::Number(t.lexeme)
    } else if t.kind == TokenType::String {
        ExprSpec::String(t.lexeme)
    } else {
        ExprSpec::Identifier(t)
    }
}

proof fn lemma_is_level_op(level: nat, k: TokenType)
    requires
        1 <= level <= 6,
    ensures
        is_level_op(level, k) <==> op_level(k) == level,
{
}

/// An atom followed by a token that neither calls it nor reads a property of it.
proof fn lemma_unary_atom(toks: Seq<SpecToken>, st: PState)
    requires
        0 <= st.pos,
        st.pos + 1 < toks.len(),
        is_atom(toks[st.pos]),
        toks[st.pos + 1].kind != TokenType::LeftParen,
        toks[st.pos + 1].kind != TokenType::Dot,
    ensures
        unary(toks, st) == Ok::<(ExprSpec, PState), Seq<char>>((atom(toks[st.pos]), advance(toks, st))),
{
    let s1 = advance(toks, st);
    assert(primary(toks, st) == Ok::<(ExprSpec, PState), Seq<char>>((atom(toks[st.pos]), s1)));
    assert(call_tail(toks, s1, atom(toks[st.pos])) == Ok::<(ExprSpec, PState), Seq<char>>((atom(toks[st.pos]), s1)));
    assert(call(toks, st) == Ok::<(ExprSpec, PState), Seq<char>>((atom(toks[st.pos]), s1)));
}

/// An atom parses as itself at every level whose operators do not follow it.
proof fn lemma_binary_atom(toks: Seq<SpecToken>, st: PState, level: nat)
    requires
        1 <= level <= 6,
        0 <= st.pos,
        st.pos + 1 < toks.len(),
        is_atom(toks[st.pos]),
        toks[st.pos + 1].kind != TokenType::LeftParen,
        toks[st.pos + 1].kind != TokenType::Dot,
        op_level(toks[st.pos + 1].kind) < level,
    ensures
        binary(toks, st, level) == Ok::<(ExprSpec, PState), Seq<char>>((atom(toks[st.pos]), advance(toks, st))),
        operand(toks, st, level) == Ok::<(ExprSpec, PState), Seq<char>>((atom(toks[st.pos]), advance(toks, st))),
    decreases 6 - level,
{
    let s1 = advance(toks, st);
    if level == 6 {
        lemma_unary_atom(toks, st);
    } else {
        lemma_binary_atom(toks, st, level + 1);
    }
    assert(operand(toks, st, level) == Ok::<(ExprSpec, PState), Seq<char>>((atom(toks[st.pos]), s1)));
    lemma_is_level_op(level, toks[st.pos + 1].kind);
    assert(!next_is_level_op(toks, s1, level));
    assert(binary_tail(toks, s1, level, atom(toks[st.pos])) == Ok::<(ExprSpec, PState), Seq<char>>((atom(toks[st.pos]), s1)));
}

/// Once a level has parsed `e` up to a token that is no operator, every lower level
/// gives `e` too.
proof fn lemma_binary_lower(toks: Seq<SpecToken>, st: PState, s: PState, e: ExprSpec, k: nat, level: nat)
    requires
        1 <= level <= k <= 6,
        binary(toks, st, k) == Ok::<(ExprSpec, PState), Seq<char>>((e, s)),
        rest(toks, s) <= rest(toks, st),
        0 <= s.pos < toks.len(),
        op_level(toks[s.pos].kind) == 0,
    ensures
        binary(toks, st, level) == Ok::<(ExprSpec, PState), Seq<char>>((e, s)),
    decreases k - level,
{
    if level < k {
        lemma_binary_lower(toks, st, s, e, k, level + 1);
        assert(operand(toks, st, level) == Ok::<(ExprSpec, PState), Seq<char>>((e, s)));
        lemma_is_level_op(level, toks[s.pos].kind);
        assert(binary_tail(toks, s, level, e) == Ok::<(ExprSpec, PState), Seq<char>>((e, s)));
    }
}

/// A program that is one expression statement: its tokens parse to that statement.
proof fn lemma_expression_program(toks: Seq<SpecToken>, e: ExprSpec, s: PState)
    requires
        toks.len() >= 2,
        is_atom(toks[0]),
        toks[1].kind != TokenType::Assign,
        toks[1].kind != TokenType::Colon,
        binary(toks, PState { pos: 0, prev: None }, 1) == Ok::<(ExprSpec, PState), Seq<char>>((e, s)),
        s.pos == toks.len() - 1,
        toks[s.pos].kind == TokenType::EOF,
    ensures
        parse_spec(toks) == Ok::<Seq<StmtSpec>, Seq<char>>(seq![StmtSpec::Expression(e)]),
{
    let s0 = PState { pos: 0, prev: None };
    assert(expression(toks, s0) == Ok::<(ExprSpec, PState), Seq<char>>((e, s)));
    assert(!is_assignment(toks, s0));
    assert(statement(toks, s0) == Ok::<(StmtSpec, PState), Seq<char>>((StmtSpec::Expression(e), s)));
    assert(declaration(toks, s0) == Ok::<(StmtSpec, PState), Seq<char>>((StmtSpec::Expression(e), s)));
    assert(skip_newlines(toks, s0) == s0);
    assert(program_body(toks, s, seq![StmtSpec::Expression(e)]) == Ok::<(Seq<StmtSpec>, PState), Seq<char>>(
        (seq![StmtSpec::Expression(e)], s),
    ));
    assert(seq![StmtSpec::Expression(e)] =~= Seq::<StmtSpec>::empty().push(StmtSpec::Expression(e)));
    assert(program_body(toks, s0, Seq::empty()) == Ok::<(Seq<StmtSpec>, PState), Seq<char>>(
        (seq![StmtSpec::Expression(e)], s),
    ));
}

/// A binary operator keeps its operands in source order: the tokens `a op b` parse
/// to the binary expression whose left operand is `a` and whose right operand is
/// `b`, for every binary operator and any numbers, strings or names `a`, `b`.
pub proof fn law_binary_operands_in_order(a: SpecToken, op: SpecToken, b: SpecToken, end: SpecToken)
    requires
        is_atom(a),
        is_atom(b),
        op_level(op.kind) >= 1,
        end.kind == TokenType::EOF,
    ensures
        parse_spec(seq![a, op, b, end]) == Ok::<Seq<StmtSpec>, Seq<char>>(
            seq![StmtSpec::Expression(ExprSpec::Binary(Box::new(atom(a)), op, Box::new(atom(b))))],
        ),
{
    let toks = seq![a, op, b, end];
    let k = op_level(op.kind);
    let s0 = PState { pos: 0, prev: None };
    let s1 = advance(toks, s0);
    let s2 = advance(toks, s1);
    let s3 = advance(toks, s2);
    let bin = ExprSpec::Binary(Box::new(atom(a)), op, Box::new(atom(b)));
    if k < 6 {
        lemma_binary_atom(toks, s0, k + 1);
        lemma_binary_atom(toks, s2, k + 1);
    } else {
        lemma_unary_atom(toks, s0);
        lemma_unary_atom(toks, s2);
    }
    assert(operand(toks, s0, k) == Ok::<(ExprSpec, PState), Seq<char>>((atom(a), s1)));
    assert(operand(toks, s2, k) == Ok::<(ExprSpec, PState), Seq<char>>((atom(b), s3)));
    lemma_is_level_op(k, op.kind);
    lemma_is_level_op(k, end.kind);
    assert(binary_tail(toks, s3, k, bin) == Ok::<(ExprSpec, PState), Seq<char>>((bin, s3)));
    assert(binary_tail(toks, s1, k, atom(a)) == Ok::<(ExprSpec, PState), Seq<char>>((bin, s3)));
    assert(binary(toks, s0, k) == Ok::<(ExprSpec, PState), Seq<char>>((bin, s3)));
    lemma_binary_lower(toks, s0, s3, bin, k, 1);
    lemma_expression_program(toks, bin, s3);
}

/// Operators of one level group to the left: `a op1 b op2 c` parses to
/// `(a op1 b) op2 c`, operands in source order.
pub proof fn law_binary_groups_left(
    a: SpecToken,
    op1: SpecToken,
    b: SpecToken,
    op2: SpecToken,
    c: SpecToken,
    end: SpecToken,
)
    requires
        is_atom(a),
        is_atom(b),
        is_atom(c),
        op_level(op1.kind) >= 1,
        op_level(op2.kind) == op_level(op1.kind),
        end.kind == TokenType::EOF,
    ensures
        parse_spec(seq![a, op1, b, op2, c, end]) == Ok::<Seq<StmtSpec>, Seq<char>>(
            seq![
                StmtSpec::Expression(
                    ExprSpec::Binary(
                        Box::new(ExprSpec::Binary(Box::new(atom(a)), op1, Box::new(atom(b)))),
                        op2,
                        Box::new(atom(c)),
                    ),
                ),
            ],
        ),
{
    let toks = seq![a, op1, b, op2, c, end];
    let k = op_level(op1.kind);
    let s0 = PState { pos: 0, prev: None };
    let s1 = advance(toks, s0);
    let s2 = advance(toks, s1);
    let s3 = advance(toks, s2);
    let s4 = advance(toks, s3);
    let s5 = advance(toks, s4);
    let inner = ExprSpec::Binary(Box::new(atom(a)), op1, Box::new(atom(b)));
    let outer = ExprSpec::Binary(Box::new(inner), op2, Box::new(atom(c)));
    if k < 6 {
        lemma_binary_atom(toks, s0, k + 1);
        lemma_binary_atom(toks, s2, k + 1);
        lemma_binary_atom(toks, s4, k + 1);
    } else {
        lemma_unary_atom(toks, s0);
        lemma_unary_atom(toks, s2);
        lemma_unary_atom(toks, s4);
    }
    assert(operand(toks, s0, k) == Ok::<(ExprSpec, PState), Seq<char>>((atom(a), s1)));
    assert(operand(toks, s2, k) == Ok::<(ExprSpec, PState), Seq<char>>((atom(b), s3)));
    assert(operand(toks, s4, k) == Ok::<(ExprSpec, PState), Seq<char>>((atom(c), s5)));
    lemma_is_level_op(k, op1.kind);
    lemma_is_level_op(k, op2.kind);
    lemma_is_level_op(k, end.kind);
    assert(binary_tail(toks, s5, k, outer) == Ok::<(ExprSpec, PState), Seq<char>>((outer, s5)));
    assert(binary_tail(toks, s3, k, inner) == Ok::<(ExprSpec, PState), Seq<char>>((outer, s5)));
    assert(binary_tail(toks, s1, k, atom(a)) == Ok::<(ExprSpec, PState), Seq<char>>((outer, s5)));
    assert(binary(toks, s0, k) == Ok::<(ExprSpec, PState), Seq<char>>((outer, s5)));
    lemma_binary_lower(toks, s0, s5, outer, k, 1);
    lemma_expression_program(toks, outer, s5);
}

/// On any level, when the tokens before an operator of that level parse to `x` and
/// those after it, up to the end, parse to `y`, the level gives the binary
/// expression with `x` on the left and `y` on the right.
pub proof fn law_binary_left_then_right(
    toks: Seq<SpecToken>,
    st: PState,
    level: nat,
    x: ExprSpec,
    at_op: PState,
    y: ExprSpec,
    end: PState,
)
    requires
        1 <= level <= 6,
        operand(toks, st, level) == Ok::<(ExprSpec, PState), Seq<char>>((x, at_op)),
        rest(toks, at_op) <= rest(toks, st),
        0 <= at_op.pos < toks.len(),
        op_level(toks[at_op.pos].kind) == level,
        operand(toks, advance(toks, at_op), level) == Ok::<(ExprSpec, PState), Seq<char>>((y, end)),
        rest(toks, end) < rest(toks, at_op),
        0 <= end.pos < toks.len(),
        toks[end.pos].kind == TokenType::EOF,
    ensures
        binary(toks, st, level) == Ok::<(ExprSpec, PState), Seq<char>>(
            (ExprSpec::Binary(Box::new(x), toks[at_op.pos], Box::new(y)), end),
        ),
{
    let bin = ExprSpec::Binary(Box::new(x), toks[at_op.pos], Box::new(y));
    lemma_is_level_op(level, toks[at_op.pos].kind);
    lemma_is_level_op(level, toks[end.pos].kind);
    assert(binary_tail(toks, end, level, bin) == Ok::<(ExprSpec, PState), Seq<char>>((bin, end)));
    assert(binary_tail(toks, at_op, level, x) == Ok::<(ExprSpec, PState), Seq<char>>((bin, end)));
}

} // verus!
