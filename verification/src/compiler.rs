//! The compiler: a syntax tree to bytecode for the virtual machine.
//!
//! Compilation is specified over `CState`: the code and constants written so far,
//! the local variables in scope and the depth of scopes. Globals are named by
//! string constants; locals by their slot. Jumps hold a 16-bit offset; where one
//! does not fit, compilation cannot go on: `compile` panics there, and the
//! specification calls that outcome `Fail::Panic`.

use vstd::prelude::*;
use crate::ast::{Expression, Statement, Program};
use crate::bytecode::{Chunk, Function, OpCode, Value, ValueSpec, ChunkSpec, opcode_byte, opcode_name, value_view, values_view};
use crate::text::{append_str, owned, str_eq, push_char};
use crate::linter::{stmt_weight, stmts_weight, lemma_weight_prefix};
use crate::token::{Token, TokenType};

verus! {

/// A local variable: its name and the depth of the scope it was declared in.
pub struct LocalSpec {
    pub name: Seq<char>,
    pub depth: int,
}

/// The compiler's state.
pub struct CState {
    pub code: Seq<u8>,
    pub constants: Seq<ValueSpec>,
    pub locals: Seq<LocalSpec>,
    pub depth: int,
}

/// Why compilation stopped: an error message, or a fault that `compile` panics on.
pub enum Fail {
    Message(Seq<char>),
    Panic(Seq<char>),
}

pub type CRes = Result<CState, Fail>;

pub open spec fn emit(cs: CState, bytes: Seq<u8>) -> CState {
    CState { code: cs.code + bytes, ..cs }
}

pub open spec fn op(o: OpCode) -> u8 {
    opcode_byte(o)
}

/// Adds a constant; its index is the number of constants before it.
pub open spec fn add_constant(cs: CState, v: ValueSpec) -> CState {
    CState { constants: cs.constants.push(v), ..cs }
}

/// An instruction with a constant operand, the index of `v` once added.
pub open spec fn emit_constant_op(cs: CState, o: OpCode, v: ValueSpec) -> CState {
    let i = cs.constants.len();
    emit(add_constant(cs, v), seq![op(o), i as u8])
}

/// The slot of the innermost local named `name`.
pub open spec fn resolve(locals: Seq<LocalSpec>, name: Seq<char>) -> Option<nat>
    decreases locals.len(),
{
    if locals.len() == 0 {
        None
    } else if locals.last().name == name {
        Some((locals.len() - 1) as nat)
    } else {
        resolve(locals.drop_last(), name)
    }
}

/// Whether a local named `name` is declared in the scope at `depth`.
pub open spec fn declared_here(locals: Seq<LocalSpec>, name: Seq<char>, depth: int) -> bool
    decreases locals.len(),
{
    if locals.len() == 0 {
        false
    } else if locals.last().depth < depth {
        false
    } else if locals.last().name == name {
        true
    } else {
        declared_here(locals.drop_last(), name, depth)
    }
}

pub open spec fn is_ident(t: Token) -> bool {
    t.token_type == TokenType::Identifier
}

/// Declaring a variable: in a scope it becomes a local, unless the scope has one of
/// that name; at the top level nothing is done.
pub open spec fn declare(cs: CState, t: Token) -> CRes {
    if cs.depth > 0 {
        if !is_ident(t) {
            Err(Fail::Message("Expected identifier"@))
        } else if declared_here(cs.locals, t.lexeme@, cs.depth) {
            Err(Fail::Message("Variable already declared in this scope"@))
        } else {
            Ok(CState { locals: cs.locals.push(LocalSpec { name: t.lexeme@, depth: cs.depth }), ..cs })
        }
    } else {
        Ok(cs)
    }
}

/// The last local takes the current depth.
pub open spec fn mark_initialized(cs: CState) -> CState {
    if cs.locals.len() > 0 {
        CState {
            locals: cs.locals.update(
                cs.locals.len() - 1,
                LocalSpec { name: cs.locals.last().name, depth: cs.depth },
            ),
            ..cs
        }
    } else {
        cs
    }
}

/// Defining a variable: a local is marked ready; a global is set from the stack.
pub open spec fn define(cs: CState, t: Token) -> CRes {
    if cs.depth > 0 {
        Ok(mark_initialized(cs))
    } else if !is_ident(t) {
        Err(Fail::Message("Expected identifier"@))
    } else {
        Ok(emit_constant_op(cs, OpCode::SetGlobal, ValueSpec::String(t.lexeme@)))
    }
}

/// Leaving a scope: the locals declared deeper are popped off, one `Pop` each.
pub open spec fn pop_locals(cs: CState) -> CState
    decreases cs.locals.len(),
{
    if cs.locals.len() > 0 && cs.locals.last().depth > cs.depth {
        pop_locals(CState { locals: cs.locals.drop_last(), code: cs.code.push(op(OpCode::Pop)), ..cs })
    } else {
        cs
    }
}

pub open spec fn begin_scope(cs: CState) -> CState {
    CState { depth: cs.depth + 1, ..cs }
}

pub open spec fn end_scope(cs: CState) -> CState {
    pop_locals(CState { depth: cs.depth - 1, ..cs })
}

/// A jump with a placeholder offset; where it starts.
pub open spec fn emit_jump(cs: CState, o: OpCode) -> (CState, int) {
    (emit(cs, seq![op(o), 0u8, 0u8]), cs.code.len() as int)
}

/// Writes the offset from after the jump at `at` to the end of the code.
pub open spec fn patch_jump(cs: CState, at: int) -> CRes {
    let jump = cs.code.len() - at - 3;
    if jump > 0xffff {
        Err(Fail::Panic("Too much code to jump over"@))
    } else {
        Ok(
            CState {
                code: cs.code.update(at + 1, ((jump as usize >> 8) & 0xff) as u8).update(
                    at + 2,
                    (jump as usize & 0xff) as u8,
                ),
                ..cs
            },
        )
    }
}

/// A backward jump to `start`.
pub open spec fn emit_loop(cs: CState, start: int) -> CRes {
    let offset = cs.code.len() - start + 2;
    if offset > 0xffff {
        Err(Fail::Panic("Loop body too large"@))
    } else {
        Ok(
            emit(
                cs,
                seq![op(OpCode::Loop), ((offset as usize >> 8) & 0xff) as u8, (offset as usize & 0xff) as u8],
            ),
        )
    }
}

/// The instruction of a binary operator.
pub open spec fn binary_op(k: TokenType) -> Option<OpCode> {
    match k {
        TokenType::Plus => Some(OpCode::Add),
        TokenType::Minus => Some(OpCode::Subtract),
        TokenType::Multiply => Some(OpCode::Multiply),
        TokenType::Divide => Some(OpCode::Divide),
        TokenType::Modulo => Some(OpCode::Modulo),
        TokenType::Equal => Some(OpCode::Equal),
        TokenType::NotEqual => Some(OpCode::NotEqual),
        TokenType::Less => Some(OpCode::Less),
        TokenType::LessEqual => Some(OpCode::LessEqual),
        TokenType::Greater => Some(OpCode::Greater),
        TokenType::GreaterEqual => Some(OpCode::GreaterEqual),
        TokenType::And => Some(OpCode::And),
        TokenType::Or => Some(OpCode::Or),
        _ => None,
    }
}

/// A character as `{:?}` writes it inside a quoted string: quotes, backslashes,
/// tab, carriage return, line feed and NUL are escaped.
pub open spec fn debug_escape(c: char) -> Seq<char> {
    if c == '"' {
        "\\\""@
    } else if c == '\\' {
        "\\\\"@
    } else if c == '\t' {
        "\\t"@
    } else if c == '\r' {
        "\\r"@
    } else if c == '\n' {
        "\\n"@
    } else if c == '\0' {
        "\\0"@
    } else {
        seq![c]
    }
}

/// The escaped characters of a string.
pub open spec fn debug_escaped(s: Seq<char>) -> Seq<char>
    decreases s.len(),
{
    if s.len() == 0 {
        Seq::empty()
    } else {
        debug_escaped(s.drop_last()) + debug_escape(s.last())
    }
}

/// A token's kind as `{:?}` writes it; identifiers and strings carry their text.
pub open spec fn token_debug(t: Token) -> Seq<char> {
    match t.token_type {
        TokenType::Identifier => "Identifier(\""@ + debug_escaped(t.lexeme@) + "\")"@,
        TokenType::String => "String(\""@ + debug_escaped(t.lexeme@) + "\")"@,
        k => kind_name(k),
    }
}

/// The name of a token kind, as `{:?}` writes it.
pub open spec fn kind_name(k: TokenType) -> Seq<char> {
    match k {
        TokenType::Number => "Number"@,
        TokenType::String => "String"@,
        TokenType::Boolean(b) => if b {
            "Boolean(true)"@
        } else {
            "Boolean(false)"@
        },
        TokenType::Identifier => "Identifier"@,
        TokenType::Fn => "Fn"@,
        TokenType::If => "If"@,
        TokenType::Elif => "Elif"@,
        TokenType::Else => "Else"@,
        TokenType::While => "While"@,
        TokenType::For => "For"@,
        TokenType::In => "In"@,
        TokenType::Return => "Return"@,
        TokenType::Use => "Use"@,
        TokenType::Try => "Try"@,
        TokenType::Catch => "Catch"@,
        TokenType::Throw => "Throw"@,
        TokenType::As => "As"@,
        TokenType::True => "True"@,
        TokenType::False => "False"@,
        TokenType::Null => "Null"@,
        TokenType::Class => "Class"@,
        TokenType::New => "New"@,
        TokenType::SelfKw => "SelfKw"@,
        TokenType::Super => "Super"@,
        TokenType::Assign => "Assign"@,
        TokenType::Plus => "Plus"@,
        TokenType::Minus => "Minus"@,
        TokenType::Multiply => "Multiply"@,
        TokenType::Divide => "Divide"@,
        TokenType::Modulo => "Modulo"@,
        TokenType::Equal => "Equal"@,
        TokenType::NotEqual => "NotEqual"@,
        TokenType::Less => "Less"@,
        TokenType::LessEqual => "LessEqual"@,
        TokenType::Greater => "Greater"@,
        TokenType::GreaterEqual => "GreaterEqual"@,
        TokenType::And => "And"@,
        TokenType::Or => "Or"@,
        TokenType::Not => "Not"@,
        TokenType::LeftParen => "LeftParen"@,
        TokenType::RightParen => "RightParen"@,
        TokenType::LeftBrace => "LeftBrace"@,
        TokenType::RightBrace => "RightBrace"@,
        TokenType::LeftBracket => "LeftBracket"@,
        TokenType::RightBracket => "RightBracket"@,
        TokenType::Comma => "Comma"@,
        TokenType::Dot => "Dot"@,
        TokenType::Colon => "Colon"@,
        TokenType::Semicolon => "Semicolon"@,
        TokenType::Newline => "Newline"@,
        TokenType::Indent => "Indent"@,
        TokenType::Dedent => "Dedent"@,
        TokenType::RustInline => "RustInline"@,
        TokenType::AsmInline => "AsmInline"@,
        TokenType::EOF => "EOF"@,
    }
}

/// Compiling an expression: code that leaves its value on the stack. Forms the
/// virtual machine has no instructions for are refused.
pub open spec fn compile_expr(cs: CState, e: Expression) -> CRes
    decreases e, 0int,
{
    match e {
        Expression::Number(t) => Ok(emit_constant_op(cs, OpCode::Constant, ValueSpec::Number(t@))),
        Expression::String(t) => Ok(emit_constant_op(cs, OpCode::Constant, ValueSpec::String(t@))),
        Expression::Boolean(b) => Ok(emit(cs, seq![op(if b { OpCode::True } else { OpCode::False })])),
        Expression::Null => Ok(emit(cs, seq![op(OpCode::Null)])),
        Expression::Identifier(t) => if !is_ident(t) {
            Err(Fail::Panic("Identifier token is not Identifier type"@))
        } else {
            match resolve(cs.locals, t.lexeme@) {
                Some(slot) => Ok(emit(cs, seq![op(OpCode::GetLocal), slot as u8])),
                None => Ok(emit_constant_op(cs, OpCode::GetGlobal, ValueSpec::String(t.lexeme@))),
            }
        },
        Expression::Binary { left, operator, right } => match compile_expr(cs, *left) {
            Err(f) => Err(f),
            Ok(c1) => match compile_expr(c1, *right) {
                Err(f) => Err(f),
                Ok(c2) => match binary_op(operator.token_type) {
                    Some(o) => Ok(emit(c2, seq![op(o)])),
                    None => Err(
                        Fail::Message("Unknown binary operator: "@ + token_debug(operator)),
                    ),
                },
            },
        },
        Expression::Unary { operator, right } => match compile_expr(cs, *right) {
            Err(f) => Err(f),
            Ok(c1) => if operator.token_type == TokenType::Minus {
                Ok(emit(c1, seq![op(OpCode::Negate)]))
            } else if operator.token_type == TokenType::Not {
                Ok(emit(c1, seq![op(OpCode::Not)]))
            } else {
                Err(Fail::Message("Unknown unary operator: "@ + token_debug(operator)))
            },
        },
        Expression::Assignment { name, value } => match compile_expr(cs, *value) {
            Err(f) => Err(f),
            Ok(c1) => if !is_ident(name) {
                Err(Fail::Message("Expected identifier in assignment"@))
            } else {
                match resolve(c1.locals, name.lexeme@) {
                    Some(slot) => Ok(emit(c1, seq![op(OpCode::SetLocal), slot as u8])),
                    None => Ok(emit_constant_op(c1, OpCode::SetGlobal, ValueSpec::String(name.lexeme@))),
                }
            },
        },
        Expression::Call { callee, arguments } => match compile_expr(cs, *callee) {
            Err(f) => Err(f),
            Ok(c1) => match compile_exprs(c1, arguments@) {
                Err(f) => Err(f),
                Ok(c2) => Ok(emit(c2, seq![op(OpCode::Call), arguments@.len() as u8])),
            },
        },
        Expression::Grouping(x) => compile_expr(cs, *x),
        _ => Err(Fail::Message("Unsupported expression"@)),
    }
}

/// Compiling expressions in order.
/// Whether instruction `o` performs the operation that operator kind `k` names:
/// the instruction bears the operator's name, except that `+` adds and `-`
/// subtracts.
pub open spec fn performs(k: TokenType, o: OpCode) -> bool {
    opcode_name(o) == (if k == TokenType::Plus {
        "Add"@
    } else if k == TokenType::Minus {
        "Subtract"@
    } else {
        kind_name(k)
    })
}

/// A binary expression compiles to the code of its left operand, then that of its
/// right operand, then one instruction that performs the operator's operation.
pub proof fn law_binary_compiles_to_its_operation(cs: CState, left: Expression, operator: Token, right: Expression)
    ensures
        ({
            let e = Expression::Binary { left: Box::new(left), operator, right: Box::new(right) };
            compile_expr(cs, e) is Ok ==> {
                &&& compile_expr(cs, left) is Ok
                &&& compile_expr(compile_expr(cs, left)->Ok_0, right) is Ok
                &&& exists|o: OpCode|
                    #[trigger] performs(operator.token_type, o) && compile_expr(cs, e)->Ok_0 == emit(
                        compile_expr(compile_expr(cs, left)->Ok_0, right)->Ok_0,
                        seq![opcode_byte(o)],
                    )
            }
        }),
{
    reveal_strlit("Add");
    reveal_strlit("Subtract");
    let e = Expression::Binary { left: Box::new(left), operator, right: Box::new(right) };
    if compile_expr(cs, e) is Ok {
        let o = binary_op(operator.token_type)->Some_0;
        assert(performs(operator.token_type, o));
    }
}

/// Whether instruction `o` performs the prefix operation that operator kind `k`
/// names: `-` negates, `not` is `Not`.
pub open spec fn performs_prefix(k: TokenType, o: OpCode) -> bool {
    opcode_name(o) == (if k == TokenType::Minus {
        "Negate"@
    } else {
        kind_name(k)
    })
}

/// A unary expression compiles to the code of its operand, then one instruction
/// that performs the operator's prefix operation.
pub proof fn law_unary_compiles_to_its_operation(cs: CState, operator: Token, right: Expression)
    ensures
        ({
            let e = Expression::Unary { operator, right: Box::new(right) };
            compile_expr(cs, e) is Ok ==> {
                &&& compile_expr(cs, right) is Ok
                &&& exists|o: OpCode|
                    #[trigger] performs_prefix(operator.token_type, o) && compile_expr(cs, e)->Ok_0 == emit(
                        compile_expr(cs, right)->Ok_0,
                        seq![opcode_byte(o)],
                    )
            }
        }),
{
    reveal_strlit("Negate");
    let e = Expression::Unary { operator, right: Box::new(right) };
    if compile_expr(cs, e) is Ok {
        if operator.token_type == TokenType::Minus {
            assert(performs_prefix(operator.token_type, OpCode::Negate));
        } else {
            assert(performs_prefix(operator.token_type, OpCode::Not));
        }
    }
}

pub open spec fn compile_exprs(cs: CState, es: Seq<Expression>) -> CRes
    decreases es, 0int,
{
    if es.len() == 0 {
        Ok(cs)
    } else {
        match compile_exprs(cs, es.drop_last()) {
            Err(f) => Err(f),
            Ok(c1) => compile_expr(c1, es.last()),
        }
    }
}

/// Compiling a function's parameters into the locals of its scope.
pub open spec fn compile_params(cs: CState, ps: Seq<(Token, Option<String>)>) -> CRes
    decreases ps.len(),
{
    if ps.len() == 0 {
        Ok(cs)
    } else {
        match compile_params(cs, ps.drop_last()) {
            Err(f) => Err(f),
            Ok(c1) => {
                let p = ps.last().0;
                if !is_ident(p) {
                    Err(Fail::Message("Expected parameter name"@))
                } else {
                    match declare(c1, p) {
                        Err(f) => Err(f),
                        Ok(c2) => define(c2, p),
                    }
                }
            },
        }
    }
}

/// The state of a compiler that has nothing written yet.
pub open spec fn fresh() -> CState {
    CState { code: Seq::empty(), constants: Seq::empty(), locals: Seq::empty(), depth: 0 }
}

/// The lines of code that came from no source line in particular.
pub open spec fn zero_lines(n: nat) -> Seq<usize> {
    Seq::new(n, |i: int| 0usize)
}

/// Compiling a function with a compiler of its own: parameters are its first
/// locals; the body ends with a return.
pub open spec fn compile_function(name: Token, ps: Seq<(Token, Option<String>)>, body: Seq<Statement>) -> Result<
    ValueSpec,
    Fail,
>
    decreases body, 2int,
{
    match compile_params(begin_scope(fresh()), ps) {
        Err(f) => Err(f),
        Ok(c1) => match compile_stmts(c1, body) {
            Err(f) => Err(f),
            Ok(c2) => {
                let c3 = emit(end_scope(c2), seq![op(OpCode::Return)]);
                Ok(
                    ValueSpec::Function(
                        if is_ident(name) {
                            name.lexeme@
                        } else {
                            "anonymous"@
                        },
                        ps.len(),
                        ChunkSpec { code: c3.code, constants: c3.constants, lines: zero_lines(c3.code.len()) },
                    ),
                )
            },
        },
    }
}

/// Compiling statements one scope deeper.
pub open spec fn compile_block(cs: CState, ss: Seq<Statement>) -> CRes
    decreases ss, 1int,
{
    match compile_stmts(begin_scope(cs), ss) {
        Err(f) => Err(f),
        Ok(c1) => Ok(end_scope(c1)),
    }
}

/// Compiling statements in order.
pub open spec fn compile_stmts(cs: CState, ss: Seq<Statement>) -> CRes
    decreases ss, 0int,
{
    if ss.len() == 0 {
        Ok(cs)
    } else {
        match compile_stmts(cs, ss.drop_last()) {
            Err(f) => Err(f),
            Ok(c1) => compile_stmt(c1, ss.last()),
        }
    }
}

/// Compiling a statement. An expression statement leaves its value on the stack.
/// Statements the virtual machine has no instructions for are refused.
pub open spec fn compile_stmt(cs: CState, s: Statement) -> CRes
    decreases s, 0int,
{
    match s {
        Statement::Expression(e) => compile_expr(cs, e),
        Statement::VariableDeclaration { name, type_annotation, initializer } => {
            let c1 = match initializer {
                Some(init) => compile_expr(cs, init),
                None => Ok(emit(cs, seq![op(OpCode::Null)])),
            };
            match c1 {
                Err(f) => Err(f),
                Ok(c1) => match declare(c1, name) {
                    Err(f) => Err(f),
                    Ok(c2) => define(c2, name),
                },
            }
        },
        Statement::FunctionDeclaration { name, parameters, return_type, body } => match declare(cs, name) {
            Err(f) => Err(f),
            Ok(c1) => match compile_function(name, parameters@, body@) {
                Err(f) => Err(f),
                Ok(fv) => define(emit_constant_op(mark_initialized(c1), OpCode::Constant, fv), name),
            },
        },
        Statement::Return { value } => {
            let c1 = match value {
                Some(v) => compile_expr(cs, v),
                None => Ok(emit(cs, seq![op(OpCode::Null)])),
            };
            match c1 {
                Err(f) => Err(f),
                Ok(c1) => Ok(emit(c1, seq![op(OpCode::Return)])),
            }
        },
        Statement::If { condition, then_branch, else_branch } => match compile_expr(cs, condition) {
            Err(f) => Err(f),
            Ok(c1) => {
                let (c2, else_jump) = emit_jump(c1, OpCode::JumpIfFalse);
                match compile_block(emit(c2, seq![op(OpCode::Pop)]), then_branch@) {
                    Err(f) => Err(f),
                    Ok(c4) => {
                        let (c5, end_jump) = emit_jump(c4, OpCode::Jump);
                        match patch_jump(c5, else_jump) {
                            Err(f) => Err(f),
                            Ok(c6) => {
                                let c7 = emit(c6, seq![op(OpCode::Pop)]);
                                let c8 = match else_branch {
                                    Some(b) => compile_block(c7, b@),
                                    None => Ok(c7),
                                };
                                match c8 {
                                    Err(f) => Err(f),
                                    Ok(c8) => patch_jump(c8, end_jump),
                                }
                            },
                        }
                    },
                }
            },
        },
        Statement::While { condition, body } => {
            let start = cs.code.len() as int;
            match compile_expr(cs, condition) {
                Err(f) => Err(f),
                Ok(c1) => {
                    let (c2, exit_jump) = emit_jump(c1, OpCode::JumpIfFalse);
                    match compile_block(emit(c2, seq![op(OpCode::Pop)]), body@) {
                        Err(f) => Err(f),
                        Ok(c4) => match emit_loop(c4, start) {
                            Err(f) => Err(f),
                            Ok(c5) => match patch_jump(c5, exit_jump) {
                                Err(f) => Err(f),
                                Ok(c6) => Ok(emit(c6, seq![op(OpCode::Pop)])),
                            },
                        },
                    }
                },
            }
        },
        Statement::For { variable, iterable, body } => match compile_expr(cs, iterable) {
            Err(f) => Err(f),
            Ok(c1) => if !is_ident(variable) {
                Err(Fail::Message("Expected identifier in for loop"@))
            } else {
                match declare(c1, variable) {
                    Err(f) => Err(f),
                    Ok(c2) => match define(c2, variable) {
                        Err(f) => Err(f),
                        Ok(c3) => {
                            let start = c3.code.len() as int;
                            match compile_block(c3, body@) {
                                Err(f) => Err(f),
                                Ok(c4) => emit_loop(c4, start),
                            }
                        },
                    },
                }
            },
        },
        Statement::Block(ss) => compile_block(cs, ss@),
        _ => Err(Fail::Message("Unsupported statement"@)),
    }
}

/// Compiling a program: its statements, then a return.
pub open spec fn compile_program(cs: CState, ss: Seq<Statement>) -> CRes {
    match compile_stmts(cs, ss) {
        Err(f) => Err(f),
        Ok(c1) => Ok(emit(c1, seq![op(OpCode::Return)])),
    }
}

/// A compiled program ends with a return.
pub proof fn law_compiled_program_ends_with_return(cs: CState, ss: Seq<Statement>)
    requires
        compile_program(cs, ss) is Ok,
    ensures
        compile_program(cs, ss)->Ok_0.code.len() >= 1,
        compile_program(cs, ss)->Ok_0.code.last() == opcode_byte(OpCode::Return),
{
}

/// An error in compiling the first `k` expressions is the error of compiling them all.
pub proof fn lemma_compile_exprs_err(cs: CState, es: Seq<Expression>, k: int)
    requires
        0 <= k <= es.len(),
        compile_exprs(cs, es.take(k)) is Err,
    ensures
        compile_exprs(cs, es) == compile_exprs(cs, es.take(k)),
    decreases es.len() - k,
{
    if k < es.len() {
        assert(es.take(k + 1).drop_last() =~= es.take(k));
        lemma_compile_exprs_err(cs, es, k + 1);
    } else {
        assert(es.take(k) =~= es);
    }
}

/// An error in compiling the first `k` statements is the error of compiling them all.
pub proof fn lemma_compile_stmts_err(cs: CState, ss: Seq<Statement>, k: int)
    requires
        0 <= k <= ss.len(),
        compile_stmts(cs, ss.take(k)) is Err,
    ensures
        compile_stmts(cs, ss) == compile_stmts(cs, ss.take(k)),
    decreases ss.len() - k,
{
    if k < ss.len() {
        assert(ss.take(k + 1).drop_last() =~= ss.take(k));
        lemma_compile_stmts_err(cs, ss, k + 1);
    } else {
        assert(ss.take(k) =~= ss);
    }
}

/// The parameters of a function: an error in the first `k` is the error of all.
pub proof fn lemma_compile_params_err(cs: CState, ps: Seq<(Token, Option<String>)>, k: int)
    requires
        0 <= k <= ps.len(),
        compile_params(cs, ps.take(k)) is Err,
    ensures
        compile_params(cs, ps) == compile_params(cs, ps.take(k)),
    decreases ps.len() - k,
{
    if k < ps.len() {
        assert(ps.take(k + 1).drop_last() =~= ps.take(k));
        lemma_compile_params_err(cs, ps, k + 1);
    } else {
        assert(ps.take(k) =~= ps);
    }
}

/// Why compilation stopped: an error, or a fault that `compile` panics on.
#[derive(Debug)]
pub enum CompileError {
    Message(String),
    Panic(String),
}

pub open spec fn fail_view(e: CompileError) -> Fail {
    match e {
        CompileError::Message(m) => Fail::Message(m@),
        CompileError::Panic(m) => Fail::Panic(m@),
    }
}

/// Whether an outcome is a fault that `compile` panics on.
pub open spec fn is_panic(r: CRes) -> bool {
    r is Err && r->Err_0 is Panic
}

/// The name of a token kind, as `{:?}` writes it.
fn escape_into(out: &mut String, s: &str)
    ensures
        final(out)@ == old(out)@ + debug_escaped(s@),
{
    let n = s.unicode_len();
    let mut i: usize = 0;
    let ghost start = out@;
    while i < n
        invariant
            n == s@.len(),
            i <= n,
            out@ == start + debug_escaped(s@.take(i as int)),
        decreases n - i,
    {
        let c = s.get_char(i);
        assert(s@.take(i + 1).drop_last() =~= s@.take(i as int));
        assert(s@.take(i + 1).last() == c);
        if c == '"' {
            append_str(out, "\\\"");
        } else if c == '\\' {
            append_str(out, "\\\\");
        } else if c == '\t' {
            append_str(out, "\\t");
        } else if c == '\r' {
            append_str(out, "\\r");
        } else if c == '\n' {
            append_str(out, "\\n");
        } else if c == '\0' {
            append_str(out, "\\0");
        } else {
            push_char(out, c);
        }
        assert(out@ =~= start + debug_escaped(s@.take(i + 1)));
        i = i + 1;
    }
    assert(s@.take(n as int) =~= s@);
}

/// The text `token_debug` gives.
fn token_debug_text(t: &Token) -> (r: String)
    ensures
        r@ == token_debug(*t),
{
    match t.token_type {
        TokenType::Identifier => {
            let mut r = owned("Identifier(\"");
            escape_into(&mut r, t.lexeme.as_str());
            append_str(&mut r, "\")");
            r
        },
        TokenType::String => {
            let mut r = owned("String(\"");
            escape_into(&mut r, t.lexeme.as_str());
            append_str(&mut r, "\")");
            r
        },
        k => owned(token_kind_name(k)),
    }
}

fn token_kind_name(k: TokenType) -> (r: &'static str)
    ensures
        r@ == kind_name(k),
{
    match k {
        TokenType::Number => "Number",
        TokenType::String => "String",
        TokenType::Boolean(b) => if b {
            "Boolean(true)"
        } else {
            "Boolean(false)"
        },
        TokenType::Identifier => "Identifier",
        TokenType::Fn => "Fn",
        TokenType::If => "If",
        TokenType::Elif => "Elif",
        TokenType::Else => "Else",
        TokenType::While => "While",
        TokenType::For => "For",
        TokenType::In => "In",
        TokenType::Return => "Return",
        TokenType::Use => "Use",
        TokenType::Try => "Try",
        TokenType::Catch => "Catch",
        TokenType::Throw => "Throw",
        TokenType::As => "As",
        TokenType::True => "True",
        TokenType::False => "False",
        TokenType::Null => "Null",
        TokenType::Class => "Class",
        TokenType::New => "New",
        TokenType::SelfKw => "SelfKw",
        TokenType::Super => "Super",
        TokenType::Assign => "Assign",
        TokenType::Plus => "Plus",
        TokenType::Minus => "Minus",
        TokenType::Multiply => "Multiply",
        TokenType::Divide => "Divide",
        TokenType::Modulo => "Modulo",
        TokenType::Equal => "Equal",
        TokenType::NotEqual => "NotEqual",
        TokenType::Less => "Less",
        TokenType::LessEqual => "LessEqual",
        TokenType::Greater => "Greater",
        TokenType::GreaterEqual => "GreaterEqual",
        TokenType::And => "And",
        TokenType::Or => "Or",
        TokenType::Not => "Not",
        TokenType::LeftParen => "LeftParen",
        TokenType::RightParen => "RightParen",
        TokenType::LeftBrace => "LeftBrace",
        TokenType::RightBrace => "RightBrace",
        TokenType::LeftBracket => "LeftBracket",
        TokenType::RightBracket => "RightBracket",
        TokenType::Comma => "Comma",
        TokenType::Dot => "Dot",
        TokenType::Colon => "Colon",
        TokenType::Semicolon => "Semicolon",
        TokenType::Newline => "Newline",
        TokenType::Indent => "Indent",
        TokenType::Dedent => "Dedent",
        TokenType::RustInline => "RustInline",
        TokenType::AsmInline => "AsmInline",
        TokenType::EOF => "EOF",
    }
}

fn message(text: &str) -> (r: CompileError)
    ensures
        fail_view(r) == Fail::Message(text@),
{
    CompileError::Message(owned(text))
}

fn message_with(text: &str, more: &str) -> (r: CompileError)
    ensures
        fail_view(r) == Fail::Message(text@ + more@),
{
    let mut m = owned(text);
    append_str(&mut m, more);
    CompileError::Message(m)
}

struct Local {
    name: String,
    depth: usize,
}

spec fn local_view(l: Local) -> LocalSpec {
    LocalSpec { name: l.name@, depth: l.depth as int }
}

/// The compiler, with the chunk it writes into.
pub struct Compiler {
    chunk: Chunk,
    locals: Vec<Local>,
    scope_depth: usize,
}

/// A step's result against its specification.
pub open spec fn c_out(r: Result<(), CompileError>, s: CRes, post: CState) -> bool {
    match r {
        Ok(_) => s == Ok::<CState, Fail>(post),
        Err(e) => s == Err::<CState, Fail>(fail_view(e)),
    }
}

impl Compiler {
    pub closed spec fn cstate(&self) -> CState {
        CState {
            code: self.chunk.code@,
            constants: values_view(self.chunk.constants@),
            locals: self.locals@.map_values(|l: Local| local_view(l)),
            depth: self.scope_depth as int,
        }
    }

    pub closed spec fn wf(&self) -> bool {
        self.chunk.lines@ == zero_lines(self.chunk.code@.len())
    }

    pub fn new() -> (r: Self)
        ensures
            r.cstate() == fresh(),
            r.wf(),
    {
        let r = Compiler { chunk: Chunk::new(), locals: Vec::new(), scope_depth: 0 };
        assert(r.locals@.map_values(|l: Local| local_view(l)) =~= Seq::empty());
        assert(r.chunk.lines@ =~= zero_lines(0));
        r
    }

    fn emit_byte(&mut self, o: OpCode)
        requires
            old(self).wf(),
        ensures
            final(self).wf(),
            final(self).cstate() == emit(old(self).cstate(), seq![op(o)]),
    {
        self.chunk.write(o.to_byte(), 0);
        assert(self.chunk.lines@ =~= zero_lines(self.chunk.code@.len()));
        assert(self.chunk.code@ =~= old(self).chunk.code@ + seq![op(o)]);
    }

    fn emit_bytes(&mut self, o: OpCode, b: u8)
        requires
            old(self).wf(),
        ensures
            final(self).wf(),
            final(self).cstate() == emit(old(self).cstate(), seq![op(o), b]),
    {
        self.emit_byte(o);
        self.chunk.write(b, 0);
        assert(self.chunk.lines@ =~= zero_lines(self.chunk.code@.len()));
        assert(self.chunk.code@ =~= old(self).chunk.code@ + seq![op(o), b]);
    }

    /// Adds a constant and emits `o` with its index.
    fn emit_constant(&mut self, o: OpCode, v: Value)
        requires
            old(self).wf(),
        ensures
            final(self).wf(),
            final(self).cstate() == emit_constant_op(old(self).cstate(), o, value_view(v)),
    {
        proof {
            crate::bytecode::lemma_values_view_len(self.chunk.constants@);
        }
        let c = self.chunk.add_constant(v);
        #[verifier::truncate]
        let b = c as u8;
        self.emit_bytes(o, b);
    }

    fn emit_return(&mut self)
        requires
            old(self).wf(),
        ensures
            final(self).wf(),
            final(self).cstate() == emit(old(self).cstate(), seq![op(OpCode::Return)]),
    {
        self.emit_byte(OpCode::Return);
    }

    fn emit_jump(&mut self, o: OpCode) -> (at: usize)
        requires
            old(self).wf(),
        ensures
            final(self).wf(),
            (final(self).cstate(), at as int) == emit_jump(old(self).cstate(), o),
            at + 3 == final(self).chunk.code@.len(),
    {
        self.emit_byte(o);
        self.chunk.write(0, 0);
        self.chunk.write(0, 0);
        assert(self.chunk.lines@ =~= zero_lines(self.chunk.code@.len()));
        assert(self.chunk.code@ =~= old(self).chunk.code@ + seq![op(o), 0u8, 0u8]);
        self.chunk.code.len() - 3
    }

    fn patch_jump(&mut self, at: usize) -> (r: Result<(), CompileError>)
        requires
            old(self).wf(),
            at + 3 <= old(self).chunk.code@.len(),
        ensures
            final(self).wf(),
            c_out(r, patch_jump(old(self).cstate(), at as int), final(self).cstate()),
            final(self).chunk.code@.len() == old(self).chunk.code@.len(),
    {
        let jump = self.chunk.code.len() - at - 3;
        if jump > 0xffff {
            return Err(CompileError::Panic(owned("Too much code to jump over")));
        }
        self.chunk.code.set(at + 1, ((jump >> 8) & 0xff) as u8);
        self.chunk.code.set(at + 2, (jump & 0xff) as u8);
        Ok(())
    }

    fn emit_loop(&mut self, loop_start: usize) -> (r: Result<(), CompileError>)
        requires
            old(self).wf(),
            loop_start <= old(self).chunk.code@.len(),
        ensures
            final(self).wf(),
            c_out(r, emit_loop(old(self).cstate(), loop_start as int), final(self).cstate()),
            r is Ok ==> final(self).chunk.code@.len() >= old(self).chunk.code@.len(),
    {
        let distance = self.chunk.code.len() - loop_start;
        if distance > 0xfffd {
            return Err(CompileError::Panic(owned("Loop body too large")));
        }
        let offset = distance + 2;
        self.emit_byte(OpCode::Loop);
        self.chunk.write(((offset >> 8) & 0xff) as u8, 0);
        self.chunk.write((offset & 0xff) as u8, 0);
        assert(self.chunk.lines@ =~= zero_lines(self.chunk.code@.len()));
        assert(self.chunk.code@ =~= old(self).chunk.code@ + seq![op(OpCode::Loop), ((offset >> 8) & 0xff) as u8, (offset & 0xff) as u8]);
        Ok(())
    }

    /// The slot of the innermost local named `name`.
    fn resolve_local(&self, name: &str) -> (r: Option<usize>)
        ensures
            match r {
                Some(i) => resolve(self.cstate().locals, name@) == Some(i as nat),
                None => resolve(self.cstate().locals, name@) == None::<nat>,
            },
    {
        let ghost ls = self.cstate().locals;
        let mut i = self.locals.len();
        assert(ls.take(i as int) =~= ls);
        while i > 0
            invariant
                i <= self.locals@.len(),
                ls == self.cstate().locals,
                resolve(ls, name@) == resolve(ls.take(i as int), name@),
            decreases i,
        {
            assert(ls.take(i as int).drop_last() =~= ls.take(i - 1));
            if str_eq(self.locals[i - 1].name.as_str(), name) {
                return Some(i - 1);
            }
            i = i - 1;
        }
        assert(ls.take(0) =~= Seq::<LocalSpec>::empty());
        None
    }

    fn add_local(&mut self, name: String)
        ensures
            final(self).cstate() == (CState {
                locals: old(self).cstate().locals.push(LocalSpec { name: name@, depth: old(self).scope_depth as int }),
                ..old(self).cstate()
            }),
            final(self).chunk == old(self).chunk,
    {
        let ghost before = self.locals@;
        let local = Local { name, depth: self.scope_depth };
        self.locals.push(local);
        assert(self.locals@.map_values(|l: Local| local_view(l)) =~= before.map_values(|l: Local| local_view(l)).push(local_view(local)));
    }

    fn mark_initialized(&mut self)
        ensures
            final(self).cstate() == mark_initialized(old(self).cstate()),
            final(self).chunk == old(self).chunk,
    {
        let n = self.locals.len();
        if n > 0 {
            let ghost before = self.locals@;
            let name = self.locals[n - 1].name.clone();
            let local = Local { name, depth: self.scope_depth };
            self.locals.set(n - 1, local);
            assert(self.locals@.map_values(|l: Local| local_view(l)) =~= before.map_values(|l: Local| local_view(l)).update(n - 1, local_view(local)));
        }
    }

    fn declare_variable(&mut self, name: &Token) -> (r: Result<(), CompileError>)
        ensures
            c_out(r, declare(old(self).cstate(), *name), final(self).cstate()),
            final(self).chunk == old(self).chunk,
            final(self).scope_depth == old(self).scope_depth,
    {
        if self.scope_depth > 0 {
            if name.token_type != TokenType::Identifier {
                return Err(message("Expected identifier"));
            }
            let ghost ls = self.cstate().locals;
            let mut i = self.locals.len();
            assert(ls.take(i as int) =~= ls);
            while i > 0
                invariant
                    i <= self.locals@.len(),
                    ls == self.cstate().locals,
                    self.cstate() == old(self).cstate(),
                    self.chunk == old(self).chunk,
                    name.token_type == TokenType::Identifier,
                    self.scope_depth > 0,
                    declared_here(ls, name.lexeme@, self.scope_depth as int) == declared_here(
                        ls.take(i as int),
                        name.lexeme@,
                        self.scope_depth as int,
                    ),
                ensures
                    self.cstate() == old(self).cstate(),
                    self.chunk == old(self).chunk,
                    ls == self.cstate().locals,
                    !declared_here(ls, name.lexeme@, self.scope_depth as int),
                decreases i,
            {
                assert(ls.take(i as int).drop_last() =~= ls.take(i - 1));
                if self.locals[i - 1].depth < self.scope_depth {
                    break;
                }
                if str_eq(self.locals[i - 1].name.as_str(), name.lexeme.as_str()) {
                    return Err(message("Variable already declared in this scope"));
                }
                i = i - 1;
                if i == 0 {
                    assert(ls.take(0) =~= Seq::<LocalSpec>::empty());
                }
            }
            self.add_local(name.lexeme.clone());
        }
        Ok(())
    }

    fn define_variable(&mut self, name: &Token) -> (r: Result<(), CompileError>)
        requires
            old(self).wf(),
        ensures
            final(self).wf(),
            c_out(r, define(old(self).cstate(), *name), final(self).cstate()),
            final(self).chunk.code@.len() >= old(self).chunk.code@.len(),
            final(self).scope_depth == old(self).scope_depth,
    {
        if self.scope_depth > 0 {
            self.mark_initialized();
            Ok(())
        } else {
            if name.token_type != TokenType::Identifier {
                return Err(message("Expected identifier"));
            }
            self.emit_constant(OpCode::SetGlobal, Value::String(name.lexeme.clone()));
            Ok(())
        }
    }

    fn begin_scope(&mut self)
        requires
            old(self).scope_depth < usize::MAX,
        ensures
            final(self).cstate() == begin_scope(old(self).cstate()),
            final(self).chunk == old(self).chunk,
    {
        self.scope_depth += 1;
    }

    fn end_scope(&mut self)
        requires
            old(self).wf(),
            old(self).scope_depth > 0,
        ensures
            final(self).wf(),
            final(self).cstate() == end_scope(old(self).cstate()),
            final(self).chunk.code@.len() >= old(self).chunk.code@.len(),
            final(self).scope_depth == old(self).scope_depth - 1,
    {
        self.scope_depth -= 1;
        let ghost mid = self.cstate();
        while self.locals.len() > 0 && self.locals[self.locals.len() - 1].depth > self.scope_depth
            invariant
                self.wf(),
                pop_locals(self.cstate()) == pop_locals(mid),
                self.scope_depth == mid.depth,
                self.chunk.code@.len() >= old(self).chunk.code@.len(),
            decreases self.locals@.len(),
        {
            let ghost before = self.cstate();
            self.emit_byte(OpCode::Pop);
            self.locals.pop();
            assert(self.cstate().locals =~= before.locals.drop_last());
            assert(self.cstate().code =~= before.code.push(op(OpCode::Pop)));
        }
    }

    fn compile_expression(&mut self, expression: &Expression) -> (r: Result<(), CompileError>)
        requires
            old(self).wf(),
        ensures
            final(self).wf(),
            c_out(r, compile_expr(old(self).cstate(), *expression), final(self).cstate()),
            r is Ok ==> final(self).chunk.code@.len() >= old(self).chunk.code@.len(),
            final(self).scope_depth == old(self).scope_depth,
        decreases expression, 0int,
    {
        match expression {
            Expression::Number(value) => {
                self.emit_constant(OpCode::Constant, Value::Number(value.clone()));
            },
            Expression::String(value) => {
                self.emit_constant(OpCode::Constant, Value::String(value.clone()));
            },
            Expression::Boolean(value) => {
                if *value {
                    self.emit_byte(OpCode::True);
                } else {
                    self.emit_byte(OpCode::False);
                }
            },
            Expression::Null => {
                self.emit_byte(OpCode::Null);
            },
            Expression::Identifier(token) => {
                if token.token_type == TokenType::Identifier {
                    match self.resolve_local(token.lexeme.as_str()) {
                        Some(local) => {
                            #[verifier::truncate]
                            let b = local as u8;
                            self.emit_bytes(OpCode::GetLocal, b);
                        },
                        None => {
                            self.emit_constant(OpCode::GetGlobal, Value::String(token.lexeme.clone()));
                        },
                    }
                } else {
                    return Err(CompileError::Panic(owned("Identifier token is not Identifier type")));
                }
            },
            Expression::Binary { left, operator, right } => {
                self.compile_expression(left)?;
                self.compile_expression(right)?;
                match operator.token_type {
                    TokenType::Plus => self.emit_byte(OpCode::Add),
                    TokenType::Minus => self.emit_byte(OpCode::Subtract),
                    TokenType::Multiply => self.emit_byte(OpCode::Multiply),
                    TokenType::Divide => self.emit_byte(OpCode::Divide),
                    TokenType::Modulo => self.emit_byte(OpCode::Modulo),
                    TokenType::Equal => self.emit_byte(OpCode::Equal),
                    TokenType::NotEqual => self.emit_byte(OpCode::NotEqual),
                    TokenType::Less => self.emit_byte(OpCode::Less),
                    TokenType::LessEqual => self.emit_byte(OpCode::LessEqual),
                    TokenType::Greater => self.emit_byte(OpCode::Greater),
                    TokenType::GreaterEqual => self.emit_byte(OpCode::GreaterEqual),
                    TokenType::And => self.emit_byte(OpCode::And),
                    TokenType::Or => self.emit_byte(OpCode::Or),
                    _ => {
                        return Err(
                            message_with("Unknown binary operator: ", token_debug_text(operator).as_str()),
                        );
                    },
                }
            },
            Expression::Unary { operator, right } => {
                self.compile_expression(right)?;
                match operator.token_type {
                    TokenType::Minus => self.emit_byte(OpCode::Negate),
                    TokenType::Not => self.emit_byte(OpCode::Not),
                    _ => {
                        return Err(
                            message_with("Unknown unary operator: ", token_debug_text(operator).as_str()),
                        );
                    },
                }
            },
            Expression::Assignment { name, value } => {
                self.compile_expression(value)?;
                if name.token_type != TokenType::Identifier {
                    return Err(message("Expected identifier in assignment"));
                }
                match self.resolve_local(name.lexeme.as_str()) {
                    Some(local) => {
                        #[verifier::truncate]
                        let b = local as u8;
                        self.emit_bytes(OpCode::SetLocal, b);
                    },
                    None => {
                        self.emit_constant(OpCode::SetGlobal, Value::String(name.lexeme.clone()));
                    },
                }
            },
            Expression::Call { callee, arguments } => {
                self.compile_expression(callee)?;
                self.compile_expressions(arguments)?;
                #[verifier::truncate]
                let count = arguments.len() as u8;
                self.emit_bytes(OpCode::Call, count);
            },
            Expression::Grouping(inner) => {
                self.compile_expression(inner)?;
            },
            _ => {
                return Err(message("Unsupported expression"));
            },
        }
        Ok(())
    }

    fn compile_expressions(&mut self, es: &Vec<Expression>) -> (r: Result<(), CompileError>)
        requires
            old(self).wf(),
        ensures
            final(self).wf(),
            c_out(r, compile_exprs(old(self).cstate(), es@), final(self).cstate()),
            r is Ok ==> final(self).chunk.code@.len() >= old(self).chunk.code@.len(),
            final(self).scope_depth == old(self).scope_depth,
        decreases es@, 0int,
    {
        let ghost c0 = self.cstate();
        let mut i: usize = 0;
        while i < es.len()
            invariant
                self.wf(),
                i <= es@.len(),
                c0 == old(self).cstate(),
                compile_exprs(c0, es@.take(i as int)) == Ok::<CState, Fail>(self.cstate()),
                self.chunk.code@.len() >= old(self).chunk.code@.len(),
                self.scope_depth == old(self).scope_depth,
            decreases es@.len() - i,
        {
            assert(es@.take(i + 1).drop_last() =~= es@.take(i as int));
            let r = self.compile_expression(&es[i]);
            if r.is_err() {
                proof {
                    lemma_compile_exprs_err(c0, es@, (i + 1) as int);
                }
                return r;
            }
            i = i + 1;
        }
        assert(es@.take(i as int) =~= es@);
        Ok(())
    }

    fn compile_statements(&mut self, ss: &Vec<Statement>) -> (r: Result<(), CompileError>)
        requires
            old(self).wf(),
            old(self).scope_depth + stmts_weight(ss@) <= usize::MAX,
        ensures
            final(self).wf(),
            c_out(r, compile_stmts(old(self).cstate(), ss@), final(self).cstate()),
            r is Ok ==> final(self).chunk.code@.len() >= old(self).chunk.code@.len(),
            r is Ok ==> final(self).scope_depth == old(self).scope_depth,
        decreases ss@, 0int,
    {
        let ghost c0 = self.cstate();
        let mut i: usize = 0;
        while i < ss.len()
            invariant
                self.wf(),
                i <= ss@.len(),
                c0 == old(self).cstate(),
                compile_stmts(c0, ss@.take(i as int)) == Ok::<CState, Fail>(self.cstate()),
                self.chunk.code@.len() >= old(self).chunk.code@.len(),
                self.scope_depth == old(self).scope_depth,
                old(self).scope_depth + stmts_weight(ss@) <= usize::MAX,
            decreases ss@.len() - i,
        {
            assert(ss@.take(i + 1).drop_last() =~= ss@.take(i as int));
            proof {
                lemma_weight_prefix(ss@, i + 1);
            }
            let r = self.compile_statement(&ss[i]);
            if r.is_err() {
                proof {
                    lemma_compile_stmts_err(c0, ss@, (i + 1) as int);
                }
                return r;
            }
            i = i + 1;
        }
        assert(ss@.take(i as int) =~= ss@);
        Ok(())
    }

    fn compile_block(&mut self, ss: &Vec<Statement>) -> (r: Result<(), CompileError>)
        requires
            old(self).wf(),
            old(self).scope_depth + 1 + stmts_weight(ss@) <= usize::MAX,
        ensures
            final(self).wf(),
            c_out(r, compile_block(old(self).cstate(), ss@), final(self).cstate()),
            r is Ok ==> final(self).chunk.code@.len() >= old(self).chunk.code@.len(),
            r is Ok ==> final(self).scope_depth == old(self).scope_depth,
        decreases ss@, 1int,
    {
        self.begin_scope();
        self.compile_statements(ss)?;
        self.end_scope();
        Ok(())
    }

    /// A function compiled with a compiler of its own.
    fn compile_function(
        &self,
        name: &Token,
        parameters: &Vec<(Token, Option<String>)>,
        body: &Vec<Statement>,
    ) -> (r: Result<Function, CompileError>)
        requires
            1 + stmts_weight(body@) <= usize::MAX,
        ensures
            match r {
                Ok(f) => compile_function(*name, parameters@, body@) == Ok::<ValueSpec, Fail>(
                    value_view(Value::Function(f)),
                ),
                Err(e) => compile_function(*name, parameters@, body@) == Err::<ValueSpec, Fail>(
                    fail_view(e),
                ),
            },
        decreases body@, 2int,
    {
        let mut compiler = Compiler::new();
        compiler.begin_scope();
        let ghost c0 = compiler.cstate();
        let mut i: usize = 0;
        while i < parameters.len()
            invariant
                compiler.wf(),
                i <= parameters@.len(),
                c0 == begin_scope(fresh()),
                compile_params(c0, parameters@.take(i as int)) == Ok::<CState, Fail>(compiler.cstate()),
                compiler.scope_depth == 1,
            decreases parameters@.len() - i,
        {
            assert(parameters@.take(i + 1).drop_last() =~= parameters@.take(i as int));
            let param = &parameters[i].0;
            if param.token_type != TokenType::Identifier {
                proof {
                    lemma_compile_params_err(c0, parameters@, (i + 1) as int);
                }
                return Err(message("Expected parameter name"));
            }
            let r = compiler.declare_variable(param);
            if r.is_err() {
                proof {
                    lemma_compile_params_err(c0, parameters@, (i + 1) as int);
                }
                return Err(r.unwrap_err());
            }
            let r = compiler.define_variable(param);
            if r.is_err() {
                proof {
                    lemma_compile_params_err(c0, parameters@, (i + 1) as int);
                }
                return Err(r.unwrap_err());
            }
            i = i + 1;
        }
        assert(parameters@.take(i as int) =~= parameters@);
        compiler.compile_statements(body)?;
        compiler.end_scope();
        compiler.emit_return();
        let function_name = if name.token_type == TokenType::Identifier {
            name.lexeme.clone()
        } else {
            owned("anonymous")
        };
        Ok(Function { name: function_name, arity: parameters.len(), chunk: compiler.chunk })
    }

    fn compile_statement(&mut self, statement: &Statement) -> (r: Result<(), CompileError>)
        requires
            old(self).wf(),
            old(self).scope_depth + stmt_weight(*statement) <= usize::MAX,
        ensures
            final(self).wf(),
            c_out(r, compile_stmt(old(self).cstate(), *statement), final(self).cstate()),
            r is Ok ==> final(self).chunk.code@.len() >= old(self).chunk.code@.len(),
            r is Ok ==> final(self).scope_depth == old(self).scope_depth,
        decreases statement, 1int,
    {
        match statement {
            Statement::Expression(expr) => {
                self.compile_expression(expr)?;
            },
            Statement::VariableDeclaration { name, type_annotation: _, initializer } => {
                if let Some(initializer) = initializer {
                    self.compile_expression(initializer)?;
                } else {
                    self.emit_byte(OpCode::Null);
                }
                self.declare_variable(name)?;
                self.define_variable(name)?;
            },
            Statement::FunctionDeclaration { .. } => {
                return self.compile_function_declaration(statement);
            },
            Statement::Return { value } => {
                if let Some(value) = value {
                    self.compile_expression(value)?;
                } else {
                    self.emit_byte(OpCode::Null);
                }
                self.emit_byte(OpCode::Return);
            },
            Statement::If { .. } => {
                return self.compile_if(statement);
            },
            Statement::While { .. } => {
                return self.compile_while(statement);
            },
            Statement::For { .. } => {
                return self.compile_for(statement);
            },
            Statement::Block(statements) => {
                self.compile_block(statements)?;
            },
            _ => {
                return Err(message("Unsupported statement"));
            },
        }
        Ok(())
    }

    fn compile_function_declaration(&mut self, statement: &Statement) -> (r: Result<(), CompileError>)
        requires
            old(self).wf(),
            old(self).scope_depth + stmt_weight(*statement) <= usize::MAX,
            statement is FunctionDeclaration,
        ensures
            final(self).wf(),
            c_out(r, compile_stmt(old(self).cstate(), *statement), final(self).cstate()),
            r is Ok ==> final(self).chunk.code@.len() >= old(self).chunk.code@.len(),
            r is Ok ==> final(self).scope_depth == old(self).scope_depth,
        decreases statement, 0int,
    {
        match statement {
            Statement::FunctionDeclaration { name, parameters, return_type: _, body } => {
                self.declare_variable(name)?;
                self.mark_initialized();
                let function = self.compile_function(name, parameters, body)?;
                self.emit_constant(OpCode::Constant, Value::Function(function));
                self.define_variable(name)?;
                Ok(())
            },
            _ => Ok(()),
        }
    }

    fn compile_if(&mut self, statement: &Statement) -> (r: Result<(), CompileError>)
        requires
            old(self).wf(),
            old(self).scope_depth + stmt_weight(*statement) <= usize::MAX,
            statement is If,
        ensures
            final(self).wf(),
            c_out(r, compile_stmt(old(self).cstate(), *statement), final(self).cstate()),
            r is Ok ==> final(self).chunk.code@.len() >= old(self).chunk.code@.len(),
            r is Ok ==> final(self).scope_depth == old(self).scope_depth,
        decreases statement, 0int,
    {
        match statement {
            Statement::If { condition, then_branch, else_branch } => {
                self.compile_expression(condition)?;
                let else_jump = self.emit_jump(OpCode::JumpIfFalse);
                self.emit_byte(OpCode::Pop);
                self.compile_block(then_branch)?;
                let end_jump = self.emit_jump(OpCode::Jump);
                self.patch_jump(else_jump)?;
                self.emit_byte(OpCode::Pop);
                if let Some(else_branch) = else_branch {
                    self.compile_block(else_branch)?;
                }
                self.patch_jump(end_jump)?;
                Ok(())
            },
            _ => Ok(()),
        }
    }

    fn compile_while(&mut self, statement: &Statement) -> (r: Result<(), CompileError>)
        requires
            old(self).wf(),
            old(self).scope_depth + stmt_weight(*statement) <= usize::MAX,
            statement is While,
        ensures
            final(self).wf(),
            c_out(r, compile_stmt(old(self).cstate(), *statement), final(self).cstate()),
            r is Ok ==> final(self).chunk.code@.len() >= old(self).chunk.code@.len(),
            r is Ok ==> final(self).scope_depth == old(self).scope_depth,
        decreases statement, 0int,
    {
        match statement {
            Statement::While { condition, body } => {
                let loop_start = self.chunk.code.len();
                self.compile_expression(condition)?;
                let exit_jump = self.emit_jump(OpCode::JumpIfFalse);
                self.emit_byte(OpCode::Pop);
                self.compile_block(body)?;
                self.emit_loop(loop_start)?;
                self.patch_jump(exit_jump)?;
                self.emit_byte(OpCode::Pop);
                Ok(())
            },
            _ => Ok(()),
        }
    }

    fn compile_for(&mut self, statement: &Statement) -> (r: Result<(), CompileError>)
        requires
            old(self).wf(),
            old(self).scope_depth + stmt_weight(*statement) <= usize::MAX,
            statement is For,
        ensures
            final(self).wf(),
            c_out(r, compile_stmt(old(self).cstate(), *statement), final(self).cstate()),
            r is Ok ==> final(self).chunk.code@.len() >= old(self).chunk.code@.len(),
            r is Ok ==> final(self).scope_depth == old(self).scope_depth,
        decreases statement, 0int,
    {
        match statement {
            Statement::For { variable, iterable, body } => {
                self.compile_expression(iterable)?;
                if variable.token_type != TokenType::Identifier {
                    return Err(message("Expected identifier in for loop"));
                }
                self.declare_variable(variable)?;
                self.define_variable(variable)?;
                let loop_start = self.chunk.code.len();
                self.compile_block(body)?;
                self.emit_loop(loop_start)?;
                Ok(())
            },
            _ => Ok(()),
        }
    }

    /// The chunk compiled so far, taking the compiler apart.
    pub fn into_chunk(self) -> (r: Chunk)
        requires
            self.wf(),
        ensures
            r.view_chunk() == (ChunkSpec {
                code: self.cstate().code,
                constants: self.cstate().constants,
                lines: zero_lines(self.cstate().code.len()),
            }),
    {
        self.chunk
    }

    /// Compiles a program into the chunk, ending it with a return. A fault that
    /// `compile` panics on (an identifier expression whose token is no identifier,
    /// a jump too long for 16 bits) is returned as `CompileError::Panic`.
    pub fn try_compile(&mut self, program: &Program) -> (r: Result<&Chunk, CompileError>)
        requires
            old(self).wf(),
            old(self).cstate().depth + stmts_weight(program.statements@) <= usize::MAX,
        ensures
            final(self).wf(),
            match r {
                Ok(c) => compile_program(old(self).cstate(), program.statements@) == Ok::<CState, Fail>(
                    final(self).cstate(),
                ) && c.view_chunk() == (ChunkSpec {
                    code: final(self).cstate().code,
                    constants: final(self).cstate().constants,
                    lines: zero_lines(final(self).cstate().code.len()),
                }),
                Err(e) => compile_program(old(self).cstate(), program.statements@) == Err::<CState, Fail>(
                    fail_view(e),
                ),
            },
    {
        self.compile_statements(&program.statements)?;
        self.emit_return();
        Ok(&self.chunk)
    }

    /// Compiles a program into the chunk, ending it with a return. The program
    /// must compile without a fault (see `try_compile`, which reports faults).
    /// Nesting is counted in `usize`: the statements, each held in memory, cannot
    /// outnumber the addresses.
    pub fn compile(&mut self, program: &Program) -> (r: Result<&Chunk, String>)
        requires
            old(self).wf(),
            old(self).cstate().depth + stmts_weight(program.statements@) <= usize::MAX,
            !is_panic(compile_program(old(self).cstate(), program.statements@)),
        ensures
            final(self).wf(),
            match r {
                Ok(c) => compile_program(old(self).cstate(), program.statements@) == Ok::<CState, Fail>(
                    final(self).cstate(),
                ) && c.view_chunk() == (ChunkSpec {
                    code: final(self).cstate().code,
                    constants: final(self).cstate().constants,
                    lines: zero_lines(final(self).cstate().code.len()),
                }),
                Err(m) => compile_program(old(self).cstate(), program.statements@) == Err::<CState, Fail>(
                    Fail::Message(m@),
                ),
            },
    {
        match self.try_compile(program) {
            Ok(c) => Ok(c),
            Err(CompileError::Message(m)) => Err(m),
            Err(CompileError::Panic(m)) => Err(m),
        }
    }
}

} // verus!
