//! The syntax tree built by the parser.

use vstd::prelude::*;
use crate::token::{Token, SpecToken};

verus! {

/// An expression. A number is held as its text, as the lexer read it.
#[derive(Debug)]
pub enum Expression {
    Number(String),
    String(String),
    Boolean(bool),
    Null,
    Identifier(Token),
    Binary { left: Box<Expression>, operator: Token, right: Box<Expression> },
    Unary { operator: Token, right: Box<Expression> },
    Assignment { name: Token, value: Box<Expression> },
    PropertyAssignment { object: Box<Expression>, property: Token, value: Box<Expression> },
    Call { callee: Box<Expression>, arguments: Vec<Expression> },
    ModuleAccess { module: Token, member: Token },
    Grouping(Box<Expression>),
    Array(Vec<Expression>),
    Dictionary(Vec<(Expression, Expression)>),
    Index { array: Box<Expression>, index: Box<Expression> },
    NewInstance { class: Box<Expression>, arguments: Vec<Expression> },
    PropertyAccess { object: Box<Expression>, property: Token },
    MethodCall { object: Box<Expression>, method: Token, arguments: Vec<Expression> },
    SuperCall { method: Option<Token>, arguments: Vec<Expression> },
    RustInline { code: String },
    AsmInline { code: String },
}

/// A statement.
#[derive(Debug)]
pub enum Statement {
    Expression(Expression),
    VariableDeclaration {
        name: Token,
        type_annotation: Option<String>,
        initializer: Option<Expression>,
    },
    FunctionDeclaration {
        name: Token,
        parameters: Vec<(Token, Option<String>)>,
        return_type: Option<String>,
        body: Vec<Statement>,
    },
    Return { value: Option<Expression> },
    If { condition: Expression, then_branch: Vec<Statement>, else_branch: Option<Vec<Statement>> },
    While { condition: Expression, body: Vec<Statement> },
    For { variable: Token, iterable: Expression, body: Vec<Statement> },
    Block(Vec<Statement>),
    Use { module: String, alias: Option<String> },
    ClassDeclaration { name: Token, superclass: Option<Token>, methods: Vec<Statement> },
    Try { try_block: Vec<Statement>, catch_block: Vec<Statement> },
    Throw { value: Option<Expression> },
    RustInline { code: String },
    AsmInline { code: String },
}

/// A whole program: its top-level statements in order.
#[derive(Debug)]
pub struct Program {
    pub statements: Vec<Statement>,
}

/// An expression as a mathematical value.
pub enum ExprSpec {
    Number(Seq<char>),
    String(Seq<char>),
    Boolean(bool),
    Null,
    Identifier(SpecToken),
    Binary(Box<ExprSpec>, SpecToken, Box<ExprSpec>),
    Unary(SpecToken, Box<ExprSpec>),
    Assignment(SpecToken, Box<ExprSpec>),
    PropertyAssignment(Box<ExprSpec>, SpecToken, Box<ExprSpec>),
    Call(Box<ExprSpec>, Seq<ExprSpec>),
    ModuleAccess(SpecToken, SpecToken),
    Grouping(Box<ExprSpec>),
    Array(Seq<ExprSpec>),
    Dictionary(Seq<(ExprSpec, ExprSpec)>),
    Index(Box<ExprSpec>, Box<ExprSpec>),
    NewInstance(Box<ExprSpec>, Seq<ExprSpec>),
    PropertyAccess(Box<ExprSpec>, SpecToken),
    MethodCall(Box<ExprSpec>, SpecToken, Seq<ExprSpec>),
    SuperCall(Option<SpecToken>, Seq<ExprSpec>),
    RustInline(Seq<char>),
    AsmInline(Seq<char>),
}

/// A statement as a mathematical value.
pub enum StmtSpec {
    Expression(ExprSpec),
    VariableDeclaration(SpecToken, Option<Seq<char>>, Option<ExprSpec>),
    FunctionDeclaration(
        SpecToken,
        Seq<(SpecToken, Option<Seq<char>>)>,
        Option<Seq<char>>,
        Seq<StmtSpec>,
    ),
    Return(Option<ExprSpec>),
    If(ExprSpec, Seq<StmtSpec>, Option<Seq<StmtSpec>>),
    While(ExprSpec, Seq<StmtSpec>),
    For(SpecToken, ExprSpec, Seq<StmtSpec>),
    Block(Seq<StmtSpec>),
    Use(Seq<char>, Option<Seq<char>>),
    ClassDeclaration(SpecToken, Option<SpecToken>, Seq<StmtSpec>),
    Try(Seq<StmtSpec>, Seq<StmtSpec>),
    Throw(Option<ExprSpec>),
    RustInline(Seq<char>),
    AsmInline(Seq<char>),
}

pub open spec fn opt_text(o: Option<String>) -> Option<Seq<char>> {
    match o {
        Some(s) => Some(s@),
        None => None,
    }
}

pub open spec fn opt_token(o: Option<Token>) -> Option<SpecToken> {
    match o {
        Some(t) => Some(t@),
        None => None,
    }
}

/// The value of an expression.
pub open spec fn expr_view(e: Expression) -> ExprSpec
    decreases e, 0int,
{
    match e {
        Expression::Number(t) => ExprSpec::Number(t@),
        Expression::String(t) => ExprSpec::String(t@),
        Expression::Boolean(b) => ExprSpec::Boolean(b),
        Expression::Null => ExprSpec::Null,
        Expression::Identifier(t) => ExprSpec::Identifier(t@),
        Expression::Binary { left, operator, right } => ExprSpec::Binary(
            Box::new(expr_view(*left)),
            operator@,
            Box::new(expr_view(*right)),
        ),
        Expression::Unary { operator, right } => ExprSpec::Unary(
            operator@,
            Box::new(expr_view(*right)),
        ),
        Expression::Assignment { name, value } => ExprSpec::Assignment(
            name@,
            Box::new(expr_view(*value)),
        ),
        Expression::PropertyAssignment { object, property, value } => ExprSpec::PropertyAssignment(
            Box::new(expr_view(*object)),
            property@,
            Box::new(expr_view(*value)),
        ),
        Expression::Call { callee, arguments } => ExprSpec::Call(
            Box::new(expr_view(*callee)),
            exprs_view(arguments@),
        ),
        Expression::ModuleAccess { module, member } => ExprSpec::ModuleAccess(module@, member@),
        Expression::Grouping(x) => ExprSpec::Grouping(Box::new(expr_view(*x))),
        Expression::Array(es) => ExprSpec::Array(exprs_view(es@)),
        Expression::Dictionary(ps) => ExprSpec::Dictionary(pairs_view(ps@)),
        Expression::Index { array, index } => ExprSpec::Index(
            Box::new(expr_view(*array)),
            Box::new(expr_view(*index)),
        ),
        Expression::NewInstance { class, arguments } => ExprSpec::NewInstance(
            Box::new(expr_view(*class)),
            exprs_view(arguments@),
        ),
        Expression::PropertyAccess { object, property } => ExprSpec::PropertyAccess(
            Box::new(expr_view(*object)),
            property@,
        ),
        Expression::MethodCall { object, method, arguments } => ExprSpec::MethodCall(
            Box::new(expr_view(*object)),
            method@,
            exprs_view(arguments@),
        ),
        Expression::SuperCall { method, arguments } => ExprSpec::SuperCall(
            opt_token(method),
            exprs_view(arguments@),
        ),
        Expression::RustInline { code } => ExprSpec::RustInline(code@),
        Expression::AsmInline { code } => ExprSpec::AsmInline(code@),
    }
}

/// The values of expressions in order.
pub open spec fn exprs_view(es: Seq<Expression>) -> Seq<ExprSpec>
    decreases es, 0int,
{
    if es.len() == 0 {
        Seq::empty()
    } else {
        exprs_view(es.drop_last()).push(expr_view(es.last()))
    }
}

/// The values of key-value pairs in order.
pub open spec fn pairs_view(ps: Seq<(Expression, Expression)>) -> Seq<(ExprSpec, ExprSpec)>
    decreases ps, 0int,
{
    if ps.len() == 0 {
        Seq::empty()
    } else {
        pairs_view(ps.drop_last()).push((expr_view(ps.last().0), expr_view(ps.last().1)))
    }
}

pub open spec fn opt_expr_view(o: Option<Expression>) -> Option<ExprSpec> {
    match o {
        Some(e) => Some(expr_view(e)),
        None => None,
    }
}

/// The values of parameters.
pub open spec fn params_view(ps: Seq<(Token, Option<String>)>) -> Seq<(SpecToken, Option<Seq<char>>)> {
    ps.map_values(|p: (Token, Option<String>)| (p.0@, opt_text(p.1)))
}

/// The value of a statement.
pub open spec fn stmt_view(s: Statement) -> StmtSpec
    decreases s, 0int,
{
    match s {
        Statement::Expression(e) => StmtSpec::Expression(expr_view(e)),
        Statement::VariableDeclaration { name, type_annotation, initializer } => match initializer {
            Some(e) => StmtSpec::VariableDeclaration(name@, opt_text(type_annotation), Some(expr_view(e))),
            None => StmtSpec::VariableDeclaration(name@, opt_text(type_annotation), None),
        },
        Statement::FunctionDeclaration { name, parameters, return_type, body } =>
            StmtSpec::FunctionDeclaration(
            name@,
            params_view(parameters@),
            opt_text(return_type),
            stmts_view(body@),
        ),
        Statement::Return { value } => match value {
            Some(e) => StmtSpec::Return(Some(expr_view(e))),
            None => StmtSpec::Return(None),
        },
        Statement::If { condition, then_branch, else_branch } => match else_branch {
            Some(b) => StmtSpec::If(expr_view(condition), stmts_view(then_branch@), Some(stmts_view(b@))),
            None => StmtSpec::If(expr_view(condition), stmts_view(then_branch@), None),
        },
        Statement::While { condition, body } => StmtSpec::While(expr_view(condition), stmts_view(body@)),
        Statement::For { variable, iterable, body } => StmtSpec::For(
            variable@,
            expr_view(iterable),
            stmts_view(body@),
        ),
        Statement::Block(b) => StmtSpec::Block(stmts_view(b@)),
        Statement::Use { module, alias } => StmtSpec::Use(module@, opt_text(alias)),
        Statement::ClassDeclaration { name, superclass, methods } => StmtSpec::ClassDeclaration(
            name@,
            opt_token(superclass),
            stmts_view(methods@),
        ),
        Statement::Try { try_block, catch_block } => StmtSpec::Try(
            stmts_view(try_block@),
            stmts_view(catch_block@),
        ),
        Statement::Throw { value } => match value {
            Some(e) => StmtSpec::Throw(Some(expr_view(e))),
            None => StmtSpec::Throw(None),
        },
        Statement::RustInline { code } => StmtSpec::RustInline(code@),
        Statement::AsmInline { code } => StmtSpec::AsmInline(code@),
    }
}

/// The values of statements in order.
pub open spec fn stmts_view(ss: Seq<Statement>) -> Seq<StmtSpec>
    decreases ss, 0int,
{
    if ss.len() == 0 {
        Seq::empty()
    } else {
        stmts_view(ss.drop_last()).push(stmt_view(ss.last()))
    }
}

fn copy_text(s: &String) -> (r: String)
    ensures
        r@ == s@,
{
    s.clone()
}

fn copy_opt_text(o: &Option<String>) -> (r: Option<String>)
    ensures
        opt_text(r) == opt_text(*o),
{
    match o {
        Some(s) => Some(s.clone()),
        None => None,
    }
}

fn copy_opt_token(o: &Option<Token>) -> (r: Option<Token>)
    ensures
        opt_token(r) == opt_token(*o),
{
    match o {
        Some(t) => Some(t.duplicate()),
        None => None,
    }
}

impl Expression {
    /// A copy of the expression, node for node.
    pub fn duplicate(&self) -> (r: Expression)
        ensures
            expr_view(r) == expr_view(*self),
        decreases self, 0int,
    {
        match self {
            Expression::Number(t) => Expression::Number(copy_text(t)),
            Expression::String(t) => Expression::String(copy_text(t)),
            Expression::Boolean(b) => Expression::Boolean(*b),
            Expression::Null => Expression::Null,
            Expression::Identifier(t) => Expression::Identifier(t.duplicate()),
            Expression::Binary { left, operator, right } => Expression::Binary {
                left: Box::new(left.duplicate()),
                operator: operator.duplicate(),
                right: Box::new(right.duplicate()),
            },
            Expression::Unary { operator, right } => Expression::Unary {
                operator: operator.duplicate(),
                right: Box::new(right.duplicate()),
            },
            Expression::Assignment { name, value } => Expression::Assignment {
                name: name.duplicate(),
                value: Box::new(value.duplicate()),
            },
            Expression::PropertyAssignment { object, property, value } => {
                Expression::PropertyAssignment {
                    object: Box::new(object.duplicate()),
                    property: property.duplicate(),
                    value: Box::new(value.duplicate()),
                }
            },
            Expression::Call { callee, arguments } => Expression::Call {
                callee: Box::new(callee.duplicate()),
                arguments: duplicate_exprs(arguments),
            },
            Expression::ModuleAccess { module, member } => Expression::ModuleAccess {
                module: module.duplicate(),
                member: member.duplicate(),
            },
            Expression::Grouping(x) => Expression::Grouping(Box::new(x.duplicate())),
            Expression::Array(es) => Expression::Array(duplicate_exprs(es)),
            Expression::Dictionary(ps) => Expression::Dictionary(duplicate_pairs(ps)),
            Expression::Index { array, index } => Expression::Index {
                array: Box::new(array.duplicate()),
                index: Box::new(index.duplicate()),
            },
            Expression::NewInstance { class, arguments } => Expression::NewInstance {
                class: Box::new(class.duplicate()),
                arguments: duplicate_exprs(arguments),
            },
            Expression::PropertyAccess { object, property } => Expression::PropertyAccess {
                object: Box::new(object.duplicate()),
                property: property.duplicate(),
            },
            Expression::MethodCall { object, method, arguments } => Expression::MethodCall {
                object: Box::new(object.duplicate()),
                method: method.duplicate(),
                arguments: duplicate_exprs(arguments),
            },
            Expression::SuperCall { method, arguments } => Expression::SuperCall {
                method: copy_opt_token(method),
                arguments: duplicate_exprs(arguments),
            },
            Expression::RustInline { code } => Expression::RustInline { code: copy_text(code) },
            Expression::AsmInline { code } => Expression::AsmInline { code: copy_text(code) },
        }
    }
}

/// A copy of each expression, in order.
pub fn duplicate_exprs(es: &Vec<Expression>) -> (r: Vec<Expression>)
    ensures
        exprs_view(r@) == exprs_view(es@),
    decreases es@, 0int,
{
    let mut out: Vec<Expression> = Vec::new();
    let mut i: usize = 0;
    while i < es.len()
        invariant
            i <= es@.len(),
            exprs_view(out@) == exprs_view(es@.take(i as int)),
        decreases es@.len() - i,
    {
        assert(es@.take(i + 1).drop_last() =~= es@.take(i as int));
        let d = es[i].duplicate();
        let ghost before = out@;
        out.push(d);
        assert(out@.drop_last() =~= before);
        i = i + 1;
    }
    assert(es@.take(i as int) =~= es@);
    out
}

/// A copy of each key-value pair, in order.
pub fn duplicate_pairs(ps: &Vec<(Expression, Expression)>) -> (r: Vec<(Expression, Expression)>)
    ensures
        pairs_view(r@) == pairs_view(ps@),
    decreases ps@, 0int,
{
    let mut out: Vec<(Expression, Expression)> = Vec::new();
    let mut i: usize = 0;
    while i < ps.len()
        invariant
            i <= ps@.len(),
            pairs_view(out@) == pairs_view(ps@.take(i as int)),
        decreases ps@.len() - i,
    {
        assert(ps@.take(i + 1).drop_last() =~= ps@.take(i as int));
        let k = ps[i].0.duplicate();
        let v = ps[i].1.duplicate();
        let ghost before = out@;
        out.push((k, v));
        assert(out@.drop_last() =~= before);
        i = i + 1;
    }
    assert(ps@.take(i as int) =~= ps@);
    out
}

fn copy_opt_expr(o: &Option<Expression>) -> (r: Option<Expression>)
    ensures
        opt_expr_view(r) == opt_expr_view(*o),
        r is Some == o is Some,
    decreases o, 1int,
{
    match o {
        Some(e) => Some(e.duplicate()),
        None => None,
    }
}

fn duplicate_params(ps: &Vec<(Token, Option<String>)>) -> (r: Vec<(Token, Option<String>)>)
    ensures
        params_view(r@) == params_view(ps@),
{
    let mut out: Vec<(Token, Option<String>)> = Vec::new();
    let mut i: usize = 0;
    while i < ps.len()
        invariant
            i <= ps@.len(),
            out@.len() == i,
            forall|j: int| 0 <= j < i ==> #[trigger] out@[j].0@ == ps@[j].0@ && opt_text(out@[j].1)
                == opt_text(ps@[j].1),
        decreases ps@.len() - i,
    {
        let t = ps[i].0.duplicate();
        let a = copy_opt_text(&ps[i].1);
        out.push((t, a));
        i = i + 1;
    }
    assert(params_view(out@) =~= params_view(ps@));
    out
}

impl Statement {
    /// A copy of the statement, node for node.
    pub fn duplicate(&self) -> (r: Statement)
        ensures
            stmt_view(r) == stmt_view(*self),
        decreases self, 0int,
    {
        match self {
            Statement::Expression(e) => Statement::Expression(e.duplicate()),
            Statement::VariableDeclaration { name, type_annotation, initializer } => {
                Statement::VariableDeclaration {
                    name: name.duplicate(),
                    type_annotation: copy_opt_text(type_annotation),
                    initializer: copy_opt_expr(initializer),
                }
            },
            Statement::FunctionDeclaration { name, parameters, return_type, body } => {
                Statement::FunctionDeclaration {
                    name: name.duplicate(),
                    parameters: duplicate_params(parameters),
                    return_type: copy_opt_text(return_type),
                    body: duplicate_stmts(body),
                }
            },
            Statement::Return { value } => Statement::Return { value: copy_opt_expr(value) },
            Statement::If { condition, then_branch, else_branch } => {
                let e = match else_branch {
                    Some(b) => Some(duplicate_stmts(b)),
                    None => None,
                };
                Statement::If {
                    condition: condition.duplicate(),
                    then_branch: duplicate_stmts(then_branch),
                    else_branch: e,
                }
            },
            Statement::While { condition, body } => Statement::While {
                condition: condition.duplicate(),
                body: duplicate_stmts(body),
            },
            Statement::For { variable, iterable, body } => Statement::For {
                variable: variable.duplicate(),
                iterable: iterable.duplicate(),
                body: duplicate_stmts(body),
            },
            Statement::Block(b) => Statement::Block(duplicate_stmts(b)),
            Statement::Use { module, alias } => Statement::Use {
                module: copy_text(module),
                alias: copy_opt_text(alias),
            },
            Statement::ClassDeclaration { name, superclass, methods } => {
                Statement::ClassDeclaration {
                    name: name.duplicate(),
                    superclass: copy_opt_token(superclass),
                    methods: duplicate_stmts(methods),
                }
            },
            Statement::Try { try_block, catch_block } => Statement::Try {
                try_block: duplicate_stmts(try_block),
                catch_block: duplicate_stmts(catch_block),
            },
            Statement::Throw { value } => Statement::Throw { value: copy_opt_expr(value) },
            Statement::RustInline { code } => Statement::RustInline { code: copy_text(code) },
            Statement::AsmInline { code } => Statement::AsmInline { code: copy_text(code) },
        }
    }
}

/// A copy of each statement, in order.
pub fn duplicate_stmts(ss: &Vec<Statement>) -> (r: Vec<Statement>)
    ensures
        stmts_view(r@) == stmts_view(ss@),
    decreases ss@, 0int,
{
    let mut out: Vec<Statement> = Vec::new();
    let mut i: usize = 0;
    while i < ss.len()
        invariant
            i <= ss@.len(),
            stmts_view(out@) == stmts_view(ss@.take(i as int)),
        decreases ss@.len() - i,
    {
        assert(ss@.take(i + 1).drop_last() =~= ss@.take(i as int));
        let d = ss[i].duplicate();
        let ghost before = out@;
        out.push(d);
        assert(out@.drop_last() =~= before);
        i = i + 1;
    }
    assert(ss@.take(i as int) =~= ss@);
    out
}

} // verus!
