//! The linter: finds variables that are declared and never used.
//!
//! The linter walks the program keeping a table of the variables in scope. A
//! declaration enters its name (replacing an entry of the same name), a use marks
//! it used, and leaving a function drops the names declared inside it. What is
//! left unused at the end is reported, in the order of the table.

use vstd::prelude::*;
use crate::ast::{Expression, Statement, Program};
use crate::text::{append_str, owned};
use crate::token::{Token, TokenType};

verus! {

/// A lint finding.
#[derive(Debug, Clone)]
pub struct LintError {
    pub message: String,
    pub line: usize,
    pub column: usize,
}

/// A lint finding as mathematical values.
pub struct LintErrorSpec {
    pub message: Seq<char>,
    pub line: nat,
    pub column: nat,
}

impl View for LintError {
    type V = LintErrorSpec;

    open spec fn view(&self) -> LintErrorSpec {
        LintErrorSpec { message: self.message@, line: self.line as nat, column: self.column as nat }
    }
}

/// An entry of the table of variables.
pub struct VarSpec {
    pub name: Seq<char>,
    pub line: nat,
    pub column: nat,
    pub used: bool,
    pub depth: int,
}

/// The linter's state: the table of variables and the depth of scopes.
pub struct LintState {
    pub table: Seq<VarSpec>,
    pub depth: int,
}

/// The index of the entry named `name`, or -1.
pub open spec fn find_var(t: Seq<VarSpec>, name: Seq<char>) -> int
    decreases t.len(),
{
    if t.len() == 0 {
        -1
    } else if t.last().name == name {
        t.len() - 1
    } else {
        find_var(t.drop_last(), name)
    }
}

/// Enters a variable: it replaces the entry of the same name, or is added at the end.
pub open spec fn insert_var(t: Seq<VarSpec>, v: VarSpec) -> Seq<VarSpec> {
    let i = find_var(t, v.name);
    if i >= 0 {
        t.update(i, v)
    } else {
        t.push(v)
    }
}

/// Marks the variable named `name` used, if there is one.
pub open spec fn mark_var(t: Seq<VarSpec>, name: Seq<char>) -> Seq<VarSpec> {
    let i = find_var(t, name);
    if i >= 0 {
        t.update(i, VarSpec { used: true, ..t[i] })
    } else {
        t
    }
}

/// The entries declared at a depth below `d`, in order.
pub open spec fn keep_shallower(t: Seq<VarSpec>, d: int) -> Seq<VarSpec>
    decreases t.len(),
{
    if t.len() == 0 {
        t
    } else if t.last().depth < d {
        keep_shallower(t.drop_last(), d).push(t.last())
    } else {
        keep_shallower(t.drop_last(), d)
    }
}

/// Whether a token names a variable: an identifier, whose name is its lexeme.
pub open spec fn is_name(t: Token) -> bool {
    t.token_type == TokenType::Identifier
}

/// Declares the variable named by `t` at the current depth.
pub open spec fn declare_spec(st: LintState, t: Token) -> LintState {
    LintState {
        table: insert_var(
            st.table,
            VarSpec {
                name: t.lexeme@,
                line: t.line as nat,
                column: t.column as nat,
                used: false,
                depth: st.depth,
            },
        ),
        depth: st.depth,
    }
}

/// Marks the variable named by `t` used, where `t` is an identifier.
pub open spec fn use_spec(t: Seq<VarSpec>, name: Token) -> Seq<VarSpec> {
    if is_name(name) {
        mark_var(t, name.lexeme@)
    } else {
        t
    }
}

/// The table after linting an expression: the variables it reads or assigns are used.
pub open spec fn lint_expr(t: Seq<VarSpec>, e: Expression) -> Seq<VarSpec>
    decreases e,
{
    match e {
        Expression::Identifier(tk) => use_spec(t, tk),
        Expression::Binary { left, operator, right } => lint_expr(lint_expr(t, *left), *right),
        Expression::Unary { operator, right } => lint_expr(t, *right),
        Expression::Assignment { name, value } => use_spec(lint_expr(t, *value), name),
        Expression::PropertyAssignment { object, property, value } => lint_expr(
            lint_expr(t, *object),
            *value,
        ),
        Expression::Call { callee, arguments } => lint_exprs(lint_expr(t, *callee), arguments@),
        Expression::ModuleAccess { module, member } => use_spec(t, module),
        Expression::Grouping(x) => lint_expr(t, *x),
        Expression::Index { array, index } => lint_expr(lint_expr(t, *array), *index),
        Expression::NewInstance { class, arguments } => lint_exprs(lint_expr(t, *class), arguments@),
        Expression::PropertyAccess { object, property } => lint_expr(t, *object),
        Expression::MethodCall { object, method, arguments } => lint_exprs(
            lint_expr(t, *object),
            arguments@,
        ),
        Expression::SuperCall { method, arguments } => lint_exprs(t, arguments@),
        _ => t,
    }
}

/// The table after linting expressions in order.
pub open spec fn lint_exprs(t: Seq<VarSpec>, es: Seq<Expression>) -> Seq<VarSpec>
    decreases es,
{
    if es.len() == 0 {
        t
    } else {
        lint_expr(lint_exprs(t, es.drop_last()), es.last())
    }
}

/// Declares each parameter that is an identifier.
pub open spec fn declare_params(st: LintState, ps: Seq<(Token, Option<String>)>) -> LintState
    decreases ps.len(),
{
    if ps.len() == 0 {
        st
    } else {
        let before = declare_params(st, ps.drop_last());
        if is_name(ps.last().0) {
            declare_spec(before, ps.last().0)
        } else {
            before
        }
    }
}

/// The state after linting statements in order.
pub open spec fn lint_stmts(st: LintState, ss: Seq<Statement>) -> LintState
    decreases ss, 0int,
{
    if ss.len() == 0 {
        st
    } else {
        lint_stmt(lint_stmts(st, ss.drop_last()), ss.last())
    }
}

/// Linting statements one scope deeper; the depth is stepped back after them.
pub open spec fn lint_scoped(st: LintState, ss: Seq<Statement>) -> LintState
    decreases ss, 1int,
{
    let inner = lint_stmts(LintState { table: st.table, depth: st.depth + 1 }, ss);
    LintState { table: inner.table, depth: inner.depth - 1 }
}

/// The state after linting one statement. A declaration whose name is not an
/// identifier is passed over, and a `for` loop whose variable is not one is left at
/// its inner depth, with its body unread.
pub open spec fn lint_stmt(st: LintState, s: Statement) -> LintState
    decreases s, 0int,
{
    match s {
        Statement::VariableDeclaration { name, type_annotation, initializer } => {
            if !is_name(name) {
                st
            } else {
                let st1 = declare_spec(st, name);
                match initializer {
                    Some(init) => LintState { table: lint_expr(st1.table, init), depth: st1.depth },
                    None => st1,
                }
            }
        },
        Statement::FunctionDeclaration { name, parameters, return_type, body } => {
            let st1 = declare_params(LintState { table: st.table, depth: st.depth + 1 }, parameters@);
            let st2 = lint_stmts(st1, body@);
            LintState { table: keep_shallower(st2.table, st2.depth), depth: st2.depth - 1 }
        },
        Statement::If { condition, then_branch, else_branch } => {
            let st1 = lint_scoped(
                LintState { table: lint_expr(st.table, condition), depth: st.depth },
                then_branch@,
            );
            match else_branch {
                Some(b) => lint_scoped(st1, b@),
                None => st1,
            }
        },
        Statement::While { condition, body } => lint_scoped(
            LintState { table: lint_expr(st.table, condition), depth: st.depth },
            body@,
        ),
        Statement::For { variable, iterable, body } => {
            let inner = LintState { table: lint_expr(st.table, iterable), depth: st.depth + 1 };
            if !is_name(variable) {
                inner
            } else {
                let st2 = lint_stmts(declare_spec(inner, variable), body@);
                LintState { table: st2.table, depth: st2.depth - 1 }
            }
        },
        Statement::Block(b) => lint_scoped(st, b@),
        Statement::Expression(e) => LintState { table: lint_expr(st.table, e), depth: st.depth },
        Statement::Return { value } => match value {
            Some(v) => LintState { table: lint_expr(st.table, v), depth: st.depth },
            None => st,
        },
        Statement::Throw { value } => match value {
            Some(v) => LintState { table: lint_expr(st.table, v), depth: st.depth },
            None => st,
        },
        Statement::ClassDeclaration { name, superclass, methods } => {
            if !is_name(name) {
                st
            } else {
                lint_stmts(declare_spec(st, name), methods@)
            }
        },
        Statement::Try { try_block, catch_block } => lint_scoped(
            lint_scoped(st, try_block@),
            catch_block@,
        ),
        _ => st,
    }
}

/// How far linting a statement can deepen the scopes: one for the statement and
/// its nested statements.
pub open spec fn stmt_weight(s: Statement) -> nat
    decreases s, 0int,
{
    match s {
        Statement::FunctionDeclaration { name, parameters, return_type, body } => 1
            + stmts_weight(body@),
        Statement::If { condition, then_branch, else_branch } => 1 + stmts_weight(then_branch@)
            + match else_branch {
            Some(b) => stmts_weight(b@),
            None => 0,
        },
        Statement::While { condition, body } => 1 + stmts_weight(body@),
        Statement::For { variable, iterable, body } => 1 + stmts_weight(body@),
        Statement::Block(b) => 1 + stmts_weight(b@),
        Statement::ClassDeclaration { name, superclass, methods } => 1 + stmts_weight(methods@),
        Statement::Try { try_block, catch_block } => 1 + stmts_weight(try_block@) + stmts_weight(
            catch_block@,
        ),
        _ => 1,
    }
}

/// The weight of statements in order.
pub open spec fn stmts_weight(ss: Seq<Statement>) -> nat
    decreases ss, 0int,
{
    if ss.len() == 0 {
        0
    } else {
        stmts_weight(ss.drop_last()) + stmt_weight(ss.last())
    }
}

/// The message for a variable declared and never used.
pub open spec fn unused_msg(name: Seq<char>) -> Seq<char> {
    "Unused variable '"@ + name + "'"@
}

/// The findings for the variables left unused in a table, in its order.
pub open spec fn report(t: Seq<VarSpec>) -> Seq<LintErrorSpec>
    decreases t.len(),
{
    if t.len() == 0 {
        Seq::empty()
    } else if !t.last().used {
        report(t.drop_last()).push(
            LintErrorSpec { message: unused_msg(t.last().name), line: t.last().line, column: t.last().column },
        )
    } else {
        report(t.drop_last())
    }
}

/// What linting a program finds.
pub open spec fn lint_spec(p: Program) -> Seq<LintErrorSpec> {
    report(lint_stmts(LintState { table: Seq::empty(), depth: 0 }, p.statements@).table)
}

/// Whether the variable `name` occurs in an expression: read as an identifier,
/// assigned, or named as a module, anywhere in it.
pub open spec fn mentions(e: Expression, name: Seq<char>) -> bool
    decreases e,
{
    match e {
        Expression::Identifier(tk) => is_name(tk) && tk.lexeme@ == name,
        Expression::Binary { left, operator, right } => mentions(*left, name) || mentions(*right, name),
        Expression::Unary { operator, right } => mentions(*right, name),
        Expression::Assignment { name: tk, value } => (is_name(tk) && tk.lexeme@ == name) || mentions(*value, name),
        Expression::PropertyAssignment { object, property, value } => mentions(*object, name) || mentions(
            *value,
            name,
        ),
        Expression::Call { callee, arguments } => mentions(*callee, name) || mentions_any(arguments@, name),
        Expression::ModuleAccess { module, member } => is_name(module) && module.lexeme@ == name,
        Expression::Grouping(x) => mentions(*x, name),
        Expression::Index { array, index } => mentions(*array, name) || mentions(*index, name),
        Expression::NewInstance { class, arguments } => mentions(*class, name) || mentions_any(arguments@, name),
        Expression::PropertyAccess { object, property } => mentions(*object, name),
        Expression::MethodCall { object, method, arguments } => mentions(*object, name) || mentions_any(
            arguments@,
            name,
        ),
        Expression::SuperCall { method, arguments } => mentions_any(arguments@, name),
        _ => false,
    }
}

/// Whether the variable `name` occurs in one of the expressions.
pub open spec fn mentions_any(es: Seq<Expression>, name: Seq<char>) -> bool
    decreases es,
{
    if es.len() == 0 {
        false
    } else {
        mentions_any(es.drop_last(), name) || mentions(es.last(), name)
    }
}

/// `u` has the entries of `t`, with the same names, and every entry used in `t` is
/// used in `u`.
pub open spec fn keeps_entries(t: Seq<VarSpec>, u: Seq<VarSpec>) -> bool {
    &&& u.len() == t.len()
    &&& forall|i: int| 0 <= i < t.len() ==> #[trigger] u[i].name == t[i].name
    &&& forall|i: int| 0 <= i < t.len() && t[i].used ==> #[trigger] u[i].used
}

proof fn lemma_find_var(t: Seq<VarSpec>, name: Seq<char>)
    ensures
        -1 <= find_var(t, name) < t.len(),
        find_var(t, name) >= 0 ==> t[find_var(t, name)].name == name,
    decreases t.len(),
{
    if t.len() > 0 {
        lemma_find_var(t.drop_last(), name);
    }
}

proof fn lemma_find_var_same_names(t: Seq<VarSpec>, u: Seq<VarSpec>, name: Seq<char>)
    requires
        keeps_entries(t, u),
    ensures
        find_var(u, name) == find_var(t, name),
    decreases t.len(),
{
    if t.len() > 0 {
        assert(u[u.len() - 1].name == t[t.len() - 1].name);
        assert(keeps_entries(t.drop_last(), u.drop_last())) by {
            assert forall|i: int| 0 <= i < t.len() - 1 implies #[trigger] u.drop_last()[i].name == t.drop_last()[i].name by {
                assert(u[i].name == t[i].name);
            }
            assert forall|i: int| 0 <= i < t.len() - 1 && t.drop_last()[i].used implies #[trigger] u.drop_last()[i].used by {
                assert(t[i].used ==> u[i].used);
            }
        }
        lemma_find_var_same_names(t.drop_last(), u.drop_last(), name);
    }
}

proof fn lemma_keeps_trans(a: Seq<VarSpec>, b: Seq<VarSpec>, c: Seq<VarSpec>)
    requires
        keeps_entries(a, b),
        keeps_entries(b, c),
    ensures
        keeps_entries(a, c),
{
    assert forall|i: int| 0 <= i < a.len() implies #[trigger] c[i].name == a[i].name by {
        assert(b[i].name == a[i].name);
        assert(c[i].name == b[i].name);
    }
    assert forall|i: int| 0 <= i < a.len() && a[i].used implies #[trigger] c[i].used by {
        assert(b[i].used);
    }
}

proof fn lemma_use_keeps(t: Seq<VarSpec>, tk: Token)
    ensures
        keeps_entries(t, use_spec(t, tk)),
        is_name(tk) && find_var(t, tk.lexeme@) >= 0 ==> use_spec(t, tk)[find_var(t, tk.lexeme@)].used,
{
    lemma_find_var(t, tk.lexeme@);
}

/// Linting an expression keeps the table's entries and only marks them used.
proof fn lemma_lint_expr_keeps(t: Seq<VarSpec>, e: Expression)
    ensures
        keeps_entries(t, lint_expr(t, e)),
    decreases e, 1int,
{
    match e {
        Expression::Identifier(tk) => lemma_use_keeps(t, tk),
        Expression::Binary { left, operator, right } => {
            lemma_lint_expr_keeps(t, *left);
            lemma_lint_expr_keeps(lint_expr(t, *left), *right);
            lemma_keeps_trans(t, lint_expr(t, *left), lint_expr(lint_expr(t, *left), *right));
        },
        Expression::Unary { operator, right } => lemma_lint_expr_keeps(t, *right),
        Expression::Assignment { name, value } => {
            lemma_lint_expr_keeps(t, *value);
            lemma_use_keeps(lint_expr(t, *value), name);
            lemma_keeps_trans(t, lint_expr(t, *value), use_spec(lint_expr(t, *value), name));
        },
        Expression::PropertyAssignment { object, property, value } => {
            lemma_lint_expr_keeps(t, *object);
            lemma_lint_expr_keeps(lint_expr(t, *object), *value);
            lemma_keeps_trans(t, lint_expr(t, *object), lint_expr(lint_expr(t, *object), *value));
        },
        Expression::Call { callee, arguments } => {
            lemma_lint_expr_keeps(t, *callee);
            lemma_lint_exprs_keeps(lint_expr(t, *callee), arguments@);
            lemma_keeps_trans(t, lint_expr(t, *callee), lint_exprs(lint_expr(t, *callee), arguments@));
        },
        Expression::ModuleAccess { module, member } => lemma_use_keeps(t, module),
        Expression::Grouping(x) => lemma_lint_expr_keeps(t, *x),
        Expression::Index { array, index } => {
            lemma_lint_expr_keeps(t, *array);
            lemma_lint_expr_keeps(lint_expr(t, *array), *index);
            lemma_keeps_trans(t, lint_expr(t, *array), lint_expr(lint_expr(t, *array), *index));
        },
        Expression::NewInstance { class, arguments } => {
            lemma_lint_expr_keeps(t, *class);
            lemma_lint_exprs_keeps(lint_expr(t, *class), arguments@);
            lemma_keeps_trans(t, lint_expr(t, *class), lint_exprs(lint_expr(t, *class), arguments@));
        },
        Expression::PropertyAccess { object, property } => lemma_lint_expr_keeps(t, *object),
        Expression::MethodCall { object, method, arguments } => {
            lemma_lint_expr_keeps(t, *object);
            lemma_lint_exprs_keeps(lint_expr(t, *object), arguments@);
            lemma_keeps_trans(t, lint_expr(t, *object), lint_exprs(lint_expr(t, *object), arguments@));
        },
        Expression::SuperCall { method, arguments } => lemma_lint_exprs_keeps(t, arguments@),
        _ => {},
    }
}

proof fn lemma_lint_exprs_keeps(t: Seq<VarSpec>, es: Seq<Expression>)
    ensures
        keeps_entries(t, lint_exprs(t, es)),
    decreases es, 0int,
{
    if es.len() > 0 {
        lemma_lint_exprs_keeps(t, es.drop_last());
        lemma_lint_expr_keeps(lint_exprs(t, es.drop_last()), es.last());
        lemma_keeps_trans(t, lint_exprs(t, es.drop_last()), lint_exprs(t, es));
    }
}

/// Linting an expression marks used every declared variable that occurs anywhere in
/// it, in either operand of a binary expression as much as anywhere else; the table
/// keeps its entries.
pub proof fn law_lint_marks_mentions(t: Seq<VarSpec>, e: Expression, name: Seq<char>)
    requires
        mentions(e, name),
        find_var(t, name) >= 0,
    ensures
        find_var(lint_expr(t, e), name) == find_var(t, name),
        lint_expr(t, e)[find_var(t, name)].used,
    decreases e, 1int,
{
    lemma_find_var(t, name);
    lemma_lint_expr_keeps(t, e);
    lemma_find_var_same_names(t, lint_expr(t, e), name);
    let i = find_var(t, name);
    match e {
        Expression::Identifier(tk) => lemma_use_keeps(t, tk),
        Expression::Binary { left, operator, right } => {
            let t1 = lint_expr(t, *left);
            lemma_lint_expr_keeps(t, *left);
            lemma_find_var_same_names(t, t1, name);
            if mentions(*left, name) {
                law_lint_marks_mentions(t, *left, name);
                lemma_lint_expr_keeps(t1, *right);
            } else {
                law_lint_marks_mentions(t1, *right, name);
            }
        },
        Expression::Unary { operator, right } => law_lint_marks_mentions(t, *right, name),
        Expression::Assignment { name: tk, value } => {
            let t1 = lint_expr(t, *value);
            lemma_lint_expr_keeps(t, *value);
            lemma_find_var_same_names(t, t1, name);
            lemma_use_keeps(t1, tk);
            if mentions(*value, name) {
                law_lint_marks_mentions(t, *value, name);
            }
        },
        Expression::PropertyAssignment { object, property, value } => {
            let t1 = lint_expr(t, *object);
            lemma_lint_expr_keeps(t, *object);
            lemma_find_var_same_names(t, t1, name);
            if mentions(*object, name) {
                law_lint_marks_mentions(t, *object, name);
                lemma_lint_expr_keeps(t1, *value);
            } else {
                law_lint_marks_mentions(t1, *value, name);
            }
        },
        Expression::Call { callee, arguments } => {
            let t1 = lint_expr(t, *callee);
            lemma_lint_expr_keeps(t, *callee);
            lemma_find_var_same_names(t, t1, name);
            if mentions(*callee, name) {
                law_lint_marks_mentions(t, *callee, name);
                lemma_lint_exprs_keeps(t1, arguments@);
            } else {
                law_lint_marks_mentions_any(t1, arguments@, name);
            }
        },
        Expression::ModuleAccess { module, member } => lemma_use_keeps(t, module),
        Expression::Grouping(x) => law_lint_marks_mentions(t, *x, name),
        Expression::Index { array, index } => {
            let t1 = lint_expr(t, *array);
            lemma_lint_expr_keeps(t, *array);
            lemma_find_var_same_names(t, t1, name);
            if mentions(*array, name) {
                law_lint_marks_mentions(t, *array, name);
                lemma_lint_expr_keeps(t1, *index);
            } else {
                law_lint_marks_mentions(t1, *index, name);
            }
        },
        Expression::NewInstance { class, arguments } => {
            let t1 = lint_expr(t, *class);
            lemma_lint_expr_keeps(t, *class);
            lemma_find_var_same_names(t, t1, name);
            if mentions(*class, name) {
                law_lint_marks_mentions(t, *class, name);
                lemma_lint_exprs_keeps(t1, arguments@);
            } else {
                law_lint_marks_mentions_any(t1, arguments@, name);
            }
        },
        Expression::PropertyAccess { object, property } => law_lint_marks_mentions(t, *object, name),
        Expression::MethodCall { object, method, arguments } => {
            let t1 = lint_expr(t, *object);
            lemma_lint_expr_keeps(t, *object);
            lemma_find_var_same_names(t, t1, name);
            if mentions(*object, name) {
                law_lint_marks_mentions(t, *object, name);
                lemma_lint_exprs_keeps(t1, arguments@);
            } else {
                law_lint_marks_mentions_any(t1, arguments@, name);
            }
        },
        Expression::SuperCall { method, arguments } => law_lint_marks_mentions_any(t, arguments@, name),
        _ => {},
    }
}

/// The same for a list of expressions linted in order.
pub proof fn law_lint_marks_mentions_any(t: Seq<VarSpec>, es: Seq<Expression>, name: Seq<char>)
    requires
        mentions_any(es, name),
        find_var(t, name) >= 0,
    ensures
        find_var(lint_exprs(t, es), name) == find_var(t, name),
        lint_exprs(t, es)[find_var(t, name)].used,
    decreases es, 0int,
{
    lemma_find_var(t, name);
    let p = es.drop_last();
    let t1 = lint_exprs(t, p);
    lemma_lint_exprs_keeps(t, p);
    lemma_find_var_same_names(t, t1, name);
    lemma_lint_expr_keeps(t1, es.last());
    lemma_find_var_same_names(t1, lint_exprs(t, es), name);
    if mentions_any(p, name) {
        law_lint_marks_mentions_any(t, p, name);
    } else {
        law_lint_marks_mentions(t1, es.last(), name);
    }
}

pub proof fn lemma_weight_prefix(ss: Seq<Statement>, i: int)
    requires
        0 <= i <= ss.len(),
    ensures
        stmts_weight(ss.take(i)) <= stmts_weight(ss),
    decreases ss.len(),
{
    if i < ss.len() {
        assert(ss.drop_last().take(i) =~= ss.take(i));
        lemma_weight_prefix(ss.drop_last(), i);
    } else {
        assert(ss.take(i) =~= ss);
    }
}

#[derive(Debug, Clone, Copy)]
struct VariableInfo {
    declared_at: (usize, usize),
    used: bool,
    scope_depth: usize,
}

spec fn entry_view(e: (String, VariableInfo)) -> VarSpec {
    VarSpec {
        name: e.0@,
        line: e.1.declared_at.0 as nat,
        column: e.1.declared_at.1 as nat,
        used: e.1.used,
        depth: e.1.scope_depth as int,
    }
}

/// The linter, with the table of variables of the program it last looked at.
pub struct Linter {
    errors: Vec<LintError>,
    variables: Vec<(String, VariableInfo)>,
    scope_depth: usize,
}

fn unused_message(name: &str) -> (r: String)
    ensures
        r@ == unused_msg(name@),
{
    let mut m = owned("Unused variable '");
    append_str(&mut m, name);
    append_str(&mut m, "'");
    m
}

impl Linter {
    pub closed spec fn table(&self) -> Seq<VarSpec> {
        self.variables@.map_values(|e: (String, VariableInfo)| entry_view(e))
    }

    pub closed spec fn lstate(&self) -> LintState {
        LintState { table: self.table(), depth: self.scope_depth as int }
    }

    /// The lint errors gathered by the last run.
    pub closed spec fn errors_view(&self) -> Seq<LintErrorSpec> {
        self.errors@.map_values(|e: LintError| e@)
    }

    pub fn new() -> (r: Self)
        ensures
            r.lstate() == (LintState { table: Seq::empty(), depth: 0 }),
            r.errors_view() == Seq::<LintErrorSpec>::empty(),
    {
        let r = Linter { errors: Vec::new(), variables: Vec::new(), scope_depth: 0 };
        assert(r.table() =~= Seq::empty());
        assert(r.errors_view() =~= Seq::<LintErrorSpec>::empty());
        r
    }

    fn find_variable(&self, name: &str) -> (r: Option<usize>)
        ensures
            match r {
                Some(i) => i == find_var(self.table(), name@) && i < self.variables@.len(),
                None => find_var(self.table(), name@) == -1,
            },
    {
        let ghost t = self.table();
        let mut i = self.variables.len();
        assert(t.take(i as int) =~= t);
        while i > 0
            invariant
                i <= self.variables@.len(),
                t == self.table(),
                find_var(t, name@) == find_var(t.take(i as int), name@),
            decreases i,
        {
            assert(t.take(i as int).drop_last() =~= t.take(i - 1));
            if crate::text::str_eq(self.variables[i - 1].0.as_str(), name) {
                return Some(i - 1);
            }
            i = i - 1;
        }
        assert(t.take(0) =~= Seq::<VarSpec>::empty());
        None
    }

    /// Enters the variable that `name` names, at the current depth.
    fn declare(&mut self, name: &Token)
        ensures
            final(self).lstate() == declare_spec(old(self).lstate(), *name),
    {
        let info = VariableInfo {
            declared_at: (name.line, name.column),
            used: false,
            scope_depth: self.scope_depth,
        };
        let ghost t = self.table();
        let entry = (name.lexeme.clone(), info);
        match self.find_variable(name.lexeme.as_str()) {
            Some(i) => {
                self.variables.set(i, entry);
                assert(self.table() =~= t.update(i as int, entry_view(entry)));
            },
            None => {
                self.variables.push(entry);
                assert(self.table() =~= t.push(entry_view(entry)));
            },
        }
    }

    /// Marks used the variable that `name` names, if it is an identifier.
    fn mark_used(&mut self, name: &Token)
        ensures
            final(self).lstate() == (LintState {
                table: use_spec(old(self).table(), *name),
                depth: old(self).scope_depth as int,
            }),
    {
        if name.token_type == TokenType::Identifier {
            let ghost t = self.table();
            match self.find_variable(name.lexeme.as_str()) {
                Some(i) => {
                    let old_info = self.variables[i].1;
                    let entry = (
                        self.variables[i].0.clone(),
                        VariableInfo {
                            declared_at: old_info.declared_at,
                            used: true,
                            scope_depth: old_info.scope_depth,
                        },
                    );
                    self.variables.set(i, entry);
                    assert(self.table() =~= t.update(i as int, VarSpec { used: true, ..t[i as int] }));
                },
                None => {},
            }
        }
    }

    /// Drops the variables declared at the current depth or deeper.
    fn drop_inner_variables(&mut self)
        ensures
            final(self).lstate() == (LintState {
                table: keep_shallower(old(self).table(), old(self).scope_depth as int),
                depth: old(self).scope_depth as int,
            }),
    {
        let ghost t = self.table();
        let mut kept: Vec<(String, VariableInfo)> = Vec::new();
        let mut i: usize = 0;
        while i < self.variables.len()
            invariant
                i <= self.variables@.len(),
                t == self.table(),
                kept@.map_values(|e: (String, VariableInfo)| entry_view(e)) == keep_shallower(
                    t.take(i as int),
                    self.scope_depth as int,
                ),
            decreases self.variables@.len() - i,
        {
            let ghost before = kept@.map_values(|e: (String, VariableInfo)| entry_view(e));
            assert(t.take(i + 1).drop_last() =~= t.take(i as int));
            if self.variables[i].1.scope_depth < self.scope_depth {
                let entry = (self.variables[i].0.clone(), self.variables[i].1);
                kept.push(entry);
                assert(kept@.map_values(|e: (String, VariableInfo)| entry_view(e)) =~= before.push(
                    entry_view(entry),
                ));
            }
            i = i + 1;
        }
        assert(t.take(i as int) =~= t);
        self.variables = kept;
    }

    fn lint_expressions(&mut self, es: &Vec<Expression>)
        ensures
            final(self).lstate() == (LintState {
                table: lint_exprs(old(self).table(), es@),
                depth: old(self).scope_depth as int,
            }),
        decreases es@, 0int,
    {
        let ghost t0 = self.table();
        let mut i: usize = 0;
        while i < es.len()
            invariant
                i <= es@.len(),
                self.table() == lint_exprs(t0, es@.take(i as int)),
                self.scope_depth == old(self).scope_depth,
                t0 == old(self).table(),
            decreases es@.len() - i,
        {
            assert(es@.take(i + 1).drop_last() =~= es@.take(i as int));
            self.lint_expression(&es[i]);
            i = i + 1;
        }
        assert(es@.take(i as int) =~= es@);
    }

    fn lint_expression(&mut self, e: &Expression)
        ensures
            final(self).lstate() == (LintState {
                table: lint_expr(old(self).table(), *e),
                depth: old(self).scope_depth as int,
            }),
        decreases e, 1int,
    {
        match e {
            Expression::Identifier(token) => {
                self.mark_used(token);
            },
            Expression::Binary { left, operator: _, right } => {
                self.lint_expression(left);
                self.lint_expression(right);
            },
            Expression::Unary { operator: _, right } => {
                self.lint_expression(right);
            },
            Expression::Assignment { name, value } => {
                self.lint_expression(value);
                self.mark_used(name);
            },
            Expression::PropertyAssignment { object, property: _, value } => {
                self.lint_expression(object);
                self.lint_expression(value);
            },
            Expression::Call { callee, arguments } => {
                self.lint_expression(callee);
                self.lint_expressions(arguments);
            },
            Expression::ModuleAccess { module, member: _ } => {
                self.mark_used(module);
            },
            Expression::Grouping(inner) => {
                self.lint_expression(inner);
            },
            Expression::Index { array, index } => {
                self.lint_expression(array);
                self.lint_expression(index);
            },
            Expression::NewInstance { class, arguments } => {
                self.lint_expression(class);
                self.lint_expressions(arguments);
            },
            Expression::PropertyAccess { object, property: _ } => {
                self.lint_expression(object);
            },
            Expression::MethodCall { object, method: _, arguments } => {
                self.lint_expression(object);
                self.lint_expressions(arguments);
            },
            Expression::SuperCall { method: _, arguments } => {
                self.lint_expressions(arguments);
            },
            _ => {},
        }
    }

    fn declare_parameters(&mut self, ps: &Vec<(Token, Option<String>)>)
        ensures
            final(self).lstate() == declare_params(old(self).lstate(), ps@),
            final(self).scope_depth == old(self).scope_depth,
    {
        let ghost st0 = self.lstate();
        let mut i: usize = 0;
        while i < ps.len()
            invariant
                i <= ps@.len(),
                st0 == old(self).lstate(),
                self.lstate() == declare_params(st0, ps@.take(i as int)),
                self.scope_depth == old(self).scope_depth,
            decreases ps@.len() - i,
        {
            assert(ps@.take(i + 1).drop_last() =~= ps@.take(i as int));
            if ps[i].0.token_type == TokenType::Identifier {
                self.declare(&ps[i].0);
            }
            i = i + 1;
        }
        assert(ps@.take(i as int) =~= ps@);
    }

    fn lint_statements(&mut self, ss: &Vec<Statement>)
        requires
            old(self).scope_depth + stmts_weight(ss@) <= usize::MAX,
        ensures
            final(self).lstate() == lint_stmts(old(self).lstate(), ss@),
            old(self).scope_depth <= final(self).scope_depth <= old(self).scope_depth
                + stmts_weight(ss@),
        decreases ss@, 0int,
    {
        let ghost st0 = self.lstate();
        let ghost d0 = self.scope_depth as int;
        let mut i: usize = 0;
        while i < ss.len()
            invariant
                i <= ss@.len(),
                st0 == old(self).lstate(),
                d0 == old(self).scope_depth,
                d0 + stmts_weight(ss@) <= usize::MAX,
                self.lstate() == lint_stmts(st0, ss@.take(i as int)),
                d0 <= self.scope_depth <= d0 + stmts_weight(ss@.take(i as int)),
            decreases ss@.len() - i,
        {
            assert(ss@.take(i + 1).drop_last() =~= ss@.take(i as int));
            proof {
                lemma_weight_prefix(ss@, i + 1);
            }
            self.lint_statement(&ss[i]);
            i = i + 1;
        }
        assert(ss@.take(i as int) =~= ss@);
    }

    fn lint_scoped(&mut self, ss: &Vec<Statement>)
        requires
            old(self).scope_depth + 1 + stmts_weight(ss@) <= usize::MAX,
        ensures
            final(self).lstate() == lint_scoped(old(self).lstate(), ss@),
            old(self).scope_depth <= final(self).scope_depth <= old(self).scope_depth
                + stmts_weight(ss@),
        decreases ss@, 1int,
    {
        self.scope_depth += 1;
        self.lint_statements(ss);
        self.scope_depth -= 1;
    }

    fn lint_statement(&mut self, statement: &Statement)
        requires
            old(self).scope_depth + stmt_weight(*statement) <= usize::MAX,
        ensures
            final(self).lstate() == lint_stmt(old(self).lstate(), *statement),
            old(self).scope_depth <= final(self).scope_depth <= old(self).scope_depth
                + stmt_weight(*statement),
        decreases statement, 0int,
    {
        match statement {
            Statement::VariableDeclaration { name, type_annotation: _, initializer } => {
                if name.token_type != TokenType::Identifier {
                    return;
                }
                self.declare(name);
                if let Some(init) = initializer {
                    self.lint_expression(init);
                }
            },
            Statement::FunctionDeclaration { name: _, parameters, return_type: _, body } => {
                self.scope_depth += 1;
                self.declare_parameters(parameters);
                self.lint_statements(body);
                self.drop_inner_variables();
                self.scope_depth -= 1;
            },
            Statement::If { condition, then_branch, else_branch } => {
                self.lint_expression(condition);
                self.lint_scoped(then_branch);
                if let Some(else_stmts) = else_branch {
                    self.lint_scoped(else_stmts);
                }
            },
            Statement::While { condition, body } => {
                self.lint_expression(condition);
                self.lint_scoped(body);
            },
            Statement::For { variable, iterable, body } => {
                self.lint_expression(iterable);
                self.scope_depth += 1;
                if variable.token_type != TokenType::Identifier {
                    return;
                }
                self.declare(variable);
                self.lint_statements(body);
                self.scope_depth -= 1;
            },
            Statement::Block(statements) => {
                self.lint_scoped(statements);
            },
            Statement::Expression(expr) => {
                self.lint_expression(expr);
            },
            Statement::Return { value } => {
                if let Some(val) = value {
                    self.lint_expression(val);
                }
            },
            Statement::Throw { value } => {
                if let Some(val) = value {
                    self.lint_expression(val);
                }
            },
            Statement::ClassDeclaration { name, superclass: _, methods } => {
                if name.token_type != TokenType::Identifier {
                    return;
                }
                self.declare(name);
                self.lint_statements(methods);
            },
            Statement::Try { try_block, catch_block } => {
                self.lint_scoped(try_block);
                self.lint_scoped(catch_block);
            },
            _ => {},
        }
    }

    fn lint_program(&mut self, program: &Program)
        requires
            old(self).scope_depth + stmts_weight(program.statements@) <= usize::MAX,
        ensures
            final(self).lstate() == lint_stmts(old(self).lstate(), program.statements@),
    {
        self.lint_statements(&program.statements);
    }

    /// The variables of `program` that are declared and never used, as findings at
    /// their declarations. Whatever the linter looked at before does not matter.
    /// Nesting is counted in `usize`: the statements, each held in memory, cannot
    /// outnumber the addresses.
    pub fn lint(&mut self, program: &Program) -> (r: Vec<LintError>)
        requires
            stmts_weight(program.statements@) <= usize::MAX,
        ensures
            r@.map_values(|e: LintError| e@) == lint_spec(*program),
    {
        self.variables = Vec::new();
        self.scope_depth = 0;
        assert(self.table() =~= Seq::empty());
        self.lint_program(program);
        self.errors = Vec::new();
        assert(self.errors@.map_values(|e: LintError| e@) =~= Seq::empty());
        let ghost t = self.table();
        let mut i: usize = 0;
        while i < self.variables.len()
            invariant
                i <= self.variables@.len(),
                t == self.table(),
                self.errors@.map_values(|e: LintError| e@) == report(t.take(i as int)),
            decreases self.variables@.len() - i,
        {
            let ghost before = self.errors@.map_values(|e: LintError| e@);
            assert(t.take(i + 1).drop_last() =~= t.take(i as int));
            if !self.variables[i].1.used {
                let e = LintError {
                    message: unused_message(self.variables[i].0.as_str()),
                    line: self.variables[i].1.declared_at.0,
                    column: self.variables[i].1.declared_at.1,
                };
                self.errors.push(e);
                assert(self.errors@.map_values(|e: LintError| e@) =~= before.push(e@));
            }
            i = i + 1;
        }
        assert(t.take(i as int) =~= t);
        let mut out: Vec<LintError> = Vec::new();
        let mut k: usize = 0;
        while k < self.errors.len()
            invariant
                k <= self.errors@.len(),
                out@.map_values(|e: LintError| e@) == self.errors@.map_values(|e: LintError| e@).take(
                    k as int,
                ),
            decreases self.errors@.len() - k,
        {
            let e = LintError {
                message: self.errors[k].message.clone(),
                line: self.errors[k].line,
                column: self.errors[k].column,
            };
            let ghost before = out@.map_values(|e: LintError| e@);
            assert(e@ == self.errors@[k as int]@);
            out.push(e);
            assert(out@.map_values(|e: LintError| e@) =~= before.push(e@));
            assert(out@.map_values(|e: LintError| e@) =~= self.errors@.map_values(|e: LintError| e@).take(
                k + 1,
            ));
            k = k + 1;
        }
        assert(self.errors@.map_values(|e: LintError| e@).take(k as int) =~= self.errors@.map_values(
            |e: LintError| e@,
        ));
        out
    }
}

} // verus!
