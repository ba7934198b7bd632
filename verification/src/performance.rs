//! Performance helpers: string interning and a memory pool with a free list.

use vstd::prelude::*;
use crate::text::str_eq;
use crate::ast::{Expression, Statement, StmtSpec, stmt_view, stmts_view};
use crate::bytecode::Value;
use crate::token::Token;

verus! {

/// The id of an interned string: its position in the interner.
#[derive(Debug, Clone, Copy, PartialEq, Eq, Hash, Structural)]
pub struct StringId(pub usize);

/// String interner: each distinct string is stored once and named by a `StringId`.
pub struct StringInterner {
    id_to_string: Vec<String>,
    next_id: usize,
}

impl StringInterner {
    /// The interned strings, in order of their ids.
    pub closed spec fn view(&self) -> Seq<Seq<char>> {
        self.id_to_string@.map_values(|s: String| s@)
    }

    /// Well-formedness: ids are positions, and no string is held twice.
    pub closed spec fn wf(&self) -> bool {
        &&& self.next_id == self.id_to_string@.len()
        &&& forall|i: int, j: int|
            0 <= i < j < self.id_to_string@.len() ==> #[trigger] self.id_to_string@[i]@
                != #[trigger] self.id_to_string@[j]@
    }

    /// An interner holding no strings.
    pub fn new() -> (r: StringInterner)
        ensures
            r.wf(),
            r.view().len() == 0,
    {
        StringInterner { id_to_string: Vec::new(), next_id: 0 }
    }

    /// Interns a string: the id of the equal string already held, or a new id for it.
    pub fn intern(&mut self, s: String) -> (id: StringId)
        requires
            old(self).wf(),
        ensures
            final(self).wf(),
            old(self).view().contains(s@) ==> final(self).view() == old(self).view()
                && old(self).view()[id.0 as int] == s@,
            !old(self).view().contains(s@) ==> final(self).view() == old(self).view().push(s@)
                && id.0 == old(self).view().len(),
            id.0 < final(self).view().len(),
            final(self).view()[id.0 as int] == s@,
    {
        let n = self.id_to_string.len();
        let mut i: usize = 0;
        while i < n
            invariant
                n == self.id_to_string@.len(),
                i <= n,
                self.wf(),
                *self == *old(self),
                forall|j: int| 0 <= j < i ==> #[trigger] self.id_to_string@[j]@ != s@,
            decreases n - i,
        {
            if str_eq(self.id_to_string[i].as_str(), s.as_str()) {
                let id = StringId(i);
                assert(self.view()[i as int] == s@);
                return id;
            }
            i = i + 1;
        }
        assert(!self.view().contains(s@)) by {
            if self.view().contains(s@) {
                let k = choose|k: int| 0 <= k < self.view().len() && self.view()[k] == s@;
                assert(self.id_to_string@[k]@ == s@);
            }
        }
        let id = StringId(self.next_id);
        let ghost before = self.view();
        let ghost old_strings = self.id_to_string@;
        self.id_to_string.push(s);
        self.next_id = self.id_to_string.len();
        assert(self.view() =~= before.push(s@));
        assert forall|a: int, b: int|
            0 <= a < b < self.id_to_string@.len() implies #[trigger] self.id_to_string@[a]@
            != #[trigger] self.id_to_string@[b]@ by {
            if b == n {
                assert(old_strings[a]@ != s@);
            } else {
                assert(old_strings[a]@ != old_strings[b]@);
            }
        }
        id
    }

    /// The string with the given id, if there is one.
    pub fn get(&self, id: StringId) -> (r: Option<&str>)
        ensures
            id.0 < self.view().len() ==> (r matches Some(t) && t@ == self.view()[id.0 as int]),
            id.0 >= self.view().len() ==> r is None,
    {
        if id.0 < self.id_to_string.len() {
            Some(self.id_to_string[id.0].as_str())
        } else {
            None
        }
    }

    /// The number of distinct strings interned.
    pub fn len(&self) -> (r: usize)
        ensures
            r == self.view().len(),
    {
        self.id_to_string.len()
    }
}

/// An interner holds each string at most once.
pub proof fn law_interned_strings_distinct(interner: &StringInterner, i: int, j: int)
    requires
        interner.wf(),
        0 <= i < interner.view().len(),
        0 <= j < interner.view().len(),
        i != j,
    ensures
        interner.view()[i] != interner.view()[j],
{
    if i < j {
        assert(interner.id_to_string@[i]@ != interner.id_to_string@[j]@);
    } else {
        assert(interner.id_to_string@[j]@ != interner.id_to_string@[i]@);
    }
}

/// Memory pool: objects stored in slots, with a stack of freed slots that are reused first.
pub struct MemoryPool<T> {
    objects: Vec<T>,
    free_list: Vec<usize>,
}

impl<T> MemoryPool<T> {
    /// The objects in their slots.
    pub closed spec fn objects_view(&self) -> Seq<T> {
        self.objects@
    }

    /// The freed slots; the last one is reused first.
    pub closed spec fn free_view(&self) -> Seq<usize> {
        self.free_list@
    }

    /// Well-formedness: every freed slot is a slot of the pool.
    pub closed spec fn wf(&self) -> bool {
        forall|i: int| 0 <= i < self.free_list@.len() ==> #[trigger] self.free_list@[i] < self.objects@.len()
    }

    /// In a well-formed pool every freed slot is a slot of the pool.
    pub proof fn lemma_free_slots_in_pool(&self)
        requires
            self.wf(),
        ensures
            forall|i: int| 0 <= i < self.free_view().len() ==> #[trigger] self.free_view()[i] < self.objects_view().len(),
    {
    }

    /// An empty pool.
    pub fn new() -> (r: MemoryPool<T>)
        ensures
            r.wf(),
            r.objects_view().len() == 0,
            r.free_view().len() == 0,
    {
        MemoryPool { objects: Vec::new(), free_list: Vec::new() }
    }

    /// Stores an object in the most recently freed slot, or in a new slot when none is free.
    pub fn allocate(&mut self, object: T) -> (index: usize)
        requires
            old(self).wf(),
        ensures
            final(self).wf(),
            old(self).free_view().len() > 0 ==> index == old(self).free_view().last()
                && final(self).free_view() == old(self).free_view().drop_last()
                && final(self).objects_view() == old(self).objects_view().update(
                index as int,
                object,
            ),
            old(self).free_view().len() > 0 ==> index < old(self).objects_view().len()
                && final(self).objects_view().len() == old(self).objects_view().len(),
            forall|j: int|
                0 <= j < old(self).objects_view().len() && j != index
                    ==> #[trigger] final(self).objects_view()[j] == old(self).objects_view()[j],
            old(self).free_view().len() == 0 ==> index == old(self).objects_view().len()
                && final(self).free_view() == old(self).free_view()
                && final(self).objects_view() == old(self).objects_view().push(object),
            index < final(self).objects_view().len(),
            final(self).objects_view()[index as int] == object,
    {
        if self.free_list.len() > 0 {
            let index = self.free_list.pop().unwrap();
            self.objects.set(index, object);
            index
        } else {
            self.objects.push(object);
            self.objects.len() - 1
        }
    }

    /// Marks a slot as free; indices outside the pool are ignored.
    pub fn deallocate(&mut self, index: usize)
        requires
            old(self).wf(),
        ensures
            final(self).wf(),
            index < old(self).objects_view().len() ==> final(self).free_view() == old(
                self,
            ).free_view().push(index),
            index >= old(self).objects_view().len() ==> final(self).free_view() == old(
                self,
            ).free_view(),
            final(self).objects_view() == old(self).objects_view(),
    {
        if index < self.objects.len() {
            self.free_list.push(index);
        }
    }

    /// The object in a slot, if the slot exists.
    pub fn get(&self, index: usize) -> (r: Option<&T>)
        ensures
            index < self.objects_view().len() ==> r == Some(&self.objects_view()[index as int]),
            index >= self.objects_view().len() ==> r is None,
    {
        if index < self.objects.len() {
            Some(&self.objects[index])
        } else {
            None
        }
    }

    /// Replaces the object in a slot, if the slot exists; reports whether it did.
    pub fn get_mut(&mut self, index: usize, object: T) -> (r: bool)
        requires
            old(self).wf(),
        ensures
            final(self).wf(),
            r == (index < old(self).objects_view().len()),
            r ==> final(self).objects_view() == old(self).objects_view().update(index as int, object),
            !r ==> final(self).objects_view() == old(self).objects_view(),
            final(self).free_view() == old(self).free_view(),
    {
        if index < self.objects.len() {
            self.objects.set(index, object);
            true
        } else {
            false
        }
    }

    /// The number of slots in the pool.
    pub fn pooled_count(&self) -> (r: usize)
        ensures
            r == self.objects_view().len(),
    {
        self.objects.len()
    }

    /// The number of freed slots.
    pub fn free_count(&self) -> (r: usize)
        ensures
            r == self.free_view().len(),
    {
        self.free_list.len()
    }
}

/// Performance optimization statistics.
#[derive(Debug, Clone, Copy, PartialEq, Eq, Structural)]
pub struct OptimizationStats {
    pub interned_strings: usize,
    pub pooled_values: usize,
    pub free_values: usize,
}

/// Constant folding optimizer.
pub struct ConstantFolder {}

impl ConstantFolder {
    pub fn new() -> (r: ConstantFolder) {
        ConstantFolder {  }
    }
}

/// The marks that a log of `(name, used)` entries leaves; a later entry for a name wins.
pub open spec fn marks_of(log: Seq<(String, bool)>) -> Map<Seq<char>, bool>
    decreases log.len(),
{
    if log.len() == 0 {
        Map::empty()
    } else {
        marks_of(log.drop_last()).insert(log.last().0@, log.last().1)
    }
}

/// The marks after scanning an expression: names read or assigned become used.
pub open spec fn mark_expr(m: Map<Seq<char>, bool>, e: Expression) -> Map<Seq<char>, bool>
    decreases e, 0int,
{
    match e {
        Expression::Identifier(t) => m.insert(t.lexeme@, true),
        Expression::Binary { left, right, .. } => mark_expr(mark_expr(m, *left), *right),
        Expression::Unary { right, .. } => mark_expr(m, *right),
        Expression::Call { callee, arguments } => mark_exprs(mark_expr(m, *callee), arguments@),
        Expression::Assignment { name, value } => mark_expr(m.insert(name.lexeme@, true), *value),
        _ => m,
    }
}

/// The marks after scanning expressions in order.
pub open spec fn mark_exprs(m: Map<Seq<char>, bool>, es: Seq<Expression>) -> Map<Seq<char>, bool>
    decreases es, 0int,
{
    if es.len() == 0 {
        m
    } else {
        mark_expr(mark_exprs(m, es.drop_last()), es.last())
    }
}

/// The marks after entering each parameter as not yet used.
pub open spec fn mark_params(m: Map<Seq<char>, bool>, ps: Seq<(Token, Option<String>)>) -> Map<
    Seq<char>,
    bool,
>
    decreases ps.len(),
{
    if ps.len() == 0 {
        m
    } else {
        mark_params(m, ps.drop_last()).insert(ps.last().0.lexeme@, false)
    }
}

/// The marks after scanning a statement. A declaration enters its name as not yet used,
/// after its initializer is scanned; a function's name counts as used.
pub open spec fn mark_stmt(m: Map<Seq<char>, bool>, s: Statement) -> Map<Seq<char>, bool>
    decreases s, 0int,
{
    match s {
        Statement::VariableDeclaration { name, initializer, .. } => match initializer {
            Some(e) => mark_expr(m, e).insert(name.lexeme@, false),
            None => m.insert(name.lexeme@, false),
        },
        Statement::Expression(e) => mark_expr(m, e),
        Statement::If { condition, then_branch, else_branch } => match else_branch {
            Some(b) => mark_stmts(mark_stmts(mark_expr(m, condition), then_branch@), b@),
            None => mark_stmts(mark_expr(m, condition), then_branch@),
        },
        Statement::While { condition, body } => mark_stmts(mark_expr(m, condition), body@),
        Statement::FunctionDeclaration { name, parameters, body, .. } => mark_stmts(
            mark_params(m.insert(name.lexeme@, true), parameters@),
            body@,
        ),
        Statement::Return { value } => match value {
            Some(e) => mark_expr(m, e),
            None => m,
        },
        _ => m,
    }
}

/// The marks after scanning statements in order.
pub open spec fn mark_stmts(m: Map<Seq<char>, bool>, ss: Seq<Statement>) -> Map<Seq<char>, bool>
    decreases ss, 0int,
{
    if ss.len() == 0 {
        m
    } else {
        mark_stmt(mark_stmts(m, ss.drop_last()), ss.last())
    }
}

/// A statement is dead when it declares a variable whose mark says it is not used.
pub open spec fn is_dead(m: Map<Seq<char>, bool>, s: Statement) -> bool {
    match s {
        Statement::VariableDeclaration { name, .. } => m.contains_key(name.lexeme@) && !m[name.lexeme@],
        _ => false,
    }
}

/// The statements that are not dead, in order.
pub open spec fn live_view(m: Map<Seq<char>, bool>, ss: Seq<Statement>) -> Seq<StmtSpec>
    decreases ss.len(),
{
    if ss.len() == 0 {
        Seq::empty()
    } else if is_dead(m, ss.last()) {
        live_view(m, ss.drop_last())
    } else {
        live_view(m, ss.drop_last()).push(stmt_view(ss.last()))
    }
}

/// Whether a statement declares a variable.
pub open spec fn is_declaration(s: Statement) -> bool {
    s is VariableDeclaration
}

/// Dead code elimination removes only variable declarations: statements that
/// declare no variable are all kept, in order.
pub proof fn law_only_declarations_removed(m: Map<Seq<char>, bool>, ss: Seq<Statement>)
    requires
        forall|i: int| 0 <= i < ss.len() ==> !is_declaration(#[trigger] ss[i]),
    ensures
        live_view(m, ss) == stmts_view(ss),
    decreases ss.len(),
{
    if ss.len() > 0 {
        assert forall|i: int| 0 <= i < ss.drop_last().len() implies !is_declaration(#[trigger] ss.drop_last()[i]) by {
            assert(ss.drop_last()[i] == ss[i]);
        }
        law_only_declarations_removed(m, ss.drop_last());
        assert(!is_declaration(ss[ss.len() - 1]));
    }
}

/// A declaration of a variable marked used is kept.
pub proof fn law_used_declarations_kept(m: Map<Seq<char>, bool>, s: Statement)
    requires
        s matches Statement::VariableDeclaration { name, .. } && m.contains_key(name.lexeme@) && m[name.lexeme@],
    ensures
        !is_dead(m, s),
{
}

/// Entries after position `i` that name something else do not change its mark.
proof fn lemma_marks_suffix(log: Seq<(String, bool)>, i: int, name: Seq<char>)
    requires
        0 <= i <= log.len(),
        forall|j: int| i <= j < log.len() ==> #[trigger] log[j].0@ != name,
    ensures
        marks_of(log).contains_key(name) == marks_of(log.take(i)).contains_key(name),
        marks_of(log)[name] == marks_of(log.take(i))[name],
    decreases log.len() - i,
{
    if i < log.len() {
        lemma_marks_suffix(log, i + 1, name);
        let t = log.take(i + 1);
        assert(t.drop_last() =~= log.take(i));
        assert(t.last() == log[i]);
        assert(log[i].0@ != name);
        assert(marks_of(t) == marks_of(t.drop_last()).insert(t.last().0@, t.last().1));
        assert(marks_of(t).contains_key(name) == marks_of(log.take(i)).contains_key(name));
        assert(marks_of(t)[name] == marks_of(log.take(i))[name]);
    } else {
        assert(log.take(i) =~= log);
    }
}

/// Dead code elimination: drops declarations of variables that are never used.
pub struct DeadCodeEliminator {
    used_variables: Vec<(String, bool)>,
}

impl View for DeadCodeEliminator {
    type V = Map<Seq<char>, bool>;

    /// Whether each name seen so far is used.
    closed spec fn view(&self) -> Map<Seq<char>, bool> {
        marks_of(self.used_variables@)
    }
}

impl DeadCodeEliminator {
    pub fn new() -> (r: DeadCodeEliminator)
        ensures
            r@ == Map::<Seq<char>, bool>::empty(),
    {
        DeadCodeEliminator { used_variables: Vec::new() }
    }

    fn mark(&mut self, name: &String, used: bool)
        ensures
            final(self)@ == old(self)@.insert(name@, used),
    {
        let ghost before = self.used_variables@;
        self.used_variables.push((name.clone(), used));
        assert(self.used_variables@.drop_last() =~= before);
    }

    fn lookup(&self, name: &str) -> (r: Option<bool>)
        ensures
            r == (if self@.contains_key(name@) {
                Some(self@[name@])
            } else {
                None::<bool>
            }),
    {
        let ghost log = self.used_variables@;
        let mut i = self.used_variables.len();
        while i > 0
            invariant
                i <= log.len(),
                log == self.used_variables@,
                forall|j: int| i <= j < log.len() ==> #[trigger] log[j].0@ != name@,
            decreases i,
        {
            if str_eq(self.used_variables[i - 1].0.as_str(), name) {
                proof {
                    lemma_marks_suffix(log, i as int, name@);
                    assert(log.take(i as int).drop_last() =~= log.take(i - 1));
                }
                return Some(self.used_variables[i - 1].1);
            }
            i = i - 1;
        }
        proof {
            lemma_marks_suffix(log, 0, name@);
            assert(log.take(0) =~= Seq::<(String, bool)>::empty());
        }
        None
    }

    /// Removes the declarations of variables that no statement uses, after marking
    /// the names that the statements declare and use.
    pub fn eliminate_dead_code(&mut self, statements: &[Statement]) -> (r: Vec<Statement>)
        ensures
            final(self)@ == mark_stmts(old(self)@, statements@),
            stmts_view(r@) == live_view(final(self)@, statements@),
    {
        let mut i: usize = 0;
        while i < statements.len()
            invariant
                i <= statements@.len(),
                self@ == mark_stmts(old(self)@, statements@.take(i as int)),
            decreases statements@.len() - i,
        {
            assert(statements@.take(i + 1).drop_last() =~= statements@.take(i as int));
            self.find_used_variables_in_statement(&statements[i]);
            i = i + 1;
        }
        assert(statements@.take(i as int) =~= statements@);
        let mut out: Vec<Statement> = Vec::new();
        let mut k: usize = 0;
        while k < statements.len()
            invariant
                k <= statements@.len(),
                self@ == mark_stmts(old(self)@, statements@),
                stmts_view(out@) == live_view(self@, statements@.take(k as int)),
            decreases statements@.len() - k,
        {
            assert(statements@.take(k + 1).drop_last() =~= statements@.take(k as int));
            if !self.is_unused_variable_declaration(&statements[k]) {
                let d = statements[k].duplicate();
                let ghost before = out@;
                out.push(d);
                assert(out@.drop_last() =~= before);
            }
            k = k + 1;
        }
        assert(statements@.take(k as int) =~= statements@);
        out
    }

    fn find_used_variables(&mut self, statements: &Vec<Statement>)
        ensures
            final(self)@ == mark_stmts(old(self)@, statements@),
        decreases statements@, 0int,
    {
        let mut i: usize = 0;
        while i < statements.len()
            invariant
                i <= statements@.len(),
                self@ == mark_stmts(old(self)@, statements@.take(i as int)),
            decreases statements@.len() - i,
        {
            assert(statements@.take(i + 1).drop_last() =~= statements@.take(i as int));
            self.find_used_variables_in_statement(&statements[i]);
            i = i + 1;
        }
        assert(statements@.take(i as int) =~= statements@);
    }

    fn find_used_variables_in_statement(&mut self, stmt: &Statement)
        ensures
            final(self)@ == mark_stmt(old(self)@, *stmt),
        decreases stmt, 0int,
    {
        match stmt {
            Statement::VariableDeclaration { name, initializer, .. } => {
                if let Some(expr) = initializer {
                    self.find_used_variables_in_expression(expr);
                }
                self.mark(&name.lexeme, false);
            },
            Statement::Expression(expr) => {
                self.find_used_variables_in_expression(expr);
            },
            Statement::If { condition, then_branch, else_branch } => {
                self.find_used_variables_in_expression(condition);
                self.find_used_variables(then_branch);
                if let Some(else_branch) = else_branch {
                    self.find_used_variables(else_branch);
                }
            },
            Statement::While { condition, body } => {
                self.find_used_variables_in_expression(condition);
                self.find_used_variables(body);
            },
            Statement::FunctionDeclaration { name, parameters, body, .. } => {
                self.mark(&name.lexeme, true);
                let ghost m0 = self@;
                let mut i: usize = 0;
                while i < parameters.len()
                    invariant
                        i <= parameters@.len(),
                        self@ == mark_params(m0, parameters@.take(i as int)),
                    decreases parameters@.len() - i,
                {
                    assert(parameters@.take(i + 1).drop_last() =~= parameters@.take(i as int));
                    self.mark(&parameters[i].0.lexeme, false);
                    i = i + 1;
                }
                assert(parameters@.take(i as int) =~= parameters@);
                self.find_used_variables(body);
            },
            Statement::Return { value } => {
                if let Some(expr) = value {
                    self.find_used_variables_in_expression(expr);
                }
            },
            _ => {},
        }
    }

    fn find_used_variables_in_expressions(&mut self, exprs: &Vec<Expression>)
        ensures
            final(self)@ == mark_exprs(old(self)@, exprs@),
        decreases exprs@, 0int,
    {
        let mut i: usize = 0;
        while i < exprs.len()
            invariant
                i <= exprs@.len(),
                self@ == mark_exprs(old(self)@, exprs@.take(i as int)),
            decreases exprs@.len() - i,
        {
            assert(exprs@.take(i + 1).drop_last() =~= exprs@.take(i as int));
            self.find_used_variables_in_expression(&exprs[i]);
            i = i + 1;
        }
        assert(exprs@.take(i as int) =~= exprs@);
    }

    fn find_used_variables_in_expression(&mut self, expr: &Expression)
        ensures
            final(self)@ == mark_expr(old(self)@, *expr),
        decreases expr, 0int,
    {
        match expr {
            Expression::Identifier(token) => {
                self.mark(&token.lexeme, true);
            },
            Expression::Binary { left, right, .. } => {
                self.find_used_variables_in_expression(left);
                self.find_used_variables_in_expression(right);
            },
            Expression::Unary { right, .. } => {
                self.find_used_variables_in_expression(right);
            },
            Expression::Call { callee, arguments } => {
                self.find_used_variables_in_expression(callee);
                self.find_used_variables_in_expressions(arguments);
            },
            Expression::Assignment { name, value } => {
                self.mark(&name.lexeme, true);
                self.find_used_variables_in_expression(value);
            },
            _ => {},
        }
    }

    fn is_unused_variable_declaration(&self, stmt: &Statement) -> (r: bool)
        ensures
            r == is_dead(self@, *stmt),
    {
        if let Statement::VariableDeclaration { name, .. } = stmt {
            match self.lookup(name.lexeme.as_str()) {
                Some(used) => !used,
                None => false,
            }
        } else {
            false
        }
    }
}

/// The optimizer: constant folding, dead code elimination, string interning and a
/// pool of values.
pub struct PerformanceOptimizer {
    constant_folder: ConstantFolder,
    dead_code_eliminator: DeadCodeEliminator,
    string_interner: StringInterner,
    value_pool: MemoryPool<Value>,
}

impl PerformanceOptimizer {
    /// Well-formedness of the interner and the pool.
    pub closed spec fn wf(&self) -> bool {
        self.string_interner.wf() && self.value_pool.wf()
    }

    /// The interned strings, in order of their ids.
    pub closed spec fn interned(&self) -> Seq<Seq<char>> {
        self.string_interner.view()
    }

    /// The pooled values in their slots.
    pub closed spec fn pooled(&self) -> Seq<Value> {
        self.value_pool.objects_view()
    }

    /// The freed slots of the pool.
    pub closed spec fn freed(&self) -> Seq<usize> {
        self.value_pool.free_view()
    }

    /// The marks that dead code elimination has gathered.
    pub closed spec fn marks(&self) -> Map<Seq<char>, bool> {
        self.dead_code_eliminator@
    }

    pub fn new() -> (r: PerformanceOptimizer)
        ensures
            r.wf(),
            r.interned().len() == 0,
            r.pooled().len() == 0,
            r.freed().len() == 0,
            r.marks() == Map::<Seq<char>, bool>::empty(),
    {
        PerformanceOptimizer {
            constant_folder: ConstantFolder::new(),
            dead_code_eliminator: DeadCodeEliminator::new(),
            string_interner: StringInterner::new(),
            value_pool: MemoryPool::new(),
        }
    }

    /// The dead code pass of the optimizer, with the marks it has gathered so far.
    pub fn eliminate_dead_code(&mut self, statements: &[Statement]) -> (r: Vec<Statement>)
        ensures
            final(self).marks() == mark_stmts(old(self).marks(), statements@),
            stmts_view(r@) == live_view(final(self).marks(), statements@),
            final(self).interned() == old(self).interned(),
            final(self).pooled() == old(self).pooled(),
            final(self).freed() == old(self).freed(),
            final(self).wf() == old(self).wf(),
    {
        self.dead_code_eliminator.eliminate_dead_code(statements)
    }

    pub fn intern_string(&mut self, s: String) -> (id: StringId)
        requires
            old(self).wf(),
        ensures
            final(self).wf(),
            old(self).interned().contains(s@) ==> final(self).interned() == old(self).interned(),
            !old(self).interned().contains(s@) ==> final(self).interned() == old(
                self,
            ).interned().push(s@) && id.0 == old(self).interned().len(),
            id.0 < final(self).interned().len(),
            final(self).interned()[id.0 as int] == s@,
            final(self).pooled() == old(self).pooled(),
            final(self).freed() == old(self).freed(),
            final(self).marks() == old(self).marks(),
    {
        self.string_interner.intern(s)
    }

    pub fn get_interned_string(&self, id: StringId) -> (r: Option<&str>)
        ensures
            id.0 < self.interned().len() ==> (r matches Some(t) && t@ == self.interned()[id.0 as int]),
            id.0 >= self.interned().len() ==> r is None,
    {
        self.string_interner.get(id)
    }

    pub fn allocate_value(&mut self, value: Value) -> (index: usize)
        requires
            old(self).wf(),
        ensures
            final(self).wf(),
            old(self).freed().len() > 0 ==> index == old(self).freed().last() && final(self).freed()
                == old(self).freed().drop_last() && final(self).pooled() == old(
                self,
            ).pooled().update(index as int, value),
            old(self).freed().len() == 0 ==> index == old(self).pooled().len() && final(self).freed()
                == old(self).freed() && final(self).pooled() == old(self).pooled().push(value),
            final(self).interned() == old(self).interned(),
            final(self).marks() == old(self).marks(),
    {
        self.value_pool.allocate(value)
    }

    pub fn deallocate_value(&mut self, index: usize)
        requires
            old(self).wf(),
        ensures
            final(self).wf(),
            index < old(self).pooled().len() ==> final(self).freed() == old(self).freed().push(index),
            index >= old(self).pooled().len() ==> final(self).freed() == old(self).freed(),
            final(self).pooled() == old(self).pooled(),
            final(self).interned() == old(self).interned(),
            final(self).marks() == old(self).marks(),
    {
        self.value_pool.deallocate(index);
    }

    pub fn get_value(&self, index: usize) -> (r: Option<&Value>)
        ensures
            index < self.pooled().len() ==> r == Some(&self.pooled()[index as int]),
            index >= self.pooled().len() ==> r is None,
    {
        self.value_pool.get(index)
    }

    pub fn get_stats(&self) -> (r: OptimizationStats)
        ensures
            r.interned_strings == self.interned().len(),
            r.pooled_values == self.pooled().len(),
            r.free_values == self.freed().len(),
    {
        OptimizationStats {
            interned_strings: self.string_interner.len(),
            pooled_values: self.value_pool.pooled_count(),
            free_values: self.value_pool.free_count(),
        }
    }
}

} // verus!
