//! From source text to a program, to lint findings and to bytecode; and where a
//! `use` statement looks for its module.

use vstd::prelude::*;
use crate::ast::{Statement, StmtSpec, Program, stmts_view};
use crate::bytecode::{Chunk, ChunkSpec};
use crate::compiler::{Compiler, CompileError, Fail, CState, compile_program, fresh, zero_lines, fail_view};
use crate::lexer::{Lexer, lex};
use crate::linter::{Linter, LintError, LintErrorSpec, lint_spec, stmt_weight, stmts_weight, lemma_weight_prefix};
use crate::parser::{Parser, parse_spec};
use crate::text::{append_str, contains_char, owned, starts_with, substring, starts_with_spec};
use crate::token::Token;

verus! {

/// The statements of a source text, or the first error in lexing or parsing it.
pub open spec fn parse_source(src: Seq<char>) -> Result<Seq<StmtSpec>, Seq<char>> {
    match lex(src) {
        Err(m) => Err(m),
        Ok(toks) => parse_spec(toks),
    }
}

/// Lexes and parses a source text.
pub fn parse_program(source: &str) -> (r: Result<Program, String>)
    requires
        source@.len() <= usize::MAX / 8,
    ensures
        match r {
            Ok(p) => parse_source(source@) == Ok::<Seq<StmtSpec>, Seq<char>>(stmts_view(p.statements@)),
            Err(m) => parse_source(source@) == Err::<Seq<StmtSpec>, Seq<char>>(m@),
        },
{
    let mut lexer = Lexer::new(owned(source));
    let tokens = match lexer.tokenize() {
        Ok(t) => t,
        Err(m) => {
            return Err(m);
        },
    };
    let mut parser = Parser::new(tokens);
    parser.parse()
}

/// The message for a program nested deeper than a `usize` counts.
pub open spec fn too_deep_msg() -> Seq<char> {
    "Program nested too deeply"@
}

/// How far a statement can deepen scopes, if that fits in a `usize`.
pub fn statement_weight(s: &Statement) -> (r: Option<usize>)
    ensures
        match r {
            Some(w) => w == stmt_weight(*s),
            None => stmt_weight(*s) > usize::MAX,
        },
    decreases s, 0int,
{
    let inner: Option<usize> = match s {
        Statement::FunctionDeclaration { body, .. } => statements_weight(body),
        Statement::If { then_branch, else_branch, .. } => {
            match statements_weight(then_branch) {
                None => None,
                Some(a) => match else_branch {
                    None => Some(a),
                    Some(b) => match statements_weight(b) {
                        None => None,
                        Some(c) => a.checked_add(c),
                    },
                },
            }
        },
        Statement::While { body, .. } => statements_weight(body),
        Statement::For { body, .. } => statements_weight(body),
        Statement::Block(b) => statements_weight(b),
        Statement::ClassDeclaration { methods, .. } => statements_weight(methods),
        Statement::Try { try_block, catch_block } => {
            match statements_weight(try_block) {
                None => None,
                Some(a) => match statements_weight(catch_block) {
                    None => None,
                    Some(c) => a.checked_add(c),
                },
            }
        },
        _ => Some(0),
    };
    match inner {
        None => None,
        Some(w) => w.checked_add(1),
    }
}

/// How far statements in order can deepen scopes, if that fits in a `usize`.
pub fn statements_weight(ss: &Vec<Statement>) -> (r: Option<usize>)
    ensures
        match r {
            Some(w) => w == stmts_weight(ss@),
            None => stmts_weight(ss@) > usize::MAX,
        },
    decreases ss@, 0int,
{
    let mut total: usize = 0;
    let mut i: usize = 0;
    while i < ss.len()
        invariant
            i <= ss@.len(),
            total == stmts_weight(ss@.take(i as int)),
        decreases ss@.len() - i,
    {
        assert(ss@.take(i + 1).drop_last() =~= ss@.take(i as int));
        proof {
            lemma_weight_prefix(ss@, i + 1);
        }
        match statement_weight(&ss[i]) {
            None => {
                return None;
            },
            Some(w) => match total.checked_add(w) {
                None => {
                    return None;
                },
                Some(t) => {
                    total = t;
                },
            },
        }
        i = i + 1;
    }
    assert(ss@.take(i as int) =~= ss@);
    Some(total)
}

/// What linting a parsed program gives: its findings, or the message for a
/// program nested too deeply to count.
pub open spec fn lint_outcome(p: Program, r: Result<Vec<LintError>, String>) -> bool {
    match r {
        Ok(errs) => stmts_weight(p.statements@) <= usize::MAX && errs@.map_values(|e: LintError| e@)
            == lint_spec(p),
        Err(m) => stmts_weight(p.statements@) > usize::MAX && m@ == too_deep_msg(),
    }
}

/// Lexes, parses and lints a source text.
pub fn lint_source(source: &str) -> (r: Result<Vec<LintError>, String>)
    requires
        source@.len() <= usize::MAX / 8,
    ensures
        match parse_source(source@) {
            Err(m) => r matches Err(e) && e@ == m,
            Ok(ss) => exists|p: Program| stmts_view(p.statements@) == ss && lint_outcome(p, r),
        },
{
    let program = match parse_program(source) {
        Ok(p) => p,
        Err(m) => {
            return Err(m);
        },
    };
    if statements_weight(&program.statements).is_none() {
        let r = Err(owned("Program nested too deeply"));
        proof {
            reveal_strlit("Program nested too deeply");
            assert(lint_outcome(program, r));
        }
        return r;
    }
    let mut linter = Linter::new();
    let r = Ok(linter.lint(&program));
    assert(lint_outcome(program, r));
    r
}

/// What compiling a program gives: its chunk, the error or fault, or a message for
/// a program nested too deeply to count.
pub open spec fn compile_outcome(p: Program, r: Result<Chunk, CompileError>) -> bool {
    if stmts_weight(p.statements@) > usize::MAX {
        r matches Err(CompileError::Message(m)) && m@ == too_deep_msg()
    } else {
        match r {
            Ok(c) => exists|cs: CState| compile_program(fresh(), p.statements@) == Ok::<CState, Fail>(cs)
                && c.view_chunk() == (ChunkSpec {
                code: cs.code,
                constants: cs.constants,
                lines: zero_lines(cs.code.len()),
            }),
            Err(e) => compile_program(fresh(), p.statements@) == Err::<CState, Fail>(fail_view(e)),
        }
    }
}

/// Compiles a program with a new compiler into a chunk of its own.
pub fn compile_to_chunk(program: &Program) -> (r: Result<Chunk, CompileError>)
    ensures
        compile_outcome(*program, r),
{
    if statements_weight(&program.statements).is_none() {
        let r = Err(CompileError::Message(owned("Program nested too deeply")));
        proof {
            reveal_strlit("Program nested too deeply");
        }
        return r;
    }
    let mut compiler = Compiler::new();
    match compiler.try_compile(program) {
        Ok(_) => {},
        Err(e) => {
            return Err(e);
        },
    }
    let ghost cs = compiler.cstate();
    let c = compiler.into_chunk();
    assert(compile_outcome(*program, Ok::<Chunk, CompileError>(c)));
    Ok(c)
}

/// The module and alias of each top-level `use` statement, in order.
pub open spec fn uses_of(ss: Seq<Statement>) -> Seq<(Seq<char>, Option<Seq<char>>)>
    decreases ss.len(),
{
    if ss.len() == 0 {
        Seq::empty()
    } else {
        match ss.last() {
            Statement::Use { module, alias } => uses_of(ss.drop_last()).push(
                (
                    module@,
                    match alias {
                        Some(a) => Some(a@),
                        None => None,
                    },
                ),
            ),
            _ => uses_of(ss.drop_last()),
        }
    }
}

pub open spec fn uses_view(v: Seq<(String, Option<String>)>) -> Seq<(Seq<char>, Option<Seq<char>>)> {
    v.map_values(
        |u: (String, Option<String>)|
            (
                u.0@,
                match u.1 {
                    Some(a) => Some(a@),
                    None => None,
                },
            ),
    )
}

/// The modules that a program's top-level `use` statements load, in order.
pub fn use_statements(program: &Program) -> (r: Vec<(String, Option<String>)>)
    ensures
        uses_view(r@) == uses_of(program.statements@),
{
    let ss = &program.statements;
    let mut out: Vec<(String, Option<String>)> = Vec::new();
    let mut i: usize = 0;
    while i < ss.len()
        invariant
            i <= ss@.len(),
            ss == &program.statements,
            uses_view(out@) == uses_of(ss@.take(i as int)),
        decreases ss@.len() - i,
    {
        assert(ss@.take(i + 1).drop_last() =~= ss@.take(i as int));
        if let Statement::Use { module, alias } = &ss[i] {
            let a = match alias {
                Some(x) => Some(x.clone()),
                None => None,
            };
            let ghost before = out@;
            out.push((module.clone(), a));
            assert(uses_view(out@) =~= uses_view(before).push(uses_view(out@).last()));
        }
        i = i + 1;
    }
    assert(ss@.take(i as int) =~= ss@);
    out
}

/// The name under which a module's globals are kept: its alias, or its own name.
pub fn module_key(module_name: &str, alias: Option<&String>) -> (r: String)
    ensures
        r@ == match alias {
            Some(a) => a@,
            None => module_name@,
        },
{
    match alias {
        Some(a) => a.clone(),
        None => owned(module_name),
    }
}

/// Where a relative module name points, with its leading `./`, `../` or `.` taken
/// off (a `../` is kept as the start of the path).
pub open spec fn relative_path(name: Seq<char>) -> Seq<char> {
    if starts_with_spec(name, "./"@) {
        name.subrange(2, name.len() as int)
    } else if starts_with_spec(name, "../"@) {
        "../"@ + name.subrange(3, name.len() as int)
    } else {
        name.subrange(1, name.len() as int)
    }
}

/// The files a `use` of `name` tries, in order: a relative name's own file first,
/// then `name.grease`, `modules/name.grease` and, for a name without a path
/// separator, `std/name.grease`.
pub open spec fn search_paths(name: Seq<char>) -> Seq<Seq<char>> {
    let file = name + ".grease"@;
    let base = seq![file, "modules/"@ + file];
    let with_std = if !name.contains('/') && !name.contains('\\') {
        base.push("std/"@ + name + ".grease"@)
    } else {
        base
    };
    if starts_with_spec(name, "."@) {
        seq![relative_path(name) + ".grease"@] + with_std
    } else {
        with_std
    }
}

/// The files that a `use` of the module tries, in order.
pub fn module_search_paths(module_name: &str) -> (r: Vec<String>)
    ensures
        r@.map_values(|p: String| p@) == search_paths(module_name@),
{
    proof {
        reveal_strlit("./");
        reveal_strlit("../");
        reveal_strlit(".");
    }
    let mut file = owned(module_name);
    append_str(&mut file, ".grease");
    let mut in_modules = owned("modules/");
    append_str(&mut in_modules, file.as_str());
    let mut paths: Vec<String> = Vec::new();
    if starts_with(module_name, ".") {
        let n = module_name.unicode_len();
        let mut rel = if starts_with(module_name, "./") {
            substring(module_name, 2, n)
        } else if starts_with(module_name, "../") {
            let mut up = owned("../");
            append_str(&mut up, substring(module_name, 3, n).as_str());
            up
        } else {
            substring(module_name, 1, n)
        };
        append_str(&mut rel, ".grease");
        paths.push(rel);
    }
    let ghost first = paths@;
    paths.push(file);
    paths.push(in_modules);
    if !contains_char(module_name, '/') && !contains_char(module_name, '\\') {
        let mut in_std = owned("std/");
        append_str(&mut in_std, module_name);
        append_str(&mut in_std, ".grease");
        paths.push(in_std);
    }
    assert(paths@.map_values(|p: String| p@) =~= search_paths(module_name@));
    paths
}

} // verus!
