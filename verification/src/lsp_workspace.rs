//! The editor's view of Grease documents: their text and syntax tree, the symbols
//! they declare, definitions by name and completions.
//!
//! Positions, ranges and locations are those of the language server protocol,
//! held as plain values; a document is named by its URI as text.

use vstd::prelude::*;
use crate::ast::{Statement, Program, StmtSpec, opt_text, stmts_view, duplicate_stmts};
use crate::grease::parse_source;
use crate::lexer::{Lexer, lex};
use crate::parser::{Parser, parse_spec};
use crate::text::{owned, append_str, str_eq, usize_to_string, decimal, split_on, split_char, push_char,
    is_alpha_numeric, char_is_alphanumeric, substring};
use crate::token::{Token, TokenType};

verus! {

/// A position in a document: a line and a character, both from zero.
#[derive(Debug, Clone, Copy, PartialEq, Eq, Structural)]
pub struct Position {
    pub line: u32,
    pub character: u32,
}

/// A range between two positions.
#[derive(Debug, Clone, Copy, PartialEq, Eq, Structural)]
pub struct Range {
    pub start: Position,
    pub end: Position,
}

/// A range in a document.
#[derive(Debug)]
pub struct Location {
    pub uri: String,
    pub range: Range,
}

/// What a symbol is.
#[derive(Debug, Clone, Copy, PartialEq, Eq, Structural)]
pub enum SymbolKind {
    Variable,
    Function,
    Class,
    Method,
}

/// A symbol declared in a document; a class holds its methods as children.
#[derive(Debug)]
pub struct Symbol {
    pub name: String,
    pub kind: SymbolKind,
    pub location: Location,
    pub container_name: Option<String>,
    pub range: Option<Range>,
    pub selection_range: Option<Range>,
    pub children: Vec<Symbol>,
}

/// A symbol as a mathematical value.
pub struct SymbolSpec {
    pub name: Seq<char>,
    pub kind: SymbolKind,
    pub uri: Seq<char>,
    pub at: Range,
    pub container: Option<Seq<char>>,
    pub range: Option<Range>,
    pub selection: Option<Range>,
    pub children: Seq<SymbolSpec>,
}

pub open spec fn symbol_view(s: Symbol) -> SymbolSpec
    decreases s, 0int,
{
    SymbolSpec {
        name: s.name@,
        kind: s.kind,
        uri: s.location.uri@,
        at: s.location.range,
        container: opt_text(s.container_name),
        range: s.range,
        selection: s.selection_range,
        children: symbols_view(s.children@),
    }
}

pub open spec fn symbols_view(ss: Seq<Symbol>) -> Seq<SymbolSpec>
    decreases ss, 0int,
{
    if ss.len() == 0 {
        Seq::empty()
    } else {
        symbols_view(ss.drop_last()).push(symbol_view(ss.last()))
    }
}

/// The line of a token, from zero. Token lines count from one; a token on line
/// zero, which the lexer never makes, wraps around to the last line.
pub open spec fn line_index(line: usize) -> u32 {
    if line == 0 {
        u32::MAX
    } else {
        (line - 1) as u32
    }
}

/// The range given to a symbol named by a token on `line`: the first hundred
/// characters of its line.
pub open spec fn line_range(line: usize) -> Range {
    Range {
        start: Position { line: line_index(line), character: 0 },
        end: Position { line: line_index(line), character: 100 },
    }
}

/// The symbol for a name token.
pub open spec fn make_symbol(
    t: Token,
    kind: SymbolKind,
    uri: Seq<char>,
    container: Option<Seq<char>>,
    children: Seq<SymbolSpec>,
) -> SymbolSpec {
    SymbolSpec {
        name: t.lexeme@,
        kind,
        uri,
        at: line_range(t.line),
        container,
        range: Some(line_range(t.line)),
        selection: Some(line_range(t.line)),
        children,
    }
}

pub open spec fn is_ident(t: Token) -> bool {
    t.token_type == TokenType::Identifier
}

/// The symbols of a function's parameters.
pub open spec fn param_symbols(uri: Seq<char>, ps: Seq<(Token, Option<String>)>, func: Seq<char>) -> Seq<
    SymbolSpec,
>
    decreases ps.len(),
{
    if ps.len() == 0 {
        Seq::empty()
    } else if is_ident(ps.last().0) {
        param_symbols(uri, ps.drop_last(), func).push(
            make_symbol(ps.last().0, SymbolKind::Variable, uri, Some(func), Seq::empty()),
        )
    } else {
        param_symbols(uri, ps.drop_last(), func)
    }
}

/// The symbols of a class's methods.
pub open spec fn method_symbols(uri: Seq<char>, ms: Seq<Statement>, class: Seq<char>) -> Seq<SymbolSpec>
    decreases ms.len(),
{
    if ms.len() == 0 {
        Seq::empty()
    } else {
        match ms.last() {
            Statement::FunctionDeclaration { name, .. } => if is_ident(name) {
                method_symbols(uri, ms.drop_last(), class).push(
                    make_symbol(name, SymbolKind::Method, uri, Some(class), Seq::empty()),
                )
            } else {
                method_symbols(uri, ms.drop_last(), class)
            },
            _ => method_symbols(uri, ms.drop_last(), class),
        }
    }
}

/// The symbols a statement declares, in order, inside `container`.
pub open spec fn stmt_symbols(uri: Seq<char>, s: Statement, container: Option<Seq<char>>) -> Seq<
    SymbolSpec,
>
    decreases s, 0int,
{
    match s {
        Statement::VariableDeclaration { name, .. } => if is_ident(name) {
            seq![make_symbol(name, SymbolKind::Variable, uri, container, Seq::empty())]
        } else {
            Seq::empty()
        },
        Statement::FunctionDeclaration { name, parameters, body, .. } => if is_ident(name) {
            seq![make_symbol(name, SymbolKind::Function, uri, container, Seq::empty())] + param_symbols(
                uri,
                parameters@,
                name.lexeme@,
            ) + stmts_symbols(uri, body@, Some(name.lexeme@))
        } else {
            Seq::empty()
        },
        Statement::Block(b) => stmts_symbols(uri, b@, container),
        Statement::If { then_branch, else_branch, .. } => match else_branch {
            Some(b) => stmts_symbols(uri, then_branch@, container) + stmts_symbols(uri, b@, container),
            None => stmts_symbols(uri, then_branch@, container),
        },
        Statement::While { body, .. } => stmts_symbols(uri, body@, container),
        Statement::For { body, .. } => stmts_symbols(uri, body@, container),
        Statement::ClassDeclaration { name, methods, .. } => if is_ident(name) {
            seq![
                make_symbol(
                    name,
                    SymbolKind::Class,
                    uri,
                    container,
                    method_symbols(uri, methods@, name.lexeme@),
                ),
            ]
        } else {
            Seq::empty()
        },
        _ => Seq::empty(),
    }
}

/// The symbols statements declare, in order, inside `container`.
pub open spec fn stmts_symbols(uri: Seq<char>, ss: Seq<Statement>, container: Option<Seq<char>>) -> Seq<
    SymbolSpec,
>
    decreases ss, 0int,
{
    if ss.len() == 0 {
        Seq::empty()
    } else {
        stmts_symbols(uri, ss.drop_last(), container) + stmt_symbols(uri, ss.last(), container)
    }
}

fn token_range(token: &Token) -> (r: Range)
    ensures
        r == line_range(token.line),
{
    let l: u32 = if token.line == 0 {
        u32::MAX
    } else {
        #[verifier::truncate]
        let l = (token.line - 1) as u32;
        l
    };
    Range { start: Position { line: l, character: 0 }, end: Position { line: l, character: 100 } }
}

fn copy_opt_string(o: &Option<String>) -> (r: Option<String>)
    ensures
        opt_text(r) == opt_text(*o),
{
    match o {
        Some(s) => Some(s.clone()),
        None => None,
    }
}

fn new_symbol(
    t: &Token,
    kind: SymbolKind,
    uri: &str,
    container: Option<String>,
    children: Vec<Symbol>,
) -> (r: Symbol)
    ensures
        symbol_view(r) == make_symbol(*t, kind, uri@, opt_text(container), symbols_view(children@)),
{
    let range = token_range(t);
    Symbol {
        name: t.lexeme.clone(),
        kind,
        location: Location { uri: owned(uri), range },
        container_name: container,
        range: Some(range),
        selection_range: Some(range),
        children,
    }
}

fn leaf_symbol(t: &Token, kind: SymbolKind, uri: &str, container: Option<String>) -> (r: Symbol)
    ensures
        symbol_view(r) == make_symbol(*t, kind, uri@, opt_text(container), Seq::empty()),
{
    let children: Vec<Symbol> = Vec::new();
    assert(symbols_view(children@) =~= Seq::empty());
    new_symbol(t, kind, uri, container, children)
}

fn push_symbol(symbols: &mut Vec<Symbol>, s: Symbol)
    ensures
        symbols_view(final(symbols)@) == symbols_view(old(symbols)@).push(symbol_view(s)),
{
    let ghost before = symbols@;
    symbols.push(s);
    assert(symbols@.drop_last() =~= before);
}

/// Adds the symbols of a list of statements, in order.
fn extract_symbols_from_statements(
    ss: &Vec<Statement>,
    uri: &str,
    symbols: &mut Vec<Symbol>,
    container: &Option<String>,
)
    ensures
        symbols_view(final(symbols)@) == symbols_view(old(symbols)@) + stmts_symbols(
            uri@,
            ss@,
            opt_text(*container),
        ),
    decreases ss@, 0int,
{
    let mut i: usize = 0;
    while i < ss.len()
        invariant
            i <= ss@.len(),
            symbols_view(symbols@) == symbols_view(old(symbols)@) + stmts_symbols(
                uri@,
                ss@.take(i as int),
                opt_text(*container),
            ),
        decreases ss@.len() - i,
    {
        assert(ss@.take(i + 1).drop_last() =~= ss@.take(i as int));
        let ghost before = symbols_view(symbols@);
        extract_symbols_from_statement(&ss[i], uri, symbols, copy_opt_string(container));
        assert(symbols_view(symbols@) =~= symbols_view(old(symbols)@) + stmts_symbols(
            uri@,
            ss@.take(i + 1),
            opt_text(*container),
        ));
        i = i + 1;
    }
    assert(ss@.take(i as int) =~= ss@);
}

/// Adds the symbols a statement declares, in order, inside `container`.
fn extract_symbols_from_statement(
    stmt: &Statement,
    uri: &str,
    symbols: &mut Vec<Symbol>,
    container: Option<String>,
)
    ensures
        symbols_view(final(symbols)@) == symbols_view(old(symbols)@) + stmt_symbols(
            uri@,
            *stmt,
            opt_text(container),
        ),
    decreases stmt, 0int,
{
    let ghost c = opt_text(container);
    let ghost s0 = symbols_view(symbols@);
    match stmt {
        Statement::VariableDeclaration { name, .. } => {
            if name.token_type == TokenType::Identifier {
                push_symbol(symbols, leaf_symbol(name, SymbolKind::Variable, uri, container));
            }
            assert(symbols_view(symbols@) =~= s0 + stmt_symbols(uri@, *stmt, c));
        },
        Statement::FunctionDeclaration { name, parameters, body, .. } => {
            if name.token_type == TokenType::Identifier {
                push_symbol(symbols, leaf_symbol(name, SymbolKind::Function, uri, container));
                let ghost s1 = symbols_view(symbols@);
                let mut i: usize = 0;
                while i < parameters.len()
                    invariant
                        i <= parameters@.len(),
                        symbols_view(symbols@) == s1 + param_symbols(
                            uri@,
                            parameters@.take(i as int),
                            name.lexeme@,
                        ),
                    decreases parameters@.len() - i,
                {
                    assert(parameters@.take(i + 1).drop_last() =~= parameters@.take(i as int));
                    let param = &parameters[i].0;
                    if param.token_type == TokenType::Identifier {
                        push_symbol(
                            symbols,
                            leaf_symbol(param, SymbolKind::Variable, uri, Some(name.lexeme.clone())),
                        );
                            }
                    assert(symbols_view(symbols@) =~= s1 + param_symbols(
                        uri@,
                        parameters@.take(i + 1),
                        name.lexeme@,
                    ));
                    i = i + 1;
                }
                assert(parameters@.take(i as int) =~= parameters@);
                let ghost s2 = symbols_view(symbols@);
                extract_symbols_from_statements(body, uri, symbols, &Some(name.lexeme.clone()));
                assert(symbols_view(symbols@) =~= s0 + stmt_symbols(uri@, *stmt, c));
            } else {
                assert(symbols_view(symbols@) =~= s0 + stmt_symbols(uri@, *stmt, c));
            }
        },
        Statement::Block(statements) => {
            extract_symbols_from_statements(statements, uri, symbols, &container);
        },
        Statement::If { then_branch, else_branch, .. } => {
            extract_symbols_from_statements(then_branch, uri, symbols, &container);
            if let Some(else_branch) = else_branch {
                extract_symbols_from_statements(else_branch, uri, symbols, &container);
            }
            assert(symbols_view(symbols@) =~= s0 + stmt_symbols(uri@, *stmt, c));
        },
        Statement::While { body, .. } => {
            extract_symbols_from_statements(body, uri, symbols, &container);
        },
        Statement::For { body, .. } => {
            extract_symbols_from_statements(body, uri, symbols, &container);
        },
        Statement::ClassDeclaration { name, methods, .. } => {
            if name.token_type == TokenType::Identifier {
                let mut children: Vec<Symbol> = Vec::new();
                let mut i: usize = 0;
                while i < methods.len()
                    invariant
                        i <= methods@.len(),
                        symbols_view(children@) == method_symbols(
                            uri@,
                            methods@.take(i as int),
                            name.lexeme@,
                        ),
                    decreases methods@.len() - i,
                {
                    assert(methods@.take(i + 1).drop_last() =~= methods@.take(i as int));
                    if let Statement::FunctionDeclaration { name: method_name, .. } = &methods[i] {
                        if method_name.token_type == TokenType::Identifier {
                            push_symbol(
                                &mut children,
                                leaf_symbol(method_name, SymbolKind::Method, uri, Some(name.lexeme.clone())),
                            );
                        }
                    }
                    i = i + 1;
                }
                assert(methods@.take(i as int) =~= methods@);
                push_symbol(symbols, new_symbol(name, SymbolKind::Class, uri, container, children));
            }
            assert(symbols_view(symbols@) =~= s0 + stmt_symbols(uri@, *stmt, c));
        },
        _ => {
            assert(symbols_view(symbols@) =~= s0 + stmt_symbols(uri@, *stmt, c));
        },
    }
}

/// How serious a diagnostic is.
#[derive(Debug, Clone, Copy, PartialEq, Eq, Structural)]
pub enum DiagnosticSeverity {
    Error,
    Warning,
    Information,
    Hint,
}

/// A problem found in a document.
#[derive(Debug)]
pub struct Diagnostic {
    pub range: Range,
    pub severity: Option<DiagnosticSeverity>,
    pub source: Option<String>,
    pub message: String,
}

pub struct DiagnosticSpec {
    pub range: Range,
    pub severity: Option<DiagnosticSeverity>,
    pub source: Option<Seq<char>>,
    pub message: Seq<char>,
}

pub open spec fn diag_view(d: Diagnostic) -> DiagnosticSpec {
    DiagnosticSpec { range: d.range, severity: d.severity, source: opt_text(d.source), message: d.message@ }
}

pub open spec fn diags_view(ds: Seq<Diagnostic>) -> Seq<DiagnosticSpec> {
    ds.map_values(|d: Diagnostic| diag_view(d))
}

/// The range at the very start of a document.
pub open spec fn start_range() -> Range {
    Range { start: Position { line: 0, character: 0 }, end: Position { line: 0, character: 0 } }
}

/// The diagnostic for a parse error.
pub open spec fn parse_diagnostic(m: Seq<char>) -> DiagnosticSpec {
    DiagnosticSpec {
        range: start_range(),
        severity: Some(DiagnosticSeverity::Error),
        source: Some("grease-lsp"@),
        message: m,
    }
}

/// An open document: its text, version, syntax tree once parsed, and diagnostics.
#[derive(Debug)]
pub struct Document {
    pub uri: String,
    pub text: String,
    pub version: i32,
    pub language_id: String,
    pub ast: Option<Program>,
    pub diagnostics: Vec<Diagnostic>,
}

pub struct DocumentSpec {
    pub uri: Seq<char>,
    pub text: Seq<char>,
    pub version: i32,
    pub language_id: Seq<char>,
    pub ast: Option<Seq<StmtSpec>>,
    pub diagnostics: Seq<DiagnosticSpec>,
}

pub open spec fn ast_view(a: Option<Program>) -> Option<Seq<StmtSpec>> {
    match a {
        Some(p) => Some(stmts_view(p.statements@)),
        None => None,
    }
}

pub open spec fn doc_view(d: Document) -> DocumentSpec {
    DocumentSpec {
        uri: d.uri@,
        text: d.text@,
        version: d.version,
        language_id: d.language_id@,
        ast: ast_view(d.ast),
        diagnostics: diags_view(d.diagnostics@),
    }
}

/// A document after parsing its text: the statements, or, where parsing (not
/// lexing) failed, one more diagnostic. A lexing error changes nothing.
pub open spec fn parsed(d: DocumentSpec) -> DocumentSpec {
    match lex(d.text) {
        Err(_) => d,
        Ok(toks) => match parse_spec(toks) {
            Ok(ss) => DocumentSpec { ast: Some(ss), diagnostics: Seq::empty(), ..d },
            Err(m) => DocumentSpec { diagnostics: d.diagnostics.push(parse_diagnostic(m)), ..d },
        },
    }
}

/// A document as it is opened or replaced: unparsed, with no diagnostics.
pub open spec fn fresh_doc(uri: Seq<char>, text: Seq<char>, version: i32, language_id: Seq<char>) -> DocumentSpec {
    DocumentSpec { uri, text, version, language_id, ast: None, diagnostics: Seq::empty() }
}

fn copy_diagnostics(ds: &Vec<Diagnostic>) -> (r: Vec<Diagnostic>)
    ensures
        diags_view(r@) == diags_view(ds@),
{
    let mut out: Vec<Diagnostic> = Vec::new();
    let mut i: usize = 0;
    while i < ds.len()
        invariant
            i <= ds@.len(),
            out@.len() == i,
            forall|j: int| 0 <= j < i ==> #[trigger] diag_view(out@[j]) == diag_view(ds@[j]),
        decreases ds@.len() - i,
    {
        let d = &ds[i];
        out.push(Diagnostic {
            range: d.range,
            severity: d.severity,
            source: copy_opt_string(&d.source),
            message: d.message.clone(),
        });
        i = i + 1;
    }
    assert(diags_view(out@) =~= diags_view(ds@));
    out
}

impl Document {
    pub fn new(uri: String, text: String, language_id: String) -> (r: Self)
        ensures
            doc_view(r) == fresh_doc(uri@, text@, 0, language_id@),
    {
        let r = Document { uri, text, version: 0, language_id, ast: None, diagnostics: Vec::new() };
        assert(diags_view(r.diagnostics@) =~= Seq::empty());
        r
    }

    /// Replaces the text and version; the tree and diagnostics are dropped.
    pub fn update(&mut self, text: String, version: i32)
        ensures
            doc_view(*final(self)) == fresh_doc(old(self).uri@, text@, version, old(self).language_id@),
    {
        self.text = text;
        self.version = version;
        self.ast = None;
        self.diagnostics = Vec::new();
        assert(diags_view(self.diagnostics@) =~= Seq::empty());
    }

    /// Lexes and parses the text. On success the tree is kept and the diagnostics
    /// cleared; a parse error is added as a diagnostic. Either error is returned.
    pub fn parse(&mut self) -> (r: Result<(), String>)
        requires
            old(self).text@.len() <= usize::MAX / 8,
        ensures
            doc_view(*final(self)) == parsed(doc_view(*old(self))),
            match parse_source(old(self).text@) {
                Ok(_) => r is Ok,
                Err(m) => r matches Err(e) && e@ == m,
            },
    {
        let mut lexer = Lexer::new(self.text.clone());
        let tokens = match lexer.tokenize() {
            Ok(t) => t,
            Err(e) => {
                return Err(e);
            },
        };
        let mut parser = Parser::new(tokens);
        match parser.parse() {
            Ok(program) => {
                self.ast = Some(program);
                self.diagnostics = Vec::new();
                assert(diags_view(self.diagnostics@) =~= Seq::empty());
                Ok(())
            },
            Err(e) => {
                let ghost before = self.diagnostics@;
                self.diagnostics.push(
                    Diagnostic {
                        range: Range {
                            start: Position { line: 0, character: 0 },
                            end: Position { line: 0, character: 0 },
                        },
                        severity: Some(DiagnosticSeverity::Error),
                        source: Some(owned("grease-lsp")),
                        message: e.clone(),
                    },
                );
                assert(diags_view(self.diagnostics@) =~= diags_view(before).push(parse_diagnostic(e@)));
                Err(e)
            },
        }
    }

    pub fn get_diagnostics(&self) -> (r: Vec<Diagnostic>)
        ensures
            diags_view(r@) == diags_view(self.diagnostics@),
    {
        copy_diagnostics(&self.diagnostics)
    }

    /// A copy of the document, tree and diagnostics included.
    pub fn duplicate(&self) -> (r: Self)
        ensures
            doc_view(r) == doc_view(*self),
    {
        let ast = match &self.ast {
            Some(p) => Some(Program { statements: duplicate_stmts(&p.statements) }),
            None => None,
        };
        Document {
            uri: self.uri.clone(),
            text: self.text.clone(),
            version: self.version,
            language_id: self.language_id.clone(),
            ast,
            diagnostics: copy_diagnostics(&self.diagnostics),
        }
    }
}

/// The position of the last document with the URI, or -1.
pub open spec fn find_doc(docs: Seq<Document>, uri: Seq<char>) -> int
    decreases docs.len(),
{
    if docs.len() == 0 {
        -1
    } else if docs.last().uri@ == uri {
        docs.len() - 1
    } else {
        find_doc(docs.drop_last(), uri)
    }
}

proof fn lemma_find_doc(docs: Seq<Document>, uri: Seq<char>)
    ensures
        -1 <= find_doc(docs, uri) < docs.len(),
        find_doc(docs, uri) >= 0 ==> docs[find_doc(docs, uri)].uri@ == uri,
    decreases docs.len(),
{
    if docs.len() > 0 {
        lemma_find_doc(docs.drop_last(), uri);
    }
}

proof fn lemma_find_doc_update(docs: Seq<Document>, i: int, d: Document, uri: Seq<char>)
    requires
        0 <= i < docs.len(),
        docs[i].uri@ == d.uri@,
    ensures
        find_doc(docs.update(i, d), uri) == find_doc(docs, uri),
    decreases docs.len(),
{
    if i == docs.len() - 1 {
        assert(docs.update(i, d).drop_last() =~= docs.drop_last());
    } else {
        assert(docs.update(i, d).drop_last() =~= docs.drop_last().update(i, d));
        lemma_find_doc_update(docs.drop_last(), i, d, uri);
    }
}

pub open spec fn docs_view(docs: Seq<Document>) -> Seq<DocumentSpec> {
    docs.map_values(|d: Document| doc_view(d))
}

/// The symbol lists, each with the URI of its document.
pub open spec fn lists_view(ls: Seq<(String, Vec<Symbol>)>) -> Seq<(Seq<char>, Seq<SymbolSpec>)> {
    ls.map_values(|l: (String, Vec<Symbol>)| (l.0@, symbols_view(l.1@)))
}

/// The position of the last symbol list of the URI, or -1.
pub open spec fn find_list(ls: Seq<(Seq<char>, Seq<SymbolSpec>)>, uri: Seq<char>) -> int
    decreases ls.len(),
{
    if ls.len() == 0 {
        -1
    } else if ls.last().0 == uri {
        ls.len() - 1
    } else {
        find_list(ls.drop_last(), uri)
    }
}

proof fn lemma_find_list(ls: Seq<(Seq<char>, Seq<SymbolSpec>)>, uri: Seq<char>)
    ensures
        -1 <= find_list(ls, uri) < ls.len(),
        find_list(ls, uri) >= 0 ==> ls[find_list(ls, uri)].0 == uri,
    decreases ls.len(),
{
    if ls.len() > 0 {
        lemma_find_list(ls.drop_last(), uri);
    }
}

/// The locations of the symbols named `name`, list by list, in order.
pub open spec fn definitions(ls: Seq<(Seq<char>, Seq<SymbolSpec>)>, name: Seq<char>) -> Seq<(Seq<char>, Range)>
    decreases ls.len(),
{
    if ls.len() == 0 {
        Seq::empty()
    } else {
        definitions(ls.drop_last(), name) + named(ls.last().1, name)
    }
}

/// The locations of the symbols of one list named `name`, in order.
pub open spec fn named(ss: Seq<SymbolSpec>, name: Seq<char>) -> Seq<(Seq<char>, Range)>
    decreases ss.len(),
{
    if ss.len() == 0 {
        Seq::empty()
    } else if ss.last().name == name {
        named(ss.drop_last(), name).push((ss.last().uri, ss.last().at))
    } else {
        named(ss.drop_last(), name)
    }
}

/// `loc` is the location of a symbol of `ss` named exactly `name`.
pub open spec fn located_in(ss: Seq<SymbolSpec>, name: Seq<char>, loc: (Seq<char>, Range)) -> bool {
    exists|j: int| 0 <= j < ss.len() && #[trigger] ss[j].name == name && loc == (ss[j].uri, ss[j].at)
}

/// `loc` is the location of a symbol of one of the lists, named exactly `name`.
pub open spec fn located_in_lists(
    ls: Seq<(Seq<char>, Seq<SymbolSpec>)>,
    name: Seq<char>,
    loc: (Seq<char>, Range),
) -> bool {
    exists|i: int| 0 <= i < ls.len() && #[trigger] located_in(ls[i].1, name, loc)
}

/// Every location `named` gives is that of a symbol of the list with exactly that
/// name, and every such symbol's location is given.
proof fn lemma_named_exact(ss: Seq<SymbolSpec>, name: Seq<char>)
    ensures
        forall|k: int| 0 <= k < named(ss, name).len() ==> located_in(ss, name, #[trigger] named(ss, name)[k]),
        forall|j: int|
            0 <= j < ss.len() && #[trigger] ss[j].name == name ==> named(ss, name).contains((ss[j].uri, ss[j].at)),
    decreases ss.len(),
{
    if ss.len() > 0 {
        let p = ss.drop_last();
        lemma_named_exact(p, name);
        assert forall|k: int| 0 <= k < named(ss, name).len() implies located_in(ss, name, #[trigger] named(ss, name)[k]) by {
            if k < named(p, name).len() {
                assert(located_in(p, name, named(p, name)[k]));
                let j = choose|j: int| 0 <= j < p.len() && #[trigger] p[j].name == name && named(p, name)[k] == (p[j].uri, p[j].at);
                assert(ss[j] == p[j]);
                assert(named(ss, name)[k] == named(p, name)[k]);
                assert(ss[j].name == name);
            } else {
                assert(ss.last().name == name);
                assert(named(ss, name)[k] == (ss[ss.len() - 1].uri, ss[ss.len() - 1].at));
                assert(ss[ss.len() - 1].name == name);
            }
        }
        assert forall|j: int| 0 <= j < ss.len() && #[trigger] ss[j].name == name implies named(ss, name).contains((ss[j].uri, ss[j].at)) by {
            if j < p.len() {
                assert(p[j] == ss[j]);
                assert(p[j].name == name);
                let k = choose|k: int| 0 <= k < named(p, name).len() && named(p, name)[k] == (p[j].uri, p[j].at);
                assert(named(ss, name)[k] == named(p, name)[k]);
            } else {
                assert(named(ss, name)[named(ss, name).len() - 1] == (ss[j].uri, ss[j].at));
            }
        }
    }
}

/// Definitions are found by exact name: every location `find_definitions` gives
/// for `name` is the location of a symbol named exactly `name`, and the location
/// of every symbol so named is given.
pub proof fn law_definitions_exact(ls: Seq<(Seq<char>, Seq<SymbolSpec>)>, name: Seq<char>)
    ensures
        forall|k: int|
            0 <= k < definitions(ls, name).len() ==> located_in_lists(ls, name, #[trigger] definitions(ls, name)[k]),
        forall|i: int, j: int|
            0 <= i < ls.len() && 0 <= j < ls[i].1.len() && #[trigger] ls[i].1[j].name == name
                ==> definitions(ls, name).contains((ls[i].1[j].uri, ls[i].1[j].at)),
    decreases ls.len(),
{
    if ls.len() > 0 {
        let p = ls.drop_last();
        let last = ls.last().1;
        law_definitions_exact(p, name);
        lemma_named_exact(last, name);
        let dp = definitions(p, name);
        assert(definitions(ls, name) == dp + named(last, name));
        assert forall|k: int| 0 <= k < definitions(ls, name).len() implies located_in_lists(
            ls,
            name,
            #[trigger] definitions(ls, name)[k],
        ) by {
            if k < dp.len() {
                assert(located_in_lists(p, name, dp[k]));
                let i = choose|i: int| 0 <= i < p.len() && #[trigger] located_in(p[i].1, name, dp[k]);
                assert(ls[i] == p[i]);
                assert(definitions(ls, name)[k] == dp[k]);
                assert(located_in(ls[i].1, name, definitions(ls, name)[k]));
            } else {
                let k2 = k - dp.len();
                assert(definitions(ls, name)[k] == named(last, name)[k2]);
                assert(located_in(last, name, named(last, name)[k2]));
                assert(ls[ls.len() - 1].1 == last);
                assert(located_in(ls[ls.len() - 1].1, name, definitions(ls, name)[k]));
            }
        }
        assert forall|i: int, j: int|
            0 <= i < ls.len() && 0 <= j < ls[i].1.len() && #[trigger] ls[i].1[j].name == name implies definitions(
            ls,
            name,
        ).contains((ls[i].1[j].uri, ls[i].1[j].at)) by {
            let loc = (ls[i].1[j].uri, ls[i].1[j].at);
            if i < p.len() {
                assert(p[i] == ls[i]);
                assert(p[i].1[j].name == name);
                let k = choose|k: int| 0 <= k < dp.len() && dp[k] == loc;
                assert(definitions(ls, name)[k] == dp[k]);
            } else {
                assert(last[j].name == name);
                let k = choose|k: int| 0 <= k < named(last, name).len() && named(last, name)[k] == loc;
                assert(definitions(ls, name)[dp.len() + k] == named(last, name)[k]);
            }
        }
    }
}

pub open spec fn location_view(l: Location) -> (Seq<char>, Range) {
    (l.uri@, l.range)
}

/// What a completion offers.
#[derive(Debug, Clone, Copy, PartialEq, Eq, Structural)]
pub enum CompletionItemKind {
    Keyword,
    Function,
    Variable,
}

/// A completion offered to the editor; its text is inserted as plain text.
#[derive(Debug)]
pub struct CompletionItem {
    pub label: String,
    pub kind: CompletionItemKind,
    pub detail: String,
    pub documentation: Option<String>,
}

pub struct CompletionSpec {
    pub label: Seq<char>,
    pub kind: CompletionItemKind,
    pub detail: Seq<char>,
    pub documentation: Option<Seq<char>>,
}

pub open spec fn completion_view(c: CompletionItem) -> CompletionSpec {
    CompletionSpec {
        label: c.label@,
        kind: c.kind,
        detail: c.detail@,
        documentation: opt_text(c.documentation),
    }
}

/// The keywords offered in every document, in order.
pub open spec fn keywords() -> Seq<Seq<char>> {
    seq![
        "def"@, "if"@, "elif"@, "else"@, "while"@, "for"@, "in"@, "return"@, "use"@, "as"@,
        "true"@, "false"@, "null"@, "class"@, "new"@, "self"@, "super"@, "and"@, "or"@, "not"@,
    ]
}

pub open spec fn keyword_item(k: Seq<char>) -> CompletionSpec {
    CompletionSpec {
        label: k,
        kind: CompletionItemKind::Keyword,
        detail: k + " keyword"@,
        documentation: Some("Grease keyword: "@ + k),
    }
}

/// How a symbol's kind is written in a completion's detail.
pub open spec fn kind_word(k: SymbolKind) -> Seq<char> {
    match k {
        SymbolKind::Function => "function"@,
        SymbolKind::Variable => "variable"@,
        _ => "symbol"@,
    }
}

pub open spec fn symbol_item(s: SymbolSpec) -> CompletionSpec {
    CompletionSpec {
        label: s.name,
        kind: if s.kind == SymbolKind::Function {
            CompletionItemKind::Function
        } else {
            CompletionItemKind::Variable
        },
        detail: s.name + " ("@ + kind_word(s.kind) + ")"@,
        documentation: None,
    }
}

/// The completions for a document: the keywords, then the document's symbols.
pub open spec fn completions(ls: Seq<(Seq<char>, Seq<SymbolSpec>)>, uri: Seq<char>) -> Seq<CompletionSpec> {
    let own = if find_list(ls, uri) >= 0 {
        ls[find_list(ls, uri)].1.map_values(|s: SymbolSpec| symbol_item(s))
    } else {
        Seq::empty()
    };
    keywords().map_values(|k: Seq<char>| keyword_item(k)) + own
}

fn keyword_at(i: usize) -> (r: &'static str)
    requires
        i < 20,
    ensures
        r@ == keywords()[i as int],
{
    match i {
        0 => "def",
        1 => "if",
        2 => "elif",
        3 => "else",
        4 => "while",
        5 => "for",
        6 => "in",
        7 => "return",
        8 => "use",
        9 => "as",
        10 => "true",
        11 => "false",
        12 => "null",
        13 => "class",
        14 => "new",
        15 => "self",
        16 => "super",
        17 => "and",
        18 => "or",
        _ => "not",
    }
}

fn kind_text(k: SymbolKind) -> (r: &'static str)
    ensures
        r@ == kind_word(k),
{
    match k {
        SymbolKind::Function => "function",
        SymbolKind::Variable => "variable",
        _ => "symbol",
    }
}

/// The open documents and the symbols found in them.
#[derive(Debug)]
pub struct Workspace {
    pub documents: Vec<Document>,
    pub symbols: Vec<(String, Vec<Symbol>)>,
}

impl Workspace {
    pub fn new() -> (r: Self)
        ensures
            r.documents@.len() == 0,
            r.symbols@.len() == 0,
    {
        Workspace { documents: Vec::new(), symbols: Vec::new() }
    }

    fn find_document(&self, uri: &str) -> (r: Option<usize>)
        ensures
            match r {
                Some(i) => i == find_doc(self.documents@, uri@),
                None => find_doc(self.documents@, uri@) == -1,
            },
    {
        let ghost ds = self.documents@;
        let mut i = self.documents.len();
        assert(ds.take(i as int) =~= ds);
        while i > 0
            invariant
                i <= ds.len(),
                ds == self.documents@,
                find_doc(ds, uri@) == find_doc(ds.take(i as int), uri@),
            decreases i,
        {
            assert(ds.take(i as int).drop_last() =~= ds.take(i - 1));
            if str_eq(self.documents[i - 1].uri.as_str(), uri) {
                return Some(i - 1);
            }
            i = i - 1;
        }
        None
    }

    /// A copy of the document with the URI, if it is open.
    pub fn get_document(&self, uri: &str) -> (r: Option<Document>)
        ensures
            find_doc(self.documents@, uri@) >= 0 ==> (r matches Some(d) && doc_view(d) == doc_view(
                self.documents@[find_doc(self.documents@, uri@)],
            )),
            find_doc(self.documents@, uri@) < 0 ==> r is None,
    {
        proof {
            lemma_find_doc(self.documents@, uri@);
        }
        match self.find_document(uri) {
            Some(i) => Some(self.documents[i].duplicate()),
            None => None,
        }
    }

    /// Opens a document, or replaces the one with its URI, one version later;
    /// the new document is parsed, and a copy of it returned.
    pub fn upsert_document(&mut self, uri: String, text: String, language_id: String) -> (r: Document)
        requires
            text@.len() <= usize::MAX / 8,
            find_doc(old(self).documents@, uri@) >= 0 ==> old(self).documents@[find_doc(
                old(self).documents@,
                uri@,
            )].version < i32::MAX,
        ensures
            ({
                let i = find_doc(old(self).documents@, uri@);
                let version: i32 = if i >= 0 {
                    (old(self).documents@[i].version + 1) as i32
                } else {
                    0
                };
                let d = parsed(fresh_doc(uri@, text@, version, language_id@));
                &&& doc_view(r) == d
                &&& i >= 0 ==> docs_view(final(self).documents@) == docs_view(old(self).documents@).update(i, d)
                &&& i < 0 ==> docs_view(final(self).documents@) == docs_view(old(self).documents@).push(d)
            }),
            find_doc(final(self).documents@, uri@) >= 0,
            doc_view(final(self).documents@[find_doc(final(self).documents@, uri@)]) == doc_view(r),
            final(self).symbols == old(self).symbols,
    {
        proof {
            lemma_find_doc(self.documents@, uri@);
        }
        let mut doc = Document::new(uri, text, language_id);
        let _ = doc.parse();
        let found = self.find_document(doc.uri.as_str());
        let ghost before = self.documents@;
        match found {
            Some(i) => {
                doc.version = self.documents[i].version + 1;
                let copy = doc.duplicate();
                proof {
                    lemma_find_doc_update(before, i as int, doc, uri@);
                }
                self.documents.set(i, doc);
                assert(docs_view(self.documents@) =~= docs_view(before).update(i as int, doc_view(copy)));
                copy
            },
            None => {
                let copy = doc.duplicate();
                self.documents.push(doc);
                assert(docs_view(self.documents@) =~= docs_view(before).push(doc_view(copy)));
                assert(self.documents@.last() == doc);
                copy
            },
        }
    }

    /// Replaces the text and version of an open document and parses it again;
    /// returns a copy of it, or `None` if no document has the URI.
    pub fn update_document(&mut self, uri: &str, text: String, version: i32) -> (r: Option<Document>)
        requires
            text@.len() <= usize::MAX / 8,
        ensures
            ({
                let i = find_doc(old(self).documents@, uri@);
                if i >= 0 {
                    let old_doc = old(self).documents@[i];
                    let d = parsed(fresh_doc(old_doc.uri@, text@, version, old_doc.language_id@));
                    &&& r matches Some(x) && doc_view(x) == d
                    &&& docs_view(final(self).documents@) == docs_view(old(self).documents@).update(i, d)
                } else {
                    &&& r is None
                    &&& final(self).documents@ == old(self).documents@
                }
            }),
            final(self).symbols == old(self).symbols,
    {
        proof {
            lemma_find_doc(self.documents@, uri@);
        }
        match self.find_document(uri) {
            Some(i) => {
                let ghost before = self.documents@;
                let mut doc = self.documents.remove(i);
                doc.update(text, version);
                let _ = doc.parse();
                let copy = doc.duplicate();
                self.documents.insert(i, doc);
                assert(docs_view(self.documents@) =~= docs_view(before).update(i as int, doc_view(copy)));
                Some(copy)
            },
            None => None,
        }
    }

    /// Closes a document; returns it, or `None` if no document has the URI.
    pub fn remove_document(&mut self, uri: &str) -> (r: Option<Document>)
        ensures
            ({
                let i = find_doc(old(self).documents@, uri@);
                if i >= 0 {
                    &&& r matches Some(d) && doc_view(d) == doc_view(old(self).documents@[i])
                    &&& final(self).documents@ == old(self).documents@.remove(i)
                } else {
                    &&& r is None
                    &&& final(self).documents@ == old(self).documents@
                }
            }),
            final(self).symbols == old(self).symbols,
    {
        proof {
            lemma_find_doc(self.documents@, uri@);
        }
        match self.find_document(uri) {
            Some(i) => Some(self.documents.remove(i)),
            None => None,
        }
    }

    fn find_symbol_list(&self, uri: &str) -> (r: Option<usize>)
        ensures
            match r {
                Some(i) => i == find_list(lists_view(self.symbols@), uri@),
                None => find_list(lists_view(self.symbols@), uri@) == -1,
            },
    {
        let ghost ls = lists_view(self.symbols@);
        let mut i = self.symbols.len();
        assert(ls.take(i as int) =~= ls);
        while i > 0
            invariant
                i <= ls.len(),
                ls == lists_view(self.symbols@),
                find_list(ls, uri@) == find_list(ls.take(i as int), uri@),
            decreases i,
        {
            assert(ls.take(i as int).drop_last() =~= ls.take(i - 1));
            if str_eq(self.symbols[i - 1].0.as_str(), uri) {
                return Some(i - 1);
            }
            i = i - 1;
        }
        None
    }

    /// Finds the symbols of an open document and keeps them under its URI, in place
    /// of any found before. Nothing happens if no document has the URI.
    pub fn find_symbols_in_document(&mut self, uri: &str)
        ensures
            final(self).documents == old(self).documents,
            ({
                let i = find_doc(old(self).documents@, uri@);
                let ls = lists_view(old(self).symbols@);
                if i >= 0 {
                    let found = match old(self).documents@[i].ast {
                        Some(p) => stmts_symbols(uri@, p.statements@, None),
                        None => Seq::empty(),
                    };
                    let j = find_list(ls, uri@);
                    &&& j >= 0 ==> lists_view(final(self).symbols@) == ls.update(j, (uri@, found))
                    &&& j < 0 ==> lists_view(final(self).symbols@) == ls.push((uri@, found))
                } else {
                    final(self).symbols@ == old(self).symbols@
                }
            }),
    {
        proof {
            lemma_find_doc(self.documents@, uri@);
        }
        let i = match self.find_document(uri) {
            Some(i) => i,
            None => {
                return;
            },
        };
        let mut symbols: Vec<Symbol> = Vec::new();
        assert(symbols_view(symbols@) =~= Seq::empty());
        if let Some(ast) = &self.documents[i].ast {
            extract_symbols_from_statements(&ast.statements, uri, &mut symbols, &None);
            assert(symbols_view(symbols@) =~= stmts_symbols(uri@, ast.statements@, None));
        }
        let ghost ls = lists_view(self.symbols@);
        let ghost found = symbols_view(symbols@);
        proof {
            lemma_find_list(ls, uri@);
        }
        match self.find_symbol_list(uri) {
            Some(j) => {
                self.symbols.set(j, (owned(uri), symbols));
                assert(lists_view(self.symbols@) =~= ls.update(j as int, (uri@, found)));
            },
            None => {
                self.symbols.push((owned(uri), symbols));
                assert(lists_view(self.symbols@) =~= ls.push((uri@, found)));
            },
        }
    }

    /// The locations of the symbols named `name` in all documents.
    pub fn find_definitions(&self, name: &str, _uri: &str, _position: Position) -> (r: Vec<Location>)
        ensures
            r@.map_values(|l: Location| location_view(l)) == definitions(lists_view(self.symbols@), name@),
            forall|k: int|
                0 <= k < r@.len() ==> located_in_lists(
                    lists_view(self.symbols@),
                    name@,
                    location_view(#[trigger] r@[k]),
                ),
    {
        let ghost ls = lists_view(self.symbols@);
        let mut locations: Vec<Location> = Vec::new();
        let mut i: usize = 0;
        while i < self.symbols.len()
            invariant
                i <= self.symbols@.len(),
                ls == lists_view(self.symbols@),
                locations@.map_values(|l: Location| location_view(l)) == definitions(ls.take(i as int), name@),
            decreases self.symbols@.len() - i,
        {
            assert(ls.take(i + 1).drop_last() =~= ls.take(i as int));
            let list = &self.symbols[i].1;
            let ghost ss = symbols_view(list@);
            let ghost start = locations@.map_values(|l: Location| location_view(l));
            proof {
                lemma_symbols_view_len(list@);
            }
            let mut k: usize = 0;
            while k < list.len()
                invariant
                    k <= list@.len(),
                    ss == symbols_view(list@),
                    ss.len() == list@.len(),
                    locations@.map_values(|l: Location| location_view(l)) == start + named(ss.take(k as int), name@),
                decreases list@.len() - k,
            {
                proof {
                    lemma_symbols_view_index(list@, k as int);
                }
                assert(ss.take(k + 1).drop_last() =~= ss.take(k as int));
                let symbol = &list[k];
                if str_eq(symbol.name.as_str(), name) {
                    let ghost before = locations@;
                    locations.push(Location { uri: symbol.location.uri.clone(), range: symbol.location.range });
                    assert(locations@.map_values(|l: Location| location_view(l)) =~= before.map_values(
                        |l: Location| location_view(l),
                    ).push(location_view(locations@.last())));
                }
                assert(locations@.map_values(|l: Location| location_view(l)) =~= start + named(ss.take(k + 1), name@));
                k = k + 1;
            }
            assert(ss.take(k as int) =~= ss);
            assert(ls.take(i + 1).last().1 == ss);
            i = i + 1;
        }
        assert(ls.take(i as int) =~= ls);
        proof {
            law_definitions_exact(ls, name@);
            assert forall|k: int| 0 <= k < locations@.len() implies located_in_lists(
                ls,
                name@,
                location_view(#[trigger] locations@[k]),
            ) by {
                assert(location_view(locations@[k]) == locations@.map_values(|l: Location| location_view(l))[k]);
                assert(located_in_lists(ls, name@, definitions(ls, name@)[k]));
            }
        }
        locations
    }

    /// References are not tracked: there are none to report.
    pub fn find_references(&self, _name: &str, _uri: &str, _position: Position) -> (r: Vec<Location>)
        ensures
            r@.len() == 0,
    {
        Vec::new()
    }

    /// The completions for a document: each keyword, then each symbol found in it.
    pub fn get_completions(&self, uri: &str, _position: Position) -> (r: Vec<CompletionItem>)
        ensures
            r@.map_values(|c: CompletionItem| completion_view(c)) == completions(lists_view(self.symbols@), uri@),
    {
        let mut items: Vec<CompletionItem> = Vec::new();
        let mut i: usize = 0;
        while i < 20
            invariant
                i <= 20,
                items@.len() == i,
                forall|j: int| 0 <= j < i ==> #[trigger] completion_view(items@[j]) == keyword_item(keywords()[j]),
            decreases 20 - i,
        {
            let keyword = keyword_at(i);
            let mut detail = owned(keyword);
            append_str(&mut detail, " keyword");
            let mut doc = owned("Grease keyword: ");
            append_str(&mut doc, keyword);
            items.push(CompletionItem {
                label: owned(keyword),
                kind: CompletionItemKind::Keyword,
                detail,
                documentation: Some(doc),
            });
            i = i + 1;
        }
        let ghost ls = lists_view(self.symbols@);
        proof {
            lemma_find_list(ls, uri@);
        }
        let ghost kw = keywords().map_values(|k: Seq<char>| keyword_item(k));
        assert(items@.map_values(|c: CompletionItem| completion_view(c)) =~= kw);
        match self.find_symbol_list(uri) {
            Some(j) => {
                let list = &self.symbols[j].1;
                let ghost ss = symbols_view(list@);
                assert(ss == ls[j as int].1);
                proof {
                    lemma_symbols_view_len(list@);
                }
                let mut k: usize = 0;
                while k < list.len()
                    invariant
                        k <= list@.len(),
                        ss == symbols_view(list@),
                        ss.len() == list@.len(),
                        kw.len() == 20,
                        items@.len() == 20 + k,
                        forall|q: int| 0 <= q < 20 ==> #[trigger] completion_view(items@[q]) == kw[q],
                        forall|q: int|
                            0 <= q < k ==> #[trigger] completion_view(items@[20 + q]) == symbol_item(ss[q]),
                    decreases list@.len() - k,
                {
                    proof {
                        lemma_symbols_view_index(list@, k as int);
                    }
                    let symbol = &list[k];
                    let kind = if symbol.kind == SymbolKind::Function {
                        CompletionItemKind::Function
                    } else {
                        CompletionItemKind::Variable
                    };
                    let mut detail = symbol.name.clone();
                    append_str(&mut detail, " (");
                    append_str(&mut detail, kind_text(symbol.kind));
                    append_str(&mut detail, ")");
                    items.push(CompletionItem { label: symbol.name.clone(), kind, detail, documentation: None });
                    k = k + 1;
                }
                let ghost own = ss.map_values(|x: SymbolSpec| symbol_item(x));
                let ghost got = items@.map_values(|c: CompletionItem| completion_view(c));
                assert(completions(ls, uri@) == kw + own);
                assert forall|q: int| 0 <= q < items@.len() implies #[trigger] got[q] == (kw + own)[q] by {
                    if q >= 20 {
                        assert(completion_view(items@[20 + (q - 20)]) == symbol_item(ss[q - 20]));
                    }
                }
                assert(items@.map_values(|c: CompletionItem| completion_view(c)) =~= completions(ls, uri@));
            },
            None => {
                assert(items@.map_values(|c: CompletionItem| completion_view(c)) =~= completions(ls, uri@));
            },
        }
        items
    }
}

proof fn lemma_symbols_view_index(ss: Seq<Symbol>, k: int)
    requires
        0 <= k < ss.len(),
    ensures
        symbols_view(ss).len() == ss.len(),
        symbols_view(ss)[k] == symbol_view(ss[k]),
    decreases ss.len(),
{
    lemma_symbols_view_len(ss);
    if k < ss.len() - 1 {
        lemma_symbols_view_index(ss.drop_last(), k);
    }
}

proof fn lemma_symbols_view_len(ss: Seq<Symbol>)
    ensures
        symbols_view(ss).len() == ss.len(),
    decreases ss.len(),
{
    if ss.len() > 0 {
        lemma_symbols_view_len(ss.drop_last());
    }
}

/// A symbol of a document's outline; a function holds its parameters and the
/// symbols of its body.
#[derive(Debug)]
pub struct DocumentSymbol {
    pub name: String,
    pub detail: Option<String>,
    pub kind: SymbolKind,
    pub range: Range,
    pub selection_range: Range,
    pub children: Option<Vec<DocumentSymbol>>,
}

pub struct DocSymbolSpec {
    pub name: Seq<char>,
    pub detail: Option<Seq<char>>,
    pub kind: SymbolKind,
    pub range: Range,
    pub selection: Range,
    pub children: Option<Seq<DocSymbolSpec>>,
}

pub open spec fn doc_symbol_view(d: DocumentSymbol) -> DocSymbolSpec
    decreases d, 0int,
{
    DocSymbolSpec {
        name: d.name@,
        detail: opt_text(d.detail),
        kind: d.kind,
        range: d.range,
        selection: d.selection_range,
        children: match d.children {
            Some(c) => Some(doc_symbols_view(c@)),
            None => None,
        },
    }
}

pub open spec fn doc_symbols_view(ds: Seq<DocumentSymbol>) -> Seq<DocSymbolSpec>
    decreases ds, 0int,
{
    if ds.len() == 0 {
        Seq::empty()
    } else {
        doc_symbols_view(ds.drop_last()).push(doc_symbol_view(ds.last()))
    }
}

/// The range at the start of a document, given to outline symbols.
pub open spec fn zero_range() -> Range {
    Range { start: Position { line: 0, character: 0 }, end: Position { line: 0, character: 0 } }
}

pub open spec fn outline_symbol(
    name: Seq<char>,
    detail: Option<Seq<char>>,
    kind: SymbolKind,
    children: Option<Seq<DocSymbolSpec>>,
) -> DocSymbolSpec {
    DocSymbolSpec { name, detail, kind, range: zero_range(), selection: zero_range(), children }
}

/// The detail of a function in the outline: its number of parameters.
pub open spec fn function_detail(n: nat) -> Seq<char> {
    "function("@ + decimal(n) + ")"@
}

/// The outline symbols of a function's parameters.
pub open spec fn param_outline(ps: Seq<(Token, Option<String>)>) -> Seq<DocSymbolSpec>
    decreases ps.len(),
{
    if ps.len() == 0 {
        Seq::empty()
    } else if is_ident(ps.last().0) {
        param_outline(ps.drop_last()).push(
            outline_symbol(ps.last().0.lexeme@, Some("parameter"@), SymbolKind::Variable, None),
        )
    } else {
        param_outline(ps.drop_last())
    }
}

/// The outline symbols of a statement inside a function: a nested function is
/// listed without children.
pub open spec fn nested_outline(s: Statement) -> Seq<DocSymbolSpec>
    decreases s, 0int,
{
    match s {
        Statement::VariableDeclaration { name, type_annotation, .. } => if is_ident(name) {
            seq![outline_symbol(name.lexeme@, opt_text(type_annotation), SymbolKind::Variable, None)]
        } else {
            Seq::empty()
        },
        Statement::FunctionDeclaration { name, parameters, .. } => if is_ident(name) {
            seq![
                outline_symbol(
                    name.lexeme@,
                    Some(function_detail(parameters@.len())),
                    SymbolKind::Function,
                    None,
                ),
            ]
        } else {
            Seq::empty()
        },
        Statement::Block(b) => nested_outlines(b@),
        _ => Seq::empty(),
    }
}

pub open spec fn nested_outlines(ss: Seq<Statement>) -> Seq<DocSymbolSpec>
    decreases ss, 0int,
{
    if ss.len() == 0 {
        Seq::empty()
    } else {
        nested_outlines(ss.drop_last()) + nested_outline(ss.last())
    }
}

/// The outline symbols of a top-level statement: a function holds its parameters
/// and the symbols of its body.
pub open spec fn top_outline(s: Statement) -> Seq<DocSymbolSpec> {
    match s {
        Statement::FunctionDeclaration { name, parameters, body, .. } => if is_ident(name) {
            seq![
                outline_symbol(
                    name.lexeme@,
                    Some(function_detail(parameters@.len())),
                    SymbolKind::Function,
                    Some(param_outline(parameters@) + nested_outlines(body@)),
                ),
            ]
        } else {
            Seq::empty()
        },
        Statement::VariableDeclaration { name, type_annotation, .. } => if is_ident(name) {
            seq![outline_symbol(name.lexeme@, opt_text(type_annotation), SymbolKind::Variable, None)]
        } else {
            Seq::empty()
        },
        _ => Seq::empty(),
    }
}

pub open spec fn program_outline(ss: Seq<Statement>) -> Seq<DocSymbolSpec>
    decreases ss.len(),
{
    if ss.len() == 0 {
        Seq::empty()
    } else {
        program_outline(ss.drop_last()) + top_outline(ss.last())
    }
}

fn outline_entry(
    name: &String,
    detail: Option<String>,
    kind: SymbolKind,
    children: Option<Vec<DocumentSymbol>>,
) -> (r: DocumentSymbol)
    ensures
        doc_symbol_view(r) == outline_symbol(
            name@,
            opt_text(detail),
            kind,
            match children {
                Some(c) => Some(doc_symbols_view(c@)),
                None => None,
            },
        ),
{
    let zero = Range { start: Position { line: 0, character: 0 }, end: Position { line: 0, character: 0 } };
    DocumentSymbol { name: name.clone(), detail, kind, range: zero, selection_range: zero, children }
}

fn push_outline(symbols: &mut Vec<DocumentSymbol>, s: DocumentSymbol)
    ensures
        doc_symbols_view(final(symbols)@) == doc_symbols_view(old(symbols)@).push(doc_symbol_view(s)),
{
    let ghost before = symbols@;
    symbols.push(s);
    assert(symbols@.drop_last() =~= before);
}

fn function_detail_text(n: usize) -> (r: String)
    ensures
        r@ == function_detail(n as nat),
{
    let mut d = owned("function(");
    append_str(&mut d, usize_to_string(n).as_str());
    append_str(&mut d, ")");
    d
}

fn nested_outline_of_all(ss: &Vec<Statement>, symbols: &mut Vec<DocumentSymbol>)
    ensures
        doc_symbols_view(final(symbols)@) == doc_symbols_view(old(symbols)@) + nested_outlines(ss@),
    decreases ss@, 0int,
{
    let mut i: usize = 0;
    while i < ss.len()
        invariant
            i <= ss@.len(),
            doc_symbols_view(symbols@) == doc_symbols_view(old(symbols)@) + nested_outlines(ss@.take(i as int)),
        decreases ss@.len() - i,
    {
        assert(ss@.take(i + 1).drop_last() =~= ss@.take(i as int));
        extract_nested_outline(&ss[i], symbols);
        assert(doc_symbols_view(symbols@) =~= doc_symbols_view(old(symbols)@) + nested_outlines(ss@.take(i + 1)));
        i = i + 1;
    }
    assert(ss@.take(i as int) =~= ss@);
}

/// Adds the outline symbols of a statement inside a function.
fn extract_nested_outline(stmt: &Statement, symbols: &mut Vec<DocumentSymbol>)
    ensures
        doc_symbols_view(final(symbols)@) == doc_symbols_view(old(symbols)@) + nested_outline(*stmt),
    decreases stmt, 0int,
{
    let ghost s0 = doc_symbols_view(symbols@);
    match stmt {
        Statement::VariableDeclaration { name, type_annotation, .. } => {
            if name.token_type == TokenType::Identifier {
                push_outline(symbols, outline_entry(&name.lexeme, copy_opt_string(type_annotation), SymbolKind::Variable, None));
            }
        },
        Statement::FunctionDeclaration { name, parameters, .. } => {
            if name.token_type == TokenType::Identifier {
                push_outline(
                    symbols,
                    outline_entry(&name.lexeme, Some(function_detail_text(parameters.len())), SymbolKind::Function, None),
                );
            }
        },
        Statement::Block(statements) => {
            nested_outline_of_all(statements, symbols);
        },
        _ => {},
    }
    assert(doc_symbols_view(symbols@) =~= s0 + nested_outline(*stmt));
}

/// The outline of a parsed document: its top-level functions, with their
/// parameters and the symbols of their bodies, and its top-level variables.
pub fn extract_document_symbols(ast: &Program, _uri: &str) -> (r: Vec<DocumentSymbol>)
    ensures
        doc_symbols_view(r@) == program_outline(ast.statements@),
{
    let ss = &ast.statements;
    let mut symbols: Vec<DocumentSymbol> = Vec::new();
    assert(doc_symbols_view(symbols@) =~= Seq::empty());
    let mut i: usize = 0;
    while i < ss.len()
        invariant
            i <= ss@.len(),
            ss == &ast.statements,
            doc_symbols_view(symbols@) == program_outline(ss@.take(i as int)),
        decreases ss@.len() - i,
    {
        assert(ss@.take(i + 1).drop_last() =~= ss@.take(i as int));
        let ghost s0 = doc_symbols_view(symbols@);
        match &ss[i] {
            Statement::FunctionDeclaration { name, parameters, body, .. } => {
                if name.token_type == TokenType::Identifier {
                    let mut children: Vec<DocumentSymbol> = Vec::new();
                    assert(doc_symbols_view(children@) =~= Seq::empty());
                    let mut k: usize = 0;
                    while k < parameters.len()
                        invariant
                            k <= parameters@.len(),
                            doc_symbols_view(children@) == param_outline(parameters@.take(k as int)),
                        decreases parameters@.len() - k,
                    {
                        assert(parameters@.take(k + 1).drop_last() =~= parameters@.take(k as int));
                        let param = &parameters[k].0;
                        if param.token_type == TokenType::Identifier {
                            push_outline(
                                &mut children,
                                outline_entry(&param.lexeme, Some(owned("parameter")), SymbolKind::Variable, None),
                            );
                        }
                        k = k + 1;
                    }
                    assert(parameters@.take(k as int) =~= parameters@);
                    nested_outline_of_all(body, &mut children);
                    push_outline(
                        &mut symbols,
                        outline_entry(
                            &name.lexeme,
                            Some(function_detail_text(parameters.len())),
                            SymbolKind::Function,
                            Some(children),
                        ),
                    );
                }
            },
            Statement::VariableDeclaration { name, type_annotation, .. } => {
                if name.token_type == TokenType::Identifier {
                    push_outline(
                        &mut symbols,
                        outline_entry(&name.lexeme, copy_opt_string(type_annotation), SymbolKind::Variable, None),
                    );
                }
            },
            _ => {},
        }
        assert(doc_symbols_view(symbols@) =~= s0 + top_outline(ss@[i as int]));
        i = i + 1;
    }
    assert(ss@.take(i as int) =~= ss@);
    symbols
}

/// The hover text for a keyword or literal, if the word is one.
pub open spec fn hover_text(word: Seq<char>) -> Option<Seq<char>> {
    if word == "def"@ {
        Some("def - Define a function\n\n```grease\ndef function_name(param1, param2):\n    # function body\n    return result\n```"@)
    } else if word == "if"@ {
        Some("if - Conditional statement\n\n```grease\nif condition:\n    # code to execute if condition is true\n```"@)
    } else if word == "while"@ {
        Some("while - Loop while condition is true\n\n```grease\nwhile condition:\n    # code to execute in each iteration\n```"@)
    } else if word == "for"@ {
        Some("for - Loop over iterable\n\n```grease\nfor item in iterable:\n    # code to execute for each item\n```"@)
    } else if word == "use"@ {
        Some("use - Import a module\n\n```grease\nuse math\nuse string as str\n```"@)
    } else if word == "return"@ {
        Some("return - Return a value from a function\n\n```grease\nreturn value\n```"@)
    } else if word == "and"@ || word == "or"@ || word == "not"@ {
        Some(word + " - Boolean operator"@)
    } else if word == "true"@ || word == "false"@ {
        Some(word + " - Boolean literal"@)
    } else if word == "null"@ {
        Some("null - Null value"@)
    } else {
        None
    }
}

/// The hover text for a keyword or literal, if the word is one.
pub fn get_hover_text(word: &str) -> (r: Option<String>)
    ensures
        opt_text(r) == hover_text(word@),
{
    if str_eq(word, "def") {
        Some(owned("def - Define a function\n\n```grease\ndef function_name(param1, param2):\n    # function body\n    return result\n```"))
    } else if str_eq(word, "if") {
        Some(owned("if - Conditional statement\n\n```grease\nif condition:\n    # code to execute if condition is true\n```"))
    } else if str_eq(word, "while") {
        Some(owned("while - Loop while condition is true\n\n```grease\nwhile condition:\n    # code to execute in each iteration\n```"))
    } else if str_eq(word, "for") {
        Some(owned("for - Loop over iterable\n\n```grease\nfor item in iterable:\n    # code to execute for each item\n```"))
    } else if str_eq(word, "use") {
        Some(owned("use - Import a module\n\n```grease\nuse math\nuse string as str\n```"))
    } else if str_eq(word, "return") {
        Some(owned("return - Return a value from a function\n\n```grease\nreturn value\n```"))
    } else if str_eq(word, "and") || str_eq(word, "or") || str_eq(word, "not") {
        let mut t = owned(word);
        append_str(&mut t, " - Boolean operator");
        Some(t)
    } else if str_eq(word, "true") || str_eq(word, "false") {
        let mut t = owned(word);
        append_str(&mut t, " - Boolean literal");
        Some(t)
    } else if str_eq(word, "null") {
        Some(owned("null - Null value"))
    } else {
        None
    }
}

/// Whether a character belongs to a word: alphanumeric or an underscore.
pub open spec fn word_char(c: char) -> bool {
    is_alpha_numeric(c) || c == '_'
}

/// Line `k` of a text, with the line break that ends it (the last line has none).
pub open spec fn line_text(text: Seq<char>, k: int) -> Seq<char> {
    let parts = split_on(text, '\n');
    if k + 1 < parts.len() {
        parts[k].push('\n')
    } else {
        parts[k]
    }
}

/// Where the word around index `i` of `l` starts: just after the last non-word
/// character before `i`, or 0.
pub open spec fn word_start(l: Seq<char>, i: int) -> int
    decreases i,
{
    if i <= 0 {
        0
    } else if !word_char(l[i - 1]) {
        i
    } else {
        word_start(l, i - 1)
    }
}

/// Where the word around index `i` of `l` ends: at the first non-word character
/// from `i` on, or at the end of `l`.
pub open spec fn word_end(l: Seq<char>, i: int) -> int
    decreases l.len() - i,
{
    if i >= l.len() {
        l.len() as int
    } else if !word_char(l[i]) {
        i
    } else {
        word_end(l, i + 1)
    }
}

/// The word under a position of a text: `None` past the last line, past the end of
/// the line, or where no word character surrounds the position.
pub open spec fn word_at(text: Seq<char>, p: Position) -> Option<Seq<char>> {
    if p.line >= split_on(text, '\n').len() {
        None
    } else {
        let l = line_text(text, p.line as int);
        if p.character >= l.len() {
            None
        } else {
            let s = word_start(l, p.character as int);
            let e = word_end(l, p.character as int);
            if s < e {
                Some(l.subrange(s, e))
            } else {
                None
            }
        }
    }
}

proof fn lemma_word_bounds(l: Seq<char>, i: int)
    requires
        0 <= i <= l.len(),
    ensures
        0 <= word_start(l, i) <= i,
        i <= word_end(l, i) <= l.len(),
        forall|j: int| word_start(l, i) <= j < i ==> word_char(#[trigger] l[j]),
        forall|j: int| i <= j < word_end(l, i) ==> word_char(#[trigger] l[j]),
{
    lemma_word_bounds_start(l, i);
    lemma_word_bounds_end(l, i);
}

proof fn lemma_word_bounds_start(l: Seq<char>, i: int)
    requires
        0 <= i <= l.len(),
    ensures
        0 <= word_start(l, i) <= i,
        forall|j: int| word_start(l, i) <= j < i ==> word_char(#[trigger] l[j]),
    decreases i,
{
    if i > 0 && word_char(l[i - 1]) {
        lemma_word_bounds_start(l, i - 1);
    }
}

proof fn lemma_word_bounds_end(l: Seq<char>, i: int)
    requires
        0 <= i <= l.len(),
    ensures
        i <= word_end(l, i) <= l.len(),
        forall|j: int| i <= j < word_end(l, i) ==> word_char(#[trigger] l[j]),
    decreases l.len() - i,
{
    if i < l.len() && word_char(l[i]) {
        lemma_word_bounds_end(l, i + 1);
    }
}

fn is_word_char(c: char) -> (r: bool)
    ensures
        r == word_char(c),
{
    c == '_' || char_is_alphanumeric(c)
}

/// The word under a position of a document's text, for hover and go-to-definition.
/// Lines are split at line feeds; the character offset counts characters.
pub fn get_word_at_position(text: &str, position: Position) -> (r: Option<String>)
    ensures
        opt_text(r) == word_at(text@, position),
        r matches Some(w) ==> w@.len() > 0 && forall|j: int| 0 <= j < w@.len() ==> word_char(#[trigger] w@[j]),
{
    let parts = split_char(text, '\n');
    let ghost pv = parts@.map_values(|p: String| p@);
    let k = position.line as usize;
    if k >= parts.len() {
        return None;
    }
    let mut line = parts[k].clone();
    if k + 1 < parts.len() {
        push_char(&mut line, '\n');
    }
    assert(pv[k as int] == parts@[k as int]@);
    assert(line@ == line_text(text@, k as int));
    let ghost l = line@;
    let n = line.unicode_len();
    let ch = position.character as usize;
    if ch >= n {
        return None;
    }
    proof {
        lemma_word_bounds(l, ch as int);
    }
    let mut s: usize = ch;
    let mut going = true;
    while going
        invariant
            l == line@,
            n == l.len(),
            s <= ch < n,
            word_start(l, ch as int) == word_start(l, s as int),
            !going ==> s == word_start(l, s as int),
        decreases s + (if going { 1int } else { 0int }),
    {
        if s == 0 {
            going = false;
        } else if !is_word_char(line.get_char(s - 1)) {
            going = false;
        } else {
            s = s - 1;
        }
    }
    let mut e: usize = ch;
    let mut going = true;
    while going
        invariant
            l == line@,
            n == l.len(),
            ch <= e <= n,
            word_end(l, ch as int) == word_end(l, e as int),
            !going ==> e == word_end(l, e as int),
        decreases n - e + (if going { 1int } else { 0int }),
    {
        if e >= n {
            going = false;
        } else if !is_word_char(line.get_char(e)) {
            going = false;
        } else {
            e = e + 1;
        }
    }
    if s < e {
        let w = substring(line.as_str(), s, e);
        assert forall|j: int| 0 <= j < w@.len() implies word_char(#[trigger] w@[j]) by {
            assert(w@[j] == l[s + j]);
            if s + j < ch {
            } else {
            }
        }
        Some(w)
    } else {
        None
    }
}

} // verus!
