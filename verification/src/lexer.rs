//! The lexer: source text to tokens, with significant indentation.
//!
//! Lexing is specified one token at a time by `scan_spec`, a step from one
//! `LexState` to the next, and as a whole by `lex`.

use vstd::prelude::*;
use crate::text::{
    is_white_space, is_alpha_numeric, is_numeric_char, decimal, char_is_whitespace,
    char_is_alphanumeric, char_is_numeric, usize_to_string, append_str, push_char, str_eq,
};
use crate::token::{Token, TokenType, SpecToken};

verus! {

/// White space that does not end a line.
pub open spec fn is_blank(c: char) -> bool {
    is_white_space(c) && c != '\n'
}

/// A character that may continue an identifier.
pub open spec fn is_ident_char(c: char) -> bool {
    is_alpha_numeric(c) || c == '_'
}

/// A character that starts an identifier or keyword.
pub open spec fn is_ident_start(c: char) -> bool {
    ('a' <= c && c <= 'z') || ('A' <= c && c <= 'Z') || c == '_'
}

/// The end of the run of blanks starting at `i`.
pub open spec fn blank_end(s: Seq<char>, i: int) -> int
    decreases s.len() - i,
{
    if 0 <= i < s.len() && is_blank(s[i]) {
        blank_end(s, i + 1)
    } else {
        i
    }
}

/// The position of the first line break at or after `i`, or the end.
pub open spec fn line_end(s: Seq<char>, i: int) -> int
    decreases s.len() - i,
{
    if 0 <= i < s.len() && s[i] != '\n' {
        line_end(s, i + 1)
    } else {
        i
    }
}

/// The end of the run of identifier characters starting at `i`.
pub open spec fn ident_end(s: Seq<char>, i: int) -> int
    decreases s.len() - i,
{
    if 0 <= i < s.len() && is_ident_char(s[i]) {
        ident_end(s, i + 1)
    } else {
        i
    }
}

/// The position of the first `q` or line break at or after `i`, or the end.
pub open spec fn quote_end(s: Seq<char>, i: int, q: char) -> int
    decreases s.len() - i,
{
    if 0 <= i < s.len() && s[i] != q && s[i] != '\n' {
        quote_end(s, i + 1, q)
    } else {
        i
    }
}

/// The end of a number starting at `i`: numeric characters and at most one dot.
pub open spec fn num_end(s: Seq<char>, i: int, seen_dot: bool) -> int
    decreases s.len() - i,
{
    if 0 <= i < s.len() && (is_numeric_char(s[i]) || s[i] == '.') {
        if s[i] == '.' {
            if seen_dot {
                i
            } else {
                num_end(s, i + 1, true)
            }
        } else {
            num_end(s, i + 1, seen_dot)
        }
    } else {
        i
    }
}

/// The indentation of the line starting at `i`: a space counts one, a tab four,
/// other blanks nothing.
pub open spec fn indent_width(s: Seq<char>, i: int) -> nat
    decreases s.len() - i,
{
    if 0 <= i < s.len() && is_blank(s[i]) {
        (if s[i] == ' ' {
            1nat
        } else if s[i] == '\t' {
            4nat
        } else {
            0nat
        }) + indent_width(s, i + 1)
    } else {
        0
    }
}

/// Scanning the body of an inline block from `i` with `depth` braces open:
/// where it stops, the line and column there, and the braces still open.
pub open spec fn block_scan(s: Seq<char>, i: int, depth: nat, line: int, col: int) -> (
    int,
    int,
    int,
    nat,
)
    decreases s.len() - i,
{
    if 0 <= i < s.len() && depth > 0 {
        if s[i] == '{' {
            block_scan(s, i + 1, depth + 1, line, col + 1)
        } else if s[i] == '}' {
            block_scan(s, i + 1, (depth - 1) as nat, line, col + 1)
        } else if s[i] == '\n' {
            block_scan(s, i + 1, depth, line + 1, 2)
        } else {
            block_scan(s, i + 1, depth, line, col + 1)
        }
    } else {
        (i, line, col, depth)
    }
}

/// Whether a number's text is one that `f64` parsing accepts: here, where it
/// starts with a digit and holds at most one dot, that all its characters are
/// ASCII digits or the dot.
pub open spec fn is_ascii_number(t: Seq<char>) -> bool {
    forall|k: int| 0 <= k < t.len() ==> (t[k] == '.' || ('0' <= t[k] && t[k] <= '9'))
}

/// The kind of a one-character token.
pub open spec fn single_kind(c: char) -> Option<TokenType> {
    if c == '(' {
        Some(TokenType::LeftParen)
    } else if c == ')' {
        Some(TokenType::RightParen)
    } else if c == '{' {
        Some(TokenType::LeftBrace)
    } else if c == '}' {
        Some(TokenType::RightBrace)
    } else if c == '[' {
        Some(TokenType::LeftBracket)
    } else if c == ']' {
        Some(TokenType::RightBracket)
    } else if c == ',' {
        Some(TokenType::Comma)
    } else if c == '.' {
        Some(TokenType::Dot)
    } else if c == ':' {
        Some(TokenType::Colon)
    } else if c == ';' {
        Some(TokenType::Semicolon)
    } else if c == '+' {
        Some(TokenType::Plus)
    } else if c == '-' {
        Some(TokenType::Minus)
    } else if c == '*' {
        Some(TokenType::Multiply)
    } else if c == '/' {
        Some(TokenType::Divide)
    } else if c == '%' {
        Some(TokenType::Modulo)
    } else {
        None
    }
}

/// The kind of `c` followed by `=`, for `=`, `!`, `<` and `>`.
pub open spec fn pair_kind(c: char) -> TokenType {
    if c == '=' {
        TokenType::Equal
    } else if c == '!' {
        TokenType::NotEqual
    } else if c == '<' {
        TokenType::LessEqual
    } else {
        TokenType::GreaterEqual
    }
}

/// The kind of `=`, `<` or `>` standing alone.
pub open spec fn lone_kind(c: char) -> TokenType {
    if c == '=' {
        TokenType::Assign
    } else if c == '<' {
        TokenType::Less
    } else {
        TokenType::Greater
    }
}

/// The kind of a word: a keyword's own kind, else `Identifier`.
pub open spec fn keyword_kind(t: Seq<char>) -> TokenType {
    if t == "def"@ {
        TokenType::Fn
    } else if t == "if"@ {
        TokenType::If
    } else if t == "elif"@ {
        TokenType::Elif
    } else if t == "else"@ {
        TokenType::Else
    } else if t == "while"@ {
        TokenType::While
    } else if t == "for"@ {
        TokenType::For
    } else if t == "in"@ {
        TokenType::In
    } else if t == "return"@ {
        TokenType::Return
    } else if t == "use"@ {
        TokenType::Use
    } else if t == "throw"@ {
        TokenType::Throw
    } else if t == "as"@ {
        TokenType::As
    } else if t == "true"@ {
        TokenType::True
    } else if t == "false"@ {
        TokenType::False
    } else if t == "null"@ {
        TokenType::Null
    } else if t == "class"@ {
        TokenType::Class
    } else if t == "new"@ {
        TokenType::New
    } else if t == "self"@ {
        TokenType::SelfKw
    } else if t == "super"@ {
        TokenType::Super
    } else if t == "and"@ {
        TokenType::And
    } else if t == "or"@ {
        TokenType::Or
    } else if t == "not"@ {
        TokenType::Not
    } else if t == "try"@ {
        TokenType::Try
    } else if t == "catch"@ {
        TokenType::Catch
    } else {
        TokenType::Identifier
    }
}

/// The characters that spell an operator or punctuation token.
pub open spec fn symbol_spelling(k: TokenType) -> Option<Seq<char>> {
    match k {
        TokenType::LeftParen => Some(seq!['(']),
        TokenType::RightParen => Some(seq![')']),
        TokenType::LeftBrace => Some(seq!['{']),
        TokenType::RightBrace => Some(seq!['}']),
        TokenType::LeftBracket => Some(seq!['[']),
        TokenType::RightBracket => Some(seq![']']),
        TokenType::Comma => Some(seq![',']),
        TokenType::Dot => Some(seq!['.']),
        TokenType::Colon => Some(seq![':']),
        TokenType::Semicolon => Some(seq![';']),
        TokenType::Plus => Some(seq!['+']),
        TokenType::Minus => Some(seq!['-']),
        TokenType::Multiply => Some(seq!['*']),
        TokenType::Divide => Some(seq!['/']),
        TokenType::Modulo => Some(seq!['%']),
        TokenType::Assign => Some(seq!['=']),
        TokenType::Less => Some(seq!['<']),
        TokenType::Greater => Some(seq!['>']),
        TokenType::Equal => Some(seq!['=', '=']),
        TokenType::NotEqual => Some(seq!['!', '=']),
        TokenType::LessEqual => Some(seq!['<', '=']),
        TokenType::GreaterEqual => Some(seq!['>', '=']),
        _ => None,
    }
}

/// Each operator and punctuation character lexes to the token it spells: a single
/// character to the kind spelled by it, `=`, `!`, `<`, `>` followed by `=` to the
/// kind spelled by the pair, and `=`, `<`, `>` alone to the kind spelled by them.
pub proof fn law_symbol_spelling(c: char)
    ensures
        single_kind(c) is Some ==> symbol_spelling(single_kind(c)->Some_0) == Some(seq![c]),
        (c == '=' || c == '!' || c == '<' || c == '>') ==> symbol_spelling(pair_kind(c)) == Some(seq![c, '=']),
        (c == '=' || c == '<' || c == '>') ==> symbol_spelling(lone_kind(c)) == Some(seq![c]),
{
}

/// The reserved word that spells a keyword token, for the keyword kinds.
pub open spec fn keyword_spelling(k: TokenType) -> Option<Seq<char>> {
    match k {
        TokenType::Fn => Some("def"@),
        TokenType::If => Some("if"@),
        TokenType::Elif => Some("elif"@),
        TokenType::Else => Some("else"@),
        TokenType::While => Some("while"@),
        TokenType::For => Some("for"@),
        TokenType::In => Some("in"@),
        TokenType::Return => Some("return"@),
        TokenType::Use => Some("use"@),
        TokenType::Throw => Some("throw"@),
        TokenType::As => Some("as"@),
        TokenType::True => Some("true"@),
        TokenType::False => Some("false"@),
        TokenType::Null => Some("null"@),
        TokenType::Class => Some("class"@),
        TokenType::New => Some("new"@),
        TokenType::SelfKw => Some("self"@),
        TokenType::Super => Some("super"@),
        TokenType::And => Some("and"@),
        TokenType::Or => Some("or"@),
        TokenType::Not => Some("not"@),
        TokenType::Try => Some("try"@),
        TokenType::Catch => Some("catch"@),
        _ => None,
    }
}

/// Each reserved word lexes to its own keyword: a word that gives a keyword kind is
/// that keyword's spelling, every keyword's spelling gives that keyword, and any
/// other word is an identifier. So no two reserved words share a kind.
pub proof fn law_keyword_spelling(w: Seq<char>, k: TokenType)
    ensures
        keyword_kind(w) != TokenType::Identifier ==> keyword_spelling(keyword_kind(w)) == Some(w),
        keyword_spelling(k) is Some ==> keyword_kind(keyword_spelling(k)->Some_0) == k,
        keyword_spelling(k) is None ==> keyword_kind(w) != k || k == TokenType::Identifier,
{
    reveal_strlit("def");
    assert("def"@.len() == 3 && "def"@[0] == 'd' && "def"@[1] == 'e' && "def"@[2] == 'f');
    reveal_strlit("if");
    assert("if"@.len() == 2 && "if"@[0] == 'i' && "if"@[1] == 'f');
    reveal_strlit("elif");
    assert("elif"@.len() == 4 && "elif"@[0] == 'e' && "elif"@[1] == 'l' && "elif"@[2] == 'i' && "elif"@[3] == 'f');
    reveal_strlit("else");
    assert("else"@.len() == 4 && "else"@[0] == 'e' && "else"@[1] == 'l' && "else"@[2] == 's' && "else"@[3] == 'e');
    reveal_strlit("while");
    assert("while"@.len() == 5 && "while"@[0] == 'w' && "while"@[1] == 'h' && "while"@[2] == 'i' && "while"@[3] == 'l' && "while"@[4] == 'e');
    reveal_strlit("for");
    assert("for"@.len() == 3 && "for"@[0] == 'f' && "for"@[1] == 'o' && "for"@[2] == 'r');
    reveal_strlit("in");
    assert("in"@.len() == 2 && "in"@[0] == 'i' && "in"@[1] == 'n');
    reveal_strlit("return");
    assert("return"@.len() == 6 && "return"@[0] == 'r' && "return"@[1] == 'e' && "return"@[2] == 't' && "return"@[3] == 'u' && "return"@[4] == 'r' && "return"@[5] == 'n');
    reveal_strlit("use");
    assert("use"@.len() == 3 && "use"@[0] == 'u' && "use"@[1] == 's' && "use"@[2] == 'e');
    reveal_strlit("throw");
    assert("throw"@.len() == 5 && "throw"@[0] == 't' && "throw"@[1] == 'h' && "throw"@[2] == 'r' && "throw"@[3] == 'o' && "throw"@[4] == 'w');
    reveal_strlit("as");
    assert("as"@.len() == 2 && "as"@[0] == 'a' && "as"@[1] == 's');
    reveal_strlit("true");
    assert("true"@.len() == 4 && "true"@[0] == 't' && "true"@[1] == 'r' && "true"@[2] == 'u' && "true"@[3] == 'e');
    reveal_strlit("false");
    assert("false"@.len() == 5 && "false"@[0] == 'f' && "false"@[1] == 'a' && "false"@[2] == 'l' && "false"@[3] == 's' && "false"@[4] == 'e');
    reveal_strlit("null");
    assert("null"@.len() == 4 && "null"@[0] == 'n' && "null"@[1] == 'u' && "null"@[2] == 'l' && "null"@[3] == 'l');
    reveal_strlit("class");
    assert("class"@.len() == 5 && "class"@[0] == 'c' && "class"@[1] == 'l' && "class"@[2] == 'a' && "class"@[3] == 's' && "class"@[4] == 's');
    reveal_strlit("new");
    assert("new"@.len() == 3 && "new"@[0] == 'n' && "new"@[1] == 'e' && "new"@[2] == 'w');
    reveal_strlit("self");
    assert("self"@.len() == 4 && "self"@[0] == 's' && "self"@[1] == 'e' && "self"@[2] == 'l' && "self"@[3] == 'f');
    reveal_strlit("super");
    assert("super"@.len() == 5 && "super"@[0] == 's' && "super"@[1] == 'u' && "super"@[2] == 'p' && "super"@[3] == 'e' && "super"@[4] == 'r');
    reveal_strlit("and");
    assert("and"@.len() == 3 && "and"@[0] == 'a' && "and"@[1] == 'n' && "and"@[2] == 'd');
    reveal_strlit("or");
    assert("or"@.len() == 2 && "or"@[0] == 'o' && "or"@[1] == 'r');
    reveal_strlit("not");
    assert("not"@.len() == 3 && "not"@[0] == 'n' && "not"@[1] == 'o' && "not"@[2] == 't');
    reveal_strlit("try");
    assert("try"@.len() == 3 && "try"@[0] == 't' && "try"@[1] == 'r' && "try"@[2] == 'y');
    reveal_strlit("catch");
    assert("catch"@.len() == 5 && "catch"@[0] == 'c' && "catch"@[1] == 'a' && "catch"@[2] == 't' && "catch"@[3] == 'c' && "catch"@[4] == 'h');
}

/// A word of the source becomes a token whose text is the word, and whose kind is a
/// keyword exactly when the word is that keyword's spelling.
pub proof fn law_word_token_spelled(s: Seq<char>, st: LexState)
    requires
        0 <= st.pos < s.len(),
        is_ident_start(s[st.pos]),
        !is_inline_keyword(s.subrange(st.pos, ident_end(s, st.pos + 1))),
    ensures
        word_step(s, st).0 matches Scan::Emit(t) && t.lexeme == s.subrange(st.pos, ident_end(s, st.pos + 1)) && (
        t.kind == TokenType::Identifier || keyword_spelling(t.kind) == Some(t.lexeme)),
{
    law_keyword_spelling(s.subrange(st.pos, ident_end(s, st.pos + 1)), TokenType::Identifier);
}

/// A token is spelled by its text: a keyword's text is its reserved word, and an
/// operator's or punctuation's text is its characters.
pub open spec fn spelled_by_text(t: SpecToken) -> bool {
    &&& keyword_spelling(t.kind) is Some ==> keyword_spelling(t.kind) == Some(t.lexeme)
    &&& symbol_spelling(t.kind) is Some ==> symbol_spelling(t.kind) == Some(t.lexeme)
}

/// Every token a lexing step gives is spelled by its text: the text of each keyword
/// token is that keyword's reserved word, and the text of each operator token is
/// that operator's characters.
pub proof fn law_scan_tokens_spelled(s: Seq<char>, st: LexState)
    requires
        0 <= st.pos <= s.len(),
    ensures
        scan_spec(s, st).0 matches Scan::Emit(t) ==> spelled_by_text(t),
{
    let p = blank_end(s, st.pos);
    lemma_blank_end(s, st.pos);
    if p < s.len() {
        let c = s[p];
        law_symbol_spelling(c);
        assert(s.subrange(p, p + 1) =~= seq![c]);
        if p + 1 < s.len() {
            assert(s.subrange(p, p + 2) =~= seq![c, s[p + 1]]);
        }
        if is_ident_start(c) && single_kind(c) is None {
            lemma_ident_end(s, p + 1);
            law_keyword_spelling(s.subrange(p, ident_end(s, p + 1)), TokenType::Identifier);
        }
    }
}

/// The words that open an inline block when a `{` follows them.
pub open spec fn is_inline_keyword(t: Seq<char>) -> bool {
    t == "rust"@ || t == "asm"@
}

pub open spec fn unexpected_msg(c: char, line: int, col: int) -> Seq<char> {
    "Unexpected character '"@ + seq![c] + "' at line "@ + decimal(line as nat) + ", column "@
        + decimal(col as nat)
}

pub open spec fn unterminated_string_msg(line: int) -> Seq<char> {
    "Unterminated string at line "@ + decimal(line as nat)
}

pub open spec fn invalid_number_msg(t: Seq<char>, line: int, col: int) -> Seq<char> {
    "Invalid number '"@ + t + "' at line "@ + decimal(line as nat) + ", column "@ + decimal(
        col as nat,
    )
}

pub open spec fn unterminated_block_msg(keyword: Seq<char>, line: int) -> Seq<char> {
    "Unterminated inline "@ + keyword + " block at line "@ + decimal(line as nat)
}

/// Where the lexer stands: position, line, column and the stack of indentations.
pub struct LexState {
    pub pos: int,
    pub line: int,
    pub column: int,
    pub stack: Seq<usize>,
}

/// What one scanning step gives: nothing (blanks, a comment), a token, or an error.
pub enum Scan {
    Skip,
    Emit(SpecToken),
    Fail(Seq<char>),
}

pub open spec fn tok(kind: TokenType, lexeme: Seq<char>, line: int, col: int) -> SpecToken {
    SpecToken { kind, lexeme, line: line as nat, column: col as nat }
}

pub open spec fn at(st: LexState, pos: int, line: int, column: int) -> LexState {
    LexState { pos, line, column, stack: st.stack }
}

/// A comment: everything up to the end of the line.
pub open spec fn comment_step(s: Seq<char>, st: LexState) -> (Scan, LexState) {
    let e = line_end(s, st.pos);
    (Scan::Skip, at(st, e, st.line, st.column + (e - st.pos)))
}

/// `=`, `!`, `<` or `>`, alone or followed by `=`; `!` alone is an error.
pub open spec fn operator_step(s: Seq<char>, st: LexState) -> (Scan, LexState) {
    let p = st.pos;
    let c = s[p];
    let line = st.line;
    let col = st.column;
    if p + 1 < s.len() && s[p + 1] == '=' {
        (
            Scan::Emit(tok(pair_kind(c), s.subrange(p, p + 2), line, col + 2)),
            at(st, p + 2, line, col + 2),
        )
    } else if c == '!' {
        (Scan::Fail(unexpected_msg(c, line, col + 1)), at(st, p + 1, line, col + 1))
    } else {
        (
            Scan::Emit(tok(lone_kind(c), s.subrange(p, p + 1), line, col + 1)),
            at(st, p + 1, line, col + 1),
        )
    }
}

/// A string between quotes on one line.
pub open spec fn string_step(s: Seq<char>, st: LexState) -> (Scan, LexState) {
    let p = st.pos;
    let q = quote_end(s, p + 1, s[p]);
    let col2 = st.column + 1 + (q - (p + 1));
    if q >= s.len() || s[q] == '\n' {
        (Scan::Fail(unterminated_string_msg(st.line)), at(st, q, st.line, col2))
    } else {
        (
            Scan::Emit(tok(TokenType::String, s.subrange(p + 1, q), st.line, col2 + 1)),
            at(st, q + 1, st.line, col2 + 1),
        )
    }
}

/// A number: its text must be one that `f64` parsing accepts.
pub open spec fn number_step(s: Seq<char>, st: LexState) -> (Scan, LexState) {
    let p = st.pos;
    let q = num_end(s, p + 1, false);
    let t = s.subrange(p, q);
    let col2 = st.column + (q - p);
    if is_ascii_number(t) {
        (Scan::Emit(tok(TokenType::Number, t, st.line, col2)), at(st, q, st.line, col2))
    } else {
        (Scan::Fail(invalid_number_msg(t, st.line, col2)), at(st, q, st.line, col2))
    }
}

/// A word: a keyword, an identifier, or `rust`/`asm` opening an inline block.
pub open spec fn word_step(s: Seq<char>, st: LexState) -> (Scan, LexState) {
    let p = st.pos;
    let line = st.line;
    let col = st.column;
    let e = ident_end(s, p + 1);
    let t = s.subrange(p, e);
    let n = e - p;
    if is_inline_keyword(t) {
        let w = blank_end(s, e);
        if w < s.len() && s[w] == '{' {
            let r = block_scan(s, w + 1, 1, line, col + 3 * n + 2 * (w - e) + 1);
            if r.3 > 0 {
                (Scan::Fail(unterminated_block_msg(t, r.1)), at(st, r.0, r.1, r.2))
            } else {
                let kind = if t == "rust"@ {
                    TokenType::RustInline
                } else {
                    TokenType::AsmInline
                };
                (Scan::Emit(tok(kind, s.subrange(w + 1, r.0 - 1), r.1, r.2)), at(st, r.0, r.1, r.2))
            }
        } else {
            let col2 = col + 3 * n + (w - e);
            (Scan::Emit(tok(keyword_kind(t), t, line, col2)), at(st, e, line, col2))
        }
    } else {
        let col2 = col + 2 * n;
        (Scan::Emit(tok(keyword_kind(t), t, line, col2)), at(st, e, line, col2))
    }
}

/// A line break, then the next line's indentation against the innermost open one.
pub open spec fn newline_step(s: Seq<char>, st: LexState) -> (Scan, LexState) {
    let p = st.pos;
    let line = st.line;
    let w = indent_width(s, p + 1);
    let top = st.stack.last();
    if w > top {
        (
            Scan::Emit(tok(TokenType::Indent, Seq::empty(), line + 1, 1)),
            LexState { pos: p + 1, line: line + 1, column: 1, stack: st.stack.push(w as usize) },
        )
    } else if w < top {
        (
            Scan::Emit(tok(TokenType::Dedent, Seq::empty(), line + 1, 1)),
            LexState { pos: p + 1, line: line + 1, column: 1, stack: st.stack.drop_last() },
        )
    } else {
        (
            Scan::Emit(tok(TokenType::Newline, s.subrange(p, p + 1), line + 1, 1)),
            LexState { pos: p + 1, line: line + 1, column: 1, stack: st.stack },
        )
    }
}

/// One step of the lexer at a character that is not a blank.
pub open spec fn scan_at(s: Seq<char>, st: LexState) -> (Scan, LexState) {
    let p = st.pos;
    let c = s[p];
    if single_kind(c) is Some {
        (
            Scan::Emit(tok(single_kind(c)->0, s.subrange(p, p + 1), st.line, st.column + 1)),
            at(st, p + 1, st.line, st.column + 1),
        )
    } else if c == '#' {
        comment_step(s, st)
    } else if c == '=' || c == '!' || c == '<' || c == '>' {
        operator_step(s, st)
    } else if c == '"' || c == '\'' {
        string_step(s, st)
    } else if '0' <= c && c <= '9' {
        number_step(s, st)
    } else if is_ident_start(c) {
        word_step(s, st)
    } else if c == '\n' {
        newline_step(s, st)
    } else {
        (Scan::Fail(unexpected_msg(c, st.line, st.column)), st)
    }
}

/// One step of the lexer from `st`: blanks are skipped first, then one token,
/// comment or error is read. Line and column are those after the token's last
/// character; the column counts the characters the lexer stepped over, and a word
/// is stepped over twice (once to look for an inline block), `rust` and `asm` three
/// times.
pub open spec fn scan_spec(s: Seq<char>, st: LexState) -> (Scan, LexState) {
    let p = blank_end(s, st.pos);
    let here = at(st, p, st.line, st.column + (p - st.pos));
    if p >= s.len() {
        (Scan::Skip, here)
    } else {
        scan_at(s, here)
    }
}

/// The tokens that close the input: a `Dedent` for each open indentation, then `EOF`.
pub open spec fn closing_tokens(st: LexState) -> Seq<SpecToken> {
    Seq::new(
        (st.stack.len() - 1) as nat,
        |k: int| tok(TokenType::Dedent, Seq::empty(), st.line, st.column),
    ).push(tok(TokenType::EOF, Seq::empty(), st.line, st.column))
}

/// Lexing the rest of the input from `st`, after the tokens `acc`.
pub open spec fn tokenize_from(s: Seq<char>, st: LexState, acc: Seq<SpecToken>) -> Result<
    Seq<SpecToken>,
    Seq<char>,
>
    decreases s.len() - st.pos,
{
    if st.pos >= s.len() || st.pos < 0 {
        Ok(acc + closing_tokens(st))
    } else {
        let (r, next) = scan_spec(s, st);
        match r {
            Scan::Fail(m) => Err(m),
            Scan::Skip => {
                proof {
                    lemma_scan_advances(s, st);
                }
                tokenize_from(s, next, acc)
            },
            Scan::Emit(t) => {
                proof {
                    lemma_scan_advances(s, st);
                }
                tokenize_from(s, next, acc.push(t))
            },
        }
    }
}

/// The lexer's state at the start of an input.
pub open spec fn initial_state() -> LexState {
    LexState { pos: 0, line: 1, column: 1, stack: seq![0usize] }
}

/// The tokens of a whole source text, or the first error.
pub open spec fn lex(s: Seq<char>) -> Result<Seq<SpecToken>, Seq<char>> {
    tokenize_from(s, initial_state(), Seq::empty())
}

proof fn lemma_blank_end(s: Seq<char>, i: int)
    requires
        0 <= i <= s.len(),
    ensures
        i <= blank_end(s, i) <= s.len(),
        blank_end(s, i) < s.len() ==> !is_blank(s[blank_end(s, i)]),
    decreases s.len() - i,
{
    if i < s.len() && is_blank(s[i]) {
        lemma_blank_end(s, i + 1);
    }
}

proof fn lemma_line_end(s: Seq<char>, i: int)
    requires
        0 <= i <= s.len(),
    ensures
        i <= line_end(s, i) <= s.len(),
        line_end(s, i) < s.len() ==> s[line_end(s, i)] == '\n',
    decreases s.len() - i,
{
    if i < s.len() && s[i] != '\n' {
        lemma_line_end(s, i + 1);
    }
}

proof fn lemma_ident_end(s: Seq<char>, i: int)
    requires
        0 <= i <= s.len(),
    ensures
        i <= ident_end(s, i) <= s.len(),
    decreases s.len() - i,
{
    if i < s.len() && is_ident_char(s[i]) {
        lemma_ident_end(s, i + 1);
    }
}

proof fn lemma_quote_end(s: Seq<char>, i: int, q: char)
    requires
        0 <= i <= s.len(),
    ensures
        i <= quote_end(s, i, q) <= s.len(),
        quote_end(s, i, q) < s.len() ==> (s[quote_end(s, i, q)] == q || s[quote_end(s, i, q)]
            == '\n'),
    decreases s.len() - i,
{
    if i < s.len() && s[i] != q && s[i] != '\n' {
        lemma_quote_end(s, i + 1, q);
    }
}

proof fn lemma_num_end(s: Seq<char>, i: int, d: bool)
    requires
        0 <= i <= s.len(),
    ensures
        i <= num_end(s, i, d) <= s.len(),
    decreases s.len() - i,
{
    if i < s.len() && (is_numeric_char(s[i]) || s[i] == '.') {
        if s[i] == '.' {
            if !d {
                lemma_num_end(s, i + 1, true);
            }
        } else {
            lemma_num_end(s, i + 1, d);
        }
    }
}

proof fn lemma_block_scan(s: Seq<char>, i: int, depth: nat, line: int, col: int)
    requires
        0 <= i <= s.len(),
    ensures
        i <= block_scan(s, i, depth, line, col).0 <= s.len(),
    decreases s.len() - i,
{
    if 0 <= i < s.len() && depth > 0 {
        if s[i] == '{' {
            lemma_block_scan(s, i + 1, depth + 1, line, col + 1);
        } else if s[i] == '}' {
            lemma_block_scan(s, i + 1, (depth - 1) as nat, line, col + 1);
        } else if s[i] == '\n' {
            lemma_block_scan(s, i + 1, depth, line + 1, 2);
        } else {
            lemma_block_scan(s, i + 1, depth, line, col + 1);
        }
    }
}

/// A step that does not fail moves forward and stays within the input.
pub proof fn lemma_scan_advances(s: Seq<char>, st: LexState)
    requires
        0 <= st.pos < s.len(),
    ensures
        !(scan_spec(s, st).0 is Fail) ==> st.pos < scan_spec(s, st).1.pos <= s.len(),
{
    let p = blank_end(s, st.pos);
    lemma_blank_end(s, st.pos);
    if p < s.len() {
        let c = s[p];
        let col = st.column + (p - st.pos);
        lemma_line_end(s, p);
        lemma_quote_end(s, p + 1, c);
        lemma_num_end(s, p + 1, false);
        lemma_ident_end(s, p + 1);
        let e = ident_end(s, p + 1);
        lemma_blank_end(s, e);
        let w = blank_end(s, e);
        if w < s.len() {
            lemma_block_scan(s, w + 1, 1, st.line, col + 3 * (e - p) + 2 * (w - e) + 1);
        }
    }
}

/// A stack of indentations as the lexer keeps it: it starts at zero, strictly
/// increases, and stays within what the input can give.
pub open spec fn stack_ok(stack: Seq<usize>, len: int) -> bool {
    &&& stack.len() >= 1
    &&& stack[0] == 0
    &&& forall|i: int, j: int| 0 <= i < j < stack.len() ==> stack[i] < stack[j]
    &&& forall|i: int| 0 <= i < stack.len() ==> stack[i] <= 4 * len
}

/// The states the lexer can reach on an input: the line and column stay within
/// what the characters read so far can give.
pub open spec fn state_ok(s: Seq<char>, st: LexState) -> bool {
    &&& s.len() <= usize::MAX / 8
    &&& 0 <= st.pos <= s.len()
    &&& 1 <= st.line <= st.pos + 1
    &&& 1 <= st.column <= 3 * st.pos + 1 + (blank_end(s, st.pos) - st.pos)
    &&& stack_ok(st.stack, s.len() as int)
}

proof fn lemma_block_scan_bounds(s: Seq<char>, i: int, depth: nat, line: int, col: int)
    requires
        0 <= i <= s.len(),
        1 <= col <= 3 * i + 1,
        line >= 1,
    ensures
        ({
            let r = block_scan(s, i, depth, line, col);
            &&& i <= r.0 <= s.len()
            &&& 1 <= r.2 <= 3 * r.0 + 1
            &&& line <= r.1 <= line + (r.0 - i)
            &&& (r.3 == 0 && depth > 0 ==> r.0 > i)
        }),
    decreases s.len() - i,
{
    if 0 <= i < s.len() && depth > 0 {
        if s[i] == '{' {
            lemma_block_scan_bounds(s, i + 1, depth + 1, line, col + 1);
        } else if s[i] == '}' {
            lemma_block_scan_bounds(s, i + 1, (depth - 1) as nat, line, col + 1);
        } else if s[i] == '\n' {
            lemma_block_scan_bounds(s, i + 1, depth, line + 1, 2);
        } else {
            lemma_block_scan_bounds(s, i + 1, depth, line, col + 1);
        }
    }
}

proof fn lemma_indent_width(s: Seq<char>, i: int)
    requires
        0 <= i <= s.len(),
    ensures
        indent_width(s, i) <= 4 * (s.len() - i),
    decreases s.len() - i,
{
    if i < s.len() && is_blank(s[i]) {
        lemma_indent_width(s, i + 1);
    }
}

fn unexpected_message(c: char, line: usize, col: usize) -> (r: String)
    ensures
        r@ == unexpected_msg(c, line as int, col as int),
{
    let mut m = String::new();
    append_str(&mut m, "Unexpected character '");
    push_char(&mut m, c);
    append_str(&mut m, "' at line ");
    append_str(&mut m, usize_to_string(line).as_str());
    append_str(&mut m, ", column ");
    append_str(&mut m, usize_to_string(col).as_str());
    m
}

fn unterminated_string_message(line: usize) -> (r: String)
    ensures
        r@ == unterminated_string_msg(line as int),
{
    let mut m = String::new();
    append_str(&mut m, "Unterminated string at line ");
    append_str(&mut m, usize_to_string(line).as_str());
    m
}

fn invalid_number_message(t: &str, line: usize, col: usize) -> (r: String)
    ensures
        r@ == invalid_number_msg(t@, line as int, col as int),
{
    let mut m = String::new();
    append_str(&mut m, "Invalid number '");
    append_str(&mut m, t);
    append_str(&mut m, "' at line ");
    append_str(&mut m, usize_to_string(line).as_str());
    append_str(&mut m, ", column ");
    append_str(&mut m, usize_to_string(col).as_str());
    m
}

fn unterminated_block_message(keyword: &str, line: usize) -> (r: String)
    ensures
        r@ == unterminated_block_msg(keyword@, line as int),
{
    let mut m = String::new();
    append_str(&mut m, "Unterminated inline ");
    append_str(&mut m, keyword);
    append_str(&mut m, " block at line ");
    append_str(&mut m, usize_to_string(line).as_str());
    m
}

/// The kind of a word, as `keyword_kind` gives it.
fn word_kind(t: &str) -> (k: TokenType)
    ensures
        k == keyword_kind(t@),
{
    if str_eq(t, "def") {
        TokenType::Fn
    } else if str_eq(t, "if") {
        TokenType::If
    } else if str_eq(t, "elif") {
        TokenType::Elif
    } else if str_eq(t, "else") {
        TokenType::Else
    } else if str_eq(t, "while") {
        TokenType::While
    } else if str_eq(t, "for") {
        TokenType::For
    } else if str_eq(t, "in") {
        TokenType::In
    } else if str_eq(t, "return") {
        TokenType::Return
    } else if str_eq(t, "use") {
        TokenType::Use
    } else if str_eq(t, "throw") {
        TokenType::Throw
    } else if str_eq(t, "as") {
        TokenType::As
    } else if str_eq(t, "true") {
        TokenType::True
    } else if str_eq(t, "false") {
        TokenType::False
    } else if str_eq(t, "null") {
        TokenType::Null
    } else if str_eq(t, "class") {
        TokenType::Class
    } else if str_eq(t, "new") {
        TokenType::New
    } else if str_eq(t, "self") {
        TokenType::SelfKw
    } else if str_eq(t, "super") {
        TokenType::Super
    } else if str_eq(t, "and") {
        TokenType::And
    } else if str_eq(t, "or") {
        TokenType::Or
    } else if str_eq(t, "not") {
        TokenType::Not
    } else if str_eq(t, "try") {
        TokenType::Try
    } else if str_eq(t, "catch") {
        TokenType::Catch
    } else {
        TokenType::Identifier
    }
}

/// Whether every character of a number's text is an ASCII digit or the dot.
fn ascii_number(t: &str) -> (r: bool)
    ensures
        r == is_ascii_number(t@),
{
    let n = t.unicode_len();
    let mut i: usize = 0;
    while i < n
        invariant
            n == t@.len(),
            i <= n,
            forall|k: int| 0 <= k < i ==> (t@[k] == '.' || ('0' <= t@[k] && t@[k] <= '9')),
        decreases n - i,
    {
        let c = t.get_char(i);
        if !(c == '.' || ('0' <= c && c <= '9')) {
            return false;
        }
        i = i + 1;
    }
    true
}

/// A token result as mathematical values.
pub open spec fn token_result(r: Result<Token, String>) -> Result<SpecToken, Seq<char>> {
    match r {
        Ok(t) => Ok(t@),
        Err(m) => Err(m@),
    }
}

/// A scanning result as mathematical values.
pub open spec fn scan_result(r: Result<Option<Token>, String>) -> Scan {
    match r {
        Ok(None) => Scan::Skip,
        Ok(Some(t)) => Scan::Emit(t@),
        Err(m) => Scan::Fail(m@),
    }
}

/// Each step keeps the lexer's state within what the input can give.
pub proof fn lemma_scan_keeps_state_ok(s: Seq<char>, st: LexState)
    requires
        state_ok(s, st),
    ensures
        state_ok(s, scan_spec(s, st).1),
{
    let p = blank_end(s, st.pos);
    lemma_blank_end(s, st.pos);
    let col = st.column + (p - st.pos);
    assert(col <= 3 * p + 1);
    if p < s.len() {
        let c = s[p];
        lemma_line_end(s, p);
        lemma_quote_end(s, p + 1, c);
        lemma_num_end(s, p + 1, false);
        lemma_ident_end(s, p + 1);
        lemma_blank_end(s, p + 1);
        if p + 2 <= s.len() {
            lemma_blank_end(s, p + 2);
        }
        let e = ident_end(s, p + 1);
        lemma_blank_end(s, e);
        let w = blank_end(s, e);
        let q = quote_end(s, p + 1, c);
        lemma_blank_end(s, q);
        if q + 1 <= s.len() {
            lemma_blank_end(s, q + 1);
        }
        lemma_blank_end(s, line_end(s, p));
        lemma_blank_end(s, num_end(s, p + 1, false));
        if w < s.len() {
            lemma_block_scan_bounds(s, w + 1, 1, st.line, col + 3 * (e - p) + 2 * (w - e) + 1);
            lemma_blank_end(s, block_scan(s, w + 1, 1, st.line, col + 3 * (e - p) + 2 * (w - e) + 1).0);
        }
        if c == '\n' {
            lemma_indent_width(s, p + 1);
            let iw = indent_width(s, p + 1);
            let stack = st.stack;
            if iw > stack.last() {
                let ns = stack.push(iw as usize);
                assert forall|i: int, j: int| 0 <= i < j < ns.len() implies ns[i] < ns[j] by {
                    if j == ns.len() - 1 {
                        if i < stack.len() - 1 {
                            assert(stack[i] < stack[stack.len() - 1]);
                        }
                    }
                }
            } else if iw < stack.last() {
                assert(stack.len() >= 2);
            }
        }
    }
}

/// The kind of a one-character token, as `single_kind` gives it.
fn single_char_kind(c: char) -> (k: Option<TokenType>)
    ensures
        k == single_kind(c),
{
    match c {
        '(' => Some(TokenType::LeftParen),
        ')' => Some(TokenType::RightParen),
        '{' => Some(TokenType::LeftBrace),
        '}' => Some(TokenType::RightBrace),
        '[' => Some(TokenType::LeftBracket),
        ']' => Some(TokenType::RightBracket),
        ',' => Some(TokenType::Comma),
        '.' => Some(TokenType::Dot),
        ':' => Some(TokenType::Colon),
        ';' => Some(TokenType::Semicolon),
        '+' => Some(TokenType::Plus),
        '-' => Some(TokenType::Minus),
        '*' => Some(TokenType::Multiply),
        '/' => Some(TokenType::Divide),
        '%' => Some(TokenType::Modulo),
        _ => None,
    }
}

/// A token list as mathematical values.
pub open spec fn tokens_result(r: Result<Vec<Token>, String>) -> Result<Seq<SpecToken>, Seq<char>> {
    match r {
        Ok(v) => Ok(v@.map_values(|t: Token| t@)),
        Err(m) => Err(m@),
    }
}

/// How many of `toks` are of kind `k`.
pub open spec fn count_kind(toks: Seq<SpecToken>, k: TokenType) -> nat
    decreases toks.len(),
{
    if toks.len() == 0 {
        0
    } else {
        count_kind(toks.drop_last(), k) + if toks.last().kind == k {
            1nat
        } else {
            0nat
        }
    }
}

proof fn lemma_count_concat(a: Seq<SpecToken>, b: Seq<SpecToken>, k: TokenType)
    ensures
        count_kind(a + b, k) == count_kind(a, k) + count_kind(b, k),
    decreases b.len(),
{
    if b.len() > 0 {
        lemma_count_concat(a, b.drop_last(), k);
        assert((a + b).drop_last() =~= a + b.drop_last());
    } else {
        assert(a + b =~= a);
    }
}

proof fn lemma_count_same(n: nat, t: SpecToken, k: TokenType)
    ensures
        count_kind(Seq::new(n, |i: int| t), k) == if t.kind == k {
            n
        } else {
            0
        },
    decreases n,
{
    if n > 0 {
        lemma_count_same((n - 1) as nat, t, k);
        assert(Seq::new(n, |i: int| t).drop_last() =~= Seq::new((n - 1) as nat, |i: int| t));
    }
}

/// What a step does to the stack of indentations, by the kind of token it gives.
proof fn lemma_scan_stack(s: Seq<char>, st: LexState)
    requires
        state_ok(s, st),
        st.pos < s.len(),
    ensures
        ({
            let (r, n) = scan_spec(s, st);
            &&& r is Emit && r->Emit_0.kind == TokenType::Indent ==> n.stack.len() == st.stack.len() + 1
            &&& r is Emit && r->Emit_0.kind == TokenType::Dedent ==> n.stack.len() + 1 == st.stack.len()
            &&& r is Emit && r->Emit_0.kind != TokenType::Indent && r->Emit_0.kind != TokenType::Dedent
                ==> n.stack.len() == st.stack.len()
            &&& r is Skip ==> n.stack.len() == st.stack.len()
            &&& r is Emit ==> r->Emit_0.kind != TokenType::EOF
        }),
{
}

proof fn lemma_tokenize_shape(s: Seq<char>, st: LexState, acc: Seq<SpecToken>)
    requires
        state_ok(s, st),
        count_kind(acc, TokenType::Indent) + 1 == count_kind(acc, TokenType::Dedent)
            + st.stack.len(),
        forall|i: int| 0 <= i < acc.len() ==> acc[i].kind != TokenType::EOF,
    ensures
        tokenize_from(s, st, acc) is Ok ==> ({
            let t = tokenize_from(s, st, acc)->Ok_0;
            &&& count_kind(t, TokenType::Indent) == count_kind(t, TokenType::Dedent)
            &&& t.len() >= 1
            &&& t.last().kind == TokenType::EOF
            &&& forall|i: int| 0 <= i < t.len() - 1 ==> t[i].kind != TokenType::EOF
        }),
    decreases s.len() - st.pos,
{
    if st.pos >= s.len() || st.pos < 0 {
        let d = tok(TokenType::Dedent, Seq::empty(), st.line, st.column);
        let e = tok(TokenType::EOF, Seq::empty(), st.line, st.column);
        let ds = Seq::new((st.stack.len() - 1) as nat, |k: int| d);
        let t = acc + closing_tokens(st);
        assert(closing_tokens(st) =~= ds + seq![e]);
        assert(t =~= (acc + ds) + seq![e]);
        lemma_count_same((st.stack.len() - 1) as nat, d, TokenType::Indent);
        lemma_count_same((st.stack.len() - 1) as nat, d, TokenType::Dedent);
        lemma_count_concat(acc, ds, TokenType::Indent);
        lemma_count_concat(acc, ds, TokenType::Dedent);
        lemma_count_concat(acc + ds, seq![e], TokenType::Indent);
        lemma_count_concat(acc + ds, seq![e], TokenType::Dedent);
        assert(seq![e].drop_last() =~= Seq::<SpecToken>::empty());
        assert forall|i: int| 0 <= i < t.len() - 1 implies t[i].kind != TokenType::EOF by {
            if i >= acc.len() {
                assert(t[i] == d);
            }
        }
        assert(count_kind(Seq::<SpecToken>::empty(), TokenType::Indent) == 0);
        assert(count_kind(Seq::<SpecToken>::empty(), TokenType::Dedent) == 0);
        assert(count_kind(seq![e], TokenType::Indent) == 0);
        assert(count_kind(seq![e], TokenType::Dedent) == 0);
        assert(count_kind(t, TokenType::Indent) == count_kind(t, TokenType::Dedent));
        assert(t.last().kind == TokenType::EOF);
    } else {
        let (r, next) = scan_spec(s, st);
        lemma_scan_advances(s, st);
        lemma_scan_keeps_state_ok(s, st);
        lemma_scan_stack(s, st);
        match r {
            Scan::Fail(m) => {},
            Scan::Skip => {
                lemma_tokenize_shape(s, next, acc);
            },
            Scan::Emit(tk) => {
                lemma_count_concat(acc, seq![tk], TokenType::Indent);
                lemma_count_concat(acc, seq![tk], TokenType::Dedent);
                assert(seq![tk].drop_last() =~= Seq::<SpecToken>::empty());
                assert(count_kind(Seq::<SpecToken>::empty(), TokenType::Indent) == 0);
                assert(count_kind(Seq::<SpecToken>::empty(), TokenType::Dedent) == 0);
                assert(acc.push(tk) =~= acc + seq![tk]);
                assert(count_kind(seq![tk], TokenType::Indent) == if tk.kind == TokenType::Indent { 1nat } else { 0nat });
                assert(count_kind(seq![tk], TokenType::Dedent) == if tk.kind == TokenType::Dedent { 1nat } else { 0nat });
                lemma_tokenize_shape(s, next, acc.push(tk));
            },
        }
    }
}

/// Lexing an input that fits in memory either fails or gives tokens that end with
/// exactly one `EOF`, and in which every `Indent` is matched by a `Dedent`: the
/// lexer closes every indentation it opened, at the latest at the end of the input.
pub proof fn law_lex_balanced(s: Seq<char>)
    requires
        s.len() <= usize::MAX / 8,
    ensures
        lex(s) is Ok ==> ({
            let t = lex(s)->Ok_0;
            &&& count_kind(t, TokenType::Indent) == count_kind(t, TokenType::Dedent)
            &&& t.len() >= 1
            &&& t.last().kind == TokenType::EOF
            &&& forall|i: int| 0 <= i < t.len() - 1 ==> t[i].kind != TokenType::EOF
        }),
{
    lemma_blank_end(s, 0);
    assert(stack_ok(initial_state().stack, s.len() as int));
    lemma_tokenize_shape(s, initial_state(), Seq::empty());
}

/// The lexer of one source text.
pub struct Lexer {
    input: Vec<char>,
    position: usize,
    line: usize,
    column: usize,
    indent_stack: Vec<usize>,
}

impl Lexer {
    /// The source text.
    pub closed spec fn source(&self) -> Seq<char> {
        self.input@
    }

    /// Where the lexer stands.
    pub closed spec fn state(&self) -> LexState {
        LexState {
            pos: self.position as int,
            line: self.line as int,
            column: self.column as int,
            stack: self.indent_stack@,
        }
    }

    /// The lexer's invariant.
    pub closed spec fn wf(&self) -> bool {
        state_ok(self.input@, self.state())
    }

    spec fn moved(&self, old: &Lexer, pos: int, line: int, col: int) -> bool {
        &&& self.input@ == old.input@
        &&& self.indent_stack@ == old.indent_stack@
        &&& self.position == pos
        &&& self.line == line
        &&& self.column == col
    }

    /// A lexer at the start of `input`. Its characters are held four bytes each,
    /// so a text longer than an eighth of the address space cannot be held.
    pub fn new(input: String) -> (r: Self)
        requires
            input@.len() <= usize::MAX / 8,
        ensures
            r.source() == input@,
            r.state() == initial_state(),
            r.wf(),
    {
        let s = input.as_str();
        let n = s.unicode_len();
        let mut chars: Vec<char> = Vec::new();
        let mut i: usize = 0;
        while i < n
            invariant
                n == s@.len(),
                i <= n,
                chars@ == s@.take(i as int),
            decreases n - i,
        {
            chars.push(s.get_char(i));
            proof {
                assert(s@.take(i + 1) =~= s@.take(i as int).push(s@[i as int]));
            }
            i = i + 1;
        }
        assert(s@.take(n as int) =~= s@);
        let mut stack: Vec<usize> = Vec::new();
        stack.push(0);
        let r = Lexer { input: chars, position: 0, line: 1, column: 1, indent_stack: stack };
        assert(r.indent_stack@ =~= seq![0usize]);
        proof {
            lemma_blank_end(r.input@, 0);
        }
        r
    }

    fn is_at_end(&self) -> (r: bool)
        ensures
            r == (self.position >= self.input@.len()),
    {
        self.position >= self.input.len()
    }

    fn current_char(&self) -> (c: char)
        requires
            self.position < self.input@.len(),
        ensures
            c == self.input@[self.position as int],
    {
        self.input[self.position]
    }

    fn advance(&mut self)
        requires
            old(self).column < usize::MAX,
            old(self).input@.len() <= usize::MAX / 8,
        ensures
            old(self).position < old(self).input@.len() ==> final(self).moved(
                old(self),
                old(self).position + 1,
                old(self).line as int,
                old(self).column + 1,
            ),
            old(self).position >= old(self).input@.len() ==> final(self).moved(
                old(self),
                old(self).position as int,
                old(self).line as int,
                old(self).column as int,
            ),
    {
        if !self.is_at_end() {
            self.position += 1;
            self.column += 1;
        }
    }

    fn skip_whitespace(&mut self)
        requires
            old(self).input@.len() <= usize::MAX / 8,
            old(self).position <= old(self).input@.len(),
            old(self).column + (blank_end(old(self).input@, old(self).position as int)
                - old(self).position) <= usize::MAX,
        ensures
            final(self).moved(
                old(self),
                blank_end(old(self).input@, old(self).position as int),
                old(self).line as int,
                old(self).column + (blank_end(old(self).input@, old(self).position as int)
                    - old(self).position),
            ),
    {
        let ghost s = self.input@;
        let ghost p0 = self.position as int;
        let ghost c0 = self.column as int;
        proof {
            lemma_blank_end(s, p0);
        }
        while !self.is_at_end() && char_is_whitespace(self.current_char()) && self.current_char()
            != '\n'
            invariant
                self.input@ == s,
                s.len() <= usize::MAX / 8,
                self.indent_stack@ == old(self).indent_stack@,
                self.line == old(self).line,
                p0 <= self.position <= blank_end(s, p0),
                blank_end(s, self.position as int) == blank_end(s, p0),
                self.column == c0 + (self.position - p0),
                c0 + (blank_end(s, p0) - p0) <= usize::MAX,
            decreases s.len() - self.position,
        {
            proof {
                lemma_blank_end(s, self.position + 1);
            }
            self.advance();
        }
    }

    fn skip_comment(&mut self)
        requires
            old(self).input@.len() <= usize::MAX / 8,
            old(self).position <= old(self).input@.len(),
            old(self).column + (line_end(old(self).input@, old(self).position as int)
                - old(self).position) <= usize::MAX,
        ensures
            final(self).moved(
                old(self),
                line_end(old(self).input@, old(self).position as int),
                old(self).line as int,
                old(self).column + (line_end(old(self).input@, old(self).position as int)
                    - old(self).position),
            ),
    {
        let ghost s = self.input@;
        let ghost p0 = self.position as int;
        let ghost c0 = self.column as int;
        proof {
            lemma_line_end(s, p0);
        }
        while !self.is_at_end() && self.current_char() != '\n'
            invariant
                self.input@ == s,
                s.len() <= usize::MAX / 8,
                self.indent_stack@ == old(self).indent_stack@,
                self.line == old(self).line,
                p0 <= self.position <= line_end(s, p0),
                line_end(s, self.position as int) == line_end(s, p0),
                self.column == c0 + (self.position - p0),
                c0 + (line_end(s, p0) - p0) <= usize::MAX,
            decreases s.len() - self.position,
        {
            proof {
                lemma_line_end(s, self.position + 1);
            }
            self.advance();
        }
    }

    /// The characters `from..to` of the input, as a string.
    fn collect(&self, from: usize, to: usize) -> (r: String)
        requires
            from <= to <= self.input@.len(),
        ensures
            r@ == self.input@.subrange(from as int, to as int),
    {
        let mut r = String::new();
        let mut i = from;
        while i < to
            invariant
                from <= i <= to,
                to <= self.input@.len(),
                r@ == self.input@.subrange(from as int, i as int),
            decreases to - i,
        {
            push_char(&mut r, self.input[i]);
            proof {
                assert(self.input@.subrange(from as int, i + 1) =~= self.input@.subrange(
                    from as int,
                    i as int,
                ).push(self.input@[i as int]));
            }
            i = i + 1;
        }
        r
    }

    /// Steps over the word that starts here.
    fn skip_word(&mut self)
        requires
            old(self).input@.len() <= usize::MAX / 8,
            old(self).position < old(self).input@.len(),
            is_ident_start(old(self).input@[old(self).position as int]),
            old(self).column + (ident_end(old(self).input@, old(self).position + 1)
                - old(self).position) <= usize::MAX,
        ensures
            final(self).moved(
                old(self),
                ident_end(old(self).input@, old(self).position + 1),
                old(self).line as int,
                old(self).column + (ident_end(old(self).input@, old(self).position + 1)
                    - old(self).position),
            ),
    {
        let ghost s = self.input@;
        let ghost p0 = self.position as int;
        let ghost c0 = self.column as int;
        let ghost e = ident_end(s, p0 + 1);
        proof {
            lemma_ident_end(s, p0 + 1);
        }
        while !self.is_at_end() && (char_is_alphanumeric(self.current_char())
            || self.current_char() == '_')
            invariant
                self.input@ == s,
                s.len() <= usize::MAX / 8,
                self.indent_stack@ == old(self).indent_stack@,
                self.line == old(self).line,
                p0 < s.len(),
                is_ident_start(s[p0]),
                e == ident_end(s, p0 + 1),
                p0 + 1 <= e <= s.len(),
                p0 <= self.position <= e,
                self.position > p0 ==> ident_end(s, self.position as int) == e,
                self.column == c0 + (self.position - p0),
                c0 + (e - p0) <= usize::MAX,
            decreases s.len() - self.position,
        {
            proof {
                lemma_ident_end(s, self.position + 1);
            }
            self.advance();
        }
    }

    /// Looks ahead, without moving, for `rust` or `asm` followed by `{`. The
    /// column still counts the characters looked at.
    fn check_inline_block_start(&mut self) -> (r: bool)
        requires
            old(self).input@.len() <= usize::MAX / 8,
            old(self).position < old(self).input@.len(),
            is_ident_start(old(self).input@[old(self).position as int]),
            old(self).column + 4 * (old(self).input@.len() - old(self).position) + 1 <= usize::MAX,
        ensures
            ({
                let s = old(self).input@;
                let p = old(self).position as int;
                let e = ident_end(s, p + 1);
                let t = s.subrange(p, e);
                let w = blank_end(s, e);
                &&& r == (is_inline_keyword(t) && w < s.len() && s[w] == '{')
                &&& final(self).moved(
                    old(self),
                    p,
                    old(self).line as int,
                    old(self).column + if is_inline_keyword(t) {
                        2 * (e - p) + (w - e)
                    } else {
                        e - p
                    },
                )
            }),
    {
        let ghost s = self.input@;
        let start_pos = self.position;
        proof {
            lemma_ident_end(s, start_pos + 1);
        }
        self.skip_word();
        let text = self.collect(start_pos, self.position);
        let is_inline = str_eq(text.as_str(), "rust") || str_eq(text.as_str(), "asm");
        self.position = start_pos;
        if !is_inline {
            return false;
        }
        self.skip_word();
        proof {
            lemma_blank_end(s, self.position as int);
        }
        self.skip_whitespace();
        let has_brace = !self.is_at_end() && self.current_char() == '{';
        self.position = start_pos;
        has_brace
    }

    /// A word: a keyword, or an identifier.
    fn identifier(&mut self) -> (t: Token)
        requires
            old(self).input@.len() <= usize::MAX / 8,
            old(self).position < old(self).input@.len(),
            is_ident_start(old(self).input@[old(self).position as int]),
            old(self).column + (ident_end(old(self).input@, old(self).position + 1)
                - old(self).position) <= usize::MAX,
        ensures
            ({
                let s = old(self).input@;
                let p = old(self).position as int;
                let e = ident_end(s, p + 1);
                let w = s.subrange(p, e);
                &&& final(self).moved(
                    old(self),
                    e,
                    old(self).line as int,
                    old(self).column + (e - p),
                )
                &&& t@ == tok(keyword_kind(w), w, old(self).line as int, old(self).column + (e - p))
            }),
    {
        let start = self.position;
        proof {
            lemma_ident_end(self.input@, start + 1);
        }
        self.skip_word();
        let text = self.collect(start, self.position);
        let kind = word_kind(text.as_str());
        Token::new(kind, text, self.line, self.column)
    }

    /// An inline `rust { .. }` or `asm { .. }` block, read to its matching brace;
    /// the token's text is what stands between the braces.
    fn inline_block(&mut self) -> (r: Result<Token, String>)
        requires
            old(self).input@.len() <= usize::MAX / 8,
            old(self).position < old(self).input@.len(),
            is_ident_start(old(self).input@[old(self).position as int]),
            old(self).line <= old(self).position + 1,
            old(self).column + (old(self).input@.len() - old(self).position) <= usize::MAX,
            ({
                let s = old(self).input@;
                let e = ident_end(s, old(self).position + 1);
                let w = blank_end(s, e);
                is_inline_keyword(s.subrange(old(self).position as int, e)) && w < s.len() && s[w]
                    == '{'
            }),
        ensures
            ({
                let s = old(self).input@;
                let p = old(self).position as int;
                let e = ident_end(s, p + 1);
                let t = s.subrange(p, e);
                let w = blank_end(s, e);
                let b = block_scan(
                    s,
                    w + 1,
                    1,
                    old(self).line as int,
                    old(self).column + (w - p) + 1,
                );
                let kind = if t == "rust"@ {
                    TokenType::RustInline
                } else {
                    TokenType::AsmInline
                };
                &&& final(self).moved(old(self), b.0, b.1, b.2)
                &&& token_result(r) == if b.3 > 0 {
                    Err::<SpecToken, Seq<char>>(unterminated_block_msg(t, b.1))
                } else {
                    Ok(tok(kind, s.subrange(w + 1, b.0 - 1), b.1, b.2))
                }
            }),
    {
        let ghost s = self.input@;
        let ghost p = self.position as int;
        let ghost c0 = self.column as int;
        let start_pos = self.position;
        proof {
            lemma_ident_end(s, p + 1);
            lemma_blank_end(s, ident_end(s, p + 1));
        }
        self.skip_word();
        let keyword = self.collect(start_pos, self.position);
        self.skip_whitespace();
        let ghost w = self.position as int;
        // the `{` that was looked ahead for
        self.advance();
        let ghost line0 = self.line as int;
        let ghost col0 = self.column as int;
        let mut brace_count: usize = 1;
        let code_start = self.position;
        while !self.is_at_end() && brace_count > 0
            invariant
                self.input@ == s,
                s.len() <= usize::MAX / 8,
                self.indent_stack@ == old(self).indent_stack@,
                code_start == w + 1,
                w + 1 <= self.position <= s.len(),
                brace_count <= self.position - w,
                self.position == w + 1 ==> brace_count == 1,
                block_scan(s, self.position as int, brace_count as nat, self.line as int, self.column as int)
                    == block_scan(s, w + 1, 1, line0, col0),
                self.line <= line0 + (self.position - (w + 1)),
                line0 <= s.len() + 1,
                1 <= self.column <= col0 + (self.position - (w + 1)),
                col0 + (s.len() - (w + 1)) <= usize::MAX,
            decreases s.len() - self.position,
        {
            let c = self.current_char();
            if c == '{' {
                brace_count += 1;
            } else if c == '}' {
                brace_count -= 1;
            } else if c == '\n' {
                self.line += 1;
                self.column = 1;
                self.advance();
                continue;
            }
            self.advance();
        }
        if brace_count > 0 {
            return Err(unterminated_block_message(keyword.as_str(), self.line));
        }
        let code = self.collect(code_start, self.position - 1);
        let token_type = if str_eq(keyword.as_str(), "rust") {
            TokenType::RustInline
        } else {
            TokenType::AsmInline
        };
        Ok(Token::new(token_type, code, self.line, self.column))
    }

    /// A number: digits with at most one dot.
    fn number(&mut self) -> (r: Result<Token, String>)
        requires
            old(self).input@.len() <= usize::MAX / 8,
            old(self).position < old(self).input@.len(),
            '0' <= old(self).input@[old(self).position as int] <= '9',
            old(self).column + (old(self).input@.len() - old(self).position) <= usize::MAX,
        ensures
            ({
                let s = old(self).input@;
                let p = old(self).position as int;
                let q = num_end(s, p + 1, false);
                let t = s.subrange(p, q);
                let col = old(self).column + (q - p);
                &&& final(self).moved(old(self), q, old(self).line as int, col)
                &&& token_result(r) == if is_ascii_number(t) {
                    Ok::<SpecToken, Seq<char>>(tok(TokenType::Number, t, old(self).line as int, col))
                } else {
                    Err(invalid_number_msg(t, old(self).line as int, col))
                }
            }),
    {
        let ghost s = self.input@;
        let ghost p0 = self.position as int;
        let ghost c0 = self.column as int;
        let ghost q = num_end(s, p0 + 1, false);
        proof {
            lemma_num_end(s, p0 + 1, false);
        }
        let start = self.position;
        let mut has_dot = false;
        while !self.is_at_end() && (char_is_numeric(self.current_char()) || self.current_char()
            == '.')
            invariant
                self.input@ == s,
                s.len() <= usize::MAX / 8,
                self.indent_stack@ == old(self).indent_stack@,
                self.line == old(self).line,
                start == p0,
                s == old(self).input@,
                q == num_end(s, p0 + 1, false),
                p0 < s.len(),
                '0' <= s[p0] <= '9',
                p0 <= self.position <= q <= s.len(),
                self.position == p0 ==> !has_dot,
                self.position > p0 ==> num_end(s, self.position as int, has_dot) == q,
                self.column == c0 + (self.position - p0),
                c0 + (s.len() - p0) <= usize::MAX,
            ensures
                self.input@ == s,
                self.indent_stack@ == old(self).indent_stack@,
                self.line == old(self).line,
                self.position == q,
                self.column == c0 + (q - p0),
            decreases s.len() - self.position,
        {
            if self.current_char() == '.' {
                if has_dot {
                    break;
                }
                has_dot = true;
            }
            proof {
                lemma_num_end(s, self.position + 1, has_dot);
            }
            self.advance();
        }
        let text = self.collect(start, self.position);
        if ascii_number(text.as_str()) {
            Ok(Token::new(TokenType::Number, text, self.line, self.column))
        } else {
            Err(invalid_number_message(text.as_str(), self.line, self.column))
        }
    }

    /// A string between two `quote` characters on one line.
    fn quoted(&mut self, quote: char) -> (r: Result<Token, String>)
        requires
            old(self).input@.len() <= usize::MAX / 8,
            old(self).position < old(self).input@.len(),
            old(self).input@[old(self).position as int] == quote,
            quote != '\n',
            old(self).column + (old(self).input@.len() - old(self).position) <= usize::MAX,
        ensures
            ({
                let s = old(self).input@;
                let p = old(self).position as int;
                let q = quote_end(s, p + 1, quote);
                let col = old(self).column + 1 + (q - (p + 1));
                let line = old(self).line as int;
                if q >= s.len() || s[q] == '\n' {
                    &&& final(self).moved(old(self), q, line, col)
                    &&& token_result(r) == Err::<SpecToken, Seq<char>>(unterminated_string_msg(line))
                } else {
                    &&& final(self).moved(old(self), q + 1, line, col + 1)
                    &&& token_result(r) == Ok::<SpecToken, Seq<char>>(
                        tok(TokenType::String, s.subrange(p + 1, q), line, col + 1),
                    )
                }
            }),
    {
        let ghost s = self.input@;
        let ghost p0 = self.position as int;
        let ghost c0 = self.column as int;
        let ghost q = quote_end(s, p0 + 1, quote);
        proof {
            lemma_quote_end(s, p0 + 1, quote);
        }
        self.advance();
        let start = self.position;
        while !self.is_at_end() && self.current_char() != quote
            invariant
                self.input@ == s,
                s.len() <= usize::MAX / 8,
                self.indent_stack@ == old(self).indent_stack@,
                self.line == old(self).line,
                s == old(self).input@,
                q == quote_end(s, p0 + 1, quote),
                p0 == old(self).position,
                c0 == old(self).column,
                start == p0 + 1,
                p0 + 1 <= self.position <= q <= s.len(),
                quote_end(s, self.position as int, quote) == q,
                self.column == c0 + 1 + (self.position - (p0 + 1)),
                c0 + (s.len() - p0) <= usize::MAX,
            decreases s.len() - self.position,
        {
            if self.current_char() == '\n' {
                return Err(unterminated_string_message(self.line));
            }
            proof {
                lemma_quote_end(s, self.position + 1, quote);
            }
            self.advance();
        }
        if self.is_at_end() {
            return Err(unterminated_string_message(self.line));
        }
        let text = self.collect(start, self.position);
        self.advance();
        Ok(Token::new(TokenType::String, text, self.line, self.column))
    }

    /// A string in double quotes.
    fn string(&mut self) -> (r: Result<Token, String>)
        requires
            old(self).input@.len() <= usize::MAX / 8,
            old(self).position < old(self).input@.len(),
            old(self).input@[old(self).position as int] == '"',
            old(self).column + (old(self).input@.len() - old(self).position) <= usize::MAX,
        ensures
            ({
                let s = old(self).input@;
                let p = old(self).position as int;
                let q = quote_end(s, p + 1, '"');
                let col = old(self).column + 1 + (q - (p + 1));
                let line = old(self).line as int;
                if q >= s.len() || s[q] == '\n' {
                    &&& final(self).moved(old(self), q, line, col)
                    &&& token_result(r) == Err::<SpecToken, Seq<char>>(unterminated_string_msg(line))
                } else {
                    &&& final(self).moved(old(self), q + 1, line, col + 1)
                    &&& token_result(r) == Ok::<SpecToken, Seq<char>>(
                        tok(TokenType::String, s.subrange(p + 1, q), line, col + 1),
                    )
                }
            }),
    {
        self.quoted('"')
    }

    /// A string in single quotes.
    fn char_string(&mut self) -> (r: Result<Token, String>)
        requires
            old(self).input@.len() <= usize::MAX / 8,
            old(self).position < old(self).input@.len(),
            old(self).input@[old(self).position as int] == '\'',
            old(self).column + (old(self).input@.len() - old(self).position) <= usize::MAX,
        ensures
            ({
                let s = old(self).input@;
                let p = old(self).position as int;
                let q = quote_end(s, p + 1, '\'');
                let col = old(self).column + 1 + (q - (p + 1));
                let line = old(self).line as int;
                if q >= s.len() || s[q] == '\n' {
                    &&& final(self).moved(old(self), q, line, col)
                    &&& token_result(r) == Err::<SpecToken, Seq<char>>(unterminated_string_msg(line))
                } else {
                    &&& final(self).moved(old(self), q + 1, line, col + 1)
                    &&& token_result(r) == Ok::<SpecToken, Seq<char>>(
                        tok(TokenType::String, s.subrange(p + 1, q), line, col + 1),
                    )
                }
            }),
    {
        self.quoted('\'')
    }

    /// A line break, and the indentation of the line after it: deeper gives
    /// `Indent`, shallower `Dedent`, the same `Newline`.
    fn newline(&mut self) -> (t: Token)
        requires
            old(self).input@.len() <= usize::MAX / 8,
            old(self).position < old(self).input@.len(),
            old(self).input@[old(self).position as int] == '\n',
            old(self).line <= old(self).position + 1,
            old(self).column < usize::MAX,
            stack_ok(old(self).indent_stack@, old(self).input@.len() as int),
        ensures
            ({
                let s = old(self).input@;
                let p = old(self).position as int;
                let st = old(self).state();
                let r = scan_spec(s, at(st, p, st.line, st.column));
                &&& final(self).input@ == s
                &&& final(self).state() == r.1
                &&& r.0 == Scan::Emit(t@)
            }),
    {
        let ghost s = self.input@;
        let ghost p0 = self.position as int;
        proof {
            lemma_blank_end(s, p0);
            lemma_indent_width(s, p0 + 1);
        }
        self.advance();
        self.line += 1;
        self.column = 1;
        let mut indent_level: usize = 0;
        let mut peek_pos = self.position;
        while peek_pos < self.input.len() && char_is_whitespace(self.input[peek_pos])
            && self.input[peek_pos] != '\n'
            invariant
                self.input@ == s,
                s.len() <= usize::MAX / 8,
                p0 + 1 <= peek_pos <= s.len(),
                indent_level + indent_width(s, peek_pos as int) == indent_width(s, p0 + 1),
                indent_level <= 4 * (peek_pos - (p0 + 1)),
            decreases s.len() - peek_pos,
        {
            if self.input[peek_pos] == ' ' {
                indent_level += 1;
            } else if self.input[peek_pos] == '\t' {
                indent_level += 4;
            }
            peek_pos += 1;
        }
        let current_indent = self.indent_stack[self.indent_stack.len() - 1];
        if indent_level > current_indent {
            self.indent_stack.push(indent_level);
            Token::new(TokenType::Indent, String::new(), self.line, self.column)
        } else if indent_level < current_indent {
            self.indent_stack.pop();
            Token::new(TokenType::Dedent, String::new(), self.line, self.column)
        } else {
            let mut lexeme = String::new();
            push_char(&mut lexeme, '\n');
            proof {
                assert(lexeme@ =~= s.subrange(p0, p0 + 1));
            }
            Token::new(TokenType::Newline, lexeme, self.line, self.column)
        }
    }

    /// Reads the next token, or steps over blanks or a comment.
    fn scan_token(&mut self) -> (r: Result<Option<Token>, String>)
        requires
            old(self).wf(),
        ensures
            scan_result(r) == scan_spec(old(self).source(), old(self).state()).0,
            final(self).state() == scan_spec(old(self).source(), old(self).state()).1,
            final(self).source() == old(self).source(),
            final(self).wf(),
    {
        let ghost s = self.input@;
        let ghost st = self.state();
        proof {
            lemma_blank_end(s, st.pos);
            lemma_scan_keeps_state_ok(s, st);
        }
        self.skip_whitespace();
        if self.is_at_end() {
            return Ok(None);
        }
        let ghost p = self.position as int;
        let ghost col = self.column as int;
        assert(col <= 3 * p + 1);
        let c = self.current_char();
        if let Some(kind) = single_char_kind(c) {
            self.advance();
            let mut lexeme = String::new();
            push_char(&mut lexeme, c);
            assert(lexeme@ =~= s.subrange(p, p + 1));
            return Ok(Some(Token::new(kind, lexeme, self.line, self.column)));
        }
        if c == '#' {
            proof {
                lemma_line_end(s, p);
            }
            self.skip_comment();
            return Ok(None);
        }
        if c == '=' || c == '!' || c == '<' || c == '>' {
            self.advance();
            if self.match_char('=') {
                let mut lexeme = String::new();
                push_char(&mut lexeme, c);
                push_char(&mut lexeme, '=');
                assert(lexeme@ =~= s.subrange(p, p + 2));
                let kind = if c == '=' {
                    TokenType::Equal
                } else if c == '!' {
                    TokenType::NotEqual
                } else if c == '<' {
                    TokenType::LessEqual
                } else {
                    TokenType::GreaterEqual
                };
                return Ok(Some(Token::new(kind, lexeme, self.line, self.column)));
            }
            if c == '!' {
                return Err(unexpected_message(c, self.line, self.column));
            }
            let mut lexeme = String::new();
            push_char(&mut lexeme, c);
            assert(lexeme@ =~= s.subrange(p, p + 1));
            let kind = if c == '=' {
                TokenType::Assign
            } else if c == '<' {
                TokenType::Less
            } else {
                TokenType::Greater
            };
            return Ok(Some(Token::new(kind, lexeme, self.line, self.column)));
        }
        if c == '"' {
            let r = self.string();
            return match r {
                Ok(t) => Ok(Some(t)),
                Err(e) => Err(e),
            };
        }
        if c == '\'' {
            let r = self.char_string();
            return match r {
                Ok(t) => Ok(Some(t)),
                Err(e) => Err(e),
            };
        }
        if '0' <= c && c <= '9' {
            let r = self.number();
            return match r {
                Ok(t) => Ok(Some(t)),
                Err(e) => Err(e),
            };
        }
        if ('a' <= c && c <= 'z') || ('A' <= c && c <= 'Z') || c == '_' {
            proof {
                lemma_ident_end(s, p + 1);
                lemma_blank_end(s, ident_end(s, p + 1));
            }
            if self.check_inline_block_start() {
                let r = self.inline_block();
                return match r {
                    Ok(t) => Ok(Some(t)),
                    Err(e) => Err(e),
                };
            } else {
                return Ok(Some(self.identifier()));
            }
        }
        if c == '\n' {
            proof {
                lemma_blank_end(s, p);
            }
            return Ok(Some(self.newline()));
        }
        Err(unexpected_message(c, self.line, self.column))
    }

    /// The tokens of the whole input, ending with the `Dedent`s that close open
    /// indentation and `EOF`; or the first error.
    pub fn tokenize(&mut self) -> (r: Result<Vec<Token>, String>)
        requires
            old(self).wf(),
        ensures
            tokens_result(r) == tokenize_from(old(self).source(), old(self).state(), Seq::empty()),
            final(self).source() == old(self).source(),
            final(self).wf(),
    {
        let ghost s = self.input@;
        let ghost st0 = self.state();
        let mut tokens: Vec<Token> = Vec::new();
        assert(tokens@.map_values(|t: Token| t@) =~= Seq::empty());
        while !self.is_at_end()
            invariant
                self.wf(),
                self.input@ == s,
                s == old(self).input@,
                st0 == old(self).state(),
                tokenize_from(s, self.state(), tokens@.map_values(|t: Token| t@)) == tokenize_from(
                    s,
                    st0,
                    Seq::empty(),
                ),
            decreases s.len() - self.position,
        {
            let ghost st = self.state();
            let ghost acc = tokens@.map_values(|t: Token| t@);
            proof {
                lemma_scan_advances(s, st);
            }
            match self.scan_token() {
                Ok(Some(token)) => {
                    tokens.push(token);
                    proof {
                        assert(tokens@.map_values(|t: Token| t@) =~= acc.push(token@));
                    }
                },
                Ok(None) => {},
                Err(e) => {
                    return Err(e);
                },
            }
        }
        let ghost st_end = self.state();
        let ghost acc = tokens@.map_values(|t: Token| t@);
        let ghost dedent = tok(TokenType::Dedent, Seq::empty(), st_end.line, st_end.column);
        while self.indent_stack.len() > 1
            invariant
                self.input@ == s,
                s == old(self).input@,
                self.position == st_end.pos,
                self.line == st_end.line,
                self.column == st_end.column,
                state_ok(s, st_end),
                dedent == tok(TokenType::Dedent, Seq::empty(), st_end.line, st_end.column),
                1 <= self.indent_stack@.len() <= st_end.stack.len(),
                self.indent_stack@ == st_end.stack.take(self.indent_stack@.len() as int),
                tokens@.map_values(|t: Token| t@) == acc + Seq::new(
                    (st_end.stack.len() - self.indent_stack@.len()) as nat,
                    |k: int| dedent,
                ),
            decreases self.indent_stack.len(),
        {
            let ghost before = tokens@.map_values(|t: Token| t@);
            let d = Token::new(TokenType::Dedent, String::new(), self.line, self.column);
            assert(d@ == dedent);
            tokens.push(d);
            self.indent_stack.pop();
            proof {
                assert(tokens@.map_values(|t: Token| t@) =~= before.push(dedent));
                assert(tokens@.map_values(|t: Token| t@) =~= acc + Seq::new(
                    (st_end.stack.len() - self.indent_stack@.len()) as nat,
                    |k: int| dedent,
                ));
                assert(self.indent_stack@ =~= st_end.stack.take(self.indent_stack@.len() as int));
            }
        }
        let ghost before = tokens@.map_values(|t: Token| t@);
        let eof = Token::new(TokenType::EOF, String::new(), self.line, self.column);
        tokens.push(eof);
        proof {
            assert(tokens@.map_values(|t: Token| t@) =~= before.push(eof@));
            assert(self.indent_stack@.len() == 1);
            assert(tokens@.map_values(|t: Token| t@) =~= acc + closing_tokens(st_end));
            assert(self.indent_stack@ =~= seq![0usize]);
            lemma_blank_end(s, self.position as int);
        }
        Ok(tokens)
    }

    fn match_char(&mut self, expected: char) -> (r: bool)
        requires
            old(self).column < usize::MAX,
            old(self).input@.len() <= usize::MAX / 8,
        ensures
            r == (old(self).position < old(self).input@.len() && old(self).input@[old(
                self,
            ).position as int] == expected),
            r ==> final(self).moved(
                old(self),
                old(self).position + 1,
                old(self).line as int,
                old(self).column + 1,
            ),
            !r ==> final(self).moved(
                old(self),
                old(self).position as int,
                old(self).line as int,
                old(self).column as int,
            ),
    {
        if self.is_at_end() || self.current_char() != expected {
            return false;
        }
        self.advance();
        true
    }
}

} // verus!
