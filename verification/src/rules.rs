//! The grammar: a recursive-descent parser with local error recovery,
//! turning the text of one compilation unit into an `Aidl` tree plus
//! diagnostics.
//!
//! A failed element inside a body is dropped: the parser consumes input up
//! to the next terminator for that context, emits exactly one error
//! quoting the unexpected token and the alternatives that were valid at
//! that point, and resumes. A failure at the top level is unrecoverable.

use vstd::prelude::*;
use vstd::string::StrSliceExecFns;
use vstd::string::StringExecFns;

use crate::ast::Annotation;
use crate::ast::Arg;
use crate::ast::Const;
use crate::ast::Direction;
use crate::ast::EnumElement;
use crate::ast::Field;
use crate::ast::Method;
use crate::ast::Package;
use crate::ast::Import;
use crate::ast::Interface;
use crate::ast::InterfaceElement;
use crate::ast::Parcelable;
use crate::ast::ParcelableElement;
use crate::ast::Enum;
use crate::ast::Item;
use crate::ast::Aidl;
use crate::ast::Type;
use crate::ast::TypeKind;
use crate::ast::type_wf;
use crate::ast::type_parsed;
use crate::ast::Range;
use crate::ast::str_eq;
use crate::diagnostic::Diagnostic;
use crate::diagnostic::DiagnosticKind;
use crate::diagnostic::expected_token_str;
use crate::line_index::LineIndex;
use crate::javadoc::javadoc_with;

verus! {

/// Everything the parsing functions read: the text, its character
/// mirror, and the line/column table, all describing the same source.
pub struct Ctx<'a> {
    pub text: &'a str,
    pub chars: &'a Vec<char>,
    pub index: &'a LineIndex,
}

impl<'a> Ctx<'a> {
    pub open spec fn wf(&self) -> bool {
        &&& self.chars@ == self.text@
        &&& self.index.wf(self.chars@)
        &&& self.chars@.len() < usize::MAX
    }

    pub open spec fn len(&self) -> int {
        self.chars@.len() as int
    }
}

/// Mirror a string slice into a vector of its characters.
pub fn to_chars(s: &str) -> (v: Vec<char>)
    ensures
        v@ == s@,
{
    let n = s.unicode_len();
    let mut v: Vec<char> = Vec::new();
    let mut i: usize = 0;
    while i < n
        invariant
            i <= n,
            n == s@.len(),
            v@ == s@.take(i as int),
        decreases n - i,
    {
        v.push(s.get_char(i));
        proof {
            assert(s@.take(i + 1) =~= s@.take(i as int).push(s@[i as int]));
        }
        i = i + 1;
    }
    proof {
        assert(s@.take(n as int) =~= s@);
    }
    v
}

/// The substring of the source spanning character offsets `start..end`.
pub fn take_str(ctx: &Ctx, start: usize, end: usize) -> (r: String)
    requires
        ctx.wf(),
        start <= end <= ctx.len(),
    ensures
        r@ == ctx.chars@.subrange(start as int, end as int),
{
    let s = ctx.text.substring_char(start, end);
    s.to_owned()
}

pub open spec fn spec_is_ws(c: char) -> bool {
    c == ' ' || c == '\t' || c == '\r' || c == '\n'
}

pub open spec fn spec_is_digit(c: char) -> bool {
    '0' <= c && c <= '9'
}

pub open spec fn spec_is_ident_start(c: char) -> bool {
    ('a' <= c && c <= 'z') || ('A' <= c && c <= 'Z') || c == '_'
}

pub open spec fn spec_is_ident_char(c: char) -> bool {
    spec_is_ident_start(c) || spec_is_digit(c)
}

pub fn is_ws(c: char) -> (r: bool)
    ensures
        r == spec_is_ws(c),
{
    c == ' ' || c == '\t' || c == '\r' || c == '\n'
}

pub fn is_digit(c: char) -> (r: bool)
    ensures
        r == spec_is_digit(c),
{
    '0' <= c && c <= '9'
}

pub fn is_ident_start(c: char) -> (r: bool)
    ensures
        r == spec_is_ident_start(c),
{
    ('a' <= c && c <= 'z') || ('A' <= c && c <= 'Z') || c == '_'
}

pub fn is_ident_char(c: char) -> (r: bool)
    ensures
        r == spec_is_ident_char(c),
{
    is_ident_start(c) || is_digit(c)
}

/// The characters that may start a token of the language; anything else
/// is reported as an invalid token.
pub open spec fn spec_is_token_char(c: char) -> bool {
    spec_is_ident_char(c) || c == ';' || c == ',' || c == '.' || c == '{' || c == '}' || c == '('
        || c == ')' || c == '<' || c == '>' || c == '=' || c == '[' || c == ']' || c == '@' || c
        == '"' || c == '-' || c == '/'
}

pub fn is_token_char(c: char) -> (r: bool)
    ensures
        r == spec_is_token_char(c),
{
    is_ident_char(c) || c == ';' || c == ',' || c == '.' || c == '{' || c == '}' || c == '(' || c
        == ')' || c == '<' || c == '>' || c == '=' || c == '[' || c == ']' || c == '@' || c == '"'
        || c == '-' || c == '/'
}

/// The character at offset `i`.
fn at(ctx: &Ctx, i: usize) -> (c: char)
    requires
        ctx.wf(),
        i < ctx.len(),
    ensures
        c == ctx.chars@[i as int],
{
    ctx.chars[i]
}

/// Whether the character at `i` is `c`; false at or past the end.
fn at_is(ctx: &Ctx, i: usize, c: char) -> (r: bool)
    requires
        ctx.wf(),
    ensures
        r == (i < ctx.len() && ctx.chars@[i as int] == c),
{
    i < ctx.chars.len() && ctx.chars[i] == c
}


/// The offset of the next line break at or after `i`, capped at the end.
pub open spec fn line_break_at(s: Seq<char>, i: int) -> int
    decreases s.len() - i,
{
    if i < 0 || i >= s.len() {
        s.len() as int
    } else if s[i] == '\n' {
        i
    } else {
        line_break_at(s, i + 1)
    }
}

/// The offset of the `*` of the next `*/` at or after `i`, capped at the
/// end.
pub open spec fn block_close_at(s: Seq<char>, i: int) -> int
    decreases s.len() - i,
{
    if i < 0 || i >= s.len() {
        s.len() as int
    } else if s[i] == '*' && i + 1 < s.len() && s[i + 1] == '/' {
        i
    } else {
        block_close_at(s, i + 1)
    }
}

/// A forward step from `i` towards `target`, always advancing and never
/// past the end; the scans below only ever produce in-range targets, so
/// the bounds never bite.
pub open spec fn step_to(s: Seq<char>, i: int, target: int) -> int {
    if target > i {
        if target <= s.len() {
            target
        } else {
            s.len() as int
        }
    } else {
        i + 1
    }
}

/// The offset where skipping whitespace and comments from `i` stops.
pub open spec fn spec_skip(s: Seq<char>, i: int) -> int
    decreases s.len() - i,
{
    if i < 0 || i >= s.len() {
        i
    } else {
        let c = s[i];
        if spec_is_ws(c) {
            spec_skip(s, i + 1)
        } else if c == '/' && i + 1 < s.len() && s[i + 1] == '/' {
            spec_skip(s, step_to(s, i, line_break_at(s, i + 2)))
        } else if c == '/' && i + 1 < s.len() && s[i + 1] == '*' {
            let cl = block_close_at(s, i + 2);
            let after = if cl >= s.len() {
                s.len() as int
            } else {
                cl + 2
            };
            spec_skip(s, step_to(s, i, after))
        } else {
            i
        }
    }
}

/// Skipping is idempotent: the stop position has nothing left to skip.
pub proof fn lemma_skip_idempotent(s: Seq<char>, i: int)
    ensures
        spec_skip(s, spec_skip(s, i)) == spec_skip(s, i),
    decreases s.len() - i,
{
    if i < 0 || i >= s.len() {
    } else {
        let c = s[i];
        if spec_is_ws(c) {
            lemma_skip_idempotent(s, i + 1);
        } else if c == '/' && i + 1 < s.len() && s[i + 1] == '/' {
            lemma_skip_idempotent(s, step_to(s, i, line_break_at(s, i + 2)));
        } else if c == '/' && i + 1 < s.len() && s[i + 1] == '*' {
            let cl = block_close_at(s, i + 2);
            let after = if cl >= s.len() {
                s.len() as int
            } else {
                cl + 2
            };
            lemma_skip_idempotent(s, step_to(s, i, after));
        } else {
        }
    }
}

/// The end of the identifier run starting at `i`.
pub open spec fn ident_end_at(s: Seq<char>, i: int) -> int
    decreases s.len() - i,
{
    if i < 0 || i >= s.len() {
        s.len() as int
    } else if spec_is_ident_char(s[i]) {
        ident_end_at(s, i + 1)
    } else {
        i
    }
}

/// Skip whitespace and comments (line comments, block comments and
/// documentation comments alike) from `*pos` forward.
pub fn skip_ws(ctx: &Ctx, pos: &mut usize)
    requires
        ctx.wf(),
        *old(pos) <= ctx.len(),
    ensures
        *old(pos) <= *final(pos) <= ctx.len(),
        *final(pos) == spec_skip(ctx.chars@, *old(pos) as int),
{
    let ghost s = ctx.chars@;
    let n = ctx.chars.len();
    loop
        invariant
            ctx.wf(),
            s == ctx.chars@,
            n == ctx.len(),
            *old(pos) <= *pos <= n,
            spec_skip(s, *old(pos) as int) == spec_skip(s, *pos as int),
        decreases n - *pos,
    {
        if *pos >= n {
            return ;
        }
        let c = at(ctx, *pos);
        if is_ws(c) {
            *pos = *pos + 1;
        } else if c == '/' && at_is(ctx, *pos + 1, '/') {
            // line comment: consume to the end of the line
            *pos = *pos + 2;
            let ghost p0 = *pos;
            while *pos < n && !(at(ctx, *pos) == '\n')
                invariant
                    ctx.wf(),
                    s == ctx.chars@,
                    n == ctx.len(),
                    *old(pos) < p0 <= *pos <= n,
                    line_break_at(s, p0 as int) == line_break_at(s, *pos as int),
                decreases n - *pos,
            {
                *pos = *pos + 1;
            }
            proof {
                assert(line_break_at(s, p0 as int) == *pos as int);
            }
        } else if c == '/' && at_is(ctx, *pos + 1, '*') {
            // block or documentation comment: consume to the closing `*/`
            *pos = *pos + 2;
            let ghost p0 = *pos;
            while *pos < n && !(at(ctx, *pos) == '*' && at_is(ctx, *pos + 1, '/'))
                invariant
                    ctx.wf(),
                    s == ctx.chars@,
                    n == ctx.len(),
                    *old(pos) < p0 <= *pos <= n,
                    block_close_at(s, p0 as int) == block_close_at(s, *pos as int),
                decreases n - *pos,
            {
                *pos = *pos + 1;
            }
            proof {
                assert(block_close_at(s, p0 as int) == *pos as int);
            }
            if *pos < n {
                // consume the `*/`
                *pos = *pos + 2;
                if *pos > n {
                    *pos = n;
                }
            }
        } else {
            return ;
        }
    }
}

/// Where an attempted parse failed: the offset of the offending token and
/// the alternatives that were syntactically valid there.
pub struct ParseFailure {
    pub at: usize,
    pub expected: Vec<String>,
}

/// New diagnostics are only ever appended to the list.
pub open spec fn appends(before: Seq<Diagnostic>, after: Seq<Diagnostic>) -> bool {
    &&& after.len() >= before.len()
    &&& forall|i: int| 0 <= i < before.len() ==> after[i] == before[i]
}

/// Every diagnostic the parser itself emits is an error.
pub open spec fn appends_errors(before: Seq<Diagnostic>, after: Seq<Diagnostic>) -> bool {
    &&& appends(before, after)
    &&& forall|i: int|
        before.len() <= i < after.len() ==> (#[trigger] after[i]).kind == DiagnosticKind::Error
}

/// Build the one error diagnostic for a failed parse: it quotes the
/// offending token (or reports the end of input, or an invalid character)
/// and the alternatives that were valid at that point, prefixed with the
/// context that was being parsed.
pub fn failure_diagnostic(ctx: &Ctx, failure: &ParseFailure, prefix: &str) -> (d: Diagnostic)
    requires
        ctx.wf(),
        failure.at <= ctx.len(),
    ensures
        d.kind == DiagnosticKind::Error,
        d.related_infos@.len() == 0,
{
    let n = ctx.chars.len();
    let start = failure.at;
    let mut message: String = prefix.to_owned();
    if !prefix.is_empty() {
        message.append(" - ");
    }
    if start >= n {
        message.append("Unrecognized EOF.\n");
        message.append(expected_token_str(&failure.expected).as_str());
        Diagnostic {
            kind: DiagnosticKind::Error,
            range: ctx.index.range(Ghost(ctx.chars@), start, start),
            message,
            context_message: Some("unrecognized EOF".to_owned()),
            hint: None,
            related_infos: Vec::new(),
        }
    } else {
        let c = at(ctx, start);
        if !is_token_char(c) {
            message.append("Invalid token");
            Diagnostic {
                kind: DiagnosticKind::Error,
                range: ctx.index.range(Ghost(ctx.chars@), start, start),
                message,
                context_message: Some("invalid token".to_owned()),
                hint: None,
                related_infos: Vec::new(),
            }
        } else {
            // the quoted token: an identifier or number run, or one character
            let mut end = start + 1;
            if is_ident_char(c) {
                while end < n && is_ident_char(at(ctx, end))
                    invariant
                        ctx.wf(),
                        n == ctx.len(),
                        start < end <= n,
                    decreases n - end,
                {
                    end = end + 1;
                }
            }
            message.append("Unrecognized token `");
            message.append(take_str(ctx, start, end).as_str());
            message.append("`.\n");
            message.append(expected_token_str(&failure.expected).as_str());
            Diagnostic {
                kind: DiagnosticKind::Error,
                range: ctx.index.range(Ghost(ctx.chars@), start, end),
                message,
                context_message: Some("unrecognized token".to_owned()),
                hint: None,
                related_infos: Vec::new(),
            }
        }
    }
}


/// The reserved words of the language (the host language's keywords plus
/// the declaration and direction keywords); none may be used as an
/// identifier.
pub open spec fn spec_is_reserved(s: Seq<char>) -> bool {
    s == "abstract"@ || s == "assert"@ || s == "boolean"@ || s == "break"@ || s == "byte"@ || s == "case"@ || s == "catch"@ || s == "char"@ || s == "class"@ || s == "const"@ || s == "continue"@ || s == "default"@ || s == "do"@ || s == "double"@ || s == "else"@ || s == "enum"@ || s == "extends"@ || s == "final"@ || s == "finally"@ || s == "float"@ || s == "for"@ || s == "goto"@ || s == "if"@ || s == "implements"@ || s == "import"@ || s == "instanceof"@ || s == "int"@ || s == "interface"@ || s == "long"@ || s == "native"@ || s == "new"@ || s == "package"@ || s == "private"@ || s == "protected"@ || s == "public"@ || s == "return"@ || s == "short"@ || s == "static"@ || s == "strictfp"@ || s == "super"@ || s == "switch"@ || s == "synchronized"@ || s == "this"@ || s == "throw"@ || s == "throws"@ || s == "transient"@ || s == "try"@ || s == "void"@ || s == "volatile"@ || s == "while"@ || s == "oneway"@ || s == "parcelable"@ || s == "in"@ || s == "out"@ || s == "inout"@
}

/// Whether `word` is a reserved word.
pub fn is_reserved(word: &str) -> (r: bool)
    ensures
        r == spec_is_reserved(word@),
{
    str_eq(word, "abstract") || str_eq(word, "assert") || str_eq(word, "boolean") || str_eq(word, "break") || str_eq(word, "byte") || str_eq(word, "case") || str_eq(word, "catch") || str_eq(word, "char") || str_eq(word, "class") || str_eq(word, "const") || str_eq(word, "continue") || str_eq(word, "default") || str_eq(word, "do") || str_eq(word, "double") || str_eq(word, "else") || str_eq(word, "enum") || str_eq(word, "extends") || str_eq(word, "final") || str_eq(word, "finally") || str_eq(word, "float") || str_eq(word, "for") || str_eq(word, "goto") || str_eq(word, "if") || str_eq(word, "implements") || str_eq(word, "import") || str_eq(word, "instanceof") || str_eq(word, "int") || str_eq(word, "interface") || str_eq(word, "long") || str_eq(word, "native") || str_eq(word, "new") || str_eq(word, "package") || str_eq(word, "private") || str_eq(word, "protected") || str_eq(word, "public") || str_eq(word, "return") || str_eq(word, "short") || str_eq(word, "static") || str_eq(word, "strictfp") || str_eq(word, "super") || str_eq(word, "switch") || str_eq(word, "synchronized") || str_eq(word, "this") || str_eq(word, "throw") || str_eq(word, "throws") || str_eq(word, "transient") || str_eq(word, "try") || str_eq(word, "void") || str_eq(word, "volatile") || str_eq(word, "while") || str_eq(word, "oneway") || str_eq(word, "parcelable") || str_eq(word, "in") || str_eq(word, "out") || str_eq(word, "inout")
}


/// A parsed qualified name: the full dotted name, its split into leading
/// path and final segment, and the offsets it spans.
pub struct QName {
    pub full: String,
    pub path: String,
    pub name: String,
    pub start: usize,
    pub end: usize,
}

/// Whether an identifier stands at the first token position at or after
/// `i`: its first character starts an identifier and the full run is not
/// a reserved word.
pub open spec fn ident_ok_at(s: Seq<char>, i: int) -> bool {
    let start = spec_skip(s, i);
    &&& start < s.len()
    &&& spec_is_ident_start(s[start])
    &&& !spec_is_reserved(s.subrange(start, ident_end_at(s, start)))
}

/// Parse one identifier; reserved words are rejected. Succeeds exactly
/// when an identifier stands at the next token position, returning its
/// text and span; otherwise the position of that token is reported with
/// `IDENT` expected.
pub fn rule_ident(ctx: &Ctx, pos: &mut usize) -> (r: Result<(String, usize, usize), ParseFailure>)
    requires
        ctx.wf(),
        *old(pos) <= ctx.len(),
    ensures
        *old(pos) <= *final(pos) <= ctx.len(),
        ({
            let s = ctx.chars@;
            let start = spec_skip(s, *old(pos) as int);
            let wend = ident_end_at(s, start);
            match r {
                Ok(id) => {
                    &&& ident_ok_at(s, *old(pos) as int)
                    &&& *old(pos) <= id.1 < id.2 <= *final(pos) <= ctx.len()
                    &&& id.1 == start
                    &&& id.2 == wend
                    &&& id.0@ == s.subrange(start, wend)
                    &&& id.0@.len() > 0
                    &&& !spec_is_reserved(id.0@)
                    &&& *final(pos) == wend
                },
                Err(f) => {
                    &&& !ident_ok_at(s, *old(pos) as int)
                    &&& *old(pos) <= f.at <= ctx.len()
                    &&& f.at == start
                    &&& f.expected@.len() == 1
                    &&& f.expected@[0]@ == "IDENT"@
                    &&& *final(pos) == start
                },
            }
        }),
{
    let ghost s = ctx.chars@;
    let n = ctx.chars.len();
    skip_ws(ctx, pos);
    let start = *pos;
    if start < n && is_ident_start(at(ctx, start)) {
        let mut end = start + 1;
        while end < n && is_ident_char(at(ctx, end))
            invariant
                ctx.wf(),
                s == ctx.chars@,
                n == ctx.len(),
                start < end <= n,
                ident_end_at(s, start as int) == ident_end_at(s, end as int),
            decreases n - end,
        {
            end = end + 1;
        }
        proof {
            assert(ident_end_at(s, start as int) == end as int);
        }
        let word = take_str(ctx, start, end);
        if is_reserved(word.as_str()) {
            Err(ParseFailure { at: start, expected: vec!["IDENT".to_owned()] })
        } else {
            *pos = end;
            Ok((word, start, end))
        }
    } else {
        Err(ParseFailure { at: start, expected: vec!["IDENT".to_owned()] })
    }
}

/// The rest of a qualified-name scan, standing at `i` right after a
/// segment, with the joined text, split and span built so far: follows
/// `.`-separated identifier segments and stops (restoring `i`) at the
/// first position with no dot.
pub open spec fn qname_scan(
    s: Seq<char>,
    i: int,
    full: Seq<char>,
    path: Seq<char>,
    name: Seq<char>,
    start: int,
    end: int,
) -> Option<(Seq<char>, Seq<char>, Seq<char>, int, int, int)>
    decreases s.len() - i,
{
    let sk = spec_skip(s, i);
    if sk < s.len() && s[sk] == '.' {
        if ident_ok_at(s, sk + 1) {
            let seg_start = spec_skip(s, sk + 1);
            let seg_end = ident_end_at(s, seg_start);
            let seg = s.subrange(seg_start, seg_end);
            if step_to(s, i, seg_end) > i {
                qname_scan(
                    s,
                    step_to(s, i, seg_end),
                    full + "."@ + seg,
                    full,
                    seg,
                    start,
                    seg_end,
                )
            } else {
                None
            }
        } else {
            None
        }
    } else {
        Some((full, path, name, start, end, i))
    }
}

/// The qualified name standing at the next token position at or after
/// `i`: its joined text, the text up to its last segment, the last
/// segment, its span, and the position right after it.
pub open spec fn spec_qname(s: Seq<char>, i: int) -> Option<
    (Seq<char>, Seq<char>, Seq<char>, int, int, int),
> {
    if ident_ok_at(s, i) {
        let st = spec_skip(s, i);
        let we = ident_end_at(s, st);
        let seg = s.subrange(st, we);
        qname_scan(s, we, seg, Seq::empty(), seg, st, we)
    } else {
        None
    }
}

/// Parse a qualified name: identifiers joined by dots. The returned name
/// is the segments joined with single dots; `path` holds all but the last
/// segment and `name` the last. Succeeds exactly when `spec_qname` scans
/// a name at the next token position, with exactly its outputs.
pub fn rule_qualified_name(ctx: &Ctx, pos: &mut usize) -> (r: Result<QName, ParseFailure>)
    requires
        ctx.wf(),
        *old(pos) <= ctx.len(),
    ensures
        *old(pos) <= *final(pos) <= ctx.len(),
        r matches Err(f) ==> f.at <= ctx.len() && spec_qname(ctx.chars@, *old(pos) as int) is None
            && f.expected@.len() == 1 && f.expected@[0]@ == "IDENT"@,
        r matches Ok(q) ==> {
            &&& *old(pos) <= q.start <= q.end <= *final(pos) <= ctx.len()
            &&& q.full@ == crate::ast::spec_qualified(q.path@, q.name@)
            &&& q.name@.len() > 0
            &&& spec_qname(ctx.chars@, *old(pos) as int) matches Some(sq)
            &&& sq == (q.full@, q.path@, q.name@, q.start as int, q.end as int, *final(pos) as int)
        },
{
    let ghost s = ctx.chars@;
    let first = rule_ident(ctx, pos)?;
    let mut full = first.0.clone();
    let mut path: String = String::new();
    let mut name = first.0;
    let start = first.1;
    let mut end = first.2;
    let n = ctx.chars.len();
    loop
        invariant
            ctx.wf(),
            s == ctx.chars@,
            n == ctx.len(),
            *old(pos) <= start <= end <= *pos <= n,
            full@ == crate::ast::spec_qualified(path@, name@),
            name@.len() > 0,
            spec_qname(s, *old(pos) as int) == qname_scan(
                s,
                *pos as int,
                full@,
                path@,
                name@,
                start as int,
                end as int,
            ),
        decreases n - *pos,
    {
        let save = *pos;
        skip_ws(ctx, pos);
        if at_is(ctx, *pos, '.') {
            *pos = *pos + 1;
            let seg = match rule_ident(ctx, pos) {
                Ok(seg) => seg,
                Err(f) => {
                    return Err(f);
                },
            };
            proof {
                assert(step_to(s, save as int, seg.2 as int) == seg.2 as int);
            }
            path = full.clone();
            full.append(".");
            full.append(seg.0.as_str());
            proof {
                assert(full@ =~= path@ + "."@ + seg.0@);
            }
            name = seg.0;
            end = seg.2;
        } else {
            *pos = save;
            return Ok(QName { full, path, name, start, end });
        }
    }
}

/// The alternatives reported when a value was expected.
fn value_expected() -> (v: Vec<String>)
{
    vec![
        "\"{\"".to_owned(),
        "\"null\"".to_owned(),
        "BOOLEAN".to_owned(),
        "NUMBER".to_owned(),
        "QUOTED_STRING".to_owned(),
    ]
}

/// Parse a literal value: a number (with optional sign, decimal point and
/// `f` suffix), a quoted string, `null`, a boolean, or a brace-enclosed
/// object. The returned string is the literal as written, except that an
/// object is normalized to `{}` when empty and `{...}` otherwise.
pub fn rule_value(ctx: &Ctx, pos: &mut usize) -> (r: Result<(String, usize, usize), ParseFailure>)
    requires
        ctx.wf(),
        *old(pos) <= ctx.len(),
    ensures
        *old(pos) <= *final(pos) <= ctx.len(),
        r matches Err(f) ==> f.at <= ctx.len(),
        r matches Ok(v) ==> {
            &&& *old(pos) <= v.1 <= v.2 <= *final(pos)
            // the value comes back as written, except that an object is
            // normalized to `{}` or `{...}`
            &&& (v.0@ == ctx.chars@.subrange(v.1 as int, v.2 as int) || v.0@ == "{}"@ || v.0@
                == "{...}"@)
        },
    decreases ctx.chars@.len() - *old(pos),
{
    let n = ctx.chars.len();
    skip_ws(ctx, pos);
    let start = *pos;
    if start >= n {
        return Err(ParseFailure { at: start, expected: value_expected() });
    }
    let c = at(ctx, start);
    if c == '"' {
        // quoted string: no quote or line break inside
        let mut end = start + 1;
        while end < n && !(at(ctx, end) == '"' || at(ctx, end) == '\n' || at(ctx, end) == '\r')
            invariant
                ctx.wf(),
                n == ctx.len(),
                start < end <= n,
            decreases n - end,
        {
            end = end + 1;
        }
        if end < n && at(ctx, end) == '"' {
            *pos = end + 1;
            Ok((take_str(ctx, start, end + 1), start, end + 1))
        } else {
            Err(ParseFailure { at: end, expected: vec!["\"\\\"\"".to_owned()] })
        }
    } else if c == '{' {
        // object: an optionally trailing-comma separated list of values
        *pos = start + 1;
        skip_ws(ctx, pos);
        if at_is(ctx, *pos, '}') {
            *pos = *pos + 1;
            return Ok(("{}".to_owned(), start, *pos));
        }
        loop
            invariant
                ctx.wf(),
                n == ctx.len(),
                *old(pos) <= start,
                start < *pos <= n,
            decreases n - *pos,
        {
            let before: usize = *pos;
            match rule_value(ctx, pos) {
                Ok(_) => (),
                Err(f) => {
                    return Err(f);
                },
            }
            if *pos == before {
                // no progress can only mean a malformed object
                return Err(ParseFailure { at: *pos, expected: value_expected() });
            }
            skip_ws(ctx, pos);
            if at_is(ctx, *pos, ',') {
                *pos = *pos + 1;
                skip_ws(ctx, pos);
                if at_is(ctx, *pos, '}') {
                    *pos = *pos + 1;
                    return Ok(("{...}".to_owned(), start, *pos));
                }
            } else if at_is(ctx, *pos, '}') {
                *pos = *pos + 1;
                return Ok(("{...}".to_owned(), start, *pos));
            } else {
                return Err(ParseFailure {
                    at: *pos,
                    expected: vec!["\",\"".to_owned(), "\"}\"".to_owned()],
                });
            }
        }
    } else if c == '-' || c == '.' || is_digit(c) {
        // number: an optional sign, digits with an optional decimal point
        // (then at least one digit), and an optional `f` suffix
        let mut end = start;
        if c == '-' {
            end = end + 1;
        }
        let digits_start = end;
        while end < n && is_digit(at(ctx, end))
            invariant
                ctx.wf(),
                n == ctx.len(),
                start <= digits_start <= end <= n,
            decreases n - end,
        {
            end = end + 1;
        }
        let int_digits = end - digits_start;
        let mut ok = true;
        if end < n && at(ctx, end) == '.' {
            let frac_start = end + 1;
            let mut end2 = frac_start;
            while end2 < n && is_digit(at(ctx, end2))
                invariant
                    ctx.wf(),
                    n == ctx.len(),
                    start < frac_start <= end2 <= n,
                decreases n - end2,
            {
                end2 = end2 + 1;
            }
            if end2 > frac_start {
                end = end2;
            } else if int_digits == 0 {
                ok = false;
            }
        } else if int_digits == 0 {
            ok = false;
        }
        if !ok {
            return Err(ParseFailure { at: start, expected: value_expected() });
        }
        if end < n && at(ctx, end) == 'f' {
            end = end + 1;
        }
        if end < n && is_ident_char(at(ctx, end)) {
            return Err(ParseFailure { at: start, expected: value_expected() });
        }
        *pos = end;
        Ok((take_str(ctx, start, end), start, end))
    } else if is_ident_start(c) {
        // `null`, `true` or `false`
        let mut end = start + 1;
        while end < n && is_ident_char(at(ctx, end))
            invariant
                ctx.wf(),
                n == ctx.len(),
                start < end <= n,
            decreases n - end,
        {
            end = end + 1;
        }
        let word = take_str(ctx, start, end);
        if str_eq(word.as_str(), "null") || str_eq(word.as_str(), "true") || str_eq(
            word.as_str(),
            "false",
        ) {
            *pos = end;
            Ok((word, start, end))
        } else {
            Err(ParseFailure { at: start, expected: value_expected() })
        }
    } else {
        Err(ParseFailure { at: start, expected: value_expected() })
    }
}

/// Parse the annotations standing before a declaration: each is an `@`,
/// a name, and an optional parenthesized list of `key` or `key = value`
/// pairs.
pub fn rule_annotations(ctx: &Ctx, pos: &mut usize) -> (r: Result<Vec<Annotation>, ParseFailure>)
    requires
        ctx.wf(),
        *old(pos) <= ctx.len(),
    ensures
        *old(pos) <= *final(pos) <= ctx.len(),
        r matches Err(f) ==> f.at <= ctx.len(),
{
    let n = ctx.chars.len();
    let mut annotations: Vec<Annotation> = Vec::new();
    loop
        invariant
            ctx.wf(),
            n == ctx.len(),
            *old(pos) <= *pos <= n,
        decreases n - *pos,
    {
        skip_ws(ctx, pos);
        if !at_is(ctx, *pos, '@') {
            return Ok(annotations);
        }
        let at_pos: usize = *pos;
        *pos = *pos + 1;
        let name = match rule_ident(ctx, pos) {
            Ok(id) => id.0,
            Err(f) => {
                return Err(f);
            },
        };
        let mut key_values: Vec<(String, Option<String>)> = Vec::new();
        let save = *pos;
        skip_ws(ctx, pos);
        if at_is(ctx, *pos, '(') {
            *pos = *pos + 1;
            skip_ws(ctx, pos);
            if at_is(ctx, *pos, ')') {
                *pos = *pos + 1;
            } else {
                loop
                    invariant
                        ctx.wf(),
                        n == ctx.len(),
                        *old(pos) <= at_pos,
                        at_pos < *pos <= n,
                    decreases n - *pos,
                {
                    let key = match rule_ident(ctx, pos) {
                        Ok(id) => id.0,
                        Err(f) => {
                            return Err(f);
                        },
                    };
                    let save2 = *pos;
                    skip_ws(ctx, pos);
                    let mut value: Option<String> = None;
                    if at_is(ctx, *pos, '=') {
                        *pos = *pos + 1;
                        let v = match rule_value(ctx, pos) {
                            Ok(v) => v,
                            Err(f) => {
                                return Err(f);
                            },
                        };
                        value = Some(v.0);
                    } else {
                        *pos = save2;
                    }
                    key_values.push((key, value));
                    let before: usize = *pos;
                    skip_ws(ctx, pos);
                    if at_is(ctx, *pos, ',') {
                        *pos = *pos + 1;
                    } else if at_is(ctx, *pos, ')') {
                        *pos = *pos + 1;
                        break ;
                    } else {
                        return Err(ParseFailure {
                            at: *pos,
                            expected: vec!["\")\"".to_owned(), "\",\"".to_owned()],
                        });
                    }
                    if *pos == before {
                        return Err(ParseFailure {
                            at: *pos,
                            expected: vec!["\")\"".to_owned(), "\",\"".to_owned()],
                        });
                    }
                }
            }
        } else {
            *pos = save;
        }
        annotations.push(Annotation { name, key_values });
    }
}


/// The primitive type names.
pub open spec fn spec_is_primitive_name(s: Seq<char>) -> bool {
    s == "byte"@ || s == "short"@ || s == "int"@ || s == "long"@ || s == "float"@ || s
        == "double"@ || s == "boolean"@ || s == "char"@
}

fn is_primitive_name(word: &str) -> (r: bool)
    ensures
        r == spec_is_primitive_name(word@),
{
    str_eq(word, "byte") || str_eq(word, "short") || str_eq(word, "int") || str_eq(word, "long")
        || str_eq(word, "float") || str_eq(word, "double") || str_eq(word, "boolean") || str_eq(
        word,
        "char",
    )
}

/// The alternatives that may legally follow a complete type where a
/// declared name is expected: continuing the type or the name itself.
pub fn name_after_type_expected(t: &Type) -> (v: Vec<String>)
{
    match t.kind {
        TypeKind::Unresolved => vec![
            "\".\"".to_owned(),
            "\"[\"".to_owned(),
            "IDENT".to_owned(),
        ],
        _ => vec!["\"[\"".to_owned(), "IDENT".to_owned()],
    }
}

/// Parse a type: a one-dimensional array suffix binds to any base type;
/// `List` and `Map` take their full parameter count or none; the bare
/// primitive, `void`, `String` and `CharSequence` names take their named
/// kinds; anything else is a dotted custom name left `Unresolved`.
pub fn rule_type(ctx: &Ctx, pos: &mut usize) -> (r: Result<Type, ParseFailure>)
    requires
        ctx.wf(),
        *old(pos) <= ctx.len(),
    ensures
        *old(pos) <= *final(pos) <= ctx.len(),
        r matches Err(f) ==> f.at <= ctx.len(),
        r matches Ok(t) ==> type_wf(t) && type_parsed(t),
    decreases ctx.chars@.len() - *old(pos),
{
    let n = ctx.chars.len();
    skip_ws(ctx, pos);
    let start = *pos;
    if !(start < n && is_ident_start(at(ctx, start))) {
        return Err(ParseFailure { at: start, expected: vec!["IDENT".to_owned()] });
    }
    let mut wend = start + 1;
    while wend < n && is_ident_char(at(ctx, wend))
        invariant
            ctx.wf(),
            n == ctx.len(),
            start < wend <= n,
        decreases n - wend,
    {
        wend = wend + 1;
    }
    let word = take_str(ctx, start, wend);
    let word_range = ctx.index.range(Ghost(ctx.chars@), start, wend);
    *pos = wend;
    let mut base: Type;
    if is_primitive_name(word.as_str()) {
        base = Type::simple_type(word, TypeKind::Primitive, word_range, word_range);
    } else if str_eq(word.as_str(), "void") {
        base = Type::simple_type(word, TypeKind::Void, word_range, word_range);
    } else if str_eq(word.as_str(), "String") {
        base = Type::simple_type(word, TypeKind::StringType, word_range, word_range);
    } else if str_eq(word.as_str(), "CharSequence") {
        base = Type::simple_type(word, TypeKind::CharSequence, word_range, word_range);
    } else if str_eq(word.as_str(), "List") {
        let save = *pos;
        skip_ws(ctx, pos);
        if at_is(ctx, *pos, '<') {
            *pos = *pos + 1;
            let param = rule_type(ctx, pos)?;
            skip_ws(ctx, pos);
            if at_is(ctx, *pos, '>') {
                *pos = *pos + 1;
                let full = ctx.index.range(Ghost(ctx.chars@), start, *pos);
                base = Type::list(param, word_range, full);
            } else {
                return Err(ParseFailure { at: *pos, expected: vec!["\">\"".to_owned()] });
            }
        } else {
            *pos = save;
            base = Type::non_generic_list(word_range, word_range);
        }
    } else if str_eq(word.as_str(), "Map") {
        let save = *pos;
        skip_ws(ctx, pos);
        if at_is(ctx, *pos, '<') {
            *pos = *pos + 1;
            let key_param = rule_type(ctx, pos)?;
            skip_ws(ctx, pos);
            if !at_is(ctx, *pos, ',') {
                return Err(ParseFailure { at: *pos, expected: vec!["\",\"".to_owned()] });
            }
            *pos = *pos + 1;
            let value_param = rule_type(ctx, pos)?;
            skip_ws(ctx, pos);
            if at_is(ctx, *pos, '>') {
                *pos = *pos + 1;
                let full = ctx.index.range(Ghost(ctx.chars@), start, *pos);
                base = Type::map(key_param, value_param, word_range, full);
            } else {
                return Err(ParseFailure { at: *pos, expected: vec!["\">\"".to_owned()] });
            }
        } else {
            *pos = save;
            base = Type::non_generic_map(word_range, word_range);
        }
    } else if is_reserved(word.as_str()) {
        return Err(ParseFailure { at: start, expected: vec!["IDENT".to_owned()] });
    } else {
        // a dotted custom name, resolved in a later pass
        let mut full = word;
        let mut end = wend;
        loop
            invariant
                ctx.wf(),
                n == ctx.len(),
                *old(pos) <= start,
                start < end <= *pos <= n,
            decreases n - *pos,
        {
            let save = *pos;
            skip_ws(ctx, pos);
            if at_is(ctx, *pos, '.') {
                *pos = *pos + 1;
                let seg = match rule_ident(ctx, pos) {
                    Ok(seg) => seg,
                    Err(f) => {
                        return Err(f);
                    },
                };
                full.append(".");
                full.append(seg.0.as_str());
                end = seg.2;
            } else {
                *pos = save;
                break ;
            }
        }
        let range = ctx.index.range(Ghost(ctx.chars@), start, end);
        base = Type::simple_type(full, TypeKind::Unresolved, range, range);
    }
    // any number of array suffixes; more than one dimension is caught by
    // the validation pass, not here
    loop
        invariant
            ctx.wf(),
            n == ctx.len(),
            *old(pos) <= start < *pos <= n,
            type_wf(base) && type_parsed(base),
        decreases n - *pos,
    {
        let save = *pos;
        skip_ws(ctx, pos);
        if at_is(ctx, *pos, '[') {
            *pos = *pos + 1;
            skip_ws(ctx, pos);
            if at_is(ctx, *pos, ']') {
                *pos = *pos + 1;
                let range = ctx.index.range(Ghost(ctx.chars@), start, *pos);
                base = Type::array(base, range, range);
            } else {
                return Err(ParseFailure { at: *pos, expected: vec!["\"]\"".to_owned()] });
            }
        } else {
            *pos = save;
            return Ok(base);
        }
    }
}


/// The value of a run of decimal digits.
pub open spec fn spec_digits_val(s: Seq<char>) -> int
    decreases s.len(),
{
    if s.len() == 0 {
        0
    } else {
        spec_digits_val(s.drop_last()) * 10 + (s.last() as int - '0' as int)
    }
}

/// Read the digits `[start, end)` as a 32-bit number; `None` when the
/// value does not fit.
fn rule_u32(ctx: &Ctx, start: usize, end: usize) -> (r: Option<u32>)
    requires
        ctx.wf(),
        start <= end <= ctx.len(),
        forall|i: int| start <= i < end ==> spec_is_digit(#[trigger] ctx.chars@[i]),
    ensures
        r matches Some(v) ==> v == spec_digits_val(
            ctx.chars@.subrange(start as int, end as int),
        ),
{
    let mut value: u32 = 0;
    let mut i = start;
    proof {
        assert(ctx.chars@.subrange(start as int, start as int) =~= Seq::<char>::empty());
    }
    while i < end
        invariant
            ctx.wf(),
            start <= i <= end <= ctx.len(),
            forall|k: int| start <= k < end ==> spec_is_digit(#[trigger] ctx.chars@[k]),
            value == spec_digits_val(ctx.chars@.subrange(start as int, i as int)),
        decreases end - i,
    {
        let c = at(ctx, i);
        let d: u32 = (c as u32) - ('0' as u32);
        let shifted = match value.checked_mul(10) {
            Some(v) => v,
            None => {
                return None;
            },
        };
        let next = match shifted.checked_add(d) {
            Some(v) => v,
            None => {
                return None;
            },
        };
        proof {
            let pre = ctx.chars@.subrange(start as int, i as int);
            assert(ctx.chars@.subrange(start as int, i + 1) =~= pre.push(ctx.chars@[i as int]));
            assert(ctx.chars@.subrange(start as int, i + 1).drop_last() =~= pre);
        }
        value = next;
        i = i + 1;
    }
    Some(value)
}

/// Consume malformed input up to the next terminator of the current
/// context: past a `;` (or, inside an enum body, a `,`), or up to but not
/// including the `}` that closes the body. Quoted strings, comments and
/// brace-enclosed values are skipped whole.
fn skip_element(ctx: &Ctx, pos: &mut usize, enum_mode: bool)
    requires
        ctx.wf(),
        *old(pos) <= ctx.len(),
    ensures
        *old(pos) <= *final(pos) <= ctx.len(),
{
    let n = ctx.chars.len();
    let mut depth: usize = 0;
    loop
        invariant
            ctx.wf(),
            n == ctx.len(),
            *old(pos) <= *pos <= n,
        decreases n - *pos,
    {
        skip_ws(ctx, pos);
        if *pos >= n {
            return ;
        }
        let c = at(ctx, *pos);
        if c == '"' {
            // skip a quoted string; it cannot span a line break
            *pos = *pos + 1;
            let ghost p0 = *pos;
            while *pos < n && !(at(ctx, *pos) == '"' || at(ctx, *pos) == '\n')
                invariant
                    ctx.wf(),
                    n == ctx.len(),
                    *old(pos) < p0 <= *pos <= n,
                decreases n - *pos,
            {
                *pos = *pos + 1;
            }
            if *pos < n && at(ctx, *pos) == '"' {
                *pos = *pos + 1;
            }
        } else if c == '{' {
            if depth < usize::MAX {
                depth = depth + 1;
            }
            *pos = *pos + 1;
        } else if c == '}' {
            if depth == 0 {
                return ;
            }
            depth = depth - 1;
            *pos = *pos + 1;
        } else if c == ';' && depth == 0 && !enum_mode {
            *pos = *pos + 1;
            return ;
        } else if c == ',' && depth == 0 && enum_mode {
            *pos = *pos + 1;
            return ;
        } else {
            *pos = *pos + 1;
        }
    }
}

/// Whether an identifier-shaped word stands at the next token position.
pub open spec fn word_at(s: Seq<char>, i: int) -> bool {
    let st = spec_skip(s, i);
    st < s.len() && spec_is_ident_start(s[st])
}

/// Whether the next token is exactly the word `kw`.
pub open spec fn keyword_at(s: Seq<char>, i: int, kw: Seq<char>) -> bool {
    let st = spec_skip(s, i);
    &&& word_at(s, i)
    &&& s.subrange(st, ident_end_at(s, st)) == kw
}

/// Try to read one word (an identifier-shaped run) without committing to
/// it; yields exactly the word at the next token position, when one
/// stands there.
fn peek_word(ctx: &Ctx, pos: usize) -> (r: Option<(String, usize, usize)>)
    requires
        ctx.wf(),
        pos <= ctx.len(),
    ensures
        ({
            let s = ctx.chars@;
            let st = spec_skip(s, pos as int);
            match r {
                Some(w) => {
                    &&& word_at(s, pos as int)
                    &&& pos <= w.1 < w.2 <= ctx.len()
                    &&& w.1 == st
                    &&& w.2 == ident_end_at(s, st)
                    &&& w.0@ == s.subrange(w.1 as int, w.2 as int)
                },
                None => !word_at(s, pos as int),
            }
        }),
{
    let ghost s = ctx.chars@;
    let n = ctx.chars.len();
    let mut p = pos;
    skip_ws(ctx, &mut p);
    if p < n && is_ident_start(at(ctx, p)) {
        let start = p;
        let mut end = start + 1;
        while end < n && is_ident_char(at(ctx, end))
            invariant
                ctx.wf(),
                s == ctx.chars@,
                n == ctx.len(),
                start < end <= n,
                ident_end_at(s, start as int) == ident_end_at(s, end as int),
            decreases n - end,
        {
            end = end + 1;
        }
        proof {
            assert(ident_end_at(s, start as int) == end as int);
        }
        Some((take_str(ctx, start, end), start, end))
    } else {
        None
    }
}

/// Parse one method argument: documentation, annotations, an optional
/// direction, the type, and an optional name.
pub fn rule_arg(ctx: &Ctx, pos: &mut usize) -> (r: Result<Arg, ParseFailure>)
    requires
        ctx.wf(),
        *old(pos) <= ctx.len(),
    ensures
        *old(pos) <= *final(pos) <= ctx.len(),
        r matches Err(f) ==> f.at <= ctx.len(),
        r matches Ok(a) ==> crate::ast::arg_ok(a),
{
    skip_ws(ctx, pos);
    let arg_start = *pos;
    let doc = javadoc_with(ctx.text, ctx.chars, arg_start);
    let annotations = rule_annotations(ctx, pos)?;
    let mut direction = Direction::Unspecified;
    match peek_word(ctx, *pos) {
        Some((word, wstart, wend)) => {
            let range = ctx.index.range(Ghost(ctx.chars@), wstart, wend);
            if str_eq(word.as_str(), "in") {
                direction = Direction::In(range);
                *pos = wend;
            } else if str_eq(word.as_str(), "out") {
                direction = Direction::Out(range);
                *pos = wend;
            } else if str_eq(word.as_str(), "inout") {
                direction = Direction::InOut(range);
                *pos = wend;
            }
        },
        None => (),
    }
    let arg_type = rule_type(ctx, pos)?;
    let mut name: Option<String> = None;
    let mut end = *pos;
    let mut name_start = *pos;
    let save = *pos;
    match rule_ident(ctx, pos) {
        Ok(id) => {
            name = Some(id.0);
            name_start = id.1;
            end = id.2;
        },
        Err(_) => {
            *pos = save;
        },
    }
    let symbol_range = match &name {
        Some(_) => ctx.index.range(Ghost(ctx.chars@), name_start, end),
        None => arg_type.symbol_range,
    };
    let full_range = ctx.index.range(Ghost(ctx.chars@), arg_start, end);
    Ok(Arg { direction, name, arg_type, annotations, doc, symbol_range, full_range })
}

/// Parse a method declaration, the shared documentation and annotations
/// having already been read: an optional `oneway`, the return type, the
/// name, the parenthesized arguments, an optional numeric transact code,
/// and the closing `;`.
pub fn rule_method(
    ctx: &Ctx,
    pos: &mut usize,
    doc: Option<String>,
    annotations: Vec<Annotation>,
) -> (r: Result<Method, ParseFailure>)
    requires
        ctx.wf(),
        *old(pos) <= ctx.len(),
    ensures
        *old(pos) <= *final(pos) <= ctx.len(),
        r matches Err(f) ==> f.at <= ctx.len(),
        r matches Ok(m) ==> crate::ast::method_ok(m),
{
    let n = ctx.chars.len();
    skip_ws(ctx, pos);
    let method_start = *pos;
    let mut oneway = false;
    let mut oneway_range = ctx.index.range(Ghost(ctx.chars@), method_start, method_start);
    match peek_word(ctx, *pos) {
        Some((word, wstart, wend)) => {
            if str_eq(word.as_str(), "oneway") {
                oneway = true;
                oneway_range = ctx.index.range(Ghost(ctx.chars@), wstart, wend);
                *pos = wend;
            }
        },
        None => (),
    }
    let return_type = rule_type(ctx, pos)?;
    let name = match rule_ident(ctx, pos) {
        Ok(id) => id,
        Err(f) => {
            return Err(
                ParseFailure { at: f.at, expected: name_after_type_expected(&return_type) },
            );
        },
    };
    let symbol_range = ctx.index.range(Ghost(ctx.chars@), name.1, name.2);
    skip_ws(ctx, pos);
    if !at_is(ctx, *pos, '(') {
        return Err(ParseFailure { at: *pos, expected: vec!["\"(\"".to_owned()] });
    }
    *pos = *pos + 1;
    let mut args: Vec<Arg> = Vec::new();
    skip_ws(ctx, pos);
    if at_is(ctx, *pos, ')') {
        *pos = *pos + 1;
    } else {
        loop
            invariant
                ctx.wf(),
                n == ctx.len(),
                *old(pos) <= *pos <= n,
                forall|i: int| 0 <= i < args@.len() ==> crate::ast::arg_ok(#[trigger] args@[i]),
            decreases n - *pos,
        {
            let before: usize = *pos;
            let arg = rule_arg(ctx, pos)?;
            args.push(arg);
            skip_ws(ctx, pos);
            if at_is(ctx, *pos, ',') {
                *pos = *pos + 1;
                skip_ws(ctx, pos);
                if at_is(ctx, *pos, ')') {
                    // a trailing comma before the closing parenthesis
                    *pos = *pos + 1;
                    break ;
                }
            } else if at_is(ctx, *pos, ')') {
                *pos = *pos + 1;
                break ;
            } else {
                return Err(ParseFailure {
                    at: *pos,
                    expected: vec!["\")\"".to_owned(), "\",\"".to_owned()],
                });
            }
            if *pos <= before {
                return Err(ParseFailure { at: *pos, expected: vec!["\")\"".to_owned()] });
            }
        }
    }
    // the optional numeric transact code
    let mut transact_code: Option<u32> = None;
    let mut code_range: Option<Range> = None;
    let save = *pos;
    skip_ws(ctx, pos);
    if at_is(ctx, *pos, '=') {
        *pos = *pos + 1;
        skip_ws(ctx, pos);
        let num_start = *pos;
        let mut num_end = num_start;
        while num_end < n && is_digit(at(ctx, num_end))
            invariant
                ctx.wf(),
                n == ctx.len(),
                num_start <= num_end <= n,
                forall|k: int|
                    num_start <= k < num_end ==> spec_is_digit(#[trigger] ctx.chars@[k]),
            decreases n - num_end,
        {
            num_end = num_end + 1;
        }
        let followed_by_more = num_end < n && (is_ident_char(at(ctx, num_end)) || at(
            ctx,
            num_end,
        ) == '.');
        if num_end == num_start || followed_by_more {
            return Err(ParseFailure { at: num_start, expected: vec!["NUMBER".to_owned()] });
        }
        match rule_u32(ctx, num_start, num_end) {
            Some(v) => {
                transact_code = Some(v);
                code_range = Some(ctx.index.range(Ghost(ctx.chars@), num_start, num_end));
                *pos = num_end;
            },
            None => {
                return Err(ParseFailure { at: num_start, expected: vec!["NUMBER".to_owned()] });
            },
        }
    } else {
        *pos = save;
    }
    skip_ws(ctx, pos);
    if !at_is(ctx, *pos, ';') {
        let expected = if transact_code.is_none() {
            vec!["\";\"".to_owned(), "\"=\"".to_owned()]
        } else {
            vec!["\";\"".to_owned()]
        };
        return Err(ParseFailure { at: *pos, expected });
    }
    *pos = *pos + 1;
    let full_range = ctx.index.range(Ghost(ctx.chars@), method_start, *pos);
    let transact_code_range = match code_range {
        Some(r) => r,
        None => ctx.index.range(Ghost(ctx.chars@), full_range.end.offset, full_range.end.offset),
    };
    Ok(
        Method {
            oneway,
            name: name.0,
            return_type,
            args,
            annotations,
            transact_code,
            doc,
            symbol_range,
            full_range,
            transact_code_range,
            oneway_range,
        },
    )
}

/// Parse a constant declaration, `const` having already been consumed:
/// the type, the name, `=`, the value, and the closing `;`.
pub fn rule_const(
    ctx: &Ctx,
    pos: &mut usize,
    doc: Option<String>,
    annotations: Vec<Annotation>,
    const_start: usize,
) -> (r: Result<Const, ParseFailure>)
    requires
        ctx.wf(),
        *old(pos) <= ctx.len(),
        const_start <= ctx.len(),
    ensures
        *old(pos) <= *final(pos) <= ctx.len(),
        r matches Err(f) ==> f.at <= ctx.len(),
        r matches Ok(c) ==> crate::ast::const_ok(c),
{
    let const_type = rule_type(ctx, pos)?;
    let name = match rule_ident(ctx, pos) {
        Ok(id) => id,
        Err(f) => {
            return Err(ParseFailure { at: f.at, expected: name_after_type_expected(&const_type) });
        },
    };
    let symbol_range = ctx.index.range(Ghost(ctx.chars@), name.1, name.2);
    skip_ws(ctx, pos);
    if !at_is(ctx, *pos, '=') {
        return Err(ParseFailure { at: *pos, expected: vec!["\"=\"".to_owned()] });
    }
    *pos = *pos + 1;
    let value = rule_value(ctx, pos)?;
    skip_ws(ctx, pos);
    if !at_is(ctx, *pos, ';') {
        return Err(ParseFailure { at: *pos, expected: vec!["\";\"".to_owned()] });
    }
    *pos = *pos + 1;
    let full_range = ctx.index.range(Ghost(ctx.chars@), const_start, *pos);
    Ok(Const { name: name.0, const_type, value: value.0, annotations, doc, symbol_range, full_range })
}

/// Parse a parcelable field, the shared documentation and annotations
/// having already been read: the type, the name, an optional `= value`,
/// and the closing `;`.
pub fn rule_field(
    ctx: &Ctx,
    pos: &mut usize,
    doc: Option<String>,
    annotations: Vec<Annotation>,
) -> (r: Result<Field, ParseFailure>)
    requires
        ctx.wf(),
        *old(pos) <= ctx.len(),
    ensures
        *old(pos) <= *final(pos) <= ctx.len(),
        r matches Err(f) ==> f.at <= ctx.len(),
        r matches Ok(x) ==> crate::ast::field_ok(x),
{
    skip_ws(ctx, pos);
    let field_start = *pos;
    let field_type = rule_type(ctx, pos)?;
    let name = match rule_ident(ctx, pos) {
        Ok(id) => id,
        Err(f) => {
            return Err(ParseFailure { at: f.at, expected: name_after_type_expected(&field_type) });
        },
    };
    let symbol_range = ctx.index.range(Ghost(ctx.chars@), name.1, name.2);
    let mut value: Option<String> = None;
    let save = *pos;
    skip_ws(ctx, pos);
    if at_is(ctx, *pos, '=') {
        *pos = *pos + 1;
        let v = rule_value(ctx, pos)?;
        value = Some(v.0);
    } else {
        *pos = save;
    }
    skip_ws(ctx, pos);
    if !at_is(ctx, *pos, ';') {
        let expected = if value.is_none() {
            vec!["\";\"".to_owned(), "\"=\"".to_owned()]
        } else {
            vec!["\";\"".to_owned()]
        };
        return Err(ParseFailure { at: *pos, expected });
    }
    *pos = *pos + 1;
    let full_range = ctx.index.range(Ghost(ctx.chars@), field_start, *pos);
    Ok(Field { name: name.0, field_type, value, annotations, doc, symbol_range, full_range })
}

/// Parse one enumeration element: documentation, the name, and an
/// optional `= value`.
pub fn rule_enum_element(ctx: &Ctx, pos: &mut usize) -> (r: Result<EnumElement, ParseFailure>)
    requires
        ctx.wf(),
        *old(pos) <= ctx.len(),
    ensures
        *old(pos) <= *final(pos) <= ctx.len(),
        r matches Err(f) ==> f.at <= ctx.len(),
{
    skip_ws(ctx, pos);
    let el_start = *pos;
    let doc = javadoc_with(ctx.text, ctx.chars, el_start);
    let name = match rule_ident(ctx, pos) {
        Ok(id) => id,
        Err(f) => {
            // at the start of an element the body may also close
            return Err(
                ParseFailure {
                    at: f.at,
                    expected: vec!["\"}\"".to_owned(), "IDENT".to_owned()],
                },
            );
        },
    };
    let symbol_range = ctx.index.range(Ghost(ctx.chars@), name.1, name.2);
    let mut value: Option<String> = None;
    let mut end = name.2;
    let save = *pos;
    skip_ws(ctx, pos);
    if at_is(ctx, *pos, '=') {
        *pos = *pos + 1;
        let v = rule_value(ctx, pos)?;
        value = Some(v.0);
        end = v.2;
    } else {
        *pos = save;
    }
    let full_range = ctx.index.range(Ghost(ctx.chars@), name.1, end);
    Ok(EnumElement { name: name.0, value, doc, symbol_range, full_range })
}


/// Consume one specific keyword, reporting it under its token name.
/// Succeeds exactly when the next token is that word, returning its span.
fn expect_keyword(ctx: &Ctx, pos: &mut usize, kw: &str, token_name: &str) -> (r: Result<
    (usize, usize),
    ParseFailure,
>)
    requires
        ctx.wf(),
        *old(pos) <= ctx.len(),
    ensures
        *old(pos) <= *final(pos) <= ctx.len(),
        r matches Err(f) ==> f.at <= ctx.len() && !keyword_at(
            ctx.chars@,
            *old(pos) as int,
            kw@,
        ),
        r matches Ok(sp) ==> {
            &&& keyword_at(ctx.chars@, *old(pos) as int, kw@)
            &&& sp.0 == spec_skip(ctx.chars@, *old(pos) as int)
            &&& sp.1 == ident_end_at(ctx.chars@, sp.0 as int)
            &&& sp.0 <= sp.1 <= ctx.len()
            &&& *final(pos) == sp.1
        },
{
    let ghost s = ctx.chars@;
    skip_ws(ctx, pos);
    proof {
        lemma_skip_idempotent(s, *old(pos) as int);
    }
    match peek_word(ctx, *pos) {
        Some((word, wstart, wend)) => {
            if str_eq(word.as_str(), kw) {
                *pos = wend;
                Ok((wstart, wend))
            } else {
                Err(ParseFailure { at: wstart, expected: vec![token_name.to_owned()] })
            }
        },
        None => Err(ParseFailure { at: *pos, expected: vec![token_name.to_owned()] }),
    }
}

/// The package declaration standing at or after `i`: its dotted name,
/// the name's span, the `package` keyword's offset, and the position
/// after the closing `;`.
pub open spec fn spec_package(s: Seq<char>, i: int) -> Option<(Seq<char>, int, int, int, int)> {
    if !keyword_at(s, i, "package"@) {
        None
    } else {
        let kws = spec_skip(s, i);
        let kwe = ident_end_at(s, kws);
        match spec_qname(s, kwe) {
            Some(q) => {
                let sk = spec_skip(s, q.5);
                if sk < s.len() && s[sk] == ';' {
                    Some((q.0, q.3, q.4, kws, sk + 1))
                } else {
                    None
                }
            },
            None => None,
        }
    }
}

/// Parse the package declaration that opens a compilation unit: succeeds
/// exactly when `package`, a qualified name and `;` stand at the next
/// token positions, returning the name and the spanned ranges.
pub fn rule_package(ctx: &Ctx, pos: &mut usize) -> (r: Result<Package, ParseFailure>)
    requires
        ctx.wf(),
        *old(pos) <= ctx.len(),
    ensures
        *old(pos) <= *final(pos) <= ctx.len(),
        r matches Err(f) ==> f.at <= ctx.len() && spec_package(ctx.chars@, *old(pos) as int)
            is None,
        r matches Ok(p) ==> {
            &&& spec_package(ctx.chars@, *old(pos) as int) matches Some(sp)
            &&& p.name@ == sp.0
            &&& p.symbol_range == crate::line_index::range_of(ctx.chars@, sp.1, sp.2)
            &&& p.full_range == crate::line_index::range_of(ctx.chars@, sp.3, sp.4)
            &&& *final(pos) == sp.4
        },
{
    let ghost s = ctx.chars@;
    let kw = expect_keyword(ctx, pos, "package", "PACKAGE")?;
    let q = rule_qualified_name(ctx, pos)?;
    skip_ws(ctx, pos);
    if !at_is(ctx, *pos, ';') {
        return Err(ParseFailure {
            at: *pos,
            expected: vec!["\".\"".to_owned(), "\";\"".to_owned()],
        });
    }
    *pos = *pos + 1;
    Ok(
        Package {
            name: q.full,
            symbol_range: ctx.index.range(Ghost(ctx.chars@), q.start, q.end),
            full_range: ctx.index.range(Ghost(ctx.chars@), kw.0, *pos),
        },
    )
}

/// The import or forward-declaration body standing at or after `i`: a
/// qualified name and `;`, with the name's split, its span and the
/// position after the `;`.
pub open spec fn spec_import_tail(s: Seq<char>, i: int) -> Option<
    (Seq<char>, Seq<char>, int, int, int),
> {
    match spec_qname(s, i) {
        Some(q) => {
            let sk = spec_skip(s, q.5);
            if sk < s.len() && s[sk] == ';' {
                Some((q.1, q.2, q.3, q.4, sk + 1))
            } else {
                None
            }
        },
        None => None,
    }
}

/// Parse one `import` statement, the keyword already consumed at
/// `kw_start`: succeeds exactly when a qualified name and `;` follow,
/// returning the split name and its ranges.
fn rule_import_tail(ctx: &Ctx, pos: &mut usize, kw_start: usize) -> (r: Result<
    Import,
    ParseFailure,
>)
    requires
        ctx.wf(),
        *old(pos) <= ctx.len(),
        kw_start <= ctx.len(),
    ensures
        *old(pos) <= *final(pos) <= ctx.len(),
        r matches Err(f) ==> f.at <= ctx.len() && spec_import_tail(ctx.chars@, *old(pos) as int)
            is None,
        r matches Ok(imp) ==> {
            &&& spec_import_tail(ctx.chars@, *old(pos) as int) matches Some(si)
            &&& imp.path@ == si.0
            &&& imp.name@ == si.1
            &&& imp.symbol_range == crate::line_index::range_of(ctx.chars@, si.2, si.3)
            &&& imp.full_range == crate::line_index::range_of(ctx.chars@, kw_start as int, si.4)
            &&& *final(pos) == si.4
        },
{
    let q = rule_qualified_name(ctx, pos)?;
    skip_ws(ctx, pos);
    if !at_is(ctx, *pos, ';') {
        return Err(ParseFailure {
            at: *pos,
            expected: vec!["\".\"".to_owned(), "\";\"".to_owned()],
        });
    }
    *pos = *pos + 1;
    Ok(
        Import {
            path: q.path,
            name: q.name,
            symbol_range: ctx.index.range(Ghost(ctx.chars@), q.start, q.end),
            full_range: ctx.index.range(Ghost(ctx.chars@), kw_start, *pos),
        },
    )
}

/// Parse an interface body, `interface` already consumed: the name, then
/// constants and methods between braces. A malformed element is dropped
/// with one diagnostic and parsing resumes after it.
pub fn rule_interface(
    ctx: &Ctx,
    pos: &mut usize,
    diagnostics: &mut Vec<Diagnostic>,
    doc: Option<String>,
    annotations: Vec<Annotation>,
    item_start: usize,
    oneway: bool,
) -> (r: Result<Interface, ParseFailure>)
    requires
        ctx.wf(),
        *old(pos) <= ctx.len(),
        item_start <= ctx.len(),
    ensures
        *old(pos) <= *final(pos) <= ctx.len(),
        appends_errors(old(diagnostics)@, final(diagnostics)@),
        r matches Err(f) ==> f.at <= ctx.len(),
        r matches Ok(i) ==> forall|k: int|
            0 <= k < i.elements@.len() ==> crate::ast::interface_element_ok(
                #[trigger] i.elements@[k],
            ),
{
    let n = ctx.chars.len();
    let name = rule_ident(ctx, pos)?;
    let symbol_range = ctx.index.range(Ghost(ctx.chars@), name.1, name.2);
    skip_ws(ctx, pos);
    if !at_is(ctx, *pos, '{') {
        return Err(ParseFailure { at: *pos, expected: vec!["\"{\"".to_owned()] });
    }
    *pos = *pos + 1;
    let mut elements: Vec<InterfaceElement> = Vec::new();
    loop
        invariant
            ctx.wf(),
            n == ctx.len(),
            *old(pos) <= *pos <= n,
            appends_errors(old(diagnostics)@, diagnostics@),
            forall|k: int|
                0 <= k < elements@.len() ==> crate::ast::interface_element_ok(
                    #[trigger] elements@[k],
                ),
        decreases n - *pos,
    {
        skip_ws(ctx, pos);
        let iter_start = *pos;
        if at_is(ctx, *pos, '}') {
            *pos = *pos + 1;
            break ;
        }
        if *pos >= n {
            return Err(ParseFailure { at: *pos, expected: vec!["\"}\"".to_owned()] });
        }
        let el_doc = javadoc_with(ctx.text, ctx.chars, *pos);
        let attempt: Result<InterfaceElement, ParseFailure> = match rule_annotations(ctx, pos) {
            Ok(el_annotations) => {
                let is_const = match peek_word(ctx, *pos) {
                    Some((word, _, wend)) => {
                        if str_eq(word.as_str(), "const") {
                            *pos = wend;
                            true
                        } else {
                            false
                        }
                    },
                    None => false,
                };
                if is_const {
                    match rule_const(ctx, pos, el_doc, el_annotations, iter_start) {
                        Ok(c) => Ok(InterfaceElement::Const(c)),
                        Err(f) => Err(f),
                    }
                } else {
                    match rule_method(ctx, pos, el_doc, el_annotations) {
                        Ok(m) => Ok(InterfaceElement::Method(m)),
                        Err(f) => Err(f),
                    }
                }
            },
            Err(f) => Err(f),
        };
        match attempt {
            Ok(el) => {
                elements.push(el);
            },
            Err(f) => {
                diagnostics.push(failure_diagnostic(ctx, &f, "Invalid interface element"));
                // consume the malformed element whole, from its start, so
                // that quoted strings and braced values stay balanced
                *pos = iter_start;
                skip_element(ctx, pos, false);
            },
        }
        if *pos <= iter_start {
            // no progress: the body can only be closing or truncated here
            if at_is(ctx, *pos, '}') {
                *pos = *pos + 1;
                break ;
            }
            return Err(ParseFailure { at: *pos, expected: vec!["\"}\"".to_owned()] });
        }
    }
    let full_range = ctx.index.range(Ghost(ctx.chars@), item_start, *pos);
    Ok(Interface { oneway, name: name.0, elements, annotations, doc, full_range, symbol_range })
}

/// Parse a parcelable body, `parcelable` and the name already consumed:
/// constants and fields between braces, with the same per-element
/// recovery as an interface body.
pub fn rule_parcelable(
    ctx: &Ctx,
    pos: &mut usize,
    diagnostics: &mut Vec<Diagnostic>,
    doc: Option<String>,
    annotations: Vec<Annotation>,
    item_start: usize,
    name: String,
    symbol_range: Range,
) -> (r: Result<Parcelable, ParseFailure>)
    requires
        ctx.wf(),
        *old(pos) <= ctx.len(),
        item_start <= ctx.len(),
    ensures
        *old(pos) <= *final(pos) <= ctx.len(),
        appends_errors(old(diagnostics)@, final(diagnostics)@),
        r matches Err(f) ==> f.at <= ctx.len(),
        r matches Ok(p) ==> forall|k: int|
            0 <= k < p.elements@.len() ==> crate::ast::parcelable_element_ok(
                #[trigger] p.elements@[k],
            ),
{
    let n = ctx.chars.len();
    skip_ws(ctx, pos);
    if !at_is(ctx, *pos, '{') {
        return Err(ParseFailure { at: *pos, expected: vec!["\"{\"".to_owned()] });
    }
    *pos = *pos + 1;
    let mut elements: Vec<ParcelableElement> = Vec::new();
    loop
        invariant
            ctx.wf(),
            n == ctx.len(),
            *old(pos) <= *pos <= n,
            appends_errors(old(diagnostics)@, diagnostics@),
            forall|k: int|
                0 <= k < elements@.len() ==> crate::ast::parcelable_element_ok(
                    #[trigger] elements@[k],
                ),
        decreases n - *pos,
    {
        skip_ws(ctx, pos);
        let iter_start = *pos;
        if at_is(ctx, *pos, '}') {
            *pos = *pos + 1;
            break ;
        }
        if *pos >= n {
            return Err(ParseFailure { at: *pos, expected: vec!["\"}\"".to_owned()] });
        }
        let el_doc = javadoc_with(ctx.text, ctx.chars, *pos);
        let attempt: Result<ParcelableElement, ParseFailure> = match rule_annotations(ctx, pos) {
            Ok(el_annotations) => {
                let is_const = match peek_word(ctx, *pos) {
                    Some((word, _, wend)) => {
                        if str_eq(word.as_str(), "const") {
                            *pos = wend;
                            true
                        } else {
                            false
                        }
                    },
                    None => false,
                };
                if is_const {
                    match rule_const(ctx, pos, el_doc, el_annotations, iter_start) {
                        Ok(c) => Ok(ParcelableElement::Const(c)),
                        Err(f) => Err(f),
                    }
                } else {
                    match rule_field(ctx, pos, el_doc, el_annotations) {
                        Ok(x) => Ok(ParcelableElement::Field(x)),
                        Err(f) => Err(f),
                    }
                }
            },
            Err(f) => Err(f),
        };
        match attempt {
            Ok(el) => {
                elements.push(el);
            },
            Err(f) => {
                diagnostics.push(failure_diagnostic(ctx, &f, "Invalid field"));
                *pos = iter_start;
                skip_element(ctx, pos, false);
            },
        }
        if *pos <= iter_start {
            if at_is(ctx, *pos, '}') {
                *pos = *pos + 1;
                break ;
            }
            return Err(ParseFailure { at: *pos, expected: vec!["\"}\"".to_owned()] });
        }
    }
    let full_range = ctx.index.range(Ghost(ctx.chars@), item_start, *pos);
    Ok(Parcelable { name, elements, annotations, doc, full_range, symbol_range })
}

/// Parse an enumeration body, `enum` already consumed: the name, then
/// comma-separated elements (a trailing comma is allowed), with
/// per-element recovery.
pub fn rule_enum(
    ctx: &Ctx,
    pos: &mut usize,
    diagnostics: &mut Vec<Diagnostic>,
    doc: Option<String>,
    annotations: Vec<Annotation>,
    item_start: usize,
) -> (r: Result<Enum, ParseFailure>)
    requires
        ctx.wf(),
        *old(pos) <= ctx.len(),
        item_start <= ctx.len(),
    ensures
        *old(pos) <= *final(pos) <= ctx.len(),
        appends_errors(old(diagnostics)@, final(diagnostics)@),
        r matches Err(f) ==> f.at <= ctx.len(),
{
    let n = ctx.chars.len();
    let name = rule_ident(ctx, pos)?;
    let symbol_range = ctx.index.range(Ghost(ctx.chars@), name.1, name.2);
    skip_ws(ctx, pos);
    if !at_is(ctx, *pos, '{') {
        return Err(ParseFailure { at: *pos, expected: vec!["\"{\"".to_owned()] });
    }
    *pos = *pos + 1;
    let mut elements: Vec<EnumElement> = Vec::new();
    loop
        invariant
            ctx.wf(),
            n == ctx.len(),
            *old(pos) <= *pos <= n,
            appends_errors(old(diagnostics)@, diagnostics@),
        decreases n - *pos,
    {
        skip_ws(ctx, pos);
        let iter_start = *pos;
        if at_is(ctx, *pos, '}') {
            *pos = *pos + 1;
            break ;
        }
        if *pos >= n {
            return Err(ParseFailure { at: *pos, expected: vec!["\"}\"".to_owned()] });
        }
        match rule_enum_element(ctx, pos) {
            Ok(el) => {
                elements.push(el);
                skip_ws(ctx, pos);
                if at_is(ctx, *pos, ',') {
                    *pos = *pos + 1;
                } else if at_is(ctx, *pos, '}') {
                    *pos = *pos + 1;
                    break ;
                } else {
                    let f = ParseFailure {
                        at: *pos,
                        expected: vec!["\",\"".to_owned(), "\"}\"".to_owned()],
                    };
                    diagnostics.push(failure_diagnostic(ctx, &f, "Invalid enum element"));
                    skip_element(ctx, pos, true);
                }
            },
            Err(f) => {
                diagnostics.push(failure_diagnostic(ctx, &f, "Invalid enum element"));
                *pos = iter_start;
                skip_element(ctx, pos, true);
            },
        }
        if *pos <= iter_start {
            if at_is(ctx, *pos, '}') {
                *pos = *pos + 1;
                break ;
            }
            return Err(ParseFailure { at: *pos, expected: vec!["\"}\"".to_owned()] });
        }
    }
    let full_range = ctx.index.range(Ghost(ctx.chars@), item_start, *pos);
    Ok(Enum { name: name.0, elements, annotations, doc, full_range, symbol_range })
}


/// The diagnostic for input left over after a complete parse.
fn extra_token_diagnostic(ctx: &Ctx, start: usize) -> (d: Diagnostic)
    requires
        ctx.wf(),
        start < ctx.len(),
    ensures
        d.kind == DiagnosticKind::Error,
{
    let n = ctx.chars.len();
    let mut end = start + 1;
    if is_ident_char(at(ctx, start)) {
        while end < n && is_ident_char(at(ctx, end))
            invariant
                ctx.wf(),
                n == ctx.len(),
                start < end <= n,
            decreases n - end,
        {
            end = end + 1;
        }
    }
    let mut message = "Extra token `".to_owned();
    message.append(take_str(ctx, start, end).as_str());
    message.append("`");
    Diagnostic {
        kind: DiagnosticKind::Error,
        range: ctx.index.range(Ghost(ctx.chars@), start, end),
        message,
        context_message: Some("extra token".to_owned()),
        hint: None,
        related_infos: Vec::new(),
    }
}

/// The alternatives that may open an item (or continue the import list).
fn item_expected() -> (v: Vec<String>)
{
    vec![
        "ANNOTATION".to_owned(),
        "ENUM".to_owned(),
        "IMPORT".to_owned(),
        "INTERFACE".to_owned(),
        "ONEWAY".to_owned(),
        "PARCELABLE".to_owned(),
    ]
}

/// Parse one compilation unit against an already built context: the
/// package, any imports and forward parcelable declarations, and the one
/// item.
///
/// A failed package or import is unrecoverable and returned as the error
/// diagnostic. A failed item still yields `Ok(None)`: the diagnostic is
/// pushed, prefixed `Invalid item`, and the rest of the input is ignored.
pub fn rule_aidl(ctx: &Ctx, pos: &mut usize, diagnostics: &mut Vec<Diagnostic>) -> (r: Result<
    Option<Aidl>,
    Diagnostic,
>)
    requires
        ctx.wf(),
        *old(pos) <= ctx.len(),
    ensures
        *old(pos) <= *final(pos) <= ctx.len(),
        appends_errors(old(diagnostics)@, final(diagnostics)@),
        r matches Err(d) ==> d.kind == DiagnosticKind::Error,
        r matches Ok(Some(a)) ==> crate::ast::aidl_ok(a),
{
    let n = ctx.chars.len();
    let package = match rule_package(ctx, pos) {
        Ok(p) => p,
        Err(f) => {
            return Err(failure_diagnostic(ctx, &f, ""));
        },
    };
    let mut imports: Vec<Import> = Vec::new();
    let mut declared_parcelables: Vec<Import> = Vec::new();
    let mut item_opt: Option<Item> = None;
    loop
        invariant
            ctx.wf(),
            n == ctx.len(),
            *old(pos) <= *pos <= n,
            appends_errors(old(diagnostics)@, diagnostics@),
            item_opt matches Some(it) ==> crate::ast::item_ok(it),
        decreases n - *pos,
    {
        skip_ws(ctx, pos);
        let iter_start = *pos;
        if *pos >= n {
            let f = ParseFailure { at: *pos, expected: item_expected() };
            diagnostics.push(failure_diagnostic(ctx, &f, "Invalid item"));
            return Ok(None);
        }
        let doc = javadoc_with(ctx.text, ctx.chars, *pos);
        let item_annotations = match rule_annotations(ctx, pos) {
            Ok(a) => a,
            Err(f) => {
                diagnostics.push(failure_diagnostic(ctx, &f, "Invalid item"));
                return Ok(None);
            },
        };
        let word = match peek_word(ctx, *pos) {
            Some(w) => w,
            None => {
                let f = ParseFailure { at: *pos, expected: item_expected() };
                diagnostics.push(failure_diagnostic(ctx, &f, "Invalid item"));
                return Ok(None);
            },
        };
        let (word_text, word_start, word_end) = word;
        if str_eq(word_text.as_str(), "import") {
            *pos = word_end;
            match rule_import_tail(ctx, pos, word_start) {
                Ok(import) => {
                    imports.push(import);
                },
                Err(f) => {
                    return Err(failure_diagnostic(ctx, &f, ""));
                },
            }
        } else if str_eq(word_text.as_str(), "parcelable") {
            // either a forward declaration `parcelable a.b.C;` or the
            // unit's parcelable item `parcelable Name { … }`
            *pos = word_end;
            let q = match rule_qualified_name(ctx, pos) {
                Ok(q) => q,
                Err(f) => {
                    diagnostics.push(failure_diagnostic(ctx, &f, "Invalid item"));
                    return Ok(None);
                },
            };
            skip_ws(ctx, pos);
            if at_is(ctx, *pos, ';') {
                *pos = *pos + 1;
                declared_parcelables.push(
                    Import {
                        path: q.path,
                        name: q.name,
                        symbol_range: ctx.index.range(Ghost(ctx.chars@), q.start, q.end),
                        full_range: ctx.index.range(Ghost(ctx.chars@), word_start, *pos),
                    },
                );
            } else if at_is(ctx, *pos, '{') {
                if !q.path.as_str().is_empty() {
                    let f = ParseFailure { at: *pos, expected: vec!["\";\"".to_owned()] };
                    diagnostics.push(failure_diagnostic(ctx, &f, "Invalid item"));
                    return Ok(None);
                }
                let symbol_range = ctx.index.range(Ghost(ctx.chars@), q.start, q.end);
                match rule_parcelable(
                    ctx,
                    pos,
                    diagnostics,
                    doc,
                    item_annotations,
                    word_start,
                    q.name,
                    symbol_range,
                ) {
                    Ok(p) => {
                        item_opt = Some(Item::Parcelable(p));
                        break ;
                    },
                    Err(f) => {
                        diagnostics.push(failure_diagnostic(ctx, &f, "Invalid item"));
                        return Ok(None);
                    },
                }
            } else {
                let f = ParseFailure {
                    at: *pos,
                    expected: vec!["\";\"".to_owned(), "\"{\"".to_owned()],
                };
                diagnostics.push(failure_diagnostic(ctx, &f, "Invalid item"));
                return Ok(None);
            }
        } else if str_eq(word_text.as_str(), "interface") {
            *pos = word_end;
            match rule_interface(ctx, pos, diagnostics, doc, item_annotations, word_start, false) {
                Ok(i) => {
                    item_opt = Some(Item::Interface(i));
                    break ;
                },
                Err(f) => {
                    diagnostics.push(failure_diagnostic(ctx, &f, "Invalid item"));
                    return Ok(None);
                },
            }
        } else if str_eq(word_text.as_str(), "oneway") {
            *pos = word_end;
            match expect_keyword(ctx, pos, "interface", "INTERFACE") {
                Ok(_) => (),
                Err(f) => {
                    diagnostics.push(failure_diagnostic(ctx, &f, "Invalid item"));
                    return Ok(None);
                },
            }
            match rule_interface(ctx, pos, diagnostics, doc, item_annotations, word_start, true) {
                Ok(i) => {
                    item_opt = Some(Item::Interface(i));
                    break ;
                },
                Err(f) => {
                    diagnostics.push(failure_diagnostic(ctx, &f, "Invalid item"));
                    return Ok(None);
                },
            }
        } else if str_eq(word_text.as_str(), "enum") {
            *pos = word_end;
            match rule_enum(ctx, pos, diagnostics, doc, item_annotations, word_start) {
                Ok(e) => {
                    item_opt = Some(Item::Enum(e));
                    break ;
                },
                Err(f) => {
                    diagnostics.push(failure_diagnostic(ctx, &f, "Invalid item"));
                    return Ok(None);
                },
            }
        } else {
            let f = ParseFailure { at: word_start, expected: item_expected() };
            diagnostics.push(failure_diagnostic(ctx, &f, "Invalid item"));
            return Ok(None);
        }
        if *pos <= iter_start {
            let f = ParseFailure { at: *pos, expected: item_expected() };
            diagnostics.push(failure_diagnostic(ctx, &f, "Invalid item"));
            return Ok(None);
        }
    }
    let item = match item_opt {
        Some(it) => it,
        None => {
            return Ok(None);
        },
    };
    skip_ws(ctx, pos);
    if *pos < n {
        return Err(extra_token_diagnostic(ctx, *pos));
    }
    Ok(Some(Aidl { package, imports, declared_parcelables, item }))
}

/// Parse the text of one compilation unit.
///
/// On an unrecoverable failure the error diagnostic is returned and no
/// tree is produced; recovered failures only push diagnostics. An `Ok`
/// tree is structurally well formed (`aidl_ok`): every type node carries
/// the right number of generic parameters and no resolved references.
pub fn parse_aidl(input: &str, diagnostics: &mut Vec<Diagnostic>) -> (r: Result<
    Option<Aidl>,
    Diagnostic,
>)
    requires
        input@.len() < usize::MAX,
    ensures
        appends_errors(old(diagnostics)@, final(diagnostics)@),
        r matches Err(d) ==> d.kind == DiagnosticKind::Error,
        r matches Ok(Some(a)) ==> crate::ast::aidl_ok(a),
{
    let chars = to_chars(input);
    let index = LineIndex::new(&chars);
    let ctx = Ctx { text: input, chars: &chars, index: &index };
    let mut pos: usize = 0;
    rule_aidl(&ctx, &mut pos, diagnostics)
}


/// Check that nothing but whitespace and comments remains: yields a
/// diagnostic exactly when skipping from `pos` stops short of the end.
fn expect_end(ctx: &Ctx, pos: &mut usize) -> (r: Option<Diagnostic>)
    requires
        ctx.wf(),
        *old(pos) <= ctx.len(),
    ensures
        *old(pos) <= *final(pos) <= ctx.len(),
        *final(pos) == spec_skip(ctx.chars@, *old(pos) as int),
        r is Some <==> spec_skip(ctx.chars@, *old(pos) as int) < ctx.len(),
        r matches Some(d) ==> d.kind == DiagnosticKind::Error,
{
    skip_ws(ctx, pos);
    if *pos < ctx.chars.len() {
        Some(extra_token_diagnostic(ctx, *pos))
    } else {
        None
    }
}

/// Parse a whole string as a package declaration: succeeds exactly when
/// the text is one well-formed package declaration (up to surrounding
/// whitespace and comments), returning its name and ranges.
pub fn parse_package(input: &str, diagnostics: &mut Vec<Diagnostic>) -> (r: Result<
    Package,
    Diagnostic,
>)
    requires
        input@.len() < usize::MAX,
    ensures
        appends_errors(old(diagnostics)@, final(diagnostics)@),
        ({
            let s = input@;
            match r {
                Ok(p) => {
                    &&& spec_package(s, 0) matches Some(sp)
                    &&& p.name@ == sp.0
                    &&& p.symbol_range == crate::line_index::range_of(s, sp.1, sp.2)
                    &&& p.full_range == crate::line_index::range_of(s, sp.3, sp.4)
                    &&& spec_skip(s, sp.4) == s.len()
                },
                Err(_) => (match spec_package(s, 0) {
                    Some(sp) => spec_skip(s, sp.4) < s.len(),
                    None => true,
                }),
            }
        }),
{
    let chars = to_chars(input);
    let index = LineIndex::new(&chars);
    let ctx = Ctx { text: input, chars: &chars, index: &index };
    let mut pos: usize = 0;
    match rule_package(&ctx, &mut pos) {
        Ok(p) => match expect_end(&ctx, &mut pos) {
            Some(d) => Err(d),
            None => Ok(p),
        },
        Err(f) => Err(failure_diagnostic(&ctx, &f, "")),
    }
}

/// Parse a whole string as an import statement: succeeds exactly when
/// the text is `import`, a qualified name and `;` (up to surrounding
/// whitespace and comments), returning the split name and its ranges.
pub fn parse_import(input: &str, diagnostics: &mut Vec<Diagnostic>) -> (r: Result<
    Import,
    Diagnostic,
>)
    requires
        input@.len() < usize::MAX,
    ensures
        appends_errors(old(diagnostics)@, final(diagnostics)@),
        ({
            let s = input@;
            match r {
                Ok(imp) => {
                    &&& keyword_at(s, 0, "import"@)
                    &&& spec_import_tail(s, ident_end_at(s, spec_skip(s, 0))) matches Some(si)
                    &&& imp.path@ == si.0
                    &&& imp.name@ == si.1
                    &&& imp.symbol_range == crate::line_index::range_of(s, si.2, si.3)
                    &&& spec_skip(s, si.4) == s.len()
                },
                Err(_) => !({
                    &&& keyword_at(s, 0, "import"@)
                    &&& (match spec_import_tail(s, ident_end_at(s, spec_skip(s, 0))) {
                        Some(si) => spec_skip(s, si.4) == s.len(),
                        None => false,
                    })
                }),
            }
        }),
{
    let chars = to_chars(input);
    let index = LineIndex::new(&chars);
    let ctx = Ctx { text: input, chars: &chars, index: &index };
    let mut pos: usize = 0;
    let kw = match expect_keyword(&ctx, &mut pos, "import", "IMPORT") {
        Ok(kw) => kw,
        Err(f) => {
            return Err(failure_diagnostic(&ctx, &f, ""));
        },
    };
    match rule_import_tail(&ctx, &mut pos, kw.0) {
        Ok(i) => match expect_end(&ctx, &mut pos) {
            Some(d) => Err(d),
            None => Ok(i),
        },
        Err(f) => Err(failure_diagnostic(&ctx, &f, "")),
    }
}

/// Parse a whole string as a forward parcelable declaration
/// (`parcelable a.b.C;`), with optional annotations before it.
pub fn parse_declared_parcelable(input: &str, diagnostics: &mut Vec<Diagnostic>) -> (r: Result<
    Import,
    Diagnostic,
>)
    requires
        input@.len() < usize::MAX,
    ensures
        appends_errors(old(diagnostics)@, final(diagnostics)@),
{
    let chars = to_chars(input);
    let index = LineIndex::new(&chars);
    let ctx = Ctx { text: input, chars: &chars, index: &index };
    let mut pos: usize = 0;
    match rule_annotations(&ctx, &mut pos) {
        Ok(_) => (),
        Err(f) => {
            return Err(failure_diagnostic(&ctx, &f, ""));
        },
    }
    let kw = match expect_keyword(&ctx, &mut pos, "parcelable", "PARCELABLE") {
        Ok(kw) => kw,
        Err(f) => {
            return Err(failure_diagnostic(&ctx, &f, ""));
        },
    };
    let q = match rule_qualified_name(&ctx, &mut pos) {
        Ok(q) => q,
        Err(f) => {
            return Err(failure_diagnostic(&ctx, &f, ""));
        },
    };
    skip_ws(&ctx, &mut pos);
    if !at_is(&ctx, pos, ';') {
        let f = ParseFailure { at: pos, expected: vec!["\";\"".to_owned()] };
        return Err(failure_diagnostic(&ctx, &f, ""));
    }
    pos = pos + 1;
    let declared = Import {
        path: q.path,
        name: q.name,
        symbol_range: ctx.index.range(Ghost(ctx.chars@), q.start, q.end),
        full_range: ctx.index.range(Ghost(ctx.chars@), kw.0, pos),
    };
    match expect_end(&ctx, &mut pos) {
        Some(d) => Err(d),
        None => Ok(declared),
    }
}

/// Parse a whole string as an interface declaration.
pub fn parse_interface(input: &str, diagnostics: &mut Vec<Diagnostic>) -> (r: Result<
    Interface,
    Diagnostic,
>)
    requires
        input@.len() < usize::MAX,
    ensures
        appends_errors(old(diagnostics)@, final(diagnostics)@),
        r matches Ok(i) ==> forall|k: int|
            0 <= k < i.elements@.len() ==> crate::ast::interface_element_ok(
                #[trigger] i.elements@[k],
            ),
{
    let chars = to_chars(input);
    let index = LineIndex::new(&chars);
    let ctx = Ctx { text: input, chars: &chars, index: &index };
    let mut pos: usize = 0;
    skip_ws(&ctx, &mut pos);
    let doc = javadoc_with(ctx.text, ctx.chars, pos);
    let annotations = match rule_annotations(&ctx, &mut pos) {
        Ok(a) => a,
        Err(f) => {
            return Err(failure_diagnostic(&ctx, &f, ""));
        },
    };
    skip_ws(&ctx, &mut pos);
    let item_start = pos;
    let mut oneway = false;
    match peek_word(&ctx, pos) {
        Some((word, _, wend)) => {
            if str_eq(word.as_str(), "oneway") {
                oneway = true;
                pos = wend;
            }
        },
        None => (),
    }
    match expect_keyword(&ctx, &mut pos, "interface", "INTERFACE") {
        Ok(_) => (),
        Err(f) => {
            return Err(failure_diagnostic(&ctx, &f, ""));
        },
    }
    match rule_interface(&ctx, &mut pos, diagnostics, doc, annotations, item_start, oneway) {
        Ok(i) => match expect_end(&ctx, &mut pos) {
            Some(d) => Err(d),
            None => Ok(i),
        },
        Err(f) => Err(failure_diagnostic(&ctx, &f, "")),
    }
}

/// Parse a whole string as a parcelable declaration with a body.
pub fn parse_parcelable(input: &str, diagnostics: &mut Vec<Diagnostic>) -> (r: Result<
    Parcelable,
    Diagnostic,
>)
    requires
        input@.len() < usize::MAX,
    ensures
        appends_errors(old(diagnostics)@, final(diagnostics)@),
        r matches Ok(p) ==> forall|k: int|
            0 <= k < p.elements@.len() ==> crate::ast::parcelable_element_ok(
                #[trigger] p.elements@[k],
            ),
{
    let chars = to_chars(input);
    let index = LineIndex::new(&chars);
    let ctx = Ctx { text: input, chars: &chars, index: &index };
    let mut pos: usize = 0;
    skip_ws(&ctx, &mut pos);
    let doc = javadoc_with(ctx.text, ctx.chars, pos);
    let annotations = match rule_annotations(&ctx, &mut pos) {
        Ok(a) => a,
        Err(f) => {
            return Err(failure_diagnostic(&ctx, &f, ""));
        },
    };
    let kw = match expect_keyword(&ctx, &mut pos, "parcelable", "PARCELABLE") {
        Ok(kw) => kw,
        Err(f) => {
            return Err(failure_diagnostic(&ctx, &f, ""));
        },
    };
    let name = match rule_ident(&ctx, &mut pos) {
        Ok(id) => id,
        Err(f) => {
            return Err(failure_diagnostic(&ctx, &f, ""));
        },
    };
    let symbol_range = ctx.index.range(Ghost(ctx.chars@), name.1, name.2);
    match rule_parcelable(&ctx, &mut pos, diagnostics, doc, annotations, kw.0, name.0, symbol_range)
    {
        Ok(p) => match expect_end(&ctx, &mut pos) {
            Some(d) => Err(d),
            None => Ok(p),
        },
        Err(f) => Err(failure_diagnostic(&ctx, &f, "")),
    }
}

/// Parse a whole string as an enumeration declaration.
pub fn parse_enum(input: &str, diagnostics: &mut Vec<Diagnostic>) -> (r: Result<Enum, Diagnostic>)
    requires
        input@.len() < usize::MAX,
    ensures
        appends_errors(old(diagnostics)@, final(diagnostics)@),
{
    let chars = to_chars(input);
    let index = LineIndex::new(&chars);
    let ctx = Ctx { text: input, chars: &chars, index: &index };
    let mut pos: usize = 0;
    skip_ws(&ctx, &mut pos);
    let doc = javadoc_with(ctx.text, ctx.chars, pos);
    let annotations = match rule_annotations(&ctx, &mut pos) {
        Ok(a) => a,
        Err(f) => {
            return Err(failure_diagnostic(&ctx, &f, ""));
        },
    };
    let kw = match expect_keyword(&ctx, &mut pos, "enum", "ENUM") {
        Ok(kw) => kw,
        Err(f) => {
            return Err(failure_diagnostic(&ctx, &f, ""));
        },
    };
    match rule_enum(&ctx, &mut pos, diagnostics, doc, annotations, kw.0) {
        Ok(e) => match expect_end(&ctx, &mut pos) {
            Some(d) => Err(d),
            None => Ok(e),
        },
        Err(f) => Err(failure_diagnostic(&ctx, &f, "")),
    }
}

/// Parse a whole string as a method declaration.
pub fn parse_method(input: &str, diagnostics: &mut Vec<Diagnostic>) -> (r: Result<
    Method,
    Diagnostic,
>)
    requires
        input@.len() < usize::MAX,
    ensures
        appends_errors(old(diagnostics)@, final(diagnostics)@),
        r matches Ok(m) ==> crate::ast::method_ok(m),
{
    let chars = to_chars(input);
    let index = LineIndex::new(&chars);
    let ctx = Ctx { text: input, chars: &chars, index: &index };
    let mut pos: usize = 0;
    skip_ws(&ctx, &mut pos);
    let doc = javadoc_with(ctx.text, ctx.chars, pos);
    let annotations = match rule_annotations(&ctx, &mut pos) {
        Ok(a) => a,
        Err(f) => {
            return Err(failure_diagnostic(&ctx, &f, ""));
        },
    };
    match rule_method(&ctx, &mut pos, doc, annotations) {
        Ok(m) => match expect_end(&ctx, &mut pos) {
            Some(d) => Err(d),
            None => Ok(m),
        },
        Err(f) => Err(failure_diagnostic(&ctx, &f, "")),
    }
}

/// Parse a whole string as one method argument.
pub fn parse_arg(input: &str, diagnostics: &mut Vec<Diagnostic>) -> (r: Result<Arg, Diagnostic>)
    requires
        input@.len() < usize::MAX,
    ensures
        appends_errors(old(diagnostics)@, final(diagnostics)@),
        r matches Ok(a) ==> crate::ast::arg_ok(a),
{
    let chars = to_chars(input);
    let index = LineIndex::new(&chars);
    let ctx = Ctx { text: input, chars: &chars, index: &index };
    let mut pos: usize = 0;
    match rule_arg(&ctx, &mut pos) {
        Ok(a) => match expect_end(&ctx, &mut pos) {
            Some(d) => Err(d),
            None => Ok(a),
        },
        Err(f) => Err(failure_diagnostic(&ctx, &f, "")),
    }
}

/// Parse a whole string as a parcelable field.
pub fn parse_field(input: &str, diagnostics: &mut Vec<Diagnostic>) -> (r: Result<
    Field,
    Diagnostic,
>)
    requires
        input@.len() < usize::MAX,
    ensures
        appends_errors(old(diagnostics)@, final(diagnostics)@),
        r matches Ok(x) ==> crate::ast::field_ok(x),
{
    let chars = to_chars(input);
    let index = LineIndex::new(&chars);
    let ctx = Ctx { text: input, chars: &chars, index: &index };
    let mut pos: usize = 0;
    skip_ws(&ctx, &mut pos);
    let doc = javadoc_with(ctx.text, ctx.chars, pos);
    let annotations = match rule_annotations(&ctx, &mut pos) {
        Ok(a) => a,
        Err(f) => {
            return Err(failure_diagnostic(&ctx, &f, ""));
        },
    };
    match rule_field(&ctx, &mut pos, doc, annotations) {
        Ok(x) => match expect_end(&ctx, &mut pos) {
            Some(d) => Err(d),
            None => Ok(x),
        },
        Err(f) => Err(failure_diagnostic(&ctx, &f, "")),
    }
}

/// Parse a whole string as a constant declaration.
pub fn parse_const(input: &str, diagnostics: &mut Vec<Diagnostic>) -> (r: Result<
    Const,
    Diagnostic,
>)
    requires
        input@.len() < usize::MAX,
    ensures
        appends_errors(old(diagnostics)@, final(diagnostics)@),
        r matches Ok(c) ==> crate::ast::const_ok(c),
{
    let chars = to_chars(input);
    let index = LineIndex::new(&chars);
    let ctx = Ctx { text: input, chars: &chars, index: &index };
    let mut pos: usize = 0;
    skip_ws(&ctx, &mut pos);
    let doc = javadoc_with(ctx.text, ctx.chars, pos);
    let annotations = match rule_annotations(&ctx, &mut pos) {
        Ok(a) => a,
        Err(f) => {
            return Err(failure_diagnostic(&ctx, &f, ""));
        },
    };
    let kw = match expect_keyword(&ctx, &mut pos, "const", "CONST") {
        Ok(kw) => kw,
        Err(f) => {
            return Err(failure_diagnostic(&ctx, &f, ""));
        },
    };
    match rule_const(&ctx, &mut pos, doc, annotations, kw.0) {
        Ok(c) => match expect_end(&ctx, &mut pos) {
            Some(d) => Err(d),
            None => Ok(c),
        },
        Err(f) => Err(failure_diagnostic(&ctx, &f, "")),
    }
}

/// Parse a whole string as a type.
pub fn parse_type(input: &str, diagnostics: &mut Vec<Diagnostic>) -> (r: Result<Type, Diagnostic>)
    requires
        input@.len() < usize::MAX,
    ensures
        appends_errors(old(diagnostics)@, final(diagnostics)@),
        r matches Ok(t) ==> crate::ast::type_ok(t),
{
    let chars = to_chars(input);
    let index = LineIndex::new(&chars);
    let ctx = Ctx { text: input, chars: &chars, index: &index };
    let mut pos: usize = 0;
    match rule_type(&ctx, &mut pos) {
        Ok(t) => match expect_end(&ctx, &mut pos) {
            Some(d) => Err(d),
            None => Ok(t),
        },
        Err(f) => Err(failure_diagnostic(&ctx, &f, "")),
    }
}

/// Parse a whole string as a literal value; objects come back normalized
/// to `{}` or `{...}`.
pub fn parse_value(input: &str, diagnostics: &mut Vec<Diagnostic>) -> (r: Result<
    String,
    Diagnostic,
>)
    requires
        input@.len() < usize::MAX,
    ensures
        appends_errors(old(diagnostics)@, final(diagnostics)@),
{
    let chars = to_chars(input);
    let index = LineIndex::new(&chars);
    let ctx = Ctx { text: input, chars: &chars, index: &index };
    let mut pos: usize = 0;
    match rule_value(&ctx, &mut pos) {
        Ok(v) => match expect_end(&ctx, &mut pos) {
            Some(d) => Err(d),
            None => Ok(v.0),
        },
        Err(f) => Err(failure_diagnostic(&ctx, &f, "")),
    }
}

/// Parse a whole string as one annotation, or as nothing.
pub fn parse_annotation(input: &str, diagnostics: &mut Vec<Diagnostic>) -> (r: Result<
    Option<Annotation>,
    Diagnostic,
>)
    requires
        input@.len() < usize::MAX,
    ensures
        appends_errors(old(diagnostics)@, final(diagnostics)@),
{
    let chars = to_chars(input);
    let index = LineIndex::new(&chars);
    let ctx = Ctx { text: input, chars: &chars, index: &index };
    let mut pos: usize = 0;
    match rule_annotations(&ctx, &mut pos) {
        Ok(mut annotations) => match expect_end(&ctx, &mut pos) {
            Some(d) => Err(d),
            None => {
                if annotations.len() >= 1 {
                    Ok(Some(annotations.remove(0)))
                } else {
                    Ok(None)
                }
            },
        },
        Err(f) => Err(failure_diagnostic(&ctx, &f, "")),
    }
}

} // verus!
