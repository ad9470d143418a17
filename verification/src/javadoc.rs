//! Documentation comments: finding the `/** … */` block that immediately
//! precedes a declaration, and normalizing its content (paragraph breaks
//! collapsed, per-line comment markers stripped, a line break forced
//! before each `@tag` that was not already on its own line).

use vstd::prelude::*;
use vstd::string::StrSliceExecFns;
use vstd::string::StringExecFns;

use crate::rules::to_chars;

verus! {

/// The states of the backward scan that looks for a documentation
/// comment: it walks from the declaration towards the start of the text,
/// skipping whitespace, line comments and plain block comments.
#[derive(Clone, Copy, PartialEq, Eq, Structural)]
pub enum FindState {
    Idle,
    LineCommentOrSomethingElse,
    LineCommentOrSomethingElseBeforeSlash,
    BeforeEndSlash,
    InsideComment,
    BeforeBeginStar,
    BeforeBeginStarStar,
}

/// The backward scan from position `i` in state `st`: the content range
/// of the documentation comment it finds, if any. Each step examines the
/// character `s[i - 1]`.
pub open spec fn find_scan(s: Seq<char>, i: int, st: FindState, end: Option<int>) -> Option<
    (int, int),
>
    decreases i,
{
    if i <= 0 {
        None
    } else {
        let c = s[i - 1];
        match st {
            FindState::Idle => {
                if c == '/' {
                    find_scan(s, i - 1, FindState::BeforeEndSlash, end)
                } else if c != ' ' && c != '\n' && c != '\r' && c != '\t' {
                    find_scan(s, i - 1, FindState::LineCommentOrSomethingElse, end)
                } else {
                    find_scan(s, i - 1, FindState::Idle, end)
                }
            },
            FindState::LineCommentOrSomethingElse => {
                if c == '/' {
                    find_scan(s, i - 1, FindState::LineCommentOrSomethingElseBeforeSlash, end)
                } else if c == '\n' {
                    None
                } else {
                    find_scan(s, i - 1, FindState::LineCommentOrSomethingElse, end)
                }
            },
            FindState::LineCommentOrSomethingElseBeforeSlash => {
                if c == '/' {
                    find_scan(s, i - 1, FindState::Idle, end)
                } else {
                    None
                }
            },
            FindState::BeforeEndSlash => {
                if c == '*' {
                    find_scan(s, i - 1, FindState::InsideComment, Some(i - 1))
                } else {
                    find_scan(s, i - 1, FindState::Idle, end)
                }
            },
            FindState::InsideComment => {
                if c == '*' {
                    find_scan(s, i - 1, FindState::BeforeBeginStar, end)
                } else {
                    find_scan(s, i - 1, FindState::InsideComment, end)
                }
            },
            FindState::BeforeBeginStar => {
                if c == '*' {
                    find_scan(s, i - 1, FindState::BeforeBeginStarStar, end)
                } else if c == '/' {
                    find_scan(s, i - 1, FindState::Idle, end)
                } else {
                    find_scan(s, i - 1, FindState::InsideComment, end)
                }
            },
            FindState::BeforeBeginStarStar => {
                if c == '/' {
                    match end {
                        Some(e) => Some((i + 2, e)),
                        None => None,
                    }
                } else {
                    find_scan(s, i - 1, FindState::InsideComment, end)
                }
            },
        }
    }
}

/// The content range (start and end character offsets) of the
/// documentation comment that immediately precedes offset `upto` of `s`,
/// with only whitespace, line comments and plain block comments between
/// the two.
pub open spec fn spec_doc_content_range(s: Seq<char>, upto: int) -> Option<(int, int)> {
    find_scan(s, upto, FindState::Idle, None)
}

proof fn lemma_find_scan_bounds(s: Seq<char>, i: int, st: FindState, end: Option<int>)
    requires
        i <= s.len(),
        match end {
            Some(e) => 0 <= e <= s.len() && (st is InsideComment ==> i <= e) && (
            st is BeforeBeginStar ==> i + 1 <= e) && (st is BeforeBeginStarStar ==> i + 2 <= e),
            None => true,
        },
    ensures
        match find_scan(s, i, st, end) {
            Some(r) => 0 <= r.0 <= r.1 <= s.len(),
            None => true,
        },
    decreases i,
{
    if i > 0 {
        let c = s[i - 1];
        match st {
            FindState::Idle => {
                if c == '/' {
                    lemma_find_scan_bounds(s, i - 1, FindState::BeforeEndSlash, end);
                } else if c != ' ' && c != '\n' && c != '\r' && c != '\t' {
                    lemma_find_scan_bounds(s, i - 1, FindState::LineCommentOrSomethingElse, end);
                } else {
                    lemma_find_scan_bounds(s, i - 1, FindState::Idle, end);
                }
            },
            FindState::LineCommentOrSomethingElse => {
                if c == '/' {
                    lemma_find_scan_bounds(
                        s,
                        i - 1,
                        FindState::LineCommentOrSomethingElseBeforeSlash,
                        end,
                    );
                } else if c != '\n' {
                    lemma_find_scan_bounds(s, i - 1, FindState::LineCommentOrSomethingElse, end);
                }
            },
            FindState::LineCommentOrSomethingElseBeforeSlash => {
                if c == '/' {
                    lemma_find_scan_bounds(s, i - 1, FindState::Idle, end);
                }
            },
            FindState::BeforeEndSlash => {
                if c == '*' {
                    lemma_find_scan_bounds(s, i - 1, FindState::InsideComment, Some(i - 1));
                } else {
                    lemma_find_scan_bounds(s, i - 1, FindState::Idle, end);
                }
            },
            FindState::InsideComment => {
                if c == '*' {
                    lemma_find_scan_bounds(s, i - 1, FindState::BeforeBeginStar, end);
                } else {
                    lemma_find_scan_bounds(s, i - 1, FindState::InsideComment, end);
                }
            },
            FindState::BeforeBeginStar => {
                if c == '*' {
                    lemma_find_scan_bounds(s, i - 1, FindState::BeforeBeginStarStar, end);
                } else if c == '/' {
                    lemma_find_scan_bounds(s, i - 1, FindState::Idle, end);
                } else {
                    lemma_find_scan_bounds(s, i - 1, FindState::InsideComment, end);
                }
            },
            FindState::BeforeBeginStarStar => {
                if c != '/' {
                    lemma_find_scan_bounds(s, i - 1, FindState::InsideComment, end);
                }
            },
        }
    }
}

/// Run the backward scan over `chars` from offset `upto`.
pub(crate) fn doc_content_range(chars: &Vec<char>, upto: usize) -> (r: Option<(usize, usize)>)
    requires
        upto <= chars@.len(),
    ensures
        match r {
            Some(p) => {
                &&& spec_doc_content_range(chars@, upto as int) == Some((p.0 as int, p.1 as int))
                &&& p.0 <= p.1 <= chars@.len()
            },
            None => spec_doc_content_range(chars@, upto as int) is None,
        },
{
    let ghost s = chars@;
    let mut i = upto;
    let mut st = FindState::Idle;
    let mut end: Option<usize> = None;
    proof {
        lemma_find_scan_bounds(s, upto as int, FindState::Idle, None);
    }
    loop
        invariant
            upto <= chars@.len(),
            s == chars@,
            i <= upto,
            match end {
                Some(e) => e <= s.len() && (st is InsideComment ==> i <= e) && (
                st is BeforeBeginStar ==> i + 1 <= e) && (st is BeforeBeginStarStar ==> i + 2
                    <= e),
                None => true,
            },
            find_scan(s, upto as int, FindState::Idle, None) == find_scan(
                s,
                i as int,
                st,
                match end {
                    Some(e) => Some(e as int),
                    None => None,
                },
            ),
        decreases i,
    {
        if i == 0 {
            return None;
        }
        let c = chars[i - 1];
        let ghost ghost_end: Option<int> = match end {
            Some(e) => Some(e as int),
            None => None,
        };
        match st {
            FindState::Idle => {
                if c == '/' {
                    st = FindState::BeforeEndSlash;
                } else if c != ' ' && c != '\n' && c != '\r' && c != '\t' {
                    st = FindState::LineCommentOrSomethingElse;
                }
            },
            FindState::LineCommentOrSomethingElse => {
                if c == '/' {
                    st = FindState::LineCommentOrSomethingElseBeforeSlash;
                } else if c == '\n' {
                    return None;
                }
            },
            FindState::LineCommentOrSomethingElseBeforeSlash => {
                if c == '/' {
                    st = FindState::Idle;
                } else {
                    return None;
                }
            },
            FindState::BeforeEndSlash => {
                if c == '*' {
                    end = Some(i - 1);
                    st = FindState::InsideComment;
                } else {
                    st = FindState::Idle;
                }
            },
            FindState::InsideComment => {
                if c == '*' {
                    st = FindState::BeforeBeginStar;
                }
            },
            FindState::BeforeBeginStar => {
                if c == '*' {
                    st = FindState::BeforeBeginStarStar;
                } else if c == '/' {
                    st = FindState::Idle;
                } else {
                    st = FindState::InsideComment;
                }
            },
            FindState::BeforeBeginStarStar => {
                if c == '/' {
                    match end {
                        Some(e) => {
                            return Some((i + 2, e));
                        },
                        None => {
                            return None;
                        },
                    }
                } else {
                    st = FindState::InsideComment;
                }
            },
        }
        i = i - 1;
    }
}

/// The content of the documentation comment that immediately precedes
/// `input[..pos]`, still raw: the text between `/**` and `*/`.
///
/// A declaration is only documented by a comment with nothing but
/// whitespace, line comments and plain block comments between the two.
pub fn find_content_string(input: &str) -> (r: Option<&str>)
    ensures
        match r {
            Some(c) => {
                &&& spec_doc_content_range(input@, input@.len() as int) matches Some(p)
                &&& c@ == input@.subrange(p.0, p.1)
            },
            None => spec_doc_content_range(input@, input@.len() as int) is None,
        },
{
    let chars = to_chars(input);
    match doc_content_range(&chars, chars.len()) {
        Some((start, end)) => Some(input.substring_char(start, end)),
        None => None,
    }
}



/// The characters stripped from the ends of each documentation line.
pub open spec fn is_doc_trim(c: char) -> bool {
    c == ' ' || c == '\t' || c == '\r' || c == '*'
}

/// The offset of the next line break at or after `i`, capped at `ce`.
pub open spec fn next_break(s: Seq<char>, i: int, ce: int) -> int
    decreases ce - i,
{
    if i >= ce {
        ce
    } else if s[i] == '\n' {
        i
    } else {
        next_break(s, i + 1, ce)
    }
}

/// The first offset at or after `i` (up to `le`) whose character is not
/// line decoration.
pub open spec fn doc_trim_start(s: Seq<char>, i: int, le: int) -> int
    decreases le - i,
{
    if i >= le {
        i
    } else if is_doc_trim(s[i]) {
        doc_trim_start(s, i + 1, le)
    } else {
        i
    }
}

/// The end of the line content once trailing decoration is stripped.
pub open spec fn doc_trim_end(s: Seq<char>, ls: int, te: int) -> int
    decreases te - ls,
{
    if te <= ls {
        te
    } else if is_doc_trim(s[te - 1]) {
        doc_trim_end(s, ls, te - 1)
    } else {
        te
    }
}

/// The end of a chunk before an `@` at `cend`: the blanks directly before
/// it are dropped, but never the chunk's first character.
pub open spec fn chunk_end(s: Seq<char>, cstart: int, cend: int) -> int
    decreases cend - cstart,
{
    if cend > cstart + 1 && (s[cend - 1] == ' ' || s[cend - 1] == '\t') {
        chunk_end(s, cstart, cend - 1)
    } else {
        cend
    }
}

/// One trimmed line rendered: a line break replaces the blanks before
/// every `@` that follows other content of the line.
pub open spec fn render_line(s: Seq<char>, cstart: int, j: int, te: int) -> Seq<char>
    decreases te - j,
{
    if j >= te {
        s.subrange(cstart, te)
    } else if s[j] == '@' {
        s.subrange(cstart, chunk_end(s, cstart, j)) + "\n"@ + render_line(s, j, j + 1, te)
    } else {
        render_line(s, cstart, j + 1, te)
    }
}

/// The normalized rendering of the comment content `[i, ce)`: blank lines
/// (up to decoration) separate paragraphs, paragraphs are joined by line
/// breaks, the lines of one paragraph by single spaces — or a line break
/// when the next line opens with an `@tag`.
pub open spec fn render_doc(s: Seq<char>, i: int, ce: int, in_para: bool, emitted: bool) -> Seq<
    char,
>
    decreases ce - i,
{
    if i >= ce {
        Seq::empty()
    } else {
        let le = next_break(s, i, ce);
        let ls = doc_trim_start(s, i, le);
        let te = doc_trim_end(s, ls, le);
        // the break is at or past `i`, so the step below always advances
        let next0 = if le < ce {
            le + 1
        } else {
            ce
        };
        let next = if next0 > i {
            next0
        } else {
            i + 1
        };
        if ls == te {
            render_doc(s, next, ce, false, emitted)
        } else {
            (if in_para {
                if s[ls] == '@' {
                    "\n"@
                } else {
                    " "@
                }
            } else if emitted {
                "\n"@
            } else {
                Seq::empty()
            }) + render_line(s, ls, ls + 1, te) + render_doc(s, next, ce, true, true)
        }
    }
}

/// What the content of a documentation comment normalizes to.
pub open spec fn spec_normalized_doc(s: Seq<char>, cs: int, ce: int) -> Seq<char> {
    render_doc(s, cs, ce, false, false)
}

/// The characters stripped from the ends of each documentation line: the
/// comment decoration and surrounding whitespace.
fn is_doc_trim_char(c: char) -> (r: bool)
    ensures
        r == is_doc_trim(c),
{
    c == ' ' || c == '\t' || c == '\r' || c == '*'
}

/// Append one documentation line to `out`, breaking it before every `@`
/// that follows other content of the line and dropping the blanks in
/// between.
fn append_doc_line(text: &str, chars: &Vec<char>, ls: usize, te: usize, out: &mut String)
    requires
        chars@ == text@,
        ls < te <= chars@.len(),
    ensures
        final(out)@ == old(out)@ + render_line(chars@, ls as int, ls + 1, te as int),
{
    let ghost s = chars@;
    let mut cstart = ls;
    let mut j = ls + 1;
    while j < te
        invariant
            chars@ == text@,
            s == chars@,
            ls <= cstart < j <= te <= chars@.len(),
            old(out)@ + render_line(s, ls as int, ls + 1, te as int) == out@ + render_line(
                s,
                cstart as int,
                j as int,
                te as int,
            ),
        decreases te - j,
    {
        if chars[j] == '@' {
            let mut cend = j;
            while cend > cstart + 1 && (chars[cend - 1] == ' ' || chars[cend - 1] == '\t')
                invariant
                    chars@ == text@,
                    s == chars@,
                    cstart < cend <= j <= te <= chars@.len(),
                    chunk_end(s, cstart as int, j as int) == chunk_end(
                        s,
                        cstart as int,
                        cend as int,
                    ),
                decreases cend,
            {
                cend = cend - 1;
            }
            proof {
                assert(chunk_end(s, cstart as int, cend as int) == cend as int);
            }
            out.append(text.substring_char(cstart, cend));
            out.append("\n");
            proof {
                assert(out@ + render_line(s, j as int, j + 1, te as int) =~= old(out)@
                    + render_line(s, ls as int, ls + 1, te as int));
            }
            cstart = j;
        }
        j = j + 1;
    }
    out.append(text.substring_char(cstart, te));
    proof {
        assert(render_line(s, cstart as int, te as int, te as int) == s.subrange(
            cstart as int,
            te as int,
        ));
        assert(final(out)@ =~= old(out)@ + render_line(s, ls as int, ls + 1, te as int));
    }
}

/// Normalize the raw content of a documentation comment: blank lines
/// (ignoring comment decoration) separate paragraphs, which come out
/// joined by single line breaks; the lines of one paragraph are stripped
/// of their decoration and joined with single spaces; and a line break is
/// forced before every `@tag` not already at the start of a line.
fn normalize_doc(text: &str, chars: &Vec<char>, cs: usize, ce: usize) -> (r: String)
    requires
        chars@ == text@,
        cs <= ce <= chars@.len(),
    ensures
        r@ == spec_normalized_doc(chars@, cs as int, ce as int),
{
    let ghost s = chars@;
    let mut out = String::new();
    let mut in_para = false;
    let mut emitted_any = false;
    let mut i = cs;
    while i < ce
        invariant
            chars@ == text@,
            s == chars@,
            cs <= i <= ce <= chars@.len(),
            spec_normalized_doc(s, cs as int, ce as int) == out@ + render_doc(
                s,
                i as int,
                ce as int,
                in_para,
                emitted_any,
            ),
        decreases ce - i,
    {
        let ghost i0 = i as int;
        // the current line runs to the next line break
        let mut le = i;
        while le < ce && !(chars[le] == '\n')
            invariant
                chars@ == text@,
                s == chars@,
                i <= le <= ce <= chars@.len(),
                next_break(s, i as int, ce as int) == next_break(s, le as int, ce as int),
            decreases ce - le,
        {
            le = le + 1;
        }
        proof {
            assert(next_break(s, i as int, ce as int) == le as int);
        }
        // strip the comment decoration from both ends
        let mut ls = i;
        while ls < le && is_doc_trim_char(chars[ls])
            invariant
                chars@ == text@,
                s == chars@,
                i <= ls <= le <= chars@.len(),
                doc_trim_start(s, i as int, le as int) == doc_trim_start(
                    s,
                    ls as int,
                    le as int,
                ),
            decreases le - ls,
        {
            ls = ls + 1;
        }
        proof {
            assert(doc_trim_start(s, i as int, le as int) == ls as int);
        }
        let mut te = le;
        while te > ls && is_doc_trim_char(chars[te - 1])
            invariant
                chars@ == text@,
                s == chars@,
                ls <= te <= le <= chars@.len(),
                doc_trim_end(s, ls as int, le as int) == doc_trim_end(s, ls as int, te as int),
            decreases te,
        {
            te = te - 1;
        }
        proof {
            assert(doc_trim_end(s, ls as int, le as int) == te as int);
        }
        if ls == te {
            // a blank line separates paragraphs
            in_para = false;
        } else {
            if in_para {
                if chars[ls] == '@' {
                    out.append("\n");
                } else {
                    out.append(" ");
                }
            } else if emitted_any {
                out.append("\n");
            }
            in_para = true;
            emitted_any = true;
            append_doc_line(text, chars, ls, te, &mut out);
        }
        i = if le < ce {
            le + 1
        } else {
            ce
        };
        proof {
            assert(spec_normalized_doc(s, cs as int, ce as int) =~= out@ + render_doc(
                s,
                i as int,
                ce as int,
                in_para,
                emitted_any,
            ));
        }
    }
    out
}

/// The documentation attached to the declaration that starts at character
/// offset `pos` of `input`: the content of the `/** … */` comment that
/// immediately precedes it, normalized.
pub fn get_javadoc(input: &str, pos: usize) -> (r: Option<String>)
    requires
        pos <= input@.len(),
    ensures
        match r {
            Some(doc) => spec_doc_content_range(input@, pos as int) matches Some(p)
                && doc@ == spec_normalized_doc(input@, p.0, p.1),
            None => spec_doc_content_range(input@, pos as int) is None,
        },
{
    let chars = to_chars(input);
    javadoc_with(input, &chars, pos)
}

/// `get_javadoc` against an already computed character mirror.
pub(crate) fn javadoc_with(input: &str, chars: &Vec<char>, pos: usize) -> (r: Option<String>)
    requires
        chars@ == input@,
        pos <= chars@.len(),
    ensures
        match r {
            Some(doc) => spec_doc_content_range(input@, pos as int) matches Some(p)
                && doc@ == spec_normalized_doc(input@, p.0, p.1),
            None => spec_doc_content_range(input@, pos as int) is None,
        },
{
    match doc_content_range(chars, pos) {
        Some((cs, ce)) => Some(normalize_doc(input, chars, cs, ce)),
        None => None,
    }
}

} // verus!
