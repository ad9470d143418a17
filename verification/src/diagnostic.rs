//! The diagnostic model: an error or warning with a source range, a
//! message, an optional short context label, an optional hint, and zero
//! or more pointers to related locations.

use vstd::prelude::*;
use vstd::string::StringExecFns;

use crate::ast::Range;

verus! {

/// Whether a diagnostic reports an error or a warning.
#[derive(Debug, Clone, Copy, PartialEq, Eq, Structural)]
pub enum DiagnosticKind {
    Error,
    Warning,
}

/// A pointer from a diagnostic to another location that explains it.
#[derive(Debug, PartialEq, Eq)]
pub struct RelatedInfo {
    pub range: Range,
    pub message: String,
}

/// One diagnostic of a compilation unit.
#[derive(Debug, PartialEq, Eq)]
pub struct Diagnostic {
    pub kind: DiagnosticKind,
    pub range: Range,
    pub message: String,
    /// Additional information displayed near the symbol
    pub context_message: Option<String>,
    pub hint: Option<String>,
    pub related_infos: Vec<RelatedInfo>,
}

/// The mathematical content of a `RelatedInfo`.
pub ghost struct RelatedInfoV {
    pub range: Range,
    pub message: Seq<char>,
}

/// The mathematical content of a `Diagnostic`: the same fields with every
/// string read as its character sequence.
pub ghost struct DiagInfo {
    pub kind: DiagnosticKind,
    pub range: Range,
    pub message: Seq<char>,
    pub context: Option<Seq<char>>,
    pub hint: Option<Seq<char>>,
    pub related: Seq<RelatedInfoV>,
}

/// The character sequence of an optional string.
pub open spec fn opt_view(o: Option<String>) -> Option<Seq<char>> {
    match o {
        Some(s) => Some(s@),
        None => None,
    }
}

impl View for RelatedInfo {
    type V = RelatedInfoV;

    open spec fn view(&self) -> RelatedInfoV {
        RelatedInfoV { range: self.range, message: self.message@ }
    }
}

impl View for Diagnostic {
    type V = DiagInfo;

    open spec fn view(&self) -> DiagInfo {
        DiagInfo {
            kind: self.kind,
            range: self.range,
            message: self.message@,
            context: opt_view(self.context_message),
            hint: opt_view(self.hint),
            related: self.related_infos@.map_values(|r: RelatedInfo| r@),
        }
    }
}

/// The contents of a list of diagnostics.
pub open spec fn dview(s: Seq<Diagnostic>) -> Seq<DiagInfo> {
    s.map_values(|d: Diagnostic| d@)
}

/// The elements of `s` joined with `sep` between each pair.
pub open spec fn joined(s: Seq<Seq<char>>, sep: Seq<char>) -> Seq<char>
    decreases s.len(),
{
    if s.len() == 0 {
        Seq::<char>::empty()
    } else if s.len() == 1 {
        s[0]
    } else {
        joined(s.drop_last(), sep) + sep + s.last()
    }
}

/// The sentence naming the syntactically valid alternatives at a point of
/// the input: nothing for an empty set, `Expected X` for one alternative,
/// `Expected X or Y` for two, and `Expected one of X, Y, … or Z` for more.
pub open spec fn spec_expected_token_str(v: Seq<Seq<char>>) -> Seq<char> {
    if v.len() == 0 {
        Seq::<char>::empty()
    } else if v.len() == 1 {
        "Expected "@ + v[0]
    } else if v.len() == 2 {
        "Expected "@ + v[0] + " or "@ + v[1]
    } else {
        "Expected one of "@ + joined(v.drop_last(), ", "@) + " or "@ + v.last()
    }
}

/// Render the set of expected alternatives as a sentence.
///
/// For three or more alternatives all but the last are joined with
/// commas and the last follows an `or`.
pub fn expected_token_str(v: &Vec<String>) -> (r: String)
    ensures
        r@ == spec_expected_token_str(v@.map_values(|s: String| s@)),
{
    let ghost vv = v@.map_values(|s: String| s@);
    if v.len() == 0 {
        String::new()
    } else if v.len() == 1 {
        let mut s = "Expected ".to_owned();
        s.append(v[0].as_str());
        assert(s@ == spec_expected_token_str(vv));
        s
    } else if v.len() == 2 {
        let mut s = "Expected ".to_owned();
        s.append(v[0].as_str());
        s.append(" or ");
        s.append(v[1].as_str());
        assert(s@ == spec_expected_token_str(vv));
        s
    } else {
        let mut s = "Expected one of ".to_owned();
        let n = v.len();
        s.append(v[0].as_str());
        let mut i: usize = 1;
        proof {
            assert(vv.take(1) =~= seq![vv[0]]);
        }
        while i < n - 1
            invariant
                1 <= i <= n - 1,
                n == v.len() == vv.len(),
                3 <= n,
                vv == v@.map_values(|s: String| s@),
                s@ == "Expected one of "@ + joined(vv.take(i as int), ", "@),
            decreases n - i,
        {
            s.append(", ");
            s.append(v[i].as_str());
            proof {
                assert(vv.take(i + 1).drop_last() =~= vv.take(i as int));
                assert(vv.take(i + 1).last() == vv[i as int]);
            }
            i = i + 1;
        }
        s.append(" or ");
        s.append(v[n - 1].as_str());
        proof {
            assert(vv.take(n - 1) =~= vv.drop_last());
            assert(s@ == spec_expected_token_str(vv));
        }
        s
    }
}


impl Clone for RelatedInfo {
    fn clone(&self) -> (r: Self)
        ensures
            r == *self,
    {
        RelatedInfo { range: self.range, message: self.message.clone() }
    }
}

impl Clone for Diagnostic {
    fn clone(&self) -> (r: Self)
        ensures
            r@ == (*self)@,
    {
        let mut related_infos: Vec<RelatedInfo> = Vec::new();
        let n = self.related_infos.len();
        let mut k: usize = 0;
        while k < n
            invariant
                n == self.related_infos@.len(),
                k <= n,
                related_infos@ =~= self.related_infos@.take(k as int),
            decreases n - k,
        {
            related_infos.push(self.related_infos[k].clone());
            proof {
                assert(self.related_infos@.take(k + 1) =~= self.related_infos@.take(k as int).push(
                    self.related_infos@[k as int],
                ));
            }
            k = k + 1;
        }
        proof {
            assert(related_infos@.map_values(|x: RelatedInfo| x@) =~= self.related_infos@.map_values(
                |x: RelatedInfo| x@,
            ));
        }
        Diagnostic {
            kind: self.kind,
            range: self.range,
            message: self.message.clone(),
            context_message: match &self.context_message {
                Some(s) => Some(s.clone()),
                None => None,
            },
            hint: match &self.hint {
                Some(s) => Some(s.clone()),
                None => None,
            },
            related_infos,
        }
    }
}

/// Clone a list of diagnostics; the clones carry the same contents.
pub fn clone_diagnostics(v: &Vec<Diagnostic>) -> (r: Vec<Diagnostic>)
    ensures
        dview(r@) == dview(v@),
{
    let mut out: Vec<Diagnostic> = Vec::new();
    let n = v.len();
    let mut k: usize = 0;
    while k < n
        invariant
            n == v@.len(),
            k <= n,
            out@.len() == k,
            forall|i: int| 0 <= i < k ==> (#[trigger] out@[i])@ == v@[i]@,
        decreases n - k,
    {
        out.push(v[k].clone());
        k = k + 1;
    }
    proof {
        assert(dview(out@) =~= dview(v@));
    }
    out
}

} // verus!
