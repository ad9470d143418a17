//! The project driver: it holds one parsed compilation unit per key,
//! supports adding, replacing and removing units, and runs the two-phase
//! resolution and validation over all of them on demand.

use vstd::prelude::*;
use vstd::std_specs::cmp::PartialEqSpec;

use crate::ast::Aidl;
use crate::ast::clone_imports;
use crate::ast::Import;
use crate::ast::Item;
use crate::ast::ResolvedItemKind;
use crate::ast::aidl_ok;
use crate::diagnostic::Diagnostic;
use crate::diagnostic::clone_diagnostics;
use crate::diagnostic::dview;
use crate::rules::parse_aidl;
use crate::validation::check_containers;
use crate::validation::item_resolves_to;
use crate::validation::oneway_applied;
use crate::validation::item_oneway_infos;
use crate::validation::pipeline_infos;
use crate::validation::resolve_item;
use crate::validation::spec_sort_by_line;
use crate::validation::check_declared_parcelables;
use crate::validation::check_imports;
use crate::validation::check_methods;
use crate::validation::diag_line;
use crate::validation::lemma_sort_by_line_sorted;
use crate::validation::set_up_oneway_interface;
use crate::validation::sort_diagnostics;

verus! {

/// The parse of one compilation unit under the key its caller chose:
/// the tree (absent after an unrecoverable failure) and the diagnostics
/// collected so far.
#[derive(Debug)]
pub struct ParseFileResult<ID> {
    pub id: ID,
    pub ast: Option<Aidl>,
    pub diagnostics: Vec<Diagnostic>,
}

/// A parser instance which receives the individual source files through
/// `Parser::add_content`. Once all the files have been added, call
/// `Parser::validate` to resolve and validate the whole project and read
/// the results.
///
/// The keys given to `add_content` identify the results; adding a file
/// under an existing key replaces the old one, and `remove_content`
/// drops one.
pub struct Parser<ID> {
    results: Vec<ParseFileResult<ID>>,
}

/// The contents of the project item table: each entry's qualified key as
/// its character sequence, with its kind.
pub open spec fn tview2(s: Seq<(String, crate::ast::ResolvedItemKind)>) -> Seq<
    (Seq<char>, crate::ast::ResolvedItemKind),
> {
    s.map_values(|p: (String, crate::ast::ResolvedItemKind)| (p.0@, p.1))
}

/// The project item table built from the first `i` stored units: one
/// entry, key and kind, per unit that holds a tree.
pub open spec fn spec_table_v<ID>(units: Seq<ParseFileResult<ID>>, i: int) -> Seq<
    (Seq<char>, crate::ast::ResolvedItemKind),
>
    decreases i,
{
    if i <= 0 || i > units.len() {
        Seq::empty()
    } else {
        spec_table_v(units, i - 1) + (match units[i - 1].ast {
            Some(a) => seq![(a.spec_key(), a.item.spec_kind())],
            None => Seq::empty(),
        })
    }
}

/// How one returned unit relates to its stored parse `a0`: the package
/// and both import lists are kept; the item went through one resolution
/// pass against the project table and this unit's own import and forward
/// declaration lists, then through the oneway propagation; and the
/// returned diagnostics are exactly the stored parse diagnostics plus
/// every pass's output, sorted by start line.
pub open spec fn unit_validated<ID>(
    units: Seq<ParseFileResult<ID>>,
    a0: Aidl,
    parse_diags: Seq<crate::diagnostic::DiagInfo>,
    a: Aidl,
    diags: Seq<crate::diagnostic::DiagInfo>,
) -> bool {
    exists|env: (Seq<String>, Seq<String>, Seq<(String, crate::ast::ResolvedItemKind)>, Item)|
        {
            &&& env.0.len() == a0.imports@.len()
            &&& (forall|x: int|
                0 <= x < env.0.len() ==> (#[trigger] env.0[x])@
                    == a0.imports@[x].spec_qualified_name())
            &&& env.1.len() == a0.declared_parcelables@.len()
            &&& (forall|x: int|
                0 <= x < env.1.len() ==> (#[trigger] env.1[x])@
                    == a0.declared_parcelables@[x].spec_qualified_name())
            &&& tview2(env.2) == spec_table_v(units, units.len() as int)
            &&& #[trigger] item_resolves_to(a0.item, env.3, env.0, env.1, env.2)
            &&& oneway_applied(env.3, a.item)
            &&& a.package == a0.package
            &&& a.imports@ == a0.imports@
            &&& a.declared_parcelables@ == a0.declared_parcelables@
            &&& diags == spec_sort_by_line(
                parse_diags + pipeline_infos(a0, env.3, a.item, env.0, env.1, env.2),
            )
        }
}

/// One stored unit is a sound parse: when a tree is present it is
/// structurally well formed.
pub open spec fn unit_ok<ID>(u: ParseFileResult<ID>) -> bool {
    match u.ast {
        Some(a) => aidl_ok(a),
        None => true,
    }
}

impl<ID: Eq + Clone> Parser<ID> {
    /// The stored units, in insertion order.
    pub closed spec fn units(&self) -> Seq<ParseFileResult<ID>> {
        self.results@
    }

    pub closed spec fn wf(&self) -> bool {
        forall|i: int| 0 <= i < self.results@.len() ==> unit_ok(#[trigger] self.results@[i])
    }

    /// Create a new, empty parser.
    pub fn new() -> (r: Parser<ID>)
        ensures
            r.units().len() == 0,
            r.wf(),
    {
        Parser { results: Vec::new() }
    }

    /// Parse `content` and store the result under `id`, replacing any
    /// unit already stored under that key.
    pub fn add_content(&mut self, id: ID, content: &str)
        requires
            old(self).wf(),
            content@.len() < usize::MAX,
        ensures
            final(self).wf(),
            // the new parse replaces the unit stored under an equal key, or
            // is appended; nothing else changes. Where the key type's
            // equality obeys its specification, the replaced slot is
            // exactly the first equal key, and a unit is appended only
            // when no stored key equals the new one.
            exists|u: ParseFileResult<ID>|
                {
                    &&& #[trigger] unit_ok(u)
                    &&& vstd::pervasive::cloned::<ID>(id, u.id)
                    &&& (forall|d: int|
                        0 <= d < u.diagnostics@.len() ==> (#[trigger] u.diagnostics@[d]).kind
                            == crate::diagnostic::DiagnosticKind::Error)
                    &&& (final(self).units() == old(self).units().push(u) || exists|i: int|
                        0 <= i < old(self).units().len() && final(self).units() == old(
                            self,
                        ).units().update(i, u))
                    &&& (ID::obeys_eq_spec() ==> ((exists|i: int|
                        {
                            &&& 0 <= i < old(self).units().len()
                            &&& (#[trigger] old(self).units()[i]).id.eq_spec(&id)
                            &&& (forall|j: int|
                                0 <= j < i ==> !(#[trigger] old(self).units()[j]).id.eq_spec(&id))
                            &&& final(self).units() == old(self).units().update(i, u)
                        }) || ((forall|j: int|
                        0 <= j < old(self).units().len() ==> !(#[trigger] old(
                            self,
                        ).units()[j]).id.eq_spec(&id)) && final(self).units() == old(
                        self,
                    ).units().push(u))))
                },
    {
        let mut diagnostics: Vec<Diagnostic> = Vec::new();
        let parsed = match parse_aidl(content, &mut diagnostics) {
            Ok(opt) => opt,
            Err(d) => {
                diagnostics.push(d);
                None
            },
        };
        let unit = ParseFileResult { id: id.clone(), ast: parsed, diagnostics };
        let n = self.results.len();
        let mut k: usize = 0;
        while k < n
            invariant
                old(self).wf(),
                n == self.results@.len(),
                k <= n,
                self.results@ == old(self).results@,
                unit_ok(unit),
                vstd::pervasive::cloned::<ID>(id, unit.id),
                forall|d: int|
                    0 <= d < unit.diagnostics@.len() ==> (#[trigger] unit.diagnostics@[d]).kind
                        == crate::diagnostic::DiagnosticKind::Error,
                ID::obeys_eq_spec() ==> (forall|j: int|
                    0 <= j < k ==> !(#[trigger] self.results@[j]).id.eq_spec(&id)),
            decreases n - k,
        {
            if self.results[k].id == id {
                let ghost pre = self.results@;
                let ghost u = unit;
                let _ = self.results.remove(k);
                self.results.insert(k, unit);
                proof {
                    assert(self.results@ =~= pre.update(k as int, u));
                    assert forall|i: int| 0 <= i < self.results@.len() implies unit_ok(
                        #[trigger] self.results@[i],
                    ) by {
                        if i != k {
                            assert(self.results@[i] == pre[i]);
                        }
                    }
                }
                return ;
            }
            k = k + 1;
        }
        let ghost pre = self.results@;
        let ghost u = unit;
        self.results.push(unit);
        proof {
            assert forall|i: int| 0 <= i < self.results@.len() implies unit_ok(
                #[trigger] self.results@[i],
            ) by {
                if i < pre.len() {
                    assert(self.results@[i] == pre[i]);
                }
            }
        }
    }

    /// Remove the unit stored under `id`, if one is stored: the first
    /// unit whose key equals `id` is dropped and every other unit is
    /// kept; nothing changes when no key matches.
    pub fn remove_content(&mut self, id: ID)
        requires
            old(self).wf(),
        ensures
            final(self).wf(),
            final(self).units() == old(self).units() || exists|i: int|
                0 <= i < old(self).units().len() && final(self).units() == old(
                    self,
                ).units().remove(i),
            ID::obeys_eq_spec() ==> ((exists|i: int|
                {
                    &&& 0 <= i < old(self).units().len()
                    &&& (#[trigger] old(self).units()[i]).id.eq_spec(&id)
                    &&& (forall|j: int|
                        0 <= j < i ==> !(#[trigger] old(self).units()[j]).id.eq_spec(&id))
                    &&& final(self).units() == old(self).units().remove(i)
                }) || ((forall|j: int|
                0 <= j < old(self).units().len() ==> !(#[trigger] old(
                    self,
                ).units()[j]).id.eq_spec(&id)) && final(self).units() == old(self).units())),
    {
        let n = self.results.len();
        let mut k: usize = 0;
        while k < n
            invariant
                old(self).wf(),
                n == self.results@.len(),
                k <= n,
                self.results@ == old(self).results@,
                ID::obeys_eq_spec() ==> (forall|j: int|
                    0 <= j < k ==> !(#[trigger] self.results@[j]).id.eq_spec(&id)),
            decreases n - k,
        {
            if self.results[k].id == id {
                let ghost pre = self.results@;
                let _ = self.results.remove(k);
                proof {
                    assert forall|i: int| 0 <= i < self.results@.len() implies unit_ok(
                        #[trigger] self.results@[i],
                    ) by {
                        if i < k {
                            assert(self.results@[i] == pre[i]);
                        } else {
                            assert(self.results@[i] == pre[i + 1]);
                        }
                    }
                }
                return ;
            }
            k = k + 1;
        }
    }

    /// Build the project-wide item table: the key and kind of every
    /// stored unit that has a tree.
    fn collect_item_keys(&self) -> (table: Vec<(String, ResolvedItemKind)>)
        requires
            self.wf(),
        ensures
            tview2(table@) == spec_table_v(self.units(), self.units().len() as int),
    {
        let mut table: Vec<(String, ResolvedItemKind)> = Vec::new();
        let n = self.results.len();
        let mut k: usize = 0;
        while k < n
            invariant
                n == self.results@.len(),
                k <= n,
                tview2(table@) == spec_table_v(self.results@, k as int),
            decreases n - k,
        {
            match &self.results[k].ast {
                Some(a) => {
                    let key = a.get_key();
                    let kind = a.item.get_kind();
                    proof {
                        assert(tview2(table@.push((key, kind))) =~= tview2(table@).push(
                            (key@, kind),
                        ));
                        assert(tview2(table@).push((key@, kind)) =~= spec_table_v(
                            self.results@,
                            k + 1,
                        ));
                    }
                    table.push((key, kind));
                },
                None => {
                    proof {
                        assert(tview2(table@) =~= spec_table_v(self.results@, k + 1));
                    }
                },
            }
            k = k + 1;
        }
        table
    }

    /// Resolve and validate every stored unit against the now-complete
    /// project table and return the collected results, one per unit, in
    /// insertion order.
    ///
    /// Per unit: the types are resolved, the imports and forward
    /// declarations are checked, the container and method rules run, a
    /// oneway interface forces its methods to oneway, and the unit's
    /// diagnostics come out sorted by ascending start line. A unit whose
    /// parse failed is passed through with its diagnostics alone.
    #[verifier::rlimit(100)]
    #[verifier::spinoff_prover]
    pub fn validate(&self) -> (results: Vec<ParseFileResult<ID>>)
        requires
            self.wf(),
        ensures
            results@.len() == self.units().len(),
            forall|k: int|
                0 <= k < results@.len() ==> ((#[trigger] results@[k]).ast is Some <==> self.units(
                )[k].ast is Some),
            // each returned unit is the stored parse taken through the whole
            // pipeline: resolution against the project table, the rule
            // passes, the oneway propagation, and the final sort
            forall|k: int|
                0 <= k < results@.len() ==> (match ((#[trigger] results@[k]).ast, self.units(
                )[k].ast) {
                    (Some(a), Some(a0)) => unit_validated(
                        self.units(),
                        a0,
                        dview(self.units()[k].diagnostics@),
                        a,
                        dview(results@[k].diagnostics@),
                    ),
                    (None, None) => dview(results@[k].diagnostics@) == spec_sort_by_line(
                        dview(self.units()[k].diagnostics@),
                    ),
                    _ => false,
                }),
            forall|k: int|
                0 <= k < results@.len() ==> vstd::pervasive::cloned::<ID>(
                    self.units()[k].id,
                    (#[trigger] results@[k]).id,
                ),
            // every unit's diagnostics are sorted by ascending start line
            forall|k: int, i: int, j: int|
                #![trigger dview(results@[k].diagnostics@)[i], dview(results@[k].diagnostics@)[j]]
                0 <= k < results@.len() && 0 <= i <= j < results@[k].diagnostics@.len()
                    ==> diag_line(dview(results@[k].diagnostics@)[i]) <= diag_line(
                    dview(results@[k].diagnostics@)[j],
                ),
            // a oneway interface's methods all come out oneway
            forall|k: int|
                0 <= k < results@.len() ==> (match (#[trigger] results@[k]).ast {
                    Some(a) => match a.item {
                        Item::Interface(i) => i.oneway ==> (forall|e: int|
                            0 <= e < i.elements@.len()
                                ==> (match #[trigger] i.elements@[e] {
                                crate::ast::InterfaceElement::Method(m) => m.oneway,
                                crate::ast::InterfaceElement::Const(_) => true,
                            })),
                        _ => true,
                    },
                    None => true,
                }),
    {
        let table = self.collect_item_keys();
        let mut results: Vec<ParseFileResult<ID>> = Vec::new();
        let n = self.results.len();
        let mut k: usize = 0;
        while k < n
            invariant
                self.wf(),
                n == self.results@.len(),
                k <= n,
                results@.len() == k,
                forall|j: int|
                    0 <= j < k ==> ((#[trigger] results@[j]).ast is Some <==> self.units(
                    )[j].ast is Some),
                tview2(table@) == spec_table_v(self.units(), self.units().len() as int),
                forall|j: int|
                    0 <= j < k ==> (match ((#[trigger] results@[j]).ast, self.units()[j].ast) {
                        (Some(a), Some(a0)) => unit_validated(
                            self.units(),
                            a0,
                            dview(self.units()[j].diagnostics@),
                            a,
                            dview(results@[j].diagnostics@),
                        ),
                        (None, None) => dview(results@[j].diagnostics@) == spec_sort_by_line(
                            dview(self.units()[j].diagnostics@),
                        ),
                        _ => false,
                    }),
                forall|j: int|
                    0 <= j < k ==> vstd::pervasive::cloned::<ID>(
                        self.units()[j].id,
                        (#[trigger] results@[j]).id,
                    ),
                forall|j: int, a: int, b: int|
                    #![trigger dview(results@[j].diagnostics@)[a], dview(results@[j].diagnostics@)[b]]
                    0 <= j < k && 0 <= a <= b < results@[j].diagnostics@.len()
                        ==> diag_line(dview(results@[j].diagnostics@)[a]) <= diag_line(
                        dview(results@[j].diagnostics@)[b],
                    ),
                forall|j: int|
                    0 <= j < k ==> (match (#[trigger] results@[j]).ast {
                        Some(a) => match a.item {
                            Item::Interface(i) => i.oneway ==> (forall|e: int|
                                0 <= e < i.elements@.len()
                                    ==> (match #[trigger] i.elements@[e] {
                                    crate::ast::InterfaceElement::Method(m) => m.oneway,
                                    crate::ast::InterfaceElement::Const(_) => true,
                                })),
                            _ => true,
                        },
                        None => true,
                    }),
            decreases n - k,
        {
            let unit = &self.results[k];
            let id = unit.id.clone();
            let mut diagnostics = clone_diagnostics(&unit.diagnostics);
            let validated = match &unit.ast {
                Some(stored) => {
                    // the per-unit inputs of the resolution pass
                    let imports = qualified_names(&stored.imports);
                    let declared = qualified_names(&stored.declared_parcelables);
                    let mut resolved_names: Vec<String> = Vec::new();
                    let resolved_item = resolve_item(
                        &stored.item,
                        &imports,
                        &declared,
                        &table,
                        &mut diagnostics,
                        &mut resolved_names,
                    );
                    let ghost ri = resolved_item;
                    let mut a = Aidl {
                        package: stored.package.clone(),
                        imports: clone_imports(&stored.imports),
                        declared_parcelables: clone_imports(&stored.declared_parcelables),
                        item: resolved_item,
                    };
                    let imports_map = check_imports(
                        &a.imports,
                        &resolved_names,
                        &table,
                        &mut diagnostics,
                    );
                    check_declared_parcelables(
                        &a.declared_parcelables,
                        &imports_map,
                        &resolved_names,
                        &mut diagnostics,
                    );
                    check_containers(&a, &mut diagnostics);
                    apply_oneway_setup(&mut a, &mut diagnostics);
                    check_methods(&a, &mut diagnostics);
                    let ghost unsorted = dview(diagnostics@);
                    sort_diagnostics(&mut diagnostics);
                    proof {
                        lemma_sort_by_line_sorted(unsorted);
                        let ghost env = (imports@, declared@, table@, ri);
                        assert(unsorted =~= dview(unit.diagnostics@) + pipeline_infos(
                            *stored,
                            ri,
                            a.item,
                            env.0,
                            env.1,
                            env.2,
                        ));
                        assert(item_resolves_to(stored.item, env.3, env.0, env.1, env.2));
                        assert(unit_validated(
                            self.units(),
                            *stored,
                            dview(unit.diagnostics@),
                            a,
                            dview(diagnostics@),
                        ));
                    }
                    Some(a)
                },
                None => {
                    let ghost unsorted = dview(diagnostics@);
                    sort_diagnostics(&mut diagnostics);
                    proof {
                        lemma_sort_by_line_sorted(unsorted);
                    }
                    None
                },
            };
            results.push(ParseFileResult { id, ast: validated, diagnostics });
            k = k + 1;
        }
        results
    }
}

impl<ID: Eq + Clone> Default for Parser<ID> {
    /// An empty parser.
    fn default() -> (r: Self)
        ensures
            r.units().len() == 0,
            r.wf(),
    {
        Parser::new()
    }
}

/// The qualified names of a list of imports or forward declarations, in
/// order.
pub fn qualified_names(v: &Vec<Import>) -> (r: Vec<String>)
    ensures
        r@.len() == v@.len(),
        forall|i: int| 0 <= i < v@.len() ==> (#[trigger] r@[i])@ == v@[i].spec_qualified_name(),
{
    let mut out: Vec<String> = Vec::new();
    let n = v.len();
    let mut k: usize = 0;
    while k < n
        invariant
            n == v@.len(),
            k <= n,
            out@.len() == k,
            forall|i: int| 0 <= i < k ==> (#[trigger] out@[i])@ == v@[i].spec_qualified_name(),
        decreases n - k,
    {
        out.push(v[k].get_qualified_name());
        k = k + 1;
    }
    out
}

/// Run the oneway propagation on the unit's item when it is an interface.
/// Afterwards, a oneway interface holds only oneway methods.
fn apply_oneway_setup(a: &mut Aidl, diagnostics: &mut Vec<Diagnostic>)
    ensures
        final(a).package == old(a).package,
        final(a).imports == old(a).imports,
        final(a).declared_parcelables == old(a).declared_parcelables,
        oneway_applied(old(a).item, final(a).item),
        dview(final(diagnostics)@) == dview(old(diagnostics)@) + item_oneway_infos(old(a).item),
        match final(a).item {
            Item::Interface(i) => i.oneway ==> (forall|e: int|
                0 <= e < i.elements@.len() ==> (match #[trigger] i.elements@[e] {
                    crate::ast::InterfaceElement::Method(m) => m.oneway,
                    crate::ast::InterfaceElement::Const(_) => true,
                })),
            _ => true,
        },
{
    let mut tmp = Item::Enum(
        crate::ast::Enum {
            name: String::new(),
            elements: Vec::new(),
            annotations: Vec::new(),
            doc: None,
            full_range: empty_range(),
            symbol_range: empty_range(),
        },
    );
    core::mem::swap(&mut a.item, &mut tmp);
    match tmp {
        Item::Interface(mut i) => {
            if i.oneway {
                set_up_oneway_interface(&mut i, diagnostics);
            } else {
                proof {
                    assert(dview(diagnostics@) =~= dview(old(diagnostics)@) + item_oneway_infos(
                        old(a).item,
                    ));
                }
            }
            a.item = Item::Interface(i);
        },
        other => {
            proof {
                assert(dview(diagnostics@) =~= dview(old(diagnostics)@) + item_oneway_infos(
                    old(a).item,
                ));
            }
            a.item = other;
        },
    }
}

/// A collapsed range at the origin, for placeholder nodes.
fn empty_range() -> crate::ast::Range {
    crate::ast::Range {
        start: crate::ast::Position { offset: 0, line_col: (1, 1) },
        end: crate::ast::Position { offset: 0, line_col: (1, 1) },
    }
}

} // verus!
