//! Read-only queries over a resolved tree: walks at three depths, a
//! filtering walk, a short-circuiting find, and position lookup.

use vstd::prelude::*;

use crate::ast::Aidl;
use crate::ast::Arg;
use crate::ast::InterfaceElement;
use crate::ast::Item;
use crate::ast::Method;
use crate::ast::ParcelableElement;
use crate::ast::Range;
use crate::ast::Type;
use crate::ast::TypeKind;
use crate::symbol::ConstOwner;
use crate::symbol::SymDesc;
use crate::symbol::Symbol;

verus! {

/// How deep a walk descends.
#[derive(Debug, Clone, Copy, PartialEq, Eq, Structural)]
pub enum SymbolFilter {
    /// Only extract the top-level item
    ItemsOnly,
    /// Extract the top-level and its direct children (e.g.: parcelable + fields)
    ItemsAndItemElements,
    /// Extract all symbols (incl. types)
    All,
}

/// The symbols of the parameters `[0, i)` of `t`.
pub open spec fn type_syms_children(t: Type, i: int) -> Seq<SymDesc>
    decreases t, i,
{
    if i <= 0 || i > t.generic_types@.len() {
        Seq::empty()
    } else {
        type_syms_children(t, i - 1) + type_syms(t.generic_types@[i - 1])
    }
}

/// The symbols of a type tree: an array's element type comes before the
/// array wrapper itself, every other type before its parameters.
pub open spec fn type_syms(t: Type) -> Seq<SymDesc>
    decreases t, t.generic_types@.len() + 1,
{
    if t.kind@ is Array {
        type_syms_children(t, t.generic_types@.len() as int) + seq![SymDesc::Type(t)]
    } else {
        seq![SymDesc::Type(t)] + type_syms_children(t, t.generic_types@.len() as int)
    }
}

/// The symbols of the arguments `[0, i)` of a method: each argument, then
/// (at full depth) its type.
pub open spec fn arg_syms(m: Method, i: int, deep: bool) -> Seq<SymDesc>
    decreases i,
{
    if i <= 0 || i > m.args@.len() {
        Seq::empty()
    } else {
        arg_syms(m, i - 1, deep) + seq![SymDesc::Arg(m.args@[i - 1], m)] + (if deep {
            type_syms(m.args@[i - 1].arg_type)
        } else {
            Seq::empty()
        })
    }
}

/// The symbols of the first `i` interface elements.
pub open spec fn ielem_syms(
    i: crate::ast::Interface,
    k: int,
    deep: bool,
) -> Seq<SymDesc>
    decreases k,
{
    if k <= 0 || k > i.elements@.len() {
        Seq::empty()
    } else {
        ielem_syms(i, k - 1, deep) + (match i.elements@[k - 1] {
            InterfaceElement::Method(m) => seq![SymDesc::Method(m, i)] + (if deep {
                type_syms(m.return_type) + arg_syms(m, m.args@.len() as int, true)
            } else {
                Seq::empty()
            }),
            InterfaceElement::Const(c) => seq![SymDesc::ConstOfInterface(c, i)] + (if deep {
                type_syms(c.const_type)
            } else {
                Seq::empty()
            }),
        })
    }
}

/// The symbols of the first `i` parcelable elements.
pub open spec fn pelem_syms(p: crate::ast::Parcelable, k: int, deep: bool) -> Seq<SymDesc>
    decreases k,
{
    if k <= 0 || k > p.elements@.len() {
        Seq::empty()
    } else {
        pelem_syms(p, k - 1, deep) + (match p.elements@[k - 1] {
            ParcelableElement::Field(f) => seq![SymDesc::Field(f, p)] + (if deep {
                type_syms(f.field_type)
            } else {
                Seq::empty()
            }),
            ParcelableElement::Const(c) => seq![SymDesc::ConstOfParcelable(c, p)] + (if deep {
                type_syms(c.const_type)
            } else {
                Seq::empty()
            }),
        })
    }
}

/// The symbols of the first `i` enumeration elements.
pub open spec fn eelem_syms(e: crate::ast::Enum, k: int) -> Seq<SymDesc>
    decreases k,
{
    if k <= 0 || k > e.elements@.len() {
        Seq::empty()
    } else {
        eelem_syms(e, k - 1) + seq![SymDesc::EnumElement(e.elements@[k - 1], e)]
    }
}

/// The imports of a unit as symbols, first `i` of them.
pub open spec fn import_syms(a: Aidl, i: int) -> Seq<SymDesc>
    decreases i,
{
    if i <= 0 || i > a.imports@.len() {
        Seq::empty()
    } else {
        import_syms(a, i - 1) + seq![SymDesc::Import(a.imports@[i - 1])]
    }
}

/// The symbols a walk of `a` yields at depth `filter`, in walk order: at
/// full depth the package and the imports first; then the item; then its
/// elements unless the walk is items-only; types only at full depth.
pub open spec fn symbols_seq(a: Aidl, filter: SymbolFilter) -> Seq<SymDesc> {
    let head: Seq<SymDesc> = if filter is All {
        seq![SymDesc::Package(a.package)] + import_syms(a, a.imports@.len() as int)
    } else {
        Seq::empty()
    };
    let deep = filter is All;
    head + (match a.item {
        Item::Interface(i) => seq![SymDesc::Interface(i, a.package)] + (if filter is ItemsOnly {
            Seq::empty()
        } else {
            ielem_syms(i, i.elements@.len() as int, deep)
        }),
        Item::Parcelable(p) => seq![SymDesc::Parcelable(p, a.package)] + (if filter is ItemsOnly {
            Seq::empty()
        } else {
            pelem_syms(p, p.elements@.len() as int, deep)
        }),
        Item::Enum(e) => seq![SymDesc::Enum(e, a.package)] + (if filter is ItemsOnly {
            Seq::empty()
        } else {
            eelem_syms(e, e.elements@.len() as int)
        }),
    })
}

/// The contents of a list of symbols.
pub open spec fn sview(s: Seq<Symbol>) -> Seq<SymDesc> {
    s.map_values(|x: Symbol| x@)
}

/// Collect the symbols of one type tree into `out`.
fn walk_type<'a>(t: &'a Type, out: &mut Vec<Symbol<'a>>)
    ensures
        sview(final(out)@) == sview(old(out)@) + type_syms(*t),
    decreases *t,
{
    let ghost base = sview(out@);
    let is_array = match &t.kind {
        TypeKind::Array => true,
        _ => false,
    };
    if !is_array {
        proof {
            assert(sview(out@.push(Symbol::Type(t))) =~= sview(out@).push(SymDesc::Type(*t)));
        }
        out.push(Symbol::Type(t));
    }
    let ghost mid = sview(out@);
    let n = t.generic_types.len();
    let mut k: usize = 0;
    while k < n
        invariant
            n == t.generic_types@.len(),
            k <= n,
            sview(out@) == mid + type_syms_children(*t, k as int),
        decreases n - k,
    {
        proof {
            assert(decreases_to!(*t => t.generic_types@[k as int]));
        }
        walk_type(&t.generic_types[k], out);
        k = k + 1;
    }
    if is_array {
        proof {
            assert(sview(out@.push(Symbol::Type(t))) =~= sview(out@).push(SymDesc::Type(*t)));
        }
        out.push(Symbol::Type(t));
    }
    proof {
        assert(sview(out@) =~= base + type_syms(*t));
    }
}

/// Traverse the tree and return its symbols at the chosen depth, in walk
/// order.
pub fn walk_symbols<'a>(ast: &'a Aidl, filter: SymbolFilter) -> (r: Vec<Symbol<'a>>)
    ensures
        sview(r@) == symbols_seq(*ast, filter),
{
    let mut out: Vec<Symbol<'a>> = Vec::new();
    let deep = match filter {
        SymbolFilter::All => true,
        _ => false,
    };
    let items_only = match filter {
        SymbolFilter::ItemsOnly => true,
        _ => false,
    };
    if deep {
        proof {
            assert(sview(out@.push(Symbol::Package(&ast.package))) =~= sview(out@).push(
                SymDesc::Package(ast.package),
            ));
        }
        out.push(Symbol::Package(&ast.package));
        let n = ast.imports.len();
        let mut k: usize = 0;
        while k < n
            invariant
                n == ast.imports@.len(),
                k <= n,
                sview(out@) == seq![SymDesc::Package(ast.package)] + import_syms(*ast, k as int),
            decreases n - k,
        {
            proof {
                assert(sview(out@.push(Symbol::Import(&ast.imports[k as int]))) =~= sview(
                    out@,
                ).push(SymDesc::Import(ast.imports@[k as int])));
            }
            out.push(Symbol::Import(&ast.imports[k]));
            k = k + 1;
        }
    }
    let ghost head = sview(out@);
    match &ast.item {
        Item::Interface(i) => {
            proof {
                assert(sview(out@.push(Symbol::Interface(i, &ast.package))) =~= sview(out@).push(
                    SymDesc::Interface(*i, ast.package),
                ));
            }
            out.push(Symbol::Interface(i, &ast.package));
            if !items_only {
                let ghost base = sview(out@);
                let n = i.elements.len();
                let mut k: usize = 0;
                while k < n
                    invariant
                        n == i.elements@.len(),
                        k <= n,
                        sview(out@) == base + ielem_syms(*i, k as int, deep),
                    decreases n - k,
                {
                    let ghost before = sview(out@);
                    match &i.elements[k] {
                        InterfaceElement::Method(m) => {
                            proof {
                                assert(sview(out@.push(Symbol::Method(m, i))) =~= sview(out@).push(
                                    SymDesc::Method(*m, *i),
                                ));
                            }
                            out.push(Symbol::Method(m, i));
                            if deep {
                                walk_type(&m.return_type, &mut out);
                                let ghost mid = sview(out@);
                                let an = m.args.len();
                                let mut j: usize = 0;
                                while j < an
                                    invariant
                                        an == m.args@.len(),
                                        j <= an,
                                        sview(out@) == mid + arg_syms(*m, j as int, true),
                                    decreases an - j,
                                {
                                    proof {
                                        assert(sview(out@.push(Symbol::Arg(&m.args[j as int], m)))
                                            =~= sview(out@).push(
                                            SymDesc::Arg(m.args@[j as int], *m),
                                        ));
                                    }
                                    out.push(Symbol::Arg(&m.args[j], m));
                                    walk_type(&m.args[j].arg_type, &mut out);
                                    j = j + 1;
                                }
                            }
                        },
                        InterfaceElement::Const(c) => {
                            proof {
                                assert(sview(out@.push(Symbol::Const(c, ConstOwner::Interface(i))))
                                    =~= sview(out@).push(SymDesc::ConstOfInterface(*c, *i)));
                            }
                            out.push(Symbol::Const(c, ConstOwner::Interface(i)));
                            if deep {
                                walk_type(&c.const_type, &mut out);
                            }
                        },
                    }
                    proof {
                        assert(sview(out@) =~= base + ielem_syms(*i, k + 1, deep));
                    }
                    k = k + 1;
                }
            }
        },
        Item::Parcelable(p) => {
            proof {
                assert(sview(out@.push(Symbol::Parcelable(p, &ast.package))) =~= sview(out@).push(
                    SymDesc::Parcelable(*p, ast.package),
                ));
            }
            out.push(Symbol::Parcelable(p, &ast.package));
            if !items_only {
                let ghost base = sview(out@);
                let n = p.elements.len();
                let mut k: usize = 0;
                while k < n
                    invariant
                        n == p.elements@.len(),
                        k <= n,
                        sview(out@) == base + pelem_syms(*p, k as int, deep),
                    decreases n - k,
                {
                    match &p.elements[k] {
                        ParcelableElement::Field(f) => {
                            proof {
                                assert(sview(out@.push(Symbol::Field(f, p))) =~= sview(out@).push(
                                    SymDesc::Field(*f, *p),
                                ));
                            }
                            out.push(Symbol::Field(f, p));
                            if deep {
                                walk_type(&f.field_type, &mut out);
                            }
                        },
                        ParcelableElement::Const(c) => {
                            proof {
                                assert(sview(out@.push(Symbol::Const(c, ConstOwner::Parcelable(p))))
                                    =~= sview(out@).push(SymDesc::ConstOfParcelable(*c, *p)));
                            }
                            out.push(Symbol::Const(c, ConstOwner::Parcelable(p)));
                            if deep {
                                walk_type(&c.const_type, &mut out);
                            }
                        },
                    }
                    proof {
                        assert(sview(out@) =~= base + pelem_syms(*p, k + 1, deep));
                    }
                    k = k + 1;
                }
            }
        },
        Item::Enum(e) => {
            proof {
                assert(sview(out@.push(Symbol::Enum(e, &ast.package))) =~= sview(out@).push(
                    SymDesc::Enum(*e, ast.package),
                ));
            }
            out.push(Symbol::Enum(e, &ast.package));
            if !items_only {
                let ghost base = sview(out@);
                let n = e.elements.len();
                let mut k: usize = 0;
                while k < n
                    invariant
                        n == e.elements@.len(),
                        k <= n,
                        sview(out@) == base + eelem_syms(*e, k as int),
                    decreases n - k,
                {
                    proof {
                        assert(sview(out@.push(Symbol::EnumElement(&e.elements[k as int], e)))
                            =~= sview(out@).push(SymDesc::EnumElement(e.elements@[k as int], *e)));
                    }
                    out.push(Symbol::EnumElement(&e.elements[k], e));
                    k = k + 1;
                }
            }
        },
    }
    proof {
        assert(sview(out@) =~= symbols_seq(*ast, filter));
    }
    out
}

/// Whether the 1-based line/column pair lies inside `range`, both ends
/// inclusive.
pub open spec fn spec_range_contains(range: Range, line_col: (usize, usize)) -> bool {
    &&& !(range.start.line_col.0 > line_col.0)
    &&& !(range.start.line_col.0 == line_col.0 && range.start.line_col.1 > line_col.1)
    &&& !(range.end.line_col.0 < line_col.0)
    &&& !(range.end.line_col.0 == line_col.0 && range.end.line_col.1 < line_col.1)
}

/// Whether a position lies inside a range (1-based, inclusive on both
/// ends).
pub fn range_contains(range: &Range, line_col: (usize, usize)) -> (r: bool)
    ensures
        r == spec_range_contains(*range, line_col),
{
    if range.start.line_col.0 > line_col.0 {
        return false;
    }
    if range.start.line_col.0 == line_col.0 && range.start.line_col.1 > line_col.1 {
        return false;
    }
    if range.end.line_col.0 < line_col.0 {
        return false;
    }
    if range.end.line_col.0 == line_col.0 && range.end.line_col.1 < line_col.1 {
        return false;
    }
    true
}

/// Whether a symbol description occurs in the walk of `a` at `filter`.
pub open spec fn in_walk(a: Aidl, filter: SymbolFilter, d: SymDesc) -> bool {
    exists|j: int|
        0 <= j < symbols_seq(a, filter).len() && #[trigger] symbols_seq(a, filter)[j] == d
}

/// The symbols among the first `i` of `syms` whose decision bit is set,
/// in order.
pub open spec fn kept_upto<'a>(syms: Seq<Symbol<'a>>, bs: Seq<bool>, i: int) -> Seq<Symbol<'a>>
    decreases i,
{
    if i <= 0 || i > syms.len() || i > bs.len() {
        Seq::empty()
    } else {
        kept_upto(syms, bs, i - 1) + (if bs[i - 1] {
            seq![syms[i - 1]]
        } else {
            Seq::empty()
        })
    }
}

proof fn lemma_kept_upto_push<'a>(syms: Seq<Symbol<'a>>, bs: Seq<bool>, x: bool, i: int)
    requires
        i <= bs.len(),
    ensures
        kept_upto(syms, bs.push(x), i) == kept_upto(syms, bs, i),
    decreases i,
{
    if 0 < i <= syms.len() {
        lemma_kept_upto_push(syms, bs, x, i - 1);
    }
}

/// Walk the tree and keep the symbols the predicate accepts: the result
/// is exactly the accepted subsequence of the walk, in walk order, with
/// one decision per walked symbol.
pub fn filter_symbols<'a, F: Fn(&Symbol<'a>) -> bool>(
    ast: &'a Aidl,
    filter: SymbolFilter,
    f: F,
) -> (r: Vec<Symbol<'a>>)
    requires
        forall|s: Symbol<'a>| #[trigger] f.requires((&s,)),
    ensures
        exists|syms: Seq<Symbol<'a>>, bs: Seq<bool>|
            {
                &&& #[trigger] sview(syms) == symbols_seq(*ast, filter)
                &&& bs.len() == syms.len()
                &&& (forall|i: int| 0 <= i < syms.len() ==> f.ensures((&syms[i],), bs[i]))
                &&& r@ == #[trigger] kept_upto(syms, bs, syms.len() as int)
            },
{
    let symbols = walk_symbols(ast, filter);
    let ghost all = symbols@;
    let mut out: Vec<Symbol<'a>> = Vec::new();
    let ghost mut bs: Seq<bool> = Seq::empty();
    let n = symbols.len();
    let mut k: usize = 0;
    while k < n
        invariant
            n == all.len(),
            symbols@ == all,
            sview(all) == symbols_seq(*ast, filter),
            k <= n,
            bs.len() == k,
            forall|s: Symbol<'a>| #[trigger] f.requires((&s,)),
            forall|i: int| 0 <= i < k ==> f.ensures((&all[i],), bs[i]),
            out@ == kept_upto(all, bs, k as int),
        decreases n - k,
    {
        let s = symbols[k];
        let accepted = f(&s);
        proof {
            lemma_kept_upto_push(all, bs, accepted, k as int);
            bs = bs.push(accepted);
        }
        if accepted {
            out.push(s);
        }
        proof {
            assert(out@ =~= kept_upto(all, bs, k + 1));
        }
        k = k + 1;
    }
    out
}

/// Walk the tree and return the first symbol the predicate accepts:
/// `None` exactly when it accepts none of them, and no symbol before the
/// returned one is accepted.
pub fn find_symbol<'a, F: Fn(&Symbol<'a>) -> bool>(
    ast: &'a Aidl,
    filter: SymbolFilter,
    f: F,
) -> (r: Option<Symbol<'a>>)
    requires
        forall|s: Symbol<'a>| #[trigger] f.requires((&s,)),
    ensures
        exists|syms: Seq<Symbol<'a>>|
            {
                &&& #[trigger] sview(syms) == symbols_seq(*ast, filter)
                &&& (match r {
                    Some(s) => exists|j: int|
                        {
                            &&& 0 <= j < syms.len()
                            &&& s == #[trigger] syms[j]
                            &&& f.ensures((&syms[j],), true)
                            &&& (forall|i: int| 0 <= i < j ==> f.ensures((&syms[i],), false))
                        },
                    None => forall|i: int|
                        0 <= i < syms.len() ==> f.ensures((&syms[i],), false),
                })
            },
{
    let symbols = walk_symbols(ast, filter);
    let ghost all = symbols@;
    let n = symbols.len();
    let mut k: usize = 0;
    while k < n
        invariant
            n == all.len(),
            symbols@ == all,
            sview(all) == symbols_seq(*ast, filter),
            k <= n,
            forall|s: Symbol<'a>| #[trigger] f.requires((&s,)),
            forall|i: int| 0 <= i < k ==> f.ensures((&all[i],), false),
        decreases n - k,
    {
        let s = symbols[k];
        if f(&s) {
            return Some(s);
        }
        k = k + 1;
    }
    None
}

/// Find the first symbol, in walk order, whose primary range contains the
/// 1-based position.
pub fn find_symbol_at_line_col<'a>(
    ast: &'a Aidl,
    filter: SymbolFilter,
    line_col: (usize, usize),
) -> (r: Option<Symbol<'a>>)
    ensures
        match r {
            Some(s) => exists|j: int|
                {
                    &&& 0 <= j < symbols_seq(*ast, filter).len()
                    &&& s@ == symbols_seq(*ast, filter)[j]
                    &&& spec_range_contains(spec_symbol_range_of(s@), line_col)
                    &&& forall|i: int|
                        0 <= i < j ==> !spec_range_contains(
                            spec_symbol_range_of(#[trigger] symbols_seq(*ast, filter)[i]),
                            line_col,
                        )
                },
            None => forall|i: int|
                0 <= i < symbols_seq(*ast, filter).len() ==> !spec_range_contains(
                    spec_symbol_range_of(#[trigger] symbols_seq(*ast, filter)[i]),
                    line_col,
                ),
        },
{
    let symbols = walk_symbols(ast, filter);
    let n = symbols.len();
    let mut k: usize = 0;
    while k < n
        invariant
            n == symbols@.len(),
            k <= n,
            sview(symbols@) == symbols_seq(*ast, filter),
            forall|i: int|
                0 <= i < k ==> !spec_range_contains(
                    spec_symbol_range_of(#[trigger] symbols_seq(*ast, filter)[i]),
                    line_col,
                ),
        decreases n - k,
    {
        let s = symbols[k];
        proof {
            assert(sview(symbols@)[k as int] == symbols@[k as int]@);
        }
        if range_contains(s.get_range(), line_col) {
            return Some(s);
        }
        k = k + 1;
    }
    None
}

/// The primary range of a symbol description.
pub open spec fn spec_symbol_range_of(s: SymDesc) -> Range {
    crate::symbol::spec_symbol_range(s)
}

/// The types a walk of `t` yields, the element of an array before the
/// array itself.
pub open spec fn type_nodes(t: Type) -> Seq<Type>
    decreases t, t.generic_types@.len() + 1,
{
    if t.kind@ is Array {
        type_nodes_children(t, t.generic_types@.len() as int) + seq![t]
    } else {
        seq![t] + type_nodes_children(t, t.generic_types@.len() as int)
    }
}

pub open spec fn type_nodes_children(t: Type, i: int) -> Seq<Type>
    decreases t, i,
{
    if i <= 0 || i > t.generic_types@.len() {
        Seq::empty()
    } else {
        type_nodes_children(t, i - 1) + type_nodes(t.generic_types@[i - 1])
    }
}

/// The types of the first `k` interface elements, in declaration order.
pub open spec fn ielem_types(i: crate::ast::Interface, k: int) -> Seq<Type>
    decreases k,
{
    if k <= 0 || k > i.elements@.len() {
        Seq::empty()
    } else {
        ielem_types(i, k - 1) + (match i.elements@[k - 1] {
            InterfaceElement::Method(m) => type_nodes(m.return_type) + method_arg_types(
                m,
                m.args@.len() as int,
            ),
            InterfaceElement::Const(c) => type_nodes(c.const_type),
        })
    }
}

pub open spec fn method_arg_types(m: Method, i: int) -> Seq<Type>
    decreases i,
{
    if i <= 0 || i > m.args@.len() {
        Seq::empty()
    } else {
        method_arg_types(m, i - 1) + type_nodes(m.args@[i - 1].arg_type)
    }
}

/// The types of the first `k` parcelable elements.
pub open spec fn pelem_types(p: crate::ast::Parcelable, k: int) -> Seq<Type>
    decreases k,
{
    if k <= 0 || k > p.elements@.len() {
        Seq::empty()
    } else {
        pelem_types(p, k - 1) + (match p.elements@[k - 1] {
            ParcelableElement::Field(f) => type_nodes(f.field_type),
            ParcelableElement::Const(c) => type_nodes(c.const_type),
        })
    }
}

/// All types of the unit's item, in walk order.
pub open spec fn item_types(a: Aidl) -> Seq<Type> {
    match a.item {
        Item::Interface(i) => ielem_types(i, i.elements@.len() as int),
        Item::Parcelable(p) => pelem_types(p, p.elements@.len() as int),
        Item::Enum(_) => Seq::empty(),
    }
}

/// The contents of a list of type references.
pub open spec fn tyview(s: Seq<&Type>) -> Seq<Type> {
    s.map_values(|t: &Type| *t)
}

fn walk_type_nodes<'a>(t: &'a Type, out: &mut Vec<&'a Type>)
    ensures
        tyview(final(out)@) == tyview(old(out)@) + type_nodes(*t),
    decreases *t,
{
    let ghost base = tyview(out@);
    let is_array = match &t.kind {
        TypeKind::Array => true,
        _ => false,
    };
    if !is_array {
        proof {
            assert(tyview(out@.push(t)) =~= tyview(out@).push(*t));
        }
        out.push(t);
    }
    let ghost mid = tyview(out@);
    let n = t.generic_types.len();
    let mut k: usize = 0;
    while k < n
        invariant
            n == t.generic_types@.len(),
            k <= n,
            tyview(out@) == mid + type_nodes_children(*t, k as int),
        decreases n - k,
    {
        proof {
            assert(decreases_to!(*t => t.generic_types@[k as int]));
        }
        walk_type_nodes(&t.generic_types[k], out);
        k = k + 1;
    }
    if is_array {
        proof {
            assert(tyview(out@.push(t)) =~= tyview(out@).push(*t));
        }
        out.push(t);
    }
    proof {
        assert(tyview(out@) =~= base + type_nodes(*t));
    }
}

/// The type nodes of the unit's item, in walk order: the element of an
/// array before the array itself, every other type before its parameters.
pub fn walk_types<'a>(ast: &'a Aidl) -> (r: Vec<&'a Type>)
    ensures
        tyview(r@) == item_types(*ast),
{
    let mut out: Vec<&'a Type> = Vec::new();
    match &ast.item {
        Item::Interface(i) => {
            let n = i.elements.len();
            let mut k: usize = 0;
            while k < n
                invariant
                    n == i.elements@.len(),
                    k <= n,
                    tyview(out@) == ielem_types(*i, k as int),
                decreases n - k,
            {
                let ghost before = tyview(out@);
                match &i.elements[k] {
                    InterfaceElement::Method(m) => {
                        walk_type_nodes(&m.return_type, &mut out);
                        let ghost mid = tyview(out@);
                        let an = m.args.len();
                        let mut j: usize = 0;
                        while j < an
                            invariant
                                an == m.args@.len(),
                                j <= an,
                                tyview(out@) == mid + method_arg_types(*m, j as int),
                            decreases an - j,
                        {
                            walk_type_nodes(&m.args[j].arg_type, &mut out);
                            j = j + 1;
                        }
                    },
                    InterfaceElement::Const(c) => {
                        walk_type_nodes(&c.const_type, &mut out);
                    },
                }
                proof {
                    assert(tyview(out@) =~= ielem_types(*i, k + 1));
                }
                k = k + 1;
            }
        },
        Item::Parcelable(p) => {
            let n = p.elements.len();
            let mut k: usize = 0;
            while k < n
                invariant
                    n == p.elements@.len(),
                    k <= n,
                    tyview(out@) == pelem_types(*p, k as int),
                decreases n - k,
            {
                match &p.elements[k] {
                    ParcelableElement::Field(f) => {
                        walk_type_nodes(&f.field_type, &mut out);
                    },
                    ParcelableElement::Const(c) => {
                        walk_type_nodes(&c.const_type, &mut out);
                    },
                }
                proof {
                    assert(tyview(out@) =~= pelem_types(*p, k + 1));
                }
                k = k + 1;
            }
        },
        Item::Enum(_) => (),
    }
    out
}

/// The methods of the first `k` interface elements.
pub open spec fn methods_upto(i: crate::ast::Interface, k: int) -> Seq<Method>
    decreases k,
{
    if k <= 0 || k > i.elements@.len() {
        Seq::empty()
    } else {
        methods_upto(i, k - 1) + (match i.elements@[k - 1] {
            InterfaceElement::Method(m) => seq![m],
            InterfaceElement::Const(_) => Seq::empty(),
        })
    }
}

/// All methods of the unit's item, in declaration order.
pub open spec fn item_methods(a: Aidl) -> Seq<Method> {
    match a.item {
        Item::Interface(i) => methods_upto(i, i.elements@.len() as int),
        _ => Seq::empty(),
    }
}

/// The contents of a list of method references.
pub open spec fn mview(s: Seq<&Method>) -> Seq<Method> {
    s.map_values(|m: &Method| *m)
}

/// The methods of the unit's item, in declaration order.
pub fn walk_methods<'a>(ast: &'a Aidl) -> (r: Vec<&'a Method>)
    ensures
        mview(r@) == item_methods(*ast),
{
    let mut out: Vec<&'a Method> = Vec::new();
    match &ast.item {
        Item::Interface(i) => {
            let n = i.elements.len();
            let mut k: usize = 0;
            while k < n
                invariant
                    n == i.elements@.len(),
                    k <= n,
                    mview(out@) == methods_upto(*i, k as int),
                decreases n - k,
            {
                match &i.elements[k] {
                    InterfaceElement::Method(m) => {
                        proof {
                            assert(mview(out@.push(m)) =~= mview(out@).push(*m));
                        }
                        out.push(m);
                    },
                    InterfaceElement::Const(_) => (),
                }
                proof {
                    assert(mview(out@) =~= methods_upto(*i, k + 1));
                }
                k = k + 1;
            }
        },
        _ => (),
    }
    proof {
        assert(mview(out@) =~= item_methods(*ast));
    }
    out
}

/// The (method, argument) pairs of the first `k` interface elements.
pub open spec fn args_upto(i: crate::ast::Interface, k: int) -> Seq<(Method, Arg)>
    decreases k,
{
    if k <= 0 || k > i.elements@.len() {
        Seq::empty()
    } else {
        args_upto(i, k - 1) + (match i.elements@[k - 1] {
            InterfaceElement::Method(m) => method_args_upto(m, m.args@.len() as int),
            InterfaceElement::Const(_) => Seq::empty(),
        })
    }
}

pub open spec fn method_args_upto(m: Method, i: int) -> Seq<(Method, Arg)>
    decreases i,
{
    if i <= 0 || i > m.args@.len() {
        Seq::empty()
    } else {
        method_args_upto(m, i - 1) + seq![(m, m.args@[i - 1])]
    }
}

/// All (method, argument) pairs of the unit's item.
pub open spec fn item_args(a: Aidl) -> Seq<(Method, Arg)> {
    match a.item {
        Item::Interface(i) => args_upto(i, i.elements@.len() as int),
        _ => Seq::empty(),
    }
}

/// The contents of a list of (method, argument) reference pairs.
pub open spec fn maview(s: Seq<(&Method, &Arg)>) -> Seq<(Method, Arg)> {
    s.map_values(|p: (&Method, &Arg)| (*p.0, *p.1))
}

/// Every argument of the unit's item, each with its owning method.
pub fn walk_args<'a>(ast: &'a Aidl) -> (r: Vec<(&'a Method, &'a Arg)>)
    ensures
        maview(r@) == item_args(*ast),
{
    let mut out: Vec<(&'a Method, &'a Arg)> = Vec::new();
    match &ast.item {
        Item::Interface(i) => {
            let n = i.elements.len();
            let mut k: usize = 0;
            while k < n
                invariant
                    n == i.elements@.len(),
                    k <= n,
                    maview(out@) == args_upto(*i, k as int),
                decreases n - k,
            {
                match &i.elements[k] {
                    InterfaceElement::Method(m) => {
                        let ghost mid = maview(out@);
                        let an = m.args.len();
                        let mut j: usize = 0;
                        while j < an
                            invariant
                                an == m.args@.len(),
                                j <= an,
                                maview(out@) == mid + method_args_upto(*m, j as int),
                            decreases an - j,
                        {
                            proof {
                                assert(maview(out@.push((m, &m.args[j as int]))) =~= maview(
                                    out@,
                                ).push((*m, m.args@[j as int])));
                            }
                            out.push((m, &m.args[j]));
                            j = j + 1;
                        }
                    },
                    InterfaceElement::Const(_) => (),
                }
                proof {
                    assert(maview(out@) =~= args_upto(*i, k + 1));
                }
                k = k + 1;
            }
        },
        _ => (),
    }
    proof {
        assert(maview(out@) =~= item_args(*ast));
    }
    out
}

} // verus!
