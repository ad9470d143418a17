//! The second and third passes over a parsed unit: resolution turns every
//! `Unresolved` type node into a resolved reference (or reports it), and
//! the independent validation rules append their own diagnostics.

use vstd::prelude::*;
use vstd::string::StringExecFns;

use crate::ast::AndroidTypeKind;
use crate::ast::ResolvedItemKind;
use crate::ast::Type;
use crate::ast::TypeKind;
use crate::ast::str_eq;
use crate::ast::anns_view;
use crate::ast::clone_annotations;
use crate::ast::clone_opt_string;
use crate::ast::type_wf;
use crate::ast::Aidl;
use crate::ast::Direction;
use crate::ast::Arg;
use crate::ast::Const;
use crate::ast::Enum;
use crate::ast::Field;
use crate::ast::Import;
use crate::ast::Interface;
use crate::ast::InterfaceElement;
use crate::ast::Item;
use crate::ast::Method;
use crate::ast::Parcelable;
use crate::ast::ParcelableElement;
use crate::diagnostic::DiagInfo;
use crate::diagnostic::Diagnostic;
use crate::diagnostic::DiagnosticKind;
use crate::diagnostic::dview;
use crate::rules::to_chars;

verus! {

/// The mathematical content of a `TypeKind`: the same cases with the
/// resolved key read as its character sequence.
pub ghost enum TypeKindV {
    Primitive,
    Void,
    Array,
    MapType,
    List,
    StringType,
    CharSequence,
    AndroidType(AndroidTypeKind),
    ResolvedItem(Seq<char>, ResolvedItemKind),
    Unresolved,
}

impl View for TypeKind {
    type V = TypeKindV;

    open spec fn view(&self) -> TypeKindV {
        match self {
            TypeKind::Primitive => TypeKindV::Primitive,
            TypeKind::Void => TypeKindV::Void,
            TypeKind::Array => TypeKindV::Array,
            TypeKind::MapType => TypeKindV::MapType,
            TypeKind::List => TypeKindV::List,
            TypeKind::StringType => TypeKindV::StringType,
            TypeKind::CharSequence => TypeKindV::CharSequence,
            TypeKind::AndroidType(a) => TypeKindV::AndroidType(*a),
            TypeKind::ResolvedItem(q, k) => TypeKindV::ResolvedItem(q@, *k),
            TypeKind::Unresolved => TypeKindV::Unresolved,
        }
    }
}

/// Whether the qualified name `q` refers to the bare name `name`: it is
/// `name` itself, or ends in a dot followed by `name`.
pub open spec fn import_match(q: Seq<char>, name: Seq<char>) -> bool {
    q == name || (q.len() > name.len() && q.subrange(
        q.len() - name.len() - 1,
        q.len() as int,
    ) == "."@ + name)
}

/// The first entry of `imports` that `name` refers to.
pub open spec fn import_hit(imports: Seq<String>, name: Seq<char>) -> Option<Seq<char>>
    decreases imports.len(),
{
    if imports.len() == 0 {
        None
    } else if import_match(imports[0]@, name) {
        Some(imports[0]@)
    } else {
        import_hit(imports.drop_first(), name)
    }
}

/// Whether some entry of `imports` is exactly `q`.
pub open spec fn imports_contain(imports: Seq<String>, q: Seq<char>) -> bool {
    exists|i: int| 0 <= i < imports.len() && #[trigger] imports[i]@ == q
}

/// The kind under which `q` stands in the project item table.
pub open spec fn table_lookup(table: Seq<(String, ResolvedItemKind)>, q: Seq<char>) -> Option<
    ResolvedItemKind,
>
    decreases table.len(),
{
    if table.len() == 0 {
        None
    } else if table[0].0@ == q {
        Some(table[0].1)
    } else {
        table_lookup(table.drop_first(), q)
    }
}

pub open spec fn has_dot(s: Seq<char>) -> bool {
    exists|i: int| 0 <= i < s.len() && s[i] == '.'
}

/// Whether `name` matches a forward-declared parcelable: qualification is
/// deliberately not attempted, so only a dot-free declared name can match.
pub open spec fn declared_hit(declared: Seq<String>, name: Seq<char>) -> bool {
    !has_dot(name) && exists|i: int| 0 <= i < declared.len() && #[trigger] declared[i]@ == name
}

/// What one resolution step does to the kind of a type node named `name`:
/// a kind that is not `Unresolved` is left alone; otherwise the catalog of
/// builtins, the imports, the forward declarations and the catalog again
/// are consulted in that order.
pub open spec fn spec_resolved_kind(
    name: Seq<char>,
    kv: TypeKindV,
    imports: Seq<String>,
    declared: Seq<String>,
    table: Seq<(String, ResolvedItemKind)>,
) -> TypeKindV {
    if !(kv is Unresolved) {
        kv
    } else {
        let android = AndroidTypeKind::spec_from_qualified_name(name);
        let qualified_builtin = match android {
            Some(a) => a.spec_can_be_qualified() || imports_contain(imports, name),
            None => false,
        };
        if qualified_builtin {
            TypeKindV::AndroidType(android->0)
        } else {
            match import_hit(imports, name) {
                Some(q) => match table_lookup(table, q) {
                    Some(k) => TypeKindV::ResolvedItem(q, k),
                    None => TypeKindV::ResolvedItem(q, ResolvedItemKind::UnknownImport),
                },
                None => {
                    if declared_hit(declared, name) {
                        TypeKindV::ResolvedItem(name, ResolvedItemKind::ForwardDeclaredParcelable)
                    } else {
                        match android {
                            Some(a) => {
                                if a.spec_can_be_qualified() {
                                    TypeKindV::AndroidType(a)
                                } else {
                                    TypeKindV::Unresolved
                                }
                            },
                            None => match AndroidTypeKind::spec_from_name(name) {
                                Some(a) => TypeKindV::AndroidType(a),
                                None => TypeKindV::Unresolved,
                            },
                        }
                    }
                },
            }
        }
    }
}

/// The qualified name that resolving a node to `kv` contributes to the
/// set of resolved names.
pub open spec fn spec_added_name(kv: TypeKindV) -> Option<Seq<char>> {
    match kv {
        TypeKindV::ResolvedItem(q, _) => Some(q),
        TypeKindV::CharSequence => Some("java.lang.CharSequence"@),
        TypeKindV::StringType => Some("java.lang.String"@),
        TypeKindV::AndroidType(a) => Some(a.spec_qualified_name()),
        _ => None,
    }
}

/// The diagnostic left on a type reference that nothing resolves.
pub open spec fn unknown_type_info(name: Seq<char>, range: crate::ast::Range) -> DiagInfo {
    DiagInfo {
        kind: DiagnosticKind::Error,
        range,
        message: "Unknown type `"@ + name + "`"@,
        context: Some("unknown type"@),
        hint: None,
        related: Seq::empty(),
    }
}

/// Whether `q` refers to the bare name `name`, as `import_match` defines.
fn import_match_exec(q: &str, name: &str) -> (r: bool)
    ensures
        r == import_match(q@, name@),
{
    if str_eq(q, name) {
        return true;
    }
    let qc = to_chars(q);
    let nc = to_chars(name);
    let qn = qc.len();
    let nn = nc.len();
    if qn <= nn {
        proof {
            reveal_strlit(".");
        }
        return false;
    }
    let start = qn - nn - 1;
    if !(qc[start] == '.') {
        proof {
            reveal_strlit(".");
            assert(("."@ + name@)[0] == '.');
            assert(q@.subrange(start as int, qn as int)[0] == q@[start as int]);
        }
        return false;
    }
    let mut i: usize = 0;
    while i < nn
        invariant
            qc@ == q@,
            nc@ == name@,
            qn == q@.len(),
            nn == name@.len(),
            qn > nn,
            start == qn - nn - 1,
            q@[start as int] == '.',
            i <= nn,
            forall|k: int| 0 <= k < i ==> q@[start + 1 + k] == name@[k],
        decreases nn - i,
    {
        if !(qc[start + 1 + i] == nc[i]) {
            proof {
                reveal_strlit(".");
                assert(("."@ + name@)[i + 1] == name@[i as int]);
                assert(q@.subrange(start as int, qn as int)[i + 1] == q@[start + 1 + i]);
            }
            return false;
        }
        i = i + 1;
    }
    proof {
        reveal_strlit(".");
        assert(q@.subrange(start as int, qn as int) =~= "."@ + name@);
    }
    true
}

/// The first entry of `imports` that `name` refers to, as a fresh copy.
fn import_hit_exec(imports: &Vec<String>, name: &str) -> (r: Option<String>)
    ensures
        match r {
            Some(q) => import_hit(imports@, name@) == Some(q@),
            None => import_hit(imports@, name@) is None,
        },
{
    let n = imports.len();
    let mut i: usize = 0;
    proof {
        assert(imports@.skip(0) =~= imports@);
    }
    while i < n
        invariant
            n == imports@.len(),
            i <= n,
            import_hit(imports@, name@) == import_hit(imports@.skip(i as int), name@),
        decreases n - i,
    {
        proof {
            assert(imports@.skip(i as int)[0] == imports@[i as int]);
            assert(imports@.skip(i as int).drop_first() =~= imports@.skip(i + 1));
        }
        if import_match_exec(imports[i].as_str(), name) {
            return Some(imports[i].clone());
        }
        i = i + 1;
    }
    proof {
        assert(imports@.skip(n as int) =~= Seq::<String>::empty());
    }
    None
}

/// Whether some entry of `imports` is exactly `q`.
fn imports_contain_exec(imports: &Vec<String>, q: &str) -> (r: bool)
    ensures
        r == imports_contain(imports@, q@),
{
    let n = imports.len();
    let mut i: usize = 0;
    while i < n
        invariant
            n == imports@.len(),
            i <= n,
            forall|k: int| 0 <= k < i ==> !(#[trigger] imports@[k]@ == q@),
        decreases n - i,
    {
        if str_eq(imports[i].as_str(), q) {
            return true;
        }
        i = i + 1;
    }
    false
}

/// The kind under which `q` stands in the project item table.
fn table_lookup_exec(table: &Vec<(String, ResolvedItemKind)>, q: &str) -> (r: Option<
    ResolvedItemKind,
>)
    ensures
        r == table_lookup(table@, q@),
{
    let n = table.len();
    let mut i: usize = 0;
    proof {
        assert(table@.skip(0) =~= table@);
    }
    while i < n
        invariant
            n == table@.len(),
            i <= n,
            table_lookup(table@, q@) == table_lookup(table@.skip(i as int), q@),
        decreases n - i,
    {
        proof {
            assert(table@.skip(i as int)[0] == table@[i as int]);
            assert(table@.skip(i as int).drop_first() =~= table@.skip(i + 1));
        }
        if str_eq(table[i].0.as_str(), q) {
            return Some(table[i].1);
        }
        i = i + 1;
    }
    proof {
        assert(table@.skip(n as int) =~= Seq::<(String, ResolvedItemKind)>::empty());
    }
    None
}

fn has_dot_exec(s: &str) -> (r: bool)
    ensures
        r == has_dot(s@),
{
    let sc = to_chars(s);
    let n = sc.len();
    let mut i: usize = 0;
    while i < n
        invariant
            sc@ == s@,
            n == s@.len(),
            i <= n,
            forall|k: int| 0 <= k < i ==> s@[k] != '.',
        decreases n - i,
    {
        if sc[i] == '.' {
            return true;
        }
        i = i + 1;
    }
    false
}

/// Whether `name` matches a forward-declared parcelable.
fn declared_hit_exec(declared: &Vec<String>, name: &str) -> (r: bool)
    ensures
        r == declared_hit(declared@, name@),
{
    if has_dot_exec(name) {
        return false;
    }
    let n = declared.len();
    let mut i: usize = 0;
    while i < n
        invariant
            n == declared@.len(),
            i <= n,
            !has_dot(name@),
            forall|k: int| 0 <= k < i ==> !(#[trigger] declared@[k]@ == name@),
        decreases n - i,
    {
        if str_eq(declared[i].as_str(), name) {
            return true;
        }
        i = i + 1;
    }
    false
}


/// The views of a list of collected resolved names.
pub open spec fn nview(s: Seq<String>) -> Seq<Seq<char>> {
    s.map_values(|x: String| x@)
}

proof fn lemma_dview_push(s: Seq<Diagnostic>, d: Diagnostic)
    ensures
        dview(s.push(d)) == dview(s).push(d@),
{
    assert(dview(s.push(d)) =~= dview(s).push(d@));
}

proof fn lemma_nview_push(s: Seq<String>, x: String)
    ensures
        nview(s.push(x)) == nview(s).push(x@),
{
    assert(nview(s.push(x)) =~= nview(s).push(x@));
}

/// Whether a node named `name` with kind `kv` is reported as an unknown
/// type: resolution ran on it and nothing matched.
pub open spec fn stays_unknown(
    name: Seq<char>,
    kv: TypeKindV,
    imports: Seq<String>,
    declared: Seq<String>,
    table: Seq<(String, ResolvedItemKind)>,
) -> bool {
    kv is Unresolved && spec_resolved_kind(name, kv, imports, declared, table) is Unresolved
}

/// The diagnostics resolution leaves on the children `[0, i)` of `t`, in
/// walk order (each node before its parameters).
pub open spec fn resolve_infos_children(
    t: Type,
    i: int,
    imports: Seq<String>,
    declared: Seq<String>,
    table: Seq<(String, ResolvedItemKind)>,
) -> Seq<DiagInfo>
    decreases t, i,
{
    if i <= 0 || i > t.generic_types@.len() {
        Seq::empty()
    } else {
        resolve_infos_children(t, i - 1, imports, declared, table) + resolve_infos_of(
            t.generic_types@[i - 1],
            imports,
            declared,
            table,
        )
    }
}

/// The diagnostics resolution leaves on the tree rooted at `t`.
pub open spec fn resolve_infos_of(
    t: Type,
    imports: Seq<String>,
    declared: Seq<String>,
    table: Seq<(String, ResolvedItemKind)>,
) -> Seq<DiagInfo>
    decreases t, t.generic_types@.len() + 1,
{
    let own: Seq<DiagInfo> = if stays_unknown(t.name@, t.kind@, imports, declared, table) {
        seq![unknown_type_info(t.name@, t.symbol_range)]
    } else {
        Seq::empty()
    };
    own + resolve_infos_children(t, t.generic_types@.len() as int, imports, declared, table)
}

/// The resolved names the children `[0, i)` of `t` contribute.
pub open spec fn resolve_names_children(
    t: Type,
    i: int,
    imports: Seq<String>,
    declared: Seq<String>,
    table: Seq<(String, ResolvedItemKind)>,
) -> Seq<Seq<char>>
    decreases t, i,
{
    if i <= 0 || i > t.generic_types@.len() {
        Seq::empty()
    } else {
        resolve_names_children(t, i - 1, imports, declared, table) + resolve_names_of(
            t.generic_types@[i - 1],
            imports,
            declared,
            table,
        )
    }
}

/// The qualified names the tree rooted at `t` contributes to the set of
/// resolved names, in walk order.
pub open spec fn resolve_names_of(
    t: Type,
    imports: Seq<String>,
    declared: Seq<String>,
    table: Seq<(String, ResolvedItemKind)>,
) -> Seq<Seq<char>>
    decreases t, t.generic_types@.len() + 1,
{
    let own: Seq<Seq<char>> = match spec_added_name(
        spec_resolved_kind(t.name@, t.kind@, imports, declared, table),
    ) {
        Some(q) => seq![q],
        None => Seq::empty(),
    };
    own + resolve_names_children(t, t.generic_types@.len() as int, imports, declared, table)
}

/// How a resolved type tree `r` relates to its original `t`: identical
/// but for the kinds, which have gone through one resolution step.
pub open spec fn resolves_to(
    t: Type,
    r: Type,
    imports: Seq<String>,
    declared: Seq<String>,
    table: Seq<(String, ResolvedItemKind)>,
) -> bool
    decreases t,
{
    &&& r.name == t.name
    &&& r.symbol_range == t.symbol_range
    &&& r.full_range == t.full_range
    &&& r.kind@ == spec_resolved_kind(t.name@, t.kind@, imports, declared, table)
    &&& r.generic_types@.len() == t.generic_types@.len()
    &&& forall|i: int|
        0 <= i < t.generic_types@.len() ==> resolves_to(
            #[trigger] t.generic_types@[i],
            r.generic_types@[i],
            imports,
            declared,
            table,
        )
}

/// One resolution step on the kind of a node named `name`.
fn resolved_kind_exec(
    name: &str,
    kind: &TypeKind,
    imports: &Vec<String>,
    declared: &Vec<String>,
    table: &Vec<(String, ResolvedItemKind)>,
) -> (r: TypeKind)
    ensures
        r@ == spec_resolved_kind(name@, kind@, imports@, declared@, table@),
{
    match kind {
        TypeKind::Primitive => {
            return TypeKind::Primitive;
        },
        TypeKind::Void => {
            return TypeKind::Void;
        },
        TypeKind::Array => {
            return TypeKind::Array;
        },
        TypeKind::MapType => {
            return TypeKind::MapType;
        },
        TypeKind::List => {
            return TypeKind::List;
        },
        TypeKind::StringType => {
            return TypeKind::StringType;
        },
        TypeKind::CharSequence => {
            return TypeKind::CharSequence;
        },
        TypeKind::AndroidType(a) => {
            return TypeKind::AndroidType(*a);
        },
        TypeKind::ResolvedItem(q, k) => {
            return TypeKind::ResolvedItem(q.clone(), *k);
        },
        TypeKind::Unresolved => (),
    }
    let android = AndroidTypeKind::from_qualified_name(name);
    match android {
        Some(a) => {
            if a.can_be_qualified() || imports_contain_exec(imports, name) {
                return TypeKind::AndroidType(a);
            }
        },
        None => (),
    }
    match import_hit_exec(imports, name) {
        Some(q) => {
            match table_lookup_exec(table, q.as_str()) {
                Some(k) => TypeKind::ResolvedItem(q, k),
                None => TypeKind::ResolvedItem(q, ResolvedItemKind::UnknownImport),
            }
        },
        None => {
            if declared_hit_exec(declared, name) {
                TypeKind::ResolvedItem(
                    name.to_owned(),
                    ResolvedItemKind::ForwardDeclaredParcelable,
                )
            } else {
                match android {
                    Some(a) => {
                        if a.can_be_qualified() {
                            TypeKind::AndroidType(a)
                        } else {
                            TypeKind::Unresolved
                        }
                    },
                    None => {
                        match AndroidTypeKind::from_name(name) {
                            Some(a) => TypeKind::AndroidType(a),
                            None => TypeKind::Unresolved,
                        }
                    },
                }
            }
        },
    }
}

/// Resolve one type tree: rewrite each `Unresolved` kind (each node
/// before its parameters), report each one that nothing resolves, and
/// collect the qualified names that were referenced.
pub fn resolve_type(
    t: &Type,
    imports: &Vec<String>,
    declared: &Vec<String>,
    table: &Vec<(String, ResolvedItemKind)>,
    diagnostics: &mut Vec<Diagnostic>,
    resolved: &mut Vec<String>,
) -> (r: Type)
    ensures
        resolves_to(*t, r, imports@, declared@, table@),
        dview(final(diagnostics)@) == dview(old(diagnostics)@) + resolve_infos_of(
            *t,
            imports@,
            declared@,
            table@,
        ),
        nview(final(resolved)@) == nview(old(resolved)@) + resolve_names_of(
            *t,
            imports@,
            declared@,
            table@,
        ),
    decreases *t,
{
    let new_kind = resolved_kind_exec(t.name.as_str(), &t.kind, imports, declared, table);
    let is_unknown = match (&new_kind) {
        TypeKind::Unresolved => true,
        _ => false,
    };
    if is_unknown {
        let mut message = "Unknown type `".to_owned();
        message.append(t.name.as_str());
        message.append("`");
        let d = Diagnostic {
            kind: DiagnosticKind::Error,
            range: t.symbol_range,
            message,
            context_message: Some("unknown type".to_owned()),
            hint: None,
            related_infos: Vec::new(),
        };
        proof {
            assert(d@.message =~= "Unknown type `"@ + t.name@ + "`"@);
            assert(d@.related =~= Seq::<crate::diagnostic::RelatedInfoV>::empty());
            assert(d@ == unknown_type_info(t.name@, t.symbol_range));
            lemma_dview_push(diagnostics@, d);
        }
        diagnostics.push(d);
    }
    match (&new_kind) {
        TypeKind::ResolvedItem(q, _) => {
            proof {
                lemma_nview_push(resolved@, *q);
            }
            resolved.push(q.clone());
        },
        TypeKind::CharSequence => {
            let q = "java.lang.CharSequence".to_owned();
            proof {
                lemma_nview_push(resolved@, q);
            }
            resolved.push(q);
        },
        TypeKind::StringType => {
            let q = "java.lang.String".to_owned();
            proof {
                lemma_nview_push(resolved@, q);
            }
            resolved.push(q);
        },
        TypeKind::AndroidType(a) => {
            let q = a.get_qualified_name().to_owned();
            proof {
                lemma_nview_push(resolved@, q);
            }
            resolved.push(q);
        },
        _ => (),
    }
    let ghost base_infos = dview(diagnostics@);
    let ghost base_names = nview(resolved@);
    let mut new_generics: Vec<Type> = Vec::new();
    let n = t.generic_types.len();
    let mut k: usize = 0;
    while k < n
        invariant
            n == t.generic_types@.len(),
            k <= n,
            new_generics@.len() == k,
            forall|j: int|
                0 <= j < k ==> resolves_to(
                    #[trigger] t.generic_types@[j],
                    new_generics@[j],
                    imports@,
                    declared@,
                    table@,
                ),
            dview(diagnostics@) == base_infos + resolve_infos_children(
                *t,
                k as int,
                imports@,
                declared@,
                table@,
            ),
            nview(resolved@) == base_names + resolve_names_children(
                *t,
                k as int,
                imports@,
                declared@,
                table@,
            ),
        decreases n - k,
    {
        proof {
            assert(decreases_to!(*t => t.generic_types@[k as int]));
        }
        let rchild = resolve_type(&t.generic_types[k], imports, declared, table, diagnostics, resolved);
        new_generics.push(rchild);
        k = k + 1;
    }
    let r = Type {
        name: t.name.clone(),
        kind: new_kind,
        generic_types: new_generics,
        symbol_range: t.symbol_range,
        full_range: t.full_range,
    };
    proof {
        assert(dview(diagnostics@) =~= dview(old(diagnostics)@) + resolve_infos_of(
            *t,
            imports@,
            declared@,
            table@,
        ));
        assert(nview(resolved@) =~= nview(old(resolved)@) + resolve_names_of(
            *t,
            imports@,
            declared@,
            table@,
        ));
    }
    r
}


/// The diagnostics resolution leaves on the types of the first `i`
/// arguments of a method.
pub open spec fn args_infos(
    args: Seq<Arg>,
    i: int,
    imports: Seq<String>,
    declared: Seq<String>,
    table: Seq<(String, ResolvedItemKind)>,
) -> Seq<DiagInfo>
    decreases i,
{
    if i <= 0 || i > args.len() {
        Seq::empty()
    } else {
        args_infos(args, i - 1, imports, declared, table) + resolve_infos_of(
            args[i - 1].arg_type,
            imports,
            declared,
            table,
        )
    }
}

pub open spec fn args_names(
    args: Seq<Arg>,
    i: int,
    imports: Seq<String>,
    declared: Seq<String>,
    table: Seq<(String, ResolvedItemKind)>,
) -> Seq<Seq<char>>
    decreases i,
{
    if i <= 0 || i > args.len() {
        Seq::empty()
    } else {
        args_names(args, i - 1, imports, declared, table) + resolve_names_of(
            args[i - 1].arg_type,
            imports,
            declared,
            table,
        )
    }
}

/// The diagnostics resolution leaves on one interface element: the return
/// type before the argument types for a method, the declared type for a
/// constant.
pub open spec fn ielem_infos(
    e: InterfaceElement,
    imports: Seq<String>,
    declared: Seq<String>,
    table: Seq<(String, ResolvedItemKind)>,
) -> Seq<DiagInfo> {
    match e {
        InterfaceElement::Const(c) => resolve_infos_of(c.const_type, imports, declared, table),
        InterfaceElement::Method(m) => resolve_infos_of(m.return_type, imports, declared, table)
            + args_infos(m.args@, m.args@.len() as int, imports, declared, table),
    }
}

pub open spec fn ielem_names(
    e: InterfaceElement,
    imports: Seq<String>,
    declared: Seq<String>,
    table: Seq<(String, ResolvedItemKind)>,
) -> Seq<Seq<char>> {
    match e {
        InterfaceElement::Const(c) => resolve_names_of(c.const_type, imports, declared, table),
        InterfaceElement::Method(m) => resolve_names_of(m.return_type, imports, declared, table)
            + args_names(m.args@, m.args@.len() as int, imports, declared, table),
    }
}

pub open spec fn ielems_infos(
    elems: Seq<InterfaceElement>,
    i: int,
    imports: Seq<String>,
    declared: Seq<String>,
    table: Seq<(String, ResolvedItemKind)>,
) -> Seq<DiagInfo>
    decreases i,
{
    if i <= 0 || i > elems.len() {
        Seq::empty()
    } else {
        ielems_infos(elems, i - 1, imports, declared, table) + ielem_infos(
            elems[i - 1],
            imports,
            declared,
            table,
        )
    }
}

pub open spec fn ielems_names(
    elems: Seq<InterfaceElement>,
    i: int,
    imports: Seq<String>,
    declared: Seq<String>,
    table: Seq<(String, ResolvedItemKind)>,
) -> Seq<Seq<char>>
    decreases i,
{
    if i <= 0 || i > elems.len() {
        Seq::empty()
    } else {
        ielems_names(elems, i - 1, imports, declared, table) + ielem_names(
            elems[i - 1],
            imports,
            declared,
            table,
        )
    }
}

pub open spec fn pelem_infos(
    e: ParcelableElement,
    imports: Seq<String>,
    declared: Seq<String>,
    table: Seq<(String, ResolvedItemKind)>,
) -> Seq<DiagInfo> {
    match e {
        ParcelableElement::Const(c) => resolve_infos_of(c.const_type, imports, declared, table),
        ParcelableElement::Field(f) => resolve_infos_of(f.field_type, imports, declared, table),
    }
}

pub open spec fn pelem_names(
    e: ParcelableElement,
    imports: Seq<String>,
    declared: Seq<String>,
    table: Seq<(String, ResolvedItemKind)>,
) -> Seq<Seq<char>> {
    match e {
        ParcelableElement::Const(c) => resolve_names_of(c.const_type, imports, declared, table),
        ParcelableElement::Field(f) => resolve_names_of(f.field_type, imports, declared, table),
    }
}

pub open spec fn pelems_infos(
    elems: Seq<ParcelableElement>,
    i: int,
    imports: Seq<String>,
    declared: Seq<String>,
    table: Seq<(String, ResolvedItemKind)>,
) -> Seq<DiagInfo>
    decreases i,
{
    if i <= 0 || i > elems.len() {
        Seq::empty()
    } else {
        pelems_infos(elems, i - 1, imports, declared, table) + pelem_infos(
            elems[i - 1],
            imports,
            declared,
            table,
        )
    }
}

pub open spec fn pelems_names(
    elems: Seq<ParcelableElement>,
    i: int,
    imports: Seq<String>,
    declared: Seq<String>,
    table: Seq<(String, ResolvedItemKind)>,
) -> Seq<Seq<char>>
    decreases i,
{
    if i <= 0 || i > elems.len() {
        Seq::empty()
    } else {
        pelems_names(elems, i - 1, imports, declared, table) + pelem_names(
            elems[i - 1],
            imports,
            declared,
            table,
        )
    }
}

/// The diagnostics resolution leaves on a whole item.
pub open spec fn item_infos(
    item: Item,
    imports: Seq<String>,
    declared: Seq<String>,
    table: Seq<(String, ResolvedItemKind)>,
) -> Seq<DiagInfo> {
    match item {
        Item::Interface(i) => ielems_infos(
            i.elements@,
            i.elements@.len() as int,
            imports,
            declared,
            table,
        ),
        Item::Parcelable(p) => pelems_infos(
            p.elements@,
            p.elements@.len() as int,
            imports,
            declared,
            table,
        ),
        Item::Enum(_) => Seq::empty(),
    }
}

/// The qualified names resolution finds referenced in a whole item.
pub open spec fn item_names(
    item: Item,
    imports: Seq<String>,
    declared: Seq<String>,
    table: Seq<(String, ResolvedItemKind)>,
) -> Seq<Seq<char>> {
    match item {
        Item::Interface(i) => ielems_names(
            i.elements@,
            i.elements@.len() as int,
            imports,
            declared,
            table,
        ),
        Item::Parcelable(p) => pelems_names(
            p.elements@,
            p.elements@.len() as int,
            imports,
            declared,
            table,
        ),
        Item::Enum(_) => Seq::empty(),
    }
}

/// How a resolved argument relates to its original.
pub open spec fn arg_resolves_to(
    a: Arg,
    r: Arg,
    imports: Seq<String>,
    declared: Seq<String>,
    table: Seq<(String, ResolvedItemKind)>,
) -> bool {
    &&& r.direction == a.direction
    &&& r.name == a.name
    &&& anns_view(r.annotations@) == anns_view(a.annotations@)
    &&& r.doc == a.doc
    &&& r.symbol_range == a.symbol_range
    &&& r.full_range == a.full_range
    &&& resolves_to(a.arg_type, r.arg_type, imports, declared, table)
}

/// How a resolved method relates to its original.
pub open spec fn method_resolves_to(
    m: Method,
    r: Method,
    imports: Seq<String>,
    declared: Seq<String>,
    table: Seq<(String, ResolvedItemKind)>,
) -> bool {
    &&& r.oneway == m.oneway
    &&& r.name == m.name
    &&& anns_view(r.annotations@) == anns_view(m.annotations@)
    &&& r.transact_code == m.transact_code
    &&& r.doc == m.doc
    &&& r.symbol_range == m.symbol_range
    &&& r.full_range == m.full_range
    &&& r.transact_code_range == m.transact_code_range
    &&& r.oneway_range == m.oneway_range
    &&& resolves_to(m.return_type, r.return_type, imports, declared, table)
    &&& r.args@.len() == m.args@.len()
    &&& forall|i: int|
        0 <= i < m.args@.len() ==> arg_resolves_to(
            #[trigger] m.args@[i],
            r.args@[i],
            imports,
            declared,
            table,
        )
}

pub open spec fn const_resolves_to(
    c: Const,
    r: Const,
    imports: Seq<String>,
    declared: Seq<String>,
    table: Seq<(String, ResolvedItemKind)>,
) -> bool {
    &&& r.name == c.name
    &&& r.value == c.value
    &&& anns_view(r.annotations@) == anns_view(c.annotations@)
    &&& r.doc == c.doc
    &&& r.symbol_range == c.symbol_range
    &&& r.full_range == c.full_range
    &&& resolves_to(c.const_type, r.const_type, imports, declared, table)
}

pub open spec fn field_resolves_to(
    f: Field,
    r: Field,
    imports: Seq<String>,
    declared: Seq<String>,
    table: Seq<(String, ResolvedItemKind)>,
) -> bool {
    &&& r.name == f.name
    &&& r.value == f.value
    &&& anns_view(r.annotations@) == anns_view(f.annotations@)
    &&& r.doc == f.doc
    &&& r.symbol_range == f.symbol_range
    &&& r.full_range == f.full_range
    &&& resolves_to(f.field_type, r.field_type, imports, declared, table)
}

pub open spec fn ielem_resolves_to(
    e: InterfaceElement,
    r: InterfaceElement,
    imports: Seq<String>,
    declared: Seq<String>,
    table: Seq<(String, ResolvedItemKind)>,
) -> bool {
    match (e, r) {
        (InterfaceElement::Const(c), InterfaceElement::Const(c2)) => const_resolves_to(
            c,
            c2,
            imports,
            declared,
            table,
        ),
        (InterfaceElement::Method(m), InterfaceElement::Method(m2)) => method_resolves_to(
            m,
            m2,
            imports,
            declared,
            table,
        ),
        _ => false,
    }
}

pub open spec fn pelem_resolves_to(
    e: ParcelableElement,
    r: ParcelableElement,
    imports: Seq<String>,
    declared: Seq<String>,
    table: Seq<(String, ResolvedItemKind)>,
) -> bool {
    match (e, r) {
        (ParcelableElement::Const(c), ParcelableElement::Const(c2)) => const_resolves_to(
            c,
            c2,
            imports,
            declared,
            table,
        ),
        (ParcelableElement::Field(f), ParcelableElement::Field(f2)) => field_resolves_to(
            f,
            f2,
            imports,
            declared,
            table,
        ),
        _ => false,
    }
}

/// How a resolved item relates to its original: identical but for the
/// kinds of its type nodes.
pub open spec fn item_resolves_to(
    item: Item,
    r: Item,
    imports: Seq<String>,
    declared: Seq<String>,
    table: Seq<(String, ResolvedItemKind)>,
) -> bool {
    match (item, r) {
        (Item::Interface(i), Item::Interface(i2)) => {
            &&& i2.oneway == i.oneway
            &&& i2.name == i.name
            &&& anns_view(i2.annotations@) == anns_view(i.annotations@)
            &&& i2.doc == i.doc
            &&& i2.full_range == i.full_range
            &&& i2.symbol_range == i.symbol_range
            &&& i2.elements@.len() == i.elements@.len()
            &&& forall|k: int|
                0 <= k < i.elements@.len() ==> ielem_resolves_to(
                    #[trigger] i.elements@[k],
                    i2.elements@[k],
                    imports,
                    declared,
                    table,
                )
        },
        (Item::Parcelable(p), Item::Parcelable(p2)) => {
            &&& p2.name == p.name
            &&& anns_view(p2.annotations@) == anns_view(p.annotations@)
            &&& p2.doc == p.doc
            &&& p2.full_range == p.full_range
            &&& p2.symbol_range == p.symbol_range
            &&& p2.elements@.len() == p.elements@.len()
            &&& forall|k: int|
                0 <= k < p.elements@.len() ==> pelem_resolves_to(
                    #[trigger] p.elements@[k],
                    p2.elements@[k],
                    imports,
                    declared,
                    table,
                )
        },
        (Item::Enum(e), Item::Enum(e2)) => {
            &&& e2.name == e.name
            &&& e2.elements@ == e.elements@
            &&& anns_view(e2.annotations@) == anns_view(e.annotations@)
            &&& e2.doc == e.doc
            &&& e2.full_range == e.full_range
            &&& e2.symbol_range == e.symbol_range
        },
        _ => false,
    }
}

/// Resolve the type of one argument, rebuilding the argument around it.
fn resolve_arg(
    a: &Arg,
    imports: &Vec<String>,
    declared: &Vec<String>,
    table: &Vec<(String, ResolvedItemKind)>,
    diagnostics: &mut Vec<Diagnostic>,
    resolved: &mut Vec<String>,
) -> (r: Arg)
    ensures
        arg_resolves_to(*a, r, imports@, declared@, table@),
        dview(final(diagnostics)@) == dview(old(diagnostics)@) + resolve_infos_of(
            a.arg_type,
            imports@,
            declared@,
            table@,
        ),
        nview(final(resolved)@) == nview(old(resolved)@) + resolve_names_of(
            a.arg_type,
            imports@,
            declared@,
            table@,
        ),
{
    let new_type = resolve_type(&a.arg_type, imports, declared, table, diagnostics, resolved);
    Arg {
        direction: a.direction,
        name: clone_opt_string(&a.name),
        arg_type: new_type,
        annotations: clone_annotations(&a.annotations),
        doc: clone_opt_string(&a.doc),
        symbol_range: a.symbol_range,
        full_range: a.full_range,
    }
}

/// Resolve the return and argument types of one method, rebuilding it.
fn resolve_method(
    m: &Method,
    imports: &Vec<String>,
    declared: &Vec<String>,
    table: &Vec<(String, ResolvedItemKind)>,
    diagnostics: &mut Vec<Diagnostic>,
    resolved: &mut Vec<String>,
) -> (r: Method)
    ensures
        method_resolves_to(*m, r, imports@, declared@, table@),
        dview(final(diagnostics)@) == dview(old(diagnostics)@) + ielem_infos(
            InterfaceElement::Method(*m),
            imports@,
            declared@,
            table@,
        ),
        nview(final(resolved)@) == nview(old(resolved)@) + ielem_names(
            InterfaceElement::Method(*m),
            imports@,
            declared@,
            table@,
        ),
{
    let new_return = resolve_type(&m.return_type, imports, declared, table, diagnostics, resolved);
    let ghost base_infos = dview(diagnostics@);
    let ghost base_names = nview(resolved@);
    let mut new_args: Vec<Arg> = Vec::new();
    let n = m.args.len();
    let mut k: usize = 0;
    while k < n
        invariant
            n == m.args@.len(),
            k <= n,
            new_args@.len() == k,
            forall|j: int|
                0 <= j < k ==> arg_resolves_to(
                    #[trigger] m.args@[j],
                    new_args@[j],
                    imports@,
                    declared@,
                    table@,
                ),
            dview(diagnostics@) == base_infos + args_infos(
                m.args@,
                k as int,
                imports@,
                declared@,
                table@,
            ),
            nview(resolved@) == base_names + args_names(
                m.args@,
                k as int,
                imports@,
                declared@,
                table@,
            ),
        decreases n - k,
    {
        let ra = resolve_arg(&m.args[k], imports, declared, table, diagnostics, resolved);
        new_args.push(ra);
        k = k + 1;
    }
    proof {
        assert(dview(diagnostics@) =~= dview(old(diagnostics)@) + ielem_infos(
            InterfaceElement::Method(*m),
            imports@,
            declared@,
            table@,
        ));
        assert(nview(resolved@) =~= nview(old(resolved)@) + ielem_names(
            InterfaceElement::Method(*m),
            imports@,
            declared@,
            table@,
        ));
    }
    Method {
        oneway: m.oneway,
        name: m.name.clone(),
        return_type: new_return,
        args: new_args,
        annotations: clone_annotations(&m.annotations),
        transact_code: m.transact_code,
        doc: clone_opt_string(&m.doc),
        symbol_range: m.symbol_range,
        full_range: m.full_range,
        transact_code_range: m.transact_code_range,
        oneway_range: m.oneway_range,
    }
}

/// Resolve the declared type of one constant, rebuilding it.
fn resolve_const(
    c: &Const,
    imports: &Vec<String>,
    declared: &Vec<String>,
    table: &Vec<(String, ResolvedItemKind)>,
    diagnostics: &mut Vec<Diagnostic>,
    resolved: &mut Vec<String>,
) -> (r: Const)
    ensures
        const_resolves_to(*c, r, imports@, declared@, table@),
        dview(final(diagnostics)@) == dview(old(diagnostics)@) + resolve_infos_of(
            c.const_type,
            imports@,
            declared@,
            table@,
        ),
        nview(final(resolved)@) == nview(old(resolved)@) + resolve_names_of(
            c.const_type,
            imports@,
            declared@,
            table@,
        ),
{
    let new_type = resolve_type(&c.const_type, imports, declared, table, diagnostics, resolved);
    Const {
        name: c.name.clone(),
        const_type: new_type,
        value: c.value.clone(),
        annotations: clone_annotations(&c.annotations),
        doc: clone_opt_string(&c.doc),
        symbol_range: c.symbol_range,
        full_range: c.full_range,
    }
}

/// Resolve the declared type of one field, rebuilding it.
fn resolve_field(
    f: &Field,
    imports: &Vec<String>,
    declared: &Vec<String>,
    table: &Vec<(String, ResolvedItemKind)>,
    diagnostics: &mut Vec<Diagnostic>,
    resolved: &mut Vec<String>,
) -> (r: Field)
    ensures
        field_resolves_to(*f, r, imports@, declared@, table@),
        dview(final(diagnostics)@) == dview(old(diagnostics)@) + resolve_infos_of(
            f.field_type,
            imports@,
            declared@,
            table@,
        ),
        nview(final(resolved)@) == nview(old(resolved)@) + resolve_names_of(
            f.field_type,
            imports@,
            declared@,
            table@,
        ),
{
    let new_type = resolve_type(&f.field_type, imports, declared, table, diagnostics, resolved);
    Field {
        name: f.name.clone(),
        field_type: new_type,
        value: clone_opt_string(&f.value),
        annotations: clone_annotations(&f.annotations),
        doc: clone_opt_string(&f.doc),
        symbol_range: f.symbol_range,
        full_range: f.full_range,
    }
}

/// Resolve every type reference of `item`, in declaration order, building
/// the resolved item without touching the given one.
pub fn resolve_item(
    item: &Item,
    imports: &Vec<String>,
    declared: &Vec<String>,
    table: &Vec<(String, ResolvedItemKind)>,
    diagnostics: &mut Vec<Diagnostic>,
    resolved: &mut Vec<String>,
) -> (r: Item)
    ensures
        item_resolves_to(*item, r, imports@, declared@, table@),
        dview(final(diagnostics)@) == dview(old(diagnostics)@) + item_infos(
            *item,
            imports@,
            declared@,
            table@,
        ),
        nview(final(resolved)@) == nview(old(resolved)@) + item_names(
            *item,
            imports@,
            declared@,
            table@,
        ),
{
    match item {
        Item::Interface(i) => {
            let ghost base_infos = dview(diagnostics@);
            let ghost base_names = nview(resolved@);
            let mut new_elements: Vec<InterfaceElement> = Vec::new();
            let n = i.elements.len();
            let mut k: usize = 0;
            while k < n
                invariant
                    n == i.elements@.len(),
                    k <= n,
                    new_elements@.len() == k,
                    forall|j: int|
                        0 <= j < k ==> ielem_resolves_to(
                            #[trigger] i.elements@[j],
                            new_elements@[j],
                            imports@,
                            declared@,
                            table@,
                        ),
                    dview(diagnostics@) == base_infos + ielems_infos(
                        i.elements@,
                        k as int,
                        imports@,
                        declared@,
                        table@,
                    ),
                    nview(resolved@) == base_names + ielems_names(
                        i.elements@,
                        k as int,
                        imports@,
                        declared@,
                        table@,
                    ),
                decreases n - k,
            {
                match &i.elements[k] {
                    InterfaceElement::Const(c) => {
                        let rc = resolve_const(c, imports, declared, table, diagnostics, resolved);
                        new_elements.push(InterfaceElement::Const(rc));
                    },
                    InterfaceElement::Method(m) => {
                        let rm = resolve_method(m, imports, declared, table, diagnostics, resolved);
                        new_elements.push(InterfaceElement::Method(rm));
                    },
                }
                k = k + 1;
            }
            Item::Interface(
                Interface {
                    oneway: i.oneway,
                    name: i.name.clone(),
                    elements: new_elements,
                    annotations: clone_annotations(&i.annotations),
                    doc: clone_opt_string(&i.doc),
                    full_range: i.full_range,
                    symbol_range: i.symbol_range,
                },
            )
        },
        Item::Parcelable(p) => {
            let ghost base_infos = dview(diagnostics@);
            let ghost base_names = nview(resolved@);
            let mut new_elements: Vec<ParcelableElement> = Vec::new();
            let n = p.elements.len();
            let mut k: usize = 0;
            while k < n
                invariant
                    n == p.elements@.len(),
                    k <= n,
                    new_elements@.len() == k,
                    forall|j: int|
                        0 <= j < k ==> pelem_resolves_to(
                            #[trigger] p.elements@[j],
                            new_elements@[j],
                            imports@,
                            declared@,
                            table@,
                        ),
                    dview(diagnostics@) == base_infos + pelems_infos(
                        p.elements@,
                        k as int,
                        imports@,
                        declared@,
                        table@,
                    ),
                    nview(resolved@) == base_names + pelems_names(
                        p.elements@,
                        k as int,
                        imports@,
                        declared@,
                        table@,
                    ),
                decreases n - k,
            {
                match &p.elements[k] {
                    ParcelableElement::Const(c) => {
                        let rc = resolve_const(c, imports, declared, table, diagnostics, resolved);
                        new_elements.push(ParcelableElement::Const(rc));
                    },
                    ParcelableElement::Field(f) => {
                        let rf = resolve_field(f, imports, declared, table, diagnostics, resolved);
                        new_elements.push(ParcelableElement::Field(rf));
                    },
                }
                k = k + 1;
            }
            Item::Parcelable(
                Parcelable {
                    name: p.name.clone(),
                    elements: new_elements,
                    annotations: clone_annotations(&p.annotations),
                    doc: clone_opt_string(&p.doc),
                    full_range: p.full_range,
                    symbol_range: p.symbol_range,
                },
            )
        },
        Item::Enum(e) => {
            let mut new_elements: Vec<crate::ast::EnumElement> = Vec::new();
            let n = e.elements.len();
            let mut k: usize = 0;
            while k < n
                invariant
                    n == e.elements@.len(),
                    k <= n,
                    new_elements@ =~= e.elements@.take(k as int),
                decreases n - k,
            {
                new_elements.push(e.elements[k].clone());
                proof {
                    assert(e.elements@.take(k + 1) =~= e.elements@.take(k as int).push(
                        e.elements@[k as int],
                    ));
                }
                k = k + 1;
            }
            proof {
                assert(new_elements@ =~= e.elements@);
            }
            Item::Enum(
                Enum {
                    name: e.name.clone(),
                    elements: new_elements,
                    annotations: clone_annotations(&e.annotations),
                    doc: clone_opt_string(&e.doc),
                    full_range: e.full_range,
                    symbol_range: e.symbol_range,
                },
            )
        },
    }
}

/// The second pass over a unit: turn every placeholder type reference
/// into a resolved reference against this unit's imports, its forward
/// declarations and the project-wide item table, reporting each reference
/// nothing resolves, and return the qualified names that were referenced.
///
/// The project table must already hold an entry for every unit of the
/// project; resolving against a partial table resolves fewer names, it
/// does not fail.
pub fn resolve_types(
    ast: &mut Aidl,
    imports: &Vec<String>,
    declared: &Vec<String>,
    table: &Vec<(String, ResolvedItemKind)>,
    diagnostics: &mut Vec<Diagnostic>,
) -> (resolved: Vec<String>)
    ensures
        final(ast).package == old(ast).package,
        final(ast).imports == old(ast).imports,
        final(ast).declared_parcelables == old(ast).declared_parcelables,
        item_resolves_to(old(ast).item, final(ast).item, imports@, declared@, table@),
        dview(final(diagnostics)@) == dview(old(diagnostics)@) + item_infos(
            old(ast).item,
            imports@,
            declared@,
            table@,
        ),
        nview(resolved@) == item_names(old(ast).item, imports@, declared@, table@),
{
    let mut resolved: Vec<String> = Vec::new();
    let new_item = resolve_item(&ast.item, imports, declared, table, diagnostics, &mut resolved);
    ast.item = new_item;
    proof {
        assert(nview(resolved@) =~= Seq::<Seq<char>>::empty() + item_names(
            old(ast).item,
            imports@,
            declared@,
            table@,
        ));
    }
    resolved
}



/// Resolution preserves the structural invariant: it only rewrites kinds,
/// so every array still carries exactly one generic parameter, a list at
/// most one, and a map none or two.
pub proof fn lemma_resolve_preserves_wf(
    t: Type,
    r: Type,
    imports: Seq<String>,
    declared: Seq<String>,
    table: Seq<(String, ResolvedItemKind)>,
)
    requires
        type_wf(t),
        resolves_to(t, r, imports, declared, table),
    ensures
        type_wf(r),
    decreases t,
{
    assert forall|i: int| 0 <= i < r.generic_types@.len() implies type_wf(
        #[trigger] r.generic_types@[i],
    ) by {
        lemma_resolve_preserves_wf(
            t.generic_types@[i],
            r.generic_types@[i],
            imports,
            declared,
            table,
        );
    }
}

/// The item-level form: a resolved item is structurally well formed when
/// its parse was.
pub proof fn lemma_resolve_item_preserves_wf(
    item: Item,
    r: Item,
    imports: Seq<String>,
    declared: Seq<String>,
    table: Seq<(String, ResolvedItemKind)>,
)
    requires
        crate::ast::item_ok(item),
        item_resolves_to(item, r, imports, declared, table),
    ensures
        match r {
            Item::Interface(i) => forall|k: int|
                0 <= k < i.elements@.len() ==> (match #[trigger] i.elements@[k] {
                    InterfaceElement::Const(c) => type_wf(c.const_type),
                    InterfaceElement::Method(m) => type_wf(m.return_type) && (forall|j: int|
                        0 <= j < m.args@.len() ==> type_wf(#[trigger] m.args@[j].arg_type)),
                }),
            Item::Parcelable(p) => forall|k: int|
                0 <= k < p.elements@.len() ==> (match #[trigger] p.elements@[k] {
                    ParcelableElement::Const(c) => type_wf(c.const_type),
                    ParcelableElement::Field(f) => type_wf(f.field_type),
                }),
            Item::Enum(_) => true,
        },
{
    match (item, r) {
        (Item::Interface(i0), Item::Interface(i1)) => {
            assert forall|k: int| 0 <= k < i1.elements@.len() implies (match #[trigger] i1.elements@[k] {
                InterfaceElement::Const(c) => type_wf(c.const_type),
                InterfaceElement::Method(m) => type_wf(m.return_type) && (forall|j: int|
                    0 <= j < m.args@.len() ==> type_wf(#[trigger] m.args@[j].arg_type)),
            }) by {
                assert(ielem_resolves_to(i0.elements@[k], i1.elements@[k], imports, declared, table));
                assert(crate::ast::interface_element_ok(i0.elements@[k]));
                match (i0.elements@[k], i1.elements@[k]) {
                    (InterfaceElement::Const(c0), InterfaceElement::Const(c1)) => {
                        lemma_resolve_preserves_wf(
                            c0.const_type,
                            c1.const_type,
                            imports,
                            declared,
                            table,
                        );
                    },
                    (InterfaceElement::Method(m0), InterfaceElement::Method(m1)) => {
                        lemma_resolve_preserves_wf(
                            m0.return_type,
                            m1.return_type,
                            imports,
                            declared,
                            table,
                        );
                        assert forall|j: int| 0 <= j < m1.args@.len() implies type_wf(
                            #[trigger] m1.args@[j].arg_type,
                        ) by {
                            assert(arg_resolves_to(m0.args@[j], m1.args@[j], imports, declared, table));
                            assert(crate::ast::arg_ok(m0.args@[j]));
                            lemma_resolve_preserves_wf(
                                m0.args@[j].arg_type,
                                m1.args@[j].arg_type,
                                imports,
                                declared,
                                table,
                            );
                        }
                    },
                    _ => {
                        assert(false);
                    },
                }
            }
        },
        (Item::Parcelable(p0), Item::Parcelable(p1)) => {
            assert forall|k: int| 0 <= k < p1.elements@.len() implies (match #[trigger] p1.elements@[k] {
                ParcelableElement::Const(c) => type_wf(c.const_type),
                ParcelableElement::Field(f) => type_wf(f.field_type),
            }) by {
                assert(pelem_resolves_to(p0.elements@[k], p1.elements@[k], imports, declared, table));
                assert(crate::ast::parcelable_element_ok(p0.elements@[k]));
                match (p0.elements@[k], p1.elements@[k]) {
                    (ParcelableElement::Const(c0), ParcelableElement::Const(c1)) => {
                        lemma_resolve_preserves_wf(
                            c0.const_type,
                            c1.const_type,
                            imports,
                            declared,
                            table,
                        );
                    },
                    (ParcelableElement::Field(f0), ParcelableElement::Field(f1)) => {
                        lemma_resolve_preserves_wf(
                            f0.field_type,
                            f1.field_type,
                            imports,
                            declared,
                            table,
                        );
                    },
                    _ => {
                        assert(false);
                    },
                }
            }
        },
        _ => (),
    }
}

/// No node of the tree is left unresolved.
pub open spec fn fully_resolved(t: Type) -> bool
    decreases t,
{
    &&& !(t.kind@ is Unresolved)
    &&& forall|i: int|
        0 <= i < t.generic_types@.len() ==> fully_resolved(#[trigger] t.generic_types@[i])
}

/// `b` carries exactly the kinds of `a`, node for node.
pub open spec fn kinds_unchanged(a: Type, b: Type) -> bool
    decreases a,
{
    &&& b.kind@ == a.kind@
    &&& b.generic_types@.len() == a.generic_types@.len()
    &&& forall|i: int|
        0 <= i < a.generic_types@.len() ==> kinds_unchanged(
            #[trigger] a.generic_types@[i],
            b.generic_types@[i],
        )
}

/// Resolution is idempotent on kinds: a second resolution pass over an
/// already resolved tree leaves every kind as it was.
pub proof fn lemma_resolve_kinds_idempotent(
    t: Type,
    r: Type,
    r2: Type,
    imports: Seq<String>,
    declared: Seq<String>,
    table: Seq<(String, ResolvedItemKind)>,
)
    requires
        resolves_to(t, r, imports, declared, table),
        resolves_to(r, r2, imports, declared, table),
    ensures
        kinds_unchanged(r, r2),
    decreases t,
{
    assert forall|i: int| 0 <= i < r.generic_types@.len() implies kinds_unchanged(
        #[trigger] r.generic_types@[i],
        r2.generic_types@[i],
    ) by {
        lemma_resolve_kinds_idempotent(
            t.generic_types@[i],
            r.generic_types@[i],
            r2.generic_types@[i],
            imports,
            declared,
            table,
        );
    }
}

proof fn lemma_resolve_silent_children(
    t: Type,
    i: int,
    imports: Seq<String>,
    declared: Seq<String>,
    table: Seq<(String, ResolvedItemKind)>,
)
    requires
        fully_resolved(t),
        i <= t.generic_types@.len(),
    ensures
        resolve_infos_children(t, i, imports, declared, table) =~= Seq::<DiagInfo>::empty(),
    decreases t, i,
{
    if 0 < i <= t.generic_types@.len() {
        lemma_resolve_silent_children(t, i - 1, imports, declared, table);
        lemma_resolve_silent(t.generic_types@[i - 1], imports, declared, table);
    }
}

/// Resolution is idempotent on diagnostics: a second resolution pass over
/// a fully resolved tree reports nothing.
pub proof fn lemma_resolve_silent(
    t: Type,
    imports: Seq<String>,
    declared: Seq<String>,
    table: Seq<(String, ResolvedItemKind)>,
)
    requires
        fully_resolved(t),
    ensures
        resolve_infos_of(t, imports, declared, table) =~= Seq::<DiagInfo>::empty(),
    decreases t, t.generic_types@.len() + 1,
{
    lemma_resolve_silent_children(
        t,
        t.generic_types@.len() as int,
        imports,
        declared,
        table,
    );
}

/// No type node of the item is left unresolved.
pub open spec fn item_fully_resolved(item: Item) -> bool {
    match item {
        Item::Interface(i) => forall|k: int|
            0 <= k < i.elements@.len() ==> (match #[trigger] i.elements@[k] {
                InterfaceElement::Const(c) => fully_resolved(c.const_type),
                InterfaceElement::Method(m) => fully_resolved(m.return_type) && (forall|j: int|
                    0 <= j < m.args@.len() ==> fully_resolved(#[trigger] m.args@[j].arg_type)),
            }),
        Item::Parcelable(p) => forall|k: int|
            0 <= k < p.elements@.len() ==> (match #[trigger] p.elements@[k] {
                ParcelableElement::Const(c) => fully_resolved(c.const_type),
                ParcelableElement::Field(f) => fully_resolved(f.field_type),
            }),
        Item::Enum(_) => true,
    }
}

/// The kinds of every type node of `b` equal those of `a`.
pub open spec fn item_kinds_unchanged(a: Item, b: Item) -> bool {
    match (a, b) {
        (Item::Interface(i), Item::Interface(i2)) => {
            &&& i2.elements@.len() == i.elements@.len()
            &&& forall|k: int|
                0 <= k < i.elements@.len() ==> (match (#[trigger] i.elements@[k], i2.elements@[k]) {
                    (InterfaceElement::Const(c), InterfaceElement::Const(c2)) => kinds_unchanged(
                        c.const_type,
                        c2.const_type,
                    ),
                    (InterfaceElement::Method(m), InterfaceElement::Method(m2)) => {
                        &&& kinds_unchanged(m.return_type, m2.return_type)
                        &&& m2.args@.len() == m.args@.len()
                        &&& forall|j: int|
                            0 <= j < m.args@.len() ==> kinds_unchanged(
                                (#[trigger] m.args@[j]).arg_type,
                                m2.args@[j].arg_type,
                            )
                    },
                    _ => false,
                })
        },
        (Item::Parcelable(p), Item::Parcelable(p2)) => {
            &&& p2.elements@.len() == p.elements@.len()
            &&& forall|k: int|
                0 <= k < p.elements@.len() ==> (match (#[trigger] p.elements@[k], p2.elements@[k]) {
                    (ParcelableElement::Const(c), ParcelableElement::Const(c2)) => kinds_unchanged(
                        c.const_type,
                        c2.const_type,
                    ),
                    (ParcelableElement::Field(f), ParcelableElement::Field(f2)) => kinds_unchanged(
                        f.field_type,
                        f2.field_type,
                    ),
                    _ => false,
                })
        },
        (Item::Enum(_), Item::Enum(_)) => true,
        _ => false,
    }
}

proof fn lemma_item_silent_args(
    args: Seq<Arg>,
    i: int,
    imports: Seq<String>,
    declared: Seq<String>,
    table: Seq<(String, ResolvedItemKind)>,
)
    requires
        i <= args.len(),
        forall|j: int| 0 <= j < args.len() ==> fully_resolved(#[trigger] args[j].arg_type),
    ensures
        args_infos(args, i, imports, declared, table) =~= Seq::<DiagInfo>::empty(),
    decreases i,
{
    if 0 < i <= args.len() {
        lemma_item_silent_args(args, i - 1, imports, declared, table);
        lemma_resolve_silent(args[i - 1].arg_type, imports, declared, table);
    }
}

proof fn lemma_item_silent_ielems(
    elems: Seq<InterfaceElement>,
    i: int,
    imports: Seq<String>,
    declared: Seq<String>,
    table: Seq<(String, ResolvedItemKind)>,
)
    requires
        i <= elems.len(),
        forall|k: int|
            0 <= k < elems.len() ==> (match #[trigger] elems[k] {
                InterfaceElement::Const(c) => fully_resolved(c.const_type),
                InterfaceElement::Method(m) => fully_resolved(m.return_type) && (forall|j: int|
                    0 <= j < m.args@.len() ==> fully_resolved(#[trigger] m.args@[j].arg_type)),
            }),
    ensures
        ielems_infos(elems, i, imports, declared, table) =~= Seq::<DiagInfo>::empty(),
    decreases i,
{
    if 0 < i <= elems.len() {
        lemma_item_silent_ielems(elems, i - 1, imports, declared, table);
        match elems[i - 1] {
            InterfaceElement::Const(c) => {
                lemma_resolve_silent(c.const_type, imports, declared, table);
            },
            InterfaceElement::Method(m) => {
                lemma_resolve_silent(m.return_type, imports, declared, table);
                lemma_item_silent_args(m.args@, m.args@.len() as int, imports, declared, table);
            },
        }
    }
}

proof fn lemma_item_silent_pelems(
    elems: Seq<ParcelableElement>,
    i: int,
    imports: Seq<String>,
    declared: Seq<String>,
    table: Seq<(String, ResolvedItemKind)>,
)
    requires
        i <= elems.len(),
        forall|k: int|
            0 <= k < elems.len() ==> (match #[trigger] elems[k] {
                ParcelableElement::Const(c) => fully_resolved(c.const_type),
                ParcelableElement::Field(f) => fully_resolved(f.field_type),
            }),
    ensures
        pelems_infos(elems, i, imports, declared, table) =~= Seq::<DiagInfo>::empty(),
    decreases i,
{
    if 0 < i <= elems.len() {
        lemma_item_silent_pelems(elems, i - 1, imports, declared, table);
        match elems[i - 1] {
            ParcelableElement::Const(c) => {
                lemma_resolve_silent(c.const_type, imports, declared, table);
            },
            ParcelableElement::Field(f) => {
                lemma_resolve_silent(f.field_type, imports, declared, table);
            },
        }
    }
}

/// Resolution is idempotent. Running the resolution pass a second time,
/// against the same imports, forward declarations and project table,
/// changes no type kind; and on an item whose first pass resolved every
/// reference, the second pass reports no diagnostic at all.
pub proof fn lemma_resolution_idempotent(
    item: Item,
    r: Item,
    r2: Item,
    imports: Seq<String>,
    declared: Seq<String>,
    table: Seq<(String, ResolvedItemKind)>,
)
    requires
        item_resolves_to(item, r, imports, declared, table),
        item_resolves_to(r, r2, imports, declared, table),
    ensures
        item_kinds_unchanged(r, r2),
        item_fully_resolved(r) ==> item_infos(r, imports, declared, table)
            =~= Seq::<DiagInfo>::empty(),
{
    match (item, r, r2) {
        (Item::Interface(i0), Item::Interface(i1), Item::Interface(i2)) => {
            assert forall|k: int| 0 <= k < i1.elements@.len() implies (match (
                #[trigger] i1.elements@[k],
                i2.elements@[k],
            ) {
                (InterfaceElement::Const(c), InterfaceElement::Const(c2)) => kinds_unchanged(
                    c.const_type,
                    c2.const_type,
                ),
                (InterfaceElement::Method(m), InterfaceElement::Method(m2)) => {
                    &&& kinds_unchanged(m.return_type, m2.return_type)
                    &&& m2.args@.len() == m.args@.len()
                    &&& forall|j: int|
                        0 <= j < m.args@.len() ==> kinds_unchanged(
                            (#[trigger] m.args@[j]).arg_type,
                            m2.args@[j].arg_type,
                        )
                },
                _ => false,
            }) by {
                assert(ielem_resolves_to(i0.elements@[k], i1.elements@[k], imports, declared, table));
                assert(ielem_resolves_to(i1.elements@[k], i2.elements@[k], imports, declared, table));
                match (i0.elements@[k], i1.elements@[k], i2.elements@[k]) {
                    (
                        InterfaceElement::Const(c0),
                        InterfaceElement::Const(c1),
                        InterfaceElement::Const(c2),
                    ) => {
                        lemma_resolve_kinds_idempotent(
                            c0.const_type,
                            c1.const_type,
                            c2.const_type,
                            imports,
                            declared,
                            table,
                        );
                    },
                    (
                        InterfaceElement::Method(m0),
                        InterfaceElement::Method(m1),
                        InterfaceElement::Method(m2),
                    ) => {
                        lemma_resolve_kinds_idempotent(
                            m0.return_type,
                            m1.return_type,
                            m2.return_type,
                            imports,
                            declared,
                            table,
                        );
                        assert forall|j: int| 0 <= j < m1.args@.len() implies kinds_unchanged(
                            (#[trigger] m1.args@[j]).arg_type,
                            m2.args@[j].arg_type,
                        ) by {
                            assert(arg_resolves_to(m0.args@[j], m1.args@[j], imports, declared, table));
                            assert(arg_resolves_to(m1.args@[j], m2.args@[j], imports, declared, table));
                            lemma_resolve_kinds_idempotent(
                                m0.args@[j].arg_type,
                                m1.args@[j].arg_type,
                                m2.args@[j].arg_type,
                                imports,
                                declared,
                                table,
                            );
                        }
                    },
                    _ => {
                        assert(false);
                    },
                }
            }
            if item_fully_resolved(r) {
                lemma_item_silent_ielems(
                    i1.elements@,
                    i1.elements@.len() as int,
                    imports,
                    declared,
                    table,
                );
            }
        },
        (Item::Parcelable(p0), Item::Parcelable(p1), Item::Parcelable(p2)) => {
            assert forall|k: int| 0 <= k < p1.elements@.len() implies (match (
                #[trigger] p1.elements@[k],
                p2.elements@[k],
            ) {
                (ParcelableElement::Const(c), ParcelableElement::Const(c2)) => kinds_unchanged(
                    c.const_type,
                    c2.const_type,
                ),
                (ParcelableElement::Field(f), ParcelableElement::Field(f2)) => kinds_unchanged(
                    f.field_type,
                    f2.field_type,
                ),
                _ => false,
            }) by {
                assert(pelem_resolves_to(p0.elements@[k], p1.elements@[k], imports, declared, table));
                assert(pelem_resolves_to(p1.elements@[k], p2.elements@[k], imports, declared, table));
                match (p0.elements@[k], p1.elements@[k], p2.elements@[k]) {
                    (
                        ParcelableElement::Const(c0),
                        ParcelableElement::Const(c1),
                        ParcelableElement::Const(c2),
                    ) => {
                        lemma_resolve_kinds_idempotent(
                            c0.const_type,
                            c1.const_type,
                            c2.const_type,
                            imports,
                            declared,
                            table,
                        );
                    },
                    (
                        ParcelableElement::Field(f0),
                        ParcelableElement::Field(f1),
                        ParcelableElement::Field(f2),
                    ) => {
                        lemma_resolve_kinds_idempotent(
                            f0.field_type,
                            f1.field_type,
                            f2.field_type,
                            imports,
                            declared,
                            table,
                        );
                    },
                    _ => {
                        assert(false);
                    },
                }
            }
            if item_fully_resolved(r) {
                lemma_item_silent_pelems(
                    p1.elements@,
                    p1.elements@.len() as int,
                    imports,
                    declared,
                    table,
                );
            }
        },
        _ => (),
    }
}


/// The element kinds an array may hold (a nested array is reported
/// separately as multi-dimensional).
pub open spec fn array_elem_ok(kv: TypeKindV) -> bool {
    match kv {
        TypeKindV::Primitive => true,
        TypeKindV::StringType => true,
        TypeKindV::CharSequence => false,
        TypeKindV::List => false,
        TypeKindV::MapType => false,
        TypeKindV::Void => false,
        TypeKindV::Array => false,
        TypeKindV::AndroidType(a) => !(a is ParcelableHolder),
        TypeKindV::ResolvedItem(_, k) => !(k is Interface),
        TypeKindV::Unresolved => true,
    }
}

/// The element kinds a list may hold.
pub open spec fn list_elem_ok(kv: TypeKindV) -> bool {
    match kv {
        TypeKindV::Primitive => false,
        TypeKindV::StringType => true,
        TypeKindV::CharSequence => false,
        TypeKindV::List => false,
        TypeKindV::MapType => false,
        TypeKindV::Void => false,
        TypeKindV::Array => false,
        TypeKindV::AndroidType(a) => a is IBinder || a is ParcelFileDescriptor,
        TypeKindV::ResolvedItem(_, k) => k is Parcelable || k is ForwardDeclaredParcelable
            || k is UnknownImport,
        TypeKindV::Unresolved => true,
    }
}

/// A map key must be exactly `String`.
pub open spec fn map_key_ok(kv: TypeKindV, name: Seq<char>) -> bool {
    kv is StringType && name == "String"@
}

/// A map value may be anything but a primitive, `void` or an enum.
pub open spec fn map_value_ok(kv: TypeKindV) -> bool {
    match kv {
        TypeKindV::Primitive => false,
        TypeKindV::Void => false,
        TypeKindV::ResolvedItem(_, k) => !(k is Enum),
        _ => true,
    }
}

pub open spec fn nongeneric_list_info(t: Type) -> DiagInfo {
    DiagInfo {
        kind: DiagnosticKind::Warning,
        range: t.symbol_range,
        message: "Declaring a non-generic list is not recommended"@,
        context: Some("non-generic list"@),
        hint: Some("consider adding a parameter (e.g.: List<String>)"@),
        related: Seq::empty(),
    }
}

pub open spec fn nongeneric_map_info(t: Type) -> DiagInfo {
    DiagInfo {
        kind: DiagnosticKind::Warning,
        range: t.symbol_range,
        message: "Declaring a non-generic map is not recommended"@,
        context: Some("non-generic map"@),
        hint: Some("consider adding key and value parameters (e.g.: Map<String, String>)"@),
        related: Seq::empty(),
    }
}

pub open spec fn multi_dim_info(e: Type) -> DiagInfo {
    DiagInfo {
        kind: DiagnosticKind::Error,
        range: e.symbol_range,
        message: "Unsupported multi-dimensional array"@,
        context: Some("unsupported array"@),
        hint: Some("must be one-dimensional"@),
        related: Seq::empty(),
    }
}

pub open spec fn invalid_array_elem_info(e: Type) -> DiagInfo {
    DiagInfo {
        kind: DiagnosticKind::Error,
        range: e.symbol_range,
        message: "Invalid array element `"@ + e.name@ + "`"@,
        context: Some("invalid parameter"@),
        hint: Some("must be a primitive, an enum, a String, a parcelable or a IBinder"@),
        related: Seq::empty(),
    }
}

pub open spec fn invalid_list_elem_info(e: Type) -> DiagInfo {
    DiagInfo {
        kind: DiagnosticKind::Error,
        range: e.symbol_range,
        message: "Invalid list element `"@ + e.name@ + "`"@,
        context: Some("invalid element"@),
        hint: Some("must be a parcelable/enum, a String, a IBinder or a ParcelFileDescriptor"@),
        related: Seq::empty(),
    }
}

pub open spec fn invalid_map_key_info(e: Type) -> DiagInfo {
    DiagInfo {
        kind: DiagnosticKind::Error,
        range: e.symbol_range,
        message: "Invalid map key `"@ + e.name@ + "`"@,
        context: Some("invalid map key"@),
        hint: Some("must be a parcelable/enum, a String, a IBinder or a ParcelFileDescriptor"@),
        related: Seq::empty(),
    }
}

pub open spec fn invalid_map_value_info(e: Type) -> DiagInfo {
    DiagInfo {
        kind: DiagnosticKind::Error,
        range: e.symbol_range,
        message: "Invalid map value `"@ + e.name@ + "`"@,
        context: Some("invalid map value"@),
        hint: Some("cannot not be a primitive"@),
        related: Seq::empty(),
    }
}

/// What the container rules report on one node, not counting its nested
/// parameters: a zero-parameter list or map draws the warning and skips
/// the element checks; an array reports a nested array as
/// multi-dimensional before anything else; otherwise each parameter is
/// held against the table of kinds its position allows.
pub open spec fn container_infos(t: Type) -> Seq<DiagInfo> {
    match t.kind@ {
        TypeKindV::Array => {
            if t.generic_types@.len() == 0 {
                Seq::empty()
            } else {
                let e = t.generic_types@[0];
                if e.kind@ is Array {
                    seq![multi_dim_info(e)]
                } else if !array_elem_ok(e.kind@) {
                    seq![invalid_array_elem_info(e)]
                } else {
                    Seq::empty()
                }
            }
        },
        TypeKindV::List => {
            if t.generic_types@.len() == 0 {
                seq![nongeneric_list_info(t)]
            } else {
                let e = t.generic_types@[0];
                if !list_elem_ok(e.kind@) {
                    seq![invalid_list_elem_info(e)]
                } else {
                    Seq::empty()
                }
            }
        },
        TypeKindV::MapType => {
            if t.generic_types@.len() == 0 {
                seq![nongeneric_map_info(t)]
            } else if t.generic_types@.len() == 1 {
                Seq::empty()
            } else {
                let k = t.generic_types@[0];
                let v = t.generic_types@[1];
                (if !map_key_ok(k.kind@, k.name@) {
                    seq![invalid_map_key_info(k)]
                } else {
                    Seq::empty()
                }) + (if !map_value_ok(v.kind@) {
                    seq![invalid_map_value_info(v)]
                } else {
                    Seq::empty()
                })
            }
        },
        _ => Seq::empty(),
    }
}

/// The container diagnostics of the parameters `[0, i)` of `t`.
pub open spec fn container_walk_children(t: Type, i: int) -> Seq<DiagInfo>
    decreases t, i,
{
    if i <= 0 || i > t.generic_types@.len() {
        Seq::empty()
    } else {
        container_walk_children(t, i - 1) + container_walk_infos(t.generic_types@[i - 1])
    }
}

/// The container diagnostics of the whole tree rooted at `t`: an array's
/// element is examined before the array itself, any other node before its
/// parameters.
pub open spec fn container_walk_infos(t: Type) -> Seq<DiagInfo>
    decreases t, t.generic_types@.len() + 1,
{
    if t.kind@ is Array {
        container_walk_children(t, t.generic_types@.len() as int) + container_infos(t)
    } else {
        container_infos(t) + container_walk_children(t, t.generic_types@.len() as int)
    }
}

/// Push the diagnostic described by `info`, where every string of `info`
/// is realized by the given exec values.
fn push_info(
    diagnostics: &mut Vec<Diagnostic>,
    kind: DiagnosticKind,
    range: crate::ast::Range,
    message: String,
    context: &str,
    hint: Option<String>,
)
    ensures
        dview(final(diagnostics)@) == dview(old(diagnostics)@).push(
            DiagInfo {
                kind,
                range,
                message: message@,
                context: Some(context@),
                hint: match hint {
                    Some(h) => Some(h@),
                    None => None,
                },
                related: Seq::empty(),
            },
        ),
{
    let d = Diagnostic {
        kind,
        range,
        message,
        context_message: Some(context.to_owned()),
        hint,
        related_infos: Vec::new(),
    };
    proof {
        assert(d@.related =~= Seq::<crate::diagnostic::RelatedInfoV>::empty());
        lemma_dview_push(diagnostics@, d);
    }
    diagnostics.push(d);
}

/// Push the diagnostic described by `info` with one related location.
fn push_info_related(
    diagnostics: &mut Vec<Diagnostic>,
    kind: DiagnosticKind,
    range: crate::ast::Range,
    message: String,
    context: Option<&str>,
    hint: Option<String>,
    related_range: crate::ast::Range,
    related_message: &str,
)
    ensures
        dview(final(diagnostics)@) == dview(old(diagnostics)@).push(
            DiagInfo {
                kind,
                range,
                message: message@,
                context: match context {
                    Some(c) => Some(c@),
                    None => None,
                },
                hint: match hint {
                    Some(h) => Some(h@),
                    None => None,
                },
                related: seq![
                    crate::diagnostic::RelatedInfoV {
                        range: related_range,
                        message: related_message@,
                    },
                ],
            },
        ),
{
    let mut related_infos: Vec<crate::diagnostic::RelatedInfo> = Vec::new();
    related_infos.push(
        crate::diagnostic::RelatedInfo { range: related_range, message: related_message.to_owned() },
    );
    let context_message = match context {
        Some(c) => Some(c.to_owned()),
        None => None,
    };
    let d = Diagnostic { kind, range, message, context_message, hint, related_infos };
    proof {
        assert(d@.related =~= seq![
            crate::diagnostic::RelatedInfoV { range: related_range, message: related_message@ },
        ]);
        lemma_dview_push(diagnostics@, d);
    }
    diagnostics.push(d);
}

/// `message` followed by `name` in backquotes.
fn backquoted(message: &str, name: &str) -> (r: String)
    ensures
        r@ == message@ + name@ + "`"@,
{
    let mut m = message.to_owned();
    m.append(name);
    m.append("`");
    m
}

/// Apply the container element rules to one node, not counting its
/// nested parameters.
pub fn check_container(t: &Type, diagnostics: &mut Vec<Diagnostic>)
    ensures
        dview(final(diagnostics)@) == dview(old(diagnostics)@) + container_infos(*t),
{
    let ghost base = dview(diagnostics@);
    match &t.kind {
        TypeKind::Array => {
            if t.generic_types.len() == 0 {
                proof {
                    assert(dview(diagnostics@) =~= base + container_infos(*t));
                }
                return ;
            }
            let e = &t.generic_types[0];
            let is_array = match &e.kind {
                TypeKind::Array => true,
                _ => false,
            };
            let elem_ok = array_elem_ok_exec(&e.kind);
            if is_array {
                push_info(
                    diagnostics,
                    DiagnosticKind::Error,
                    e.symbol_range,
                    "Unsupported multi-dimensional array".to_owned(),
                    "unsupported array",
                    Some("must be one-dimensional".to_owned()),
                );
                proof {
                    assert(dview(diagnostics@) =~= base + container_infos(*t));
                }
            } else if !elem_ok {
                push_info(
                    diagnostics,
                    DiagnosticKind::Error,
                    e.symbol_range,
                    backquoted("Invalid array element `", e.name.as_str()),
                    "invalid parameter",
                    Some("must be a primitive, an enum, a String, a parcelable or a IBinder".to_owned()),
                );
                proof {
                    assert(dview(diagnostics@) =~= base + container_infos(*t));
                }
            } else {
                proof {
                    assert(dview(diagnostics@) =~= base + container_infos(*t));
                }
            }
        },
        TypeKind::List => {
            if t.generic_types.len() == 0 {
                push_info(
                    diagnostics,
                    DiagnosticKind::Warning,
                    t.symbol_range,
                    "Declaring a non-generic list is not recommended".to_owned(),
                    "non-generic list",
                    Some("consider adding a parameter (e.g.: List<String>)".to_owned()),
                );
                proof {
                    assert(dview(diagnostics@) =~= base + container_infos(*t));
                }
            } else {
                let e = &t.generic_types[0];
                if !list_elem_ok_exec(&e.kind) {
                    push_info(
                        diagnostics,
                        DiagnosticKind::Error,
                        e.symbol_range,
                        backquoted("Invalid list element `", e.name.as_str()),
                        "invalid element",
                        Some("must be a parcelable/enum, a String, a IBinder or a ParcelFileDescriptor".to_owned()),
                    );
                    proof {
                        assert(dview(diagnostics@) =~= base + container_infos(*t));
                    }
                } else {
                    proof {
                        assert(dview(diagnostics@) =~= base + container_infos(*t));
                    }
                }
            }
        },
        TypeKind::MapType => {
            if t.generic_types.len() == 0 {
                push_info(
                    diagnostics,
                    DiagnosticKind::Warning,
                    t.symbol_range,
                    "Declaring a non-generic map is not recommended".to_owned(),
                    "non-generic map",
                    Some("consider adding key and value parameters (e.g.: Map<String, String>)".to_owned()),
                );
                proof {
                    assert(dview(diagnostics@) =~= base + container_infos(*t));
                }
            } else if t.generic_types.len() == 1 {
                proof {
                    assert(dview(diagnostics@) =~= base + container_infos(*t));
                }
            } else {
                let k = &t.generic_types[0];
                let v = &t.generic_types[1];
                let key_is_string = match &k.kind {
                    TypeKind::StringType => str_eq(k.name.as_str(), "String"),
                    _ => false,
                };
                if !key_is_string {
                    push_info(
                        diagnostics,
                        DiagnosticKind::Error,
                        k.symbol_range,
                        backquoted("Invalid map key `", k.name.as_str()),
                        "invalid map key",
                        Some("must be a parcelable/enum, a String, a IBinder or a ParcelFileDescriptor".to_owned()),
                    );
                }
                if !map_value_ok_exec(&v.kind) {
                    push_info(
                        diagnostics,
                        DiagnosticKind::Error,
                        v.symbol_range,
                        backquoted("Invalid map value `", v.name.as_str()),
                        "invalid map value",
                        Some("cannot not be a primitive".to_owned()),
                    );
                }
                proof {
                    assert(dview(diagnostics@) =~= base + container_infos(*t));
                }
            }
        },
        _ => {
            proof {
                assert(dview(diagnostics@) =~= base + container_infos(*t));
            }
        },
    }
}

fn array_elem_ok_exec(kv: &TypeKind) -> (r: bool)
    ensures
        r == array_elem_ok(kv@),
{
    match kv {
        TypeKind::Primitive => true,
        TypeKind::StringType => true,
        TypeKind::AndroidType(a) => match a {
            AndroidTypeKind::ParcelableHolder => false,
            _ => true,
        },
        TypeKind::ResolvedItem(_, k) => match k {
            ResolvedItemKind::Interface => false,
            _ => true,
        },
        TypeKind::Unresolved => true,
        _ => false,
    }
}

fn list_elem_ok_exec(kv: &TypeKind) -> (r: bool)
    ensures
        r == list_elem_ok(kv@),
{
    match kv {
        TypeKind::StringType => true,
        TypeKind::AndroidType(a) => match a {
            AndroidTypeKind::IBinder => true,
            AndroidTypeKind::ParcelFileDescriptor => true,
            _ => false,
        },
        TypeKind::ResolvedItem(_, k) => match k {
            ResolvedItemKind::Parcelable => true,
            ResolvedItemKind::ForwardDeclaredParcelable => true,
            ResolvedItemKind::UnknownImport => true,
            _ => false,
        },
        TypeKind::Unresolved => true,
        _ => false,
    }
}

fn map_value_ok_exec(kv: &TypeKind) -> (r: bool)
    ensures
        r == map_value_ok(kv@),
{
    match kv {
        TypeKind::Primitive => false,
        TypeKind::Void => false,
        TypeKind::ResolvedItem(_, k) => match k {
            ResolvedItemKind::Enum => false,
            _ => true,
        },
        _ => true,
    }
}

/// Apply the container rules to a whole type tree, an array's element
/// before the array itself and any other node before its parameters.
pub fn check_container_tree(t: &Type, diagnostics: &mut Vec<Diagnostic>)
    ensures
        dview(final(diagnostics)@) == dview(old(diagnostics)@) + container_walk_infos(*t),
    decreases *t,
{
    let is_array = match &t.kind {
        TypeKind::Array => true,
        _ => false,
    };
    if !is_array {
        check_container(t, diagnostics);
    }
    let ghost base = dview(diagnostics@);
    let n = t.generic_types.len();
    let mut k: usize = 0;
    while k < n
        invariant
            n == t.generic_types@.len(),
            k <= n,
            dview(diagnostics@) == base + container_walk_children(*t, k as int),
        decreases n - k,
    {
        proof {
            assert(decreases_to!(*t => t.generic_types@[k as int]));
        }
        check_container_tree(&t.generic_types[k], diagnostics);
        k = k + 1;
    }
    if is_array {
        check_container(t, diagnostics);
    }
    proof {
        assert(dview(diagnostics@) =~= dview(old(diagnostics)@) + container_walk_infos(*t));
    }
}


/// The direction constraint an argument type places on its argument.
#[derive(Debug, Clone, Copy, PartialEq, Eq, Structural)]
pub enum DirectionRequirement {
    Required,
    InOrUnspecified,
    InOrInOut,
    CannotBeArg,
    NoRequirement,
}

/// Which constraint each resolved kind carries: arrays, lists, maps,
/// parcelables (forward-declared included) and unknown imports require a
/// direction; a ParcelFileDescriptor must be `in` or `inout`; a
/// ParcelableHolder cannot be an argument; anything else may only be `in`
/// or unspecified.
pub open spec fn dir_requirement(kv: TypeKindV) -> DirectionRequirement {
    match kv {
        TypeKindV::Primitive => DirectionRequirement::InOrUnspecified,
        TypeKindV::Void => DirectionRequirement::InOrUnspecified,
        TypeKindV::Array => DirectionRequirement::Required,
        TypeKindV::MapType => DirectionRequirement::Required,
        TypeKindV::List => DirectionRequirement::Required,
        TypeKindV::StringType => DirectionRequirement::InOrUnspecified,
        TypeKindV::CharSequence => DirectionRequirement::InOrUnspecified,
        TypeKindV::AndroidType(a) => match a {
            AndroidTypeKind::IBinder => DirectionRequirement::InOrUnspecified,
            AndroidTypeKind::FileDescriptor => DirectionRequirement::InOrUnspecified,
            AndroidTypeKind::ParcelFileDescriptor => DirectionRequirement::InOrInOut,
            AndroidTypeKind::ParcelableHolder => DirectionRequirement::CannotBeArg,
        },
        TypeKindV::ResolvedItem(_, k) => match k {
            ResolvedItemKind::Parcelable => DirectionRequirement::Required,
            ResolvedItemKind::ForwardDeclaredParcelable => DirectionRequirement::Required,
            ResolvedItemKind::Interface => DirectionRequirement::InOrUnspecified,
            ResolvedItemKind::Enum => DirectionRequirement::InOrUnspecified,
            ResolvedItemKind::UnknownImport => DirectionRequirement::Required,
        },
        TypeKindV::Unresolved => DirectionRequirement::NoRequirement,
    }
}

/// What the constraint's messages call arguments of this kind.
pub open spec fn dir_label(kv: TypeKindV) -> Seq<char> {
    match kv {
        TypeKindV::Primitive => "primitives"@,
        TypeKindV::Void => "void"@,
        TypeKindV::Array => "arrays"@,
        TypeKindV::MapType => "maps"@,
        TypeKindV::List => "maps"@,
        TypeKindV::StringType => "strings"@,
        TypeKindV::CharSequence => "CharSequence"@,
        TypeKindV::AndroidType(a) => match a {
            AndroidTypeKind::IBinder => "IBinder"@,
            AndroidTypeKind::FileDescriptor => "FileDescriptor"@,
            AndroidTypeKind::ParcelFileDescriptor => "ParcelFileDescriptor"@,
            AndroidTypeKind::ParcelableHolder => "ParcelableHolder"@,
        },
        TypeKindV::ResolvedItem(_, k) => match k {
            ResolvedItemKind::Parcelable => "parcelables"@,
            ResolvedItemKind::ForwardDeclaredParcelable => "parcelables"@,
            ResolvedItemKind::Interface => "interfaces"@,
            ResolvedItemKind::Enum => "enums"@,
            ResolvedItemKind::UnknownImport => "objects"@,
        },
        TypeKindV::Unresolved => ""@,
    }
}

fn dir_requirement_exec(kv: &TypeKind) -> (r: DirectionRequirement)
    ensures
        r == dir_requirement(kv@),
{
    match kv {
        TypeKind::Primitive => DirectionRequirement::InOrUnspecified,
        TypeKind::Void => DirectionRequirement::InOrUnspecified,
        TypeKind::Array => DirectionRequirement::Required,
        TypeKind::MapType => DirectionRequirement::Required,
        TypeKind::List => DirectionRequirement::Required,
        TypeKind::StringType => DirectionRequirement::InOrUnspecified,
        TypeKind::CharSequence => DirectionRequirement::InOrUnspecified,
        TypeKind::AndroidType(a) => match a {
            AndroidTypeKind::IBinder => DirectionRequirement::InOrUnspecified,
            AndroidTypeKind::FileDescriptor => DirectionRequirement::InOrUnspecified,
            AndroidTypeKind::ParcelFileDescriptor => DirectionRequirement::InOrInOut,
            AndroidTypeKind::ParcelableHolder => DirectionRequirement::CannotBeArg,
        },
        TypeKind::ResolvedItem(_, k) => match k {
            ResolvedItemKind::Parcelable => DirectionRequirement::Required,
            ResolvedItemKind::ForwardDeclaredParcelable => DirectionRequirement::Required,
            ResolvedItemKind::Interface => DirectionRequirement::InOrUnspecified,
            ResolvedItemKind::Enum => DirectionRequirement::InOrUnspecified,
            ResolvedItemKind::UnknownImport => DirectionRequirement::Required,
        },
        TypeKind::Unresolved => DirectionRequirement::NoRequirement,
    }
}

fn dir_label_exec(kv: &TypeKind) -> (r: &'static str)
    ensures
        r@ == dir_label(kv@),
{
    match kv {
        TypeKind::Primitive => "primitives",
        TypeKind::Void => "void",
        TypeKind::Array => "arrays",
        TypeKind::MapType => "maps",
        TypeKind::List => "maps",
        TypeKind::StringType => "strings",
        TypeKind::CharSequence => "CharSequence",
        TypeKind::AndroidType(a) => match a {
            AndroidTypeKind::IBinder => "IBinder",
            AndroidTypeKind::FileDescriptor => "FileDescriptor",
            AndroidTypeKind::ParcelFileDescriptor => "ParcelFileDescriptor",
            AndroidTypeKind::ParcelableHolder => "ParcelableHolder",
        },
        TypeKind::ResolvedItem(_, k) => match k {
            ResolvedItemKind::Parcelable => "parcelables",
            ResolvedItemKind::ForwardDeclaredParcelable => "parcelables",
            ResolvedItemKind::Interface => "interfaces",
            ResolvedItemKind::Enum => "enums",
            ResolvedItemKind::UnknownImport => "objects",
        },
        TypeKind::Unresolved => "",
    }
}

/// The range a direction diagnostic points at: the direction keyword, or
/// a collapsed range at the start of the argument's type.
pub open spec fn arg_dir_range(a: Arg) -> crate::ast::Range {
    match a.direction {
        Direction::In(r) => r,
        Direction::Out(r) => r,
        Direction::InOut(r) => r,
        Direction::Unspecified => crate::ast::Range {
            start: a.arg_type.symbol_range.start,
            end: a.arg_type.symbol_range.start,
        },
    }
}

fn arg_dir_range_exec(a: &Arg) -> (r: crate::ast::Range)
    ensures
        r == arg_dir_range(*a),
{
    match &a.direction {
        Direction::In(r) => *r,
        Direction::Out(r) => *r,
        Direction::InOut(r) => *r,
        Direction::Unspecified => crate::ast::Range {
            start: a.arg_type.symbol_range.start,
            end: a.arg_type.symbol_range.start,
        },
    }
}

pub open spec fn err_info(
    range: crate::ast::Range,
    message: Seq<char>,
    context: Seq<char>,
    hint: Seq<char>,
) -> DiagInfo {
    DiagInfo {
        kind: DiagnosticKind::Error,
        range,
        message,
        context: Some(context),
        hint: Some(hint),
        related: Seq::empty(),
    }
}

/// The diagnostics the argument rules leave on one argument of a method.
pub open spec fn arg_infos(oneway: bool, a: Arg) -> Seq<DiagInfo> {
    let kv = a.arg_type.kind@;
    let label = dir_label(kv);
    let tname = a.arg_type.name@;
    let range = arg_dir_range(a);
    let requirement_part: Seq<DiagInfo> = match dir_requirement(kv) {
        DirectionRequirement::Required => {
            if a.direction is Unspecified {
                seq![
                    err_info(
                        range,
                        "Missing direction for `"@ + tname + "`"@,
                        "missing direction"@,
                        "direction is required for "@ + label,
                    ),
                ]
            } else {
                Seq::empty()
            }
        },
        DirectionRequirement::InOrUnspecified => {
            if !(a.direction is Unspecified || a.direction is In) {
                seq![
                    err_info(
                        range,
                        "Invalid direction for `"@ + tname + "`"@,
                        "invalid direction"@,
                        label + " can only be `in` or omitted"@,
                    ),
                ]
            } else {
                Seq::empty()
            }
        },
        DirectionRequirement::InOrInOut => {
            if !(a.direction is In || a.direction is InOut) {
                seq![
                    err_info(
                        range,
                        "Invalid direction for `"@ + tname + "`"@,
                        "invalid direction"@,
                        if a.direction is Out {
                            label + " cannot be out"@
                        } else {
                            label + " must be specified"@
                        },
                    ),
                ]
            } else {
                Seq::empty()
            }
        },
        DirectionRequirement::CannotBeArg => seq![
            err_info(
                range,
                "Invalid argument `"@ + tname + "`"@,
                "invalid argument"@,
                label + " cannot be an argument"@,
            ),
        ],
        DirectionRequirement::NoRequirement => Seq::empty(),
    };
    let oneway_part: Seq<DiagInfo> = if oneway && (a.direction is Out || a.direction is InOut) {
        seq![
            err_info(
                range,
                "Invalid direction for `"@ + tname + "`"@,
                "invalid direction"@,
                "arguments of oneway methods can be neither `out` nor `inout`"@,
            ),
        ]
    } else {
        Seq::empty()
    };
    requirement_part + oneway_part
}

/// The argument diagnostics of the first `i` arguments.
pub open spec fn method_args_infos(oneway: bool, args: Seq<Arg>, i: int) -> Seq<DiagInfo>
    decreases i,
{
    if i <= 0 || i > args.len() {
        Seq::empty()
    } else {
        method_args_infos(oneway, args, i - 1) + arg_infos(oneway, args[i - 1])
    }
}

/// The diagnostics the method rules leave on one method in isolation: a
/// non-void return type on a oneway method, then each argument.
pub open spec fn check_method_infos(m: Method) -> Seq<DiagInfo> {
    (if m.oneway && !(m.return_type.kind@ is Void) {
        seq![
            err_info(
                m.return_type.symbol_range,
                "Invalid return type of async method `"@ + m.return_type.name@ + "`"@,
                "must be void"@,
                "return type of async methods must be `void`"@,
            ),
        ]
    } else {
        Seq::empty()
    }) + method_args_infos(m.oneway, m.args@, m.args@.len() as int)
}

/// Check the direction of every argument of `method` against what its
/// resolved type kind allows, and forbid `out`/`inout` on oneway methods.
pub fn check_method_args(method: &Method, diagnostics: &mut Vec<Diagnostic>)
    ensures
        dview(final(diagnostics)@) == dview(old(diagnostics)@) + method_args_infos(
            method.oneway,
            method.args@,
            method.args@.len() as int,
        ),
{
    let ghost base = dview(diagnostics@);
    let n = method.args.len();
    let mut k: usize = 0;
    while k < n
        invariant
            n == method.args@.len(),
            k <= n,
            dview(diagnostics@) == base + method_args_infos(method.oneway, method.args@, k as int),
        decreases n - k,
    {
        let a = &method.args[k];
        let ghost before = dview(diagnostics@);
        let range = arg_dir_range_exec(a);
        let label = dir_label_exec(&a.arg_type.kind);
        let tname = a.arg_type.name.as_str();
        match dir_requirement_exec(&a.arg_type.kind) {
            DirectionRequirement::Required => {
                if a.direction.is_unspecified() {
                    let mut hint = "direction is required for ".to_owned();
                    hint.append(label);
                    push_info(
                        diagnostics,
                        DiagnosticKind::Error,
                        range,
                        backquoted("Missing direction for `", tname),
                        "missing direction",
                        Some(hint),
                    );
                }
            },
            DirectionRequirement::InOrUnspecified => {
                let allowed = match &a.direction {
                    Direction::Unspecified => true,
                    Direction::In(_) => true,
                    _ => false,
                };
                if !allowed {
                    let mut hint = label.to_owned();
                    hint.append(" can only be `in` or omitted");
                    push_info(
                        diagnostics,
                        DiagnosticKind::Error,
                        range,
                        backquoted("Invalid direction for `", tname),
                        "invalid direction",
                        Some(hint),
                    );
                }
            },
            DirectionRequirement::InOrInOut => {
                let allowed = match &a.direction {
                    Direction::In(_) => true,
                    Direction::InOut(_) => true,
                    _ => false,
                };
                if !allowed {
                    let is_out = match &a.direction {
                        Direction::Out(_) => true,
                        _ => false,
                    };
                    let mut hint = label.to_owned();
                    if is_out {
                        hint.append(" cannot be out");
                    } else {
                        hint.append(" must be specified");
                    }
                    push_info(
                        diagnostics,
                        DiagnosticKind::Error,
                        range,
                        backquoted("Invalid direction for `", tname),
                        "invalid direction",
                        Some(hint),
                    );
                }
            },
            DirectionRequirement::CannotBeArg => {
                let mut hint = label.to_owned();
                hint.append(" cannot be an argument");
                push_info(
                    diagnostics,
                    DiagnosticKind::Error,
                    range,
                    backquoted("Invalid argument `", tname),
                    "invalid argument",
                    Some(hint),
                );
            },
            DirectionRequirement::NoRequirement => (),
        }
        let out_or_inout = match &a.direction {
            Direction::Out(_) => true,
            Direction::InOut(_) => true,
            _ => false,
        };
        if method.oneway && out_or_inout {
            push_info(
                diagnostics,
                DiagnosticKind::Error,
                range,
                backquoted("Invalid direction for `", tname),
                "invalid direction",
                Some("arguments of oneway methods can be neither `out` nor `inout`".to_owned()),
            );
        }
        proof {
            assert(dview(diagnostics@) =~= before + arg_infos(method.oneway, method.args@[k as int]));
        }
        k = k + 1;
    }
}

/// Check one method in isolation: a oneway method must return `void`,
/// and each argument's direction must fit its type.
pub fn check_method(method: &Method, diagnostics: &mut Vec<Diagnostic>)
    ensures
        dview(final(diagnostics)@) == dview(old(diagnostics)@) + check_method_infos(*method),
{
    let is_void = match &method.return_type.kind {
        TypeKind::Void => true,
        _ => false,
    };
    if method.oneway && !is_void {
        push_info(
            diagnostics,
            DiagnosticKind::Error,
            method.return_type.symbol_range,
            backquoted("Invalid return type of async method `", method.return_type.name.as_str()),
            "must be void",
            Some("return type of async methods must be `void`".to_owned()),
        );
    }
    check_method_args(method, diagnostics);
    proof {
        assert(dview(diagnostics@) =~= dview(old(diagnostics)@) + check_method_infos(*method));
    }
}


/// The warning on a method already marked oneway inside a oneway
/// interface.
pub open spec fn redundant_oneway_info(m: Method, interface_range: crate::ast::Range) -> DiagInfo {
    DiagInfo {
        kind: DiagnosticKind::Warning,
        range: m.oneway_range,
        message: "Method `"@ + m.name@ + "` of oneway interface does not need to be marked as oneway"@,
        context: Some("redundant oneway"@),
        hint: None,
        related: seq![
            crate::diagnostic::RelatedInfoV { range: interface_range, message: "oneway interface"@ },
        ],
    }
}

/// The warnings the oneway propagation leaves on the first `i` elements.
pub open spec fn oneway_setup_infos(
    elems: Seq<InterfaceElement>,
    i: int,
    interface_range: crate::ast::Range,
) -> Seq<DiagInfo>
    decreases i,
{
    if i <= 0 || i > elems.len() {
        Seq::empty()
    } else {
        oneway_setup_infos(elems, i - 1, interface_range) + (match elems[i - 1] {
            InterfaceElement::Method(m) => {
                if m.oneway {
                    seq![redundant_oneway_info(m, interface_range)]
                } else {
                    Seq::empty()
                }
            },
            InterfaceElement::Const(_) => Seq::empty(),
        })
    }
}

/// `b` is `a` with its oneway flag forced on and nothing else changed.
pub open spec fn forced_oneway(a: Method, b: Method) -> bool {
    &&& b.oneway == true
    &&& b.name == a.name
    &&& b.return_type == a.return_type
    &&& b.args == a.args
    &&& b.annotations == a.annotations
    &&& b.transact_code == a.transact_code
    &&& b.doc == a.doc
    &&& b.symbol_range == a.symbol_range
    &&& b.full_range == a.full_range
    &&& b.transact_code_range == a.transact_code_range
    &&& b.oneway_range == a.oneway_range
}

/// What the oneway propagation does to one element.
pub open spec fn oneway_setup_elem(a: InterfaceElement, b: InterfaceElement) -> bool {
    match (a, b) {
        (InterfaceElement::Const(c), InterfaceElement::Const(c2)) => c2 == c,
        (InterfaceElement::Method(m), InterfaceElement::Method(m2)) => forced_oneway(m, m2),
        _ => false,
    }
}

/// When the owning interface is itself oneway, force every method to
/// oneway in place; one already marked oneway draws a warning instead,
/// pointing back at the interface. Afterwards every method of a oneway
/// interface reports `oneway` true.
pub fn set_up_oneway_interface(interface: &mut Interface, diagnostics: &mut Vec<Diagnostic>)
    ensures
        !old(interface).oneway ==> *final(interface) == *old(interface) && final(diagnostics)@
            == old(diagnostics)@,
        final(interface).oneway == old(interface).oneway,
        final(interface).name == old(interface).name,
        final(interface).annotations == old(interface).annotations,
        final(interface).doc == old(interface).doc,
        final(interface).full_range == old(interface).full_range,
        final(interface).symbol_range == old(interface).symbol_range,
        final(interface).elements@.len() == old(interface).elements@.len(),
        old(interface).oneway ==> {
            &&& forall|k: int|
                0 <= k < old(interface).elements@.len() ==> oneway_setup_elem(
                    #[trigger] old(interface).elements@[k],
                    final(interface).elements@[k],
                )
            &&& dview(final(diagnostics)@) == dview(old(diagnostics)@) + oneway_setup_infos(
                old(interface).elements@,
                old(interface).elements@.len() as int,
                old(interface).symbol_range,
            )
            &&& forall|k: int|
                0 <= k < final(interface).elements@.len() ==> (match #[trigger] final(interface).elements@[k] {
                    InterfaceElement::Method(m) => m.oneway == true,
                    InterfaceElement::Const(_) => true,
                })
        },
{
    if !interface.oneway {
        return ;
    }
    let ghost elems0 = interface.elements@;
    let ghost irange = interface.symbol_range;
    let ghost base = dview(diagnostics@);
    let mut elements: Vec<InterfaceElement> = Vec::new();
    core::mem::swap(&mut interface.elements, &mut elements);
    let mut new_elements: Vec<InterfaceElement> = Vec::new();
    let n = elements.len();
    let mut k: usize = 0;
    while k < n
        invariant
            n == elems0.len(),
            k <= n,
            elements@ =~= elems0.skip(k as int),
            new_elements@.len() == k,
            irange == interface.symbol_range,
            forall|j: int|
                0 <= j < k ==> oneway_setup_elem(#[trigger] elems0[j], new_elements@[j]),
            forall|j: int|
                0 <= j < k ==> (match #[trigger] new_elements@[j] {
                    InterfaceElement::Method(m) => m.oneway == true,
                    InterfaceElement::Const(_) => true,
                }),
            dview(diagnostics@) == base + oneway_setup_infos(elems0, k as int, irange),
        decreases n - k,
    {
        proof {
            assert(elems0.skip(k as int)[0] == elems0[k as int]);
        }
        let el = elements.remove(0);
        proof {
            assert(elements@ =~= elems0.skip(k + 1));
        }
        match el {
            InterfaceElement::Const(c) => {
                new_elements.push(InterfaceElement::Const(c));
            },
            InterfaceElement::Method(m) => {
                if m.oneway {
                    let mut msg = "Method `".to_owned();
                    msg.append(m.name.as_str());
                    msg.append("` of oneway interface does not need to be marked as oneway");
                    push_info_related(
                        diagnostics,
                        DiagnosticKind::Warning,
                        m.oneway_range,
                        msg,
                        Some("redundant oneway"),
                        None,
                        interface.symbol_range,
                        "oneway interface",
                    );
                    new_elements.push(InterfaceElement::Method(m));
                } else {
                    let Method {
                        oneway: _,
                        name,
                        return_type,
                        args,
                        annotations,
                        transact_code,
                        doc,
                        symbol_range,
                        full_range,
                        transact_code_range,
                        oneway_range,
                    } = m;
                    new_elements.push(
                        InterfaceElement::Method(
                            Method {
                                oneway: true,
                                name,
                                return_type,
                                args,
                                annotations,
                                transact_code,
                                doc,
                                symbol_range,
                                full_range,
                                transact_code_range,
                                oneway_range,
                            },
                        ),
                    );
                }
            },
        }
        k = k + 1;
    }
    interface.elements = new_elements;
}


/// The views of name/range bookkeeping entries.
pub open spec fn pair_view(s: Seq<(String, crate::ast::Range)>) -> Seq<(Seq<char>, crate::ast::Range)> {
    s.map_values(|p: (String, crate::ast::Range)| (p.0@, p.1))
}

/// The range recorded under `name`, if any.
pub open spec fn lookup_range(
    s: Seq<(Seq<char>, crate::ast::Range)>,
    name: Seq<char>,
) -> Option<crate::ast::Range>
    decreases s.len(),
{
    if s.len() == 0 {
        None
    } else if s[0].0 == name {
        Some(s[0].1)
    } else {
        lookup_range(s.drop_first(), name)
    }
}

/// The range recorded under the numeric id `id`, if any.
pub open spec fn lookup_id(s: Seq<(u32, crate::ast::Range)>, id: u32) -> Option<crate::ast::Range>
    decreases s.len(),
{
    if s.len() == 0 {
        None
    } else if s[0].0 == id {
        Some(s[0].1)
    } else {
        lookup_id(s.drop_first(), id)
    }
}

/// The method names seen in the first `i` elements, each with the range
/// of its first occurrence.
pub open spec fn names_state(elems: Seq<InterfaceElement>, i: int) -> Seq<(Seq<char>, crate::ast::Range)>
    decreases i,
{
    if i <= 0 || i > elems.len() {
        Seq::empty()
    } else {
        let st = names_state(elems, i - 1);
        match elems[i - 1] {
            InterfaceElement::Method(m) => {
                if lookup_range(st, m.name@) is Some {
                    st
                } else {
                    st.push((m.name@, m.symbol_range))
                }
            },
            InterfaceElement::Const(_) => st,
        }
    }
}

/// Whether the element at `j` is a method whose name already occurred.
pub open spec fn is_dup_name(elems: Seq<InterfaceElement>, j: int) -> bool {
    match elems[j] {
        InterfaceElement::Method(m) => lookup_range(names_state(elems, j), m.name@) is Some,
        InterfaceElement::Const(_) => false,
    }
}

/// The transact-code range of the first method (not counting duplicated
/// names) with an id, among the first `i` elements.
pub open spec fn first_with_id(elems: Seq<InterfaceElement>, i: int) -> Option<crate::ast::Range>
    decreases i,
{
    if i <= 0 || i > elems.len() {
        None
    } else {
        let prev = first_with_id(elems, i - 1);
        if prev is Some {
            prev
        } else {
            match elems[i - 1] {
                InterfaceElement::Method(m) => {
                    if !is_dup_name(elems, i - 1) && m.transact_code is Some {
                        Some(m.transact_code_range)
                    } else {
                        None
                    }
                },
                InterfaceElement::Const(_) => None,
            }
        }
    }
}

/// The transact-code range of the first method (not counting duplicated
/// names) without an id, among the first `i` elements.
pub open spec fn first_without_id(elems: Seq<InterfaceElement>, i: int) -> Option<crate::ast::Range>
    decreases i,
{
    if i <= 0 || i > elems.len() {
        None
    } else {
        let prev = first_without_id(elems, i - 1);
        if prev is Some {
            prev
        } else {
            match elems[i - 1] {
                InterfaceElement::Method(m) => {
                    if !is_dup_name(elems, i - 1) && m.transact_code is None {
                        Some(m.transact_code_range)
                    } else {
                        None
                    }
                },
                InterfaceElement::Const(_) => None,
            }
        }
    }
}

/// The transact codes seen in the first `i` elements (not counting
/// duplicated names), each with the range of its first owner.
pub open spec fn ids_state(elems: Seq<InterfaceElement>, i: int) -> Seq<(u32, crate::ast::Range)>
    decreases i,
{
    if i <= 0 || i > elems.len() {
        Seq::empty()
    } else {
        let st = ids_state(elems, i - 1);
        match elems[i - 1] {
            InterfaceElement::Method(m) => {
                if is_dup_name(elems, i - 1) {
                    st
                } else {
                    match m.transact_code {
                        Some(v) => {
                            if lookup_id(st, v) is Some {
                                st
                            } else {
                                st.push((v, m.transact_code_range))
                            }
                        },
                        None => st,
                    }
                }
            },
            InterfaceElement::Const(_) => st,
        }
    }
}

pub open spec fn dup_name_info(m: Method, prev: crate::ast::Range) -> DiagInfo {
    DiagInfo {
        kind: DiagnosticKind::Error,
        range: m.symbol_range,
        message: "Duplicated method name `"@ + m.name@ + "`"@,
        context: Some("duplicated method name"@),
        hint: None,
        related: seq![
            crate::diagnostic::RelatedInfoV { range: prev, message: "previous location"@ },
        ],
    }
}

pub open spec fn mixed_ids_info(
    m: Method,
    other: crate::ast::Range,
    other_message: Seq<char>,
) -> DiagInfo {
    DiagInfo {
        kind: DiagnosticKind::Error,
        range: m.transact_code_range,
        message: "Mixed usage of method ids"@,
        context: None,
        hint: Some("Either all methods should have an id or none of them"@),
        related: seq![crate::diagnostic::RelatedInfoV { range: other, message: other_message }],
    }
}

pub open spec fn dup_id_info(m: Method, prev: crate::ast::Range) -> DiagInfo {
    DiagInfo {
        kind: DiagnosticKind::Error,
        range: m.transact_code_range,
        message: "Duplicated method id"@,
        context: Some("duplicated method id"@),
        hint: None,
        related: seq![
            crate::diagnostic::RelatedInfoV { range: prev, message: "previous method"@ },
        ],
    }
}

/// What the interface-wide method rules report on the element at `j`: the
/// per-method checks; then, a duplicated name ends its processing; an
/// id-presence that differs from the established pattern is flagged once;
/// a repeated id points back at its first owner.
pub open spec fn method_elem_infos(elems: Seq<InterfaceElement>, j: int) -> Seq<DiagInfo> {
    match elems[j] {
        InterfaceElement::Const(_) => Seq::empty(),
        InterfaceElement::Method(m) => check_method_infos(m) + {
            if is_dup_name(elems, j) {
                seq![dup_name_info(m, lookup_range(names_state(elems, j), m.name@)->0)]
            } else {
                let mixed: Seq<DiagInfo> = if m.transact_code is Some && first_with_id(elems, j)
                    is None && first_without_id(elems, j) is Some {
                    seq![
                        mixed_ids_info(m, first_without_id(elems, j)->0, "method without id"@),
                    ]
                } else if m.transact_code is None && first_without_id(elems, j) is None
                    && first_with_id(elems, j) is Some {
                    seq![mixed_ids_info(m, first_with_id(elems, j)->0, "method with id"@)]
                } else {
                    Seq::empty()
                };
                let dup: Seq<DiagInfo> = match m.transact_code {
                    Some(v) => match lookup_id(ids_state(elems, j), v) {
                        Some(prev) => seq![dup_id_info(m, prev)],
                        None => Seq::empty(),
                    },
                    None => Seq::empty(),
                };
                mixed + dup
            }
        },
    }
}

/// The diagnostics of the interface-wide method rules on the first `i`
/// elements.
pub open spec fn check_methods_infos(elems: Seq<InterfaceElement>, i: int) -> Seq<DiagInfo>
    decreases i,
{
    if i <= 0 || i > elems.len() {
        Seq::empty()
    } else {
        check_methods_infos(elems, i - 1) + method_elem_infos(elems, i - 1)
    }
}

fn lookup_range_exec(s: &Vec<(String, crate::ast::Range)>, name: &str) -> (r: Option<crate::ast::Range>)
    ensures
        r == lookup_range(pair_view(s@), name@),
{
    let n = s.len();
    let mut i: usize = 0;
    proof {
        assert(pair_view(s@).skip(0) =~= pair_view(s@));
    }
    while i < n
        invariant
            n == s@.len(),
            i <= n,
            lookup_range(pair_view(s@), name@) == lookup_range(
                pair_view(s@).skip(i as int),
                name@,
            ),
        decreases n - i,
    {
        proof {
            assert(pair_view(s@).skip(i as int)[0] == pair_view(s@)[i as int]);
            assert(pair_view(s@).skip(i as int).drop_first() =~= pair_view(s@).skip(i + 1));
        }
        if str_eq(s[i].0.as_str(), name) {
            return Some(s[i].1);
        }
        i = i + 1;
    }
    proof {
        assert(pair_view(s@).skip(n as int) =~= Seq::<(Seq<char>, crate::ast::Range)>::empty());
    }
    None
}

fn lookup_id_exec(s: &Vec<(u32, crate::ast::Range)>, id: u32) -> (r: Option<crate::ast::Range>)
    ensures
        r == lookup_id(s@, id),
{
    let n = s.len();
    let mut i: usize = 0;
    proof {
        assert(s@.skip(0) =~= s@);
    }
    while i < n
        invariant
            n == s@.len(),
            i <= n,
            lookup_id(s@, id) == lookup_id(s@.skip(i as int), id),
        decreases n - i,
    {
        proof {
            assert(s@.skip(i as int)[0] == s@[i as int]);
            assert(s@.skip(i as int).drop_first() =~= s@.skip(i + 1));
        }
        if s[i].0 == id {
            return Some(s[i].1);
        }
        i = i + 1;
    }
    proof {
        assert(s@.skip(n as int) =~= Seq::<(u32, crate::ast::Range)>::empty());
    }
    None
}

/// Check the methods of the unit's item as a group: each method in
/// isolation, duplicated method names, a mixed use of transact codes, and
/// duplicated transact codes.
pub fn check_methods(ast: &Aidl, diagnostics: &mut Vec<Diagnostic>)
    ensures
        dview(final(diagnostics)@) == dview(old(diagnostics)@) + (match ast.item {
            Item::Interface(i) => check_methods_infos(i.elements@, i.elements@.len() as int),
            _ => Seq::<DiagInfo>::empty(),
        }),
{
    let interface = match &ast.item {
        Item::Interface(i) => i,
        _ => {
            proof {
                assert(dview(diagnostics@) =~= dview(old(diagnostics)@) + Seq::<
                    DiagInfo,
                >::empty());
            }
            return ;
        },
    };
    let ghost elems = interface.elements@;
    let ghost base = dview(diagnostics@);
    let mut names: Vec<(String, crate::ast::Range)> = Vec::new();
    let mut ids: Vec<(u32, crate::ast::Range)> = Vec::new();
    let mut fw: Option<crate::ast::Range> = None;
    let mut fwo: Option<crate::ast::Range> = None;
    let n = interface.elements.len();
    let mut k: usize = 0;
    while k < n
        invariant
            n == elems.len(),
            elems == interface.elements@,
            k <= n,
            pair_view(names@) == names_state(elems, k as int),
            ids@ == ids_state(elems, k as int),
            fw == first_with_id(elems, k as int),
            fwo == first_without_id(elems, k as int),
            dview(diagnostics@) == base + check_methods_infos(elems, k as int),
        decreases n - k,
    {
        let ghost before = dview(diagnostics@);
        match &interface.elements[k] {
            InterfaceElement::Const(_) => (),
            InterfaceElement::Method(m) => {
                check_method(m, diagnostics);
                match lookup_range_exec(&names, m.name.as_str()) {
                    Some(prev) => {
                        let mut msg = "Duplicated method name `".to_owned();
                        msg.append(m.name.as_str());
                        msg.append("`");
                        push_info_related(
                            diagnostics,
                            DiagnosticKind::Error,
                            m.symbol_range,
                            msg,
                            Some("duplicated method name"),
                            None,
                            prev,
                            "previous location",
                        );
                    },
                    None => {
                        let is_mixed_with = match (&m.transact_code, &fw, &fwo) {
                            (Some(_), None, Some(_)) => true,
                            _ => false,
                        };
                        let is_mixed_without = match (&m.transact_code, &fwo, &fw) {
                            (None, None, Some(_)) => true,
                            _ => false,
                        };
                        if is_mixed_with {
                            let other = match &fwo {
                                Some(r) => *r,
                                None => m.transact_code_range,
                            };
                            push_info_related(
                                diagnostics,
                                DiagnosticKind::Error,
                                m.transact_code_range,
                                "Mixed usage of method ids".to_owned(),
                                None,
                                Some("Either all methods should have an id or none of them".to_owned()),
                                other,
                                "method without id",
                            );
                        } else if is_mixed_without {
                            let other = match &fw {
                                Some(r) => *r,
                                None => m.transact_code_range,
                            };
                            push_info_related(
                                diagnostics,
                                DiagnosticKind::Error,
                                m.transact_code_range,
                                "Mixed usage of method ids".to_owned(),
                                None,
                                Some("Either all methods should have an id or none of them".to_owned()),
                                other,
                                "method with id",
                            );
                        }
                        match &m.transact_code {
                            Some(v) => {
                                match lookup_id_exec(&ids, *v) {
                                    Some(prev) => {
                                        push_info_related(
                                            diagnostics,
                                            DiagnosticKind::Error,
                                            m.transact_code_range,
                                            "Duplicated method id".to_owned(),
                                            Some("duplicated method id"),
                                            None,
                                            prev,
                                            "previous method",
                                        );
                                    },
                                    None => {
                                        ids.push((*v, m.transact_code_range));
                                    },
                                }
                                if fw.is_none() {
                                    fw = Some(m.transact_code_range);
                                }
                            },
                            None => {
                                if fwo.is_none() {
                                    fwo = Some(m.transact_code_range);
                                }
                            },
                        }
                        proof {
                            assert(pair_view(names@.push((m.name, m.symbol_range))) =~= pair_view(
                                names@,
                            ).push((m.name@, m.symbol_range)));
                        }
                        names.push((m.name.clone(), m.symbol_range));
                    },
                }
            },
        }
        proof {
            assert(dview(diagnostics@) =~= before + method_elem_infos(elems, k as int));
        }
        k = k + 1;
    }
}


/// Whether `q` occurs among the resolved names.
pub open spec fn names_contain(resolved: Seq<Seq<char>>, q: Seq<char>) -> bool {
    exists|i: int| 0 <= i < resolved.len() && resolved[i] == q
}

fn names_contain_exec(resolved: &Vec<String>, q: &str) -> (r: bool)
    ensures
        r == names_contain(nview(resolved@), q@),
{
    let n = resolved.len();
    let mut i: usize = 0;
    while i < n
        invariant
            n == resolved@.len(),
            i <= n,
            forall|k: int| 0 <= k < i ==> nview(resolved@)[k] != q@,
        decreases n - i,
    {
        if str_eq(resolved[i].as_str(), q) {
            assert(nview(resolved@)[i as int] == q@);
            return true;
        }
        assert(nview(resolved@)[i as int] == resolved@[i as int]@);
        i = i + 1;
    }
    false
}

/// The views of the import bookkeeping entries: qualified name, bare
/// name, and the symbol range of the first occurrence.
pub open spec fn tview(s: Seq<(String, String, crate::ast::Range)>) -> Seq<
    (Seq<char>, Seq<char>, crate::ast::Range),
> {
    s.map_values(|p: (String, String, crate::ast::Range)| (p.0@, p.1@, p.2))
}

/// The entry recorded under the qualified name `q`, if any.
pub open spec fn lookup_qual(
    s: Seq<(Seq<char>, Seq<char>, crate::ast::Range)>,
    q: Seq<char>,
) -> Option<crate::ast::Range>
    decreases s.len(),
{
    if s.len() == 0 {
        None
    } else if s[0].0 == q {
        Some(s[0].2)
    } else {
        lookup_qual(s.drop_first(), q)
    }
}

/// The first entry whose bare name is `name`, if any.
pub open spec fn lookup_bare(
    s: Seq<(Seq<char>, Seq<char>, crate::ast::Range)>,
    name: Seq<char>,
) -> Option<(Seq<char>, crate::ast::Range)>
    decreases s.len(),
{
    if s.len() == 0 {
        None
    } else if s[0].1 == name {
        Some((s[0].0, s[0].2))
    } else {
        lookup_bare(s.drop_first(), name)
    }
}

/// The distinct imports among the first `i`, in first-occurrence order.
pub open spec fn imports_state(imports: Seq<Import>, i: int) -> Seq<
    (Seq<char>, Seq<char>, crate::ast::Range),
>
    decreases i,
{
    if i <= 0 || i > imports.len() {
        Seq::empty()
    } else {
        let st = imports_state(imports, i - 1);
        let imp = imports[i - 1];
        if lookup_qual(st, imp.spec_qualified_name()) is Some {
            st
        } else {
            st.push((imp.spec_qualified_name(), imp.name@, imp.symbol_range))
        }
    }
}

pub open spec fn dup_import_info(imp: Import, prev: crate::ast::Range) -> DiagInfo {
    DiagInfo {
        kind: DiagnosticKind::Error,
        range: imp.symbol_range,
        message: "Duplicated import `"@ + imp.spec_qualified_name() + "`"@,
        context: Some("duplicated import"@),
        hint: None,
        related: seq![
            crate::diagnostic::RelatedInfoV { range: prev, message: "previous location"@ },
        ],
    }
}

/// The duplicate-import errors among the first `i` imports: each entry
/// whose qualified name was already seen points back at the first.
pub open spec fn dup_import_infos(imports: Seq<Import>, i: int) -> Seq<DiagInfo>
    decreases i,
{
    if i <= 0 || i > imports.len() {
        Seq::empty()
    } else {
        dup_import_infos(imports, i - 1) + (match lookup_qual(
            imports_state(imports, i - 1),
            imports[i - 1].spec_qualified_name(),
        ) {
            Some(prev) => seq![dup_import_info(imports[i - 1], prev)],
            None => Seq::empty(),
        })
    }
}

pub open spec fn unresolved_import_info(q: Seq<char>, range: crate::ast::Range) -> DiagInfo {
    DiagInfo {
        kind: DiagnosticKind::Warning,
        range,
        message: "Unresolved import `"@ + q + "`"@,
        context: Some("unresolved import"@),
        hint: Some("Note: this is fine if your client is able to import the same item"@),
        related: Seq::empty(),
    }
}

pub open spec fn unused_import_info(q: Seq<char>, range: crate::ast::Range) -> DiagInfo {
    DiagInfo {
        kind: DiagnosticKind::Warning,
        range,
        message: "Unused import `"@ + q + "`"@,
        context: Some("unused import"@),
        hint: None,
        related: Seq::empty(),
    }
}

/// The follow-up warnings on the first `i` distinct imports: an import
/// whose target is neither in the project table nor a builtin is
/// unresolved; one whose name was never referenced is unused.
pub open spec fn import_followup_infos(
    st: Seq<(Seq<char>, Seq<char>, crate::ast::Range)>,
    i: int,
    table: Seq<(String, ResolvedItemKind)>,
    resolved: Seq<Seq<char>>,
) -> Seq<DiagInfo>
    decreases i,
{
    if i <= 0 || i > st.len() {
        Seq::empty()
    } else {
        let entry = st[i - 1];
        import_followup_infos(st, i - 1, table, resolved) + (if table_lookup(table, entry.0)
            is None && AndroidTypeKind::spec_from_qualified_name(entry.0) is None {
            seq![unresolved_import_info(entry.0, entry.2)]
        } else if !names_contain(resolved, entry.0) {
            seq![unused_import_info(entry.0, entry.2)]
        } else {
            Seq::empty()
        })
    }
}

/// Check the unit's imports: duplicated entries, then unresolved and
/// unused ones. Returns the distinct imports (qualified name, bare name,
/// first range), which the forward-declaration check reads.
pub fn check_imports(
    imports: &Vec<Import>,
    resolved: &Vec<String>,
    table: &Vec<(String, ResolvedItemKind)>,
    diagnostics: &mut Vec<Diagnostic>,
) -> (map: Vec<(String, String, crate::ast::Range)>)
    ensures
        tview(map@) == imports_state(imports@, imports@.len() as int),
        dview(final(diagnostics)@) == dview(old(diagnostics)@) + dup_import_infos(
            imports@,
            imports@.len() as int,
        ) + import_followup_infos(
            imports_state(imports@, imports@.len() as int),
            imports_state(imports@, imports@.len() as int).len() as int,
            table@,
            nview(resolved@),
        ),
{
    let ghost base = dview(diagnostics@);
    let mut map: Vec<(String, String, crate::ast::Range)> = Vec::new();
    let n = imports.len();
    let mut k: usize = 0;
    while k < n
        invariant
            n == imports@.len(),
            k <= n,
            tview(map@) == imports_state(imports@, k as int),
            dview(diagnostics@) == base + dup_import_infos(imports@, k as int),
        decreases n - k,
    {
        let imp = &imports[k];
        let q = imp.get_qualified_name();
        match lookup_qual_exec(&map, q.as_str()) {
            Some(prev) => {
                let mut msg = "Duplicated import `".to_owned();
                msg.append(q.as_str());
                msg.append("`");
                push_info_related(
                    diagnostics,
                    DiagnosticKind::Error,
                    imp.symbol_range,
                    msg,
                    Some("duplicated import"),
                    None,
                    prev,
                    "previous location",
                );
            },
            None => {
                proof {
                    assert(tview(map@.push((q, imp.name, imp.symbol_range))) =~= tview(
                        map@,
                    ).push((q@, imp.name@, imp.symbol_range)));
                }
                map.push((q, imp.name.clone(), imp.symbol_range));
            },
        }
        k = k + 1;
    }
    let ghost st = imports_state(imports@, imports@.len() as int);
    let ghost base2 = dview(diagnostics@);
    let m = map.len();
    let mut j: usize = 0;
    while j < m
        invariant
            m == map@.len(),
            j <= m,
            tview(map@) == st,
            dview(diagnostics@) == base2 + import_followup_infos(
                st,
                j as int,
                table@,
                nview(resolved@),
            ),
        decreases m - j,
    {
        let q = &map[j].0;
        let in_table = match table_lookup_exec(table, q.as_str()) {
            Some(_) => true,
            None => false,
        };
        let is_builtin = AndroidTypeKind::is_android_type_kind(q.as_str());
        if !in_table && !is_builtin {
            let mut msg = "Unresolved import `".to_owned();
            msg.append(q.as_str());
            msg.append("`");
            push_info(
                diagnostics,
                DiagnosticKind::Warning,
                map[j].2,
                msg,
                "unresolved import",
                Some("Note: this is fine if your client is able to import the same item".to_owned()),
            );
        } else if !names_contain_exec(resolved, q.as_str()) {
            let mut msg = "Unused import `".to_owned();
            msg.append(q.as_str());
            msg.append("`");
            push_info(
                diagnostics,
                DiagnosticKind::Warning,
                map[j].2,
                msg,
                "unused import",
                None,
            );
        }
        proof {
            assert(tview(map@)[j as int] == (map@[j as int].0@, map@[j as int].1@, map@[j as int].2));
        }
        j = j + 1;
    }
    map
}

fn lookup_qual_exec(s: &Vec<(String, String, crate::ast::Range)>, q: &str) -> (r: Option<
    crate::ast::Range,
>)
    ensures
        r == lookup_qual(tview(s@), q@),
{
    let n = s.len();
    let mut i: usize = 0;
    proof {
        assert(tview(s@).skip(0) =~= tview(s@));
    }
    while i < n
        invariant
            n == s@.len(),
            i <= n,
            lookup_qual(tview(s@), q@) == lookup_qual(tview(s@).skip(i as int), q@),
        decreases n - i,
    {
        proof {
            assert(tview(s@).skip(i as int)[0] == tview(s@)[i as int]);
            assert(tview(s@).skip(i as int).drop_first() =~= tview(s@).skip(i + 1));
        }
        if str_eq(s[i].0.as_str(), q) {
            return Some(s[i].2);
        }
        i = i + 1;
    }
    proof {
        assert(tview(s@).skip(n as int) =~= Seq::<(Seq<char>, Seq<char>, crate::ast::Range)>::empty());
    }
    None
}

fn lookup_bare_exec(s: &Vec<(String, String, crate::ast::Range)>, name: &str) -> (r: Option<
    (String, crate::ast::Range),
>)
    ensures
        match r {
            Some(p) => lookup_bare(tview(s@), name@) == Some((p.0@, p.1)),
            None => lookup_bare(tview(s@), name@) is None,
        },
{
    let n = s.len();
    let mut i: usize = 0;
    proof {
        assert(tview(s@).skip(0) =~= tview(s@));
    }
    while i < n
        invariant
            n == s@.len(),
            i <= n,
            lookup_bare(tview(s@), name@) == lookup_bare(tview(s@).skip(i as int), name@),
        decreases n - i,
    {
        proof {
            assert(tview(s@).skip(i as int)[0] == tview(s@)[i as int]);
            assert(tview(s@).skip(i as int).drop_first() =~= tview(s@).skip(i + 1));
        }
        if str_eq(s[i].1.as_str(), name) {
            return Some((s[i].0.clone(), s[i].2));
        }
        i = i + 1;
    }
    proof {
        assert(tview(s@).skip(n as int) =~= Seq::<(Seq<char>, Seq<char>, crate::ast::Range)>::empty());
    }
    None
}


/// The views of the forward-declaration bookkeeping entries: qualified
/// name, bare name, symbol range and full range of the first occurrence.
pub open spec fn qview(s: Seq<(String, String, crate::ast::Range, crate::ast::Range)>) -> Seq<
    (Seq<char>, Seq<char>, crate::ast::Range, crate::ast::Range),
> {
    s.map_values(
        |p: (String, String, crate::ast::Range, crate::ast::Range)| (p.0@, p.1@, p.2, p.3),
    )
}

pub open spec fn lookup_qual4(
    s: Seq<(Seq<char>, Seq<char>, crate::ast::Range, crate::ast::Range)>,
    q: Seq<char>,
) -> Option<crate::ast::Range>
    decreases s.len(),
{
    if s.len() == 0 {
        None
    } else if s[0].0 == q {
        Some(s[0].2)
    } else {
        lookup_qual4(s.drop_first(), q)
    }
}

/// Whether the declaration at index `j` collides with an import's bare
/// name, and with which.
pub open spec fn decl_conflict(
    declared: Seq<Import>,
    j: int,
    imports_map: Seq<(Seq<char>, Seq<char>, crate::ast::Range)>,
) -> Option<(Seq<char>, crate::ast::Range)> {
    lookup_bare(imports_map, declared[j].name@)
}

/// The distinct, non-conflicting declarations among the first `i`.
pub open spec fn decls_state(
    declared: Seq<Import>,
    i: int,
    imports_map: Seq<(Seq<char>, Seq<char>, crate::ast::Range)>,
) -> Seq<(Seq<char>, Seq<char>, crate::ast::Range, crate::ast::Range)>
    decreases i,
{
    if i <= 0 || i > declared.len() {
        Seq::empty()
    } else {
        let st = decls_state(declared, i - 1, imports_map);
        let d = declared[i - 1];
        if decl_conflict(declared, i - 1, imports_map) is Some {
            st
        } else if lookup_qual4(st, d.spec_qualified_name()) is Some {
            st
        } else {
            st.push((d.spec_qualified_name(), d.name@, d.symbol_range, d.full_range))
        }
    }
}

pub open spec fn conflict_decl_info(
    d: Import,
    import_q: Seq<char>,
    import_range: crate::ast::Range,
) -> DiagInfo {
    DiagInfo {
        kind: DiagnosticKind::Error,
        range: d.symbol_range,
        message: "Declared parcelable conflicts with import `"@ + import_q + "`"@,
        context: Some("conflicting declaration"@),
        hint: None,
        related: seq![
            crate::diagnostic::RelatedInfoV {
                range: import_range,
                message: "location of conflicting import"@,
            },
        ],
    }
}

pub open spec fn multiple_decl_info(d: Import, prev: crate::ast::Range) -> DiagInfo {
    DiagInfo {
        kind: DiagnosticKind::Error,
        range: d.symbol_range,
        message: "Multiple parcelable declarations `"@ + d.spec_qualified_name() + "`"@,
        context: Some("duplicated declaration"@),
        hint: None,
        related: seq![
            crate::diagnostic::RelatedInfoV { range: prev, message: "previous location"@ },
        ],
    }
}

/// The conflict and duplicate errors among the first `i` declarations.
pub open spec fn decl_dup_infos(
    declared: Seq<Import>,
    i: int,
    imports_map: Seq<(Seq<char>, Seq<char>, crate::ast::Range)>,
) -> Seq<DiagInfo>
    decreases i,
{
    if i <= 0 || i > declared.len() {
        Seq::empty()
    } else {
        let d = declared[i - 1];
        decl_dup_infos(declared, i - 1, imports_map) + (match decl_conflict(
            declared,
            i - 1,
            imports_map,
        ) {
            Some(c) => seq![conflict_decl_info(d, c.0, c.1)],
            None => match lookup_qual4(
                decls_state(declared, i - 1, imports_map),
                d.spec_qualified_name(),
            ) {
                Some(prev) => seq![multiple_decl_info(d, prev)],
                None => Seq::empty(),
            },
        })
    }
}

pub open spec fn unused_decl_info(name: Seq<char>, range: crate::ast::Range) -> DiagInfo {
    DiagInfo {
        kind: DiagnosticKind::Warning,
        range,
        message: "Unused declared parcelable `"@ + name + "`"@,
        context: Some("unused declared parcelable"@),
        hint: None,
        related: Seq::empty(),
    }
}

pub open spec fn used_decl_info(name: Seq<char>, range: crate::ast::Range) -> DiagInfo {
    DiagInfo {
        kind: DiagnosticKind::Warning,
        range,
        message: "Usage of declared parcelable `"@ + name + "`"@,
        context: Some("declared parcelable"@),
        hint: Some(
            "It is recommended to define parcelables in AIDL to guarantee compatibility between languages"@,
        ),
        related: Seq::empty(),
    }
}

/// The follow-up warnings on the first `i` distinct declarations: a
/// declaration never referenced is unused; a referenced one still draws a
/// recommendation to declare the parcelable properly.
pub open spec fn decl_followup_infos(
    st: Seq<(Seq<char>, Seq<char>, crate::ast::Range, crate::ast::Range)>,
    i: int,
    resolved: Seq<Seq<char>>,
) -> Seq<DiagInfo>
    decreases i,
{
    if i <= 0 || i > st.len() {
        Seq::empty()
    } else {
        let entry = st[i - 1];
        decl_followup_infos(st, i - 1, resolved) + (if !names_contain(resolved, entry.0) {
            seq![unused_decl_info(entry.1, entry.2)]
        } else {
            seq![used_decl_info(entry.1, entry.3)]
        })
    }
}

/// Check the unit's forward parcelable declarations: collisions with an
/// import's bare name, duplicated declarations, and whether each is used.
pub fn check_declared_parcelables(
    declared: &Vec<Import>,
    imports_map: &Vec<(String, String, crate::ast::Range)>,
    resolved: &Vec<String>,
    diagnostics: &mut Vec<Diagnostic>,
)
    ensures
        dview(final(diagnostics)@) == dview(old(diagnostics)@) + decl_dup_infos(
            declared@,
            declared@.len() as int,
            tview(imports_map@),
        ) + decl_followup_infos(
            decls_state(declared@, declared@.len() as int, tview(imports_map@)),
            decls_state(declared@, declared@.len() as int, tview(imports_map@)).len() as int,
            nview(resolved@),
        ),
{
    let ghost base = dview(diagnostics@);
    let mut map: Vec<(String, String, crate::ast::Range, crate::ast::Range)> = Vec::new();
    let n = declared.len();
    let mut k: usize = 0;
    while k < n
        invariant
            n == declared@.len(),
            k <= n,
            qview(map@) == decls_state(declared@, k as int, tview(imports_map@)),
            dview(diagnostics@) == base + decl_dup_infos(declared@, k as int, tview(imports_map@)),
        decreases n - k,
    {
        let d = &declared[k];
        let q = d.get_qualified_name();
        match lookup_bare_exec(imports_map, d.name.as_str()) {
            Some((import_q, import_range)) => {
                let mut msg = "Declared parcelable conflicts with import `".to_owned();
                msg.append(import_q.as_str());
                msg.append("`");
                push_info_related(
                    diagnostics,
                    DiagnosticKind::Error,
                    d.symbol_range,
                    msg,
                    Some("conflicting declaration"),
                    None,
                    import_range,
                    "location of conflicting import",
                );
            },
            None => {
                match lookup_qual4_exec(&map, q.as_str()) {
                    Some(prev) => {
                        let mut msg = "Multiple parcelable declarations `".to_owned();
                        msg.append(q.as_str());
                        msg.append("`");
                        push_info_related(
                            diagnostics,
                            DiagnosticKind::Error,
                            d.symbol_range,
                            msg,
                            Some("duplicated declaration"),
                            None,
                            prev,
                            "previous location",
                        );
                    },
                    None => {
                        proof {
                            assert(qview(map@.push((q, d.name, d.symbol_range, d.full_range)))
                                =~= qview(map@).push((q@, d.name@, d.symbol_range, d.full_range)));
                        }
                        map.push((q, d.name.clone(), d.symbol_range, d.full_range));
                    },
                }
            },
        }
        k = k + 1;
    }
    let ghost st = decls_state(declared@, declared@.len() as int, tview(imports_map@));
    let ghost base2 = dview(diagnostics@);
    let m = map.len();
    let mut j: usize = 0;
    while j < m
        invariant
            m == map@.len(),
            j <= m,
            qview(map@) == st,
            dview(diagnostics@) == base2 + decl_followup_infos(st, j as int, nview(resolved@)),
        decreases m - j,
    {
        proof {
            assert(qview(map@)[j as int] == (
                map@[j as int].0@,
                map@[j as int].1@,
                map@[j as int].2,
                map@[j as int].3,
            ));
        }
        if !names_contain_exec(resolved, map[j].0.as_str()) {
            let mut msg = "Unused declared parcelable `".to_owned();
            msg.append(map[j].1.as_str());
            msg.append("`");
            push_info(
                diagnostics,
                DiagnosticKind::Warning,
                map[j].2,
                msg,
                "unused declared parcelable",
                None,
            );
        } else {
            let mut msg = "Usage of declared parcelable `".to_owned();
            msg.append(map[j].1.as_str());
            msg.append("`");
            push_info(
                diagnostics,
                DiagnosticKind::Warning,
                map[j].3,
                msg,
                "declared parcelable",
                Some(
                    "It is recommended to define parcelables in AIDL to guarantee compatibility between languages".to_owned(),
                ),
            );
        }
        j = j + 1;
    }
}

fn lookup_qual4_exec(
    s: &Vec<(String, String, crate::ast::Range, crate::ast::Range)>,
    q: &str,
) -> (r: Option<crate::ast::Range>)
    ensures
        r == lookup_qual4(qview(s@), q@),
{
    let n = s.len();
    let mut i: usize = 0;
    proof {
        assert(qview(s@).skip(0) =~= qview(s@));
    }
    while i < n
        invariant
            n == s@.len(),
            i <= n,
            lookup_qual4(qview(s@), q@) == lookup_qual4(qview(s@).skip(i as int), q@),
        decreases n - i,
    {
        proof {
            assert(qview(s@).skip(i as int)[0] == qview(s@)[i as int]);
            assert(qview(s@).skip(i as int).drop_first() =~= qview(s@).skip(i + 1));
        }
        if str_eq(s[i].0.as_str(), q) {
            return Some(s[i].2);
        }
        i = i + 1;
    }
    proof {
        assert(qview(s@).skip(n as int) =~= Seq::<
            (Seq<char>, Seq<char>, crate::ast::Range, crate::ast::Range),
        >::empty());
    }
    None
}

/// The 1-based line a diagnostic starts on.
pub open spec fn diag_line(d: DiagInfo) -> int {
    d.range.start.line_col.0 as int
}

/// `d` inserted behind every element of the sorted `s` whose line does
/// not exceed its own: a stable insertion.
pub open spec fn spec_insert_by_line(s: Seq<DiagInfo>, d: DiagInfo) -> Seq<DiagInfo>
    decreases s.len(),
{
    if s.len() == 0 {
        seq![d]
    } else if diag_line(s.last()) <= diag_line(d) {
        s.push(d)
    } else {
        spec_insert_by_line(s.drop_last(), d).push(s.last())
    }
}

/// The diagnostics sorted by ascending start line, stably: elements on
/// one line keep their order.
pub open spec fn spec_sort_by_line(s: Seq<DiagInfo>) -> Seq<DiagInfo>
    decreases s.len(),
{
    if s.len() == 0 {
        Seq::empty()
    } else {
        spec_insert_by_line(spec_sort_by_line(s.drop_last()), s.last())
    }
}

fn insert_by_line(out: &mut Vec<Diagnostic>, d: Diagnostic)
    ensures
        dview(final(out)@) == spec_insert_by_line(dview(old(out)@), d@),
    decreases old(out)@.len(),
{
    let n = out.len();
    if n == 0 {
        proof {
            lemma_dview_push(out@, d);
            assert(dview(out@).push(d@) =~= seq![d@]);
        }
        out.push(d);
        return ;
    }
    if out[n - 1].range.start.line_col.0 <= d.range.start.line_col.0 {
        proof {
            assert(dview(out@)[n - 1] == out@[n - 1]@);
            lemma_dview_push(out@, d);
        }
        out.push(d);
    } else {
        proof {
            assert(dview(out@)[n - 1] == out@[n - 1]@);
        }
        let last = match out.pop() {
            Some(x) => x,
            None => {
                return ;
            },
        };
        proof {
            assert(dview(out@) =~= dview(old(out)@).drop_last());
            assert(last@ == dview(old(out)@).last());
        }
        insert_by_line(out, d);
        proof {
            lemma_dview_push(out@, last);
        }
        out.push(last);
    }
}

/// Sort the unit's diagnostics by ascending start line as the final step;
/// diagnostics on the same line keep their relative order.
pub fn sort_diagnostics(diagnostics: &mut Vec<Diagnostic>)
    ensures
        dview(final(diagnostics)@) == spec_sort_by_line(dview(old(diagnostics)@)),
{
    let mut out: Vec<Diagnostic> = Vec::new();
    let mut rest: Vec<Diagnostic> = Vec::new();
    core::mem::swap(diagnostics, &mut rest);
    let n = rest.len();
    let ghost all = rest@;
    let mut k: usize = 0;
    proof {
        assert(dview(all.take(0)) =~= Seq::<DiagInfo>::empty());
        assert(dview(Seq::<Diagnostic>::empty()) =~= Seq::<DiagInfo>::empty());
    }
    while k < n
        invariant
            n == all.len(),
            k <= n,
            rest@ =~= all.skip(k as int),
            dview(out@) == spec_sort_by_line(dview(all.take(k as int))),
        decreases n - k,
    {
        proof {
            assert(all.skip(k as int)[0] == all[k as int]);
        }
        let d = rest.remove(0);
        proof {
            assert(rest@ =~= all.skip(k + 1));
            assert(dview(all.take(k + 1)).drop_last() =~= dview(all.take(k as int)));
            assert(dview(all.take(k + 1)).last() == all[k as int]@);
        }
        insert_by_line(&mut out, d);
        k = k + 1;
    }
    proof {
        assert(all.take(n as int) =~= all);
    }
    *diagnostics = out;
}

/// Sorting never loses or invents a diagnostic: the sorted list is a
/// permutation of its input.
pub proof fn lemma_sort_by_line_permutes(s: Seq<DiagInfo>)
    ensures
        spec_sort_by_line(s).to_multiset() == s.to_multiset(),
    decreases s.len(),
{
    broadcast use vstd::seq_lib::group_to_multiset_ensures;

    if s.len() > 0 {
        lemma_sort_by_line_permutes(s.drop_last());
        lemma_insert_by_line_permutes(spec_sort_by_line(s.drop_last()), s.last());
        assert(s.drop_last().push(s.last()) =~= s);
        assert(s.drop_last().to_multiset().insert(s.last()) == s.to_multiset()) by {
            assert(s.drop_last().push(s.last()).to_multiset() == s.drop_last().to_multiset().insert(
                s.last(),
            ));
        }
    }
}

proof fn lemma_insert_by_line_permutes(s: Seq<DiagInfo>, d: DiagInfo)
    ensures
        spec_insert_by_line(s, d).to_multiset() == s.to_multiset().insert(d),
    decreases s.len(),
{
    broadcast use vstd::seq_lib::group_to_multiset_ensures;

    if s.len() == 0 {
        assert(seq![d] =~= Seq::<DiagInfo>::empty().push(d));
    } else if diag_line(s.last()) <= diag_line(d) {
    } else {
        lemma_insert_by_line_permutes(s.drop_last(), d);
        assert(s.drop_last().push(s.last()) =~= s);
    }
}

/// The sorted list is ordered by ascending start line.
pub proof fn lemma_sort_by_line_sorted(s: Seq<DiagInfo>)
    ensures
        forall|i: int, j: int|
            0 <= i <= j < spec_sort_by_line(s).len() ==> diag_line(
                #[trigger] spec_sort_by_line(s)[i],
            ) <= diag_line(#[trigger] spec_sort_by_line(s)[j]),
    decreases s.len(),
{
    if s.len() > 0 {
        lemma_sort_by_line_sorted(s.drop_last());
        lemma_insert_by_line_sorted(spec_sort_by_line(s.drop_last()), s.last());
    }
}

proof fn lemma_insert_by_line_sorted(s: Seq<DiagInfo>, d: DiagInfo)
    requires
        forall|i: int, j: int|
            0 <= i <= j < s.len() ==> diag_line(#[trigger] s[i]) <= diag_line(#[trigger] s[j]),
    ensures
        forall|i: int, j: int|
            0 <= i <= j < spec_insert_by_line(s, d).len() ==> diag_line(
                #[trigger] spec_insert_by_line(s, d)[i],
            ) <= diag_line(#[trigger] spec_insert_by_line(s, d)[j]),
    decreases s.len(),
{
    if s.len() == 0 {
    } else if diag_line(s.last()) <= diag_line(d) {
        assert forall|i: int, j: int|
            0 <= i <= j < spec_insert_by_line(s, d).len() implies diag_line(
            #[trigger] spec_insert_by_line(s, d)[i],
        ) <= diag_line(#[trigger] spec_insert_by_line(s, d)[j]) by {
            if j < s.len() {
            } else {
                assert(spec_insert_by_line(s, d)[j] == d);
                if i < s.len() {
                    assert(diag_line(s[i]) <= diag_line(s[s.len() - 1]));
                }
            }
        }
    } else {
        assert forall|i: int, j: int| 0 <= i <= j < s.drop_last().len() implies diag_line(
            #[trigger] s.drop_last()[i],
        ) <= diag_line(#[trigger] s.drop_last()[j]) by {
            assert(s.drop_last()[i] == s[i]);
            assert(s.drop_last()[j] == s[j]);
        }
        lemma_insert_by_line_sorted(s.drop_last(), d);
        let inner = spec_insert_by_line(s.drop_last(), d);
        lemma_insert_by_line_last_bound(s.drop_last(), d);
        assert forall|i: int, j: int|
            0 <= i <= j < spec_insert_by_line(s, d).len() implies diag_line(
            #[trigger] spec_insert_by_line(s, d)[i],
        ) <= diag_line(#[trigger] spec_insert_by_line(s, d)[j]) by {
            if j < inner.len() {
                assert(spec_insert_by_line(s, d)[i] == inner[i]);
                assert(spec_insert_by_line(s, d)[j] == inner[j]);
            } else {
                assert(spec_insert_by_line(s, d)[j] == s.last());
                if i < inner.len() {
                    assert(spec_insert_by_line(s, d)[i] == inner[i]);
                }
            }
        }
    }
}

/// Every element of an insertion result is bounded by the larger of the
/// inserted line and the old elements' lines.
proof fn lemma_insert_by_line_last_bound(s: Seq<DiagInfo>, d: DiagInfo)
    requires
        forall|i: int, j: int|
            0 <= i <= j < s.len() ==> diag_line(#[trigger] s[i]) <= diag_line(#[trigger] s[j]),
    ensures
        forall|i: int|
            0 <= i < spec_insert_by_line(s, d).len() ==> diag_line(
                #[trigger] spec_insert_by_line(s, d)[i],
            ) <= if s.len() > 0 && diag_line(s.last()) > diag_line(d) {
                diag_line(s.last())
            } else {
                diag_line(d)
            },
    decreases s.len(),
{
    if s.len() == 0 {
    } else if diag_line(s.last()) <= diag_line(d) {
    } else {
        assert forall|i: int, j: int| 0 <= i <= j < s.drop_last().len() implies diag_line(
            #[trigger] s.drop_last()[i],
        ) <= diag_line(#[trigger] s.drop_last()[j]) by {
            assert(s.drop_last()[i] == s[i]);
            assert(s.drop_last()[j] == s[j]);
        }
        lemma_insert_by_line_last_bound(s.drop_last(), d);
        if s.len() >= 2 {
            assert(diag_line(s[s.len() - 2]) <= diag_line(s[s.len() - 1]));
            assert(s.drop_last().last() == s[s.len() - 2]);
        }
        let inner = spec_insert_by_line(s.drop_last(), d);
        assert forall|i: int| 0 <= i < spec_insert_by_line(s, d).len() implies diag_line(
            #[trigger] spec_insert_by_line(s, d)[i],
        ) <= diag_line(s.last()) by {
            if i < inner.len() {
                assert(spec_insert_by_line(s, d)[i] == inner[i]);
            } else {
                assert(spec_insert_by_line(s, d)[i] == s.last());
            }
        }
    }
}


/// The container diagnostics of the types of the first `i` arguments.
pub open spec fn cont_args_infos(args: Seq<Arg>, i: int) -> Seq<DiagInfo>
    decreases i,
{
    if i <= 0 || i > args.len() {
        Seq::empty()
    } else {
        cont_args_infos(args, i - 1) + container_walk_infos(args[i - 1].arg_type)
    }
}

/// The container diagnostics of one interface element.
pub open spec fn cont_ielem_infos(e: InterfaceElement) -> Seq<DiagInfo> {
    match e {
        InterfaceElement::Const(c) => container_walk_infos(c.const_type),
        InterfaceElement::Method(m) => container_walk_infos(m.return_type) + cont_args_infos(
            m.args@,
            m.args@.len() as int,
        ),
    }
}

pub open spec fn cont_ielems_infos(elems: Seq<InterfaceElement>, i: int) -> Seq<DiagInfo>
    decreases i,
{
    if i <= 0 || i > elems.len() {
        Seq::empty()
    } else {
        cont_ielems_infos(elems, i - 1) + cont_ielem_infos(elems[i - 1])
    }
}

pub open spec fn cont_pelem_infos(e: ParcelableElement) -> Seq<DiagInfo> {
    match e {
        ParcelableElement::Const(c) => container_walk_infos(c.const_type),
        ParcelableElement::Field(f) => container_walk_infos(f.field_type),
    }
}

pub open spec fn cont_pelems_infos(elems: Seq<ParcelableElement>, i: int) -> Seq<DiagInfo>
    decreases i,
{
    if i <= 0 || i > elems.len() {
        Seq::empty()
    } else {
        cont_pelems_infos(elems, i - 1) + cont_pelem_infos(elems[i - 1])
    }
}

/// The container diagnostics of a whole unit.
pub open spec fn item_container_infos(item: Item) -> Seq<DiagInfo> {
    match item {
        Item::Interface(i) => cont_ielems_infos(i.elements@, i.elements@.len() as int),
        Item::Parcelable(p) => cont_pelems_infos(p.elements@, p.elements@.len() as int),
        Item::Enum(_) => Seq::empty(),
    }
}

/// Apply the container element rules to every type of the unit.
pub fn check_containers(ast: &Aidl, diagnostics: &mut Vec<Diagnostic>)
    ensures
        dview(final(diagnostics)@) == dview(old(diagnostics)@) + item_container_infos(ast.item),
{
    let ghost base = dview(diagnostics@);
    match &ast.item {
        Item::Interface(i) => {
            let n = i.elements.len();
            let mut k: usize = 0;
            while k < n
                invariant
                    n == i.elements@.len(),
                    k <= n,
                    dview(diagnostics@) == base + cont_ielems_infos(i.elements@, k as int),
                decreases n - k,
            {
                let ghost before = dview(diagnostics@);
                match &i.elements[k] {
                    InterfaceElement::Const(c) => {
                        check_container_tree(&c.const_type, diagnostics);
                    },
                    InterfaceElement::Method(m) => {
                        check_container_tree(&m.return_type, diagnostics);
                        let ghost mid = dview(diagnostics@);
                        let an = m.args.len();
                        let mut j: usize = 0;
                        while j < an
                            invariant
                                an == m.args@.len(),
                                j <= an,
                                dview(diagnostics@) == mid + cont_args_infos(m.args@, j as int),
                            decreases an - j,
                        {
                            check_container_tree(&m.args[j].arg_type, diagnostics);
                            j = j + 1;
                        }
                    },
                }
                proof {
                    assert(dview(diagnostics@) =~= base + cont_ielems_infos(i.elements@, k + 1));
                }
                k = k + 1;
            }
        },
        Item::Parcelable(p) => {
            let n = p.elements.len();
            let mut k: usize = 0;
            while k < n
                invariant
                    n == p.elements@.len(),
                    k <= n,
                    dview(diagnostics@) == base + cont_pelems_infos(p.elements@, k as int),
                decreases n - k,
            {
                match &p.elements[k] {
                    ParcelableElement::Const(c) => {
                        check_container_tree(&c.const_type, diagnostics);
                    },
                    ParcelableElement::Field(f) => {
                        check_container_tree(&f.field_type, diagnostics);
                    },
                }
                proof {
                    assert(dview(diagnostics@) =~= base + cont_pelems_infos(p.elements@, k + 1));
                }
                k = k + 1;
            }
        },
        Item::Enum(_) => {
            proof {
                assert(dview(diagnostics@) =~= base + item_container_infos(ast.item));
            }
        },
    }
}


/// What the oneway propagation does to a whole item: only a oneway
/// interface changes, and only by forcing its methods to oneway.
pub open spec fn oneway_applied(a: Item, b: Item) -> bool {
    match (a, b) {
        (Item::Interface(i), Item::Interface(i2)) => {
            if !i.oneway {
                i2 == i
            } else {
                &&& i2.oneway == i.oneway
                &&& i2.name == i.name
                &&& i2.annotations == i.annotations
                &&& i2.doc == i.doc
                &&& i2.full_range == i.full_range
                &&& i2.symbol_range == i.symbol_range
                &&& i2.elements@.len() == i.elements@.len()
                &&& forall|k: int|
                    0 <= k < i.elements@.len() ==> oneway_setup_elem(
                        #[trigger] i.elements@[k],
                        i2.elements@[k],
                    )
            }
        },
        _ => b == a,
    }
}

/// The warnings the oneway propagation leaves on a whole item.
pub open spec fn item_oneway_infos(item: Item) -> Seq<DiagInfo> {
    match item {
        Item::Interface(i) => {
            if i.oneway {
                oneway_setup_infos(i.elements@, i.elements@.len() as int, i.symbol_range)
            } else {
                Seq::empty()
            }
        },
        _ => Seq::empty(),
    }
}

/// The interface-wide method diagnostics of a whole item.
pub open spec fn item_methods_infos(item: Item) -> Seq<DiagInfo> {
    match item {
        Item::Interface(i) => check_methods_infos(i.elements@, i.elements@.len() as int),
        _ => Seq::empty(),
    }
}

/// Everything the resolution and validation passes append to one unit's
/// diagnostics, in pass order and before the final sort: unresolvable
/// type references; duplicated, unresolved and unused imports; forward
/// declaration hygiene; the container element rules on the resolved item;
/// the oneway propagation warnings; and the interface-wide method rules
/// on the final item.
pub open spec fn pipeline_infos(
    a0: Aidl,
    resolved_item: Item,
    final_item: Item,
    imps: Seq<String>,
    decls: Seq<String>,
    table: Seq<(String, ResolvedItemKind)>,
) -> Seq<DiagInfo> {
    let names = item_names(a0.item, imps, decls, table);
    let ist = imports_state(a0.imports@, a0.imports@.len() as int);
    let dst = decls_state(
        a0.declared_parcelables@,
        a0.declared_parcelables@.len() as int,
        ist,
    );
    item_infos(a0.item, imps, decls, table) + dup_import_infos(
        a0.imports@,
        a0.imports@.len() as int,
    ) + import_followup_infos(ist, ist.len() as int, table, names) + decl_dup_infos(
        a0.declared_parcelables@,
        a0.declared_parcelables@.len() as int,
        ist,
    ) + decl_followup_infos(dst, dst.len() as int, names) + item_container_infos(resolved_item)
        + item_oneway_infos(resolved_item) + item_methods_infos(final_item)
}

} // verus!
