//! Addressable projections of the tree: every node a query can yield,
//! together with its owning parent where one is meaningful, its ranges,
//! and its rendered detail and signature strings.

use vstd::prelude::*;
use vstd::string::StringExecFns;

use crate::ast::Arg;
use crate::ast::Const;
use crate::ast::Direction;
use crate::ast::Enum;
use crate::ast::EnumElement;
use crate::ast::Field;
use crate::ast::Import;
use crate::ast::Interface;
use crate::ast::Method;
use crate::ast::Package;
use crate::ast::Parcelable;
use crate::ast::Range;
use crate::ast::Type;
use crate::ast::TypeKind;
use crate::ast::spec_dotted;
use crate::ast::dotted;

verus! {

/// The declaration a constant belongs to.
#[derive(Debug, Clone, Copy)]
pub enum ConstOwner<'a> {
    Interface(&'a Interface),
    Parcelable(&'a Parcelable),
}

/// One queryable node of a resolved tree, together with its owning parent
/// where qualified names need one.
#[derive(Debug, Clone, Copy)]
pub enum Symbol<'a> {
    Package(&'a Package),
    Import(&'a Import),
    Interface(&'a Interface, &'a Package),
    Parcelable(&'a Parcelable, &'a Package),
    Enum(&'a Enum, &'a Package),
    Method(&'a Method, &'a Interface),
    Arg(&'a Arg, &'a Method),
    Const(&'a Const, ConstOwner<'a>),
    Field(&'a Field, &'a Parcelable),
    EnumElement(&'a EnumElement, &'a Enum),
    Type(&'a Type),
}

/// The mathematical content of a symbol: the referenced nodes as values.
pub ghost enum SymDesc {
    Package(Package),
    Import(Import),
    Interface(Interface, Package),
    Parcelable(Parcelable, Package),
    Enum(Enum, Package),
    Method(Method, Interface),
    Arg(Arg, Method),
    ConstOfInterface(Const, Interface),
    ConstOfParcelable(Const, Parcelable),
    Field(Field, Parcelable),
    EnumElement(EnumElement, Enum),
    Type(Type),
}

impl<'a> View for Symbol<'a> {
    type V = SymDesc;

    open spec fn view(&self) -> SymDesc {
        match self {
            Symbol::Package(p) => SymDesc::Package(**p),
            Symbol::Import(i) => SymDesc::Import(**i),
            Symbol::Interface(i, pkg) => SymDesc::Interface(**i, **pkg),
            Symbol::Parcelable(p, pkg) => SymDesc::Parcelable(**p, **pkg),
            Symbol::Enum(e, pkg) => SymDesc::Enum(**e, **pkg),
            Symbol::Method(m, i) => SymDesc::Method(**m, **i),
            Symbol::Arg(a, m) => SymDesc::Arg(**a, **m),
            Symbol::Const(c, owner) => match owner {
                ConstOwner::Interface(i) => SymDesc::ConstOfInterface(**c, **i),
                ConstOwner::Parcelable(p) => SymDesc::ConstOfParcelable(**c, **p),
            },
            Symbol::Field(f, p) => SymDesc::Field(**f, **p),
            Symbol::EnumElement(el, e) => SymDesc::EnumElement(**el, **e),
            Symbol::Type(t) => SymDesc::Type(**t),
        }
    }
}

/// The name a symbol answers to; an unnamed argument has none.
pub open spec fn spec_symbol_name(s: SymDesc) -> Option<Seq<char>> {
    match s {
        SymDesc::Package(p) => Some(p.name@),
        SymDesc::Import(i) => Some(i.spec_qualified_name()),
        SymDesc::Interface(i, _) => Some(i.name@),
        SymDesc::Parcelable(p, _) => Some(p.name@),
        SymDesc::Enum(e, _) => Some(e.name@),
        SymDesc::Method(m, _) => Some(m.name@),
        SymDesc::Arg(a, _) => match a.name {
            Some(n) => Some(n@),
            None => None,
        },
        SymDesc::ConstOfInterface(c, _) => Some(c.name@),
        SymDesc::ConstOfParcelable(c, _) => Some(c.name@),
        SymDesc::Field(f, _) => Some(f.name@),
        SymDesc::EnumElement(el, _) => Some(el.name@),
        SymDesc::Type(t) => Some(t.name@),
    }
}

/// `owner`, two colons, then `member`.
pub open spec fn spec_member_name(owner: Seq<char>, member: Seq<char>) -> Seq<char> {
    owner + "::"@ + member
}

/// The qualified name of a symbol: items under their package, members
/// under their owner, a resolved type under its resolved key.
pub open spec fn spec_symbol_qualified_name(s: SymDesc) -> Option<Seq<char>> {
    match s {
        SymDesc::Package(p) => Some(p.name@),
        SymDesc::Import(i) => Some(i.spec_qualified_name()),
        SymDesc::Interface(i, pkg) => Some(spec_dotted(pkg.name@, i.name@)),
        SymDesc::Parcelable(p, pkg) => Some(spec_dotted(pkg.name@, p.name@)),
        SymDesc::Enum(e, pkg) => Some(spec_dotted(pkg.name@, e.name@)),
        SymDesc::Method(m, i) => Some(spec_member_name(i.name@, m.name@)),
        SymDesc::Arg(a, _) => match a.name {
            Some(n) => Some(n@),
            None => None,
        },
        SymDesc::ConstOfInterface(c, i) => Some(spec_member_name(i.name@, c.name@)),
        SymDesc::ConstOfParcelable(c, p) => Some(spec_member_name(p.name@, c.name@)),
        SymDesc::Field(f, p) => Some(spec_member_name(p.name@, f.name@)),
        SymDesc::EnumElement(el, e) => Some(spec_member_name(e.name@, el.name@)),
        SymDesc::Type(t) => match t.kind@ {
            crate::validation::TypeKindV::ResolvedItem(q, _) => Some(q),
            _ => None,
        },
    }
}

pub open spec fn spec_symbol_range(s: SymDesc) -> Range {
    match s {
        SymDesc::Package(p) => p.symbol_range,
        SymDesc::Import(i) => i.symbol_range,
        SymDesc::Interface(i, _) => i.symbol_range,
        SymDesc::Parcelable(p, _) => p.symbol_range,
        SymDesc::Enum(e, _) => e.symbol_range,
        SymDesc::Method(m, _) => m.symbol_range,
        SymDesc::Arg(a, _) => a.symbol_range,
        SymDesc::ConstOfInterface(c, _) => c.symbol_range,
        SymDesc::ConstOfParcelable(c, _) => c.symbol_range,
        SymDesc::Field(f, _) => f.symbol_range,
        SymDesc::EnumElement(el, _) => el.symbol_range,
        SymDesc::Type(t) => t.symbol_range,
    }
}

pub open spec fn spec_symbol_full_range(s: SymDesc) -> Range {
    match s {
        SymDesc::Package(p) => p.full_range,
        SymDesc::Import(i) => i.full_range,
        SymDesc::Interface(i, _) => i.full_range,
        SymDesc::Parcelable(p, _) => p.full_range,
        SymDesc::Enum(e, _) => e.full_range,
        SymDesc::Method(m, _) => m.full_range,
        SymDesc::Arg(a, _) => a.full_range,
        SymDesc::ConstOfInterface(c, _) => c.full_range,
        SymDesc::ConstOfParcelable(c, _) => c.full_range,
        SymDesc::Field(f, _) => f.full_range,
        SymDesc::EnumElement(el, _) => el.full_range,
        SymDesc::Type(t) => t.full_range,
    }
}

/// The rendering of the generic parameters `[0, i)` of `t`, joined by
/// commas.
pub open spec fn spec_generics_str(t: Type, i: int) -> Seq<char>
    decreases t, i,
{
    if i <= 0 || i > t.generic_types@.len() {
        Seq::empty()
    } else if i == 1 {
        spec_type_str(t.generic_types@[0])
    } else {
        spec_generics_str(t, i - 1) + ", "@ + spec_type_str(t.generic_types@[i - 1])
    }
}

/// The rendering of a type: its name, with its generic parameters between
/// angle brackets when it has any.
pub open spec fn spec_type_str(t: Type) -> Seq<char>
    decreases t, t.generic_types@.len() + 1,
{
    if t.generic_types@.len() == 0 {
        t.name@
    } else {
        t.name@ + "<"@ + spec_generics_str(t, t.generic_types@.len() as int) + ">"@
    }
}

/// The rendering of an argument without its name: the direction keyword
/// (followed by one space) and its type.
pub open spec fn spec_arg_str(a: Arg) -> Seq<char> {
    (match a.direction {
        Direction::In(_) => "in "@,
        Direction::Out(_) => "out "@,
        Direction::InOut(_) => "inout "@,
        Direction::Unspecified => ""@,
    }) + spec_type_str(a.arg_type)
}

/// The rendering of an argument with its name, when it has one.
pub open spec fn spec_arg_sig_str(a: Arg) -> Seq<char> {
    spec_arg_str(a) + (match a.name {
        Some(n) => " "@ + n@,
        None => ""@,
    })
}

/// The renderings of the arguments `[0, i)`, joined by commas; `with_names`
/// picks the signature form.
pub open spec fn spec_args_str(args: Seq<Arg>, i: int, with_names: bool) -> Seq<char>
    decreases i,
{
    if i <= 0 || i > args.len() {
        Seq::empty()
    } else {
        let one = if with_names {
            spec_arg_sig_str(args[i - 1])
        } else {
            spec_arg_str(args[i - 1])
        };
        if i == 1 {
            one
        } else {
            spec_args_str(args, i - 1, with_names) + ", "@ + one
        }
    }
}

/// Render a type as `Name` or `Name<G1, G2>`.
pub fn type_str(t: &Type) -> (r: String)
    ensures
        r@ == spec_type_str(*t),
    decreases *t,
{
    let n = t.generic_types.len();
    if n == 0 {
        return t.name.clone();
    }
    let mut s = t.name.clone();
    s.append("<");
    let mut k: usize = 0;
    while k < n
        invariant
            n == t.generic_types@.len(),
            0 < n,
            k <= n,
            s@ == t.name@ + "<"@ + spec_generics_str(*t, k as int),
        decreases n - k,
    {
        proof {
            assert(decreases_to!(*t => t.generic_types@[k as int]));
        }
        if k > 0 {
            s.append(", ");
        }
        let g = type_str(&t.generic_types[k]);
        s.append(g.as_str());
        k = k + 1;
    }
    s.append(">");
    s
}

/// Render an argument as `direction type` or, with its name,
/// `direction type name`.
pub fn arg_str(a: &Arg, with_name: bool) -> (r: String)
    ensures
        with_name ==> r@ == spec_arg_sig_str(*a),
        !with_name ==> r@ == spec_arg_str(*a),
{
    let mut s: String = match &a.direction {
        Direction::In(_) => "in ".to_owned(),
        Direction::Out(_) => "out ".to_owned(),
        Direction::InOut(_) => "inout ".to_owned(),
        Direction::Unspecified => "".to_owned(),
    };
    let t = type_str(&a.arg_type);
    s.append(t.as_str());
    if with_name {
        match &a.name {
            Some(n) => {
                s.append(" ");
                s.append(n.as_str());
            },
            None => {
                proof {
                    reveal_strlit("");
                    assert(spec_arg_str(*a) + ""@ =~= spec_arg_str(*a));
                }
            },
        }
    }
    s
}

/// Render the arguments of `m`, comma separated.
fn args_str(m: &Method, with_names: bool) -> (r: String)
    ensures
        r@ == spec_args_str(m.args@, m.args@.len() as int, with_names),
{
    let mut s = String::new();
    let n = m.args.len();
    let mut k: usize = 0;
    while k < n
        invariant
            n == m.args@.len(),
            k <= n,
            s@ == spec_args_str(m.args@, k as int, with_names),
        decreases n - k,
    {
        if k > 0 {
            s.append(", ");
        }
        let one = arg_str(&m.args[k], with_names);
        s.append(one.as_str());
        k = k + 1;
    }
    s
}

impl<'a> Symbol<'a> {
    /// The name of the symbol; an unnamed argument has none.
    pub fn get_name(&self) -> (r: Option<String>)
        ensures
            match r {
                Some(n) => spec_symbol_name(self@) == Some(n@),
                None => spec_symbol_name(self@) is None,
            },
    {
        match self {
            Symbol::Package(p) => Some(p.name.clone()),
            Symbol::Import(i) => Some(i.get_qualified_name()),
            Symbol::Interface(i, _) => Some(i.name.clone()),
            Symbol::Parcelable(p, _) => Some(p.name.clone()),
            Symbol::Enum(e, _) => Some(e.name.clone()),
            Symbol::Method(m, _) => Some(m.name.clone()),
            Symbol::Arg(a, _) => match &a.name {
                Some(n) => Some(n.clone()),
                None => None,
            },
            Symbol::Const(c, _) => Some(c.name.clone()),
            Symbol::Field(f, _) => Some(f.name.clone()),
            Symbol::EnumElement(el, _) => Some(el.name.clone()),
            Symbol::Type(t) => Some(t.name.clone()),
        }
    }

    /// The qualified name of the symbol: an item under its package, a
    /// member under its owner, a resolved type reference under its key.
    pub fn get_qualified_name(&self) -> (r: Option<String>)
        ensures
            match r {
                Some(n) => spec_symbol_qualified_name(self@) == Some(n@),
                None => spec_symbol_qualified_name(self@) is None,
            },
    {
        match self {
            Symbol::Package(p) => Some(p.name.clone()),
            Symbol::Import(i) => Some(i.get_qualified_name()),
            Symbol::Interface(i, pkg) => Some(dotted(pkg.name.as_str(), i.name.as_str())),
            Symbol::Parcelable(p, pkg) => Some(dotted(pkg.name.as_str(), p.name.as_str())),
            Symbol::Enum(e, pkg) => Some(dotted(pkg.name.as_str(), e.name.as_str())),
            Symbol::Method(m, i) => Some(member_name(i.name.as_str(), m.name.as_str())),
            Symbol::Arg(a, _) => match &a.name {
                Some(n) => Some(n.clone()),
                None => None,
            },
            Symbol::Const(c, owner) => match owner {
                ConstOwner::Interface(i) => Some(member_name(i.name.as_str(), c.name.as_str())),
                ConstOwner::Parcelable(p) => Some(member_name(p.name.as_str(), c.name.as_str())),
            },
            Symbol::Field(f, p) => Some(member_name(p.name.as_str(), f.name.as_str())),
            Symbol::EnumElement(el, e) => Some(member_name(e.name.as_str(), el.name.as_str())),
            Symbol::Type(t) => match &t.kind {
                TypeKind::ResolvedItem(q, _) => Some(q.clone()),
                _ => None,
            },
        }
    }

    /// The primary range of the symbol (its name).
    pub fn get_range(&self) -> (r: &Range)
        ensures
            *r == spec_symbol_range(self@),
    {
        match self {
            Symbol::Package(p) => &p.symbol_range,
            Symbol::Import(i) => &i.symbol_range,
            Symbol::Interface(i, _) => &i.symbol_range,
            Symbol::Parcelable(p, _) => &p.symbol_range,
            Symbol::Enum(e, _) => &e.symbol_range,
            Symbol::Method(m, _) => &m.symbol_range,
            Symbol::Arg(a, _) => &a.symbol_range,
            Symbol::Const(c, _) => &c.symbol_range,
            Symbol::Field(f, _) => &f.symbol_range,
            Symbol::EnumElement(el, _) => &el.symbol_range,
            Symbol::Type(t) => &t.symbol_range,
        }
    }

    /// The enclosing full range of the symbol (its whole declaration).
    pub fn get_full_range(&self) -> (r: &Range)
        ensures
            *r == spec_symbol_full_range(self@),
    {
        match self {
            Symbol::Package(p) => &p.full_range,
            Symbol::Import(i) => &i.full_range,
            Symbol::Interface(i, _) => &i.full_range,
            Symbol::Parcelable(p, _) => &p.full_range,
            Symbol::Enum(e, _) => &e.full_range,
            Symbol::Method(m, _) => &m.full_range,
            Symbol::Arg(a, _) => &a.full_range,
            Symbol::Const(c, _) => &c.full_range,
            Symbol::Field(f, _) => &f.full_range,
            Symbol::EnumElement(el, _) => &el.full_range,
            Symbol::Type(t) => &t.full_range,
        }
    }

    /// A short description of the symbol: a kind label for declarations,
    /// the rendered type for typed members, `ret(args)` for a method;
    /// nothing for an enumeration element.
    pub fn get_details(&self) -> (r: Option<String>)
        ensures
            match self@ {
                SymDesc::Package(_) => r matches Some(s) && s@ == "package"@,
                SymDesc::Import(_) => r matches Some(s) && s@ == "import"@,
                SymDesc::Interface(_, _) => r matches Some(s) && s@ == "interface"@,
                SymDesc::Parcelable(_, _) => r matches Some(s) && s@ == "parcelable"@,
                SymDesc::Enum(_, _) => r matches Some(s) && s@ == "enum"@,
                SymDesc::Method(m, _) => r matches Some(s) && s@ == spec_type_str(m.return_type)
                    + "("@ + spec_args_str(m.args@, m.args@.len() as int, false) + ")"@,
                SymDesc::Arg(a, _) => r matches Some(s) && s@ == spec_arg_str(a),
                SymDesc::ConstOfInterface(c, _) => r matches Some(s) && s@ == "const "@
                    + spec_type_str(c.const_type),
                SymDesc::ConstOfParcelable(c, _) => r matches Some(s) && s@ == "const "@
                    + spec_type_str(c.const_type),
                SymDesc::Field(f, _) => r matches Some(s) && s@ == spec_type_str(f.field_type),
                SymDesc::EnumElement(_, _) => r is None,
                SymDesc::Type(t) => r matches Some(s) && s@ == spec_type_str(t),
            },
    {
        match self {
            Symbol::Package(_) => Some("package".to_owned()),
            Symbol::Import(_) => Some("import".to_owned()),
            Symbol::Interface(_, _) => Some("interface".to_owned()),
            Symbol::Parcelable(_, _) => Some("parcelable".to_owned()),
            Symbol::Enum(_, _) => Some("enum".to_owned()),
            Symbol::Method(m, _) => {
                let mut s = type_str(&m.return_type);
                s.append("(");
                let args = args_str(m, false);
                s.append(args.as_str());
                s.append(")");
                Some(s)
            },
            Symbol::Arg(a, _) => Some(arg_str(a, false)),
            Symbol::Const(c, _) => {
                let mut s = "const ".to_owned();
                let t = type_str(&c.const_type);
                s.append(t.as_str());
                Some(s)
            },
            Symbol::Field(f, _) => Some(type_str(&f.field_type)),
            Symbol::EnumElement(_, _) => None,
            Symbol::Type(t) => Some(type_str(t)),
        }
    }

    /// The symbol rendered as it would be declared.
    pub fn get_signature(&self) -> (r: String)
        ensures
            match self@ {
                SymDesc::Package(p) => r@ == "package "@ + p.name@,
                SymDesc::Import(i) => r@ == "import "@ + i.spec_qualified_name(),
                SymDesc::Interface(i, _) => r@ == "interface "@ + i.name@,
                SymDesc::Parcelable(p, _) => r@ == "parcelable "@ + p.name@,
                SymDesc::Enum(e, _) => r@ == "enum "@ + e.name@,
                SymDesc::Method(m, _) => r@ == spec_type_str(m.return_type) + " "@ + m.name@ + "("@
                    + spec_args_str(m.args@, m.args@.len() as int, true) + ")"@,
                SymDesc::Arg(a, _) => r@ == spec_arg_sig_str(a),
                SymDesc::ConstOfInterface(c, _) => r@ == "const "@ + spec_type_str(c.const_type)
                    + " "@ + c.name@,
                SymDesc::ConstOfParcelable(c, _) => r@ == "const "@ + spec_type_str(c.const_type)
                    + " "@ + c.name@,
                SymDesc::Field(f, _) => r@ == spec_type_str(f.field_type) + " "@ + f.name@,
                SymDesc::EnumElement(el, _) => r@ == el.name@,
                SymDesc::Type(t) => r@ == spec_type_str(t),
            },
    {
        match self {
            Symbol::Package(p) => {
                let mut s = "package ".to_owned();
                s.append(p.name.as_str());
                s
            },
            Symbol::Import(i) => {
                let mut s = "import ".to_owned();
                let q = i.get_qualified_name();
                s.append(q.as_str());
                s
            },
            Symbol::Interface(i, _) => {
                let mut s = "interface ".to_owned();
                s.append(i.name.as_str());
                s
            },
            Symbol::Parcelable(p, _) => {
                let mut s = "parcelable ".to_owned();
                s.append(p.name.as_str());
                s
            },
            Symbol::Enum(e, _) => {
                let mut s = "enum ".to_owned();
                s.append(e.name.as_str());
                s
            },
            Symbol::Method(m, _) => {
                let mut s = type_str(&m.return_type);
                s.append(" ");
                s.append(m.name.as_str());
                s.append("(");
                let args = args_str(m, true);
                s.append(args.as_str());
                s.append(")");
                s
            },
            Symbol::Arg(a, _) => arg_str(a, true),
            Symbol::Const(c, _) => {
                let mut s = "const ".to_owned();
                let t = type_str(&c.const_type);
                s.append(t.as_str());
                s.append(" ");
                s.append(c.name.as_str());
                s
            },
            Symbol::Field(f, _) => {
                let mut s = type_str(&f.field_type);
                s.append(" ");
                s.append(f.name.as_str());
                s
            },
            Symbol::EnumElement(el, _) => el.name.clone(),
            Symbol::Type(t) => type_str(t),
        }
    }
}

/// Join an owner and a member name with two colons.
fn member_name(owner: &str, member: &str) -> (r: String)
    ensures
        r@ == spec_member_name(owner@, member@),
{
    let mut s = owner.to_owned();
    s.append("::");
    s.append(member);
    s
}

} // verus!
