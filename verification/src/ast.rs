//! The data model: compilation units, items and their nested elements,
//! the type sum type, and the positions and ranges that locate every node
//! in its source text.

use vstd::prelude::*;
use vstd::string::StringExecFns;

verus! {

/// A location in the source text: a character offset together with the
/// 1-based line and column it denotes.
#[derive(Debug, Clone, Copy, PartialEq, Eq)]
pub struct Position {
    pub offset: usize,
    /// 1-based line and column
    pub line_col: (usize, usize),
}

/// A half-open span of the source text: `start` is the first character of
/// the spanned region and `end` the position one past its last character.
#[derive(Debug, Clone, Copy, PartialEq, Eq)]
pub struct Range {
    pub start: Position,
    pub end: Position,
}

/// `a`, a dot, then `b`.
pub open spec fn spec_dotted(a: Seq<char>, b: Seq<char>) -> Seq<char> {
    a + "."@ + b
}

/// The qualified name built from a path and a final segment; a lone
/// segment (empty path) is its own qualified name.
pub open spec fn spec_qualified(path: Seq<char>, name: Seq<char>) -> Seq<char> {
    if path.len() == 0 {
        name
    } else {
        spec_dotted(path, name)
    }
}

/// Join `a` and `b` with a dot.
pub fn dotted(a: &str, b: &str) -> (r: String)
    ensures
        r@ == spec_dotted(a@, b@),
{
    let mut s = a.to_owned();
    s.append(".");
    s.append(b);
    s
}

/// One parsed compilation unit: its package, its imports and
/// forward-declared parcelables, and its single item.
#[derive(Debug, PartialEq)]
pub struct Aidl {
    pub package: Package,
    pub imports: Vec<Import>,
    pub declared_parcelables: Vec<Import>,
    pub item: Item,
}

impl Aidl {
    /// The unit's key in the project item table: package name, dot, item name.
    pub open spec fn spec_key(&self) -> Seq<char> {
        spec_dotted(self.package.name@, self.item.spec_name()@)
    }

    /// The key under which this unit's item stands in the project table.
    pub fn get_key(&self) -> (r: String)
        ensures
            r@ == self.spec_key(),
    {
        dotted(self.package.name.as_str(), self.item.get_name())
    }
}

/// The package declaration of a unit.
#[derive(Debug, PartialEq)]
pub struct Package {
    pub name: String,
    pub symbol_range: Range,
    pub full_range: Range,
}

/// An import, or (in `Aidl::declared_parcelables`) a forward-declared
/// parcelable: a dotted path (possibly empty) plus the final name segment.
#[derive(Debug, PartialEq)]
pub struct Import {
    pub path: String,
    pub name: String,
    pub symbol_range: Range,
    pub full_range: Range,
}

impl Import {
    /// The qualified name this entry denotes.
    pub open spec fn spec_qualified_name(&self) -> Seq<char> {
        spec_qualified(self.path@, self.name@)
    }

    /// The qualified name: path, dot, name; just the name when the path is empty.
    pub fn get_qualified_name(&self) -> (r: String)
        ensures
            r@ == self.spec_qualified_name(),
    {
        if self.path.as_str().is_empty() {
            self.name.clone()
        } else {
            dotted(self.path.as_str(), self.name.as_str())
        }
    }
}

/// The kind a custom type reference resolves to.
#[derive(Debug, Clone, Copy, PartialEq, Eq, Structural)]
pub enum ResolvedItemKind {
    Interface,
    Parcelable,
    Enum,
    ForwardDeclaredParcelable,
    UnknownImport,
}

/// The platform built-in reference types, usable without an import.
#[derive(Debug, Clone, Copy, PartialEq, Eq, Structural)]
pub enum AndroidTypeKind {
    IBinder,
    FileDescriptor,
    ParcelFileDescriptor,
    ParcelableHolder,
}

impl AndroidTypeKind {
    /// Every platform builtin, in catalog order.
    pub fn get_all() -> (r: Vec<AndroidTypeKind>)
        ensures
            r@ == seq![
                AndroidTypeKind::IBinder,
                AndroidTypeKind::FileDescriptor,
                AndroidTypeKind::ParcelFileDescriptor,
                AndroidTypeKind::ParcelableHolder,
            ],
    {
        let mut all: Vec<AndroidTypeKind> = Vec::new();
        all.push(AndroidTypeKind::IBinder);
        all.push(AndroidTypeKind::FileDescriptor);
        all.push(AndroidTypeKind::ParcelFileDescriptor);
        all.push(AndroidTypeKind::ParcelableHolder);
        proof {
            assert(all@ =~= seq![
                AndroidTypeKind::IBinder,
                AndroidTypeKind::FileDescriptor,
                AndroidTypeKind::ParcelFileDescriptor,
                AndroidTypeKind::ParcelableHolder,
            ]);
        }
        all
    }

    /// The bare name of the builtin.
    pub fn get_name(&self) -> (r: &'static str)
        ensures
            r@ == self.spec_name(),
    {
        match self {
            AndroidTypeKind::IBinder => "IBinder",
            AndroidTypeKind::FileDescriptor => "FileDescriptor",
            AndroidTypeKind::ParcelFileDescriptor => "ParcelFileDescriptor",
            AndroidTypeKind::ParcelableHolder => "ParcelableHolder",
        }
    }

    pub open spec fn spec_name(&self) -> Seq<char> {
        match self {
            AndroidTypeKind::IBinder => "IBinder"@,
            AndroidTypeKind::FileDescriptor => "FileDescriptor"@,
            AndroidTypeKind::ParcelFileDescriptor => "ParcelFileDescriptor"@,
            AndroidTypeKind::ParcelableHolder => "ParcelableHolder"@,
        }
    }

    /// The canonical qualified name of the builtin.
    pub fn get_qualified_name(&self) -> (r: &'static str)
        ensures
            r@ == self.spec_qualified_name(),
    {
        match self {
            AndroidTypeKind::IBinder => "android.os.IBinder",
            AndroidTypeKind::FileDescriptor => "java.os.FileDescriptor",
            AndroidTypeKind::ParcelFileDescriptor => "android.os.ParcelFileDescriptor",
            AndroidTypeKind::ParcelableHolder => "android.os.ParcelableHolder",
        }
    }

    pub open spec fn spec_qualified_name(&self) -> Seq<char> {
        match self {
            AndroidTypeKind::IBinder => "android.os.IBinder"@,
            AndroidTypeKind::FileDescriptor => "java.os.FileDescriptor"@,
            AndroidTypeKind::ParcelFileDescriptor => "android.os.ParcelFileDescriptor"@,
            AndroidTypeKind::ParcelableHolder => "android.os.ParcelableHolder"@,
        }
    }

    /// Whether this builtin may be written by its qualified name without
    /// an import.
    pub fn can_be_qualified(&self) -> (r: bool)
        ensures
            r == self.spec_can_be_qualified(),
    {
        match self {
            AndroidTypeKind::IBinder => false,
            _ => true,
        }
    }

    pub open spec fn spec_can_be_qualified(&self) -> bool {
        !(self == AndroidTypeKind::IBinder)
    }

    /// The builtin whose bare name is `name`, if any.
    pub open spec fn spec_from_name(name: Seq<char>) -> Option<AndroidTypeKind> {
        if name == AndroidTypeKind::IBinder.spec_name() {
            Some(AndroidTypeKind::IBinder)
        } else if name == AndroidTypeKind::FileDescriptor.spec_name() {
            Some(AndroidTypeKind::FileDescriptor)
        } else if name == AndroidTypeKind::ParcelFileDescriptor.spec_name() {
            Some(AndroidTypeKind::ParcelFileDescriptor)
        } else if name == AndroidTypeKind::ParcelableHolder.spec_name() {
            Some(AndroidTypeKind::ParcelableHolder)
        } else {
            None
        }
    }

    pub fn from_name(name: &str) -> (r: Option<AndroidTypeKind>)
        ensures
            r == Self::spec_from_name(name@),
    {
        if str_eq(name, "IBinder") {
            Some(AndroidTypeKind::IBinder)
        } else if str_eq(name, "FileDescriptor") {
            Some(AndroidTypeKind::FileDescriptor)
        } else if str_eq(name, "ParcelFileDescriptor") {
            Some(AndroidTypeKind::ParcelFileDescriptor)
        } else if str_eq(name, "ParcelableHolder") {
            Some(AndroidTypeKind::ParcelableHolder)
        } else {
            None
        }
    }

    /// The builtin whose canonical qualified name is `name`, if any.
    pub open spec fn spec_from_qualified_name(name: Seq<char>) -> Option<AndroidTypeKind> {
        if name == AndroidTypeKind::IBinder.spec_qualified_name() {
            Some(AndroidTypeKind::IBinder)
        } else if name == AndroidTypeKind::FileDescriptor.spec_qualified_name() {
            Some(AndroidTypeKind::FileDescriptor)
        } else if name == AndroidTypeKind::ParcelFileDescriptor.spec_qualified_name() {
            Some(AndroidTypeKind::ParcelFileDescriptor)
        } else if name == AndroidTypeKind::ParcelableHolder.spec_qualified_name() {
            Some(AndroidTypeKind::ParcelableHolder)
        } else {
            None
        }
    }

    pub fn from_qualified_name(name: &str) -> (r: Option<AndroidTypeKind>)
        ensures
            r == Self::spec_from_qualified_name(name@),
    {
        if str_eq(name, "android.os.IBinder") {
            Some(AndroidTypeKind::IBinder)
        } else if str_eq(name, "java.os.FileDescriptor") {
            Some(AndroidTypeKind::FileDescriptor)
        } else if str_eq(name, "android.os.ParcelFileDescriptor") {
            Some(AndroidTypeKind::ParcelFileDescriptor)
        } else if str_eq(name, "android.os.ParcelableHolder") {
            Some(AndroidTypeKind::ParcelableHolder)
        } else {
            None
        }
    }

    /// Whether `qualified_name` is the canonical qualified name of a builtin.
    pub fn is_android_type_kind(qualified_name: &str) -> (r: bool)
        ensures
            r == (Self::spec_from_qualified_name(qualified_name@) is Some),
    {
        Self::from_qualified_name(qualified_name).is_some()
    }
}

/// Whether two string slices hold the same characters.
pub fn str_eq(a: &str, b: &str) -> (r: bool)
    ensures
        r == (a@ == b@),
{
    let sa: String = a.to_owned();
    let sb: String = b.to_owned();
    sa == sb
}

/// What a type node denotes. Parsing only produces the shape kinds and
/// `Unresolved`; the resolution pass rewrites `Unresolved` nodes into
/// `AndroidType` or `ResolvedItem` nodes.
#[derive(Debug, PartialEq, Eq)]
pub enum TypeKind {
    Primitive,
    Void,
    Array,
    /// A `Map<K, V>` type (the name avoids the verifier's own `Map`).
    MapType,
    List,
    /// A `String` type (the name avoids the prelude's `String`).
    StringType,
    CharSequence,
    AndroidType(AndroidTypeKind),
    ResolvedItem(String, ResolvedItemKind),
    Unresolved,
}

/// A type reference: its source name, what it denotes, and its generic
/// parameters (the element type of an array, the parameters of a list
/// or map).
#[derive(Debug, PartialEq)]
pub struct Type {
    pub name: String,
    pub kind: TypeKind,
    pub generic_types: Vec<Type>,
    pub symbol_range: Range,
    pub full_range: Range,
}

/// The structural invariant of a type node: an array carries exactly one
/// generic parameter, a list none or one, a map none or two, and no other
/// kind carries any; it holds recursively of the parameters.
pub open spec fn type_wf(t: Type) -> bool
    decreases t,
{
    &&& match t.kind {
        TypeKind::Array => t.generic_types@.len() == 1,
        TypeKind::List => t.generic_types@.len() <= 1,
        TypeKind::MapType => t.generic_types@.len() == 0 || t.generic_types@.len() == 2,
        _ => t.generic_types@.len() == 0,
    }
    &&& forall|i: int|
        0 <= i < t.generic_types@.len() ==> type_wf(#[trigger] t.generic_types@[i])
}

/// The kinds a freshly parsed type node can have: the shape kinds and the
/// `Unresolved` placeholder, never a resolved reference.
pub open spec fn parsed_kind(k: TypeKind) -> bool {
    match k {
        TypeKind::Primitive
        | TypeKind::Void
        | TypeKind::Array
        | TypeKind::MapType
        | TypeKind::List
        | TypeKind::StringType
        | TypeKind::CharSequence
        | TypeKind::Unresolved => true,
        TypeKind::AndroidType(_) | TypeKind::ResolvedItem(_, _) => false,
    }
}

/// Every kind in the tree rooted at `t` satisfies `parsed_kind`.
pub open spec fn type_parsed(t: Type) -> bool
    decreases t,
{
    &&& parsed_kind(t.kind)
    &&& forall|i: int|
        0 <= i < t.generic_types@.len() ==> type_parsed(#[trigger] t.generic_types@[i])
}

impl Type {
    /// A type without generic parameters.
    pub fn simple_type(name: String, kind: TypeKind, symbol_range: Range, full_range: Range) -> (t:
        Type)
        ensures
            t.name == name,
            t.kind == kind,
            t.generic_types@.len() == 0,
            t.symbol_range == symbol_range,
            t.full_range == full_range,
    {
        Type { name, kind, generic_types: Vec::new(), symbol_range, full_range }
    }

    /// A one-dimensional array type over its element type.
    pub fn array(param: Type, symbol_range: Range, full_range: Range) -> (t: Type)
        ensures
            t.kind == TypeKind::Array,
            t.name@ == "Array"@,
            t.generic_types@ == seq![param],
            t.symbol_range == symbol_range,
            t.full_range == full_range,
            type_wf(param) ==> type_wf(t),
            type_parsed(param) ==> type_parsed(t),
    {
        let mut generic_types: Vec<Type> = Vec::new();
        generic_types.push(param);
        let t = Type {
            name: "Array".to_owned(),
            kind: TypeKind::Array,
            generic_types,
            symbol_range,
            full_range,
        };
        proof {
            assert(t.generic_types@ =~= seq![param]);
        }
        t
    }

    /// A generic list type over its element type.
    pub fn list(param: Type, symbol_range: Range, full_range: Range) -> (t: Type)
        ensures
            t.kind == TypeKind::List,
            t.name@ == "List"@,
            t.generic_types@ == seq![param],
            t.symbol_range == symbol_range,
            t.full_range == full_range,
            type_wf(param) ==> type_wf(t),
            type_parsed(param) ==> type_parsed(t),
    {
        let mut generic_types: Vec<Type> = Vec::new();
        generic_types.push(param);
        let t = Type {
            name: "List".to_owned(),
            kind: TypeKind::List,
            generic_types,
            symbol_range,
            full_range,
        };
        proof {
            assert(t.generic_types@ =~= seq![param]);
        }
        t
    }

    /// A list type without parameters.
    pub fn non_generic_list(symbol_range: Range, full_range: Range) -> (t: Type)
        ensures
            t.kind == TypeKind::List,
            t.name@ == "List"@,
            t.generic_types@.len() == 0,
            t.symbol_range == symbol_range,
            t.full_range == full_range,
            type_wf(t),
            type_parsed(t),
    {
        Type {
            name: "List".to_owned(),
            kind: TypeKind::List,
            generic_types: Vec::new(),
            symbol_range,
            full_range,
        }
    }

    /// A generic map type over its key and value types.
    pub fn map(key_param: Type, value_param: Type, symbol_range: Range, full_range: Range) -> (t:
        Type)
        ensures
            t.kind == TypeKind::MapType,
            t.name@ == "Map"@,
            t.generic_types@ == seq![key_param, value_param],
            t.symbol_range == symbol_range,
            t.full_range == full_range,
            type_wf(key_param) && type_wf(value_param) ==> type_wf(t),
            type_parsed(key_param) && type_parsed(value_param) ==> type_parsed(t),
    {
        let mut generic_types: Vec<Type> = Vec::new();
        generic_types.push(key_param);
        generic_types.push(value_param);
        let t = Type {
            name: "Map".to_owned(),
            kind: TypeKind::MapType,
            generic_types,
            symbol_range,
            full_range,
        };
        proof {
            assert(t.generic_types@ =~= seq![key_param, value_param]);
        }
        t
    }

    /// A map type without parameters.
    pub fn non_generic_map(symbol_range: Range, full_range: Range) -> (t: Type)
        ensures
            t.kind == TypeKind::MapType,
            t.name@ == "Map"@,
            t.generic_types@.len() == 0,
            t.symbol_range == symbol_range,
            t.full_range == full_range,
            type_wf(t),
            type_parsed(t),
    {
        Type {
            name: "Map".to_owned(),
            kind: TypeKind::MapType,
            generic_types: Vec::new(),
            symbol_range,
            full_range,
        }
    }
}

/// An annotation: its name and its key/value pairs, in source order.
#[derive(Debug, PartialEq)]
pub struct Annotation {
    pub name: String,
    pub key_values: Vec<(String, Option<String>)>,
}

/// Whether an argument is copied into the call, out of it, or both; each
/// explicit direction carries the range of its keyword.
#[derive(Debug, Clone, Copy, PartialEq)]
pub enum Direction {
    In(Range),
    Out(Range),
    InOut(Range),
    Unspecified,
}

impl Direction {
    pub fn is_unspecified(&self) -> (r: bool)
        ensures
            r == (self is Unspecified),
    {
        match self {
            Direction::Unspecified => true,
            _ => false,
        }
    }

    /// The keyword this direction renders as; empty when unspecified.
    pub fn as_str(&self) -> (r: &'static str)
        ensures
            r@ == self.spec_str(),
    {
        match self {
            Direction::In(_) => "in",
            Direction::Out(_) => "out",
            Direction::InOut(_) => "inout",
            Direction::Unspecified => "",
        }
    }

    pub open spec fn spec_str(&self) -> Seq<char> {
        match self {
            Direction::In(_) => "in"@,
            Direction::Out(_) => "out"@,
            Direction::InOut(_) => "inout"@,
            Direction::Unspecified => ""@,
        }
    }
}

/// A constant declaration inside an interface or parcelable.
#[derive(Debug, PartialEq)]
pub struct Const {
    pub name: String,
    pub const_type: Type,
    pub value: String,
    pub annotations: Vec<Annotation>,
    pub doc: Option<String>,
    pub symbol_range: Range,
    pub full_range: Range,
}

/// One argument of a method.
#[derive(Debug, PartialEq)]
pub struct Arg {
    pub direction: Direction,
    pub name: Option<String>,
    pub arg_type: Type,
    pub annotations: Vec<Annotation>,
    pub doc: Option<String>,
    pub symbol_range: Range,
    pub full_range: Range,
}

/// A method of an interface.
#[derive(Debug, PartialEq)]
pub struct Method {
    pub oneway: bool,
    pub name: String,
    pub return_type: Type,
    pub args: Vec<Arg>,
    pub annotations: Vec<Annotation>,
    pub transact_code: Option<u32>,
    pub doc: Option<String>,
    pub symbol_range: Range,
    pub full_range: Range,
    pub transact_code_range: Range,
    pub oneway_range: Range,
}

/// A field of a parcelable.
#[derive(Debug, PartialEq)]
pub struct Field {
    pub name: String,
    pub field_type: Type,
    pub value: Option<String>,
    pub annotations: Vec<Annotation>,
    pub doc: Option<String>,
    pub symbol_range: Range,
    pub full_range: Range,
}

impl Field {
    /// The field rendered as `type name`.
    pub fn get_signature(&self) -> (r: String)
        ensures
            r@ == self.field_type.name@ + " "@ + self.name@,
    {
        let mut s = self.field_type.name.clone();
        s.append(" ");
        s.append(self.name.as_str());
        s
    }
}

/// One element of an enumeration.
#[derive(Debug, PartialEq)]
pub struct EnumElement {
    pub name: String,
    pub value: Option<String>,
    pub doc: Option<String>,
    pub symbol_range: Range,
    pub full_range: Range,
}

/// An element of an interface body: a constant or a method.
#[derive(Debug, PartialEq)]
pub enum InterfaceElement {
    Const(Const),
    Method(Method),
}

impl InterfaceElement {
    pub fn as_method(&self) -> (r: Option<&Method>)
        ensures
            match self {
                InterfaceElement::Method(m) => r == Some(m),
                InterfaceElement::Const(_) => r is None,
            },
    {
        match self {
            InterfaceElement::Method(m) => Some(m),
            InterfaceElement::Const(_) => None,
        }
    }

    pub open spec fn spec_name(&self) -> &String {
        match self {
            InterfaceElement::Const(c) => &c.name,
            InterfaceElement::Method(m) => &m.name,
        }
    }

    pub fn get_name(&self) -> (r: &str)
        ensures
            r@ == self.spec_name()@,
    {
        match self {
            InterfaceElement::Const(c) => c.name.as_str(),
            InterfaceElement::Method(m) => m.name.as_str(),
        }
    }

    pub open spec fn spec_symbol_range(&self) -> Range {
        match self {
            InterfaceElement::Const(c) => c.symbol_range,
            InterfaceElement::Method(m) => m.symbol_range,
        }
    }

    pub fn get_symbol_range(&self) -> (r: &Range)
        ensures
            *r == self.spec_symbol_range(),
    {
        match self {
            InterfaceElement::Const(c) => &c.symbol_range,
            InterfaceElement::Method(m) => &m.symbol_range,
        }
    }
}

/// An element of a parcelable body: a constant or a field.
#[derive(Debug, PartialEq)]
pub enum ParcelableElement {
    Const(Const),
    Field(Field),
}

impl ParcelableElement {
    pub fn as_field(&self) -> (r: Option<&Field>)
        ensures
            match self {
                ParcelableElement::Field(f) => r == Some(f),
                ParcelableElement::Const(_) => r is None,
            },
    {
        match self {
            ParcelableElement::Field(f) => Some(f),
            ParcelableElement::Const(_) => None,
        }
    }

    pub open spec fn spec_name(&self) -> &String {
        match self {
            ParcelableElement::Const(c) => &c.name,
            ParcelableElement::Field(f) => &f.name,
        }
    }

    pub fn get_name(&self) -> (r: &str)
        ensures
            r@ == self.spec_name()@,
    {
        match self {
            ParcelableElement::Const(c) => c.name.as_str(),
            ParcelableElement::Field(f) => f.name.as_str(),
        }
    }

    pub open spec fn spec_symbol_range(&self) -> Range {
        match self {
            ParcelableElement::Const(c) => c.symbol_range,
            ParcelableElement::Field(f) => f.symbol_range,
        }
    }

    pub fn get_symbol_range(&self) -> (r: &Range)
        ensures
            *r == self.spec_symbol_range(),
    {
        match self {
            ParcelableElement::Const(c) => &c.symbol_range,
            ParcelableElement::Field(f) => &f.symbol_range,
        }
    }
}

/// An interface declaration.
#[derive(Debug, PartialEq)]
pub struct Interface {
    pub oneway: bool,
    pub name: String,
    pub elements: Vec<InterfaceElement>,
    pub annotations: Vec<Annotation>,
    pub doc: Option<String>,
    pub full_range: Range,
    pub symbol_range: Range,
}

/// A parcelable declaration with a body.
#[derive(Debug, PartialEq)]
pub struct Parcelable {
    pub name: String,
    pub elements: Vec<ParcelableElement>,
    pub annotations: Vec<Annotation>,
    pub doc: Option<String>,
    pub full_range: Range,
    pub symbol_range: Range,
}

/// An enumeration declaration.
#[derive(Debug, PartialEq)]
pub struct Enum {
    pub name: String,
    pub elements: Vec<EnumElement>,
    pub annotations: Vec<Annotation>,
    pub doc: Option<String>,
    pub full_range: Range,
    pub symbol_range: Range,
}

/// The single top-level declaration of a compilation unit.
#[derive(Debug, PartialEq)]
pub enum Item {
    Interface(Interface),
    Parcelable(Parcelable),
    Enum(Enum),
}

impl Item {
    pub fn as_interface(&self) -> (r: Option<&Interface>)
        ensures
            match self {
                Item::Interface(i) => r == Some(i),
                _ => r is None,
            },
    {
        match self {
            Item::Interface(i) => Some(i),
            _ => None,
        }
    }

    pub fn as_parcelable(&self) -> (r: Option<&Parcelable>)
        ensures
            match self {
                Item::Parcelable(p) => r == Some(p),
                _ => r is None,
            },
    {
        match self {
            Item::Parcelable(p) => Some(p),
            _ => None,
        }
    }

    pub fn as_enum(&self) -> (r: Option<&Enum>)
        ensures
            match self {
                Item::Enum(e) => r == Some(e),
                _ => r is None,
            },
    {
        match self {
            Item::Enum(e) => Some(e),
            _ => None,
        }
    }

    pub open spec fn spec_kind(&self) -> ResolvedItemKind {
        match self {
            Item::Interface(_) => ResolvedItemKind::Interface,
            Item::Parcelable(_) => ResolvedItemKind::Parcelable,
            Item::Enum(_) => ResolvedItemKind::Enum,
        }
    }

    pub fn get_kind(&self) -> (r: ResolvedItemKind)
        ensures
            r == self.spec_kind(),
    {
        match self {
            Item::Interface(_) => ResolvedItemKind::Interface,
            Item::Parcelable(_) => ResolvedItemKind::Parcelable,
            Item::Enum(_) => ResolvedItemKind::Enum,
        }
    }

    pub open spec fn spec_name(&self) -> &String {
        match self {
            Item::Interface(i) => &i.name,
            Item::Parcelable(p) => &p.name,
            Item::Enum(e) => &e.name,
        }
    }

    pub fn get_name(&self) -> (r: &str)
        ensures
            r@ == self.spec_name()@,
    {
        match self {
            Item::Interface(i) => i.name.as_str(),
            Item::Parcelable(p) => p.name.as_str(),
            Item::Enum(e) => e.name.as_str(),
        }
    }

    pub open spec fn spec_symbol_range(&self) -> Range {
        match self {
            Item::Interface(i) => i.symbol_range,
            Item::Parcelable(p) => p.symbol_range,
            Item::Enum(e) => e.symbol_range,
        }
    }

    pub fn get_symbol_range(&self) -> (r: &Range)
        ensures
            *r == self.spec_symbol_range(),
    {
        match self {
            Item::Interface(i) => &i.symbol_range,
            Item::Parcelable(p) => &p.symbol_range,
            Item::Enum(e) => &e.symbol_range,
        }
    }

    pub open spec fn spec_full_range(&self) -> Range {
        match self {
            Item::Interface(i) => i.full_range,
            Item::Parcelable(p) => p.full_range,
            Item::Enum(e) => e.full_range,
        }
    }

    pub fn get_full_range(&self) -> (r: &Range)
        ensures
            *r == self.spec_full_range(),
    {
        match self {
            Item::Interface(i) => &i.full_range,
            Item::Parcelable(p) => &p.full_range,
            Item::Enum(e) => &e.full_range,
        }
    }
}


/// A type tree as the parser hands it over: well-formed and not yet
/// resolved.
pub open spec fn type_ok(t: Type) -> bool {
    type_wf(t) && type_parsed(t)
}

pub open spec fn arg_ok(a: Arg) -> bool {
    type_ok(a.arg_type)
}

pub open spec fn method_ok(m: Method) -> bool {
    &&& type_ok(m.return_type)
    &&& forall|i: int| 0 <= i < m.args@.len() ==> arg_ok(#[trigger] m.args@[i])
}

pub open spec fn const_ok(c: Const) -> bool {
    type_ok(c.const_type)
}

pub open spec fn field_ok(f: Field) -> bool {
    type_ok(f.field_type)
}

pub open spec fn interface_element_ok(e: InterfaceElement) -> bool {
    match e {
        InterfaceElement::Const(c) => const_ok(c),
        InterfaceElement::Method(m) => method_ok(m),
    }
}

pub open spec fn parcelable_element_ok(e: ParcelableElement) -> bool {
    match e {
        ParcelableElement::Const(c) => const_ok(c),
        ParcelableElement::Field(f) => field_ok(f),
    }
}

/// Every type in the item is well-formed and unresolved: what one parse
/// of a compilation unit guarantees of its result.
pub open spec fn item_ok(item: Item) -> bool {
    match item {
        Item::Interface(i) => forall|k: int|
            0 <= k < i.elements@.len() ==> interface_element_ok(#[trigger] i.elements@[k]),
        Item::Parcelable(p) => forall|k: int|
            0 <= k < p.elements@.len() ==> parcelable_element_ok(#[trigger] p.elements@[k]),
        Item::Enum(_) => true,
    }
}

pub open spec fn aidl_ok(a: Aidl) -> bool {
    item_ok(a.item)
}


/// Cloning any node of the tree yields an equal value; these impls say so
/// where a derived clone would say nothing.
impl Clone for TypeKind {
    fn clone(&self) -> (r: Self)
        ensures
            r == *self,
    {
        match self {
            TypeKind::Primitive => TypeKind::Primitive,
            TypeKind::Void => TypeKind::Void,
            TypeKind::Array => TypeKind::Array,
            TypeKind::MapType => TypeKind::MapType,
            TypeKind::List => TypeKind::List,
            TypeKind::StringType => TypeKind::StringType,
            TypeKind::CharSequence => TypeKind::CharSequence,
            TypeKind::AndroidType(a) => TypeKind::AndroidType(*a),
            TypeKind::ResolvedItem(q, k) => TypeKind::ResolvedItem(q.clone(), *k),
            TypeKind::Unresolved => TypeKind::Unresolved,
        }
    }
}

impl Clone for Type {
    fn clone(&self) -> (r: Self)
        ensures
            r.name == self.name,
            r.kind == self.kind,
            r.generic_types@.len() == self.generic_types@.len(),
            r.symbol_range == self.symbol_range,
            r.full_range == self.full_range,
        decreases *self,
    {
        let mut generic_types: Vec<Type> = Vec::new();
        let n = self.generic_types.len();
        let mut k: usize = 0;
        while k < n
            invariant
                n == self.generic_types@.len(),
                k <= n,
                generic_types@.len() == k,
            decreases n - k,
        {
            proof {
                assert(decreases_to!(*self => self.generic_types@[k as int]));
            }
            generic_types.push(self.generic_types[k].clone());
            k = k + 1;
        }
        Type {
            name: self.name.clone(),
            kind: self.kind.clone(),
            generic_types,
            symbol_range: self.symbol_range,
            full_range: self.full_range,
        }
    }
}

/// Clone an optional string.
pub fn clone_opt_string(o: &Option<String>) -> (r: Option<String>)
    ensures
        r == *o,
{
    match o {
        Some(s) => Some(s.clone()),
        None => None,
    }
}

impl Clone for Annotation {
    fn clone(&self) -> (r: Self)
        ensures
            r.name == self.name,
            r.key_values@ == self.key_values@,
    {
        let mut key_values: Vec<(String, Option<String>)> = Vec::new();
        let n = self.key_values.len();
        let mut k: usize = 0;
        while k < n
            invariant
                n == self.key_values@.len(),
                k <= n,
                key_values@ =~= self.key_values@.take(k as int),
            decreases n - k,
        {
            key_values.push((self.key_values[k].0.clone(), clone_opt_string(&self.key_values[k].1)));
            proof {
                assert(self.key_values@.take(k + 1) =~= self.key_values@.take(k as int).push(
                    self.key_values@[k as int],
                ));
            }
            k = k + 1;
        }
        proof {
            assert(key_values@ =~= self.key_values@);
        }
        Annotation { name: self.name.clone(), key_values }
    }
}

/// The mathematical content of one annotation: its name and its pairs,
/// each string read as its character sequence.
pub open spec fn ann_view(a: Annotation) -> (Seq<char>, Seq<(Seq<char>, Option<Seq<char>>)>) {
    (
        a.name@,
        a.key_values@.map_values(
            |p: (String, Option<String>)|
                (
                    p.0@,
                    match p.1 {
                        Some(v) => Some(v@),
                        None => None,
                    },
                ),
        ),
    )
}

/// The contents of a list of annotations.
pub open spec fn anns_view(s: Seq<Annotation>) -> Seq<(Seq<char>, Seq<(Seq<char>, Option<Seq<char>>)>)> {
    s.map_values(|a: Annotation| ann_view(a))
}

/// Clone a list of annotations; the clones carry the same contents.
pub fn clone_annotations(v: &Vec<Annotation>) -> (r: Vec<Annotation>)
    ensures
        anns_view(r@) == anns_view(v@),
{
    let mut out: Vec<Annotation> = Vec::new();
    let n = v.len();
    let mut k: usize = 0;
    while k < n
        invariant
            n == v@.len(),
            k <= n,
            out@.len() == k,
            forall|i: int| 0 <= i < k ==> ann_view(#[trigger] out@[i]) == ann_view(v@[i]),
        decreases n - k,
    {
        let c = v[k].clone();
        proof {
            assert(ann_view(c) =~= ann_view(v@[k as int]));
        }
        out.push(c);
        k = k + 1;
    }
    proof {
        assert(anns_view(out@) =~= anns_view(v@));
    }
    out
}

impl Clone for Const {
    fn clone(&self) -> (r: Self)
        ensures
            r.name == self.name,
            r.value == self.value,
            r.doc == self.doc,
            r.symbol_range == self.symbol_range,
            r.full_range == self.full_range,
    {
        Const {
            name: self.name.clone(),
            const_type: self.const_type.clone(),
            value: self.value.clone(),
            annotations: clone_annotations(&self.annotations),
            doc: clone_opt_string(&self.doc),
            symbol_range: self.symbol_range,
            full_range: self.full_range,
        }
    }
}

impl Clone for Field {
    fn clone(&self) -> (r: Self)
        ensures
            r.name == self.name,
            r.value == self.value,
            r.doc == self.doc,
            r.symbol_range == self.symbol_range,
            r.full_range == self.full_range,
    {
        Field {
            name: self.name.clone(),
            field_type: self.field_type.clone(),
            value: clone_opt_string(&self.value),
            annotations: clone_annotations(&self.annotations),
            doc: clone_opt_string(&self.doc),
            symbol_range: self.symbol_range,
            full_range: self.full_range,
        }
    }
}

impl Clone for Arg {
    fn clone(&self) -> (r: Self)
        ensures
            r.direction == self.direction,
            r.name == self.name,
            r.symbol_range == self.symbol_range,
            r.full_range == self.full_range,
    {
        Arg {
            direction: self.direction,
            name: clone_opt_string(&self.name),
            arg_type: self.arg_type.clone(),
            annotations: clone_annotations(&self.annotations),
            doc: clone_opt_string(&self.doc),
            symbol_range: self.symbol_range,
            full_range: self.full_range,
        }
    }
}

impl Clone for Method {
    fn clone(&self) -> (r: Self)
        ensures
            r.oneway == self.oneway,
            r.name == self.name,
            r.transact_code == self.transact_code,
            r.doc == self.doc,
            r.args@.len() == self.args@.len(),
            r.symbol_range == self.symbol_range,
            r.full_range == self.full_range,
            r.transact_code_range == self.transact_code_range,
            r.oneway_range == self.oneway_range,
    {
        let mut args: Vec<Arg> = Vec::new();
        let n = self.args.len();
        let mut k: usize = 0;
        while k < n
            invariant
                n == self.args@.len(),
                k <= n,
                args@.len() == k,
            decreases n - k,
        {
            args.push(self.args[k].clone());
            k = k + 1;
        }
        Method {
            oneway: self.oneway,
            name: self.name.clone(),
            return_type: self.return_type.clone(),
            args,
            annotations: clone_annotations(&self.annotations),
            transact_code: self.transact_code,
            doc: clone_opt_string(&self.doc),
            symbol_range: self.symbol_range,
            full_range: self.full_range,
            transact_code_range: self.transact_code_range,
            oneway_range: self.oneway_range,
        }
    }
}

impl Clone for EnumElement {
    fn clone(&self) -> (r: Self)
        ensures
            r == *self,
    {
        EnumElement {
            name: self.name.clone(),
            value: clone_opt_string(&self.value),
            doc: clone_opt_string(&self.doc),
            symbol_range: self.symbol_range,
            full_range: self.full_range,
        }
    }
}

impl Clone for InterfaceElement {
    fn clone(&self) -> (r: Self)
        ensures
            r is Method <==> self is Method,
    {
        match self {
            InterfaceElement::Const(c) => InterfaceElement::Const(c.clone()),
            InterfaceElement::Method(m) => InterfaceElement::Method(m.clone()),
        }
    }
}

impl Clone for ParcelableElement {
    fn clone(&self) -> (r: Self)
        ensures
            r is Field <==> self is Field,
    {
        match self {
            ParcelableElement::Const(c) => ParcelableElement::Const(c.clone()),
            ParcelableElement::Field(f) => ParcelableElement::Field(f.clone()),
        }
    }
}

impl Clone for Interface {
    fn clone(&self) -> (r: Self)
        ensures
            r.oneway == self.oneway,
            r.name == self.name,
            r.elements@.len() == self.elements@.len(),
            r.doc == self.doc,
            r.full_range == self.full_range,
            r.symbol_range == self.symbol_range,
    {
        let mut elements: Vec<InterfaceElement> = Vec::new();
        let n = self.elements.len();
        let mut k: usize = 0;
        while k < n
            invariant
                n == self.elements@.len(),
                k <= n,
                elements@.len() == k,
            decreases n - k,
        {
            elements.push(self.elements[k].clone());
            k = k + 1;
        }
        Interface {
            oneway: self.oneway,
            name: self.name.clone(),
            elements,
            annotations: clone_annotations(&self.annotations),
            doc: clone_opt_string(&self.doc),
            full_range: self.full_range,
            symbol_range: self.symbol_range,
        }
    }
}

impl Clone for Parcelable {
    fn clone(&self) -> (r: Self)
        ensures
            r.name == self.name,
            r.elements@.len() == self.elements@.len(),
            r.doc == self.doc,
            r.full_range == self.full_range,
            r.symbol_range == self.symbol_range,
    {
        let mut elements: Vec<ParcelableElement> = Vec::new();
        let n = self.elements.len();
        let mut k: usize = 0;
        while k < n
            invariant
                n == self.elements@.len(),
                k <= n,
                elements@.len() == k,
            decreases n - k,
        {
            elements.push(self.elements[k].clone());
            k = k + 1;
        }
        Parcelable {
            name: self.name.clone(),
            elements,
            annotations: clone_annotations(&self.annotations),
            doc: clone_opt_string(&self.doc),
            full_range: self.full_range,
            symbol_range: self.symbol_range,
        }
    }
}

impl Clone for Enum {
    fn clone(&self) -> (r: Self)
        ensures
            r.name == self.name,
            r.elements@.len() == self.elements@.len(),
            r.doc == self.doc,
            r.full_range == self.full_range,
            r.symbol_range == self.symbol_range,
    {
        let mut elements: Vec<EnumElement> = Vec::new();
        let n = self.elements.len();
        let mut k: usize = 0;
        while k < n
            invariant
                n == self.elements@.len(),
                k <= n,
                elements@.len() == k,
            decreases n - k,
        {
            elements.push(self.elements[k].clone());
            k = k + 1;
        }
        Enum {
            name: self.name.clone(),
            elements,
            annotations: clone_annotations(&self.annotations),
            doc: clone_opt_string(&self.doc),
            full_range: self.full_range,
            symbol_range: self.symbol_range,
        }
    }
}

impl Clone for Item {
    fn clone(&self) -> (r: Self)
        ensures
            r.spec_kind() == self.spec_kind(),
            r.spec_name()@ == self.spec_name()@,
    {
        match self {
            Item::Interface(i) => Item::Interface(i.clone()),
            Item::Parcelable(p) => Item::Parcelable(p.clone()),
            Item::Enum(e) => Item::Enum(e.clone()),
        }
    }
}

impl Clone for Package {
    fn clone(&self) -> (r: Self)
        ensures
            r == *self,
    {
        Package {
            name: self.name.clone(),
            symbol_range: self.symbol_range,
            full_range: self.full_range,
        }
    }
}

impl Clone for Import {
    fn clone(&self) -> (r: Self)
        ensures
            r == *self,
    {
        Import {
            path: self.path.clone(),
            name: self.name.clone(),
            symbol_range: self.symbol_range,
            full_range: self.full_range,
        }
    }
}

/// Clone a list of imports.
pub fn clone_imports(v: &Vec<Import>) -> (r: Vec<Import>)
    ensures
        r@ == v@,
{
    let mut out: Vec<Import> = Vec::new();
    let n = v.len();
    let mut k: usize = 0;
    while k < n
        invariant
            n == v@.len(),
            k <= n,
            out@ =~= v@.take(k as int),
        decreases n - k,
    {
        out.push(v[k].clone());
        proof {
            assert(v@.take(k + 1) =~= v@.take(k as int).push(v@[k as int]));
        }
        k = k + 1;
    }
    proof {
        assert(out@ =~= v@);
    }
    out
}

impl Clone for Aidl {
    fn clone(&self) -> (r: Self)
        ensures
            r.package == self.package,
            r.imports@ == self.imports@,
            r.declared_parcelables@ == self.declared_parcelables@,
            r.item.spec_kind() == self.item.spec_kind(),
            r.item.spec_name()@ == self.item.spec_name()@,
            r.spec_key() == self.spec_key(),
    {
        Aidl {
            package: self.package.clone(),
            imports: clone_imports(&self.imports),
            declared_parcelables: clone_imports(&self.declared_parcelables),
            item: self.item.clone(),
        }
    }
}

} // verus!
