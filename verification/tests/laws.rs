//! The library's stated behaviors on concrete inputs: minimal units,
//! container rules, method id rules, oneway propagation, and a project
//! end to end; plus the symbol renderings.

use aidl_parser::Parser;
use aidl_parser::ast::AndroidTypeKind;
use aidl_parser::ast::TypeKind;
use aidl_parser::diagnostic::DiagnosticKind;
use aidl_parser::rules::parse_aidl;
use aidl_parser::rules::parse_method;
use aidl_parser::rules::parse_type;
use aidl_parser::symbol::Symbol;
use aidl_parser::traverse::SymbolFilter;
use aidl_parser::traverse::find_symbol_at_line_col;
use aidl_parser::traverse::filter_symbols;
use aidl_parser::traverse::walk_symbols;
use aidl_parser::traverse::find_symbol;
use aidl_parser::traverse::walk_args;
use aidl_parser::traverse::walk_types;

/// A minimal valid unit parses with zero diagnostics and its item name.
#[test]
fn minimal_unit_parses_clean() {
    let mut parser = Parser::new();
    parser.add_content(0, "package a.b.c; parcelable X {}");
    let res = parser.validate();
    assert_eq!(res.len(), 1);
    assert!(res[0].diagnostics.is_empty());
    let ast = res[0].ast.as_ref().expect("ast");
    assert_eq!(ast.item.get_name(), "X");
    assert_eq!(ast.get_key(), "a.b.c.X");
}

/// Every parsed array type carries exactly one parameter, however deeply
/// arrays are nested, and an array of an array draws exactly one error
/// naming it multi-dimensional.
#[test]
fn array_of_array_is_one_error() {
    let mut parser = Parser::new();
    parser.add_content(0, "package a.b.c; parcelable X { int[][] data; }");
    let res = parser.validate();
    let ast = res[0].ast.as_ref().expect("ast");
    for t in walk_types(ast) {
        if t.kind == TypeKind::Array {
            assert_eq!(t.generic_types.len(), 1);
        }
    }
    let errors: Vec<_> = res[0]
        .diagnostics
        .iter()
        .filter(|d| d.kind == DiagnosticKind::Error)
        .collect();
    assert_eq!(errors.len(), 1);
    assert!(errors[0].message.contains("multi-dimensional"));
}

/// A zero-parameter list or map draws exactly one warning recommending
/// parameters, wherever it stands.
#[test]
fn non_generic_containers_draw_one_warning() {
    let mut parser = Parser::new();
    parser.add_content(0, "package a.b.c; interface I { void put(in List l); }");
    let res = parser.validate();
    let warnings: Vec<_> = res[0]
        .diagnostics
        .iter()
        .filter(|d| d.kind == DiagnosticKind::Warning)
        .collect();
    assert_eq!(warnings.len(), 1);
    assert!(warnings[0].message.contains("not recommended"));

    let mut parser = Parser::new();
    parser.add_content(0, "package a.b.c; parcelable P { Map table; }");
    let res = parser.validate();
    let warnings: Vec<_> = res[0]
        .diagnostics
        .iter()
        .filter(|d| d.kind == DiagnosticKind::Warning)
        .collect();
    assert_eq!(warnings.len(), 1);
    assert!(warnings[0].message.contains("not recommended"));
}

/// A forbidden container element draws exactly one error, independent of
/// its position in the unit.
#[test]
fn forbidden_container_elements() {
    // a map key must be String
    let mut parser = Parser::new();
    parser.add_content(0, "package a.b.c; parcelable P { Map<int, String> m; }");
    let res = parser.validate();
    let errors: Vec<_> = res[0]
        .diagnostics
        .iter()
        .filter(|d| d.kind == DiagnosticKind::Error)
        .collect();
    assert_eq!(errors.len(), 1);
    assert!(errors[0].message.contains("Invalid map key `int`"));

    // a list cannot hold primitives
    let mut parser = Parser::new();
    parser.add_content(0, "package a.b.c; interface I { void f(in List<int> l); }");
    let res = parser.validate();
    let errors: Vec<_> = res[0]
        .diagnostics
        .iter()
        .filter(|d| d.kind == DiagnosticKind::Error)
        .collect();
    assert_eq!(errors.len(), 1);
    assert!(errors[0].message.contains("Invalid list element `int`"));
}

/// Duplicated imports: exactly one error on the later entry, with a
/// pointer at the earlier one; unresolved and unused imports draw exactly
/// one warning each.
#[test]
fn import_hygiene() {
    let text = "package a.b.c;\nimport d.e.F;\nimport d.e.F;\nparcelable X { d.e.F f; }";
    let mut parser = Parser::new();
    parser.add_content(0, text);
    let res = parser.validate();
    let dups: Vec<_> = res[0]
        .diagnostics
        .iter()
        .filter(|d| d.message.contains("Duplicated import"))
        .collect();
    assert_eq!(dups.len(), 1);
    assert_eq!(dups[0].kind, DiagnosticKind::Error);
    // the error stands on the second occurrence (line 3) and points at
    // the first (line 2)
    assert_eq!(dups[0].range.start.line_col.0, 3);
    assert_eq!(dups[0].related_infos.len(), 1);
    assert_eq!(dups[0].related_infos[0].range.start.line_col.0, 2);
    // the import resolves to nothing known: one unresolved warning, and
    // never an unused one, since it is referenced
    let unresolved: Vec<_> = res[0]
        .diagnostics
        .iter()
        .filter(|d| d.message.contains("Unresolved import"))
        .collect();
    assert_eq!(unresolved.len(), 1);
    assert!(!res[0]
        .diagnostics
        .iter()
        .any(|d| d.message.contains("Unused import")));
}

/// The scenario of the method id rules: one mixed-usage error at the
/// first id-bearing method, one duplicated id, one duplicated name.
#[test]
fn method_id_rules() {
    let text = r#"package a.b.c;
interface I {
    void m0();
    void m1() = 1;
    void m2() = 2;
    void m2() = 2;
    void m3() = 2;
}"#;
    let mut parser = Parser::new();
    parser.add_content(0, text);
    let res = parser.validate();
    let mixed: Vec<_> = res[0]
        .diagnostics
        .iter()
        .filter(|d| d.message.contains("Mixed usage of method ids"))
        .collect();
    assert_eq!(mixed.len(), 1);
    assert_eq!(mixed[0].range.start.line_col.0, 4);
    let dup_names: Vec<_> = res[0]
        .diagnostics
        .iter()
        .filter(|d| d.message.contains("Duplicated method name"))
        .collect();
    assert_eq!(dup_names.len(), 1);
    let dup_ids: Vec<_> = res[0]
        .diagnostics
        .iter()
        .filter(|d| d.message.contains("Duplicated method id"))
        .collect();
    assert_eq!(dup_ids.len(), 1);
}

/// A oneway interface: a plain and an already-oneway method both come
/// out oneway; exactly one warning and zero errors.
#[test]
fn oneway_interface_propagates() {
    let text = r#"package a.b.c;
oneway interface I {
    void plain();
    oneway void marked();
}"#;
    let mut parser = Parser::new();
    parser.add_content(0, text);
    let res = parser.validate();
    let ast = res[0].ast.as_ref().expect("ast");
    let interface = ast.item.as_interface().expect("interface");
    for el in &interface.elements {
        let m = el.as_method().expect("method");
        assert!(m.oneway);
    }
    let errors = res[0]
        .diagnostics
        .iter()
        .filter(|d| d.kind == DiagnosticKind::Error)
        .count();
    let warnings: Vec<_> = res[0]
        .diagnostics
        .iter()
        .filter(|d| d.kind == DiagnosticKind::Warning)
        .collect();
    assert_eq!(errors, 0);
    assert_eq!(warnings.len(), 1);
    assert!(warnings[0].message.contains("does not need to be marked as oneway"));
}

/// Three units referencing each other produce zero diagnostics; pointing
/// the interface at a missing name yields one unknown-type error and an
/// unresolved (never unused) import warning.
#[test]
fn project_end_to_end() {
    let interface_ok = "package p.q;\nimport p.q.E;\nimport p.q.P;\ninterface I { E get(in P data); }";
    let enum_unit = "package p.q; enum E { A, B }";
    let parcelable_unit = "package p.q; parcelable P { int x; }";

    let mut parser = Parser::new();
    parser.add_content(0, interface_ok);
    parser.add_content(1, enum_unit);
    parser.add_content(2, parcelable_unit);
    let res = parser.validate();
    for r in &res {
        assert!(r.diagnostics.is_empty());
    }

    // break the import target
    let interface_bad =
        "package p.q;\nimport p.q.Enigma;\nimport p.q.P;\ninterface I { Enigma get(in P data); }";
    parser.add_content(0, interface_bad);
    let res = parser.validate();
    let r0 = res.iter().find(|r| r.id == 0).expect("result");
    let errors: Vec<_> = r0
        .diagnostics
        .iter()
        .filter(|d| d.kind == DiagnosticKind::Error)
        .collect();
    assert_eq!(errors.len(), 0);
    // the type resolves against the import (an unknown import), so there
    // is no unknown-type error, only the unresolved-import warning
    assert!(r0
        .diagnostics
        .iter()
        .any(|d| d.message.contains("Unresolved import `p.q.Enigma`")));
    assert!(!r0
        .diagnostics
        .iter()
        .any(|d| d.message.contains("Unused import")));

    // a reference with no import at all is an unknown type
    let interface_unknown = "package p.q;\ninterface I { Mystery get(); }";
    parser.add_content(0, interface_unknown);
    let res = parser.validate();
    let r0 = res.iter().find(|r| r.id == 0).expect("result");
    let errors: Vec<_> = r0
        .diagnostics
        .iter()
        .filter(|d| d.kind == DiagnosticKind::Error)
        .collect();
    assert_eq!(errors.len(), 1);
    assert!(errors[0].message.contains("Unknown type `Mystery`"));
}

/// A transact code that does not fit in 32 bits is rejected as a
/// malformed element.
#[test]
fn transact_code_overflow() {
    let mut diagnostics = Vec::new();
    assert!(parse_method("void m() = 4294967295;", &mut diagnostics).is_ok());
    assert!(parse_method("void m() = 4294967296;", &mut diagnostics).is_err());
}

/// The symbol renderings: signatures and details of the walked nodes.
#[test]
fn symbol_renderings() {
    let text = r#"package x.y;
import a.b.C;
interface I {
    const int K = 3;
    String greet(in C who, out Map<String, List<C>> extra);
}"#;
    let mut parser = Parser::new();
    parser.add_content(0, text);
    let res = parser.validate();
    let ast = res.into_iter().next().unwrap().ast.unwrap();

    let symbols = walk_symbols(&ast, SymbolFilter::All);
    let signatures: Vec<String> = symbols.iter().map(|s| s.get_signature()).collect();
    assert!(signatures.contains(&"package x.y".to_owned()));
    assert!(signatures.contains(&"import a.b.C".to_owned()));
    assert!(signatures.contains(&"interface I".to_owned()));
    assert!(signatures.contains(&"const int K".to_owned()));
    assert!(signatures
        .contains(&"String greet(in C who, out Map<String, List<C>> extra)".to_owned()));
    assert!(signatures.contains(&"Map<String, List<C>>".to_owned()));

    // qualified names
    let quals: Vec<Option<String>> = symbols.iter().map(|s| s.get_qualified_name()).collect();
    assert!(quals.contains(&Some("x.y.I".to_owned())));
    assert!(quals.contains(&Some("I::greet".to_owned())));
    assert!(quals.contains(&Some("I::K".to_owned())));

    // details
    let method = symbols
        .iter()
        .find(|s| matches!(s, Symbol::Method(_, _)))
        .unwrap();
    assert_eq!(
        method.get_details().as_deref(),
        Some("String(in C, out Map<String, List<C>>)")
    );

    // the three depths yield increasing symbol counts
    let only_items = walk_symbols(&ast, SymbolFilter::ItemsOnly);
    assert_eq!(only_items.len(), 1);
    let with_elements = walk_symbols(&ast, SymbolFilter::ItemsAndItemElements);
    assert_eq!(with_elements.len(), 3);
    assert!(symbols.len() > with_elements.len());

    // filtering and position lookup
    let methods = filter_symbols(&ast, SymbolFilter::All, |s| {
        matches!(s, Symbol::Method(_, _))
    });
    assert_eq!(methods.len(), 1);
    let at = find_symbol_at_line_col(&ast, SymbolFilter::ItemsAndItemElements, (5, 12))
        .expect("symbol at position");
    assert_eq!(at.get_name().as_deref(), Some("greet"));
}

/// Field signatures render as `type name`.
#[test]
fn field_signature() {
    let mut diagnostics = Vec::new();
    let p = aidl_parser::rules::parse_parcelable(
        "parcelable P { byte[] data; }",
        &mut diagnostics,
    )
    .unwrap();
    let f = p.elements[0].as_field().unwrap();
    assert_eq!(f.get_signature(), "Array data");
}

/// The platform builtin catalog answers by canonical qualified name.
#[test]
fn builtin_catalog() {
    assert!(AndroidTypeKind::is_android_type_kind("android.os.IBinder"));
    assert!(AndroidTypeKind::is_android_type_kind("android.os.ParcelableHolder"));
    assert!(!AndroidTypeKind::is_android_type_kind("android.os.Unknown"));
    assert_eq!(
        AndroidTypeKind::IBinder.get_qualified_name(),
        "android.os.IBinder"
    );
}

/// An empty input is an unrecoverable failure, not a crash.
#[test]
fn empty_input() {
    let mut diagnostics = Vec::new();
    assert!(parse_aidl("", &mut diagnostics).is_err());
}

/// Extra input after a complete unit is rejected.
#[test]
fn extra_token_after_item() {
    let mut diagnostics = Vec::new();
    let r = parse_aidl("package a.b; parcelable X {} garbage", &mut diagnostics);
    assert!(r.is_err());
    assert!(r.unwrap_err().message.contains("Extra token `garbage`"));
}

/// An unterminated body is an unrecoverable item failure.
#[test]
fn unterminated_body() {
    let mut diagnostics = Vec::new();
    let r = parse_aidl("package a.b; interface I { void m();", &mut diagnostics);
    assert!(r.unwrap().is_none());
    assert!(!diagnostics.is_empty());
}

/// Array suffixes bind to generic containers too; the validator reports
/// the misuse rather than the parser.
#[test]
fn array_of_list() {
    let mut diagnostics = Vec::new();
    let t = parse_type("List<String>[]", &mut diagnostics).unwrap();
    assert_eq!(t.kind, TypeKind::Array);
    assert_eq!(t.generic_types[0].kind, TypeKind::List);
}

/// Every argument pairs up with its owning method in the walk.
#[test]
fn args_walk() {
    let text = "package x.y;\ninterface I { void a(in int p); void b(); void c(in int q, in int r); }";
    let mut parser = Parser::new();
    parser.add_content(0, text);
    let res = parser.validate();
    let ast = res.into_iter().next().unwrap().ast.unwrap();
    let args = walk_args(&ast);
    assert_eq!(args.len(), 3);
    assert_eq!(args[0].0.name, "a");
    assert_eq!(args[0].1.name.as_deref(), Some("p"));
    assert_eq!(args[1].0.name, "c");
    assert_eq!(args[2].1.name.as_deref(), Some("r"));

    let found = find_symbol(&ast, SymbolFilter::ItemsAndItemElements, |s| {
        s.get_name().as_deref() == Some("b")
    })
    .expect("symbol");
    assert_eq!(found.get_signature(), "void b()");

    let all = AndroidTypeKind::get_all();
    assert_eq!(all.len(), 4);
}
