//! The resolution and validation passes on hand-built trees.

use aidl_parser::ast;
use aidl_parser::ast::AndroidTypeKind;
use aidl_parser::ast::ResolvedItemKind;
use aidl_parser::ast::TypeKind;
use aidl_parser::diagnostic::Diagnostic;
use aidl_parser::diagnostic::DiagnosticKind;
use aidl_parser::validation::check_container;
use aidl_parser::validation::check_declared_parcelables;
use aidl_parser::validation::check_imports;
use aidl_parser::validation::check_method;
use aidl_parser::validation::check_method_args;
use aidl_parser::validation::check_methods;
use aidl_parser::validation::resolve_type;
use aidl_parser::validation::set_up_oneway_interface;
use aidl_parser::validation::sort_diagnostics;

fn create_range(line: usize) -> ast::Range {
    ast::Range {
        start: ast::Position {
            offset: 0,
            line_col: (line, 10),
        },
        end: ast::Position {
            offset: 0,
            line_col: (line, 20),
        },
    }
}

fn create_import(path: &str, name: &str, line: usize) -> ast::Import {
    ast::Import {
        path: path.to_owned(),
        name: name.to_owned(),
        symbol_range: create_range(line),
        full_range: create_range(line),
    }
}

fn create_simple_type(name: &str, kind: TypeKind, line: usize) -> ast::Type {
    ast::Type {
        name: name.into(),
        kind,
        generic_types: Vec::new(),
        symbol_range: create_range(line),
        full_range: create_range(line),
    }
}

fn create_int(line: usize) -> ast::Type {
    create_simple_type("int", TypeKind::Primitive, line)
}

fn create_void(line: usize) -> ast::Type {
    create_simple_type("void", TypeKind::Void, line)
}

fn create_string(line: usize) -> ast::Type {
    create_simple_type("String", TypeKind::StringType, line)
}

fn create_char_sequence(line: usize) -> ast::Type {
    create_simple_type("CharSequence", TypeKind::CharSequence, line)
}

fn create_android_builtin(android_kind: AndroidTypeKind, line: usize) -> ast::Type {
    let name = android_kind.get_name().to_owned();
    create_simple_type(&name, TypeKind::AndroidType(android_kind), line)
}

fn create_array(generic_type: ast::Type, line: usize) -> ast::Type {
    ast::Type {
        name: "Array".into(),
        kind: TypeKind::Array,
        generic_types: vec![generic_type],
        symbol_range: create_range(line),
        full_range: create_range(line),
    }
}

fn create_list(generic_type: Option<ast::Type>, line: usize) -> ast::Type {
    ast::Type {
        name: "List".into(),
        kind: TypeKind::List,
        generic_types: generic_type.map(|t| vec![t]).unwrap_or_default(),
        symbol_range: create_range(line),
        full_range: create_range(line),
    }
}

fn create_map(key_value_types: Option<(ast::Type, ast::Type)>, line: usize) -> ast::Type {
    ast::Type {
        name: "Map".into(),
        kind: TypeKind::MapType,
        generic_types: key_value_types
            .map(|(k, v)| vec![k, v])
            .unwrap_or_default(),
        symbol_range: create_range(line),
        full_range: create_range(line),
    }
}

fn create_resolved_item_type(path: &str, item_kind: ResolvedItemKind, line: usize) -> ast::Type {
    ast::Type {
        name: "TestCustomType".into(),
        kind: TypeKind::ResolvedItem(path.into(), item_kind),
        generic_types: Vec::new(),
        symbol_range: create_range(line),
        full_range: create_range(line),
    }
}

fn create_unresolved_type(path: &str, line: usize) -> ast::Type {
    ast::Type {
        name: path.to_owned(),
        kind: TypeKind::Unresolved,
        generic_types: Vec::new(),
        symbol_range: create_range(line),
        full_range: create_range(line),
    }
}

fn create_method_with_name_and_id(name: &str, id: Option<u32>, line: usize) -> ast::Method {
    ast::Method {
        oneway: false,
        name: name.into(),
        return_type: create_int(0),
        args: Vec::new(),
        annotations: Vec::new(),
        transact_code: id,
        doc: None,
        symbol_range: create_range(line),
        full_range: create_range(line),
        transact_code_range: create_range(line + 1),
        oneway_range: create_range(line + 2),
    }
}

fn create_arg(arg_type: ast::Type, direction: ast::Direction) -> ast::Arg {
    ast::Arg {
        direction,
        name: None,
        arg_type,
        annotations: Vec::new(),
        doc: None,
        symbol_range: create_range(0),
        full_range: create_range(0),
    }
}

fn resolve(
    t: &ast::Type,
    imports: &[&str],
    declared: &[&str],
    defined: &[(&str, ResolvedItemKind)],
) -> (ast::Type, Vec<Diagnostic>) {
    let imports: Vec<String> = imports.iter().map(|s| s.to_string()).collect();
    let declared: Vec<String> = declared.iter().map(|s| s.to_string()).collect();
    let table: Vec<(String, ResolvedItemKind)> = defined
        .iter()
        .map(|(s, k)| (s.to_string(), *k))
        .collect();
    let mut diagnostics = Vec::new();
    let mut resolved = Vec::new();
    let r = resolve_type(t, &imports, &declared, &table, &mut diagnostics, &mut resolved);
    (r, diagnostics)
}

#[test]
fn test_check_resolve_type() {
    // IBinder properly resolved by its bare name
    let t = create_unresolved_type("IBinder", 1);
    let (r, diagnostics) = resolve(&t, &[], &[], &[]);
    assert_eq!(r.kind, TypeKind::AndroidType(AndroidTypeKind::IBinder));
    assert_eq!(diagnostics.len(), 0);

    // android.os.IBinder not resolvable by its qualified name alone
    let t = create_unresolved_type("android.os.IBinder", 1);
    let (r, diagnostics) = resolve(&t, &[], &[], &[]);
    assert_eq!(r.kind, TypeKind::Unresolved);
    assert_eq!(diagnostics.len(), 1);

    // android.os.ParcelFileDescriptor may be written qualified
    let t = create_unresolved_type("android.os.ParcelFileDescriptor", 1);
    let (r, diagnostics) = resolve(&t, &[], &[], &[]);
    assert_eq!(
        r.kind,
        TypeKind::AndroidType(AndroidTypeKind::ParcelFileDescriptor)
    );
    assert_eq!(diagnostics.len(), 0);

    // an unknown type
    let t = create_unresolved_type("UnknownType", 1);
    let (r, diagnostics) = resolve(&t, &[], &[], &[]);
    assert_eq!(r.kind, TypeKind::Unresolved);
    assert_eq!(diagnostics.len(), 1);
    assert!(diagnostics[0].message.contains("Unknown type `UnknownType`"));

    // unknown but imported
    let t = create_unresolved_type("UnknownType", 1);
    let (r, diagnostics) = resolve(&t, &["path.to.UnknownType"], &[], &[]);
    assert_eq!(
        r.kind,
        TypeKind::ResolvedItem(
            "path.to.UnknownType".to_owned(),
            ResolvedItemKind::UnknownImport
        )
    );
    assert_eq!(diagnostics.len(), 0);

    // a forward-declared parcelable
    let t = create_unresolved_type("ForwardDeclaredParcelable", 1);
    let (r, diagnostics) = resolve(&t, &[], &["ForwardDeclaredParcelable"], &[]);
    assert_eq!(
        r.kind,
        TypeKind::ResolvedItem(
            "ForwardDeclaredParcelable".to_owned(),
            ResolvedItemKind::ForwardDeclaredParcelable
        )
    );
    assert_eq!(diagnostics.len(), 0);

    // a forward declaration with a path never matches
    let t = create_unresolved_type("ForwardDeclaredParcelable", 1);
    let (r, diagnostics) = resolve(&t, &[], &["path.to.ForwardDeclaredParcelable"], &[]);
    assert_eq!(r.kind, TypeKind::Unresolved);
    assert_eq!(diagnostics.len(), 1);
}

#[test]
fn test_check_imports() {
    let imports = vec![
        create_import("test.path", "TestParcelable", 1),
        create_import("test.path", "TestParcelable", 2),
        create_import("test.path", "TestInterface", 3),
        create_import("test.path", "UnusedEnum", 4),
        create_import("test.path", "NonExisting", 5),
        create_import("android.os", "IBinder", 6),
        create_import("android.os", "ParcelFileDescriptor", 7),
    ];

    let resolved: Vec<String> = vec![
        "test.path.TestParcelable".into(),
        "test.path.TestInterface".into(),
        "android.os.ParcelFileDescriptor".into(),
    ];
    let defined: Vec<(String, ResolvedItemKind)> = vec![
        (
            "test.path.TestParcelable".into(),
            ResolvedItemKind::Parcelable,
        ),
        (
            "test.path.TestInterface".into(),
            ResolvedItemKind::Interface,
        ),
        ("test.path.UnusedEnum".into(), ResolvedItemKind::Enum),
    ];
    let mut diagnostics = Vec::new();

    check_imports(&imports, &resolved, &defined, &mut diagnostics);
    sort_diagnostics(&mut diagnostics);

    assert_eq!(diagnostics.len(), 4);

    let d = &diagnostics[0];
    assert_eq!(d.kind, DiagnosticKind::Error);
    assert!(d.message.contains("Duplicated import"));
    assert_eq!(d.range.start.line_col.0, 2);

    let d = &diagnostics[1];
    assert_eq!(d.kind, DiagnosticKind::Warning);
    assert!(d.message.contains("Unused import `test.path.UnusedEnum`"));
    assert_eq!(d.range.start.line_col.0, 4);

    let d = &diagnostics[2];
    assert_eq!(d.kind, DiagnosticKind::Warning);
    assert!(d.message.contains("Unresolved import `test.path.NonExisting`"));
    assert_eq!(d.range.start.line_col.0, 5);

    let d = &diagnostics[3];
    assert_eq!(d.kind, DiagnosticKind::Warning);
    assert!(d.message.contains("Unused import `android.os.IBinder`"));
    assert_eq!(d.range.start.line_col.0, 6);
}

#[test]
fn test_check_declared_parcelables() {
    let declared_parcelables = vec![
        create_import("", "DeclaredParcelable1", 2),
        create_import("", "DeclaredParcelable1", 3),
        create_import("", "DeclaredParcelable2", 4),
        create_import("", "UnusedParcelable", 5),
        create_import("", "AlreadyImported", 6),
    ];

    let import_map: Vec<(String, String, ast::Range)> = vec![(
        "test.other.path.AlreadyImported".into(),
        "AlreadyImported".into(),
        create_range(1),
    )];
    let resolved: Vec<String> = vec![
        "test.path.DeclaredParcelable1".into(),
        "test.path.DeclaredParcelable2".into(),
    ];
    let mut diagnostics = Vec::new();

    check_declared_parcelables(&declared_parcelables, &import_map, &resolved, &mut diagnostics);
    sort_diagnostics(&mut diagnostics);

    assert_eq!(diagnostics.len(), 5);

    let d = &diagnostics[0];
    assert_eq!(d.kind, DiagnosticKind::Warning);
    assert_eq!(d.range.start.line_col.0, 2);

    let d = &diagnostics[1];
    assert_eq!(d.kind, DiagnosticKind::Error);
    assert!(d.message.contains("Multiple parcelable declarations"));
    assert_eq!(d.range.start.line_col.0, 3);

    let d = &diagnostics[2];
    assert_eq!(d.kind, DiagnosticKind::Warning);
    assert_eq!(d.range.start.line_col.0, 4);

    let d = &diagnostics[3];
    assert_eq!(d.kind, DiagnosticKind::Warning);
    assert!(d.message.contains("Unused declared parcelable `UnusedParcelable`"));
    assert_eq!(d.range.start.line_col.0, 5);

    let d = &diagnostics[4];
    assert_eq!(d.kind, DiagnosticKind::Error);
    assert!(d.message.contains("conflicts"));
    assert_eq!(d.range.start.line_col.0, 6);
}

#[test]
fn test_check_container() {
    // valid arrays
    for t in [
        create_int(0),
        create_string(0),
        create_android_builtin(AndroidTypeKind::IBinder, 0),
        create_android_builtin(AndroidTypeKind::FileDescriptor, 0),
        create_android_builtin(AndroidTypeKind::ParcelFileDescriptor, 0),
        create_resolved_item_type("test.TestParcelable", ResolvedItemKind::Parcelable, 0),
        create_resolved_item_type("test.TestEnum", ResolvedItemKind::Enum, 0),
    ]
    .into_iter()
    {
        let array = create_array(t, 0);
        let mut diagnostics = Vec::new();
        check_container(&array, &mut diagnostics);
        assert_eq!(diagnostics.len(), 0);
    }

    // a multi-dimensional array
    let mut diagnostics = Vec::new();
    let array = create_array(create_array(create_int(0), 0), 0);
    check_container(&array, &mut diagnostics);
    assert_eq!(diagnostics.len(), 1);
    assert!(diagnostics[0].message.contains("Unsupported multi-dimensional array"));

    // invalid arrays
    for t in [
        create_android_builtin(AndroidTypeKind::ParcelableHolder, 0),
        create_list(None, 0),
        create_map(None, 0),
        create_resolved_item_type("test.TestInterface", ResolvedItemKind::Interface, 0),
        create_char_sequence(0),
        create_void(0),
    ]
    .into_iter()
    {
        let array = create_array(t, 0);
        let mut diagnostics = Vec::new();
        check_container(&array, &mut diagnostics);
        assert_eq!(diagnostics.len(), 1);
        assert!(diagnostics[0].message.contains("Invalid array"));
    }

    // valid lists
    for t in [
        create_string(0),
        create_android_builtin(AndroidTypeKind::IBinder, 0),
        create_android_builtin(AndroidTypeKind::ParcelFileDescriptor, 0),
        create_resolved_item_type("test.TestParcelable", ResolvedItemKind::Parcelable, 0),
    ]
    .into_iter()
    {
        let list = create_list(Some(t), 0);
        let mut diagnostics = Vec::new();
        check_container(&list, &mut diagnostics);
        assert_eq!(diagnostics.len(), 0);
    }

    // a non-generic list draws a warning
    let mut diagnostics = Vec::new();
    let list = create_list(None, 105);
    check_container(&list, &mut diagnostics);
    assert_eq!(diagnostics.len(), 1);
    assert_eq!(diagnostics[0].kind, DiagnosticKind::Warning);
    assert_eq!(diagnostics[0].range.start.line_col.0, 105);
    assert_eq!(diagnostics[0].range.end.line_col.0, 105);
    assert!(diagnostics[0].message.contains("not recommended"));

    // invalid lists
    for t in [
        create_void(0),
        create_char_sequence(0),
        create_android_builtin(AndroidTypeKind::ParcelableHolder, 0),
        create_android_builtin(AndroidTypeKind::FileDescriptor, 0),
        create_array(create_int(0), 0),
        create_list(None, 0),
        create_map(None, 0),
        create_resolved_item_type("test.TestInterface", ResolvedItemKind::Interface, 0),
        create_resolved_item_type("test.TestEnum", ResolvedItemKind::Enum, 0),
    ]
    .into_iter()
    {
        let list = create_list(Some(t), 0);
        let mut diagnostics = Vec::new();
        check_container(&list, &mut diagnostics);
        assert_eq!(diagnostics.len(), 1);
        assert!(diagnostics[0].message.contains("Invalid list"));
    }

    // valid maps
    for vt in [
        create_string(0),
        create_android_builtin(AndroidTypeKind::ParcelableHolder, 0),
        create_android_builtin(AndroidTypeKind::IBinder, 0),
        create_android_builtin(AndroidTypeKind::FileDescriptor, 0),
        create_android_builtin(AndroidTypeKind::ParcelFileDescriptor, 0),
        create_array(create_int(0), 0),
        create_list(None, 0),
        create_map(None, 0),
        create_resolved_item_type("test.TestParcelable", ResolvedItemKind::Parcelable, 0),
        create_resolved_item_type("test.TestInterface", ResolvedItemKind::Interface, 0),
    ]
    .into_iter()
    {
        let map = create_map(Some((create_string(0), vt)), 0);
        let mut diagnostics = Vec::new();
        check_container(&map, &mut diagnostics);
        assert_eq!(diagnostics.len(), 0);
    }

    // a non-generic map draws a warning
    let mut diagnostics = Vec::new();
    let map = create_map(None, 205);
    check_container(&map, &mut diagnostics);
    assert_eq!(diagnostics.len(), 1);
    assert_eq!(diagnostics[0].kind, DiagnosticKind::Warning);
    assert_eq!(diagnostics[0].range.start.line_col.0, 205);
    assert!(diagnostics[0].message.contains("not recommended"));

    // invalid map keys
    for kt in [
        create_void(0),
        create_char_sequence(0),
        create_array(create_int(0), 0),
        create_list(None, 0),
        create_map(None, 0),
        create_resolved_item_type("test.TestParcelable", ResolvedItemKind::Parcelable, 0),
        create_resolved_item_type("test.TestInterface", ResolvedItemKind::Interface, 0),
        create_resolved_item_type("test.TestEnum", ResolvedItemKind::Enum, 0),
    ]
    .into_iter()
    {
        let map = create_map(Some((kt, create_string(0))), 0);
        let mut diagnostics = Vec::new();
        check_container(&map, &mut diagnostics);
        assert_eq!(diagnostics.len(), 1);
        assert!(diagnostics[0].message.contains("Invalid map"));
    }

    // invalid map values
    for vt in [
        create_int(0),
        create_void(0),
        create_resolved_item_type("test.TestEnum", ResolvedItemKind::Enum, 0),
    ]
    .into_iter()
    {
        let map = create_map(Some((create_string(0), vt)), 0);
        let mut diagnostics = Vec::new();
        check_container(&map, &mut diagnostics);
        assert_eq!(diagnostics.len(), 1);
        assert!(diagnostics[0].message.contains("Invalid map"));
    }
}

#[test]
fn test_set_up_oneway() {
    let blocking_method = create_method_with_name_and_id("blocking_method", None, 20);

    let mut oneway_method = create_method_with_name_and_id("oneway_method", None, 10);
    oneway_method.oneway = true;

    let mut interface = ast::Interface {
        oneway: false,
        name: "testMethod".into(),
        elements: [blocking_method, oneway_method]
            .into_iter()
            .map(ast::InterfaceElement::Method)
            .collect(),
        annotations: Vec::new(),
        doc: None,
        full_range: create_range(5),
        symbol_range: create_range(5),
    };

    // a blocking interface: no change, no diagnostic
    assert!(!interface.oneway);
    let mut diagnostics = Vec::new();
    set_up_oneway_interface(&mut interface, &mut diagnostics);
    assert!(!interface.elements[0].as_method().unwrap().oneway);
    assert!(interface.elements[1].as_method().unwrap().oneway);
    assert_eq!(diagnostics.len(), 0);

    interface.oneway = true;

    // a oneway interface: the blocking method is forced to oneway, the
    // already-oneway one draws a warning
    let mut diagnostics = Vec::new();
    set_up_oneway_interface(&mut interface, &mut diagnostics);
    assert!(interface.elements[0].as_method().unwrap().oneway);
    assert!(interface.elements[1].as_method().unwrap().oneway);
    assert_eq!(diagnostics.len(), 1);
    assert_eq!(diagnostics[0].kind, DiagnosticKind::Warning);
    assert!(diagnostics[0].message.contains("does not need to be marked as oneway"));
    assert_eq!(diagnostics[0].related_infos.len(), 1);
    assert_eq!(diagnostics[0].related_infos[0].range.start.line_col.0, 5);
}

#[test]
fn test_check_method() {
    // a blocking method returning void
    let void_method = ast::Method {
        oneway: false,
        name: "test".into(),
        return_type: create_void(0),
        args: Vec::new(),
        annotations: Vec::new(),
        transact_code: None,
        doc: None,
        symbol_range: create_range(0),
        full_range: create_range(0),
        transact_code_range: create_range(0),
        oneway_range: create_range(0),
    };
    let mut diagnostics = Vec::new();
    check_method(&void_method, &mut diagnostics);
    assert_eq!(diagnostics.len(), 0);

    // a oneway method returning void
    let mut oneway_void_method = void_method;
    oneway_void_method.oneway = true;
    let mut diagnostics = Vec::new();
    check_method(&oneway_void_method, &mut diagnostics);
    assert_eq!(diagnostics.len(), 0);

    // a oneway method with a return value
    let mut oneway_int_method = oneway_void_method;
    oneway_int_method.return_type = create_int(0);
    let mut diagnostics = Vec::new();
    check_method(&oneway_int_method, &mut diagnostics);
    assert_eq!(diagnostics.len(), 1);
    assert!(diagnostics[0].message.contains("Invalid return type of async"));
}

#[test]
fn test_check_method_ids() {
    let methods = vec![
        create_method_with_name_and_id("method0", None, 10),
        create_method_with_name_and_id("method1", Some(1), 20),
        create_method_with_name_and_id("method2", Some(2), 30),
        create_method_with_name_and_id("method2", Some(3), 40),
        create_method_with_name_and_id("method3", Some(1), 50),
    ];

    let ast = ast::Aidl {
        package: ast::Package {
            name: "test.package".into(),
            symbol_range: create_range(0),
            full_range: create_range(0),
        },
        imports: Vec::new(),
        declared_parcelables: Vec::new(),
        item: ast::Item::Interface(ast::Interface {
            oneway: false,
            name: "testMethod".into(),
            elements: methods
                .into_iter()
                .map(ast::InterfaceElement::Method)
                .collect(),
            annotations: Vec::new(),
            doc: None,
            full_range: create_range(0),
            symbol_range: create_range(0),
        }),
    };

    let mut diagnostics = Vec::new();
    check_methods(&ast, &mut diagnostics);

    assert_eq!(diagnostics.len(), 3);

    // methods mixed with and without ids
    assert_eq!(diagnostics[0].kind, DiagnosticKind::Error);
    assert!(diagnostics[0].message.contains("Mixed usage of method id"));
    assert_eq!(diagnostics[0].range.start.line_col.0, 21);

    // a duplicated method name
    assert_eq!(diagnostics[1].kind, DiagnosticKind::Error);
    assert!(diagnostics[1].message.contains("Duplicated method name"));
    assert_eq!(diagnostics[1].range.start.line_col.0, 40);

    // a duplicated method id
    assert_eq!(diagnostics[2].kind, DiagnosticKind::Error);
    assert!(diagnostics[2].message.contains("Duplicated method id"));
    assert_eq!(diagnostics[2].range.start.line_col.0, 51);
}

#[test]
fn test_check_method_args() {
    let base_method = ast::Method {
        oneway: false,
        name: "testMethod".into(),
        return_type: create_void(0),
        args: Vec::new(),
        transact_code: None,
        annotations: Vec::new(),
        doc: None,
        symbol_range: create_range(0),
        full_range: create_range(1),
        transact_code_range: create_range(0),
        oneway_range: create_range(0),
    };

    // types which cannot be arguments at all
    for t in [create_android_builtin(AndroidTypeKind::ParcelableHolder, 0)].into_iter() {
        let mut diagnostics = Vec::new();
        let mut method = base_method.clone();
        method.args = vec![create_arg(t, ast::Direction::In(create_range(0)))];
        check_method_args(&method, &mut diagnostics);
        assert_eq!(diagnostics.len(), 1);
        assert!(diagnostics[0].message.contains("Invalid argument"));
    }

    // these can only be `in` or unspecified
    for t in [
        create_int(0),
        create_string(0),
        create_char_sequence(0),
        create_android_builtin(AndroidTypeKind::IBinder, 0),
        create_android_builtin(AndroidTypeKind::FileDescriptor, 0),
        create_resolved_item_type("test.TestInterface", ResolvedItemKind::Interface, 0),
        create_resolved_item_type("test.TestEnum", ResolvedItemKind::Enum, 0),
    ]
    .into_iter()
    {
        let mut diagnostics = Vec::new();
        let mut method = base_method.clone();
        method.args = vec![
            create_arg(t.clone(), ast::Direction::Unspecified),
            create_arg(t.clone(), ast::Direction::In(create_range(0))),
        ];
        check_method_args(&method, &mut diagnostics);
        assert_eq!(diagnostics.len(), 0);

        let mut diagnostics = Vec::new();
        let mut method = base_method.clone();
        method.args = vec![
            create_arg(t.clone(), ast::Direction::Out(create_range(0))),
            create_arg(t, ast::Direction::InOut(create_range(0))),
        ];
        check_method_args(&method, &mut diagnostics);
        assert_eq!(diagnostics.len(), method.args.len());
        for d in diagnostics {
            assert_eq!(d.kind, DiagnosticKind::Error);
        }
    }

    // a ParcelFileDescriptor can be neither unspecified nor out
    for t in [create_android_builtin(AndroidTypeKind::ParcelFileDescriptor, 0)].into_iter() {
        let mut diagnostics = Vec::new();
        let mut method = base_method.clone();
        method.args = vec![
            create_arg(t.clone(), ast::Direction::In(create_range(0))),
            create_arg(t.clone(), ast::Direction::InOut(create_range(0))),
        ];
        check_method_args(&method, &mut diagnostics);
        assert_eq!(diagnostics.len(), 0);

        let mut diagnostics = Vec::new();
        let mut method = base_method.clone();
        method.args = vec![
            create_arg(t.clone(), ast::Direction::Unspecified),
            create_arg(t, ast::Direction::Out(create_range(0))),
        ];
        check_method_args(&method, &mut diagnostics);
        assert_eq!(diagnostics.len(), method.args.len());
        for d in diagnostics {
            assert_eq!(d.kind, DiagnosticKind::Error);
        }
    }

    // arrays, lists, maps, parcelables and unknown imports require a
    // direction
    for t in [
        create_array(create_int(0), 0),
        create_list(None, 0),
        create_map(None, 0),
        create_resolved_item_type("test.TestParcelable", ResolvedItemKind::Parcelable, 0),
        create_resolved_item_type("test.TestUnknown", ResolvedItemKind::UnknownImport, 0),
    ]
    .into_iter()
    {
        let mut diagnostics = Vec::new();
        let mut method = base_method.clone();
        method.args = vec![
            create_arg(t.clone(), ast::Direction::In(create_range(0))),
            create_arg(t.clone(), ast::Direction::Out(create_range(0))),
            create_arg(t.clone(), ast::Direction::InOut(create_range(0))),
        ];
        check_method_args(&method, &mut diagnostics);
        assert_eq!(diagnostics.len(), 0);

        let mut diagnostics = Vec::new();
        let mut method = base_method.clone();
        method.args = vec![create_arg(t, ast::Direction::Unspecified)];
        check_method_args(&method, &mut diagnostics);
        assert_eq!(diagnostics.len(), method.args.len());
        for d in diagnostics {
            assert_eq!(d.kind, DiagnosticKind::Error);
        }
    }

    // arguments of oneway methods cannot be out or inout
    for t in [
        create_array(create_int(0), 0),
        create_list(None, 0),
        create_map(None, 0),
        create_resolved_item_type("test.TestParcelable", ResolvedItemKind::Parcelable, 0),
    ]
    .into_iter()
    {
        let mut diagnostics = Vec::new();
        let mut method = base_method.clone();
        method.oneway = true;
        method.args = vec![create_arg(t.clone(), ast::Direction::In(create_range(0)))];
        check_method_args(&method, &mut diagnostics);
        assert_eq!(diagnostics.len(), 0);

        let mut diagnostics = Vec::new();
        let mut method = base_method.clone();
        method.oneway = true;
        method.args = vec![
            create_arg(t.clone(), ast::Direction::Out(create_range(0))),
            create_arg(t, ast::Direction::InOut(create_range(0))),
        ];
        check_method_args(&method, &mut diagnostics);
        assert_eq!(diagnostics.len(), method.args.len());
        for d in diagnostics {
            assert_eq!(d.kind, DiagnosticKind::Error);
        }
    }
}
