//! The grammar, rule by rule: each test parses one construct and checks
//! the tree and the diagnostics it produces.

use aidl_parser::ast::Direction;
use aidl_parser::ast::TypeKind;
use aidl_parser::diagnostic::Diagnostic;
use aidl_parser::diagnostic::DiagnosticKind;
use aidl_parser::rules::parse_aidl;
use aidl_parser::rules::parse_annotation;
use aidl_parser::rules::parse_arg;
use aidl_parser::rules::parse_const;
use aidl_parser::rules::parse_declared_parcelable;
use aidl_parser::rules::parse_enum;
use aidl_parser::rules::parse_field;
use aidl_parser::rules::parse_import;
use aidl_parser::rules::parse_interface;
use aidl_parser::rules::parse_method;
use aidl_parser::rules::parse_package;
use aidl_parser::rules::parse_parcelable;
use aidl_parser::rules::parse_type;

fn no_diags() -> Vec<Diagnostic> {
    Vec::new()
}

#[test]
fn test_aidl() {
    let input = r#"package x.y.z;
            import a.b.c;
            interface MyInterface {}
        "#;
    let mut diagnostics = no_diags();
    let ast = parse_aidl(input, &mut diagnostics).unwrap().unwrap();
    assert!(diagnostics.is_empty());
    assert_eq!(ast.package.name, "x.y.z");
    assert_eq!(ast.imports.len(), 1);
    assert_eq!(ast.imports[0].get_qualified_name(), "a.b.c");
    assert_eq!(ast.item.get_name(), "MyInterface");
}

#[test]
fn test_aidl_with_recovered_error() {
    let input = r#"package x.y.z;
               import a.b.c;
               oops_interface MyInterface {}
           "#;
    let mut diagnostics = no_diags();
    let ast = parse_aidl(input, &mut diagnostics).unwrap();
    assert!(ast.is_none());
    assert_eq!(diagnostics.len(), 1);
    assert_eq!(diagnostics[0].kind, DiagnosticKind::Error);
    assert_eq!(
        diagnostics[0].message,
        "Invalid item - Unrecognized token `oops_interface`.\nExpected one of ANNOTATION, ENUM, IMPORT, INTERFACE, ONEWAY or PARCELABLE"
    );
    assert_eq!(
        diagnostics[0].context_message.as_deref(),
        Some("unrecognized token")
    );
}

#[test]
fn test_aidl_with_unrecovered_error() {
    let input = "wrong, wrong and wrong!";
    let mut diagnostics = no_diags();
    let res = parse_aidl(input, &mut diagnostics);
    assert!(res.is_err());
}

#[test]
fn rules_test_package1() {
    let input = "package x ;";
    let mut diagnostics = no_diags();
    let p = parse_package(input, &mut diagnostics).unwrap();
    assert!(diagnostics.is_empty());
    assert_eq!(p.name, "x");
    assert_eq!(p.symbol_range.start.offset, 8);
    assert_eq!(p.symbol_range.end.offset, 9);
}

#[test]
fn rules_test_package2() {
    let input = "package x.y.z;";
    let mut diagnostics = no_diags();
    let p = parse_package(input, &mut diagnostics).unwrap();
    assert!(diagnostics.is_empty());
    assert_eq!(p.name, "x.y.z");
    assert_eq!(p.full_range.start.offset, 0);
    assert_eq!(p.full_range.end.offset, input.len());
}

#[test]
fn rules_test_import() {
    let input = "import x.y.z;";
    let mut diagnostics = no_diags();
    let i = parse_import(input, &mut diagnostics).unwrap();
    assert!(diagnostics.is_empty());
    assert_eq!(i.path, "x.y");
    assert_eq!(i.name, "z");
    assert_eq!(i.get_qualified_name(), "x.y.z");
}

#[test]
fn test_declared_parcelable() {
    let mut diagnostics = no_diags();

    let input = "parcelable X;";
    let d = parse_declared_parcelable(input, &mut diagnostics).unwrap();
    assert_eq!(d.path, "");
    assert_eq!(d.name, "X");
    assert_eq!(d.get_qualified_name(), "X");

    let input = "parcelable any.pkg.Y;";
    let d = parse_declared_parcelable(input, &mut diagnostics).unwrap();
    assert_eq!(d.path, "any.pkg");
    assert_eq!(d.name, "Y");
    assert_eq!(d.get_qualified_name(), "any.pkg.Y");

    let input = "@Annotation1 @Annotation2\nparcelable any.pkg.Y;";
    let d = parse_declared_parcelable(input, &mut diagnostics).unwrap();
    assert_eq!(d.get_qualified_name(), "any.pkg.Y");

    assert!(diagnostics.is_empty());
}

#[test]
fn rules_test_interface() {
    let input = r#"interface Potato {
            /**
             * const1 documentation
             */
            const int const1 = 1;

            /**
             * method1 documentation
             */
            String method1();

            const String const2 = "two";
            int method2();
        }"#;
    let mut diagnostics = no_diags();
    let i = parse_interface(input, &mut diagnostics).unwrap();
    assert!(diagnostics.is_empty());
    assert_eq!(i.name, "Potato");
    assert!(!i.oneway);
    assert_eq!(i.elements.len(), 4);
    let c1 = match &i.elements[0] {
        aidl_parser::ast::InterfaceElement::Const(c) => c,
        _ => panic!("expected a const"),
    };
    assert_eq!(c1.name, "const1");
    assert_eq!(c1.value, "1");
    assert_eq!(c1.doc.as_deref(), Some("const1 documentation"));
    let m1 = i.elements[1].as_method().expect("expected a method");
    assert_eq!(m1.name, "method1");
    assert_eq!(m1.doc.as_deref(), Some("method1 documentation"));
    let c2 = match &i.elements[2] {
        aidl_parser::ast::InterfaceElement::Const(c) => c,
        _ => panic!("expected a const"),
    };
    assert_eq!(c2.value, "\"two\"");
    let m2 = i.elements[3].as_method().expect("expected a method");
    assert_eq!(m2.name, "method2");
}

#[test]
fn test_oneway_interface() {
    let input = r#"oneway interface OneWayInterface {}"#;
    let mut diagnostics = no_diags();
    let i = parse_interface(input, &mut diagnostics).unwrap();
    assert!(diagnostics.is_empty());
    assert!(i.oneway);
    assert_eq!(i.name, "OneWayInterface");
}

#[test]
fn rules_test_interface_with_annotation() {
    let input = r#"@InterfaceAnnotation1
            @InterfaceAnnotation2 interface Potato {
            }"#;
    let mut diagnostics = no_diags();
    let i = parse_interface(input, &mut diagnostics).unwrap();
    assert!(diagnostics.is_empty());
    assert_eq!(i.annotations.len(), 2);
    assert_eq!(i.annotations[0].name, "InterfaceAnnotation1");
    assert_eq!(i.annotations[1].name, "InterfaceAnnotation2");
}

#[test]
fn test_interface_with_javadoc() {
    let input = r#"
            /** Documentation before */
            /** Interface documentation */
            /* Comment after */
            // Line comment after
            interface Potato {
            }"#;
    let mut diagnostics = no_diags();
    let i = parse_interface(input, &mut diagnostics).unwrap();
    assert!(diagnostics.is_empty());
    assert_eq!(i.doc.as_deref(), Some("Interface documentation"));
}

#[test]
fn rules_test_interface_with_errors() {
    let input = r#"interface Potato {
            String method1();
            int method2();
            int oops_not_a_valid_method;
            const String const2 = 123;
            const oops_not_a_valid_const;
        }"#;
    let mut diagnostics = no_diags();
    let i = parse_interface(input, &mut diagnostics).unwrap();
    // the malformed elements are dropped, the valid ones kept
    assert_eq!(i.elements.len(), 3);
    assert_eq!(diagnostics.len(), 2);
    assert_eq!(
        diagnostics[0].message,
        "Invalid interface element - Unrecognized token `;`.\nExpected \"(\""
    );
    assert_eq!(
        diagnostics[1].message,
        "Invalid interface element - Unrecognized token `;`.\nExpected one of \".\", \"[\" or IDENT"
    );
}

#[test]
fn rules_test_parcelable() {
    let input = r#"parcelable Tomato {
            /**
             * field1 documentation
             */
            int field1;

            String field2; // inline comment
        }"#;
    let mut diagnostics = no_diags();
    let p = parse_parcelable(input, &mut diagnostics).unwrap();
    assert!(diagnostics.is_empty());
    assert_eq!(p.name, "Tomato");
    assert_eq!(p.elements.len(), 2);
    let f1 = p.elements[0].as_field().expect("expected a field");
    assert_eq!(f1.name, "field1");
    assert_eq!(f1.doc.as_deref(), Some("field1 documentation"));
    let f2 = p.elements[1].as_field().expect("expected a field");
    assert_eq!(f2.name, "field2");
    assert_eq!(f2.field_type.kind, TypeKind::StringType);
}

#[test]
fn test_parcelable_with_javadoc() {
    let input = r#"
            /** Parcelable documentation */
            parcelable Tomato {}"#;
    let mut diagnostics = no_diags();
    let p = parse_parcelable(input, &mut diagnostics).unwrap();
    assert!(diagnostics.is_empty());
    assert_eq!(p.doc.as_deref(), Some("Parcelable documentation"));
}

#[test]
fn rules_test_parcelable_with_errors() {
    let input = r#"parcelable Tomato {
            int field1;
            wrongfield3;
            String field3;
        }"#;
    let mut diagnostics = no_diags();
    let p = parse_parcelable(input, &mut diagnostics).unwrap();
    assert_eq!(p.elements.len(), 2);
    assert_eq!(diagnostics.len(), 1);
    assert_eq!(
        diagnostics[0].message,
        "Invalid field - Unrecognized token `;`.\nExpected one of \".\", \"[\" or IDENT"
    );
}

#[test]
fn rules_test_enum() {
    let input = r#"enum Paprika {
                /**
                 * element1 documentation
                 */
                ELEMENT1 = 3,

                ELEMENT2 = "quattro",
                ELEMENT3
            }"#;
    let mut diagnostics = no_diags();
    let e = parse_enum(input, &mut diagnostics).unwrap();
    assert!(diagnostics.is_empty());
    assert_eq!(e.name, "Paprika");
    assert_eq!(e.elements.len(), 3);
    assert_eq!(e.elements[0].name, "ELEMENT1");
    assert_eq!(e.elements[0].value.as_deref(), Some("3"));
    assert_eq!(
        e.elements[0].doc.as_deref(),
        Some("element1 documentation")
    );
    assert_eq!(e.elements[1].value.as_deref(), Some("\"quattro\""));
    assert_eq!(e.elements[2].value, None);
}

#[test]
fn test_enum_with_javadoc() {
    let input = r#"
            /** Enum documentation */
            enum Tomato {
                /** ELEMENT1 documentation */
                ELEMENT1,
                ELEMENT2,
                /** ELEMENT3 documentation */
                ELEMENT3,
            }"#;
    let mut diagnostics = no_diags();
    let e = parse_enum(input, &mut diagnostics).unwrap();
    assert!(diagnostics.is_empty());
    assert_eq!(e.doc.as_deref(), Some("Enum documentation"));
    assert_eq!(e.elements[0].doc.as_deref(), Some("ELEMENT1 documentation"));
    assert_eq!(e.elements[1].doc, None);
    assert_eq!(e.elements[2].doc.as_deref(), Some("ELEMENT3 documentation"));
}

#[test]
fn rules_test_enum_with_errors() {
    let input = r#"enum Paprika {
                ELEMENT1 = 3,
                ELEMENT2 == "quattro",
                ELEMENT3,
                0843
            }"#;
    let mut diagnostics = no_diags();
    let e = parse_enum(input, &mut diagnostics).unwrap();
    assert_eq!(e.elements.len(), 2);
    assert_eq!(diagnostics.len(), 2);
    assert_eq!(
        diagnostics[0].message,
        "Invalid enum element - Unrecognized token `=`.\nExpected one of \"{\", \"null\", BOOLEAN, NUMBER or QUOTED_STRING"
    );
    assert_eq!(
        diagnostics[1].message,
        "Invalid enum element - Unrecognized token `0843`.\nExpected \"}\" or IDENT"
    );
}

#[test]
fn rules_test_enum_with_trailing_comma() {
    let input = r#"enum Paprika {
                ELEMENT1,
                ELEMENT2,
            }"#;
    let mut diagnostics = no_diags();
    let e = parse_enum(input, &mut diagnostics).unwrap();
    assert!(diagnostics.is_empty());
    assert_eq!(e.elements.len(), 2);
}

#[test]
fn rules_test_method_without_arg() {
    let input = "TypeName myMethod() ;";
    let mut diagnostics = no_diags();
    let m = parse_method(input, &mut diagnostics).unwrap();
    assert!(diagnostics.is_empty());
    assert_eq!(m.name, "myMethod");
    assert_eq!(m.return_type.name, "TypeName");
    assert_eq!(m.return_type.kind, TypeKind::Unresolved);
    assert!(m.args.is_empty());
    assert!(!m.oneway);
    assert_eq!(m.transact_code, None);
}

#[test]
fn rules_test_method_with_1_arg() {
    let input = "TypeName myMethod(ArgType arg) ;";
    let mut diagnostics = no_diags();
    let m = parse_method(input, &mut diagnostics).unwrap();
    assert!(diagnostics.is_empty());
    assert_eq!(m.args.len(), 1);
    assert_eq!(m.args[0].arg_type.name, "ArgType");
    assert_eq!(m.args[0].name.as_deref(), Some("arg"));
}

#[test]
fn rules_test_method_with_3_args() {
    let input = "TypeName myMethod(ArgType1, ArgType2 arg2, ArgType3) ;";
    let mut diagnostics = no_diags();
    let m = parse_method(input, &mut diagnostics).unwrap();
    assert!(diagnostics.is_empty());
    assert_eq!(m.args.len(), 3);
    assert_eq!(m.args[0].name, None);
    assert_eq!(m.args[1].name.as_deref(), Some("arg2"));
    assert_eq!(m.args[2].name, None);
}

#[test]
fn rules_test_method_oneway() {
    let input = "oneway TypeName myMethod();";
    let mut diagnostics = no_diags();
    let m = parse_method(input, &mut diagnostics).unwrap();
    assert!(diagnostics.is_empty());
    assert!(m.oneway);
}

#[test]
fn rules_test_method_with_value() {
    let input = "TypeName myMethod() = 123;";
    let mut diagnostics = no_diags();
    let m = parse_method(input, &mut diagnostics).unwrap();
    assert!(diagnostics.is_empty());
    assert_eq!(m.transact_code, Some(123));
}

#[test]
fn test_method_with_invalid_value() {
    let input = "TypeName myMethod() = 12.3;";
    let mut diagnostics = no_diags();
    assert!(parse_method(input, &mut diagnostics).is_err());
}

#[test]
fn rules_test_method_with_annotation() {
    let input = "@AnnotationName void myMethod();";
    let mut diagnostics = no_diags();
    let m = parse_method(input, &mut diagnostics).unwrap();
    assert!(diagnostics.is_empty());
    assert_eq!(m.annotations.len(), 1);
    assert_eq!(m.annotations[0].name, "AnnotationName");
    assert_eq!(m.return_type.kind, TypeKind::Void);
}

#[test]
fn rules_test_method_with_javadoc() {
    let input = "/** Method documentation */ void myMethod() = 123;";
    let mut diagnostics = no_diags();
    let m = parse_method(input, &mut diagnostics).unwrap();
    assert!(diagnostics.is_empty());
    assert_eq!(m.doc.as_deref(), Some("Method documentation"));
}

#[test]
fn rules_test_method_arg_with_name() {
    let input = "TypeName albert";
    let mut diagnostics = no_diags();
    let a = parse_arg(input, &mut diagnostics).unwrap();
    assert!(diagnostics.is_empty());
    assert_eq!(a.name.as_deref(), Some("albert"));
    assert!(matches!(a.direction, Direction::Unspecified));
}

#[test]
fn rules_test_method_arg_with_direction() {
    let input = "in TypeName";
    let mut diagnostics = no_diags();
    let a = parse_arg(input, &mut diagnostics).unwrap();
    assert!(diagnostics.is_empty());
    assert!(matches!(a.direction, Direction::In(_)));
    assert_eq!(a.name, None);
}

#[test]
fn rules_test_method_arg_with_direction_and_name() {
    let input = "out TypeName roger";
    let mut diagnostics = no_diags();
    let a = parse_arg(input, &mut diagnostics).unwrap();
    assert!(diagnostics.is_empty());
    assert!(matches!(a.direction, Direction::Out(_)));
    assert_eq!(a.name.as_deref(), Some("roger"));
}

#[test]
fn rules_test_method_arg_with_annotations() {
    let input = r#"@Annotation1
            @Annotation2(AnnotationParam ) TypeName albert"#;
    let mut diagnostics = no_diags();
    let a = parse_arg(input, &mut diagnostics).unwrap();
    assert!(diagnostics.is_empty());
    assert_eq!(a.annotations.len(), 2);
    assert_eq!(a.annotations[1].name, "Annotation2");
    assert_eq!(a.annotations[1].key_values.len(), 1);
    assert_eq!(a.annotations[1].key_values[0].0, "AnnotationParam");
}

#[test]
fn test_method_arg_with_javadoc() {
    let input = "/** Arg documentation */ TypeName albert";
    let mut diagnostics = no_diags();
    let a = parse_arg(input, &mut diagnostics).unwrap();
    assert!(diagnostics.is_empty());
    assert_eq!(a.doc.as_deref(), Some("Arg documentation"));
}

#[test]
fn test_field() {
    let input = "TypeName fieldName ;";
    let mut diagnostics = no_diags();
    let f = parse_field(input, &mut diagnostics).unwrap();
    assert!(diagnostics.is_empty());
    assert_eq!(f.name, "fieldName");
    assert_eq!(f.value, None);
}

#[test]
fn test_field_with_value() {
    let input = "TypeName fieldName = \"field value\";";
    let mut diagnostics = no_diags();
    let f = parse_field(input, &mut diagnostics).unwrap();
    assert!(diagnostics.is_empty());
    assert_eq!(f.value.as_deref(), Some("\"field value\""));
}

#[test]
fn test_field_with_javadoc() {
    let input = r#"/**
             * Field documentation
             */
            TypeName fieldName;"#;
    let mut diagnostics = no_diags();
    let f = parse_field(input, &mut diagnostics).unwrap();
    assert!(diagnostics.is_empty());
    assert_eq!(f.doc.as_deref(), Some("Field documentation"));
}

#[test]
fn test_field_with_annotation() {
    let input = "@AnnotationName TypeName fieldName = \"field value\";";
    let mut diagnostics = no_diags();
    let f = parse_field(input, &mut diagnostics).unwrap();
    assert!(diagnostics.is_empty());
    assert_eq!(f.annotations.len(), 1);
}

#[test]
fn rules_test_const_num() {
    let input = "const int CONST_NAME = 123 ;";
    let mut diagnostics = no_diags();
    let c = parse_const(input, &mut diagnostics).unwrap();
    assert!(diagnostics.is_empty());
    assert_eq!(c.name, "CONST_NAME");
    assert_eq!(c.value, "123");
    assert_eq!(c.const_type.kind, TypeKind::Primitive);
}

#[test]
fn rules_test_const_string() {
    let input = "const TypeName CONST_NAME = \"const value\";";
    let mut diagnostics = no_diags();
    let c = parse_const(input, &mut diagnostics).unwrap();
    assert!(diagnostics.is_empty());
    assert_eq!(c.value, "\"const value\"");
}

#[test]
fn rules_test_const_with_javadoc() {
    let input = r#"/**
            * Const documentation
            */
           const TypeName CONST_NAME = 123;"#;
    let mut diagnostics = no_diags();
    let c = parse_const(input, &mut diagnostics).unwrap();
    assert!(diagnostics.is_empty());
    assert_eq!(c.doc.as_deref(), Some("Const documentation"));
}

#[test]
fn rules_test_const_with_annotation() {
    let input = "@AnnotationName const TypeName CONST_NAME = 123;";
    let mut diagnostics = no_diags();
    let c = parse_const(input, &mut diagnostics).unwrap();
    assert!(diagnostics.is_empty());
    assert_eq!(c.annotations.len(), 1);
}

#[test]
fn rules_test_type_primitive1() {
    let input = "double";
    let mut diagnostics = no_diags();
    let t = parse_type(input, &mut diagnostics).unwrap();
    assert!(diagnostics.is_empty());
    assert_eq!(t.kind, TypeKind::Primitive);
    assert_eq!(t.name, "double");
}

#[test]
fn rules_test_type_primitive2() {
    let input = "doublegum";
    let mut diagnostics = no_diags();
    let t = parse_type(input, &mut diagnostics).unwrap();
    assert!(diagnostics.is_empty());
    assert_ne!(t.kind, TypeKind::Primitive);
}

#[test]
fn test_type_string() {
    let input = "String";
    let mut diagnostics = no_diags();
    let t = parse_type(input, &mut diagnostics).unwrap();
    assert!(diagnostics.is_empty());
    assert_eq!(t.kind, TypeKind::StringType);
}

#[test]
fn test_type_char_sequence() {
    let input = "CharSequence";
    let mut diagnostics = no_diags();
    let t = parse_type(input, &mut diagnostics).unwrap();
    assert!(diagnostics.is_empty());
    assert_eq!(t.kind, TypeKind::CharSequence);
}

#[test]
fn test_type_android_builtin() {
    let inputs = [
        "ParcelableHolder",
        "IBinder",
        "FileDescriptor",
        "ParcelFileDescriptor",
    ];
    for input in inputs.into_iter() {
        let mut diagnostics = no_diags();
        let t = parse_type(input, &mut diagnostics).unwrap();
        assert!(diagnostics.is_empty());
        // builtins resolve by bare name in the resolution pass
        assert_eq!(t.kind, TypeKind::Unresolved);
        assert_eq!(t.name, input);
    }
}

#[test]
fn rules_test_type_custom() {
    let input = "TypeName";
    let mut diagnostics = no_diags();
    let t = parse_type(input, &mut diagnostics).unwrap();
    assert!(diagnostics.is_empty());
    assert_eq!(t.kind, TypeKind::Unresolved);
}

#[test]
fn rules_test_type_custom_with_namespace() {
    let input = "com.example.TypeName";
    let mut diagnostics = no_diags();
    let t = parse_type(input, &mut diagnostics).unwrap();
    assert!(diagnostics.is_empty());
    assert_eq!(t.kind, TypeKind::Unresolved);
    assert_eq!(t.name, "com.example.TypeName");
}

#[test]
fn rules_test_type_array() {
    let input = "float []";
    let mut diagnostics = no_diags();
    let t = parse_type(input, &mut diagnostics).unwrap();
    assert!(diagnostics.is_empty());
    assert_eq!(t.kind, TypeKind::Array);
    assert_eq!(t.generic_types.len(), 1);
    assert_eq!(t.generic_types[0].name, "float");
}

#[test]
fn test_type_array_bidirectional() {
    let input = "int [] []";
    let mut diagnostics = no_diags();
    let t = parse_type(input, &mut diagnostics).unwrap();
    assert!(diagnostics.is_empty());
    assert_eq!(t.kind, TypeKind::Array);
    assert_eq!(t.generic_types.len(), 1);
    assert_eq!(t.generic_types[0].kind, TypeKind::Array);
}

#[test]
fn rules_test_type_list() {
    let input = "List <MyObject >";
    let mut diagnostics = no_diags();
    let t = parse_type(input, &mut diagnostics).unwrap();
    assert!(diagnostics.is_empty());
    assert_eq!(t.kind, TypeKind::List);
    assert_eq!(t.generic_types.len(), 1);
    assert_eq!(t.generic_types[0].name, "MyObject");
}

#[test]
fn test_type_list_non_generic() {
    let input = "List";
    let mut diagnostics = no_diags();
    let t = parse_type(input, &mut diagnostics).unwrap();
    assert!(diagnostics.is_empty());
    assert_eq!(t.kind, TypeKind::List);
    assert!(t.generic_types.is_empty());
}

#[test]
fn test_type_list_invalid() {
    let input = "List<A, B>";
    let mut diagnostics = no_diags();
    assert!(aidl_parser::rules::parse_value(input, &mut diagnostics).is_err());
    assert!(parse_type(input, &mut diagnostics).is_err());
}

#[test]
fn rules_test_type_map() {
    let input = "Map<Key,List<V>>";
    let mut diagnostics = no_diags();
    let t = parse_type(input, &mut diagnostics).unwrap();
    assert!(diagnostics.is_empty());
    assert_eq!(t.kind, TypeKind::MapType);
    assert_eq!(t.generic_types.len(), 2);
    assert_eq!(t.generic_types[0].name, "Key");
    assert_eq!(t.generic_types[1].kind, TypeKind::List);
}

#[test]
fn test_type_map_non_generic() {
    let input = "Map";
    let mut diagnostics = no_diags();
    let t = parse_type(input, &mut diagnostics).unwrap();
    assert!(diagnostics.is_empty());
    assert_eq!(t.kind, TypeKind::MapType);
    assert!(t.generic_types.is_empty());
}

#[test]
fn test_type_map_invalid() {
    let mut diagnostics = no_diags();
    let input = "Map<A>";
    assert!(aidl_parser::rules::parse_value(input, &mut diagnostics).is_err());
    assert!(parse_type(input, &mut diagnostics).is_err());

    let input = "Map<A,B,C>";
    assert!(aidl_parser::rules::parse_value(input, &mut diagnostics).is_err());
    assert!(parse_type(input, &mut diagnostics).is_err());
}

#[test]
fn rules_test_value() {
    // Numbers
    for input in ["12", "-12", "-0.12", "-.12", "-.12f"].into_iter() {
        let mut diagnostics = no_diags();
        assert_eq!(
            aidl_parser::rules::parse_value(input, &mut diagnostics).unwrap(),
            input
        );
    }

    // Invalid numbers
    for input in ["-.", "--12", "0..2", "0.2y"].into_iter() {
        let mut diagnostics = no_diags();
        assert!(aidl_parser::rules::parse_value(input, &mut diagnostics).is_err());
    }

    // Strings
    for input in ["\"hello\"", "\"\"", "\"\t\""].into_iter() {
        let mut diagnostics = no_diags();
        assert_eq!(
            aidl_parser::rules::parse_value(input, &mut diagnostics).unwrap(),
            input
        );
    }

    // Invalid strings
    for input in ["\"\"\""].into_iter() {
        let mut diagnostics = no_diags();
        assert!(aidl_parser::rules::parse_value(input, &mut diagnostics).is_err());
    }

    // Empty objects
    for input in ["{}", "{ }", "{      }"].into_iter() {
        let mut diagnostics = no_diags();
        assert_eq!(
            aidl_parser::rules::parse_value(input, &mut diagnostics).unwrap(),
            "{}"
        );
    }

    // Non-empty objects
    for input in ["{\"hello{<\"}", "{1}", "{1, 2}", "{1, 2, 3, }"].into_iter() {
        let mut diagnostics = no_diags();
        assert_eq!(
            aidl_parser::rules::parse_value(input, &mut diagnostics).unwrap(),
            "{...}"
        );
    }

    // Invalid objects
    for input in ["{\"hello{<\"", "{1sfewf}", "{1, 2, 3,, }"].into_iter() {
        let mut diagnostics = no_diags();
        assert!(aidl_parser::rules::parse_value(input, &mut diagnostics).is_err());
    }
}

#[test]
fn rules_test_annotation1() {
    let input = "@AnnotationName";
    let mut diagnostics = no_diags();
    let a = parse_annotation(input, &mut diagnostics).unwrap().unwrap();
    assert!(diagnostics.is_empty());
    assert_eq!(a.name, "AnnotationName");
    assert!(a.key_values.is_empty());
}

#[test]
fn rules_test_annotation2() {
    let input = "@AnnotationName()";
    let mut diagnostics = no_diags();
    let a = parse_annotation(input, &mut diagnostics).unwrap().unwrap();
    assert!(a.key_values.is_empty());
}

#[test]
fn rules_test_annotation3() {
    let input = "@AnnotationName( Hello)";
    let mut diagnostics = no_diags();
    let a = parse_annotation(input, &mut diagnostics).unwrap().unwrap();
    assert_eq!(a.key_values.len(), 1);
    assert_eq!(a.key_values[0].0, "Hello");
    assert_eq!(a.key_values[0].1, None);
}

#[test]
fn rules_test_annotation4() {
    let input = "@AnnotationName(Hello=\"World\")";
    let mut diagnostics = no_diags();
    let a = parse_annotation(input, &mut diagnostics).unwrap().unwrap();
    assert_eq!(a.key_values.len(), 1);
    assert_eq!(a.key_values[0].1.as_deref(), Some("\"World\""));
}

#[test]
fn rules_test_annotation5() {
    let input = "@AnnotationName(Hello=\"World\", Hi, Servus= 3 )";
    let mut diagnostics = no_diags();
    let a = parse_annotation(input, &mut diagnostics).unwrap().unwrap();
    assert_eq!(a.key_values.len(), 3);
    assert_eq!(a.key_values[0].0, "Hello");
    assert_eq!(a.key_values[1].0, "Hi");
    assert_eq!(a.key_values[2].0, "Servus");
    assert_eq!(a.key_values[2].1.as_deref(), Some("3"));
}

#[test]
fn test_reserved_keywords() {
    let input = "package a.for.b;";
    let mut diagnostics = no_diags();
    assert!(parse_package(input, &mut diagnostics).is_err());
}

#[test]
fn test_parse_element_until() {
    // recovery consumes a malformed element whole: terminators inside
    // quoted strings and braced values do not end it early
    let input = r#"interface I {
        broken = "semi ; colon";
        void m();
    }"#;
    let mut diagnostics = no_diags();
    let i = parse_interface(input, &mut diagnostics).unwrap();
    assert_eq!(diagnostics.len(), 1);
    assert_eq!(i.elements.len(), 1);
    assert_eq!(i.elements[0].get_name(), "m");

    let input = r#"interface I {
        const int X = {1;2};
        void m();
    }"#;
    let mut diagnostics = no_diags();
    let i = parse_interface(input, &mut diagnostics).unwrap();
    assert_eq!(diagnostics.len(), 1);
    assert_eq!(i.elements.len(), 1);
    assert_eq!(i.elements[0].get_name(), "m");
}
