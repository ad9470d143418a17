//! A second round over the grammar with the older test corpus: the same
//! constructs under slightly different spellings and spacings.

use aidl_parser::ast::TypeKind;
use aidl_parser::diagnostic::Diagnostic;
use aidl_parser::rules::parse_aidl;
use aidl_parser::rules::parse_annotation;
use aidl_parser::rules::parse_arg;
use aidl_parser::rules::parse_const;
use aidl_parser::rules::parse_enum;
use aidl_parser::rules::parse_field;
use aidl_parser::rules::parse_import;
use aidl_parser::rules::parse_interface;
use aidl_parser::rules::parse_method;
use aidl_parser::rules::parse_package;
use aidl_parser::rules::parse_parcelable;
use aidl_parser::rules::parse_type;
use aidl_parser::rules::parse_value;

fn no_diags() -> Vec<Diagnostic> {
    Vec::new()
}

#[test]
fn test_file() {
    let input = r#"package x.y.z;
            import a.b.c;
            interface MyInterface {}
        "#;
    let mut diagnostics = no_diags();
    let ast = parse_aidl(input, &mut diagnostics).unwrap().unwrap();
    assert!(diagnostics.is_empty());
    assert_eq!(ast.get_key(), "x.y.z.MyInterface");
}

#[test]
fn test_file_with_errors() {
    let input = r#"package x.y.z;
            import a.b.c;
            oops_interface MyInterface {}
        "#;
    let mut diagnostics = no_diags();
    let ast = parse_aidl(input, &mut diagnostics).unwrap();
    assert!(ast.is_none());
    assert_eq!(diagnostics.len(), 1);
}

#[test]
fn parser_old_test_package1() {
    let input = "package x ;";
    let mut diagnostics = no_diags();
    let p = parse_package(input, &mut diagnostics).unwrap();
    assert_eq!(p.name, "x");
}

#[test]
fn parser_old_test_package2() {
    let input = "package x.y.z;";
    let mut diagnostics = no_diags();
    let p = parse_package(input, &mut diagnostics).unwrap();
    assert_eq!(p.name, "x.y.z");
}

#[test]
fn parser_old_test_import() {
    let input = "import x.y.z;";
    let mut diagnostics = no_diags();
    let i = parse_import(input, &mut diagnostics).unwrap();
    assert_eq!(i.get_qualified_name(), "x.y.z");
}

#[test]
fn parser_old_test_interface() {
    let input = r#"interface Potato {
            /**
             * const1 docu
             */
            const int const1 = 1;

            /**
             * method1 docu
             */
            String method1();

            const String const2 = "two";
            int method2();
        }"#;
    let mut diagnostics = no_diags();
    let i = parse_interface(input, &mut diagnostics).unwrap();
    assert!(diagnostics.is_empty());
    assert_eq!(i.elements.len(), 4);
}

#[test]
fn parser_old_test_interface_with_annotation() {
    let input = r#"@InterfaceAnnotation1
            @InterfaceAnnotation2 interface Potato {
            }"#;
    let mut diagnostics = no_diags();
    let i = parse_interface(input, &mut diagnostics).unwrap();
    assert_eq!(i.annotations.len(), 2);
}

#[test]
fn parser_old_test_interface_with_errors() {
    let input = r#"interface Potato {
            String method1();
            int method2();
            int oops_not_a_valid_method;
            const String const2 = 123;
            const oops_not_a_valid_const;
        }"#;
    let mut diagnostics = no_diags();
    let i = parse_interface(input, &mut diagnostics).unwrap();
    assert_eq!(i.elements.len(), 3);
    assert_eq!(diagnostics.len(), 2);
    assert!(diagnostics[0].message.contains("Invalid interface element"));
    assert!(diagnostics[1].message.contains("Invalid interface element"));
}

#[test]
fn parser_old_test_parcelable() {
    let input = r#"parcelable Tomato {
            /**
             * member1 docu
             */
            int member1;

            String member2; // inline comment
        }"#;
    let mut diagnostics = no_diags();
    let p = parse_parcelable(input, &mut diagnostics).unwrap();
    assert!(diagnostics.is_empty());
    assert_eq!(p.elements.len(), 2);
    assert_eq!(p.elements[0].get_name(), "member1");
    assert_eq!(p.elements[1].get_name(), "member2");
}

#[test]
fn parser_old_test_parcelable_with_errors() {
    let input = r#"parcelable Tomato {
            int member1;
            wrongmember3;
            String member3;
        }"#;
    let mut diagnostics = no_diags();
    let p = parse_parcelable(input, &mut diagnostics).unwrap();
    assert_eq!(p.elements.len(), 2);
    assert_eq!(diagnostics.len(), 1);
    assert!(diagnostics[0].message.contains("Invalid field"));
}

#[test]
fn parser_old_test_enum() {
    let input = r#"enum Paprika {
            /**
             * element1 docu
             */
            ELEMENT1 = 3,

            ELEMENT2 = "quattro",
            ELEMENT3
        }"#;
    let mut diagnostics = no_diags();
    let e = parse_enum(input, &mut diagnostics).unwrap();
    assert!(diagnostics.is_empty());
    assert_eq!(e.elements.len(), 3);
}

#[test]
fn parser_old_test_enum_with_errors() {
    let input = r#"enum Paprika {
            ELEMENT1 = 3,
            ELEMENT2 == "quattro",
            ELEMENT3,
            0843
        }"#;
    let mut diagnostics = no_diags();
    let e = parse_enum(input, &mut diagnostics).unwrap();
    assert_eq!(e.elements.len(), 2);
    assert_eq!(diagnostics.len(), 2);
    assert!(diagnostics[0].message.contains("Invalid enum element"));
    assert!(diagnostics[1].message.contains("Invalid enum element"));
}

#[test]
fn parser_old_test_enum_with_trailing_comma() {
    let input = r#"enum Paprika {
            ELEMENT1,
            ELEMENT2,
        }"#;
    let mut diagnostics = no_diags();
    let e = parse_enum(input, &mut diagnostics).unwrap();
    assert_eq!(e.elements.len(), 2);
}

#[test]
fn parser_old_test_method_without_arg() {
    let input = "TypeName myMethod() ;";
    let mut diagnostics = no_diags();
    let m = parse_method(input, &mut diagnostics).unwrap();
    assert_eq!(m.name, "myMethod");
}

#[test]
fn parser_old_test_method_with_1_arg() {
    let input = "TypeName myMethod(ArgType arg) ;";
    let mut diagnostics = no_diags();
    let m = parse_method(input, &mut diagnostics).unwrap();
    assert_eq!(m.args.len(), 1);
}

#[test]
fn parser_old_test_method_with_3_args() {
    let input = "TypeName myMethod(ArgType1, ArgType2 arg2, ArgType3) ;";
    let mut diagnostics = no_diags();
    let m = parse_method(input, &mut diagnostics).unwrap();
    assert_eq!(m.args.len(), 3);
}

#[test]
fn parser_old_test_method_oneway() {
    let input = "oneway TypeName myMethod();";
    let mut diagnostics = no_diags();
    let m = parse_method(input, &mut diagnostics).unwrap();
    assert!(m.oneway);
}

#[test]
fn parser_old_test_method_with_value() {
    let input = "TypeName myMethod() = 123;";
    let mut diagnostics = no_diags();
    let m = parse_method(input, &mut diagnostics).unwrap();
    assert_eq!(m.transact_code, Some(123));
}

#[test]
fn parser_old_test_method_with_annotation() {
    let input = "@AnnotationName void myMethod();";
    let mut diagnostics = no_diags();
    let m = parse_method(input, &mut diagnostics).unwrap();
    assert_eq!(m.annotations.len(), 1);
}

#[test]
fn parser_old_test_method_with_javadoc() {
    let input = r#"/**
         * Method docu
         */
         void myMethod() = 123;"#;
    let mut diagnostics = no_diags();
    let m = parse_method(input, &mut diagnostics).unwrap();
    assert_eq!(m.doc.as_deref(), Some("Method docu"));
}

#[test]
fn parser_old_test_method_arg_with_name() {
    let input = "TypeName albert";
    let mut diagnostics = no_diags();
    let a = parse_arg(input, &mut diagnostics).unwrap();
    assert_eq!(a.name.as_deref(), Some("albert"));
}

#[test]
fn parser_old_test_method_arg_with_direction() {
    let input = "in TypeName";
    let mut diagnostics = no_diags();
    let a = parse_arg(input, &mut diagnostics).unwrap();
    assert!(matches!(a.direction, aidl_parser::ast::Direction::In(_)));
}

#[test]
fn parser_old_test_method_arg_with_direction_and_name() {
    let input = "out TypeName roger";
    let mut diagnostics = no_diags();
    let a = parse_arg(input, &mut diagnostics).unwrap();
    assert!(matches!(a.direction, aidl_parser::ast::Direction::Out(_)));
    assert_eq!(a.name.as_deref(), Some("roger"));
}

#[test]
fn parser_old_test_method_arg_with_annotations() {
    let input = r#"@Annotation1
            @Annotation2(AnnotationParam ) TypeName albert"#;
    let mut diagnostics = no_diags();
    let a = parse_arg(input, &mut diagnostics).unwrap();
    assert_eq!(a.annotations.len(), 2);
}

#[test]
fn test_member() {
    let input = "TypeName memberName ;";
    let mut diagnostics = no_diags();
    let f = parse_field(input, &mut diagnostics).unwrap();
    assert_eq!(f.name, "memberName");
}

#[test]
fn test_member_with_value() {
    let input = "TypeName memberName = \"member value\";";
    let mut diagnostics = no_diags();
    let f = parse_field(input, &mut diagnostics).unwrap();
    assert_eq!(f.value.as_deref(), Some("\"member value\""));
}

#[test]
fn test_member_with_javadoc() {
    let input = r#"/**
             * Member docu
             */
            TypeName memberName;"#;
    let mut diagnostics = no_diags();
    let f = parse_field(input, &mut diagnostics).unwrap();
    assert_eq!(f.doc.as_deref(), Some("Member docu"));
}

#[test]
fn test_member_with_annotation() {
    let input = "@AnnotationName TypeName memberName = \"member value\";";
    let mut diagnostics = no_diags();
    let f = parse_field(input, &mut diagnostics).unwrap();
    assert_eq!(f.annotations.len(), 1);
}

#[test]
fn parser_old_test_const_num() {
    let input = "const int CONST_NAME = 123 ;";
    let mut diagnostics = no_diags();
    let c = parse_const(input, &mut diagnostics).unwrap();
    assert_eq!(c.value, "123");
}

#[test]
fn parser_old_test_const_string() {
    let input = "const TypeName CONST_NAME = \"const value\";";
    let mut diagnostics = no_diags();
    let c = parse_const(input, &mut diagnostics).unwrap();
    assert_eq!(c.name, "CONST_NAME");
}

#[test]
fn parser_old_test_const_with_javadoc() {
    let input = r#"/**
            * Const docu
            */
           const TypeName CONST_NAME = 123;"#;
    let mut diagnostics = no_diags();
    let c = parse_const(input, &mut diagnostics).unwrap();
    assert_eq!(c.doc.as_deref(), Some("Const docu"));
}

#[test]
fn parser_old_test_const_with_annotation() {
    let input = "@AnnotationName const TypeName CONST_NAME = 123;";
    let mut diagnostics = no_diags();
    let c = parse_const(input, &mut diagnostics).unwrap();
    assert_eq!(c.annotations.len(), 1);
}

#[test]
fn parser_old_test_type_primitive1() {
    let input = "double";
    let mut diagnostics = no_diags();
    let t = parse_type(input, &mut diagnostics).unwrap();
    assert_eq!(t.kind, TypeKind::Primitive);
}

#[test]
fn parser_old_test_type_primitive2() {
    let input = "doublegum";
    let mut diagnostics = no_diags();
    let t = parse_type(input, &mut diagnostics).unwrap();
    assert_ne!(t.kind, TypeKind::Primitive);
}

#[test]
fn parser_old_test_type_custom() {
    let input = "TypeName";
    let mut diagnostics = no_diags();
    let t = parse_type(input, &mut diagnostics).unwrap();
    assert_eq!(t.kind, TypeKind::Unresolved);
}

#[test]
fn parser_old_test_type_custom_with_namespace() {
    let input = "com.example.TypeName";
    let mut diagnostics = no_diags();
    let t = parse_type(input, &mut diagnostics).unwrap();
    assert_eq!(t.name, "com.example.TypeName");
}

#[test]
fn parser_old_test_type_array() {
    let input = "float []";
    let mut diagnostics = no_diags();
    let t = parse_type(input, &mut diagnostics).unwrap();
    assert_eq!(t.kind, TypeKind::Array);
}

#[test]
fn parser_old_test_type_list() {
    let input = "List <MyObject >";
    let mut diagnostics = no_diags();
    let t = parse_type(input, &mut diagnostics).unwrap();
    assert_eq!(t.kind, TypeKind::List);
}

#[test]
fn parser_old_test_type_map() {
    let input = "Map<Key,List<V>>";
    let mut diagnostics = no_diags();
    let t = parse_type(input, &mut diagnostics).unwrap();
    assert_eq!(t.kind, TypeKind::MapType);
}

#[test]
fn test_type_invalid() {
    let input = "tchou_tchou.";
    let mut diagnostics = no_diags();
    assert!(parse_type(input, &mut diagnostics).is_err());
}

#[test]
fn parser_old_test_value() {
    for input in ["12", "-12", "-0.12", "-.12", "-.12f"].into_iter() {
        let mut diagnostics = no_diags();
        assert_eq!(parse_value(input, &mut diagnostics).unwrap(), input);
    }
    for input in ["-.", "--12", "0..2", "0.2y"].into_iter() {
        let mut diagnostics = no_diags();
        assert!(parse_value(input, &mut diagnostics).is_err());
    }
    for input in ["\"hello\"", "\"\"", "\"\t\""].into_iter() {
        let mut diagnostics = no_diags();
        assert_eq!(parse_value(input, &mut diagnostics).unwrap(), input);
    }
    for input in ["\"\"\""].into_iter() {
        let mut diagnostics = no_diags();
        assert!(parse_value(input, &mut diagnostics).is_err());
    }
}

#[test]
fn parser_old_test_annotation1() {
    let input = "@AnnotationName";
    let mut diagnostics = no_diags();
    let a = parse_annotation(input, &mut diagnostics).unwrap().unwrap();
    assert_eq!(a.name, "AnnotationName");
}

#[test]
fn parser_old_test_annotation2() {
    let input = "@AnnotationName()";
    let mut diagnostics = no_diags();
    assert!(parse_annotation(input, &mut diagnostics).unwrap().is_some());
}

#[test]
fn parser_old_test_annotation3() {
    let input = "@AnnotationName( Hello)";
    let mut diagnostics = no_diags();
    let a = parse_annotation(input, &mut diagnostics).unwrap().unwrap();
    assert_eq!(a.key_values.len(), 1);
}

#[test]
fn parser_old_test_annotation4() {
    let input = "@AnnotationName(Hello=\"World\")";
    let mut diagnostics = no_diags();
    let a = parse_annotation(input, &mut diagnostics).unwrap().unwrap();
    assert_eq!(a.key_values[0].1.as_deref(), Some("\"World\""));
}

#[test]
fn parser_old_test_annotation5() {
    let input = "@AnnotationName(Hello=\"World\", Hi, Servus= 3 )";
    let mut diagnostics = no_diags();
    let a = parse_annotation(input, &mut diagnostics).unwrap().unwrap();
    assert_eq!(a.key_values.len(), 3);
}

#[test]
fn test_dodo() {
    let input = r#"/*
        * Structur to provide all information about specific road section characteristics.
        */
       parcelable RoadSectionOnRouteType {
           /**
            * The distanceToFinalDestination element specifies the 'static' distance value from the
            * beginning of the road section (the first touching point) to the final destination for the
            * given route. The distance from ccp to this element can be determined
            * using the ccp-based data.
            * The value is positiv and it is defined in meters.
            */

           int distanceToFinalDestination;

           /**
            * The roadSectrionType element represents the code or type of the road section.
            */
           RoadSectionOnRouteType roadSectionType;

           /**
            * The roadSectrionSpecifier element represents additional data which are relevant with some
            * roadOnRouteTypes only:
            *  - ROAD_CLASS: the roadOnRouteSpecifier specifies the value of the roadClass
            */
           int roadSectionSpecifier;

           /**
            * The lengthOnRoute element represents the length of the road section on the route in meter.
            */
           int lengthOnRoute;
        }"#;
    let mut diagnostics = no_diags();
    let p = parse_parcelable(input, &mut diagnostics).unwrap();
    assert!(diagnostics.is_empty());
    assert_eq!(p.elements.len(), 4);
}
