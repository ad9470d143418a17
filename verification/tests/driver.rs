//! The project driver end to end: several units, the two-phase pipeline,
//! and incremental edits.

use aidl_parser::Parser;
use aidl_parser::ParseFileResult;
use aidl_parser::traverse::walk_methods;

fn find<'a, ID: PartialEq>(
    results: &'a [ParseFileResult<ID>],
    id: ID,
) -> &'a ParseFileResult<ID> {
    results.iter().find(|r| r.id == id).expect("result expected")
}

#[test]
fn test_parse() {
    let interface_aidl = r#"
        package com.bwa.aidl_test;

        import com.bwa.aidl_test.MyParcelable;
        import com.bwa.aidl_test.MyParcelable;
        import com.bwa.aidl_test.NonExisting;
        import com.bwa.aidl_test.UnusedEnum;

        interface MyInterface {
            void method1(in MyParcelable);
            String method2();
        }
    "#;

    let parcelable_aidl = r#"
        package com.bwa.aidl_test;

        parcelable MyParcelable {
            String name;
            byte[] data;
        }
    "#;

    let enum_aidl = r#"
        package com.bwa.aidl_test;

        enum UnusedEnum {
            VALUE1 = 1,
            VALUE2 = 2,
        }
    "#;

    let mut parser = Parser::new();
    parser.add_content("id1", interface_aidl);
    parser.add_content("id2", parcelable_aidl);
    parser.add_content("id3", enum_aidl);
    let res = parser.validate();

    // one result per file
    assert_eq!(res.len(), 3);

    let r1 = find(&res, "id1");
    let ast1 = r1.ast.as_ref().expect("ast");
    let interface = ast1.item.as_interface().expect("interface");
    assert_eq!(interface.name, "MyInterface");

    let r2 = find(&res, "id2");
    let ast2 = r2.ast.as_ref().expect("ast");
    let parcelable = ast2.item.as_parcelable().expect("parcelable");
    assert_eq!(parcelable.name, "MyParcelable");

    let r3 = find(&res, "id3");
    let ast3 = r3.ast.as_ref().expect("ast");
    let enum_ = ast3.item.as_enum().expect("enum");
    assert_eq!(enum_.name, "UnusedEnum");

    // the diagnostics of the interface, sorted by line
    assert_eq!(r1.diagnostics.len(), 3);
    assert!(r1.diagnostics[0].message.contains("Duplicated import"));
    assert!(r1.diagnostics[1].message.contains("Unresolved import"));
    assert!(r1.diagnostics[2].message.contains("Unused import"));
    assert!(r2.diagnostics.is_empty());
    assert!(r3.diagnostics.is_empty());

    // traverse the tree
    let methods = walk_methods(ast1);
    assert_eq!(methods.len(), 2);
    assert_eq!(methods[0].name, "method1");
    assert_eq!(methods[1].name, "method2");
}

#[test]
fn test_parse_error() {
    let aidl = "package x.y.z; completly wrong item {}";

    let mut parser = Parser::new();
    parser.add_content(0, aidl);
    let parse_results = parser.validate();

    assert_eq!(parse_results.len(), 1);
    let r = find(&parse_results, 0);
    assert!(r.ast.is_none());
    assert_eq!(r.diagnostics.len(), 1);
    let d = &r.diagnostics[0];
    assert_eq!(
        d.message,
        "Invalid item - Unrecognized token `completly`.\nExpected one of ANNOTATION, ENUM, IMPORT, INTERFACE, ONEWAY or PARCELABLE"
    );
    assert_eq!(d.context_message.as_deref(), Some("unrecognized token"));
    assert_eq!(d.range.start.offset, 15);
    assert_eq!(d.range.start.line_col, (1, 16));
    assert_eq!(d.range.end.offset, 24);
    assert_eq!(d.range.end.line_col, (1, 25));
}

#[test]
fn test_validate() {
    let interface_aidl = r#"
            package com.bwa.aidl_test;

            import com.bwa.aidl_test.MyEnum;
            import com.bwa.aidl_test.MyEnum;
            import com.bwa.aidl_test.MyEnum;
            import com.bwa.aidl_test.MyParcelable;
            import com.bwa.aidl_test.MyUnexisting;

            interface MyInterface {
                const int MY_CONST = 12;
                /**
                 * Be polite and say hello
                 */
                //String hello(MyEnum e, MyParcelable);
                String servus(MyEnum e, MyWrong);
                String bonjour(MyEnum e, MyUnexisting);
            }
        "#;

    let enum_aidl = r#"
            package com.bwa.aidl_test;

            enum MyEnum {
                VALUE1 = 1,
                VALUE2 = 2,
            }
        "#;

    let parcelable_aidl = r#"
            package com.bwa.aidl_test;

            parcelable MyParcelable {
                String name;
                byte[] data;
            }
        "#;

    let mut parser = Parser::new();
    parser.add_content(0, interface_aidl);
    parser.add_content(1, parcelable_aidl);
    parser.add_content(2, enum_aidl);
    let res = parser.validate();

    // one result per file
    assert_eq!(res.len(), 3);

    // the unknown type is reported
    let r0 = find(&res, 0);
    assert!(r0.ast.is_some());
    assert!(r0
        .diagnostics
        .iter()
        .any(|d| d.message.contains("Unknown type `MyWrong`")));

    // incremental edits: replace, add and remove content
    parser.add_content(1, parcelable_aidl);
    parser.add_content(3, enum_aidl);
    parser.remove_content(2);
    let res = parser.validate();
    assert_eq!(res.len(), 3);
    assert!(res.iter().any(|r| r.id == 3));
    assert!(!res.iter().any(|r| r.id == 2));
}
