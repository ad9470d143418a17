//! Documentation comments: finding the block that precedes a declaration
//! and normalizing its content.

use aidl_parser::javadoc::find_content_string;
use aidl_parser::javadoc::get_javadoc;

/// Normalize a raw comment content by wrapping it into a comment block
/// followed by a declaration and asking for that declaration's
/// documentation.
fn normalized(content: &str) -> String {
    let input = format!("/**{}*/ x", content);
    get_javadoc(&input, input.chars().count() - 1).expect("documentation expected")
}

#[test]
fn test_find_content_string() {
    let input = "/**TestJavaDoc*/";
    assert_eq!(find_content_string(input), Some("TestJavaDoc"));

    let input = r#"bla bla
            /**
             * TestJavaDoc
             *
             * End
             */
             // Comment"#;
    assert_eq!(
        find_content_string(input),
        Some(
            r#"
             * TestJavaDoc
             *
             * End
             "#
        )
    );

    let input = r#"
            /** Documentation before */
            /** The real documentation */
            /* Comment after */
            // Line comment after
            "#;
    assert_eq!(find_content_string(input), Some(" The real documentation "));

    let input = r#"
            /** Other documentation */
            something else;
            "#;
    assert_eq!(find_content_string(input), None);

    let input = r#"
            something else;
            /**The documentation*/
            "#;
    assert_eq!(find_content_string(input), Some("The documentation"));
}

#[test]
fn test_parse_javadoc() {
    let input = "This is a javadoc\n * comment";
    assert_eq!(normalized(input), "This is a javadoc comment");

    let input = "\n * JavaDoc title\n *\n * JavaDoc text1\n * JavaDoc text2\n";
    assert_eq!(normalized(input), "JavaDoc title\nJavaDoc text1 JavaDoc text2");

    let input = r#"
                * JavaDoc title
                * @param Param1 Description
                * @param Param2 Description
                *
                * Description
                "#;
    assert_eq!(
        normalized(input),
        "JavaDoc title\n@param Param1 Description\n@param Param2 Description\nDescription"
    );
}

#[test]
fn test_javadoc() {
    let input = "/** This is a javadoc\n * comment*/";
    let wrapped = format!("{} x", input);
    assert_eq!(
        get_javadoc(&wrapped, wrapped.chars().count() - 1).as_deref(),
        Some("This is a javadoc comment")
    );

    let input = "/**\n * JavaDoc title\n *\n * JavaDoc text1\n * JavaDoc text2\n*/";
    let wrapped = format!("{} x", input);
    assert_eq!(
        get_javadoc(&wrapped, wrapped.chars().count() - 1).as_deref(),
        Some("JavaDoc title\nJavaDoc text1 JavaDoc text2")
    );

    let input = r#"/**
                * JavaDoc title
                * @param Param1 Description
                * @param Param2 Description
                *
                * Description
                */"#;
    let wrapped = format!("{} x", input);
    assert_eq!(
        get_javadoc(&wrapped, wrapped.chars().count() - 1).as_deref(),
        Some("JavaDoc title\n@param Param1 Description\n@param Param2 Description\nDescription")
    );
}
