use markedly::template::parse::{parse_document, parse_indentation};
use markedly::template::{ParseErrorKind, Style, Template, TemplateParser, TemplateValue};

#[test]
fn it_parses_multiple_roots() {
    let result = Style::from_str("root1\nroot2\n");

    println!("Result: {:?}", result);
    assert!(result.is_ok());
    let style = result.unwrap();
    assert_eq!(style.components.len(), 2);
    assert_eq!(style.components[0].class, "root1");
    assert_eq!(style.components[1].class, "root2");
}

#[test]
fn it_parses_single_root() {
    let result = Template::from_str("root\n");

    println!("Result: {:?}", result);
    assert!(result.is_ok());
    assert_eq!(result.unwrap().root.class, "root");
}

#[test]
fn it_parses_root_with_child() {
    let result = Template::from_str("root\n    child\n");

    println!("Result: {:?}", result);
    assert!(result.is_ok());
    let component = result.unwrap().root;
    assert_eq!(component.class, "root");
    assert_eq!(component.children.len(), 1, "Incorrect children length on root");
    assert_eq!(component.children[0].class, "child");
}

#[test]
fn it_parses_root_with_nested_children() {
    let result = Template::from_str("root\n    child\n        nested_child\n");

    println!("Result: {:?}", result);
    assert!(result.is_ok());
    let component = result.unwrap().root;
    assert_eq!(component.class, "root");
    assert_eq!(component.children.len(), 1, "Incorrect children length on root");
    assert_eq!(component.children[0].class, "child");
    assert_eq!(component.children[0].children.len(), 1, "Incorrect children length on child");
    assert_eq!(component.children[0].children[0].class, "nested_child");
}

#[test]
fn it_parses_root_with_two_children() {
    let result = Template::from_str("root\n    child1\n    child2\n");

    println!("Result: {:?}", result);
    assert!(result.is_ok());
    let component = result.unwrap().root;
    assert_eq!(component.class, "root");
    assert_eq!(component.children.len(), 2, "Incorrect children length on root");
    assert_eq!(component.children[0].class, "child1");
    assert_eq!(component.children[1].class, "child2");
}

#[test]
fn it_parses_varied_children_depth() {
    let result = Template::from_str("root\n    child1\n        nested_child\n    child2\n");

    println!("Result: {:?}", result);
    assert!(result.is_ok());
    let component = result.unwrap().root;
    assert_eq!(component.class, "root");
    assert_eq!(component.children.len(), 2, "Incorrect children length on root");
    assert_eq!(component.children[0].class, "child1");
    assert_eq!(component.children[1].class, "child2");
    assert_eq!(component.children[0].children.len(), 1, "Incorrect children length on child1");
    assert_eq!(component.children[0].children[0].class, "nested_child");
}

#[test]
fn it_parses_root_attributes() {
    let result = Template::from_str("root { key: \"value\" }\n");

    println!("Result: {:?}", result);
    assert!(result.is_ok());
    let component = result.unwrap().root;
    assert_eq!(component.class, "root");
    assert_eq!(component.attributes.len(), 1);
    assert_eq!(component.attributes[0].key, "key");
    assert_eq!(component.attributes[0].value, TemplateValue::String("value".into()));
}

#[test]
fn it_parses_newlines_in_attributes_while_parsing_children() {
    let result = Template::from_str(
        "root {\n    key: \"value\",\n    key2: \"value2\",\n}\n    child\n",
    );

    println!("Result: {:?}", result);
    assert!(result.is_ok());
    let component = result.unwrap().root;
    assert_eq!(component.class, "root");
    assert_eq!(component.children.len(), 1, "Incorrect children length on root");
    assert_eq!(component.children[0].class, "child");
    assert_eq!(component.attributes.len(), 2);
    assert_eq!(component.children[0].line, 5);
}

#[test]
fn it_parses_number_attributes() {
    let result = Template::from_str("root { key1: 5, key2: 2.5, key3: 69% }\n");

    println!("Result: {:?}", result);
    assert!(result.is_ok());
    let component = result.unwrap().root;
    assert_eq!(component.class, "root");
    assert_eq!(component.attributes.len(), 3);
    assert_eq!(component.attributes[0].key, "key1");
    assert_eq!(component.attributes[0].value, TemplateValue::Integer(5));
    assert_eq!(component.attributes[1].key, "key2");
    assert_eq!(component.attributes[1].value, TemplateValue::Float(2500));
    match component.attributes[1].value {
        TemplateValue::Float(thousandths) => assert_eq!(thousandths as f32 / 1000.0, 2.5),
        _ => panic!("not a float"),
    }
    assert_eq!(component.attributes[2].key, "key3");
    assert_eq!(component.attributes[2].value, TemplateValue::Percentage(69));
}

#[test]
fn it_parses_tuple_attributes() {
    let result = Template::from_str("root { key: (50, \"text\") }\n");

    println!("Result: {:?}", result);
    assert!(result.is_ok());
    let component = result.unwrap().root;
    assert_eq!(component.class, "root");
    assert_eq!(component.attributes.len(), 1);
    assert_eq!(component.attributes[0].key, "key");
    assert_eq!(
        component.attributes[0].value,
        TemplateValue::Tuple(vec!(TemplateValue::Integer(50), TemplateValue::String("text".into())))
    );
}

#[test]
fn it_fails_two_roots() {
    let result = Template::from_str("root\nroot2\n");

    println!("Result: {:?}", result);
    assert!(result.is_err());
    assert_eq!(result.unwrap_err().kind, ParseErrorKind::MultipleRoots);
}

#[test]
fn it_fails_two_roots_with_child() {
    let result = Template::from_str("root\n    child\nroot2\n");

    println!("Result: {:?}", result);
    assert!(result.is_err());
}

#[test]
fn it_fails_excessive_indentation() {
    let result = Template::from_str("root\n        excessive_child1\n");

    println!("Result: {:?}", result);
    assert!(result.is_err());
    let error = result.unwrap_err();
    assert_eq!(error.kind, ParseErrorKind::ExcessiveIndentation);
    assert_eq!(error.line, 2);
}

#[test]
fn it_fails_non_4_indentation() {
    let result1 = Template::from_str("root\n  bad_child\n");
    let result2 = Template::from_str("root\n     bad_child\n");

    println!("Result1: {:?}", result1);
    println!("Result2: {:?}", result2);
    assert!(result1.is_err());
    assert!(result2.is_err());
    assert_eq!(result1.unwrap_err().kind, ParseErrorKind::BadIndentation);
    let error = result2.unwrap_err();
    assert_eq!(error.kind, ParseErrorKind::BadIndentation);
    assert_eq!(error.line, 2);
}

#[test]
fn it_fails_duplicate_keys() {
    // Duplicate keys are accepted by the parser, the last one wins when the attributes
    // are resolved
    let result = Template::from_str("root { key1: 5, key1: 10 }\n");

    println!("Result: {:?}", result);
    assert!(result.is_ok());
    let component = result.unwrap().root;
    assert_eq!(component.attributes.len(), 2);
    assert_eq!(component.attributes[0].key, "key1");
    assert_eq!(component.attributes[0].value, TemplateValue::Integer(5));
    assert_eq!(component.attributes[1].key, "key1");
    assert_eq!(component.attributes[1].value, TemplateValue::Integer(10));
}

#[test]
fn it_fails_empty_templates() {
    let result = Template::from_str("\n   \n");
    assert_eq!(result.unwrap_err().kind, ParseErrorKind::NoComponent);
    assert_eq!(Template::from_str("").unwrap_err().kind, ParseErrorKind::NoComponent);
    assert_eq!(Style::from_str("").unwrap().components.len(), 0);
}

#[test]
fn it_fails_indented_first_component() {
    let error = Template::from_str("    root\n").unwrap_err();
    assert_eq!(error.kind, ParseErrorKind::FirstIndentation);
    assert_eq!(error.line, 1);
}

#[test]
fn it_reports_syntax_errors_with_their_line() {
    let error = Template::from_str("root\n    child { key }\n").unwrap_err();
    assert_eq!(error.kind, ParseErrorKind::Syntax);
    assert_eq!(error.line, 2);
    assert_eq!(error.message(), "Unexpected text in the declaration at line 2");
    let error = Template::from_str("root\n\n    child { key: 99999999999 }\n").unwrap_err();
    assert_eq!(error.kind, ParseErrorKind::Syntax);
    assert_eq!(error.line, 3);
    let error = Template::from_str("root\n      child\n").unwrap_err();
    assert_eq!(
        error.message(),
        "Bad amount of indentation spacing, must be divisible by 4, at line 2"
    );
    let error = Template::from_str("root\n        child\n").unwrap_err();
    assert_eq!(error.message(), "Excessive increase in indentation at line 2");
}

#[test]
fn it_parses_tabs_as_four_columns() {
    let component = Template::from_str("root\n\tchild\n\t    nested\n").unwrap().root;
    assert_eq!(component.children.len(), 1);
    assert_eq!(component.children[0].children.len(), 1);
    assert_eq!(component.children[0].children[0].class, "nested");
}

#[test]
fn it_parses_style_classes_and_all_values() {
    let text = "root.main { a: \"s\", b: -7, c: -1.2345, d: 50%, e: (1, (2, _), ), f: _, g: #{model.x}, h: ${run()}, i: 3 ?model.on? }";
    let component = Template::from_str(text).unwrap().root;
    assert_eq!(component.class, "root");
    assert_eq!(component.style_class, Some("main".to_string()));
    assert_eq!(component.line, 1);
    let values: Vec<TemplateValue> = component.attributes.iter().map(|a| a.value.clone()).collect();
    assert_eq!(
        values,
        vec![
            TemplateValue::String("s".into()),
            TemplateValue::Integer(-7),
            TemplateValue::Float(-1235),
            TemplateValue::Percentage(50),
            TemplateValue::Tuple(vec![
                TemplateValue::Integer(1),
                TemplateValue::Tuple(vec![TemplateValue::Integer(2), TemplateValue::Default]),
            ]),
            TemplateValue::Default,
            TemplateValue::ScriptValue("model.x".into()),
            TemplateValue::ScriptStatement("run()".into()),
            TemplateValue::Integer(3),
        ]
    );
    assert_eq!(component.attributes[8].script_conditional, Some("model.on".to_string()));
    assert_eq!(component.attributes[0].script_conditional, None);
}

#[test]
fn it_parses_the_listing_of_a_tree_to_the_same_shape() {
    let first = Template::from_str("root { a: 1 }\n    one.x\n        deep\n    two\n").unwrap().root;
    let second = Template::from_str("root\n    one\n        deep\n    two\n").unwrap().root;
    fn same(a: &markedly::template::ComponentTemplate, b: &markedly::template::ComponentTemplate) -> bool {
        a.class == b.class
            && a.children.len() == b.children.len()
            && a.children.iter().zip(b.children.iter()).all(|(x, y)| same(x, y))
    }
    assert!(same(&first, &second));
}

fn listing(component: &markedly::template::ComponentTemplate, depth: usize, text: &mut String) {
    for _ in 0..depth {
        text.push_str("    ");
    }
    text.push_str(&component.class);
    text.push('\n');
    for child in &component.children {
        listing(child, depth + 1, text);
    }
}

#[test]
fn it_parses_its_own_listing_to_the_same_shape() {
    let first = Template::from_str(
        "root.main { a: (1, 2),\n  b: \"x\" }\r\n\n    one-a { k: 1 }\n        deep_1\n        deep_2\n\n    two\n",
    )
    .unwrap()
    .root;
    let mut text = String::new();
    listing(&first, 0, &mut text);
    assert_eq!(text, "root\n    one-a\n        deep_1\n        deep_2\n    two\n");
    let second = Template::from_str(&text).unwrap().root;
    let mut again = String::new();
    listing(&second, 0, &mut again);
    assert_eq!(text, again);
    assert_eq!(second.children[0].children[1].line, 4);
    assert_eq!(first.children[1].line, 8);
}

#[test]
fn it_parses_empty_blocks_and_tuples() {
    let component = Template::from_str("root {}\n    child { a: () , }").unwrap().root;
    assert_eq!(component.attributes.len(), 0);
    assert_eq!(component.children[0].attributes[0].value, TemplateValue::Tuple(vec![]));
    assert!(Template::from_str("root { , }\n").is_err());
    assert!(Template::from_str("root { a: 1 b: 2 }\n").is_err());
    assert!(Template::from_str("root { a: \"open }\n").is_err());
    assert!(Template::from_str("1root\n").is_err());
    assert!(Template::from_str("root.\n").is_err());
    assert!(Template::from_str("root { a: 2147483648 }\n").is_err());
    assert_eq!(
        Template::from_str("root { a: -2147483648 }\n").unwrap().root.attributes[0].value,
        TemplateValue::Integer(-2147483648)
    );
    assert_eq!(
        Template::from_str("root { a: 0.0005, b: 0.00049, c: 12.5 }\n")
            .unwrap()
            .root
            .attributes
            .iter()
            .map(|a| a.value.clone())
            .collect::<Vec<_>>(),
        vec![TemplateValue::Float(1), TemplateValue::Float(0), TemplateValue::Float(12500)]
    );
}

#[test]
fn it_takes_two_roots_as_a_style_only() {
    let text = "root\nroot2\n";
    assert_eq!(Template::from_str(text).unwrap_err().kind, ParseErrorKind::MultipleRoots);
    let style = Style::from_str(text).unwrap();
    assert_eq!(style.components.len(), 2);
    assert_eq!(style.components[0].class, "root");
    assert_eq!(style.components[1].class, "root2");
    assert_eq!(style.components[1].line, 2);
}

#[test]
fn indentation_is_a_quarter_of_the_columns_or_an_error() {
    let declarations =
        TemplateParser::parse("root\n  two\n\tfour\n  \t  eight\n   \tseven\n").unwrap();
    assert_eq!(declarations.len(), 5);
    assert_eq!(parse_indentation(&declarations[0]), Ok(0));
    let error = parse_indentation(&declarations[1]).unwrap_err();
    assert_eq!(error.kind, ParseErrorKind::BadIndentation);
    assert_eq!(error.line, 2);
    // A tab counts as four spaces
    assert_eq!(parse_indentation(&declarations[2]), Ok(1));
    assert_eq!(parse_indentation(&declarations[3]), Ok(2));
    // Seven columns are not rounded down to one level
    let error = parse_indentation(&declarations[4]).unwrap_err();
    assert_eq!(error.line, 5);
    assert_eq!(declarations[4].indentation(), 1);
    assert_eq!(declarations[4].odd_columns(), 3);
    assert_eq!(declarations[3].component().class, "eight");
    let error = parse_document(declarations).unwrap_err();
    assert_eq!(error.kind, ParseErrorKind::BadIndentation);
    assert_eq!(error.line, 2);
}
