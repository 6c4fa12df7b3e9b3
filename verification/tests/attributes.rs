use markedly::class::ComponentClasses;
use markedly::scripting::{ScriptRuntime, ScriptTable, ScriptValue};
use markedly::template::{Attributes, Style, Template, TemplateValue};
use markedly::{ComponentAttributes, Context, Docking, Error};

fn context() -> Context {
    Context { classes: ComponentClasses::new(), runtime: ScriptRuntime::new() }
}

fn resolve(template: &str, style: &str, context: &Context) -> Result<Attributes, Error> {
    let template = Template::from_str(template).unwrap();
    let style = Style::from_str(style).unwrap();
    Attributes::resolve(&template.root, &style, context)
}

#[test]
fn the_last_of_duplicate_keys_wins() {
    let attributes = resolve("root { key1: 5, key1: 10 }\n", "", &context()).unwrap();
    assert_eq!(attributes.get("key1"), Some(&TemplateValue::Integer(10)));
    assert_eq!(attributes.get("key2"), None);
}

#[test]
fn the_template_overrides_the_style() {
    let style = "other { a: 1 }\nroot { a: 2, b: 3 }\nroot { b: 4, c: 5 }\n";
    let attributes = resolve("root { a: 10 }\n", style, &context()).unwrap();
    assert_eq!(attributes.get("a"), Some(&TemplateValue::Integer(10)));
    assert_eq!(attributes.get("b"), Some(&TemplateValue::Integer(4)));
    assert_eq!(attributes.get("c"), Some(&TemplateValue::Integer(5)));
}

#[test]
fn conditionals_decide_what_applies() {
    let context = context();
    let mut model = ScriptTable::new();
    model.set("big", ScriptValue::Bool(true));
    context.runtime.set_model(&model).unwrap();
    let template = "root { size: 1, size: 2 ?model.big?, size: 3 ?not model.big? }\n";
    let attributes = resolve(template, "", &context).unwrap();
    assert_eq!(attributes.get("size"), Some(&TemplateValue::Integer(2)));
    let mut model = ScriptTable::new();
    model.set("big", ScriptValue::Bool(false));
    context.runtime.set_model(&model).unwrap();
    let attributes = resolve(template, "", &context).unwrap();
    assert_eq!(attributes.get("size"), Some(&TemplateValue::Integer(3)));
    let failed = resolve("root { a: 1 ?this is not lua? }\n", "", &context);
    assert!(matches!(failed, Err(Error::Script { .. })));
}

#[test]
fn resolving_again_gives_the_same_attributes() {
    let context = context();
    let template = Template::from_str("root { a: 1, b: (1, 2), a: \"x\" }\n").unwrap();
    let style = Style::from_str("root { c: 2.5, b: 7 }\n").unwrap();
    let first = Attributes::resolve(&template.root, &style, &context).unwrap();
    let second = Attributes::resolve(&template.root, &style, &context).unwrap();
    for key in ["a", "b", "c", "d"] {
        assert_eq!(first.get(key), second.get(key));
    }
    assert_eq!(first.get("a"), Some(&TemplateValue::String("x".into())));
    let enabled = vec![true, false, true, true, true];
    let chosen = Attributes::from_cascade(&template.root, &style, &enabled);
    assert_eq!(chosen.get("c"), Some(&TemplateValue::Float(2500)));
    assert_eq!(
        chosen.get("b"),
        Some(&TemplateValue::Tuple(vec![TemplateValue::Integer(1), TemplateValue::Integer(2)]))
    );
    let fewer = Attributes::from_cascade(&template.root, &style, &vec![true, true, false, false]);
    assert_eq!(fewer.get("a"), Some(&TemplateValue::String("x".into())));
    assert_eq!(fewer.get("b"), Some(&TemplateValue::Integer(7)));
    assert_eq!(Attributes::candidates(&template.root, &style).len(), 5);
}

#[test]
fn attributes_are_read_with_defaults() {
    let context = context();
    let attributes = resolve("root { a: 1, b: _, c: \"x\" }\n", "", &context).unwrap();
    let runtime = &context.runtime;
    assert_eq!(attributes.attribute("a", |v| v.as_integer(runtime), 9).unwrap(), 1);
    assert_eq!(attributes.attribute("z", |v| v.as_integer(runtime), 9).unwrap(), 9);
    assert_eq!(attributes.attribute_optional("a", |v| v.as_integer(runtime)).unwrap(), Some(1));
    assert_eq!(attributes.attribute_optional("b", |v| v.as_integer(runtime)).unwrap(), None);
    assert_eq!(attributes.attribute_optional("z", |v| v.as_integer(runtime)).unwrap(), None);
    match attributes.attribute("c", |v| v.as_integer(runtime), 9).unwrap_err() {
        Error::Attribute { component, line, field, inner } => {
            assert_eq!(component, "root");
            assert_eq!(line, 1);
            assert_eq!(field, "c");
            assert!(matches!(*inner, Error::Other { .. }));
        }
        other => panic!("unexpected error {:?}", other),
    }
    // The null value counts as not set
    assert_eq!(attributes.attribute("b", |v| v.as_integer(runtime), 9).unwrap(), 9);
}

#[test]
fn core_attributes_are_loaded() {
    let context = context();
    let attributes = resolve(
        "root { position: (1.0, 50%), docking: (\"end\", \"middle\"), margin: 2.5 }\n",
        "",
        &context,
    )
    .unwrap();
    let core = ComponentAttributes::load(&attributes, &context.runtime).unwrap();
    assert!(core.position.is_some());
    assert!(core.size.is_none());
    assert_eq!(core.docking, (Docking::End, Docking::Middle));
    assert_eq!(core.margin, 2500);
    let attributes = resolve("root\n", "", &context).unwrap();
    let core = ComponentAttributes::load(&attributes, &context.runtime).unwrap();
    assert_eq!(core.docking, (Docking::Start, Docking::Start));
    assert_eq!(core.margin, 0);
    let attributes = resolve("root { docking: (\"left\", \"end\") }\n", "", &context).unwrap();
    assert!(ComponentAttributes::load(&attributes, &context.runtime).is_err());
    let value = TemplateValue::Tuple(vec![
        TemplateValue::String("start".into()),
        TemplateValue::ScriptValue("'e' .. 'nd'".into()),
    ]);
    assert_eq!(
        Docking::from_value(&value, &context.runtime).unwrap(),
        (Docking::Start, Docking::End)
    );
    let value = TemplateValue::Tuple(vec![TemplateValue::String("start".into())]);
    assert!(Docking::from_value(&value, &context.runtime).is_err());
}
