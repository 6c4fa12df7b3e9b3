use markedly::class::{ButtonClass, ComponentClasses, ContainerClass};
use markedly::geometry::{Point2, Vector2};
use markedly::input::Input;
use markedly::render::{render, DrawCommand, RenderStep, Renderer};
use markedly::scripting::{ScriptRuntime, ScriptTable, ScriptValue};
use markedly::template::{Color, Style, Template};
use markedly::{ComponentId, Context, Error, Ui};

fn context() -> Context {
    let mut classes = ComponentClasses::new();
    classes.register::<ContainerClass>("container");
    classes.register::<ButtonClass>("button");
    Context { classes, runtime: ScriptRuntime::new() }
}

fn ui(template: &str, context: &Context) -> (Ui, markedly::Tree) {
    let template = Template::from_str(template).unwrap();
    let style = Style::from_str("").unwrap();
    Ui::new(&template, None, style, Vector2::new(200_000, 100_000), context).unwrap()
}

/// A renderer that keeps what it is asked to do, and that has a cache for some components.
struct Recorder {
    caches: Vec<i32>,
    log: Vec<String>,
    fail_on_clear: Option<i32>,
}

impl Recorder {
    fn new() -> Self {
        Recorder { caches: Vec::new(), log: Vec::new(), fail_on_clear: None }
    }
}

impl Renderer for Recorder {
    fn render_cache_to_target(&mut self, id: ComponentId) -> Result<(), Error> {
        self.log.push(format!("target {}", id.0));
        Ok(())
    }

    fn create_resize_cache(&mut self, id: ComponentId, size: (u32, u32)) -> Result<bool, Error> {
        self.log.push(format!("cache {} {}x{}", id.0, size.0, size.1));
        if self.caches.contains(&id.0) {
            Ok(false)
        } else {
            self.caches.push(id.0);
            Ok(true)
        }
    }

    fn clear_cache(&mut self, id: ComponentId) -> Result<(), Error> {
        if self.fail_on_clear == Some(id.0) {
            return Err(Error::other("no cache"));
        }
        self.log.push(format!("clear {}", id.0));
        Ok(())
    }

    fn render_cache(
        &mut self,
        id: ComponentId,
        source_id: ComponentId,
        position: Point2,
    ) -> Result<(), Error> {
        self.log.push(format!("draw {} to {} at {},{}", source_id.0, id.0, position.x, position.y));
        Ok(())
    }

    fn rectangle(
        &mut self,
        id: ComponentId,
        _position: Point2,
        size: Vector2,
        color: Color,
    ) -> Result<(), Error> {
        self.log.push(format!("rectangle {} {}x{} red {}", id.0, size.x, size.y, color.red));
        Ok(())
    }

    fn rounded_rectangle(
        &mut self,
        id: ComponentId,
        _position: Point2,
        _size: Vector2,
        radius: i64,
        _color: Color,
    ) -> Result<(), Error> {
        self.log.push(format!("rounded {} {}", id.0, radius));
        Ok(())
    }

    fn text(
        &mut self,
        id: ComponentId,
        text: &str,
        _position: Point2,
        _size: Vector2,
        _color: Color,
    ) -> Result<(), Error> {
        self.log.push(format!("text {} {}", id.0, text));
        Ok(())
    }

    fn vertices(
        &mut self,
        id: ComponentId,
        vertices: &Vec<Point2>,
        _indices: &Vec<u16>,
        _color: Color,
    ) -> Result<(), Error> {
        self.log.push(format!("vertices {} {}", id.0, vertices.len()));
        Ok(())
    }
}

const TREE: &str = "container { size: (100.0, 100.0) }
    container.left { size: (50.0, 50.5) }
        button { size: (10.0, 10.0), text: \"A\" }
    container { size: (40.0, 40.0) }
        button { size: (10.0, 10.0) }
";

#[test]
fn components_get_their_ids_depth_first() {
    let context = context();
    let (ui, tree) = ui(TREE, &context);
    assert_eq!(ui.root_id(), ComponentId(0));
    assert_eq!(tree.root(), ComponentId(0));
    assert_eq!(ui.next_id(), ComponentId(5));
    assert_eq!(ui.target_size(), Vector2::new(200_000, 100_000));
    let root = ui.get(ComponentId(0)).unwrap();
    assert_eq!(root.children(), &vec![ComponentId(1), ComponentId(3)]);
    assert_eq!(ui.get(ComponentId(1)).unwrap().children(), &vec![ComponentId(2)]);
    assert_eq!(ui.get(ComponentId(3)).unwrap().children(), &vec![ComponentId(4)]);
    assert_eq!(ui.get(ComponentId(1)).unwrap().style_class(), Some(&"left".to_string()));
    assert_eq!(ui.get(ComponentId(0)).unwrap().style_class(), None);
    assert!(ui.get(ComponentId(5)).is_none());
    assert!(ui.get(ComponentId(2)).unwrap().needs_rendering());
    assert!(ui.get(ComponentId(2)).unwrap().is_capturing_cursor());
    assert!(!ui.get(ComponentId(0)).unwrap().is_capturing_cursor());
    assert_eq!(ui.get(ComponentId(1)).unwrap().attributes().margin, 0);
    assert_eq!(
        ui.child_positions(ComponentId(0), Vector2::new(100_000, 100_000)),
        vec![Point2::new(0, 0), Point2::new(50_000, 0)]
    );
}

#[test]
fn unknown_classes_are_refused() {
    let context = context();
    let template = Template::from_str("container\n    slider\n").unwrap();
    let style = Style::from_str("").unwrap();
    match Ui::new(&template, None, style, Vector2::new(1, 1), &context) {
        Err(Error::Other { error }) => {
            assert_eq!(error, "Component class \"slider\" was not registered")
        }
        _ => panic!("an unknown class was accepted"),
    }
    assert!(context.classes.is_registered("button"));
    assert!(!context.classes.is_registered("slider"));
}

#[test]
fn a_pass_renders_everything_first_and_then_nothing() {
    let context = context();
    let (mut ui, _tree) = ui(TREE, &context);
    let mut renderer = Recorder::new();
    let pass = render(&mut renderer, &mut ui).unwrap();
    assert_eq!(pass.cache_was_empty, vec![true; 5]);
    assert_eq!(
        pass.rendered,
        vec![ComponentId(2), ComponentId(1), ComponentId(4), ComponentId(3), ComponentId(0)]
    );
    assert!(renderer.log.contains(&"cache 1 50x51".to_string()));
    assert!(renderer.log.contains(&"text 2 A".to_string()));
    assert!(renderer.log.contains(&"draw 3 to 0 at 50000,0".to_string()));
    assert_eq!(renderer.log.last(), Some(&"target 0".to_string()));
    assert!(!ui.get(ComponentId(2)).unwrap().needs_rendering());
    let pass = render(&mut renderer, &mut ui).unwrap();
    assert_eq!(pass.cache_was_empty, vec![false; 5]);
    assert_eq!(pass.rendered, vec![]);
}

#[test]
fn a_marked_leaf_is_rendered_with_the_components_above_it() {
    let context = context();
    let (mut ui, _tree) = ui(TREE, &context);
    let mut renderer = Recorder::new();
    render(&mut renderer, &mut ui).unwrap();
    // Hovering over the first button marks it, and only it
    let mut input = Input::new();
    input.handle_cursor_moved(Point2::new(5_000, 5_000), &mut ui);
    assert_eq!(input.is_cursor_over_ui(), true);
    assert!(ui.get(ComponentId(2)).unwrap().needs_rendering());
    assert!(!ui.get(ComponentId(1)).unwrap().needs_rendering());
    renderer.log.clear();
    let pass = render(&mut renderer, &mut ui).unwrap();
    assert_eq!(pass.rendered, vec![ComponentId(2), ComponentId(1), ComponentId(0)]);
    assert!(!renderer.log.contains(&"clear 3".to_string()));
    assert!(!renderer.log.contains(&"clear 4".to_string()));
    assert!(renderer.log.contains(&"clear 1".to_string()));
}

#[test]
fn a_failed_pass_leaves_the_marks() {
    let context = context();
    let (mut ui, _tree) = ui(TREE, &context);
    let mut renderer = Recorder::new();
    renderer.fail_on_clear = Some(1);
    assert!(render(&mut renderer, &mut ui).is_err());
    assert!(ui.get(ComponentId(0)).unwrap().needs_rendering());
    assert!(ui.get(ComponentId(2)).unwrap().needs_rendering());
}

#[test]
fn backgrounds_are_drawn_as_asked() {
    let context = context();
    let (mut ui, _tree) = ui(
        "container { size: (10.0, 10.0), color: (200, 0, 0) }\n    container { color: (1, 2, 3), border-radius: 2.0 }\n    button { color: (1, 1, 1), color-hovering: (9, 9, 9), text: #{'o' .. 'k'} }\n",
        &context,
    );
    let mut renderer = Recorder::new();
    render(&mut renderer, &mut ui).unwrap();
    assert!(renderer.log.contains(&"rectangle 0 10000x10000 red 200".to_string()));
    assert!(renderer.log.contains(&"rounded 1 2000".to_string()));
    assert!(renderer.log.contains(&"rectangle 2 10000x10000 red 1".to_string()));
    assert!(renderer.log.contains(&"text 2 ok".to_string()));
    let component = ui.get(ComponentId(2)).unwrap();
    let commands = component.class().render(ComponentId(2), component.attributes(), Vector2::new(1, 2)).unwrap();
    assert_eq!(commands.len(), 2);
    assert!(matches!(commands[0], DrawCommand::Rectangle { .. }));
}

#[test]
fn the_later_sibling_is_on_top() {
    let context = context();
    let (mut ui, tree) = ui(
        "container { size: (100.0, 100.0) }
    button { position: (0.0, 0.0), size: (50.0, 50.0), on-pressed: \"first\" }
    button { position: (25.0, 25.0), size: (50.0, 50.0), on-pressed: \"second\" }
",
        &context,
    );
    let mut input = Input::new();
    assert_eq!(input.is_cursor_over_ui(), false);
    // Inside of both
    input.handle_drag_started(Point2::new(30_000, 30_000), &mut ui);
    input.handle_drag_ended(Point2::new(30_000, 30_000), &mut ui);
    assert_eq!(ui.next_event(&tree), Some("second".to_string()));
    // Only inside of the first
    input.handle_drag_ended(Point2::new(10_000, 10_000), &mut ui);
    // On the edge of the second
    input.handle_drag_ended(Point2::new(75_000, 75_000), &mut ui);
    // Outside of both, and outside of the root
    input.handle_drag_ended(Point2::new(90_000, 90_000), &mut ui);
    input.handle_drag_ended(Point2::new(150_000, 50_000), &mut ui);
    assert_eq!(tree.event_sink(&ui).is_some(), true);
    assert_eq!(ui.next_event(&tree), Some("first".to_string()));
    assert_eq!(ui.next_event(&tree), Some("second".to_string()));
    assert_eq!(ui.next_event(&tree), None);
    // The root is a container without a color, it does not capture the cursor
    input.handle_cursor_moved(Point2::new(90_000, 90_000), &mut ui);
    assert_eq!(input.is_cursor_over_ui(), false);
    input.handle_cursor_moved(Point2::new(30_000, 30_000), &mut ui);
    assert_eq!(input.is_cursor_over_ui(), true);
    assert!(ui.get(ComponentId(2)).unwrap().needs_rendering());
}

#[test]
fn templates_are_inserted_under_a_style_class() {
    let context = context();
    let (mut ui, tree) = ui(
        "container { size: (100.0, 100.0) }\n    container.slot\n    container.slot\n",
        &context,
    );
    let inserted = Template::from_str(
        "button { size: (20.0, 20.0), on-pressed: \"inner\" }\n    container\n",
    )
    .unwrap();
    let inner = ui.insert_template(&inserted, None, "slot", &context).unwrap();
    assert_eq!(inner.root(), ComponentId(3));
    assert_eq!(ui.next_id(), ComponentId(5));
    assert_eq!(ui.get(ComponentId(1)).unwrap().children(), &vec![ComponentId(3)]);
    assert_eq!(ui.get(ComponentId(2)).unwrap().children().len(), 0);
    assert_eq!(ui.get(ComponentId(3)).unwrap().children(), &vec![ComponentId(4)]);
    assert!(ui.is_tree_root(ComponentId(3)));
    assert!(!ui.is_tree_root(ComponentId(1)));
    match ui.insert_template(&inserted, None, "nowhere", &context) {
        Err(Error::Other { error }) => {
            assert_eq!(error, "Unable to find component with style class nowhere")
        }
        _ => panic!("a template was inserted nowhere"),
    }
    assert_eq!(ui.next_id(), ComponentId(5));
    // The events of the inserted components go to their own tree
    let mut input = Input::new();
    input.handle_drag_ended(Point2::new(5_000, 5_000), &mut ui);
    assert_eq!(ui.next_event(&tree), None);
    assert_eq!(ui.next_event(&inner), Some("inner".to_string()));
}

#[test]
fn updates_stop_at_inserted_trees() {
    let context = context();
    let template = Template::from_str(
        "container.slot { size: (100.0, 100.0) }\n    button { text: #{model.label}, size: (10.0, 10.0) }\n",
    )
    .unwrap();
    let style = Style::from_str("").unwrap();
    let mut model = ScriptTable::new();
    model.set("label", ScriptValue::String("one".into()));
    let (mut ui, tree) =
        Ui::new(&template, Some(&model), style, Vector2::new(100_000, 100_000), &context).unwrap();
    let inserted = Template::from_str("container\n").unwrap();
    let inner = ui.insert_template(&inserted, None, "slot", &context).unwrap();
    let mut renderer = Recorder::new();
    render(&mut renderer, &mut ui).unwrap();
    assert!(renderer.log.contains(&"text 1 one".to_string()));
    let mut model = ScriptTable::new();
    model.set("label", ScriptValue::String("two".into()));
    ui.update_model(&tree, &model, &context).unwrap();
    assert!(ui.get(ComponentId(0)).unwrap().needs_rendering());
    assert!(ui.get(ComponentId(1)).unwrap().needs_rendering());
    assert!(!ui.get(ComponentId(2)).unwrap().needs_rendering());
    let pass = render(&mut renderer, &mut ui).unwrap();
    assert_eq!(pass.rendered, vec![ComponentId(1), ComponentId(0)]);
    assert!(renderer.log.contains(&"text 1 two".to_string()));
    ui.update_model(&inner, &model, &context).unwrap();
    assert!(ui.get(ComponentId(2)).unwrap().needs_rendering());
    assert!(!ui.get(ComponentId(1)).unwrap().needs_rendering());
}

#[test]
fn a_tree_of_another_ui_is_refused() {
    let context = context();
    let (mut first, _tree) = ui("container\n", &context);
    let (mut second, _other) = ui("container.slot\n", &context);
    let inserted = Template::from_str("container\n").unwrap();
    let foreign = second.insert_template(&inserted, None, "slot", &context).unwrap();
    let model = ScriptTable::new();
    match first.update_model(&foreign, &model, &context) {
        Err(Error::Other { error }) => assert_eq!(error, "The tree is not of this UI"),
        _ => panic!("a tree of another UI was updated"),
    }
    assert!(foreign.event_sink(&first).is_none());
    assert_eq!(first.next_event(&foreign), None);
    assert!(second.update_model(&foreign, &model, &context).is_ok());
}

#[test]
fn hovering_ends_before_it_starts_elsewhere() {
    let context = context();
    let (mut ui, _tree) = ui(
        "container { size: (100.0, 100.0) }
    button { size: (50.0, 50.0), color: (1, 1, 1), color-hovering: (2, 2, 2) }
    button { size: (50.0, 50.0), color: (3, 3, 3), color-hovering: (4, 4, 4) }
",
        &context,
    );
    let mut renderer = Recorder::new();
    render(&mut renderer, &mut ui).unwrap();
    let mut input = Input::new();
    input.handle_cursor_moved(Point2::new(10_000, 10_000), &mut ui);
    let pass = render(&mut renderer, &mut ui).unwrap();
    assert_eq!(pass.rendered, vec![ComponentId(1), ComponentId(0)]);
    assert!(renderer.log.contains(&"rectangle 1 50000x50000 red 2".to_string()));
    renderer.log.clear();
    // Moving on inside of the same button changes nothing
    input.handle_cursor_moved(Point2::new(20_000, 10_000), &mut ui);
    assert_eq!(render(&mut renderer, &mut ui).unwrap().rendered, vec![]);
    // Moving over to the other button marks both
    input.handle_cursor_moved(Point2::new(60_000, 10_000), &mut ui);
    let pass = render(&mut renderer, &mut ui).unwrap();
    assert_eq!(pass.rendered, vec![ComponentId(1), ComponentId(2), ComponentId(0)]);
    assert!(renderer.log.contains(&"rectangle 1 50000x50000 red 1".to_string()));
    assert!(renderer.log.contains(&"rectangle 2 50000x50000 red 4".to_string()));
    // Moving off the buttons ends the hover
    input.handle_cursor_moved(Point2::new(60_000, 80_000), &mut ui);
    assert_eq!(input.is_cursor_over_ui(), false);
    assert_eq!(render(&mut renderer, &mut ui).unwrap().rendered, vec![ComponentId(2), ComponentId(0)]);
}

fn brief(steps: &Vec<RenderStep>) -> Vec<String> {
    steps
        .iter()
        .map(|step| match step {
            RenderStep::Cache { id, size } => format!("cache {} {}x{}", id.0, size.0, size.1),
            RenderStep::Clear { id } => format!("clear {}", id.0),
            RenderStep::Draw { id, commands } => format!("draw {} {}", id.0, commands.len()),
            RenderStep::Composite { id, source, position } => {
                format!("put {} on {} at {},{}", source.0, id.0, position.x, position.y)
            }
            RenderStep::Target { id } => format!("target {}", id.0),
        })
        .collect()
}

#[test]
fn a_pass_asks_the_renderer_in_order() {
    let context = context();
    let (mut ui, _tree) = ui(TREE, &context);
    let mut renderer = Recorder::new();
    let pass = render(&mut renderer, &mut ui).unwrap();
    assert_eq!(
        brief(&pass.steps),
        vec![
            "cache 0 100x100",
            "cache 1 50x51",
            "cache 2 10x10",
            "clear 2",
            "draw 2 1",
            "clear 1",
            "draw 1 0",
            "put 2 on 1 at 0,0",
            "cache 3 40x40",
            "cache 4 10x10",
            "clear 4",
            "draw 4 0",
            "clear 3",
            "draw 3 0",
            "put 4 on 3 at 0,0",
            "clear 0",
            "draw 0 0",
            "put 1 on 0 at 0,0",
            "put 3 on 0 at 50000,0",
            "target 0",
        ]
    );
    // What the renderer was asked is what the record says
    let asked: Vec<&String> = renderer
        .log
        .iter()
        .filter(|line| line.starts_with("clear") || line.starts_with("target"))
        .collect();
    assert_eq!(asked, vec!["clear 2", "clear 1", "clear 4", "clear 3", "clear 0", "target 0"]);
    let pass = render(&mut renderer, &mut ui).unwrap();
    assert_eq!(
        brief(&pass.steps),
        vec!["cache 0 100x100", "cache 1 50x51", "cache 2 10x10", "cache 3 40x40", "cache 4 10x10", "target 0"]
    );
}

#[test]
fn components_are_handed_out_for_change() {
    let context = context();
    let (mut ui, _tree) = ui(TREE, &context);
    assert!(ui.get_mut(ComponentId(9)).is_none());
    let component = ui.get_mut(ComponentId(1)).unwrap();
    assert_eq!(component.children(), &vec![ComponentId(2)]);
    assert_eq!(component.style_class(), Some(&"left".to_string()));
}
