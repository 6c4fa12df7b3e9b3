//! Rendering functions and backend traits.
use vstd::prelude::*;
use crate::error::Error;
use crate::geometry::{Point2, Scalar, Vector2};
use crate::template::value::Color;
use crate::component::with_rendering;
use crate::ui::{ComponentId, Ui};

verus! {

/// One step of drawing a component to its cache, as its class asks for it.
#[derive(Debug, PartialEq, Eq)]
pub enum DrawCommand {
    /// A filled rectangle.
    Rectangle { position: Point2, size: Vector2, color: Color },
    /// A filled rectangle whose corners are rounded with the given radius.
    RoundedRectangle { position: Point2, size: Vector2, radius: Scalar, color: Color },
    /// Text centered in an area.
    Text { text: String, position: Point2, size: Vector2, color: Color },
    /// Filled triangles, given by their vertices and the indices of their corners.
    Vertices { vertices: Vec<Point2>, indices: Vec<u16>, color: Color },
}

/// The mathematical content of a [`DrawCommand`].
pub enum DrawCommandView {
    Rectangle { position: Point2, size: Vector2, color: Color },
    RoundedRectangle { position: Point2, size: Vector2, radius: Scalar, color: Color },
    Text { text: Seq<char>, position: Point2, size: Vector2, color: Color },
    Vertices { vertices: Seq<Point2>, indices: Seq<u16>, color: Color },
}

impl View for DrawCommand {
    type V = DrawCommandView;

    open spec fn view(&self) -> DrawCommandView {
        match self {
            DrawCommand::Rectangle { position, size, color } => DrawCommandView::Rectangle {
                position: *position,
                size: *size,
                color: *color,
            },
            DrawCommand::RoundedRectangle {
                position,
                size,
                radius,
                color,
            } => DrawCommandView::RoundedRectangle {
                position: *position,
                size: *size,
                radius: *radius,
                color: *color,
            },
            DrawCommand::Text { text, position, size, color } => DrawCommandView::Text {
                text: text@,
                position: *position,
                size: *size,
                color: *color,
            },
            DrawCommand::Vertices { vertices, indices, color } => DrawCommandView::Vertices {
                vertices: vertices@,
                indices: indices@,
                color: *color,
            },
        }
    }
}

/// The contents of the commands of a sequence.
pub open spec fn command_views(commands: Seq<DrawCommand>) -> Seq<DrawCommandView> {
    Seq::new(commands.len(), |i: int| commands[i]@)
}

/// A renderer backend, implements how individual rendering operations are done.
pub trait Renderer {
    /// Draws the cache of a component to the target.
    fn render_cache_to_target(&mut self, id: ComponentId) -> Result<(), Error>;

    /// Makes sure that the component has a cache of the given size, in whole units.
    /// Returns true if the cache is empty.
    fn create_resize_cache(&mut self, id: ComponentId, size: (u32, u32)) -> Result<bool, Error>;

    /// Empties the cache of a component.
    fn clear_cache(&mut self, id: ComponentId) -> Result<(), Error>;

    /// Draws the cache of the component `source_id` to the cache of the component `id`.
    fn render_cache(&mut self, id: ComponentId, source_id: ComponentId, position: Point2)
        -> Result<(), Error>;

    /// Renders a rectangle to the component's cache.
    fn rectangle(&mut self, id: ComponentId, position: Point2, size: Vector2, color: Color)
        -> Result<(), Error>;

    /// Renders a rectangle with rounded corners to the component's cache.
    fn rounded_rectangle(
        &mut self,
        id: ComponentId,
        position: Point2,
        size: Vector2,
        radius: Scalar,
        color: Color,
    ) -> Result<(), Error>;

    /// Renders text centered in an area to the component's cache.
    fn text(&mut self, id: ComponentId, text: &str, position: Point2, size: Vector2, color: Color)
        -> Result<(), Error>;

    /// Renders vertices to the component's cache.
    fn vertices(&mut self, id: ComponentId, vertices: &Vec<Point2>, indices: &Vec<u16>, color: Color)
        -> Result<(), Error>;
}

/// What a render pass has found and done.
#[derive(Debug)]
pub struct RenderPass {
    /// For every component that the pass has visited, in the order of the visits, whether
    /// the renderer has reported its cache as empty.
    pub cache_was_empty: Vec<bool>,
    /// The components that were rendered, in the order in which they were.
    pub rendered: Vec<ComponentId>,
    /// What the renderer was asked to do, in the order in which it was.
    pub steps: Vec<RenderStep>,
}

/// One thing that a render pass asks of the renderer.
#[derive(Debug, PartialEq, Eq)]
pub enum RenderStep {
    /// To make sure that the component has a cache of the given size, in whole units.
    Cache { id: ComponentId, size: (u32, u32) },
    /// To empty the cache of the component.
    Clear { id: ComponentId },
    /// To draw to the cache of the component what its class has asked for, in that order.
    Draw { id: ComponentId, commands: Vec<DrawCommand> },
    /// To draw the cache of the component `source` to the cache of the component `id`.
    Composite { id: ComponentId, source: ComponentId, position: Point2 },
    /// To draw the cache of the component to the target.
    Target { id: ComponentId },
}

/// The mathematical content of a [`RenderStep`], without the commands of the class.
pub enum StepView {
    Cache { id: ComponentId, width: int, height: int },
    Clear { id: ComponentId },
    Draw { id: ComponentId },
    Composite { id: ComponentId, source: ComponentId, x: int, y: int },
    Target { id: ComponentId },
}

impl View for RenderStep {
    type V = StepView;

    open spec fn view(&self) -> StepView {
        match self {
            RenderStep::Cache { id, size } => StepView::Cache {
                id: *id,
                width: size.0 as int,
                height: size.1 as int,
            },
            RenderStep::Clear { id } => StepView::Clear { id: *id },
            RenderStep::Draw { id, commands } => StepView::Draw { id: *id },
            RenderStep::Composite { id, source, position } => StepView::Composite {
                id: *id,
                source: *source,
                x: position.x as int,
                y: position.y as int,
            },
            RenderStep::Target { id } => StepView::Target { id: *id },
        }
    }
}

/// The contents of the steps of a sequence.
pub open spec fn step_views(steps: Seq<RenderStep>) -> Seq<StepView> {
    Seq::new(steps.len(), |i: int| steps[i]@)
}

/// The outcome of a render pass for one component and those below it.
pub struct PassView {
    /// How many answers of the renderer were used up.
    pub next: nat,
    /// Whether the component was rendered.
    pub rendered: bool,
    /// The components that were rendered, in the order in which they were.
    pub list: Seq<ComponentId>,
}

/// The answer of the renderer at position `at`: whether the cache of the component that
/// was visited then was empty. Behind the answers that were given no cache is empty.
pub open spec fn answer(answers: Seq<bool>, at: nat) -> bool {
    at < answers.len() && answers[at as int]
}

/// The whole units that a cache needs to hold a length: the length rounded up, not below
/// zero and not above what 32 bits hold.
pub open spec fn cache_extent(length: int) -> int {
    if length <= 0 {
        0
    } else if (length + 999) / 1000 > u32::MAX {
        u32::MAX as int
    } else {
        (length + 999) / 1000
    }
}

/// The outcome of a render pass for the component with the given ID, where the renderer
/// gives the answers from position `at` on: the component is rendered where its cache was
/// empty, where one of its children was rendered or where it is marked for rendering, and
/// it is rendered after its children.
pub open spec fn pass(ui: &Ui, id: int, answers: Seq<bool>, at: nat) -> PassView
    decreases ui.next() - id, ui.component(id).children.len() + 1,
{
    let below = pass_children(ui, id, ui.component(id).children.len(), answers, at + 1);
    let rendered = answer(answers, at) || below.rendered || ui.component(id).needs_rendering;
    PassView {
        next: below.next,
        rendered,
        list: if rendered {
            below.list.push(ComponentId(id as i32))
        } else {
            below.list
        },
    }
}

/// The outcome of a render pass for the first `n` children of the component with the given
/// ID, in their order: whether one of them was rendered, and what was rendered.
pub open spec fn pass_children(ui: &Ui, id: int, n: nat, answers: Seq<bool>, at: nat) -> PassView
    decreases ui.next() - id, n,
{
    if n == 0 || n > ui.component(id).children.len() {
        PassView { next: at, rendered: false, list: Seq::empty() }
    } else {
        let before = pass_children(ui, id, (n - 1) as nat, answers, at);
        let child = ui.child(id, n - 1);
        if id < child < ui.next() {
            let own = pass(ui, child, answers, before.next);
            PassView {
                next: own.next,
                rendered: before.rendered || own.rendered,
                list: before.list + own.list,
            }
        } else {
            before
        }
    }
}

/// Whether the component with the ID `target` is the component with the ID `id` or lies
/// below it.
pub open spec fn reaches(ui: &Ui, id: int, target: int) -> bool
    decreases ui.next() - id, ui.component(id).children.len() + 1,
{
    id == target || reaches_through(ui, id, ui.component(id).children.len(), target)
}

/// Whether the component with the ID `target` is one of the first `n` children of the
/// component with the ID `id` or lies below one of them.
pub open spec fn reaches_through(ui: &Ui, id: int, n: nat, target: int) -> bool
    decreases ui.next() - id, n,
{
    if n == 0 || n > ui.component(id).children.len() {
        false
    } else {
        let child = ui.child(id, n - 1);
        reaches_through(ui, id, (n - 1) as nat, target) || (id < child < ui.next() && reaches(
            ui,
            child,
            target,
        ))
    }
}

/// A pass uses up at least the answer for the component itself.
pub proof fn lemma_pass_grows(ui: &Ui, id: int, answers: Seq<bool>, at: nat)
    ensures
        pass(ui, id, answers, at).next > at,
    decreases ui.next() - id, ui.component(id).children.len() + 1,
{
    lemma_pass_children_grows(ui, id, ui.component(id).children.len(), answers, at + 1);
}

/// A pass for children uses up answers from `at` on.
pub proof fn lemma_pass_children_grows(ui: &Ui, id: int, n: nat, answers: Seq<bool>, at: nat)
    ensures
        pass_children(ui, id, n, answers, at).next >= at,
    decreases ui.next() - id, n,
{
    if n == 0 || n > ui.component(id).children.len() {
    } else {
        lemma_pass_children_grows(ui, id, (n - 1) as nat, answers, at);
        let before = pass_children(ui, id, (n - 1) as nat, answers, at);
        let child = ui.child(id, n - 1);
        if id < child < ui.next() {
            lemma_pass_grows(ui, child, answers, before.next);
        }
    }
}

/// The outcome of a pass only depends on the answers that it uses up: it is the same for
/// every longer sequence of answers.
pub proof fn lemma_pass_prefix(ui: &Ui, id: int, short: Seq<bool>, long: Seq<bool>, at: nat)
    requires
        short.len() <= long.len(),
        forall|i: int| 0 <= i < short.len() ==> short[i] == long[i],
        pass(ui, id, short, at).next <= short.len(),
    ensures
        pass(ui, id, long, at) == pass(ui, id, short, at),
    decreases ui.next() - id, ui.component(id).children.len() + 1,
{
    lemma_pass_children_grows(ui, id, ui.component(id).children.len(), short, at + 1);
    lemma_pass_children_prefix(ui, id, ui.component(id).children.len(), short, long, at + 1);
}

/// The outcome of a pass for children only depends on the answers that it uses up.
pub proof fn lemma_pass_children_prefix(
    ui: &Ui,
    id: int,
    n: nat,
    short: Seq<bool>,
    long: Seq<bool>,
    at: nat,
)
    requires
        short.len() <= long.len(),
        forall|i: int| 0 <= i < short.len() ==> short[i] == long[i],
        pass_children(ui, id, n, short, at).next <= short.len(),
    ensures
        pass_children(ui, id, n, long, at) == pass_children(ui, id, n, short, at),
    decreases ui.next() - id, n,
{
    if n == 0 || n > ui.component(id).children.len() {
    } else {
        let before = pass_children(ui, id, (n - 1) as nat, short, at);
        let child = ui.child(id, n - 1);
        if id < child < ui.next() {
            lemma_pass_grows(ui, child, short, before.next);
            lemma_pass_children_prefix(ui, id, (n - 1) as nat, short, long, at);
            lemma_pass_prefix(ui, child, short, long, before.next);
        } else {
            lemma_pass_children_prefix(ui, id, (n - 1) as nat, short, long, at);
        }
    }
}

/// Rendering spreads upwards, and only upwards: where exactly one component is marked for
/// rendering and no cache is empty, a pass renders that component and every component
/// above it up to the root, and no other component.
pub proof fn lemma_render_propagation(ui: &Ui, marked: int, id: int, at: nat)
    requires
        ui.wf_store(),
        ui.contains(id),
        forall|j: int| #[trigger] ui.contains(j) ==> (ui.component(j).needs_rendering <==> j == marked),
    ensures
        pass(ui, id, Seq::empty(), at).rendered <==> reaches(ui, id, marked),
    decreases ui.next() - id, ui.component(id).children.len() + 1,
{
    lemma_render_propagation_children(ui, marked, id, ui.component(id).children.len(), at + 1);
}

/// Rendering spreads upwards from the children of a component.
pub proof fn lemma_render_propagation_children(ui: &Ui, marked: int, id: int, n: nat, at: nat)
    requires
        ui.wf_store(),
        ui.contains(id),
        forall|j: int| #[trigger] ui.contains(j) ==> (ui.component(j).needs_rendering <==> j == marked),
    ensures
        pass_children(ui, id, n, Seq::empty(), at).rendered <==> reaches_through(ui, id, n, marked),
    decreases ui.next() - id, n,
{
    if n == 0 || n > ui.component(id).children.len() {
    } else {
        ui.lemma_wf(id);
        lemma_render_propagation_children(ui, marked, id, (n - 1) as nat, at);
        let before = pass_children(ui, id, (n - 1) as nat, Seq::empty(), at);
        let child = ui.child(id, n - 1);
        assert(ui.contains(child));
        lemma_render_propagation(ui, marked, child, before.next);
    }
}

/// An element is in the concatenation of two sequences exactly if it is in one of them.
proof fn lemma_contains_either(a: Seq<ComponentId>, b: Seq<ComponentId>, x: ComponentId)
    ensures
        (a + b).contains(x) <==> a.contains(x) || b.contains(x),
{
    if a.contains(x) {
        let i = choose|i: int| 0 <= i < a.len() && a[i] == x;
        assert((a + b)[i] == x);
    }
    if b.contains(x) {
        let i = choose|i: int| 0 <= i < b.len() && b[i] == x;
        assert((a + b)[a.len() + i] == x);
    }
    if (a + b).contains(x) {
        let i = choose|i: int| 0 <= i < (a + b).len() && (a + b)[i] == x;
        if i < a.len() {
            assert(a[i] == x);
        } else {
            assert(b[i - a.len()] == x);
        }
    }
}

/// What a pass renders: where exactly one component is marked for rendering and no cache
/// is empty, the components that a pass for a component lists as rendered are those among
/// it and the components below it that are the marked component or lie above it.
pub proof fn lemma_rendered_list(ui: &Ui, marked: int, id: int, at: nat, other: int)
    requires
        ui.wf_store(),
        ui.contains(id),
        forall|j: int| #[trigger] ui.contains(j) ==> (ui.component(j).needs_rendering <==> j == marked),
        i32::MIN <= other <= i32::MAX,
    ensures
        pass(ui, id, Seq::empty(), at).list.contains(ComponentId(other as i32)) <==> reaches(
            ui,
            id,
            other,
        ) && reaches(ui, other, marked),
    decreases ui.next() - id, ui.component(id).children.len() + 1,
{
    let n = ui.component(id).children.len();
    lemma_rendered_list_children(ui, marked, id, n, at + 1, other);
    lemma_render_propagation(ui, marked, id, at);
    ui.lemma_wf(id);
    let below = pass_children(ui, id, n, Seq::empty(), at + 1);
    let x = ComponentId(other as i32);
    if pass(ui, id, Seq::empty(), at).rendered {
        let own = seq![ComponentId(id as i32)];
        let list = below.list.push(ComponentId(id as i32));
        assert(list =~= below.list + own);
        lemma_contains_either(below.list, own, x);
        if other == id {
            assert(own[0] == x);
        } else if own.contains(x) {
            let i = choose|i: int| 0 <= i < own.len() && own[i] == x;
            assert(ComponentId(id as i32) == x);
        }
    }
}

/// What a pass renders among the first `n` children of a component and below them.
pub proof fn lemma_rendered_list_children(
    ui: &Ui,
    marked: int,
    id: int,
    n: nat,
    at: nat,
    other: int,
)
    requires
        ui.wf_store(),
        ui.contains(id),
        forall|j: int| #[trigger] ui.contains(j) ==> (ui.component(j).needs_rendering <==> j == marked),
        i32::MIN <= other <= i32::MAX,
    ensures
        pass_children(ui, id, n, Seq::empty(), at).list.contains(ComponentId(other as i32))
            <==> reaches_through(ui, id, n, other) && reaches(ui, other, marked),
    decreases ui.next() - id, n,
{
    let x = ComponentId(other as i32);
    if n == 0 || n > ui.component(id).children.len() {
        let empty = pass_children(ui, id, n, Seq::empty(), at).list;
        if empty.contains(x) {
            let i = choose|i: int| 0 <= i < empty.len() && empty[i] == x;
        }
    } else {
        ui.lemma_wf(id);
        let before = pass_children(ui, id, (n - 1) as nat, Seq::empty(), at);
        let child = ui.child(id, n - 1);
        assert(ui.contains(child));
        lemma_rendered_list_children(ui, marked, id, (n - 1) as nat, at, other);
        lemma_rendered_list(ui, marked, child, before.next, other);
        let own = pass(ui, child, Seq::empty(), before.next);
        lemma_contains_either(before.list, own.list, x);
    }
}

/// The steps that draw the caches of the first `n` children of a component of the given
/// size to its cache, each at its position, in their order.
pub open spec fn composites(ui: &Ui, id: int, n: nat, width: int, height: int) -> Seq<StepView> {
    Seq::new(
        n,
        |k: int|
            StepView::Composite {
                id: ComponentId(id as i32),
                source: ui.component(id).children[k],
                x: ui.child_position(id, k, width, height).0,
                y: ui.child_position(id, k, width, height).1,
            },
    )
}

/// What a render pass asks of the renderer for the component with the given ID inside a
/// parent of the given size, where the renderer gives the answers from position `at` on:
/// first a cache of the size of the component, then the steps for its children in their
/// order, and, where the component is rendered, to clear its cache, to draw what its class
/// asks for, and to draw the caches of its children over that, in their order and each at
/// its position.
pub open spec fn steps(ui: &Ui, id: int, answers: Seq<bool>, at: nat, width: int, height: int)
    -> Seq<StepView>
    decreases ui.next() - id, ui.component(id).children.len() + 1,
{
    let size = ui.component(id).attributes.size_in(width, height);
    let n = ui.component(id).children.len();
    seq![
        StepView::Cache {
            id: ComponentId(id as i32),
            width: cache_extent(size.0),
            height: cache_extent(size.1),
        },
    ] + steps_children(ui, id, n, answers, at + 1, size.0, size.1) + if pass(
        ui,
        id,
        answers,
        at,
    ).rendered {
        seq![
            StepView::Clear { id: ComponentId(id as i32) },
            StepView::Draw { id: ComponentId(id as i32) },
        ] + composites(ui, id, n, size.0, size.1)
    } else {
        Seq::empty()
    }
}

/// What a render pass asks of the renderer for the first `n` children of the component
/// with the given ID and size, in their order.
pub open spec fn steps_children(
    ui: &Ui,
    id: int,
    n: nat,
    answers: Seq<bool>,
    at: nat,
    width: int,
    height: int,
) -> Seq<StepView>
    decreases ui.next() - id, n,
{
    if n == 0 || n > ui.component(id).children.len() {
        Seq::empty()
    } else {
        let before = steps_children(ui, id, (n - 1) as nat, answers, at, width, height);
        let child = ui.child(id, n - 1);
        if id < child < ui.next() {
            before + steps(
                ui,
                child,
                answers,
                pass_children(ui, id, (n - 1) as nat, answers, at).next,
                width,
                height,
            )
        } else {
            before
        }
    }
}

/// What a pass asks of the renderer only depends on the answers that it uses up.
pub proof fn lemma_steps_prefix(
    ui: &Ui,
    id: int,
    short: Seq<bool>,
    long: Seq<bool>,
    at: nat,
    width: int,
    height: int,
)
    requires
        short.len() <= long.len(),
        forall|i: int| 0 <= i < short.len() ==> short[i] == long[i],
        pass(ui, id, short, at).next <= short.len(),
    ensures
        steps(ui, id, long, at, width, height) == steps(ui, id, short, at, width, height),
    decreases ui.next() - id, ui.component(id).children.len() + 1,
{
    let size = ui.component(id).attributes.size_in(width, height);
    lemma_pass_prefix(ui, id, short, long, at);
    lemma_steps_children_prefix(
        ui,
        id,
        ui.component(id).children.len(),
        short,
        long,
        at + 1,
        size.0,
        size.1,
    );
}

/// What a pass asks of the renderer for children only depends on the answers that it uses
/// up.
pub proof fn lemma_steps_children_prefix(
    ui: &Ui,
    id: int,
    n: nat,
    short: Seq<bool>,
    long: Seq<bool>,
    at: nat,
    width: int,
    height: int,
)
    requires
        short.len() <= long.len(),
        forall|i: int| 0 <= i < short.len() ==> short[i] == long[i],
        pass_children(ui, id, n, short, at).next <= short.len(),
    ensures
        steps_children(ui, id, n, long, at, width, height) == steps_children(
            ui,
            id,
            n,
            short,
            at,
            width,
            height,
        ),
    decreases ui.next() - id, n,
{
    if n == 0 || n > ui.component(id).children.len() {
    } else {
        let before = pass_children(ui, id, (n - 1) as nat, short, at);
        let child = ui.child(id, n - 1);
        if id < child < ui.next() {
            lemma_pass_grows(ui, child, short, before.next);
            lemma_pass_children_prefix(ui, id, (n - 1) as nat, short, long, at);
            lemma_steps_children_prefix(ui, id, (n - 1) as nat, short, long, at, width, height);
            lemma_steps_prefix(ui, child, short, long, before.next, width, height);
        } else {
            lemma_steps_children_prefix(ui, id, (n - 1) as nat, short, long, at, width, height);
        }
    }
}

/// Whether a component, as a render pass finds it, has to be rendered.
pub fn needs_render(cache_empty: bool, child_updated: bool, needs_render_update: bool) -> (render:
    bool)
    ensures
        render == (cache_empty || child_updated || needs_render_update),
{
    cache_empty || child_updated || needs_render_update
}

/// The whole units that a cache needs to hold a length.
pub fn cache_size(length: Scalar) -> (units: u32)
    ensures
        units == cache_extent(length as int),
{
    if length <= 0 {
        0
    } else {
        let whole: i64 = (length - 1) / 1000 + 1;
        if whole > 0xffff_ffffi64 {
            0xffff_ffffu32
        } else {
            whole as u32
        }
    }
}

/// Hands one drawing command for the cache of a component to the renderer.
fn execute<R: Renderer>(renderer: &mut R, id: ComponentId, command: &DrawCommand) -> Result<
    (),
    Error,
> {
    match command {
        DrawCommand::Rectangle { position, size, color } => renderer.rectangle(
            id,
            *position,
            *size,
            *color,
        ),
        DrawCommand::RoundedRectangle { position, size, radius, color } => renderer.rounded_rectangle(
            id,
            *position,
            *size,
            *radius,
            *color,
        ),
        DrawCommand::Text { text, position, size, color } => renderer.text(
            id,
            text.as_str(),
            *position,
            *size,
            *color,
        ),
        DrawCommand::Vertices { vertices, indices, color } => renderer.vertices(
            id,
            vertices,
            indices,
            *color,
        ),
    }
}

/// Renders a UI using a renderer backend.
///
/// Every component gets a cache of its size. A component is rendered to its cache where
/// the cache was empty, where one of its children was rendered or where it is marked for
/// rendering: its cache is cleared, its class draws to it, and the caches of its children
/// are drawn over that in their order. At last the cache of the root is drawn to the target
/// and no component is marked for rendering any more. The report says which caches the
/// renderer found empty, which components were rendered, and what the renderer was asked
/// to do, step by step.
///
/// Fails where the renderer or a class fails. The UI is then as it was.
pub fn render<R: Renderer>(renderer: &mut R, ui: &mut Ui) -> (r: Result<RenderPass, Error>)
    requires
        old(ui).wf(),
    ensures
        final(ui).wf(),
        final(ui).next() == old(ui).next(),
        final(ui).root() == old(ui).root(),
        final(ui).size() == old(ui).size(),
        final(ui).rules() == old(ui).rules(),
        final(ui).queues() == old(ui).queues(),
        final(ui).told() == old(ui).told(),
        forall|id: int| final(ui).boundary(id) == old(ui).boundary(id),
        forall|id: int| #[trigger] final(ui).contains(id) == old(ui).contains(id),
        match r {
            Ok(report) => {
                &&& pass(old(ui), old(ui).root(), report.cache_was_empty@, 0).next
                    == report.cache_was_empty@.len()
                &&& report.rendered@ == pass(
                    old(ui),
                    old(ui).root(),
                    report.cache_was_empty@,
                    0,
                ).list
                &&& step_views(report.steps@) == steps(
                    old(ui),
                    old(ui).root(),
                    report.cache_was_empty@,
                    0,
                    old(ui).size().x as int,
                    old(ui).size().y as int,
                ).push(StepView::Target { id: ComponentId(old(ui).root() as i32) })
                &&& forall|id: int| #[trigger]
                    old(ui).contains(id) ==> final(ui).component(id) == with_rendering(
                        old(ui).component(id),
                        false,
                    )
            },
            Err(_) => forall|id: int| #[trigger]
                old(ui).contains(id) ==> final(ui).component(id) == old(ui).component(id),
        },
{
    let root_id = ui.root_id();
    let mut report = RenderPass {
        cache_was_empty: Vec::new(),
        rendered: Vec::new(),
        steps: Vec::new(),
    };
    assert(step_views(report.steps@) =~= Seq::<StepView>::empty());
    proof {
        ui.lemma_root();
    }
    // Update the components' caches recursively, then render the final cache to the target
    let target_size = ui.target_size();
    match update_component_cache(renderer, ui, root_id, target_size, &mut report) {
        Ok(_) => {},
        Err(e) => {
            return Err(e);
        },
    }
    match renderer.render_cache_to_target(root_id) {
        Ok(()) => {},
        Err(e) => {
            return Err(e);
        },
    }
    let ghost asked = step_views(report.steps@);
    report.steps.push(RenderStep::Target { id: root_id });
    proof {
        assert(report.rendered@ =~= pass(ui, ui.root(), report.cache_was_empty@, 0).list);
        assert(ComponentId(ui.root() as i32) == root_id);
        assert(step_views(report.steps@) =~= asked.push(StepView::Target { id: root_id }));
        assert(asked =~= steps(
            ui,
            ui.root(),
            report.cache_was_empty@,
            0,
            ui.size().x as int,
            ui.size().y as int,
        ));
    }
    // Mark all components all not needing updating anymore
    ui.mark_all_rendered();
    Ok(report)
}

/// Brings the cache of a component and the caches of the components below it up to date,
/// and tells whether the component was rendered. Every step that the renderer has taken is
/// added to the report.
#[verifier::rlimit(60)]
fn update_component_cache<R: Renderer>(
    renderer: &mut R,
    ui: &Ui,
    component_id: ComponentId,
    parent_size: Vector2,
    report: &mut RenderPass,
) -> (r: Result<bool, Error>)
    requires
        ui.wf_store(),
        ui.contains(component_id.0 as int),
    ensures
        r matches Ok(rendered) ==> {
            let outcome = pass(
                ui,
                component_id.0 as int,
                final(report).cache_was_empty@,
                old(report).cache_was_empty@.len(),
            );
            &&& old(report).cache_was_empty@.len() <= final(report).cache_was_empty@.len()
            &&& forall|i: int|
                0 <= i < old(report).cache_was_empty@.len() ==> final(report).cache_was_empty@[i]
                    == old(report).cache_was_empty@[i]
            &&& outcome.next == final(report).cache_was_empty@.len()
            &&& outcome.rendered == rendered
            &&& final(report).rendered@ == old(report).rendered@ + outcome.list
            &&& step_views(final(report).steps@) == step_views(old(report).steps@) + steps(
                ui,
                component_id.0 as int,
                final(report).cache_was_empty@,
                old(report).cache_was_empty@.len(),
                parent_size.x as int,
                parent_size.y as int,
            )
        },
    decreases ui.next() - component_id.0,
{
    let ghost id = component_id.0 as int;
    let ghost at = report.cache_was_empty@.len();
    let ghost answers0 = report.cache_was_empty@;
    let ghost rendered0 = report.rendered@;
    let component = match ui.get(component_id) {
        Some(component) => component,
        None => {
            return Err(Error::other("Unknown component"));
        },
    };
    let computed_size = component.attributes().compute_size(parent_size);
    // Make sure this component's cache is created and of the correct size
    let cache_empty = match renderer.create_resize_cache(
        component_id,
        (cache_size(computed_size.x), cache_size(computed_size.y)),
    ) {
        Ok(cache_empty) => cache_empty,
        Err(e) => {
            return Err(e);
        },
    };
    report.cache_was_empty.push(cache_empty);
    let ghost steps0 = step_views(report.steps@);
    let ghost width = computed_size.x as int;
    let ghost height = computed_size.y as int;
    let ghost cache = StepView::Cache {
        id: component_id,
        width: cache_extent(width),
        height: cache_extent(height),
    };
    report.steps.push(
        RenderStep::Cache {
            id: component_id,
            size: (cache_size(computed_size.x), cache_size(computed_size.y)),
        },
    );
    proof {
        ui.lemma_wf(id);
        assert(step_views(report.steps@) =~= steps0 + seq![cache] + steps_children(
            ui,
            id,
            0,
            report.cache_was_empty@,
            at + 1,
            width,
            height,
        ));
    }
    // Make sure all children's caches are up-to-date
    let children = component.children();
    let mut child_updated = false;
    let mut k: usize = 0;
    while k < children.len()
        invariant
            k <= children@.len(),
            children@ == ui.component(id).children,
            id == component_id.0,
            ui.wf_store(),
            ui.contains(id),
            at + 1 <= report.cache_was_empty@.len(),
            at == answers0.len(),
            forall|i: int| 0 <= i < at ==> report.cache_was_empty@[i] == answers0[i],
            report.cache_was_empty@[at as int] == cache_empty,
            pass_children(ui, id, k as nat, report.cache_was_empty@, at + 1).next
                == report.cache_was_empty@.len(),
            pass_children(ui, id, k as nat, report.cache_was_empty@, at + 1).rendered
                == child_updated,
            report.rendered@ == rendered0 + pass_children(
                ui,
                id,
                k as nat,
                report.cache_was_empty@,
                at + 1,
            ).list,
            width == computed_size.x,
            height == computed_size.y,
            step_views(report.steps@) == steps0 + seq![cache] + steps_children(
                ui,
                id,
                k as nat,
                report.cache_was_empty@,
                at + 1,
                width,
                height,
            ),
        decreases children@.len() - k,
    {
        let ghost answers1 = report.cache_was_empty@;
        let ghost rendered1 = report.rendered@;
        let ghost steps1 = step_views(report.steps@);
        proof {
            ui.lemma_wf(id);
            assert(ui.contains(ui.child(id, k as int)));
        }
        let updated = match update_component_cache(
            renderer,
            ui,
            children[k],
            computed_size,
            report,
        ) {
            Ok(updated) => updated,
            Err(e) => {
                return Err(e);
            },
        };
        proof {
            let answers2 = report.cache_was_empty@;
            lemma_pass_children_prefix(ui, id, k as nat, answers1, answers2, at + 1);
            let before = pass_children(ui, id, k as nat, answers2, at + 1);
            let own = pass(ui, ui.child(id, k as int), answers2, before.next);
            assert(report.rendered@ =~= rendered0 + (before.list + own.list));
            lemma_steps_children_prefix(
                ui,
                id,
                k as nat,
                answers1,
                answers2,
                at + 1,
                width,
                height,
            );
            assert(step_views(report.steps@) =~= steps0 + seq![cache] + steps_children(
                ui,
                id,
                (k + 1) as nat,
                answers2,
                at + 1,
                width,
                height,
            ));
        }
        child_updated = child_updated || updated;
        k += 1;
    }
    let ghost below_steps = steps_children(
        ui,
        id,
        k as nat,
        report.cache_was_empty@,
        at + 1,
        width,
        height,
    );
    proof {
        assert(ComponentId(id as i32) == component_id);
        assert(ui.component(id).attributes.size_in(parent_size.x as int, parent_size.y as int)
            == (width, height));
    }
    // Only render if we need to
    if needs_render(cache_empty, child_updated, component.needs_rendering()) {
        match renderer.clear_cache(component_id) {
            Ok(()) => {},
            Err(e) => {
                return Err(e);
            },
        }
        report.steps.push(RenderStep::Clear { id: component_id });
        // Let the component's class render itself to the component's cache
        let commands = match component.render(component_id, computed_size) {
            Ok(commands) => commands,
            Err(e) => {
                return Err(e);
            },
        };
        let ghost cleared = report.steps@;
        let mut c: usize = 0;
        while c < commands.len()
            invariant
                c <= commands@.len(),
                report.steps@ == cleared,
            decreases commands@.len() - c,
        {
            match execute(renderer, component_id, &commands[c]) {
                Ok(()) => {},
                Err(e) => {
                    return Err(e);
                },
            }
            c += 1;
        }
        report.steps.push(RenderStep::Draw { id: component_id, commands });
        let ghost drawn = steps0 + seq![cache] + below_steps + seq![
            StepView::Clear { id: component_id },
            StepView::Draw { id: component_id },
        ];
        proof {
            assert(step_views(report.steps@) =~= drawn + composites(ui, id, 0, width, height));
        }
        // Render all children caches in sequence to this component
        let positions = ui.child_positions(component_id, computed_size);
        let ghost answers = report.cache_was_empty@;
        let ghost listed = report.rendered@;
        let mut j: usize = 0;
        while j < children.len()
            invariant
                j <= children@.len(),
                positions@.len() == children@.len(),
                children@ == ui.component(id).children,
                id == component_id.0,
                width == computed_size.x,
                height == computed_size.y,
                report.cache_was_empty@ == answers,
                report.rendered@ == listed,
                forall|k: int|
                    0 <= k < positions@.len() ==> ((#[trigger] positions@[k]).x as int, positions@[k].y
                        as int) == ui.child_position(id, k, width, height),
                step_views(report.steps@) == drawn + composites(ui, id, j as nat, width, height),
            decreases children@.len() - j,
        {
            match renderer.render_cache(component_id, children[j], positions[j]) {
                Ok(()) => {},
                Err(e) => {
                    return Err(e);
                },
            }
            let ghost asked = step_views(report.steps@);
            report.steps.push(
                RenderStep::Composite {
                    id: component_id,
                    source: children[j],
                    position: positions[j],
                },
            );
            proof {
                let step = StepView::Composite {
                    id: ComponentId(id as i32),
                    source: ui.component(id).children[j as int],
                    x: ui.child_position(id, j as int, width, height).0,
                    y: ui.child_position(id, j as int, width, height).1,
                };
                assert(ComponentId(id as i32) == component_id);
                assert((positions@[j as int].x as int, positions@[j as int].y as int)
                    == ui.child_position(id, j as int, width, height));
                assert(step_views(report.steps@) =~= asked.push(step));
                assert(composites(ui, id, (j + 1) as nat, width, height) =~= composites(
                    ui,
                    id,
                    j as nat,
                    width,
                    height,
                ).push(step));
                assert(step_views(report.steps@) =~= drawn + composites(
                    ui,
                    id,
                    (j + 1) as nat,
                    width,
                    height,
                ));
            }
            j += 1;
        }
        let ghost below = pass_children(ui, id, k as nat, report.cache_was_empty@, at + 1);
        report.rendered.push(component_id);
        proof {
            assert(ComponentId(id as i32) == component_id);
            assert(report.rendered@ =~= rendered0 + below.list.push(component_id));
            assert(step_views(report.steps@) =~= steps0 + steps(
                ui,
                id,
                report.cache_was_empty@,
                at,
                parent_size.x as int,
                parent_size.y as int,
            ));
        }
        Ok(true)
    } else {
        proof {
            assert(step_views(report.steps@) =~= steps0 + steps(
                ui,
                id,
                report.cache_was_empty@,
                at,
                parent_size.x as int,
                parent_size.y as int,
            ));
        }
        Ok(false)
    }
}

} // verus!
