//! Components, the attributes that all of them share, and how they are laid out.
use vstd::prelude::*;
use crate::class::classes::not_registered_text;
use crate::class::ComponentClass;
use crate::error::{Error, ErrorView};
use crate::events::EventSink;
use crate::geometry::{half, larger, minus, plus, Point2, Scalar, Vector2};
use crate::render::DrawCommand;
use crate::template::attributes::{cascade, permitted, resolved, unconditional};
use crate::template::component::{optional_text, template_views, ComponentTemplate, TemplateView};
use crate::template::style::Style;
use crate::text::same_text;
use crate::ui::{ComponentId, Context};
use crate::layout::{
    advanced, docked, flow_start, placed_x, placed_y, FlowView,
};
use crate::scripting::ScriptRuntime;
use crate::template::attributes::{attribute_error, Attributes, AttributesView};
use crate::template::value::{
    coordinates_of, float_of, other, string_of, Coordinates, Reading, TemplateValue, ValueView,
};

pub use crate::layout::Docking;

verus! {

/// A component generated from a template, active in a UI.
pub struct Component {
    class: Box<dyn ComponentClass>,
    style_class: Option<String>,
    sink: usize,
    needs_rendering: bool,
    children: Vec<ComponentId>,
    attributes: ComponentAttributes,
    template: ComponentTemplate,
}

/// The mathematical content of a [`Component`].
pub struct ComponentView {
    /// The style class of the component.
    pub style_class: Option<Seq<char>>,
    /// Which of the event sinks of its UI the component raises its events to.
    pub sink: nat,
    /// Whether the component has to be rendered again.
    pub needs_rendering: bool,
    /// The children of the component, in the order in which they are drawn.
    pub children: Seq<ComponentId>,
    /// The core attributes of the component.
    pub attributes: ComponentAttributes,
    /// The template that the component was made from.
    pub template: TemplateView,
    /// Whether the class of the component captures the cursor.
    pub capturing: bool,
}

impl View for Component {
    type V = ComponentView;

    closed spec fn view(&self) -> ComponentView {
        ComponentView {
            style_class: optional_text(self.style_class),
            sink: self.sink as nat,
            needs_rendering: self.needs_rendering,
            children: self.children@,
            attributes: self.attributes,
            template: self.template@,
            capturing: self.class.capturing(),
        }
    }
}

/// Whether two contents of a component only differ in what its class keeps and in the
/// mark for rendering.
pub open spec fn kept(before: ComponentView, after: ComponentView) -> bool {
    &&& after.style_class == before.style_class
    &&& after.sink == before.sink
    &&& after.children == before.children
    &&& after.attributes == before.attributes
    &&& after.template == before.template
}

/// The content of a component with another mark for rendering.
pub open spec fn with_rendering(component: ComponentView, needs_rendering: bool) -> ComponentView {
    ComponentView {
        style_class: component.style_class,
        sink: component.sink,
        needs_rendering,
        children: component.children,
        attributes: component.attributes,
        template: component.template,
        capturing: component.capturing,
    }
}

/// The content of a component with other children.
pub open spec fn with_children(component: ComponentView, children: Seq<ComponentId>)
    -> ComponentView {
    ComponentView {
        style_class: component.style_class,
        sink: component.sink,
        needs_rendering: component.needs_rendering,
        children,
        attributes: component.attributes,
        template: component.template,
        capturing: component.capturing,
    }
}

impl Component {
    /// Makes the component of a template: resolves its attributes, creates its class and
    /// reads its core attributes. The component has no children yet and has to be rendered.
    ///
    /// Fails where a conditional cannot be evaluated, where the class is not registered or
    /// refuses the attributes, and where the core attributes cannot be read.
    pub(crate) fn from_template(
        template: &ComponentTemplate,
        sink: usize,
        style: &Style,
        context: &Context,
    ) -> (r: Result<Self, Error>)
        ensures
            r matches Ok(component) ==> {
                &&& component@.style_class == template@.style_class
                &&& component@.sink == sink
                &&& component@.needs_rendering
                &&& component@.children == Seq::<ComponentId>::empty()
                &&& component@.template == template@
                &&& context.classes@.contains(template@.class)
                &&& exists|enabled: Seq<bool>|
                    permitted(cascade(template@, template_views(style.components@)), enabled)
                        && match core_attributes_of(
                        #[trigger] resolved(template@, template_views(style.components@), enabled),
                    ) {
                        Some(Ok(core)) => component@.attributes == core,
                        Some(Err(_)) => false,
                        None => true,
                    }
            },
            !context.classes@.contains(template@.class) ==> r is Err,
            !context.classes@.contains(template@.class) && unconditional(
                cascade(template@, template_views(style.components@)),
            ) ==> (r matches Err(e) && e@ == (ErrorView::Other {
                error: not_registered_text(template@.class),
            })),
    {
        let runtime = &context.runtime;
        let attributes = match Attributes::resolve(template, style, context) {
            Ok(attributes) => attributes,
            Err(e) => {
                return Err(e);
            },
        };
        let class = match context.classes.create(template, &attributes, runtime) {
            Ok(class) => class,
            Err(e) => {
                return Err(e);
            },
        };
        let component_attributes = match ComponentAttributes::load(&attributes, runtime) {
            Ok(component_attributes) => component_attributes,
            Err(e) => {
                return Err(e);
            },
        };
        let style_class = match &template.style_class {
            Some(style_class) => Some(style_class.clone()),
            None => None,
        };
        Ok(
            Component {
                class,
                style_class,
                sink,
                needs_rendering: true,
                children: Vec::new(),
                attributes: component_attributes,
                // Kept to resolve the attributes again when the model changes
                template: template.clone(),
            },
        )
    }

    /// The class of the component.
    pub fn class(&self) -> (class: &Box<dyn ComponentClass>)
        ensures
            class.capturing() == self@.capturing,
    {
        &self.class
    }

    /// The style class of the component.
    pub fn style_class(&self) -> (style_class: Option<&String>)
        ensures
            match style_class {
                Some(name) => self@.style_class == Some(name@),
                None => self@.style_class is None,
            },
    {
        self.style_class.as_ref()
    }

    /// Whether the component has to be rendered again.
    pub fn needs_rendering(&self) -> (needs: bool)
        ensures
            needs == self@.needs_rendering,
    {
        self.needs_rendering
    }

    /// Whether the class of the component captures the cursor.
    pub fn is_capturing_cursor(&self) -> (captures: bool)
        ensures
            captures == self@.capturing,
    {
        self.class.is_capturing_cursor()
    }

    /// Which of the event sinks of its UI the component raises its events to.
    pub fn sink(&self) -> (sink: usize)
        ensures
            sink == self@.sink,
    {
        self.sink
    }

    pub(crate) fn mark_rendered(&mut self)
        ensures
            final(self)@ == with_rendering(old(self)@, false),
    {
        self.needs_rendering = false;
    }

    /// The children of the component, in the order in which they are drawn.
    pub fn children(&self) -> (children: &Vec<ComponentId>)
        ensures
            children@ == self@.children,
    {
        &self.children
    }

    pub(crate) fn add_child(&mut self, id: ComponentId)
        ensures
            final(self)@ == with_children(old(self)@, old(self)@.children.push(id)),
    {
        self.children.push(id);
    }

    /// The core attributes of the component.
    pub fn attributes(&self) -> (attributes: &ComponentAttributes)
        ensures
            *attributes == self@.attributes,
    {
        &self.attributes
    }

    /// What the class of the component asks to be drawn for it.
    pub(crate) fn render(&self, id: ComponentId, computed_size: Vector2) -> Result<
        Vec<DrawCommand>,
        Error,
    > {
        self.class.render(id, &self.attributes, computed_size)
    }

    /// Tells the class that the cursor starts to hover over the component, and gives its
    /// answer. The component has to be rendered again where it had to before or the class
    /// says so.
    pub(crate) fn raise_hover_start_event(&mut self, event_sink: &mut EventSink) -> (redraw: bool)
        ensures
            kept(old(self)@, final(self)@),
            final(self)@.needs_rendering == (old(self)@.needs_rendering || redraw),
    {
        let needs = self.class.hover_start_event(event_sink);
        self.mark_for_rendering(needs);
        needs
    }

    /// Tells the class that the cursor stops to hover over the component, and gives its
    /// answer. The component has to be rendered again where it had to before or the class
    /// says so.
    pub(crate) fn raise_hover_end_event(&mut self, event_sink: &mut EventSink) -> (redraw: bool)
        ensures
            kept(old(self)@, final(self)@),
            final(self)@.needs_rendering == (old(self)@.needs_rendering || redraw),
    {
        let needs = self.class.hover_end_event(event_sink);
        self.mark_for_rendering(needs);
        needs
    }

    /// Tells the class that the component was pressed.
    pub(crate) fn raise_pressed_event(&mut self, event_sink: &mut EventSink)
        ensures
            kept(old(self)@, final(self)@),
            final(self)@.needs_rendering == old(self)@.needs_rendering,
    {
        self.class.pressed_event(event_sink);
    }

    /// Resolves the attributes of the component again and hands them to its class. After
    /// that the component has to be rendered again.
    ///
    /// Fails where a conditional cannot be evaluated or the class refuses the attributes;
    /// the mark for rendering is then as before.
    pub(crate) fn update_attributes(&mut self, style: &Style, context: &Context) -> (r: Result<
        (),
        Error,
    >)
        ensures
            kept(old(self)@, final(self)@),
            final(self)@.needs_rendering == (old(self)@.needs_rendering || r is Ok),
    {
        let runtime = &context.runtime;
        let attributes = match Attributes::resolve(&self.template, style, context) {
            Ok(attributes) => attributes,
            Err(e) => {
                return Err(e);
            },
        };
        match self.class.update_attributes(&attributes, runtime) {
            Ok(()) => {},
            Err(e) => {
                return Err(e);
            },
        }
        self.mark_for_rendering(true);
        Ok(())
    }

    /// Takes over the answer of the class to an event or an update: the component has to
    /// be rendered again where it had to before or where the class asks for it.
    pub(crate) fn mark_for_rendering(&mut self, redraw: bool)
        ensures
            final(self)@ == with_rendering(old(self)@, old(self)@.needs_rendering || redraw),
    {
        self.needs_rendering = self.needs_rendering || redraw;
    }
}

/// Core attributes all components share.
#[derive(Debug, Clone, Copy, PartialEq, Eq)]
pub struct ComponentAttributes {
    pub position: Option<Coordinates>,
    pub size: Option<Coordinates>,
    pub docking: (Docking, Docking),
    pub margin: Scalar,
}

/// The docking that a name stands for.
pub open spec fn docking_named(name: Seq<char>) -> Result<Docking, ErrorView> {
    if name == "start"@ {
        Ok(Docking::Start)
    } else if name == "middle"@ {
        Ok(Docking::Middle)
    } else if name == "end"@ {
        Ok(Docking::End)
    } else {
        Err(other("Values must be either \"start\" or \"end\""@))
    }
}

/// What a value gives when it is read as the docking along one axis.
pub open spec fn docking_of_one(v: ValueView) -> Reading<Docking> {
    match string_of(v) {
        None => None,
        Some(Err(e)) => Some(Err(e)),
        Some(Ok(name)) => Some(docking_named(name)),
    }
}

/// What a value gives when it is read as the docking along both axes.
pub open spec fn docking_of(v: ValueView) -> Reading<(Docking, Docking)> {
    match v {
        ValueView::Tuple(values) => if values.len() != 2 {
            Some(Err(other("Tuple is incorrect size"@)))
        } else {
            match docking_of_one(values[0]) {
                None => None,
                Some(Err(e)) => Some(Err(e)),
                Some(Ok(x)) => match docking_of_one(values[1]) {
                    None => None,
                    Some(Err(e)) => Some(Err(e)),
                    Some(Ok(y)) => Some(Ok((x, y))),
                },
            }
        },
        _ => Some(Err(other("Value is not a tuple"@))),
    }
}

/// What reading the attribute `key` gives where an attribute that is not set, or set to the
/// null value, counts as absent, and `reading` is what its value gives.
pub open spec fn optional<T>(attributes: AttributesView, key: Seq<char>, reading: Reading<T>)
    -> Reading<Option<T>> {
    if !attributes.values.contains_key(key) || attributes.values[key] is Default {
        Some(Ok(None))
    } else {
        match reading {
            None => None,
            Some(Ok(value)) => Some(Ok(Some(value))),
            Some(Err(e)) => Some(Err(attribute_error(attributes, key, e))),
        }
    }
}

/// What reading the attribute `key` gives where `default` stands in for an attribute that
/// is not set, or set to the null value, and `reading` is what its value gives.
pub open spec fn or_default<T>(
    attributes: AttributesView,
    key: Seq<char>,
    reading: Reading<T>,
    default: T,
) -> Reading<T> {
    if !attributes.values.contains_key(key) || attributes.values[key] is Default {
        Some(Ok(default))
    } else {
        match reading {
            None => None,
            Some(Ok(value)) => Some(Ok(value)),
            Some(Err(e)) => Some(Err(attribute_error(attributes, key, e))),
        }
    }
}

/// What the core attributes of a component are, read from its resolved attributes:
/// `position` and `size` are optional pairs of coordinates, `docking` is a pair of names
/// that defaults to the start of both axes, and `margin` a length that defaults to zero. The
/// first of them, in this order, that cannot be read gives the error.
pub open spec fn core_attributes_of(attributes: AttributesView) -> Reading<ComponentAttributes> {
    let values = attributes.values;
    match optional(attributes, "position"@, coordinates_of(values["position"@])) {
        None => None,
        Some(Err(e)) => Some(Err(e)),
        Some(Ok(position)) => match optional(
            attributes,
            "size"@,
            coordinates_of(values["size"@]),
        ) {
            None => None,
            Some(Err(e)) => Some(Err(e)),
            Some(Ok(size)) => match or_default(
                attributes,
                "docking"@,
                docking_of(values["docking"@]),
                (Docking::Start, Docking::Start),
            ) {
                None => None,
                Some(Err(e)) => Some(Err(e)),
                Some(Ok(docking)) => match or_default(
                    attributes,
                    "margin"@,
                    float_of(values["margin"@]),
                    0int,
                ) {
                    None => None,
                    Some(Err(e)) => Some(Err(e)),
                    Some(Ok(margin)) => Some(
                        Ok(ComponentAttributes { position, size, docking, margin: margin as i64 }),
                    ),
                },
            },
        }
    }
}

impl ComponentAttributes {
    /// Reads the core attributes of a component from its resolved attributes.
    ///
    /// Where a script value has to be evaluated first, the scripting engine decides the
    /// outcome.
    pub fn load(attributes: &Attributes, runtime: &ScriptRuntime) -> (r: Result<Self, Error>)
        ensures
            match core_attributes_of(attributes@) {
                Some(Ok(core)) => r == Ok::<Self, Error>(core),
                Some(Err(e)) => r matches Err(x) && x@ == e,
                None => r matches Err(x) ==> x@ is Attribute,
            },
    {
        let ghost values = attributes@.values;
        proof {
            if values.contains_key("position"@) {
                attributes.lemma_stored("position"@);
            }
            if values.contains_key("size"@) {
                attributes.lemma_stored("size"@);
            }
            if values.contains_key("docking"@) {
                attributes.lemma_stored("docking"@);
            }
            if values.contains_key("margin"@) {
                attributes.lemma_stored("margin"@);
            }
        }
        let read_position = |v: &TemplateValue| -> (out: Result<Coordinates, Error>)
            ensures
                match coordinates_of(v@) {
                    Some(Ok(value)) => out == Ok::<Coordinates, Error>(value),
                    Some(Err(e)) => out matches Err(x) && x@ == e,
                    None => true,
                },
            { v.as_coordinates(runtime) };
        let position = match attributes.attribute_optional("position", read_position) {
            Ok(position) => position,
            Err(e) => {
                return Err(e);
            },
        };
        let read_size = |v: &TemplateValue| -> (out: Result<Coordinates, Error>)
            ensures
                match coordinates_of(v@) {
                    Some(Ok(value)) => out == Ok::<Coordinates, Error>(value),
                    Some(Err(e)) => out matches Err(x) && x@ == e,
                    None => true,
                },
            { v.as_coordinates(runtime) };
        let size = match attributes.attribute_optional("size", read_size) {
            Ok(size) => size,
            Err(e) => {
                return Err(e);
            },
        };
        let read_docking = |v: &TemplateValue| -> (out: Result<(Docking, Docking), Error>)
            ensures
                match docking_of(v@) {
                    Some(Ok(value)) => out == Ok::<(Docking, Docking), Error>(value),
                    Some(Err(e)) => out matches Err(x) && x@ == e,
                    None => true,
                },
            { Docking::from_value(v, runtime) };
        let docking = match attributes.attribute(
            "docking",
            read_docking,
            (Docking::Start, Docking::Start),
        ) {
            Ok(docking) => docking,
            Err(e) => {
                return Err(e);
            },
        };
        let read_margin = |v: &TemplateValue| -> (out: Result<Scalar, Error>)
            ensures
                match float_of(v@) {
                    Some(Ok(value)) => out matches Ok(got) && got == value,
                    Some(Err(e)) => out matches Err(x) && x@ == e,
                    None => true,
                },
            { v.as_float(runtime) };
        let margin = match attributes.attribute("margin", read_margin, 0) {
            Ok(margin) => margin,
            Err(e) => {
                return Err(e);
            },
        };
        Ok(ComponentAttributes { position, size, docking, margin })
    }

    /// The size of the component inside a parent of the given size.
    pub open spec fn size_in(&self, parent_x: int, parent_y: int) -> (int, int) {
        match self.size {
            Some(size) => (size.x.resolve(parent_x), size.y.resolve(parent_y)),
            None => (parent_x, parent_y),
        }
    }

    /// The position of the component inside a parent of the given size: where it has an
    /// explicit position, that position docked along each axis, else the position that the
    /// flow of the parent gives to it.
    pub open spec fn position_in(&self, parent_x: int, parent_y: int, flow: FlowView) -> (
        int,
        int,
    ) {
        let size = self.size_in(parent_x, parent_y);
        match self.position {
            Some(position) => (
                docked(self.docking.0, position.x.resolve(parent_x), parent_x, size.0),
                docked(self.docking.1, position.y.resolve(parent_y), parent_y, size.1),
            ),
            None => (
                placed_x(flow, size.0, self.margin as int),
                placed_y(flow, size.0, self.margin as int),
            ),
        }
    }

    /// The state of the flow of the parent after the component was positioned: as before
    /// where the component has an explicit position, else advanced behind it.
    pub open spec fn flow_behind(&self, parent_x: int, parent_y: int, flow: FlowView) -> FlowView {
        let size = self.size_in(parent_x, parent_y);
        match self.position {
            Some(_) => flow,
            None => advanced(flow, size.0, size.1, self.margin as int),
        }
    }

    /// The size of the component inside a parent of the given size: its explicit size,
    /// with percentages taken of the parent's size, else the size of the parent.
    pub fn compute_size(&self, parent_size: Vector2) -> (size: Vector2)
        ensures
            (size.x as int, size.y as int) == self.size_in(
                parent_size.x as int,
                parent_size.y as int,
            ),
    {
        match self.size {
            Some(size) => size.to_vector(parent_size),
            None => parent_size,
        }
    }

    /// The position of the component inside a parent of the given size, whose flow places
    /// the component where it has no explicit position.
    pub fn compute_position(&self, parent_size: Vector2, parent_flow: &mut ComponentFlow) -> (point:
        Point2)
        ensures
            (point.x as int, point.y as int) == self.position_in(
                parent_size.x as int,
                parent_size.y as int,
                old(parent_flow)@,
            ),
            final(parent_flow)@ == self.flow_behind(
                parent_size.x as int,
                parent_size.y as int,
                old(parent_flow)@,
            ),
    {
        let size = self.compute_size(parent_size);
        if let Some(position) = self.position {
            let position = position.to_point(parent_size);
            // If we have a position, we need to use that
            let x = match self.docking.0 {
                Docking::Start => position.x,
                Docking::Middle => plus(position.x, half(minus(parent_size.x, size.x))),
                Docking::End => minus(plus(position.x, parent_size.x), size.x),
            };
            let y = match self.docking.1 {
                Docking::Start => position.y,
                Docking::Middle => plus(position.y, half(minus(parent_size.y, size.y))),
                Docking::End => minus(plus(position.y, parent_size.y), size.y),
            };
            Point2::new(x, y)
        } else {
            // If we don't have a position, we need to automatically calculate it
            parent_flow.position(size, self.margin)
        }
    }
}

impl Docking {
    /// Reads the docking along both axes from a tuple of two names.
    ///
    /// Where a name is a script value, the scripting engine decides the outcome.
    pub fn from_value(value: &TemplateValue, runtime: &ScriptRuntime) -> (r: Result<
        (Docking, Docking),
        Error,
    >)
        ensures
            match docking_of(value@) {
                Some(Ok(docking)) => r == Ok::<(Docking, Docking), Error>(docking),
                Some(Err(e)) => r matches Err(x) && x@ == e,
                None => true,
            },
    {
        let vec = match value.as_vec() {
            Ok(vec) => vec,
            Err(e) => {
                return Err(e);
            },
        };
        if vec.len() != 2 {
            return Err(Error::other("Tuple is incorrect size"));
        }
        let x = match from_value_individual(&vec[0], runtime) {
            Ok(x) => x,
            Err(e) => {
                return Err(e);
            },
        };
        let y = match from_value_individual(&vec[1], runtime) {
            Ok(y) => y,
            Err(e) => {
                return Err(e);
            },
        };
        Ok((x, y))
    }
}

fn from_value_individual(value: &TemplateValue, runtime: &ScriptRuntime) -> (r: Result<
    Docking,
    Error,
>)
    ensures
        match docking_of_one(value@) {
            Some(Ok(docking)) => r == Ok::<Docking, Error>(docking),
            Some(Err(e)) => r matches Err(x) && x@ == e,
            None => true,
        },
{
    let name = match value.as_string(runtime) {
        Ok(name) => name,
        Err(e) => {
            return Err(e);
        },
    };
    let docking = if same_text(&name, "start") {
        Docking::Start
    } else if same_text(&name, "middle") {
        Docking::Middle
    } else if same_text(&name, "end") {
        Docking::End
    } else {
        return Err(Error::other("Values must be either \"start\" or \"end\""));
    };
    proof {
        if docking_of_one(value@) is None {
        } else {
            assert(docking_named(name@) == Ok::<Docking, ErrorView>(docking));
        }
    }
    Ok(docking)
}

/// Places components one after the other from left to right, in lines from top to bottom.
pub struct ComponentFlow {
    limits: Vector2,
    pointer: Point2,
    pointer_margin: Scalar,
    next_line: Scalar,
}

impl View for ComponentFlow {
    type V = FlowView;

    closed spec fn view(&self) -> FlowView {
        FlowView {
            limits_x: self.limits.x as int,
            limits_y: self.limits.y as int,
            pointer_x: self.pointer.x as int,
            pointer_y: self.pointer.y as int,
            pointer_margin: self.pointer_margin as int,
            next_line: self.next_line as int,
        }
    }
}

impl ComponentFlow {
    /// A flow for a parent of the given size, in which nothing is placed yet.
    pub fn new(limits: Vector2) -> (flow: Self)
        ensures
            flow@ == flow_start(limits.x as int, limits.y as int),
    {
        ComponentFlow { limits, pointer: Point2::new(0, 0), pointer_margin: 0, next_line: 0 }
    }

    /// Places a component of the given size and margin and gives its position.
    ///
    /// The component follows the last one on its line where it ends within the width of
    /// the parent there, with the larger of their two margins between them. Else it starts
    /// the next line, which lies below everything that was placed so far.
    pub fn position(&mut self, size: Vector2, margin: Scalar) -> (point: Point2)
        ensures
            point.x == placed_x(old(self)@, size.x as int, margin as int),
            point.y == placed_y(old(self)@, size.x as int, margin as int),
            final(self)@ == advanced(old(self)@, size.x as int, size.y as int, margin as int),
    {
        // The total margin is always the maximum, margins overlap
        // These margins are by how much this component needs to be offset
        let max_x_margin = larger(self.pointer_margin, margin);
        // Make sure the next position in this line doesn't overflow the line
        // If it does, go to the next line
        let next_x = plus(self.pointer.x, max_x_margin);
        let position = if plus(next_x, size.x) <= self.limits.x {
            Point2::new(next_x, plus(self.pointer.y, margin))
        } else {
            Point2::new(margin, plus(self.next_line, margin))
        };
        self.pointer = Point2::new(plus(position.x, size.x), minus(position.y, margin));
        self.pointer_margin = margin;
        self.next_line = larger(plus(position.y, size.y), self.next_line);
        position
    }
}

} // verus!
