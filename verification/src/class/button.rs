//! The button class.
use vstd::prelude::*;
use crate::class::background::{background_of, BackgroundAttributes};
use crate::class::classes::{ComponentClass, ComponentClassFactory};
use crate::component::{optional, or_default, ComponentAttributes};
use crate::error::Error;
use crate::events::EventSink;
use crate::geometry::{Point2, Vector2};
use crate::render::{command_views, DrawCommand, DrawCommandView};
use crate::scripting::ScriptRuntime;
use crate::template::attributes::{Attributes, AttributesView};
use crate::template::component::optional_text;
use crate::template::value::{
    color_of, event_hook_of, string_of, Color, EventHook, EventHookView, Reading, TemplateValue,
};
use crate::ui::ComponentId;

verus! {

/// A button component class, raises events on click.
pub struct ButtonClass {
    pub background: BackgroundAttributes,
    pub attributes: ButtonAttributes,
    pub hovering: bool,
}

/// What a button shows and does beyond its background.
pub struct ButtonAttributes {
    pub text: Option<String>,
    pub text_color: Color,
    pub on_pressed: Option<EventHook>,
}

/// The mathematical content of [`ButtonAttributes`].
pub struct ButtonAttributesView {
    pub text: Option<Seq<char>>,
    pub text_color: Color,
    pub on_pressed: Option<EventHookView>,
}

impl View for ButtonAttributes {
    type V = ButtonAttributesView;

    open spec fn view(&self) -> ButtonAttributesView {
        ButtonAttributesView {
            text: optional_text(self.text),
            text_color: self.text_color,
            on_pressed: match self.on_pressed {
                Some(hook) => Some(hook@),
                None => None,
            },
        }
    }
}

/// The color of the text of a button that does not set one: opaque black.
pub open spec fn default_text_color() -> Color {
    Color { red: 0, green: 0, blue: 0, alpha: 255 }
}

/// What a button shows and does, read from its resolved attributes: `text` is an optional
/// string, `text-color` a color that defaults to opaque black, and `on-pressed` an optional
/// event hook. The first of them, in this order, that cannot be read gives the error.
pub open spec fn button_attributes_of(attributes: AttributesView) -> Reading<ButtonAttributesView> {
    let values = attributes.values;
    match optional(attributes, "text"@, string_of(values["text"@])) {
        None => None,
        Some(Err(e)) => Some(Err(e)),
        Some(Ok(text)) => match or_default(
            attributes,
            "text-color"@,
            color_of(values["text-color"@]),
            default_text_color(),
        ) {
            None => None,
            Some(Err(e)) => Some(Err(e)),
            Some(Ok(text_color)) => match optional(
                attributes,
                "on-pressed"@,
                event_hook_of(values["on-pressed"@]),
            ) {
                None => None,
                Some(Err(e)) => Some(Err(e)),
                Some(Ok(on_pressed)) => Some(Ok(ButtonAttributesView { text, text_color, on_pressed })),
            },
        },
    }
}

impl ButtonAttributes {
    /// Reads what a button shows and does from its resolved attributes.
    ///
    /// Where a script value has to be evaluated first, the scripting engine decides the
    /// outcome.
    pub fn load(attributes: &Attributes, runtime: &ScriptRuntime) -> (r: Result<Self, Error>)
        ensures
            match button_attributes_of(attributes@) {
                Some(Ok(button)) => r matches Ok(got) && got@ == button,
                Some(Err(e)) => r matches Err(x) && x@ == e,
                None => true,
            },
    {
        let ghost values = attributes@.values;
        proof {
            if values.contains_key("text"@) {
                attributes.lemma_stored("text"@);
            }
            if values.contains_key("text-color"@) {
                attributes.lemma_stored("text-color"@);
            }
            if values.contains_key("on-pressed"@) {
                attributes.lemma_stored("on-pressed"@);
            }
        }
        let read_text = |v: &TemplateValue| -> (out: Result<String, Error>)
            ensures
                match string_of(v@) {
                    Some(Ok(value)) => out matches Ok(got) && got@ == value,
                    Some(Err(e)) => out matches Err(x) && x@ == e,
                    None => true,
                },
            { v.as_string(runtime) };
        let text = match attributes.attribute_optional("text", read_text) {
            Ok(text) => text,
            Err(e) => {
                return Err(e);
            },
        };
        let read_color = |v: &TemplateValue| -> (out: Result<Color, Error>)
            ensures
                match color_of(v@) {
                    Some(Ok(value)) => out == Ok::<Color, Error>(value),
                    Some(Err(e)) => out matches Err(x) && x@ == e,
                    None => true,
                },
            { v.as_color(runtime) };
        let text_color = match attributes.attribute(
            "text-color",
            read_color,
            Color::new_u8(0, 0, 0, 255),
        ) {
            Ok(color) => color,
            Err(e) => {
                return Err(e);
            },
        };
        let read_hook = |v: &TemplateValue| -> (out: Result<EventHook, Error>)
            ensures
                match event_hook_of(v@) {
                    Some(Ok(value)) => out matches Ok(got) && got@ == value,
                    Some(Err(e)) => out matches Err(x) && x@ == e,
                    None => true,
                },
            { v.as_event_hook(runtime) };
        let on_pressed = match attributes.attribute_optional("on-pressed", read_hook) {
            Ok(hook) => hook,
            Err(e) => {
                return Err(e);
            },
        };
        Ok(ButtonAttributes { text, text_color, on_pressed })
    }
}

impl ButtonClass {
    /// What has to be drawn for the button: its background, and over it its text.
    pub open spec fn commands(&self, size: Vector2) -> Seq<DrawCommandView> {
        self.background.commands(size, self.hovering) + match self.attributes.text {
            Some(text) => seq![
                DrawCommandView::Text {
                    text: text@,
                    position: Point2 { x: 0, y: 0 },
                    size,
                    color: self.attributes.text_color,
                },
            ],
            None => Seq::empty(),
        }
    }
}

impl ComponentClassFactory for ButtonClass {
    fn new(attributes: &Attributes, runtime: &ScriptRuntime) -> (r: Result<Self, Error>)
        ensures
            r matches Ok(class) ==> !class.hovering,
            match (background_of(attributes@), button_attributes_of(attributes@)) {
                (Some(Ok(background)), Some(Ok(button))) => r matches Ok(class) && class.background
                    == background && class.attributes@ == button,
                (Some(Ok(_)), Some(Err(e))) => r matches Err(x) && x@ == e,
                (Some(Err(e)), _) => r matches Err(x) && x@ == e,
                _ => true,
            },
    {
        let background = match BackgroundAttributes::load(attributes, runtime) {
            Ok(background) => background,
            Err(e) => {
                return Err(e);
            },
        };
        let attributes = match ButtonAttributes::load(attributes, runtime) {
            Ok(attributes) => attributes,
            Err(e) => {
                return Err(e);
            },
        };
        Ok(ButtonClass { background, attributes, hovering: false })
    }
}

impl ComponentClass for ButtonClass {
    open spec fn capturing(&self) -> bool {
        true
    }

    fn update_attributes(&mut self, attributes: &Attributes, runtime: &ScriptRuntime) -> (r: Result<
        (),
        Error,
    >)
        ensures
            final(self).hovering == old(self).hovering,
            match (background_of(attributes@), button_attributes_of(attributes@)) {
                (Some(Ok(background)), Some(Ok(button))) => r is Ok && final(self).background
                    == background && final(self).attributes@ == button,
                (Some(Ok(background)), Some(Err(e))) => r matches Err(x) && x@ == e && final(self).background == background && final(self).attributes == old(self).attributes,
                (Some(Err(e)), _) => r matches Err(x) && x@ == e && *final(self) == *old(self),
                _ => true,
            },
    {
        let background = match BackgroundAttributes::load(attributes, runtime) {
            Ok(background) => background,
            Err(e) => {
                return Err(e);
            },
        };
        self.background = background;
        let attributes = match ButtonAttributes::load(attributes, runtime) {
            Ok(attributes) => attributes,
            Err(e) => {
                return Err(e);
            },
        };
        self.attributes = attributes;
        Ok(())
    }

    fn render(&self, id: ComponentId, attributes: &ComponentAttributes, computed_size: Vector2)
        -> (r: Result<Vec<DrawCommand>, Error>)
        ensures
            r matches Ok(commands) && command_views(commands@) == self.commands(computed_size),
    {
        let mut commands = match self.background.render(
            id,
            attributes,
            computed_size,
            self.hovering,
        ) {
            Ok(commands) => commands,
            Err(e) => {
                return Err(e);
            },
        };
        let ghost background = command_views(commands@);
        if let Some(text) = &self.attributes.text {
            commands.push(
                DrawCommand::Text {
                    text: text.clone(),
                    position: Point2::new(0, 0),
                    size: computed_size,
                    color: self.attributes.text_color,
                },
            );
        }
        assert(command_views(commands@) =~= self.commands(computed_size));
        Ok(commands)
    }

    fn is_capturing_cursor(&self) -> (captures: bool) {
        true
    }

    fn hover_start_event(&mut self, _event_sink: &mut EventSink) -> (redraw: bool)
        ensures
            redraw,
            final(self).hovering,
            final(self).background == old(self).background,
            final(self).attributes == old(self).attributes,
            final(_event_sink)@ == old(_event_sink)@,
    {
        self.hovering = true;
        true
    }

    fn hover_end_event(&mut self, _event_sink: &mut EventSink) -> (redraw: bool)
        ensures
            redraw,
            !final(self).hovering,
            final(self).background == old(self).background,
            final(self).attributes == old(self).attributes,
            final(_event_sink)@ == old(_event_sink)@,
    {
        self.hovering = false;
        true
    }

    fn pressed_event(&mut self, event_sink: &mut EventSink)
        ensures
            *final(self) == *old(self),
            final(event_sink)@ == match old(self).attributes.on_pressed {
                Some(EventHook::Direct(name)) => old(event_sink)@.push(name@),
                _ => old(event_sink)@,
            },
    {
        if let Some(event) = &self.attributes.on_pressed {
            event_sink.raise(event);
        }
    }
}

} // verus!
