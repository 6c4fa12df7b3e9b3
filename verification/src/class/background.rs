//! The background that the reference classes share.
use vstd::prelude::*;
use crate::component::{optional, or_default, ComponentAttributes};
use crate::error::Error;
use crate::geometry::{Point2, Scalar, Vector2};
use crate::render::{command_views, DrawCommand, DrawCommandView};
use crate::scripting::ScriptRuntime;
use crate::template::attributes::{Attributes, AttributesView};
use crate::template::value::{color_of, float_of, Color, Reading, TemplateValue};
use crate::ui::ComponentId;

verus! {

/// How the background of a component is filled.
#[derive(Debug, Clone, Copy, PartialEq, Eq)]
pub struct BackgroundAttributes {
    pub color: Option<Color>,
    pub color_hovering: Option<Color>,
    pub border_radius: Scalar,
}

/// What the background of a component is, read from its resolved attributes: `color` and
/// `color-hovering` are optional colors, and `border-radius` is a length that defaults to
/// zero. The first of them, in this order, that cannot be read gives the error.
pub open spec fn background_of(attributes: AttributesView) -> Reading<BackgroundAttributes> {
    let values = attributes.values;
    match optional(attributes, "color"@, color_of(values["color"@])) {
        None => None,
        Some(Err(e)) => Some(Err(e)),
        Some(Ok(color)) => match optional(
            attributes,
            "color-hovering"@,
            color_of(values["color-hovering"@]),
        ) {
            None => None,
            Some(Err(e)) => Some(Err(e)),
            Some(Ok(color_hovering)) => match or_default(
                attributes,
                "border-radius"@,
                float_of(values["border-radius"@]),
                0int,
            ) {
                None => None,
                Some(Err(e)) => Some(Err(e)),
                Some(Ok(radius)) => Some(
                    Ok(
                        BackgroundAttributes {
                            color,
                            color_hovering,
                            border_radius: radius as i64,
                        },
                    ),
                ),
            },
        },
    }
}

impl BackgroundAttributes {
    /// Reads the background from the resolved attributes of a component.
    ///
    /// Where a script value has to be evaluated first, the scripting engine decides the
    /// outcome.
    pub fn load(attributes: &Attributes, runtime: &ScriptRuntime) -> (r: Result<Self, Error>)
        ensures
            match background_of(attributes@) {
                Some(Ok(background)) => r == Ok::<Self, Error>(background),
                Some(Err(e)) => r matches Err(x) && x@ == e,
                None => true,
            },
    {
        let ghost values = attributes@.values;
        proof {
            if values.contains_key("color"@) {
                attributes.lemma_stored("color"@);
            }
            if values.contains_key("color-hovering"@) {
                attributes.lemma_stored("color-hovering"@);
            }
            if values.contains_key("border-radius"@) {
                attributes.lemma_stored("border-radius"@);
            }
        }
        let read_color = |v: &TemplateValue| -> (out: Result<Color, Error>)
            ensures
                match color_of(v@) {
                    Some(Ok(value)) => out == Ok::<Color, Error>(value),
                    Some(Err(e)) => out matches Err(x) && x@ == e,
                    None => true,
                },
            { v.as_color(runtime) };
        let color = match attributes.attribute_optional("color", read_color) {
            Ok(color) => color,
            Err(e) => {
                return Err(e);
            },
        };
        let read_hovering = |v: &TemplateValue| -> (out: Result<Color, Error>)
            ensures
                match color_of(v@) {
                    Some(Ok(value)) => out == Ok::<Color, Error>(value),
                    Some(Err(e)) => out matches Err(x) && x@ == e,
                    None => true,
                },
            { v.as_color(runtime) };
        let color_hovering = match attributes.attribute_optional("color-hovering", read_hovering) {
            Ok(color) => color,
            Err(e) => {
                return Err(e);
            },
        };
        let read_radius = |v: &TemplateValue| -> (out: Result<Scalar, Error>)
            ensures
                match float_of(v@) {
                    Some(Ok(value)) => out matches Ok(got) && got == value,
                    Some(Err(e)) => out matches Err(x) && x@ == e,
                    None => true,
                },
            { v.as_float(runtime) };
        let border_radius = match attributes.attribute("border-radius", read_radius, 0) {
            Ok(radius) => radius,
            Err(e) => {
                return Err(e);
            },
        };
        Ok(BackgroundAttributes { color, color_hovering, border_radius })
    }

    /// The color that fills the background: the color for hovering where the cursor hovers
    /// over the component and there is one, else the color.
    pub open spec fn current_color(&self, hovering: bool) -> Option<Color> {
        if hovering && self.color_hovering is Some {
            self.color_hovering
        } else {
            self.color
        }
    }

    /// What has to be drawn for the background of a component of the given size: nothing
    /// without a color, else a rectangle of the size of the component, with rounded corners
    /// where the radius is not zero.
    pub open spec fn commands(&self, size: Vector2, hovering: bool) -> Seq<DrawCommandView> {
        match self.current_color(hovering) {
            None => Seq::empty(),
            Some(color) => if self.border_radius == 0 {
                seq![
                    DrawCommandView::Rectangle { position: Point2 { x: 0, y: 0 }, size, color },
                ]
            } else {
                seq![
                    DrawCommandView::RoundedRectangle {
                        position: Point2 { x: 0, y: 0 },
                        size,
                        radius: self.border_radius,
                        color,
                    },
                ]
            },
        }
    }

    /// What has to be drawn for the background of a component.
    pub fn render(
        &self,
        _id: ComponentId,
        _attributes: &ComponentAttributes,
        computed_size: Vector2,
        hovering: bool,
    ) -> (r: Result<Vec<DrawCommand>, Error>)
        ensures
            r matches Ok(commands) && command_views(commands@) == self.commands(
                computed_size,
                hovering,
            ),
    {
        let current_color = if hovering && self.color_hovering.is_some() {
            self.color_hovering
        } else {
            self.color
        };
        let mut commands: Vec<DrawCommand> = Vec::new();
        if let Some(color) = current_color {
            if self.border_radius == 0 {
                commands.push(
                    DrawCommand::Rectangle {
                        position: Point2::new(0, 0),
                        size: computed_size,
                        color,
                    },
                );
            } else {
                commands.push(
                    DrawCommand::RoundedRectangle {
                        position: Point2::new(0, 0),
                        size: computed_size,
                        radius: self.border_radius,
                        color,
                    },
                );
            }
        }
        assert(command_views(commands@) =~= self.commands(computed_size, hovering));
        Ok(commands)
    }

    /// Whether a component with this background captures the cursor: it does where it has a
    /// color.
    pub fn is_capturing_cursor(&self) -> (captures: bool)
        ensures
            captures == (self.color is Some),
    {
        self.color.is_some()
    }
}

} // verus!
