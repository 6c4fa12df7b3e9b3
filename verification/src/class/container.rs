//! The container class.
use vstd::prelude::*;
use crate::class::background::{background_of, BackgroundAttributes};
use crate::class::classes::{ComponentClass, ComponentClassFactory};
use crate::component::ComponentAttributes;
use crate::error::Error;
use crate::geometry::Vector2;
use crate::render::{command_views, DrawCommand};
use crate::scripting::ScriptRuntime;
use crate::template::attributes::Attributes;
use crate::ui::ComponentId;

verus! {

/// A container component class, functions as a generic container for other components.
pub struct ContainerClass {
    pub background: BackgroundAttributes,
}

impl ComponentClassFactory for ContainerClass {
    fn new(attributes: &Attributes, runtime: &ScriptRuntime) -> (r: Result<Self, Error>)
        ensures
            match background_of(attributes@) {
                Some(Ok(background)) => r matches Ok(class) && class.background == background,
                Some(Err(e)) => r matches Err(x) && x@ == e,
                None => true,
            },
    {
        match BackgroundAttributes::load(attributes, runtime) {
            Ok(background) => Ok(ContainerClass { background }),
            Err(e) => Err(e),
        }
    }
}

impl ComponentClass for ContainerClass {
    open spec fn capturing(&self) -> bool {
        self.background.color is Some
    }

    fn update_attributes(&mut self, attributes: &Attributes, runtime: &ScriptRuntime) -> (r: Result<
        (),
        Error,
    >)
        ensures
            match background_of(attributes@) {
                Some(Ok(background)) => r is Ok && final(self).background == background,
                Some(Err(e)) => r matches Err(x) && x@ == e && *final(self) == *old(self),
                None => r is Err ==> *final(self) == *old(self),
            },
    {
        match BackgroundAttributes::load(attributes, runtime) {
            Ok(background) => {
                self.background = background;
                Ok(())
            },
            Err(e) => Err(e),
        }
    }

    fn render(&self, id: ComponentId, attributes: &ComponentAttributes, computed_size: Vector2)
        -> (r: Result<Vec<DrawCommand>, Error>)
        ensures
            r matches Ok(commands) && command_views(commands@) == self.background.commands(
                computed_size,
                false,
            ),
    {
        self.background.render(id, attributes, computed_size, false)
    }

    fn is_capturing_cursor(&self) -> (captures: bool) {
        self.background.is_capturing_cursor()
    }
}

} // verus!
