//! The capability that every component class has, and the registry of the classes.
use std::marker::PhantomData;
use vstd::prelude::*;
use vstd::string::StringExecFns;
use crate::component::ComponentAttributes;
use crate::error::{Error, ErrorView};
use crate::events::EventSink;
use crate::geometry::Vector2;
use crate::render::DrawCommand;
use crate::scripting::ScriptRuntime;
use crate::string_map::StringMap;
use crate::template::attributes::Attributes;
use crate::template::component::ComponentTemplate;
use crate::ui::ComponentId;

verus! {

/// The class of a component, defines specific appearance and functionality in response to
/// user input.
pub trait ComponentClass {
    /// Whether components of this class capture cursor events, as things stand.
    spec fn capturing(&self) -> bool;

    /// Takes over what the resolved attributes say.
    fn update_attributes(&mut self, attributes: &Attributes, runtime: &ScriptRuntime) -> Result<
        (),
        Error,
    >;

    /// What has to be drawn to the cache of the component with the given size, in order.
    fn render(&self, id: ComponentId, attributes: &ComponentAttributes, computed_size: Vector2)
        -> Result<Vec<DrawCommand>, Error>;

    /// Returns if this component class captures cursor events or not. Does not affect
    /// children.
    fn is_capturing_cursor(&self) -> (captures: bool)
        ensures
            captures == self.capturing(),
    ;

    /// Called when the cursor starts hovering over this component.
    /// Returns if the component should be marked for render update.
    fn hover_start_event(&mut self, _event_sink: &mut EventSink) -> bool {
        false
    }

    /// Called when the cursor stops hovering over this component.
    /// Returns if the component should be marked for render update.
    fn hover_end_event(&mut self, _event_sink: &mut EventSink) -> bool {
        false
    }

    /// Called when the component is clicked or tapped.
    fn pressed_event(&mut self, _event_sink: &mut EventSink) {
    }
}

/// A factory trait to allow component classes to define their factory function.
pub trait ComponentClassFactory: Sized + ComponentClass + 'static {
    /// Creates a new instance of the component class.
    fn new(attributes: &Attributes, runtime: &ScriptRuntime) -> Result<Self, Error>;
}

/// What the registry keeps for a class: a way to make an instance of it.
trait Factory {
    fn create(&self, attributes: &Attributes, runtime: &ScriptRuntime) -> Result<
        Box<dyn ComponentClass>,
        Error,
    >;
}

/// The way to make an instance of the class `F`: what `F::new` makes, boxed, or the error
/// with which it fails.
struct FactoryOf<F> {
    class: PhantomData<F>,
}

impl<F: ComponentClassFactory> Factory for FactoryOf<F> {
    fn create(&self, attributes: &Attributes, runtime: &ScriptRuntime) -> (r: Result<
        Box<dyn ComponentClass>,
        Error,
    >)
        ensures
            match r {
                Ok(_) => exists|made: F|
                    call_ensures(F::new, (attributes, runtime), Ok::<F, Error>(made)),
                Err(e) => call_ensures(F::new, (attributes, runtime), Err::<F, Error>(e)),
            },
    {
        match F::new(attributes, runtime) {
            Ok(class) => {
                assert(call_ensures(F::new, (attributes, runtime), Ok::<F, Error>(class)));
                let class: Box<dyn ComponentClass> = Box::new(class);
                Ok(class)
            },
            Err(e) => Err(e),
        }
    }
}

/// A registry of component class factories.
pub struct ComponentClasses {
    factories: StringMap<Box<dyn Factory>>,
}

/// The message that says that no class was registered under the name `class`.
pub open spec fn not_registered_text(class: Seq<char>) -> Seq<char> {
    "Component class \""@ + class + "\" was not registered"@
}

impl View for ComponentClasses {
    type V = Set<Seq<char>>;

    /// The names under which a class is registered.
    closed spec fn view(&self) -> Set<Seq<char>> {
        self.factories.domain()
    }
}

impl ComponentClasses {
    #[verifier::type_invariant]
    spec fn inv(&self) -> bool {
        self.factories.wf()
    }

    /// Creates a new registry.
    pub fn new() -> (classes: Self)
        ensures
            classes@ == Set::<Seq<char>>::empty(),
    {
        ComponentClasses { factories: StringMap::new() }
    }

    /// Registers a component class by name. It takes the place of a class that was
    /// registered under the name before.
    pub fn register<F: ComponentClassFactory>(&mut self, class: &str)
        ensures
            final(self)@ == old(self)@.insert(class@),
    {
        proof {
            use_type_invariant(&*self);
        }
        let factory: Box<dyn Factory> = Box::new(FactoryOf::<F> { class: PhantomData });
        let mut factories = StringMap::new();
        core::mem::swap(&mut factories, &mut self.factories);
        factories.insert(class.to_owned(), factory);
        core::mem::swap(&mut factories, &mut self.factories);

    }

    /// Whether a class is registered under the name `class`.
    pub fn is_registered(&self, class: &str) -> (registered: bool)
        ensures
            registered == self@.contains(class@),
    {
        proof {
            use_type_invariant(self);
        }
        self.factories.get(class).is_some()
    }

    /// Creates a new boxed instance of the component class requested in the template.
    ///
    /// Fails where no class is registered under the name. Else the class decides.
    pub fn create(&self, template: &ComponentTemplate, attributes: &Attributes, runtime:
        &ScriptRuntime) -> (r: Result<Box<dyn ComponentClass>, Error>)
        ensures
            !self@.contains(template@.class) ==> (r matches Err(e) && e@ == (ErrorView::Other {
                error: not_registered_text(template@.class),
            })),
    {
        proof {
            use_type_invariant(self);
        }
        match self.factories.get(template.class.as_str()) {
            Some(factory) => factory.create(attributes, runtime),
            None => {
                let mut text = "Component class \"".to_owned();
                text.append(template.class.as_str());
                text.append("\" was not registered");
                Err(Error::Other { error: text })
            },
        }
    }
}

} // verus!
