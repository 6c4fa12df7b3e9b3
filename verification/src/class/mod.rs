//! Component classes that define functionality and appearance.
pub mod background;
pub mod button;
pub mod classes;
pub mod container;

pub use self::background::BackgroundAttributes;
pub use self::button::ButtonClass;
pub use self::classes::{ComponentClass, ComponentClassFactory, ComponentClasses};
pub use self::container::ContainerClass;
