//! The components of a parsed template.
use vstd::prelude::*;
use crate::error::Error;
use crate::scripting::ScriptRuntime;
use crate::template::value::{TemplateValue, ValueView};

verus! {

/// A template for a component.
#[derive(Debug)]
pub struct ComponentTemplate {
    /// The component class this component has.
    pub class: String,
    /// The style class this component has.
    pub style_class: Option<String>,
    /// The attributes given to this component.
    pub attributes: Vec<TemplateAttribute>,
    /// The children of this component.
    pub children: Vec<ComponentTemplate>,
    /// The line this component is at in the source markup.
    pub line: usize,
}

/// An attribute-value-conditional combination in a component template.
#[derive(Debug)]
pub struct TemplateAttribute {
    pub key: String,
    pub value: TemplateValue,
    pub script_conditional: Option<String>,
}

/// The mathematical content of a [`TemplateAttribute`].
pub struct AttributeView {
    pub key: Seq<char>,
    pub value: ValueView,
    pub script_conditional: Option<Seq<char>>,
}

/// The mathematical content of a [`ComponentTemplate`].
pub struct TemplateView {
    pub class: Seq<char>,
    pub style_class: Option<Seq<char>>,
    pub attributes: Seq<AttributeView>,
    pub children: Seq<TemplateView>,
    pub line: nat,
}

/// The content of an optional string.
pub open spec fn optional_text(text: Option<String>) -> Option<Seq<char>> {
    match text {
        Some(text) => Some(text@),
        None => None,
    }
}

impl View for TemplateAttribute {
    type V = AttributeView;

    open spec fn view(&self) -> AttributeView {
        AttributeView {
            key: self.key@,
            value: self.value@,
            script_conditional: optional_text(self.script_conditional),
        }
    }
}

/// The contents of the attributes of a sequence.
pub open spec fn attribute_views(attributes: Seq<TemplateAttribute>) -> Seq<AttributeView> {
    Seq::new(attributes.len(), |i: int| attributes[i]@)
}

/// The contents of the templates of a sequence.
pub open spec fn template_views(templates: Seq<ComponentTemplate>) -> Seq<TemplateView> {
    Seq::new(templates.len(), |i: int| templates[i].model())
}

impl View for ComponentTemplate {
    type V = TemplateView;

    open spec fn view(&self) -> TemplateView {
        self.model()
    }
}

fn clone_text(text: &Option<String>) -> (copy: Option<String>)
    ensures
        optional_text(copy) == optional_text(*text),
{
    match text {
        Some(text) => Some(text.clone()),
        None => None,
    }
}

impl Clone for TemplateAttribute {
    fn clone(&self) -> (copy: Self)
        ensures
            copy@ == self@,
    {
        TemplateAttribute {
            key: self.key.clone(),
            value: self.value.clone(),
            script_conditional: clone_text(&self.script_conditional),
        }
    }
}

impl TemplateAttribute {
    /// Whether the attribute applies: an attribute without a conditional always does, for
    /// one with a conditional the scripting engine decides.
    pub fn check_conditional(&self, runtime: &ScriptRuntime) -> (r: Result<bool, Error>)
        ensures
            self.script_conditional is None ==> r == Ok::<bool, Error>(true),
            r matches Err(e) ==> e@ is Script,
    {
        match &self.script_conditional {
            Some(script) => runtime.eval_bool(script.as_str()),
            None => Ok(true),
        }
    }
}

impl Clone for ComponentTemplate {
    fn clone(&self) -> (copy: Self)
        ensures
            copy@ == self@,
    {
        self.duplicate()
    }
}

impl ComponentTemplate {
    /// The content of the template, children included.
    pub open spec fn model(&self) -> TemplateView
        decreases self,
    {
        TemplateView {
            class: self.class@,
            style_class: optional_text(self.style_class),
            attributes: attribute_views(self.attributes@),
            children: Seq::new(
                self.children@.len(),
                |i: int|
                    if 0 <= i < self.children@.len() {
                        self.children@[i].model()
                    } else {
                        arbitrary()
                    },
            ),
            line: self.line as nat,
        }
    }

    /// The children's contents are the contents of the children.
    pub proof fn lemma_children(&self)
        ensures
            self@.children == template_views(self.children@),
    {
        assert(self@.children =~= template_views(self.children@));
    }

    /// A copy of the template.
    pub fn duplicate(&self) -> (copy: Self)
        ensures
            copy@ == self@,
        decreases self,
    {
        let mut attributes: Vec<TemplateAttribute> = Vec::new();
        let mut i: usize = 0;
        while i < self.attributes.len()
            invariant
                i <= self.attributes@.len(),
                attributes@.len() == i,
                forall|j: int| 0 <= j < i ==> attributes@[j]@ == self.attributes@[j]@,
            decreases self.attributes@.len() - i,
        {
            attributes.push(self.attributes[i].clone());
            i += 1;
        }
        let mut children: Vec<ComponentTemplate> = Vec::new();
        let mut k: usize = 0;
        while k < self.children.len()
            invariant
                k <= self.children@.len(),
                children@.len() == k,
                decreases_to!(*self => self.children),
                forall|j: int| 0 <= j < k ==> children@[j].model() == self.children@[j].model(),
            decreases self.children@.len() - k,
        {
            assert(decreases_to!(self.children => self.children[k as int]));
            children.push(self.children[k].duplicate());
            k += 1;
        }
        let copy = ComponentTemplate {
            class: self.class.clone(),
            style_class: clone_text(&self.style_class),
            attributes,
            children,
            line: self.line,
        };
        assert(copy.model().children =~= self.model().children);
        assert(copy.model().attributes =~= self.model().attributes);
        copy
    }
}

} // verus!
