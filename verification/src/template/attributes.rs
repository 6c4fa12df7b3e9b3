//! The attributes of a component, resolved from its template and the style.
use vstd::prelude::*;
use crate::error::{Error, ErrorView};
use crate::string_map::StringMap;
use crate::template::component::{
    attribute_views, template_views, AttributeView, ComponentTemplate, TemplateAttribute,
    TemplateView,
};
use crate::template::style::Style;
use crate::template::value::{TemplateValue, ValueView};
use crate::ui::Context;

verus! {

/// A generated attribute bundle for a component, used by the component and its class to
/// receive data from templates and styles.
pub struct Attributes {
    attributes: StringMap<TemplateValue>,
    component_class: String,
    component_line: usize,
}

/// The mathematical content of [`Attributes`]: the value of each attribute that is set, and
/// the class and the line of the component that they belong to.
pub struct AttributesView {
    pub values: Map<Seq<char>, ValueView>,
    pub component_class: Seq<char>,
    pub component_line: nat,
}

/// The attributes of the first `n` rules of a style that are for the given class, in their
/// order.
pub open spec fn style_attributes(rules: Seq<TemplateView>, n: nat, class: Seq<char>) -> Seq<
    AttributeView,
>
    decreases n,
{
    if n == 0 || n > rules.len() {
        Seq::empty()
    } else if rules[n - 1].class == class {
        style_attributes(rules, (n - 1) as nat, class) + rules[n - 1].attributes
    } else {
        style_attributes(rules, (n - 1) as nat, class)
    }
}

/// The attributes that can apply to a component, in the order in which they apply: those of
/// the style's rules for its class, then its own.
pub open spec fn cascade(template: TemplateView, style: Seq<TemplateView>) -> Seq<AttributeView> {
    style_attributes(style, style.len(), template.class) + template.attributes
}

/// Whether the attribute at position `i` applies according to `enabled`. One that `enabled`
/// does not reach applies.
pub open spec fn holds(enabled: Seq<bool>, i: int) -> bool {
    i >= enabled.len() || enabled[i]
}

/// The values that the first `n` of the given attributes set, of which those apply that
/// `enabled` marks: each that applies replaces what was set for its key before.
pub open spec fn applied(attributes: Seq<AttributeView>, enabled: Seq<bool>, n: nat) -> Map<
    Seq<char>,
    ValueView,
>
    decreases n,
{
    if n == 0 || n > attributes.len() {
        Map::empty()
    } else {
        let before = applied(attributes, enabled, (n - 1) as nat);
        if holds(enabled, n - 1) {
            before.insert(attributes[n - 1].key, attributes[n - 1].value)
        } else {
            before
        }
    }
}

/// Whether `enabled` can be the outcome of the conditionals of the given attributes: it has
/// an entry for each, and each without a conditional applies.
pub open spec fn permitted(attributes: Seq<AttributeView>, enabled: Seq<bool>) -> bool {
    &&& enabled.len() == attributes.len()
    &&& forall|i: int|
        0 <= i < attributes.len() && attributes[i].script_conditional is None ==> enabled[i]
}

/// Whether none of the given attributes has a conditional, so that all of them apply
/// whatever the scripting engine says.
pub open spec fn unconditional(attributes: Seq<AttributeView>) -> bool {
    forall|i: int| 0 <= i < attributes.len() ==> (#[trigger] attributes[i]).script_conditional is None
}

/// The attributes of a component for the given outcome of the conditionals.
pub open spec fn resolved(template: TemplateView, style: Seq<TemplateView>, enabled: Seq<bool>)
    -> AttributesView {
    AttributesView {
        values: applied(cascade(template, style), enabled, cascade(template, style).len()),
        component_class: template.class,
        component_line: template.line,
    }
}

/// The error that reports that the attribute `field` of a component could not be read.
pub open spec fn attribute_error(attributes: AttributesView, field: Seq<char>, inner: ErrorView)
    -> ErrorView {
    ErrorView::Attribute {
        component: attributes.component_class,
        line: attributes.component_line,
        field,
        inner: Box::new(inner),
    }
}

/// The contents of the attributes that the references of a sequence point to.
pub open spec fn referred(attributes: Seq<&TemplateAttribute>) -> Seq<AttributeView> {
    Seq::new(attributes.len(), |i: int| attributes[i]@)
}

impl View for Attributes {
    type V = AttributesView;

    closed spec fn view(&self) -> AttributesView {
        AttributesView {
            values: self.attributes@.map_values(|value: TemplateValue| value@),
            component_class: self.component_class@,
            component_line: self.component_line as nat,
        }
    }
}

impl Attributes {
    #[verifier::type_invariant]
    spec fn inv(&self) -> bool {
        self.attributes.wf()
    }

    /// The value that is stored for `key`.
    pub closed spec fn stored(&self, key: Seq<char>) -> TemplateValue {
        self.attributes@[key]
    }

    /// The attributes that can apply to the component of `template`, in the order in which
    /// they apply.
    pub fn candidates<'a>(template: &'a ComponentTemplate, style: &'a Style) -> (list: Vec<
        &'a TemplateAttribute,
    >)
        ensures
            referred(list@) == cascade(template@, template_views(style.components@)),
    {
        let ghost rules = template_views(style.components@);
        let mut list: Vec<&'a TemplateAttribute> = Vec::new();
        let mut r: usize = 0;
        assert(referred(list@) =~= style_attributes(rules, 0, template@.class));
        // Add any styles from the stylesheet
        while r < style.components.len()
            invariant
                r <= style.components@.len(),
                rules == template_views(style.components@),
                referred(list@) == style_attributes(rules, r as nat, template@.class),
            decreases style.components@.len() - r,
        {
            let component = &style.components[r];
            if component.class == template.class {
                let ghost before = referred(list@);
                let mut i: usize = 0;
                assert(component@.attributes == attribute_views(component.attributes@));
                assert(referred(list@) =~= before + component@.attributes.subrange(0, 0));
                while i < component.attributes.len()
                    invariant
                        i <= component.attributes@.len(),
                        component@.attributes == attribute_views(component.attributes@),
                        referred(list@) == before + component@.attributes.subrange(0, i as int),
                    decreases component.attributes@.len() - i,
                {
                    let ghost shorter = list@;
                    list.push(&component.attributes[i]);
                    proof {
                        let longer = before + component@.attributes.subrange(0, i + 1);
                        assert(referred(shorter).len() == before.len() + i);
                        assert forall|j: int| 0 <= j < longer.len() implies referred(list@)[j]
                            == longer[j] by {
                            if j < shorter.len() {
                                assert(referred(list@)[j] == referred(shorter)[j]);
                            }
                        }
                        assert(referred(list@) =~= longer);
                    }
                    i += 1;
                }
                assert(component@.attributes.subrange(0, i as int) =~= component@.attributes);
            }
            r += 1;
        }
        // Then this component's set attributes, which overwrite what the style resolved
        let ghost before = referred(list@);
        let mut i: usize = 0;
        assert(template@.attributes == attribute_views(template.attributes@));
        assert(referred(list@) =~= before + template@.attributes.subrange(0, 0));
        while i < template.attributes.len()
            invariant
                i <= template.attributes@.len(),
                template@.attributes == attribute_views(template.attributes@),
                referred(list@) == before + template@.attributes.subrange(0, i as int),
            decreases template.attributes@.len() - i,
        {
            let ghost shorter = list@;
            list.push(&template.attributes[i]);
            proof {
                let longer = before + template@.attributes.subrange(0, i + 1);
                assert(referred(shorter).len() == before.len() + i);
                assert forall|j: int| 0 <= j < longer.len() implies referred(list@)[j]
                    == longer[j] by {
                    if j < shorter.len() {
                        assert(referred(list@)[j] == referred(shorter)[j]);
                    }
                }
                assert(referred(list@) =~= longer);
            }
            i += 1;
        }
        assert(template@.attributes.subrange(0, i as int) =~= template@.attributes);
        list
    }

    /// The attributes of the component of `template` where `enabled` is the outcome of the
    /// conditionals of the attributes that can apply, in their order.
    pub fn from_cascade(template: &ComponentTemplate, style: &Style, enabled: &Vec<bool>) -> (r:
        Self)
        ensures
            r@ == resolved(template@, template_views(style.components@), enabled@),
    {
        let list = Self::candidates(template, style);
        let ghost all = referred(list@);
        let mut attributes: StringMap<TemplateValue> = StringMap::new();
        let mut i: usize = 0;
        assert(attributes@.map_values(|value: TemplateValue| value@) =~= applied(
            all,
            enabled@,
            0,
        ));
        while i < list.len()
            invariant
                i <= list@.len(),
                all == referred(list@),
                attributes.wf(),
                attributes@.map_values(|value: TemplateValue| value@) == applied(
                    all,
                    enabled@,
                    i as nat,
                ),
            decreases list@.len() - i,
        {
            // Attributes are always added, and thus overwritten, in the sequence they are in
            if i >= enabled.len() || enabled[i] {
                let attribute = list[i];
                let ghost before = attributes@;
                let value = attribute.value.clone();
                attributes.insert(attribute.key.clone(), value);
                assert(attributes@.map_values(|value: TemplateValue| value@) =~= before.map_values(
                    |value: TemplateValue| value@,
                ).insert(attribute.key@, value@));
            }
            i += 1;
        }
        Attributes {
            attributes,
            component_class: template.class.clone(),
            component_line: template.line,
        }
    }

    /// Resolves the final attributes of the current component from its template and the
    /// style.
    ///
    /// The scripting engine decides which of the attributes with a conditional apply, and
    /// the attributes are those for that outcome. Only the evaluation of a conditional can
    /// fail.
    pub fn resolve(template: &ComponentTemplate, style: &Style, context: &Context) -> (r: Result<
        Self,
        Error,
    >)
        ensures
            match r {
                Ok(attributes) => exists|enabled: Seq<bool>|
                    permitted(cascade(template@, template_views(style.components@)), enabled)
                        && attributes@ == #[trigger] resolved(
                        template@,
                        template_views(style.components@),
                        enabled,
                    ),
                Err(e) => e@ is Script && exists|i: int|
                    0 <= i < cascade(template@, template_views(style.components@)).len()
                        && (#[trigger] cascade(
                        template@,
                        template_views(style.components@),
                    )[i]).script_conditional is Some,
            },
    {
        let list = Self::candidates(template, style);
        let ghost all = referred(list@);
        let mut enabled: Vec<bool> = Vec::new();
        let mut i: usize = 0;
        while i < list.len()
            invariant
                i <= list@.len(),
                all == referred(list@),
                all == cascade(template@, template_views(style.components@)),
                enabled@.len() == i,
                forall|j: int| 0 <= j < i && all[j].script_conditional is None ==> enabled@[j],
            decreases list@.len() - i,
        {
            match list[i].check_conditional(&context.runtime) {
                Ok(applies) => {
                    enabled.push(applies);
                },
                Err(e) => {
                    assert(all[i as int].script_conditional is Some);
                    return Err(e);
                },
            }
            i += 1;
        }
        let attributes = Self::from_cascade(template, style, &enabled);
        assert(permitted(all, enabled@));
        Ok(attributes)
    }

    /// The value of the attribute `key`, if it is set.
    pub fn get(&self, key: &str) -> (found: Option<&TemplateValue>)
        ensures
            match found {
                Some(value) => self@.values.contains_key(key@) && value@ == self@.values[key@]
                    && *value == self.stored(key@),
                None => !self@.values.contains_key(key@),
            },
    {
        proof {
            use_type_invariant(self);
        }
        self.attributes.get(key)
    }

    /// The stored value of an attribute that is set has the content that the view shows.
    pub proof fn lemma_stored(&self, key: Seq<char>)
        requires
            self@.values.contains_key(key),
        ensures
            self.stored(key)@ == self@.values[key],
    {
    }

    /// Reads the attribute `key` with `map`, or gives `default` where it is not set or set
    /// to the null value. An error of `map` is reported for the component and the attribute.
    pub fn attribute<O, F: FnOnce(&TemplateValue) -> Result<O, Error>>(
        &self,
        key: &str,
        map: F,
        default: O,
    ) -> (r: Result<O, Error>)
        requires
            self@.values.contains_key(key@) && !(self@.values[key@] is Default) ==> call_requires(
                map,
                (&self.stored(key@),),
            ),
        ensures
            !self@.values.contains_key(key@) || self@.values[key@] is Default ==> r == Ok::<
                O,
                Error,
            >(default),
            self@.values.contains_key(key@) && !(self@.values[key@] is Default) ==> exists|
                inner: Result<O, Error>,
            |
                #[trigger] call_ensures(map, (&self.stored(key@),), inner) && match inner {
                    Ok(value) => r == Ok::<O, Error>(value),
                    Err(e) => r matches Err(x) && x@ == attribute_error(self@, key@, e@),
                },
    {
        match self.get(key) {
            Some(value) => {
                if let TemplateValue::Default = value {
                    Ok(default)
                } else {
                    match map(value) {
                        Ok(value) => Ok(value),
                        // Errors are reported by what component is being resolved, rather
                        // than where the attribute came from, for example a style
                        Err(error) => Err(
                            Error::attribute(
                                &self.component_class,
                                self.component_line,
                                key,
                                error,
                            ),
                        ),
                    }
                }
            },
            None => Ok(default),
        }
    }

    /// Reads the attribute `key` with `map`, or gives `None` where it is not set or set to
    /// the null value. An error of `map` is reported for the component and the attribute.
    pub fn attribute_optional<O, F: FnOnce(&TemplateValue) -> Result<O, Error>>(
        &self,
        key: &str,
        map: F,
    ) -> (r: Result<Option<O>, Error>)
        requires
            self@.values.contains_key(key@) && !(self@.values[key@] is Default) ==> call_requires(
                map,
                (&self.stored(key@),),
            ),
        ensures
            !self@.values.contains_key(key@) || self@.values[key@] is Default ==> r == Ok::<
                Option<O>,
                Error,
            >(None),
            self@.values.contains_key(key@) && !(self@.values[key@] is Default) ==> exists|
                inner: Result<O, Error>,
            |
                #[trigger] call_ensures(map, (&self.stored(key@),), inner) && match inner {
                    Ok(value) => r == Ok::<Option<O>, Error>(Some(value)),
                    Err(e) => r matches Err(x) && x@ == attribute_error(self@, key@, e@),
                },
    {
        match self.get(key) {
            Some(value) => {
                if let TemplateValue::Default = value {
                    Ok(None)
                } else {
                    match map(value) {
                        Ok(value) => Ok(Some(value)),
                        Err(error) => Err(
                            Error::attribute(
                                &self.component_class,
                                self.component_line,
                                key,
                                error,
                            ),
                        ),
                    }
                }
            },
            None => Ok(None),
        }
    }
}

/// The last of the attributes with a key that apply decides the value of the key: where the
/// attribute at position `i` applies and none behind it with the same key does, the resolved
/// value for the key is its value.
pub proof fn lemma_last_wins(attributes: Seq<AttributeView>, enabled: Seq<bool>, i: int, n: nat)
    requires
        0 <= i < n <= attributes.len(),
        holds(enabled, i),
        forall|j: int| i < j < n && holds(enabled, j) ==> attributes[j].key != attributes[i].key,
    ensures
        applied(attributes, enabled, n).contains_key(attributes[i].key),
        applied(attributes, enabled, n)[attributes[i].key] == attributes[i].value,
    decreases n,
{
    if n > i + 1 {
        lemma_last_wins(attributes, enabled, i, (n - 1) as nat);
    }
}

/// A key is only set by an attribute that applies.
pub proof fn lemma_applied_source(attributes: Seq<AttributeView>, enabled: Seq<bool>, n: nat, key:
    Seq<char>)
    requires
        n <= attributes.len(),
        applied(attributes, enabled, n).contains_key(key),
    ensures
        exists|i: int|
            0 <= i < n && holds(enabled, i) && (#[trigger] attributes[i]).key == key && applied(
                attributes,
                enabled,
                n,
            )[key] == attributes[i].value && forall|j: int|
                i < j < n && holds(enabled, j) ==> (#[trigger] attributes[j]).key != key,
    decreases n,
{
    if n > 0 {
        if holds(enabled, n - 1) && attributes[n - 1].key == key {
            assert(attributes[n - 1].key == key);
        } else {
            lemma_applied_source(attributes, enabled, (n - 1) as nat, key);
            let i = choose|i: int|
                0 <= i < n - 1 && holds(enabled, i) && (#[trigger] attributes[i]).key == key
                    && applied(attributes, enabled, (n - 1) as nat)[key] == attributes[i].value
                    && forall|j: int|
                    i < j < n - 1 && holds(enabled, j) ==> (#[trigger] attributes[j]).key != key;
            assert(attributes[i].key == key);
        }
    }
}

/// Where a template sets a key more than once, the last of these attributes that applies
/// decides: the resolved value is the value of the attribute at position `i` of the template
/// where that applies and no later attribute of the template with the same key does.
pub proof fn lemma_duplicate_keys(
    template: TemplateView,
    style: Seq<TemplateView>,
    enabled: Seq<bool>,
    i: int,
)
    requires
        0 <= i < template.attributes.len(),
        holds(enabled, cascade(template, style).len() - template.attributes.len() + i),
        forall|j: int|
            i < j < template.attributes.len() && holds(
                enabled,
                cascade(template, style).len() - template.attributes.len() + j,
            ) ==> template.attributes[j].key != template.attributes[i].key,
    ensures
        resolved(template, style, enabled).values.contains_key(template.attributes[i].key),
        resolved(template, style, enabled).values[template.attributes[i].key]
            == template.attributes[i].value,
{
    let all = cascade(template, style);
    let offset = all.len() - template.attributes.len();
    assert forall|j: int| offset + i < j < all.len() && holds(enabled, j) implies all[j].key
        != all[offset + i].key by {
        assert(all[j] == template.attributes[j - offset]);
    }
    lemma_last_wins(all, enabled, offset + i, all.len());
}

/// The template's own attributes take precedence over the style: where an attribute of the
/// template applies, the resolved value for its key is the value of an attribute of the
/// template, whatever the style sets for the key.
pub proof fn lemma_template_over_style(
    template: TemplateView,
    style: Seq<TemplateView>,
    enabled: Seq<bool>,
    i: int,
)
    requires
        0 <= i < template.attributes.len(),
        holds(enabled, cascade(template, style).len() - template.attributes.len() + i),
    ensures
        resolved(template, style, enabled).values.contains_key(template.attributes[i].key),
        exists|j: int|
            i <= j < template.attributes.len() && (#[trigger] template.attributes[j]).key
                == template.attributes[i].key && resolved(template, style, enabled).values[
                template.attributes[i].key
            ] == template.attributes[j].value,
{
    let all = cascade(template, style);
    let offset = all.len() - template.attributes.len();
    let key = template.attributes[i].key;
    assert(all[offset + i] == template.attributes[i]);
    lemma_key_is_set(all, enabled, offset + i, all.len());
    lemma_applied_source(all, enabled, all.len(), key);
    let k = choose|k: int|
        0 <= k < all.len() && holds(enabled, k) && (#[trigger] all[k]).key == key && applied(
            all,
            enabled,
            all.len(),
        )[key] == all[k].value && forall|j: int|
            k < j < all.len() && holds(enabled, j) ==> (#[trigger] all[j]).key != key;
    assert(k >= offset + i) by {
        if k < offset + i {
            assert(all[offset + i].key != key);
        }
    }
    assert(all[k] == template.attributes[k - offset]);
    assert(template.attributes[k - offset].key == key);
}

/// An attribute that applies sets its key.
pub proof fn lemma_key_is_set(attributes: Seq<AttributeView>, enabled: Seq<bool>, i: int, n: nat)
    requires
        0 <= i < n <= attributes.len(),
        holds(enabled, i),
    ensures
        applied(attributes, enabled, n).contains_key(attributes[i].key),
    decreases n,
{
    if n > i + 1 {
        lemma_key_is_set(attributes, enabled, i, (n - 1) as nat);
    }
}

/// Resolving again changes nothing: the attributes that are resolved from the same
/// template and style with the same outcome of the conditionals have the same content.
pub proof fn lemma_resolution_repeats(
    template: TemplateView,
    style: Seq<TemplateView>,
    enabled: Seq<bool>,
    first: Attributes,
    second: Attributes,
)
    requires
        first@ == resolved(template, style, enabled),
        second@ == resolved(template, style, enabled),
    ensures
        first@ == second@,
        first@.values =~= second@.values,
{
}

} // verus!
