//! The model data handed to the scripting engine.
use vstd::prelude::*;
use crate::string_map::StringMap;

verus! {

/// A generic value stored in the model.
#[derive(Debug, PartialEq, Eq)]
pub enum ScriptValue {
    Bool(bool),
    String(String),
}

impl From<bool> for ScriptValue {
    fn from(value: bool) -> (r: Self) {
        ScriptValue::Bool(value)
    }
}

impl vstd::std_specs::convert::FromSpecImpl<bool> for ScriptValue {
    open spec fn obeys_from_spec() -> bool {
        true
    }

    open spec fn from_spec(value: bool) -> Self {
        ScriptValue::Bool(value)
    }
}

impl From<String> for ScriptValue {
    fn from(value: String) -> (r: Self) {
        ScriptValue::String(value)
    }
}

impl vstd::std_specs::convert::FromSpecImpl<String> for ScriptValue {
    open spec fn obeys_from_spec() -> bool {
        true
    }

    open spec fn from_spec(value: String) -> Self {
        ScriptValue::String(value)
    }
}

/// Tracks values to be converted to a model for use by the scripting language.
pub struct ScriptTable {
    values: StringMap<ScriptValue>,
}

impl View for ScriptTable {
    type V = Map<Seq<char>, ScriptValue>;

    closed spec fn view(&self) -> Map<Seq<char>, ScriptValue> {
        self.values@
    }
}

impl ScriptTable {
    #[verifier::type_invariant]
    spec fn inv(&self) -> bool {
        self.values.wf()
    }

    /// Creates a new empty model.
    pub fn new() -> (table: Self)
        ensures
            table@ == Map::<Seq<char>, ScriptValue>::empty(),
    {
        ScriptTable { values: StringMap::new() }
    }

    /// Sets the field with given key in the model to the given value.
    pub fn set(&mut self, key: &str, value: ScriptValue)
        ensures
            final(self)@ == old(self)@.insert(key@, value),
    {
        proof {
            use_type_invariant(&*self);
        }
        let mut values = StringMap::new();
        core::mem::swap(&mut values, &mut self.values);
        values.insert(key.to_owned(), value);
        core::mem::swap(&mut values, &mut self.values);
    }

    /// The value of the field with the given key, if it was set.
    pub fn get(&self, key: &str) -> (found: Option<&ScriptValue>)
        ensures
            match found {
                Some(value) => self@.contains_key(key@) && *value == self@[key@],
                None => !self@.contains_key(key@),
            },
    {
        proof {
            use_type_invariant(self);
        }
        self.values.get(key)
    }

    /// The number of fields that were set. Every key of the model is listed in `fields`,
    /// and only once.
    pub fn len(&self) -> (n: usize)
        ensures
            n == self.fields().len(),
            self.fields().no_duplicates(),
            forall|key: Seq<char>| self@.contains_key(key) <==> self.fields().contains(key),
    {
        proof {
            use_type_invariant(self);
            self.values.lemma_keys();
        }
        self.values.len()
    }

    /// The keys of the fields, each once, in the order in which they were first set.
    pub closed spec fn fields(&self) -> Seq<Seq<char>> {
        self.values.keys()
    }

    /// The field at position `i`: its key and its value.
    pub fn field(&self, i: usize) -> (entry: (&String, &ScriptValue))
        requires
            i < self.fields().len(),
        ensures
            entry.0@ == self.fields()[i as int],
            self@.contains_key(entry.0@),
            *entry.1 == self@[entry.0@],
    {
        proof {
            use_type_invariant(self);
        }
        (self.values.key_at(i), self.values.value_at(i))
    }
}

} // verus!
