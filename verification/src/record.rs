//! Records: what a predicate is evaluated against.

use vstd::prelude::*;
use vstd::hash_map::StringHashMap;

verus! {

/// A mapping from field names to values, each name at most once.
///
/// Seen as a `Map` from the name's characters to the view of the value.
#[verifier::reject_recursive_types(V)]
pub struct Record<V: View> {
    fields: StringHashMap<V>,
}

impl<V: View> View for Record<V> {
    type V = Map<Seq<char>, V::V>;

    closed spec fn view(&self) -> Map<Seq<char>, V::V> {
        self.fields@.map_values(|v: V| v@)
    }
}

impl<V: View> Record<V> {
    /// A record without fields.
    pub fn new() -> (result: Self)
        ensures
            result@ == Map::<Seq<char>, V::V>::empty(),
    {
        Record { fields: StringHashMap::new() }
    }

    /// Sets the field `name` to `value`, replacing what it held.
    pub fn insert(&mut self, name: String, value: V)
        ensures
            final(self)@ == old(self)@.insert(name@, value@),
    {
        self.fields.insert(name, value);
    }

    /// The value of the field `name`, if the record has it.
    pub fn get(&self, name: &str) -> (result: Option<&V>)
        ensures
            result.is_some() == self@.contains_key(name@),
            result matches Some(v) ==> v@ == self@[name@],
    {
        self.fields.get(name)
    }
}

} // verus!
