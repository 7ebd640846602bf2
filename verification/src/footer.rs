//! The footer of a message: an insertion-ordered map from key to value with
//! update-in-place on a duplicate key, held in an `indexmap::IndexMap`.
//!
//! The map type is opaque to the verifier; [`footer_pairs`] names its
//! entries in order, and the trusted wrappers below state what each map
//! operation does to those entries, as the crate's documentation gives it.

use vstd::prelude::*;

use indexmap::IndexMap;

use crate::grammar::{footer_has_key, spec_footer_insert};

verus! {

#[verifier::external_type_specification]
#[verifier::external_body]
#[verifier::reject_recursive_types(K)]
#[verifier::reject_recursive_types(V)]
#[verifier::reject_recursive_types(S)]
pub struct ExIndexMap<K, V, S>(IndexMap<K, V, S>);

/// The entries of a footer map, in order, as plain character sequences.
pub uninterp spec fn footer_pairs(m: IndexMap<String, String>) -> Seq<(Seq<char>, Seq<char>)>;

/// Relies on indexmap::IndexMap::new: creates an empty map.
#[verifier::external_body]
pub fn footer_new() -> (m: IndexMap<String, String>)
    ensures
        footer_pairs(m) == Seq::<(Seq<char>, Seq<char>)>::empty(),
{
    IndexMap::new()
}

/// Relies on indexmap::IndexMap::insert: an existing key keeps its place in
/// the order and its value is updated; a new key is appended last; the
/// previous value, if any, is returned.
#[verifier::external_body]
pub fn footer_insert(m: &mut IndexMap<String, String>, key: String, value: String) -> (prev: Option<
    String,
>)
    ensures
        footer_pairs(*final(m)) == spec_footer_insert(footer_pairs(*old(m)), key@, value@),
        prev is Some <==> footer_has_key(footer_pairs(*old(m)), key@),
{
    m.insert(key, value)
}

/// Relies on indexmap::IndexMap::contains_key: whether an entry with this
/// key exists.
#[verifier::external_body]
pub fn footer_contains_key(m: &IndexMap<String, String>, key: &str) -> (r: bool)
    ensures
        r == footer_has_key(footer_pairs(*m), key@),
{
    m.contains_key(key)
}

/// Relies on indexmap::IndexMap::len: the number of entries.
#[verifier::external_body]
pub fn footer_len(m: &IndexMap<String, String>) -> (n: usize)
    ensures
        n == footer_pairs(*m).len(),
{
    m.len()
}

/// Relies on indexmap::IndexMap::get_index: the entry at a position in the
/// order, for `0 <= index < len`.
#[verifier::external_body]
pub fn footer_get_index(m: &IndexMap<String, String>, index: usize) -> (r: Option<(String, String)>)
    ensures
        match r {
            Some(p) => index < footer_pairs(*m).len() && footer_pairs(*m)[index as int] == (
                p.0@,
                p.1@,
            ),
            None => index >= footer_pairs(*m).len(),
        },
{
    m.get_index(index).map(|(k, v)| (k.clone(), v.clone()))
}

} // verus!
