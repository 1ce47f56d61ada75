use vstd::prelude::*;
use std::collections::hash_map::RandomState;
use crate::syntax::Type;

verus! {

#[verifier::external_type_specification]
#[verifier::external_body]
#[verifier::reject_recursive_types(K)]
#[verifier::reject_recursive_types(V)]
#[verifier::reject_recursive_types(S)]
pub struct ExImHashMap<K, V, S>(im::HashMap<K, V, S>);

/// What a type context maps each name to.
pub uninterp spec fn type_entries(m: im::HashMap<String, Type, RandomState>) -> Map<Seq<char>, Type>;

/// What a slot or constant table maps each name to.
pub uninterp spec fn int_entries(m: im::HashMap<String, i32, RandomState>) -> Map<Seq<char>, i32>;

/// Relies on `im::HashMap::new`: the new map is empty.
#[verifier::external_body]
pub fn empty_types() -> (r: im::HashMap<String, Type>)
    ensures
        forall|k: Seq<char>| !type_entries(r).contains_key(k),
{
    im::HashMap::new()
}

/// Relies on `im::HashMap::get`: the value stored under the key with the same text.
#[verifier::external_body]
pub fn lookup_type(m: &im::HashMap<String, Type>, k: &String) -> (r: Option<Type>)
    ensures
        r == (if type_entries(*m).contains_key(k@) { Some(type_entries(*m)[k@]) } else { None }),
{
    m.get(k).copied()
}

/// Relies on `im::HashMap::update`: a new map with the key bound to the value,
/// the argument left as it was.
#[verifier::external_body]
pub fn bind_type(m: &im::HashMap<String, Type>, k: String, v: Type) -> (r: im::HashMap<String, Type>)
    ensures
        type_entries(r) == type_entries(*m).insert(k@, v),
{
    m.update(k, v)
}

/// Relies on `im::HashMap`'s `Clone`: the copy has the same entries.
#[verifier::external_body]
pub fn copy_types(m: &im::HashMap<String, Type>) -> (r: im::HashMap<String, Type>)
    ensures
        type_entries(r) == type_entries(*m),
{
    m.clone()
}

/// Relies on `im::HashMap::new`: the new map is empty.
#[verifier::external_body]
pub fn empty_ints() -> (r: im::HashMap<String, i32>)
    ensures
        forall|k: Seq<char>| !int_entries(r).contains_key(k),
{
    im::HashMap::new()
}

/// Relies on `im::HashMap::get`: the value stored under the key with the same text.
#[verifier::external_body]
pub fn lookup_int(m: &im::HashMap<String, i32>, k: &String) -> (r: Option<i32>)
    ensures
        r == (if int_entries(*m).contains_key(k@) { Some(int_entries(*m)[k@]) } else { None }),
{
    m.get(k).copied()
}

/// Relies on `im::HashMap::update`: a new map with the key bound to the value,
/// the argument left as it was.
#[verifier::external_body]
pub fn bind_int(m: &im::HashMap<String, i32>, k: String, v: i32) -> (r: im::HashMap<String, i32>)
    ensures
        int_entries(r) == int_entries(*m).insert(k@, v),
{
    m.update(k, v)
}

/// Relies on `im::HashMap`'s `Clone`: the copy has the same entries.
#[verifier::external_body]
pub fn copy_ints(m: &im::HashMap<String, i32>) -> (r: im::HashMap<String, i32>)
    ensures
        int_entries(r) == int_entries(*m),
{
    m.clone()
}

} // verus!
