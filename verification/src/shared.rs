//! The concurrent maps and sets of `dashmap`, keyed by text.
//!
//! Each map is a `DashMap<String, V>`; what it holds is a `Map` from the
//! characters of the key to the value.
use dashmap::{DashMap, DashSet};
use vstd::prelude::*;
use crate::operations::OperationRecord;
use crate::rows::NamespaceSchemaInfo;

verus! {

/// The sharded hash map of `dashmap`.
#[verifier::external_type_specification]
#[verifier::external_body]
#[verifier::reject_recursive_types(K)]
#[verifier::reject_recursive_types(V)]
#[verifier::reject_recursive_types(S)]
pub struct ExDashMap<K, V, S>(dashmap::DashMap<K, V, S>);

/// The sharded hash set of `dashmap`.
#[verifier::external_type_specification]
#[verifier::external_body]
#[verifier::reject_recursive_types(K)]
#[verifier::reject_recursive_types(S)]
pub struct ExDashSet<K, S>(dashmap::DashSet<K, S>);

/// What a map of numbers holds.
pub uninterp spec fn number_map(m: DashMap<String, u64>) -> Map<Seq<char>, u64>;

/// What a map of schema facts holds.
pub uninterp spec fn schema_map(m: DashMap<String, NamespaceSchemaInfo>) -> Map<
    Seq<char>,
    NamespaceSchemaInfo,
>;

/// What a map of key sets holds.
pub uninterp spec fn set_map(m: DashMap<String, DashSet<(String, String, String)>>) -> Map<
    Seq<char>,
    DashSet<(String, String, String)>,
>;

/// What a set of keys of three parts holds.
pub uninterp spec fn key_set(s: DashSet<(String, String, String)>) -> Set<
    (Seq<char>, Seq<char>, Seq<char>),
>;

/// The characters of the three parts of a key.
pub open spec fn parts(t: (String, String, String)) -> (Seq<char>, Seq<char>, Seq<char>) {
    (t.0@, t.1@, t.2@)
}

/// What a map of operation records holds.
pub uninterp spec fn record_map(m: DashMap<String, OperationRecord>) -> Map<
    Seq<char>,
    OperationRecord,
>;

/// What a set of texts holds.
pub uninterp spec fn text_set(s: DashSet<String>) -> Set<Seq<char>>;

/// Values that a shared map holds.
pub(crate) trait Held: Sized {
    /// What the map holds.
    spec fn contents(m: DashMap<String, Self>) -> Map<Seq<char>, Self>;
}

/// Values that can be read out of a shared map, as an equal copy.
pub(crate) trait HeldCopy: Held {
    /// An equal copy.
    fn duplicate(&self) -> (r: Self)
        ensures
            r == *self,
    ;
}

impl Held for u64 {
    open spec fn contents(m: DashMap<String, u64>) -> Map<Seq<char>, u64> {
        number_map(m)
    }
}

impl HeldCopy for u64 {
    fn duplicate(&self) -> (r: u64) {
        *self
    }
}

impl Held for NamespaceSchemaInfo {
    open spec fn contents(m: DashMap<String, NamespaceSchemaInfo>) -> Map<
        Seq<char>,
        NamespaceSchemaInfo,
    > {
        schema_map(m)
    }
}

impl HeldCopy for NamespaceSchemaInfo {
    fn duplicate(&self) -> (r: NamespaceSchemaInfo) {
        *self
    }
}

impl Held for OperationRecord {
    open spec fn contents(m: DashMap<String, OperationRecord>) -> Map<Seq<char>, OperationRecord> {
        record_map(m)
    }
}

impl HeldCopy for OperationRecord {
    fn duplicate(&self) -> (r: OperationRecord) {
        self.clone()
    }
}

impl Held for DashSet<(String, String, String)> {
    open spec fn contents(m: DashMap<String, DashSet<(String, String, String)>>) -> Map<
        Seq<char>,
        DashSet<(String, String, String)>,
    > {
        set_map(m)
    }
}

/// The value under a key, if there is one.
pub open spec fn lookup<V>(m: Map<Seq<char>, V>, key: Seq<char>) -> Option<V> {
    if m.dom().contains(key) {
        Some(m[key])
    } else {
        None
    }
}

/// `DashMap::new`: the map of numbers is empty.
#[verifier::external_body]
pub(crate) fn new_number_map() -> (m: DashMap<String, u64>)
    ensures
        number_map(m).dom() == Set::<Seq<char>>::empty(),
{
    DashMap::new()
}

/// `DashMap::new`: the map of schema facts is empty.
#[verifier::external_body]
pub(crate) fn new_schema_map() -> (m: DashMap<String, NamespaceSchemaInfo>)
    ensures
        schema_map(m).dom() == Set::<Seq<char>>::empty(),
{
    DashMap::new()
}

/// `DashMap::new`: the map of operation records is empty.
#[verifier::external_body]
pub(crate) fn new_record_map() -> (m: DashMap<String, OperationRecord>)
    ensures
        record_map(m).dom() == Set::<Seq<char>>::empty(),
{
    DashMap::new()
}

/// `DashMap::new`: the map of key sets is empty.
#[verifier::external_body]
pub(crate) fn new_set_map() -> (m: DashMap<String, DashSet<(String, String, String)>>)
    ensures
        set_map(m).dom() == Set::<Seq<char>>::empty(),
{
    DashMap::new()
}

/// `DashMap::insert` puts the value under the key and gives what stood there.
#[verifier::external_body]
pub(crate) fn map_insert<V: Held>(m: &mut DashMap<String, V>, key: &str, value: V) -> (r: Option<V>)
    ensures
        V::contents(*final(m)) == V::contents(*old(m)).insert(key@, value),
        r == lookup(V::contents(*old(m)), key@),
{
    m.insert(key.to_string(), value)
}

/// `DashMap::get` finds the value under the key; it is handed out as an equal
/// copy, so that no lock on the map is kept.
#[verifier::external_body]
pub(crate) fn map_get<V: HeldCopy>(m: &DashMap<String, V>, key: &str) -> (r: Option<V>)
    ensures
        r == lookup(V::contents(*m), key@),
{
    m.get(key).map(|entry| entry.value().duplicate())
}

/// `DashMap::remove` takes the key out of the map and gives what stood there.
#[verifier::external_body]
pub(crate) fn map_remove<V: Held>(m: &mut DashMap<String, V>, key: &str) -> (r: Option<V>)
    ensures
        V::contents(*final(m)) == V::contents(*old(m)).remove(key@),
        r == lookup(V::contents(*old(m)), key@),
{
    m.remove(key).map(|pair| pair.1)
}

/// `DashMap::contains_key` says whether the map has the key.
#[verifier::external_body]
pub(crate) fn map_has<V: Held>(m: &DashMap<String, V>, key: &str) -> (r: bool)
    ensures
        r == V::contents(*m).dom().contains(key@),
{
    m.contains_key(key)
}

/// `DashMap::len` counts the keys.
#[verifier::external_body]
pub(crate) fn map_len<V: Held>(m: &DashMap<String, V>) -> (r: usize)
    ensures
        V::contents(*m).dom().finite() ==> r == V::contents(*m).len(),
{
    m.len()
}

/// `DashMap::clear` empties the map.
#[verifier::external_body]
pub(crate) fn map_clear<V: Held>(m: &mut DashMap<String, V>)
    ensures
        V::contents(*final(m)).dom() == Set::<Seq<char>>::empty(),
{
    m.clear()
}

/// `DashMap::iter` visits every entry once; its keys, in an order that is not
/// stated.
#[verifier::external_body]
pub(crate) fn map_keys<V: Held>(m: &DashMap<String, V>) -> (r: Vec<String>)
    ensures
        forall|i: int|
            0 <= i < r@.len() ==> V::contents(*m).dom().contains(#[trigger] r@[i]@),
        forall|k: Seq<char>| #[trigger]
            V::contents(*m).dom().contains(k) ==> exists|i: int| 0 <= i < r@.len() && r@[i]@ == k,
{
    m.iter().map(|entry| entry.key().clone()).collect()
}

/// `DashSet::new`: the set is empty.
#[verifier::external_body]
pub(crate) fn new_text_set() -> (s: DashSet<String>)
    ensures
        text_set(s) == Set::<Seq<char>>::empty(),
{
    DashSet::new()
}

/// `DashSet::insert` puts the text into the set and says whether it was new.
#[verifier::external_body]
pub(crate) fn set_insert(s: &mut DashSet<String>, text: &str) -> (r: bool)
    ensures
        text_set(*final(s)) == text_set(*old(s)).insert(text@),
        r == !text_set(*old(s)).contains(text@),
{
    s.insert(text.to_string())
}

/// `DashSet::new`: the set of keys is empty.
#[verifier::external_body]
pub(crate) fn new_key_set() -> (s: DashSet<(String, String, String)>)
    ensures
        key_set(s) == Set::<(Seq<char>, Seq<char>, Seq<char>)>::empty(),
{
    DashSet::new()
}

/// `DashSet::insert` puts the key into the set and says whether it was new.
#[verifier::external_body]
pub(crate) fn key_set_insert(
    s: &mut DashSet<(String, String, String)>,
    key: (String, String, String),
) -> (r: bool)
    ensures
        key_set(*final(s)) == key_set(*old(s)).insert(parts(key)),
        r == !key_set(*old(s)).contains(parts(key)),
{
    s.insert(key)
}

/// `DashSet::iter` visits every key once, in an order that is not stated.
#[verifier::external_body]
pub(crate) fn key_set_items(s: &DashSet<(String, String, String)>) -> (r: Vec<
    (String, String, String),
>)
    ensures
        forall|i: int| 0 <= i < r@.len() ==> key_set(*s).contains(parts(#[trigger] r@[i])),
        forall|k: (Seq<char>, Seq<char>, Seq<char>)| #[trigger]
            key_set(*s).contains(k) ==> exists|i: int| 0 <= i < r@.len() && parts(r@[i]) == k,
        forall|i: int, j: int| 0 <= i < j < r@.len() ==> parts(r@[i]) != parts(r@[j]),
{
    s.iter().map(|key| key.key().clone()).collect()
}

} // verus!
