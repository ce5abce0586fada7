//! An index of names, held in a `dashmap::DashMap`.
use vstd::prelude::*;

verus! {

/// `dashmap::DashMap`, a concurrent hash map.
#[verifier::external_type_specification]
#[verifier::external_body]
#[verifier::reject_recursive_types(K)]
#[verifier::reject_recursive_types(V)]
#[verifier::reject_recursive_types(S)]
pub struct ExDashMap<K, V, S>(dashmap::DashMap<K, V, S>);

/// The names in an index, and the number that stands with each.
pub uninterp spec fn entries(index: dashmap::DashMap<String, usize>) -> Map<Seq<char>, usize>;

/// `DashMap::new`: an index without names.
#[verifier::external_body]
pub(crate) fn new_index() -> (r: dashmap::DashMap<String, usize>)
    ensures
        entries(r).dom() == Set::<Seq<char>>::empty(),
{
    dashmap::DashMap::new()
}

/// `DashMap::get`: the number that stands with a name, where it is there.
#[verifier::external_body]
pub(crate) fn index_get(index: &dashmap::DashMap<String, usize>, name: &str) -> (r: Option<usize>)
    ensures
        match r {
            Some(i) => entries(*index).contains_key(name@) && entries(*index)[name@] == i,
            None => !entries(*index).contains_key(name@),
        },
{
    index.get(name).map(|entry| *entry.value())
}

/// `DashMap::insert`: the number stands with the name from now on; every other
/// name keeps its own.
#[verifier::external_body]
pub(crate) fn index_insert(
    index: &mut dashmap::DashMap<String, usize>,
    name: String,
    number: usize,
)
    ensures
        entries(*final(index)) == entries(*old(index)).insert(name@, number),
{
    index.insert(name, number);
}

/// Whether a list holds every entry of an index once.
pub open spec fn lists_entries(list: Seq<(String, usize)>, map: Map<Seq<char>, usize>) -> bool {
    &&& forall|i: int|
        0 <= i < list.len() ==> map.contains_key(#[trigger] list[i].0@) && map[list[i].0@]
            == list[i].1
    &&& forall|i: int, j: int|
        0 <= i < j < list.len() ==> #[trigger] list[i].0@ != #[trigger] list[j].0@
    &&& forall|name: Seq<char>| #[trigger]
        map.contains_key(name) ==> exists|i: int| 0 <= i < list.len() && #[trigger] list[i].0@ == name
}

/// `DashMap::iter`: every entry once, in an order that is not stated.
#[verifier::external_body]
pub(crate) fn index_walk(index: &dashmap::DashMap<String, usize>) -> (r: Vec<(String, usize)>)
    ensures
        lists_entries(r@, entries(*index)),
{
    index.iter().map(|entry| (entry.key().clone(), *entry.value())).collect()
}

} // verus!
