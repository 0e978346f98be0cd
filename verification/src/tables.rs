//! The hash maps of the generator (from `hashbrown`) and the dependency
//! sorter (from `topological_sort`), each behind a small set of trusted
//! calls whose contracts describe what the collection holds.

use vstd::prelude::*;
use topological_sort::TopologicalSort;
use crate::definitions::TypeDefinition;
use crate::text::views;

verus! {

/// The definitions collected so far, keyed by name. `hashbrown::HashMap`
/// cannot be declared to Verus here (its allocator bound is not nameable
/// from this crate), so the map is held in a field hidden from Verus and
/// described by [`definition_table_contents`].
#[verifier::external_body]
pub struct DefinitionTable {
    map: hashbrown::HashMap<String, TypeDefinition>,
}

/// The definitions that a [`DefinitionTable`] holds, keyed by the characters
/// of their names.
pub uninterp spec fn definition_table_contents(t: DefinitionTable) -> Map<Seq<char>, TypeDefinition>;

/// Expansions computed so far (a `hashbrown::HashMap<String, Vec<String>>`),
/// described by [`expansion_table_contents`].
#[verifier::external_body]
pub struct ExpansionTable {
    map: hashbrown::HashMap<String, Vec<String>>,
}

/// The lists that an [`ExpansionTable`] holds, keyed by name.
pub uninterp spec fn expansion_table_contents(t: ExpansionTable) -> Map<Seq<char>, Seq<Seq<char>>>;

#[verifier::external_type_specification]
#[verifier::external_body]
#[verifier::reject_recursive_types(T)]
pub struct ExTopologicalSort<T>(TopologicalSort<T>);

/// What a `TopologicalSort<String>` holds: each element it still holds,
/// mapped to the elements it still holds that must come before it.
pub uninterp spec fn topo_dependencies(t: TopologicalSort<String>) -> Map<Seq<char>, Set<Seq<char>>>;

/// Calls `hashbrown::HashMap::new`: an empty map.
#[verifier::external_body]
pub(crate) fn definition_table_new() -> (r: DefinitionTable)
    ensures
        definition_table_contents(r).dom() == Set::<Seq<char>>::empty(),
{
    DefinitionTable { map: hashbrown::HashMap::new() }
}

/// Calls `hashbrown::HashMap::try_insert`: inserts only when the key is
/// absent, and says whether it did.
#[verifier::external_body]
pub(crate) fn definition_table_try_insert(t: &mut DefinitionTable, k: String, v: TypeDefinition) -> (inserted: bool)
    ensures
        inserted == !definition_table_contents(*old(t)).contains_key(k@),
        definition_table_contents(*final(t)) == (if inserted {
            definition_table_contents(*old(t)).insert(k@, v)
        } else {
            definition_table_contents(*old(t))
        }),
{
    match t.map.try_insert(k, v) {
        Ok(_) => true,
        Err(_) => false,
    }
}

/// Calls `hashbrown::HashMap::insert`: the key now maps to `v`.
#[verifier::external_body]
pub(crate) fn definition_table_insert(t: &mut DefinitionTable, k: String, v: TypeDefinition)
    ensures
        definition_table_contents(*final(t)) == definition_table_contents(*old(t)).insert(k@, v),
{
    t.map.insert(k, v);
}

/// Calls `hashbrown::HashMap::get`.
#[verifier::external_body]
pub(crate) fn definition_table_get<'a>(t: &'a DefinitionTable, k: &String) -> (r: Option<&'a TypeDefinition>)
    ensures
        r is Some == definition_table_contents(*t).contains_key(k@),
        r matches Some(d) ==> *d == definition_table_contents(*t)[k@],
{
    t.map.get(k)
}

/// Calls `hashbrown::HashMap::keys` and clones each key: every name the
/// map holds, once each, in the map's own (unspecified) order.
#[verifier::external_body]
pub(crate) fn definition_table_keys(t: &DefinitionTable) -> (r: Vec<String>)
    ensures
        views(r@).no_duplicates(),
        views(r@).to_set() == definition_table_contents(*t).dom(),
{
    t.map.keys().cloned().collect()
}

/// Calls `hashbrown::HashMap::new`: an empty map.
#[verifier::external_body]
pub(crate) fn expansion_table_new() -> (r: ExpansionTable)
    ensures
        expansion_table_contents(r).dom() == Set::<Seq<char>>::empty(),
{
    ExpansionTable { map: hashbrown::HashMap::new() }
}

/// Calls `hashbrown::HashMap::insert`: the key now maps to `v`.
#[verifier::external_body]
pub(crate) fn expansion_table_insert(t: &mut ExpansionTable, k: String, v: Vec<String>)
    ensures
        expansion_table_contents(*final(t)) == expansion_table_contents(*old(t)).insert(k@, views(v@)),
{
    t.map.insert(k, v);
}

/// Calls `hashbrown::HashMap::get`.
#[verifier::external_body]
pub(crate) fn expansion_table_get<'a>(t: &'a ExpansionTable, k: &String) -> (r: Option<&'a Vec<String>>)
    ensures
        r is Some == expansion_table_contents(*t).contains_key(k@),
        r matches Some(v) ==> views(v@) == expansion_table_contents(*t)[k@],
{
    t.map.get(k)
}

/// Calls `TopologicalSort::new`: nothing to sort yet.
#[verifier::external_body]
pub(crate) fn topo_new() -> (r: TopologicalSort<String>)
    ensures
        topo_dependencies(r).dom() == Set::<Seq<char>>::empty(),
{
    TopologicalSort::<String>::new()
}

/// Calls `TopologicalSort::insert`: adds the element with no dependencies,
/// unless it is already there.
#[verifier::external_body]
pub(crate) fn topo_insert(t: &mut TopologicalSort<String>, x: String)
    ensures
        topo_dependencies(*final(t)) == (if topo_dependencies(*old(t)).contains_key(x@) {
            topo_dependencies(*old(t))
        } else {
            topo_dependencies(*old(t)).insert(x@, Set::empty())
        }),
{
    t.insert(x);
}

/// The dependencies after `TopologicalSort::add_dependency(prec, succ)`:
/// both elements are held, and `prec` must come before `succ`.
pub open spec fn topo_after_dependency(
    m: Map<Seq<char>, Set<Seq<char>>>,
    prec: Seq<char>,
    succ: Seq<char>,
) -> Map<Seq<char>, Set<Seq<char>>> {
    let m1 = if m.contains_key(prec) { m } else { m.insert(prec, Set::empty()) };
    let before = if m1.contains_key(succ) { m1[succ] } else { Set::empty() };
    m1.insert(succ, before.insert(prec))
}

/// Calls `TopologicalSort::add_dependency`.
#[verifier::external_body]
pub(crate) fn topo_add_dependency(t: &mut TopologicalSort<String>, prec: String, succ: String)
    ensures
        topo_dependencies(*final(t)) == topo_after_dependency(topo_dependencies(*old(t)), prec@, succ@),
{
    t.add_dependency(prec, succ);
}

/// The dependencies after an element is removed: it is gone, and no longer
/// holds back anything.
pub open spec fn topo_after_removal(m: Map<Seq<char>, Set<Seq<char>>>, x: Seq<char>) -> Map<Seq<char>, Set<Seq<char>>> {
    Map::new(|k: Seq<char>| m.contains_key(k) && k != x, |k: Seq<char>| m[k].remove(x))
}

/// Calls `TopologicalSort::pop`: removes and returns an element that nothing
/// it holds must come before, or returns `None` when there is no such
/// element. Which of several such elements comes out is not stated.
#[verifier::external_body]
pub(crate) fn topo_pop(t: &mut TopologicalSort<String>) -> (r: Option<String>)
    ensures
        r matches Some(x) ==> {
            &&& topo_dependencies(*old(t)).contains_key(x@)
            &&& topo_dependencies(*old(t))[x@] == Set::<Seq<char>>::empty()
            &&& topo_dependencies(*final(t)) == topo_after_removal(topo_dependencies(*old(t)), x@)
        },
        r is None ==> {
            &&& forall|k: Seq<char>| #[trigger] topo_dependencies(*old(t)).contains_key(k)
                ==> topo_dependencies(*old(t))[k] != Set::<Seq<char>>::empty()
            &&& topo_dependencies(*final(t)) == topo_dependencies(*old(t))
        },
{
    t.pop()
}

/// Calls `TopologicalSort::is_empty`.
#[verifier::external_body]
pub(crate) fn topo_is_empty(t: &TopologicalSort<String>) -> (r: bool)
    ensures
        r == (topo_dependencies(*t).dom() == Set::<Seq<char>>::empty()),
{
    t.is_empty()
}

} // verus!
