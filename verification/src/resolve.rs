//! Resolution of the collected definitions: every composite error is
//! checked against the definitions, ordered after the composites it expands
//! with `*`, and expanded into the sorted list of plain errors it holds.

use vstd::prelude::*;
use topological_sort::TopologicalSort;
use crate::definitions::{
    TypeDefinition, TypeDefinitionType, CompositeType, SimpleType, TypeDefinitionError,
    DefinitionErrorCause, expansion_lines,
};
use crate::tables::{
    DefinitionTable, definition_table_contents, definition_table_get, definition_table_keys,
    topo_dependencies, topo_new, topo_insert, topo_add_dependency, topo_after_dependency,
    topo_pop, topo_is_empty, expansion_table_contents,
    expansion_table_new, expansion_table_get, expansion_table_insert,
};
use crate::text::{views, seq_join, push_str, copy_string, lemma_views_push, lemma_map_push};
use crate::order::{strictly_sorted, sorted_unique};

verus! {

/// The contents of a definition table, by name.
pub type Definitions = Map<Seq<char>, TypeDefinition>;

/// `n` names a plain error.
pub open spec fn has_simple(defs: Definitions, n: Seq<char>) -> bool {
    defs.contains_key(n) && defs[n].ty is Simple
}

/// `n` names a composite error.
pub open spec fn has_composite(defs: Definitions, n: Seq<char>) -> bool {
    defs.contains_key(n) && defs[n].ty is Composite
}

/// The composite part of a definition.
pub open spec fn composite_part(d: TypeDefinition) -> CompositeType {
    d.ty->Composite_0
}

/// The plain part of a definition.
pub open spec fn simple_part(d: TypeDefinition) -> SimpleType {
    d.ty->Simple_0
}

/// Holds of the names that `defs` does not define.
pub open spec fn undefined_in(defs: Definitions) -> spec_fn(Seq<char>) -> bool {
    |t: Seq<char>| !defs.contains_key(t)
}

/// Holds of the names of composite errors in `defs`.
pub open spec fn composite_in(defs: Definitions) -> spec_fn(Seq<char>) -> bool {
    |t: Seq<char>| has_composite(defs, t)
}

/// Holds of the names of plain errors in `defs`.
pub open spec fn simple_in(defs: Definitions) -> spec_fn(Seq<char>) -> bool {
    |t: Seq<char>| has_simple(defs, t)
}

/// The names listed in `c` (plain ones first, then starred ones) that name
/// nothing.
pub open spec fn missing_names(defs: Definitions, c: CompositeType) -> Seq<Seq<char>> {
    views(c.types@).filter(undefined_in(defs)) + views(c.composites@).filter(undefined_in(defs))
}

/// The names listed without `*` in `c` that name composite errors.
pub open spec fn unstarred_composites(defs: Definitions, c: CompositeType) -> Seq<Seq<char>> {
    views(c.types@).filter(composite_in(defs))
}

/// The names listed with `*` in `c` that name plain errors.
pub open spec fn starred_plain(defs: Definitions, c: CompositeType) -> Seq<Seq<char>> {
    views(c.composites@).filter(simple_in(defs))
}

/// Every name in `c` is defined, and marked with `*` exactly when it names
/// a composite error.
pub open spec fn expansion_valid(defs: Definitions, c: CompositeType) -> bool {
    &&& missing_names(defs, c).len() == 0
    &&& unstarred_composites(defs, c).len() == 0
    &&& starred_plain(defs, c).len() == 0
}

/// The message reported for a composite whose list is not valid.
pub open spec fn expansion_message(defs: Definitions, c: CompositeType) -> Seq<char> {
    seq_join(
        expansion_lines(missing_names(defs, c), starred_plain(defs, c), unstarred_composites(defs, c)),
        "\n"@,
    )
}

/// `n` names a composite error whose list is valid.
pub open spec fn valid_composite(defs: Definitions, n: Seq<char>) -> bool {
    has_composite(defs, n) && expansion_valid(defs, composite_part(defs[n]))
}

/// `n` names a composite error whose list is not valid.
pub open spec fn invalid_composite(defs: Definitions, n: Seq<char>) -> bool {
    has_composite(defs, n) && !expansion_valid(defs, composite_part(defs[n]))
}

/// The starred names of the composite `n`.
pub open spec fn starred_of(defs: Definitions, n: Seq<char>) -> Seq<Seq<char>> {
    views(composite_part(defs[n]).composites@)
}

/// The plain names of the composite `n`.
pub open spec fn plain_of(defs: Definitions, n: Seq<char>) -> Seq<Seq<char>> {
    views(composite_part(defs[n]).types@)
}

/// The names of the partial failure report, the plain-error view of a
/// failure: message, file and hash.
pub open spec fn failure_view(e: TypeDefinitionError) -> (Seq<char>, Seq<char>, u64) {
    (e.msg@, e.file@, e.hash)
}

/// The failure reported for the invalid composite `n`.
pub open spec fn failure_of(defs: Definitions, n: Seq<char>) -> (Seq<char>, Seq<char>, u64) {
    let c = composite_part(defs[n]);
    (expansion_message(defs, c), c.file@, c.hash)
}

/// The result recorded for the valid composite `n`: its hash, and the path
/// `module::n` of the enum generated for it.
pub open spec fn result_of(defs: Definitions, module: Seq<char>, n: Seq<char>) -> (u64, Seq<char>) {
    (composite_part(defs[n]).hash, module + "::"@ + n)
}

/// Plain-value view of a list of recorded results.
pub open spec fn results_view(v: Seq<(u64, String)>) -> Seq<(u64, Seq<char>)> {
    v.map_values(result_view_fn())
}

/// The view of one recorded result.
pub open spec fn result_view_fn() -> spec_fn((u64, String)) -> (u64, Seq<char>) {
    |p: (u64, String)| (p.0, p.1@)
}

/// The lists of a composite that are refused: missing names, starred plain
/// errors, unstarred composites.
pub struct ExpansionCheck {
    pub missing_errors: Vec<String>,
    pub remove_asterisk: Vec<String>,
    pub add_asterisk: Vec<String>,
}

proof fn lemma_filter_step(s: Seq<Seq<char>>, i: int, pred: spec_fn(Seq<char>) -> bool)
    requires
        0 <= i < s.len(),
    ensures
        s.take(i + 1).filter(pred) == (if pred(s[i]) {
            s.take(i).filter(pred).push(s[i])
        } else {
            s.take(i).filter(pred)
        }),
{
    assert(s.take(i + 1).drop_last() =~= s.take(i));
    reveal_with_fuel(Seq::<_>::filter, 1);
}

/// Checks the lists of a composite against the definitions.
pub fn check_composite(table: &DefinitionTable, c: &CompositeType) -> (r: ExpansionCheck)
    ensures
        views(r.missing_errors@) == missing_names(definition_table_contents(*table), *c),
        views(r.remove_asterisk@) == starred_plain(definition_table_contents(*table), *c),
        views(r.add_asterisk@) == unstarred_composites(definition_table_contents(*table), *c),
{
    let ghost defs = definition_table_contents(*table);
    let mut missing_errors: Vec<String> = Vec::new();
    let mut remove_asterisk: Vec<String> = Vec::new();
    let mut add_asterisk: Vec<String> = Vec::new();
    let mut i: usize = 0;
    while i < c.types.len()
        invariant
            defs == definition_table_contents(*table),
            i <= c.types.len(),
            views(missing_errors@) == views(c.types@).take(i as int).filter(undefined_in(defs)),
            views(add_asterisk@) == views(c.types@).take(i as int).filter(composite_in(defs)),
            remove_asterisk@.len() == 0,
        decreases c.types.len() - i,
    {
        proof {
            lemma_filter_step(views(c.types@), i as int, undefined_in(defs));
            lemma_filter_step(views(c.types@), i as int, composite_in(defs));
        }
        let ghost key = c.types@[i as int]@;
        assert(views(c.types@)[i as int] == key);
        match definition_table_get(table, &c.types[i]) {
            Some(t) => {
                match &t.ty {
                    TypeDefinitionType::Composite(_) => {
                        proof { lemma_views_push(add_asterisk@, c.types@[i as int]); }
                        add_asterisk.push(c.types[i].clone());
                    },
                    TypeDefinitionType::Simple(_) => {
                        assert(!composite_in(defs)(key));
                    },
                }
                assert(!undefined_in(defs)(key));
            },
            None => {
                proof { lemma_views_push(missing_errors@, c.types@[i as int]); }
                missing_errors.push(c.types[i].clone());
                assert(!composite_in(defs)(key));
            },
        }
        i += 1;
    }
    let ghost first = views(missing_errors@);
    assert(views(c.types@).take(c.types.len() as int) =~= views(c.types@));
    assert(views(remove_asterisk@) =~= views(c.composites@).take(0).filter(simple_in(defs)));
    assert(views(missing_errors@) =~= first + views(c.composites@).take(0).filter(undefined_in(defs)));
    let mut j: usize = 0;
    while j < c.composites.len()
        invariant
            defs == definition_table_contents(*table),
            j <= c.composites.len(),
            views(missing_errors@) == first + views(c.composites@).take(j as int).filter(undefined_in(defs)),
            views(remove_asterisk@) == views(c.composites@).take(j as int).filter(simple_in(defs)),
            views(add_asterisk@) == views(c.types@).filter(composite_in(defs)),
        decreases c.composites.len() - j,
    {
        proof {
            lemma_filter_step(views(c.composites@), j as int, undefined_in(defs));
            lemma_filter_step(views(c.composites@), j as int, simple_in(defs));
        }
        let ghost key = c.composites@[j as int]@;
        assert(views(c.composites@)[j as int] == key);
        match definition_table_get(table, &c.composites[j]) {
            Some(t) => {
                match &t.ty {
                    TypeDefinitionType::Simple(_) => {
                        proof { lemma_views_push(remove_asterisk@, c.composites@[j as int]); }
                        remove_asterisk.push(c.composites[j].clone());
                    },
                    TypeDefinitionType::Composite(_) => {
                        assert(!simple_in(defs)(key));
                    },
                }
                assert(!undefined_in(defs)(key));
            },
            None => {
                proof { lemma_views_push(missing_errors@, c.composites@[j as int]); }
                missing_errors.push(c.composites[j].clone());
                assert(!simple_in(defs)(key));
                assert(views(missing_errors@) =~= first + views(c.composites@).take(j + 1).filter(undefined_in(defs)));
            },
        }
        j += 1;
    }
    assert(views(c.composites@).take(c.composites.len() as int) =~= views(c.composites@));
    ExpansionCheck { missing_errors, remove_asterisk, add_asterisk }
}


/// Holds of the names of valid composites in `defs`.
pub open spec fn valid_in(defs: Definitions) -> spec_fn(Seq<char>) -> bool {
    |t: Seq<char>| valid_composite(defs, t)
}

/// Holds of the names of invalid composites in `defs`.
pub open spec fn invalid_in(defs: Definitions) -> spec_fn(Seq<char>) -> bool {
    |t: Seq<char>| invalid_composite(defs, t)
}

/// [`failure_of`] as a function of the name.
pub open spec fn failure_in(defs: Definitions) -> spec_fn(Seq<char>) -> (Seq<char>, Seq<char>, u64) {
    |n: Seq<char>| failure_of(defs, n)
}

/// [`result_of`] as a function of the name.
pub open spec fn result_in(defs: Definitions, module: Seq<char>) -> spec_fn(Seq<char>) -> (u64, Seq<char>) {
    |n: Seq<char>| result_of(defs, module, n)
}

/// Plain-value view of a list of failures.
pub open spec fn failures_view(v: Seq<TypeDefinitionError>) -> Seq<(Seq<char>, Seq<char>, u64)> {
    v.map_values(failure_view_fn())
}

/// [`failure_view`] as a function.
pub open spec fn failure_view_fn() -> spec_fn(TypeDefinitionError) -> (Seq<char>, Seq<char>, u64) {
    |e: TypeDefinitionError| failure_view(e)
}

/// What the first pass over the definitions records, in the order the
/// definitions are visited: the plain errors (which get marker types), the
/// refused composites and the accepted composites.
pub struct Classification {
    pub markers: Vec<String>,
    pub failures: Vec<TypeDefinitionError>,
    pub results: Vec<(u64, String)>,
}


/// `module::name`, the path of a generated enum.
pub fn enum_path(module: &String, name: &String) -> (r: String)
    ensures
        r@ == module@ + "::"@ + name@,
{
    let mut s = copy_string(module);
    push_str(&mut s, "::");
    push_str(&mut s, name.as_str());
    s
}

/// The first pass over the definitions, in the order given: every plain
/// error is recorded as a marker, every
/// composite is checked; refused ones give a failure, accepted ones a result.
pub fn classify(table: &DefinitionTable, module: &String, order: &Vec<String>) -> (r: Classification)
    requires
        forall|k: int| 0 <= k < order@.len() ==> definition_table_contents(*table).contains_key(#[trigger] order@[k]@),
    ensures
        views(r.markers@) == views(order@).filter(simple_in(definition_table_contents(*table))),
        failures_view(r.failures@) == views(order@).filter(invalid_in(definition_table_contents(*table)))
            .map_values(failure_in(definition_table_contents(*table))),
        results_view(r.results@) == views(order@).filter(valid_in(definition_table_contents(*table)))
            .map_values(result_in(definition_table_contents(*table), module@)),
{
    let ghost defs = definition_table_contents(*table);
    let ghost names = views(order@);
    let mut markers: Vec<String> = Vec::new();
    let mut failures: Vec<TypeDefinitionError> = Vec::new();
    let mut results: Vec<(u64, String)> = Vec::new();
    let mut i: usize = 0;
    while i < order.len()
        invariant
            defs == definition_table_contents(*table),
            names == views(order@),
            i <= order.len(),
            forall|k: int| 0 <= k < order@.len() ==> defs.contains_key(#[trigger] order@[k]@),
            views(markers@) == names.take(i as int).filter(simple_in(defs)),
            failures_view(failures@) == names.take(i as int).filter(invalid_in(defs)).map_values(failure_in(defs)),
            results_view(results@) == names.take(i as int).filter(valid_in(defs)).map_values(result_in(defs, module@)),
        decreases order.len() - i,
    {
        let name = &order[i];
        let ghost key = name@;
        assert(names[i as int] == key);
        proof {
            lemma_filter_step(names, i as int, simple_in(defs));
            lemma_filter_step(names, i as int, invalid_in(defs));
            lemma_filter_step(names, i as int, valid_in(defs));
        }
        let def = definition_table_get(table, name).unwrap();
        match &def.ty {
            TypeDefinitionType::Simple(_) => {
                proof { lemma_views_push(markers@, *name); }
                markers.push(name.clone());
                assert(!invalid_in(defs)(key));
                assert(!valid_in(defs)(key));
            },
            TypeDefinitionType::Composite(c) => {
                let check = check_composite(table, c);
                assert(!simple_in(defs)(key));
                if check.missing_errors.len() == 0 && check.remove_asterisk.len() == 0 && check.add_asterisk.len() == 0 {
                    let entry = (c.hash, enum_path(module, name));
                    proof {
                        lemma_map_push(results@, entry, result_view_fn());
                        lemma_map_push(names.take(i as int).filter(valid_in(defs)), key, result_in(defs, module@));
                    }
                    results.push(entry);
                    assert(!invalid_in(defs)(key));
                } else {
                    let err = TypeDefinitionError::new(
                        DefinitionErrorCause::WrongErrorExpansion {
                            missing_errors: check.missing_errors,
                            remove_asterisk: check.remove_asterisk,
                            add_asterisk: check.add_asterisk,
                        },
                        c.file.clone(),
                        c.hash,
                    );
                    proof {
                        lemma_map_push(failures@, err, failure_view_fn());
                        lemma_map_push(names.take(i as int).filter(invalid_in(defs)), key, failure_in(defs));
                    }
                    failures.push(err);
                    assert(!valid_in(defs)(key));
                }
            },
        }
        i += 1;
    }
    assert(names.take(order.len() as int) =~= names);
    Classification { markers, failures, results }
}


// ---------------------------------------------------------------------------
// The dependency graph
// ---------------------------------------------------------------------------

/// `n` is a node of the dependency graph: a valid composite, or a name that
/// a valid composite lists with `*`.
pub open spec fn graph_node(defs: Definitions, n: Seq<char>) -> bool {
    valid_composite(defs, n) || exists|v: Seq<char>| valid_composite(defs, v) && #[trigger] starred_of(defs, v).contains(n)
}

/// The nodes that must come before `n`: the names a valid composite lists
/// with `*`; nothing for any other node.
pub open spec fn graph_preds(defs: Definitions, n: Seq<char>) -> Set<Seq<char>> {
    if valid_composite(defs, n) {
        starred_of(defs, n).to_set()
    } else {
        Set::empty()
    }
}

/// The dependency graph of the definitions: each node, mapped to the nodes
/// that must come before it.
pub open spec fn dependency_graph(defs: Definitions) -> Map<Seq<char>, Set<Seq<char>>> {
    Map::new(|n: Seq<char>| graph_node(defs, n), |n: Seq<char>| graph_preds(defs, n))
}

/// A nonempty set of nodes in which every node must come after another
/// node of the set: no order can satisfy the graph on it.
pub open spec fn stuck_set(g: Map<Seq<char>, Set<Seq<char>>>, s: Set<Seq<char>>) -> bool {
    &&& exists|x: Seq<char>| s.contains(x)
    &&& s.subset_of(g.dom())
    &&& forall|n: Seq<char>| #[trigger] s.contains(n) ==> exists|p: Seq<char>| g[n].contains(p) && s.contains(p)
}

/// The composites cannot be ordered: some of them expand each other in a
/// circle.
pub open spec fn has_cycle(defs: Definitions) -> bool {
    exists|s: Set<Seq<char>>| stuck_set(dependency_graph(defs), s)
}

/// `sorted` lists nodes of `g`, each after all the nodes it depends on.
pub open spec fn topologically_sorted(g: Map<Seq<char>, Set<Seq<char>>>, sorted: Seq<Seq<char>>) -> bool {
    &&& sorted.no_duplicates()
    &&& forall|k: int| 0 <= k < sorted.len() ==> g.contains_key(#[trigger] sorted[k])
    &&& forall|k: int| 0 <= k < sorted.len() ==> g[#[trigger] sorted[k]].subset_of(sorted.take(k).to_set())
}

spec fn node_upto(defs: Definitions, names: Seq<Seq<char>>, i: int, n: Seq<char>) -> bool {
    exists|k: int| 0 <= k < i && valid_composite(defs, #[trigger] names[k])
        && (names[k] == n || starred_of(defs, names[k]).contains(n))
}

spec fn graph_upto(defs: Definitions, names: Seq<Seq<char>>, i: int) -> Map<Seq<char>, Set<Seq<char>>> {
    Map::new(
        |n: Seq<char>| node_upto(defs, names, i, n),
        |n: Seq<char>| if names.take(i).contains(n) && valid_composite(defs, n) {
            starred_of(defs, n).to_set()
        } else {
            Set::empty()
        },
    )
}

spec fn graph_inner(defs: Definitions, names: Seq<Seq<char>>, i: int, deps: Seq<Seq<char>>, j: int) -> Map<Seq<char>, Set<Seq<char>>> {
    Map::new(
        |n: Seq<char>| node_upto(defs, names, i, n) || n == names[i] || deps.take(j).contains(n),
        |n: Seq<char>| if n == names[i] {
            deps.take(j).to_set()
        } else if node_upto(defs, names, i, n) {
            graph_upto(defs, names, i)[n]
        } else {
            Set::empty()
        },
    )
}

/// Builds the dependency sorter: every valid composite, after the composites
/// it lists with `*`.
fn build_graph(table: &DefinitionTable, order: &Vec<String>) -> (r: TopologicalSort<String>)
    requires
        views(order@).no_duplicates(),
        views(order@).to_set() == definition_table_contents(*table).dom(),
    ensures
        topo_dependencies(r) == dependency_graph(definition_table_contents(*table)),
{
    let ghost defs = definition_table_contents(*table);
    let ghost names = views(order@);
    let mut ts = topo_new();
    assert(topo_dependencies(ts) =~= graph_upto(defs, names, 0));
    let mut i: usize = 0;
    while i < order.len()
        invariant
            defs == definition_table_contents(*table),
            names == views(order@),
            names.no_duplicates(),
            names.to_set() == defs.dom(),
            i <= order.len(),
            topo_dependencies(ts) == graph_upto(defs, names, i as int),
        decreases order.len() - i,
    {
        let name = &order[i];
        let ghost v = name@;
        assert(names[i as int] == v);
        assert(names.to_set().contains(v));
        let def = definition_table_get(table, name).unwrap();
        if let TypeDefinitionType::Composite(c) = &def.ty {
            let check = check_composite(table, c);
            if check.missing_errors.len() == 0 && check.remove_asterisk.len() == 0 && check.add_asterisk.len() == 0 {
                assert(valid_composite(defs, v));
                let ghost deps = starred_of(defs, v);
                assert(deps == views(c.composites@));
                proof {
                    assert(!names.take(i as int).contains(v)) by {
                        if names.take(i as int).contains(v) {
                            let k = choose|k: int| 0 <= k < i && names.take(i as int)[k] == v;
                            assert(names[k] == names[i as int]);
                        }
                    }
                }
                topo_insert(&mut ts, name.clone());
                proof {
                    assert(deps.take(0) =~= Seq::<Seq<char>>::empty());
                    assert(deps.take(0).to_set() =~= Set::<Seq<char>>::empty());
                    assert forall|n: Seq<char>| !deps.take(0).contains(n) by {}
                    assert(topo_dependencies(ts) =~= graph_inner(defs, names, i as int, deps, 0));
                }
                let mut j: usize = 0;
                while j < c.composites.len()
                    invariant
                        defs == definition_table_contents(*table),
                        names == views(order@),
                        i < order.len(),
                        names[i as int] == v,
                        name@ == v,
                        !names.take(i as int).contains(v),
                        valid_composite(defs, v),
                        deps == starred_of(defs, v),
                        deps == views(c.composites@),
                        j <= c.composites.len(),
                        topo_dependencies(ts) == graph_inner(defs, names, i as int, deps, j as int),
                    decreases c.composites.len() - j,
                {
                    let ghost d = deps[j as int];
                    assert(c.composites@[j as int]@ == d);
                    let ghost m = topo_dependencies(ts);
                    let prec = c.composites[j].clone();
                    let succ = name.clone();
                    assert(prec@ == d);
                    assert(succ@ == v);
                    topo_add_dependency(&mut ts, prec, succ);
                    proof {
                        assert(deps.take(j + 1) =~= deps.take(j as int).push(d));
                        assert(deps.take(j + 1).to_set() =~= deps.take(j as int).to_set().insert(d)) by {
                            broadcast use vstd::seq_lib::group_seq_properties;
                        }
                        let t1 = deps.take(j + 1);
                        let t0 = deps.take(j as int);
                        assert forall|n: Seq<char>| t1.contains(n) == (t0.contains(n) || n == d) by {
                            if t1.contains(n) {
                                let k = choose|k: int| 0 <= k < t1.len() && t1[k] == n;
                                if k < t0.len() {
                                    assert(t0[k] == n);
                                }
                            }
                            if t0.contains(n) {
                                let k = choose|k: int| 0 <= k < t0.len() && t0[k] == n;
                                assert(t1[k] == n);
                            }
                            if n == d {
                                assert(t1[t0.len() as int] == n);
                            }
                        }
                        let target = graph_inner(defs, names, i as int, deps, j + 1);
                        let now = topo_dependencies(ts);
                        assert(m.contains_key(v));
                        let m1 = if m.contains_key(d) { m } else { m.insert(d, Set::empty()) };
                        assert(m1.contains_key(v));
                        assert(m1[v] == m[v]);
                        assert(now == topo_after_dependency(m, d, v));
                        assert(now == m1.insert(v, m1[v].insert(d)));
                        assert forall|n: Seq<char>| now.contains_key(n) == target.contains_key(n) by {
                            assert(now.contains_key(n) == (m.contains_key(n) || n == d || n == v));
                            assert(m.contains_key(n) == (node_upto(defs, names, i as int, n) || n == v || t0.contains(n)));
                        }
                        assert forall|n: Seq<char>| #[trigger] now.contains_key(n) implies now[n] == target[n] by {
                            if n == v {
                                assert(now[n] == m[v].insert(d));
                            } else if n == d {
                                if m.contains_key(d) {
                                    assert(now[n] == m[d]);
                                } else {
                                    assert(now[n] == Set::<Seq<char>>::empty());
                                    assert(!node_upto(defs, names, i as int, n));
                                }
                            } else {
                                assert(now[n] == m[n]);
                            }
                        }
                        assert(now =~= target);
                    }
                    j += 1;
                }
                proof {
                    assert(deps.take(deps.len() as int) =~= deps);
                    assert(names.take(i + 1) =~= names.take(i as int).push(v));
                    assert forall|n: Seq<char>| node_upto(defs, names, i + 1, n)
                        == (node_upto(defs, names, i as int, n) || n == v || deps.contains(n)) by {
                        if node_upto(defs, names, i + 1, n) {
                            let k = choose|k: int| 0 <= k < i + 1 && valid_composite(defs, #[trigger] names[k])
                                && (names[k] == n || starred_of(defs, names[k]).contains(n));
                            if k < i {
                            }
                        }
                        if n == v || deps.contains(n) {
                            assert(valid_composite(defs, names[i as int]));
                        }
                    }
                    assert(topo_dependencies(ts) =~= graph_upto(defs, names, i + 1)) by {
                        broadcast use vstd::seq_lib::group_seq_properties;
                    }
                }
            } else {
                proof {
                    assert(!valid_composite(defs, v));
                    assert(names.take(i + 1) =~= names.take(i as int).push(v));
                    assert forall|n: Seq<char>| node_upto(defs, names, i + 1, n) == node_upto(defs, names, i as int, n) by {
                        if node_upto(defs, names, i + 1, n) {
                            let k = choose|k: int| 0 <= k < i + 1 && valid_composite(defs, #[trigger] names[k])
                                && (names[k] == n || starred_of(defs, names[k]).contains(n));
                            assert(k != i);
                        }
                    }
                    assert(topo_dependencies(ts) =~= graph_upto(defs, names, i + 1)) by {
                        broadcast use vstd::seq_lib::group_seq_properties;
                    }
                }
            }
        } else {
            proof {
                assert(!valid_composite(defs, v));
                assert(names.take(i + 1) =~= names.take(i as int).push(v));
                assert forall|n: Seq<char>| node_upto(defs, names, i + 1, n) == node_upto(defs, names, i as int, n) by {
                    if node_upto(defs, names, i + 1, n) {
                        let k = choose|k: int| 0 <= k < i + 1 && valid_composite(defs, #[trigger] names[k])
                            && (names[k] == n || starred_of(defs, names[k]).contains(n));
                        assert(k != i);
                    }
                }
                assert(topo_dependencies(ts) =~= graph_upto(defs, names, i + 1)) by {
                    broadcast use vstd::seq_lib::group_seq_properties;
                }
            }
        }
        i += 1;
    }
    proof {
        assert(names.take(order.len() as int) =~= names);
        assert forall|n: Seq<char>| node_upto(defs, names, order.len() as int, n) == graph_node(defs, n) by {
            if graph_node(defs, n) {
                if valid_composite(defs, n) {
                    assert(names.to_set().contains(n));
                    let k = choose|k: int| 0 <= k < names.len() && names[k] == n;
                    assert(valid_composite(defs, names[k]));
                } else {
                    let w = choose|w: Seq<char>| valid_composite(defs, w) && #[trigger] starred_of(defs, w).contains(n);
                    assert(names.to_set().contains(w));
                    let k = choose|k: int| 0 <= k < names.len() && names[k] == w;
                    assert(valid_composite(defs, names[k]));
                }
            }
        }
        assert forall|n: Seq<char>| #![auto] valid_composite(defs, n) ==> names.contains(n) by {
            if valid_composite(defs, n) {
                assert(names.to_set().contains(n));
            }
        }
        assert(topo_dependencies(ts) =~= dependency_graph(defs));
    }
    ts
}


/// Pops the sorter empty or until it is stuck: every popped element comes
/// after the elements it depends on; what is left, if anything, is stuck.
fn pop_in_order(ts: &mut TopologicalSort<String>) -> (sorted: Vec<String>)
    requires
        topo_dependencies(*old(ts)).dom().finite(),
        forall|n: Seq<char>| #[trigger] topo_dependencies(*old(ts)).contains_key(n)
            ==> topo_dependencies(*old(ts))[n].subset_of(topo_dependencies(*old(ts)).dom()),
    ensures
        topologically_sorted(topo_dependencies(*old(ts)), views(sorted@)),
        forall|n: Seq<char>| #[trigger] topo_dependencies(*old(ts)).contains_key(n)
            <==> (topo_dependencies(*final(ts)).contains_key(n) || views(sorted@).contains(n)),
        forall|n: Seq<char>| #[trigger] topo_dependencies(*final(ts)).contains_key(n) ==> {
            &&& !views(sorted@).contains(n)
            &&& topo_dependencies(*final(ts))[n] != Set::<Seq<char>>::empty()
            &&& topo_dependencies(*final(ts))[n] == topo_dependencies(*old(ts))[n].difference(views(sorted@).to_set())
        },
{
    let ghost g = topo_dependencies(*ts);
    let mut sorted: Vec<String> = Vec::new();
    let mut done = false;
    proof {
        assert(views(sorted@) =~= Seq::<Seq<char>>::empty());
        assert(views(sorted@).to_set() =~= Set::<Seq<char>>::empty());
        assert forall|n: Seq<char>| #[trigger] g.contains_key(n) implies g[n] == g[n].difference(views(sorted@).to_set()) by {
            assert(g[n] =~= g[n].difference(views(sorted@).to_set()));
        }
    }
    while !done
        invariant
            g == topo_dependencies(*old(ts)),
            g.dom().finite(),
            forall|n: Seq<char>| #[trigger] g.contains_key(n) ==> g[n].subset_of(g.dom()),
            topologically_sorted(g, views(sorted@)),
            forall|n: Seq<char>| #[trigger] g.contains_key(n)
                <==> (topo_dependencies(*ts).contains_key(n) || views(sorted@).contains(n)),
            forall|n: Seq<char>| #[trigger] topo_dependencies(*ts).contains_key(n) ==> {
                &&& !views(sorted@).contains(n)
                &&& topo_dependencies(*ts)[n] == g[n].difference(views(sorted@).to_set())
            },
            done ==> forall|n: Seq<char>| #[trigger] topo_dependencies(*ts).contains_key(n)
                ==> topo_dependencies(*ts)[n] != Set::<Seq<char>>::empty(),
        decreases topo_dependencies(*ts).dom().len() + (if done { 0int } else { 1int }),
    {
        let ghost rest = topo_dependencies(*ts);
        let ghost before = views(sorted@);
        assert(rest.dom().subset_of(g.dom()));
        proof {
            vstd::set_lib::lemma_len_subset(rest.dom(), g.dom());
        }
        match topo_pop(ts) {
            Some(x) => {
                let ghost xv = x@;
                proof { lemma_views_push(sorted@, x); }
                sorted.push(x);
                let ghost after = views(sorted@);
                proof {
                    assert(after == before.push(xv));
                    assert(!before.contains(xv));
                    assert(after.to_set() =~= before.to_set().insert(xv)) by {
                        broadcast use vstd::seq_lib::group_seq_properties;
                    }
                    assert(after.take(before.len() as int) =~= before);
                    assert(g[xv].subset_of(before.to_set())) by {
                        assert forall|p: Seq<char>| g[xv].contains(p) implies before.to_set().contains(p) by {
                            if !before.to_set().contains(p) {
                                assert(rest[xv].contains(p));
                            }
                        }
                    }
                    assert forall|k: int| 0 <= k < after.len() implies g[#[trigger] after[k]].subset_of(after.take(k).to_set()) by {
                        if k < before.len() {
                            assert(after.take(k) =~= before.take(k));
                        }
                    }
                    assert(after.no_duplicates()) by {
                        assert forall|a: int, b: int| 0 <= a < b < after.len() implies after[a] != after[b] by {
                            if b == before.len() {
                                assert(before.contains(after[a]));
                            }
                        }
                    }
                    let now = topo_dependencies(*ts);
                    assert forall|n: Seq<char>| #[trigger] g.contains_key(n) <==> (now.contains_key(n) || after.contains(n)) by {
                        if after.contains(n) && !before.contains(n) {
                            let k = choose|k: int| 0 <= k < after.len() && after[k] == n;
                            if k < before.len() {
                                assert(before[k] == n);
                            }
                        }
                        if before.contains(n) {
                            let k = choose|k: int| 0 <= k < before.len() && before[k] == n;
                            assert(after[k] == n);
                        }
                        if n == xv {
                            assert(after[before.len() as int] == n);
                        }
                    }
                    assert forall|n: Seq<char>| #[trigger] now.contains_key(n) implies {
                        &&& !after.contains(n)
                        &&& now[n] == g[n].difference(after.to_set())
                    } by {
                        assert(n != xv);
                        assert(rest.contains_key(n));
                        if after.contains(n) {
                            let k = choose|k: int| 0 <= k < after.len() && after[k] == n;
                            if k < before.len() {
                                assert(before.contains(n));
                            }
                        }
                        assert(now[n] =~= g[n].difference(after.to_set()));
                    }
                    assert(now.dom() =~= rest.dom().remove(xv));
                }
            },
            None => {
                done = true;
            },
        }
    }
    sorted
}

proof fn lemma_prefix_outside_stuck(
    g: Map<Seq<char>, Set<Seq<char>>>,
    sorted: Seq<Seq<char>>,
    s: Set<Seq<char>>,
    k: int,
)
    requires
        topologically_sorted(g, sorted),
        stuck_set(g, s),
        0 <= k <= sorted.len(),
    ensures
        forall|j: int| 0 <= j < k ==> !s.contains(#[trigger] sorted[j]),
    decreases k,
{
    if k > 0 {
        lemma_prefix_outside_stuck(g, sorted, s, k - 1);
        let n = sorted[k - 1];
        if s.contains(n) {
            let p = choose|p: Seq<char>| g[n].contains(p) && s.contains(p);
            let pre = sorted.take(k - 1);
            assert(pre.to_set().contains(p));
            let j = choose|j: int| 0 <= j < pre.len() && pre[j] == p;
            assert(sorted[j] == p);
        }
    }
}

/// A graph whose every node is listed in an order that puts each node after
/// the nodes it depends on has no stuck set.
proof fn lemma_sorted_graph_not_stuck(g: Map<Seq<char>, Set<Seq<char>>>, sorted: Seq<Seq<char>>)
    requires
        topologically_sorted(g, sorted),
        forall|n: Seq<char>| #[trigger] g.contains_key(n) ==> sorted.contains(n),
    ensures
        !(exists|s: Set<Seq<char>>| stuck_set(g, s)),
{
    if exists|s: Set<Seq<char>>| stuck_set(g, s) {
        let s = choose|s: Set<Seq<char>>| stuck_set(g, s);
        lemma_prefix_outside_stuck(g, sorted, s, sorted.len() as int);
        let x = choose|x: Seq<char>| s.contains(x);
        assert(g.contains_key(x));
        let j = choose|j: int| 0 <= j < sorted.len() && sorted[j] == x;
        assert(!s.contains(sorted[j]));
    }
}


// ---------------------------------------------------------------------------
// Expansion
// ---------------------------------------------------------------------------

/// Why the definitions could not be resolved.
pub enum ResolveError {
    /// Some composites expand each other in a circle.
    CircularDependency,
    /// A composite to expand lists a name that names nothing.
    UnknownMember(String),
    /// A composite to expand lists a composite without `*`.
    CompositeMember(String),
}

/// Plain-value view of one expansion: the composite's name and the sorted
/// plain errors it holds.
pub open spec fn define_view_fn() -> spec_fn((String, Vec<String>)) -> (Seq<char>, Seq<Seq<char>>) {
    |p: (String, Vec<String>)| (p.0@, views(p.1@))
}

/// Plain-value view of a list of expansions.
pub open spec fn defines_view(v: Seq<(String, Vec<String>)>) -> Seq<(Seq<char>, Seq<Seq<char>>)> {
    v.map_values(define_view_fn())
}

/// The expansions recorded by the first `k` entries, by name.
pub open spec fn expansions_upto(dv: Seq<(Seq<char>, Seq<Seq<char>>)>, k: nat) -> Map<Seq<char>, Seq<Seq<char>>>
    decreases k,
{
    if k == 0 || k > dv.len() {
        Map::empty()
    } else {
        expansions_upto(dv, (k - 1) as nat).insert(dv[k - 1].0, dv[k - 1].1)
    }
}

/// The plain errors the composite `n` gathers from its own list and from the
/// first `jj` names it lists with `*`, where `prior` holds the expansions
/// computed before it; a starred name with no expansion yet adds nothing.
pub open spec fn members_upto(defs: Definitions, n: Seq<char>, prior: Map<Seq<char>, Seq<Seq<char>>>, jj: int) -> Set<Seq<char>> {
    Set::new(|t: Seq<char>| plain_of(defs, n).contains(t) || exists|j: int| 0 <= j < jj
        && prior.contains_key(#[trigger] starred_of(defs, n)[j]) && prior[starred_of(defs, n)[j]].contains(t))
}

/// The plain errors the composite `n` holds: the names it lists without
/// `*`, and every plain error of each composite it lists with `*` that was
/// expanded before it.
pub open spec fn expansion_members(defs: Definitions, n: Seq<char>, prior: Map<Seq<char>, Seq<Seq<char>>>) -> Set<Seq<char>> {
    members_upto(defs, n, prior, starred_of(defs, n).len() as int)
}

/// Entry `k` of the expansions is right: its list is sorted without
/// repetition and holds exactly the plain errors of its composite.
pub open spec fn expansion_entry_ok(defs: Definitions, dv: Seq<(Seq<char>, Seq<Seq<char>>)>, k: int) -> bool {
    &&& strictly_sorted(dv[k].1)
    &&& dv[k].1.to_set() == expansion_members(defs, dv[k].0, expansions_upto(dv, k as nat))
    &&& forall|t: Seq<char>| #[trigger] dv[k].1.contains(t) ==> has_simple(defs, t)
}

/// Every name the composite `n` lists without `*` names a plain error.
pub open spec fn plain_names_defined(defs: Definitions, n: Seq<char>) -> bool {
    forall|j: int| 0 <= j < plain_of(defs, n).len() ==> has_simple(defs, #[trigger] plain_of(defs, n)[j])
}

/// A copy of a list of strings.
pub fn copy_strings(v: &Vec<String>) -> (r: Vec<String>)
    ensures
        r@ == v@,
{
    let mut r: Vec<String> = Vec::new();
    let mut i: usize = 0;
    while i < v.len()
        invariant
            i <= v.len(),
            r@ == v@.take(i as int),
        decreases v.len() - i,
    {
        r.push(v[i].clone());
        assert(r@ =~= v@.take(i + 1));
        i += 1;
    }
    assert(v@.take(v.len() as int) =~= v@);
    r
}

proof fn lemma_expansions_upto_push(dv: Seq<(Seq<char>, Seq<Seq<char>>)>, x: (Seq<char>, Seq<Seq<char>>), k: nat)
    requires
        k <= dv.len(),
    ensures
        expansions_upto(dv.push(x), k) == expansions_upto(dv, k),
    decreases k,
{
    if k > 0 {
        lemma_expansions_upto_push(dv, x, (k - 1) as nat);
    }
}

/// Expands the composites in the order given, each from the expansions of
/// the composites it lists with `*` that come before it.
fn expand_in_order(table: &DefinitionTable, sorted: &Vec<String>) -> (r: Result<Vec<(String, Vec<String>)>, ResolveError>)
    requires
        forall|k: int| 0 <= k < sorted@.len() ==> has_composite(definition_table_contents(*table), #[trigger] sorted@[k]@),
    ensures
        r matches Ok(defines) ==> {
            &&& defines@.len() == sorted@.len()
            &&& forall|k: int| 0 <= k < sorted@.len() ==> (#[trigger] defines_view(defines@)[k]).0 == sorted@[k]@
            &&& forall|k: int| 0 <= k < sorted@.len() ==> #[trigger] expansion_entry_ok(definition_table_contents(*table), defines_view(defines@), k)
            &&& forall|k: int| 0 <= k < sorted@.len() ==> plain_names_defined(definition_table_contents(*table), #[trigger] sorted@[k]@)
        },
        r is Err ==> exists|k: int| 0 <= k < sorted@.len() && !plain_names_defined(definition_table_contents(*table), #[trigger] sorted@[k]@),
        !(r matches Err(ResolveError::CircularDependency)),
{
    let ghost defs = definition_table_contents(*table);
    let mut expansions = expansion_table_new();
    let mut defines: Vec<(String, Vec<String>)> = Vec::new();
    proof {
        assert(expansion_table_contents(expansions) =~= expansions_upto(defines_view(defines@), 0));
    }
    let mut k: usize = 0;
    while k < sorted.len()
        invariant
            defs == definition_table_contents(*table),
            forall|i: int| 0 <= i < sorted@.len() ==> has_composite(defs, #[trigger] sorted@[i]@),
            k <= sorted.len(),
            defines@.len() == k,
            expansion_table_contents(expansions) == expansions_upto(defines_view(defines@), k as nat),
            forall|i: int| 0 <= i < k ==> (#[trigger] defines_view(defines@)[i]).0 == sorted@[i]@,
            forall|i: int| 0 <= i < k ==> #[trigger] expansion_entry_ok(defs, defines_view(defines@), i),
            forall|i: int| 0 <= i < k ==> plain_names_defined(defs, #[trigger] sorted@[i]@),
            forall|m: Seq<char>| #[trigger] expansions_upto(defines_view(defines@), k as nat).contains_key(m) ==>
                forall|t: Seq<char>| #[trigger] expansions_upto(defines_view(defines@), k as nat)[m].contains(t) ==> has_simple(defs, t),
        decreases sorted.len() - k,
    {
        let name = &sorted[k];
        let ghost n = name@;
        let ghost dv = defines_view(defines@);
        let ghost prior = expansions_upto(dv, k as nat);
        assert(has_composite(defs, n));
        let def = definition_table_get(table, name).unwrap();
        let c = match &def.ty {
            TypeDefinitionType::Composite(c) => c,
            TypeDefinitionType::Simple(_) => {
                proof { assert(false); }
                return Err(ResolveError::UnknownMember(name.clone()));
            },
        };
        assert(plain_of(defs, n) == views(c.types@));
        assert(starred_of(defs, n) == views(c.composites@));
        let mut all = copy_strings(&c.types);
        proof {
            assert forall|t: Seq<char>| views(all@).to_set().contains(t) == members_upto(defs, n, prior, 0).contains(t) by {}
            assert(views(all@).to_set() =~= members_upto(defs, n, prior, 0));
        }
        let mut j: usize = 0;
        while j < c.composites.len()
            invariant
                defs == definition_table_contents(*table),
                starred_of(defs, n) == views(c.composites@),
                prior == expansion_table_contents(expansions),
                j <= c.composites.len(),
                views(all@).to_set() == members_upto(defs, n, prior, j as int),
            decreases c.composites.len() - j,
        {
            let ghost before = views(all@);
            match expansion_table_get(&expansions, &c.composites[j]) {
                Some(v) => {
                    let mut q: usize = 0;
                    while q < v.len()
                        invariant
                            q <= v.len(),
                            views(all@) == before + views(v@).take(q as int),
                        decreases v.len() - q,
                    {
                        proof { lemma_views_push(all@, v@[q as int]); }
                        all.push(v[q].clone());
                        assert(views(all@) =~= before + views(v@).take(q + 1));
                        q += 1;
                    }
                    proof {
                        assert(views(v@).take(v.len() as int) =~= views(v@));
                        let key = starred_of(defs, n)[j as int];
                        assert(key == c.composites@[j as int]@);
                        assert forall|t: Seq<char>| views(all@).to_set().contains(t)
                            == members_upto(defs, n, prior, j + 1).contains(t) by {
                            if views(all@).contains(t) {
                                let i = choose|i: int| 0 <= i < views(all@).len() && views(all@)[i] == t;
                                if i < before.len() {
                                    assert(before.contains(t));
                                    assert(before.to_set().contains(t));
                                } else {
                                    assert(views(v@)[i - before.len()] == t);
                                    assert(prior[key].contains(t));
                                }
                            }
                            if members_upto(defs, n, prior, j + 1).contains(t) {
                                if members_upto(defs, n, prior, j as int).contains(t) {
                                    assert(before.to_set().contains(t));
                                    let i = choose|i: int| 0 <= i < before.len() && before[i] == t;
                                    assert(views(all@)[i] == t);
                                } else if !plain_of(defs, n).contains(t) {
                                    let jj = choose|jj: int| 0 <= jj < j + 1
                                        && prior.contains_key(#[trigger] starred_of(defs, n)[jj])
                                        && prior[starred_of(defs, n)[jj]].contains(t);
                                    assert(jj == j);
                                    let i = choose|i: int| 0 <= i < views(v@).len() && views(v@)[i] == t;
                                    assert(views(all@)[before.len() + i] == t);
                                } else {
                                    assert(members_upto(defs, n, prior, j as int).contains(t));
                                }
                            }
                        }
                        assert(views(all@).to_set() =~= members_upto(defs, n, prior, j + 1));
                    }
                },
                None => {
                    proof {
                        let key = starred_of(defs, n)[j as int];
                        assert(key == c.composites@[j as int]@);
                        assert forall|t: Seq<char>| members_upto(defs, n, prior, j as int).contains(t)
                            == members_upto(defs, n, prior, j + 1).contains(t) by {
                            if members_upto(defs, n, prior, j + 1).contains(t) && !plain_of(defs, n).contains(t) {
                                let jj = choose|jj: int| 0 <= jj < j + 1
                                    && prior.contains_key(#[trigger] starred_of(defs, n)[jj])
                                    && prior[starred_of(defs, n)[jj]].contains(t);
                                assert(jj != j);
                            }
                        }
                        assert(members_upto(defs, n, prior, j as int) =~= members_upto(defs, n, prior, j + 1));
                    }
                },
            }
            j += 1;
        }
        let uniq = sorted_unique(&all);
        assert(views(uniq@).to_set() == expansion_members(defs, n, prior));
        let mut q: usize = 0;
        while q < uniq.len()
            invariant
                defs == definition_table_contents(*table),
                q <= uniq.len(),
                forall|i: int| 0 <= i < q ==> has_simple(defs, #[trigger] views(uniq@)[i]),
                views(uniq@).to_set() == expansion_members(defs, n, prior),
                k < sorted@.len(),
                sorted@[k as int]@ == n,
                forall|m: Seq<char>| #[trigger] prior.contains_key(m) ==>
                    forall|t: Seq<char>| #[trigger] prior[m].contains(t) ==> has_simple(defs, t),
            decreases uniq.len() - q,
        {
            match definition_table_get(table, &uniq[q]) {
                None => {
                    proof {
                        lemma_member_blames_plain(defs, n, prior, uniq@[q as int]@, views(uniq@), q as int);
                        assert(!plain_names_defined(defs, sorted@[k as int]@));
                    }
                    return Err(ResolveError::UnknownMember(uniq[q].clone()));
                },
                Some(d) => {
                    match &d.ty {
                        TypeDefinitionType::Composite(_) => {
                            proof {
                                lemma_member_blames_plain(defs, n, prior, uniq@[q as int]@, views(uniq@), q as int);
                                assert(!plain_names_defined(defs, sorted@[k as int]@));
                            }
                            return Err(ResolveError::CompositeMember(uniq[q].clone()));
                        },
                        TypeDefinitionType::Simple(_) => {},
                    }
                },
            }
            q += 1;
        }
        let ghost entry = (n, views(uniq@));
        proof {
            assert forall|j: int| 0 <= j < plain_of(defs, n).len() implies has_simple(defs, #[trigger] plain_of(defs, n)[j]) by {
                let t = plain_of(defs, n)[j];
                assert(members_upto(defs, n, prior, 0).contains(t));
                assert(expansion_members(defs, n, prior).contains(t));
                assert(views(uniq@).to_set().contains(t));
                let i = choose|i: int| 0 <= i < views(uniq@).len() && views(uniq@)[i] == t;
            }
        }
        expansion_table_insert(&mut expansions, name.clone(), copy_strings(&uniq));
        let pair = (name.clone(), uniq);
        proof {
            lemma_map_push(defines@, pair, define_view_fn());
        }
        defines.push(pair);
        proof {
            let ndv = defines_view(defines@);
            assert(ndv == dv.push(entry));
            lemma_expansions_upto_push(dv, entry, k as nat);
            assert(expansions_upto(ndv, (k + 1) as nat) == prior.insert(n, views(pair.1@)));
            assert forall|i: int| 0 <= i < k + 1 implies #[trigger] expansion_entry_ok(defs, ndv, i) by {
                if i < k {
                    assert(ndv[i] == dv[i]);
                    lemma_expansions_upto_push(dv, entry, i as nat);
                    assert(expansion_entry_ok(defs, dv, i));
                } else {
                    assert(ndv[i] == entry);
                    assert forall|t: Seq<char>| #[trigger] entry.1.contains(t) implies has_simple(defs, t) by {
                        let i2 = choose|i2: int| 0 <= i2 < entry.1.len() && entry.1[i2] == t;
                    }
                }
            }
            assert forall|i: int| 0 <= i < k + 1 implies (#[trigger] ndv[i]).0 == sorted@[i]@ by {
                if i < k {
                    assert(ndv[i] == dv[i]);
                }
            }
            let nexp = expansions_upto(ndv, (k + 1) as nat);
            assert forall|m: Seq<char>| #[trigger] nexp.contains_key(m) implies
                (forall|t: Seq<char>| #[trigger] nexp[m].contains(t) ==> has_simple(defs, t)) by {
                if m == n {
                    assert forall|t: Seq<char>| #[trigger] nexp[m].contains(t) implies has_simple(defs, t) by {
                        let i2 = choose|i2: int| 0 <= i2 < entry.1.len() && entry.1[i2] == t;
                    }
                } else {
                    assert(prior.contains_key(m));
                }
            }
        }
        k += 1;
    }
    Ok(defines)
}

/// A member of an expansion that is not a plain error can only come from
/// the composite's own list, since earlier expansions hold plain errors only.
proof fn lemma_member_blames_plain(
    defs: Definitions,
    n: Seq<char>,
    prior: Map<Seq<char>, Seq<Seq<char>>>,
    t: Seq<char>,
    uniq: Seq<Seq<char>>,
    q: int,
)
    requires
        0 <= q < uniq.len(),
        uniq[q] == t,
        uniq.to_set() == expansion_members(defs, n, prior),
        !has_simple(defs, t),
        forall|m: Seq<char>| #[trigger] prior.contains_key(m) ==>
            forall|x: Seq<char>| #[trigger] prior[m].contains(x) ==> has_simple(defs, x),
    ensures
        !plain_names_defined(defs, n),
{
    assert(uniq.to_set().contains(t));
    if !plain_of(defs, n).contains(t) {
        let jj = choose|jj: int| 0 <= jj < starred_of(defs, n).len()
            && prior.contains_key(#[trigger] starred_of(defs, n)[jj])
            && prior[starred_of(defs, n)[jj]].contains(t);
        let key = starred_of(defs, n)[jj];
        assert(prior[key].contains(t));
    } else {
        let j = choose|j: int| 0 <= j < plain_of(defs, n).len() && plain_of(defs, n)[j] == t;
        assert(!has_simple(defs, plain_of(defs, n)[j]));
    }
}


// ---------------------------------------------------------------------------
// The whole resolution
// ---------------------------------------------------------------------------

/// Every node of the dependency graph lists only plain errors without `*`,
/// so that every expansion consists of plain errors.
pub open spec fn expandable(defs: Definitions) -> bool {
    forall|n: Seq<char>| #[trigger] graph_node(defs, n) ==> plain_names_defined(defs, n)
}

/// Every node of the dependency graph is a defined composite.
pub proof fn lemma_graph_nodes_are_composites(defs: Definitions, n: Seq<char>)
    requires
        graph_node(defs, n),
    ensures
        has_composite(defs, n),
{
    if !valid_composite(defs, n) {
        let v = choose|v: Seq<char>| valid_composite(defs, v) && #[trigger] starred_of(defs, v).contains(n);
        let c = composite_part(defs[v]);
        let j = choose|j: int| 0 <= j < starred_of(defs, v).len() && starred_of(defs, v)[j] == n;
        assert(views(c.composites@)[j] == n);
        if !defs.contains_key(n) {
            views(c.composites@).lemma_filter_contains(undefined_in(defs), j);
            assert(views(c.composites@).filter(undefined_in(defs)).len() > 0);
            assert(missing_names(defs, c).len() > 0);
        } else if has_simple(defs, n) {
            views(c.composites@).lemma_filter_contains(simple_in(defs), j);
        }
    }
}

/// What the generator computes from the collected definitions before it
/// writes anything: the order it visits them in, what that visit records,
/// the order of the accepted composites and their expansions.
pub struct Resolution {
    pub order: Vec<String>,
    pub classification: Classification,
    pub sorted: Vec<String>,
    pub defines: Vec<(String, Vec<String>)>,
}

/// `res` is the resolution of the definitions `defs`: the names in the
/// order visited (each once), what the first pass records in that order,
/// the accepted composites with the composites they expand, each after the
/// composites it expands, and the expansion of each.
pub open spec fn resolution_correct(defs: Definitions, module: Seq<char>, res: Resolution) -> bool {
    let names = views(res.order@);
    &&& names.no_duplicates()
    &&& names.to_set() == defs.dom()
    &&& views(res.classification.markers@) == names.filter(simple_in(defs))
    &&& failures_view(res.classification.failures@) == names.filter(invalid_in(defs)).map_values(failure_in(defs))
    &&& results_view(res.classification.results@) == names.filter(valid_in(defs)).map_values(result_in(defs, module))
    &&& topologically_sorted(dependency_graph(defs), views(res.sorted@))
    &&& forall|n: Seq<char>| #[trigger] graph_node(defs, n) <==> views(res.sorted@).contains(n)
    &&& res.defines@.len() == res.sorted@.len()
    &&& forall|k: int| 0 <= k < res.sorted@.len() ==> (#[trigger] defines_view(res.defines@)[k]).0 == res.sorted@[k]@
    &&& forall|k: int| 0 <= k < res.sorted@.len() ==> #[trigger] expansion_entry_ok(defs, defines_view(res.defines@), k)
}

/// Resolves the definitions of a table: checks every composite, orders the
/// accepted ones after the composites they expand, and expands each into the
/// sorted list of the plain errors it holds.
pub fn resolve(table: &DefinitionTable, module: &String) -> (r: Result<Resolution, ResolveError>)
    ensures
        (r matches Err(ResolveError::CircularDependency)) <==> has_cycle(definition_table_contents(*table)),
        r is Ok <==> (!has_cycle(definition_table_contents(*table)) && expandable(definition_table_contents(*table))),
        r matches Ok(res) ==> resolution_correct(definition_table_contents(*table), module@, res),
{
    let ghost defs = definition_table_contents(*table);
    let order = definition_table_keys(table);
    proof {
        assert forall|k: int| 0 <= k < order@.len() implies defs.contains_key(#[trigger] order@[k]@) by {
            assert(views(order@)[k] == order@[k]@);
            assert(views(order@).to_set().contains(order@[k]@));
        }
    }
    let classification = classify(table, module, &order);
    let mut ts = build_graph(table, &order);
    let ghost g = dependency_graph(defs);
    proof {
        assert(g.dom().subset_of(defs.dom())) by {
            assert forall|n: Seq<char>| g.dom().contains(n) implies defs.dom().contains(n) by {
                lemma_graph_nodes_are_composites(defs, n);
            }
        }
        broadcast use vstd::seq_lib::group_seq_properties;
        vstd::set_lib::lemma_set_subset_finite(defs.dom(), g.dom());
        assert forall|n: Seq<char>| #[trigger] g.contains_key(n) implies g[n].subset_of(g.dom()) by {
            if valid_composite(defs, n) {
                assert forall|p: Seq<char>| g[n].contains(p) implies g.dom().contains(p) by {
                    assert(starred_of(defs, n).contains(p));
                }
            }
        }
    }
    let sorted = pop_in_order(&mut ts);
    if !topo_is_empty(&ts) {
        proof {
            let rest = topo_dependencies(ts);
            assert(rest.dom() != Set::<Seq<char>>::empty());
            assert(exists|x: Seq<char>| rest.dom().contains(x)) by {
                if !(exists|x: Seq<char>| rest.dom().contains(x)) {
                    assert(rest.dom() =~= Set::<Seq<char>>::empty());
                }
            }
            assert(stuck_set(g, rest.dom())) by {
                assert forall|n: Seq<char>| #[trigger] rest.dom().contains(n) implies exists|p: Seq<char>| g[n].contains(p) && rest.dom().contains(p) by {
                    assert(rest[n] != Set::<Seq<char>>::empty());
                    assert(exists|p: Seq<char>| rest[n].contains(p)) by {
                        if !(exists|p: Seq<char>| rest[n].contains(p)) {
                            assert(rest[n] =~= Set::<Seq<char>>::empty());
                        }
                    }
                    let p = choose|p: Seq<char>| rest[n].contains(p);
                    assert(rest[n] == g[n].difference(views(sorted@).to_set()));
                    assert(g[n].contains(p));
                    assert(!views(sorted@).to_set().contains(p));
                    assert(g.contains_key(p));
                    if !rest.contains_key(p) {
                        assert(views(sorted@).contains(p));
                    }
                }
            }
        }
        return Err(ResolveError::CircularDependency);
    }
    proof {
        assert forall|n: Seq<char>| #[trigger] g.contains_key(n) implies views(sorted@).contains(n) by {
            assert(!topo_dependencies(ts).dom().contains(n));
        }
        lemma_sorted_graph_not_stuck(g, views(sorted@));
        assert forall|k: int| 0 <= k < sorted@.len() implies has_composite(defs, #[trigger] sorted@[k]@) by {
            assert(views(sorted@)[k] == sorted@[k]@);
            lemma_graph_nodes_are_composites(defs, sorted@[k]@);
        }
    }
    match expand_in_order(table, &sorted) {
        Ok(defines) => {
            proof {
                assert forall|n: Seq<char>| #[trigger] graph_node(defs, n) implies plain_names_defined(defs, n) by {
                    assert(g.contains_key(n));
                    let k = choose|k: int| 0 <= k < views(sorted@).len() && views(sorted@)[k] == n;
                    assert(sorted@[k]@ == n);
                }
                assert forall|n: Seq<char>| #[trigger] graph_node(defs, n) <==> views(sorted@).contains(n) by {
                    if views(sorted@).contains(n) {
                        let k = choose|k: int| 0 <= k < views(sorted@).len() && views(sorted@)[k] == n;
                        assert(g.contains_key(views(sorted@)[k]));
                    }
                    if graph_node(defs, n) {
                        assert(g.contains_key(n));
                    }
                }
            }
            Ok(Resolution { order, classification, sorted, defines })
        },
        Err(e) => {
            proof {
                let k = choose|k: int| 0 <= k < sorted@.len() && !plain_names_defined(defs, #[trigger] sorted@[k]@);
                assert(views(sorted@)[k] == sorted@[k]@);
                assert(graph_node(defs, sorted@[k]@));
            }
            Err(e)
        },
    }
}

} // verus!
