//! Facts about the library as a whole: what an expanded error enum holds,
//! how the helper macros split errors, and where the attribute macros and
//! the generator meet.

use vstd::prelude::*;
use crate::resolve::{
    Definitions, has_composite, invalid_composite, composite_part, expansion_message, results_view,
    failures_view, valid_in, invalid_in, result_in, result_of, failure_in, failure_of, Resolution, resolution_correct, defines_view, expansions_upto, expansion_members,
    members_upto, expansion_entry_ok, starred_of, valid_composite, dependency_graph, graph_preds,
    topologically_sorted,
};
use crate::order::{lemma_strictly_sorted_unique, lemma_lex_irreflexive, strictly_sorted};
use crate::paths::{PathView, paths_view};
use crate::macros::{not_in, FnErrorStep, step_matches};
use crate::lists::lemma_dedup_distinct_same_entries;
use crate::signature::{TypeModel, type_path_ident, impl_prefix_of};
use crate::marking::skerry_impl_prefix;
use crate::scanner::prefix_text;
use crate::hashing::normalized_signature;
use crate::text::{views, seq_join, decimal, digit_char};
use crate::definitions::{
    DefinitionErrorCause, cause_message, expansion_lines,
    SimpleFields, expansion_text, def_text, unnamed_binders, named_binders, unnamed_types, named_types,
};
use crate::writer::{
    VariantsView, from_global_piece, to_global_piece, WrittenResult, define_text, concat_over, bound_piece,
    contains_bound, variant_piece, contains_piece,
};
use crate::scanner::module_stack_of;
use crate::berrors::error_type_lists;
use crate::tokens::{TokenTree, is_punct, is_any_ident, ident_name, inner_errors_spec, inner_errors_from, inner_after_item};
use crate::items::{ItemModel, FieldsModel, attr_position};
use crate::marking::from_structs_from;
use crate::marking::{expansion_path, invoke_outcome};
use crate::generate::{accepted_entry, failure_entry, generated_text, expansion_variants};

verus! {

/// No generated enum lists a variant twice.
pub proof fn lemma_generated_enum_distinct(defs: Definitions, module: Seq<char>, res: Resolution, k: int)
    requires
        resolution_correct(defs, module, res),
        0 <= k < res.defines@.len(),
    ensures
        defines_view(res.defines@)[k].1.no_duplicates(),
{
    let dv = defines_view(res.defines@);
    assert(expansion_entry_ok(defs, dv, k));
    let s = dv[k].1;
    assert forall|a: int, b: int| 0 <= a < s.len() && 0 <= b < s.len() && a != b implies s[a] != s[b] by {
        if a < b {
            assert(crate::order::lex_lt(s[a], s[b]));
        } else {
            assert(crate::order::lex_lt(s[b], s[a]));
        }
        lemma_lex_irreflexive(s[a]);
    }
}

/// Two composites that hold the same plain errors, whether written out or
/// pulled in with `*`, get the same enum: `*` is only a shorthand.
pub proof fn lemma_same_errors_same_enum(defs: Definitions, module: Seq<char>, res: Resolution, k1: int, k2: int)
    requires
        resolution_correct(defs, module, res),
        0 <= k1 < res.defines@.len(),
        0 <= k2 < res.defines@.len(),
        expansion_members(defs, defines_view(res.defines@)[k1].0, expansions_upto(defines_view(res.defines@), k1 as nat))
            == expansion_members(defs, defines_view(res.defines@)[k2].0, expansions_upto(defines_view(res.defines@), k2 as nat)),
    ensures
        defines_view(res.defines@)[k1].1 == defines_view(res.defines@)[k2].1,
{
    let dv = defines_view(res.defines@);
    assert(expansion_entry_ok(defs, dv, k1));
    assert(expansion_entry_ok(defs, dv, k2));
    lemma_strictly_sorted_unique(dv[k1].1, dv[k2].1);
}

/// The expansion recorded at entry `j` is still the one known by name at a
/// later entry `k`, when no entry in between has the same name.
proof fn lemma_expansions_upto_lookup(dv: Seq<(Seq<char>, Seq<Seq<char>>)>, k: nat, j: int)
    requires
        0 <= j < k <= dv.len(),
        forall|i: int| j < i < k ==> (#[trigger] dv[i]).0 != dv[j].0,
    ensures
        expansions_upto(dv, k).contains_key(dv[j].0),
        expansions_upto(dv, k)[dv[j].0] == dv[j].1,
    decreases k,
{
    if k > j + 1 {
        lemma_expansions_upto_lookup(dv, (k - 1) as nat, j);
        assert(dv[k - 1].0 != dv[j].0);
    }
}

/// A composite that lists another with `*` comes after it and holds every
/// plain error of it.
pub proof fn lemma_star_pulls_in_errors(defs: Definitions, module: Seq<char>, res: Resolution, j: int, k: int)
    requires
        resolution_correct(defs, module, res),
        0 <= j < res.sorted@.len(),
        0 <= k < res.sorted@.len(),
        valid_composite(defs, res.sorted@[k]@),
        starred_of(defs, res.sorted@[k]@).contains(res.sorted@[j]@),
    ensures
        j < k,
        forall|t: Seq<char>| #[trigger] defines_view(res.defines@)[j].1.contains(t)
            ==> defines_view(res.defines@)[k].1.contains(t),
{
    let dv = defines_view(res.defines@);
    let sorted = views(res.sorted@);
    let n = res.sorted@[k]@;
    let m = res.sorted@[j]@;
    assert(sorted[k] == n && sorted[j] == m);
    assert(topologically_sorted(dependency_graph(defs), sorted));
    assert(dependency_graph(defs)[sorted[k]] == graph_preds(defs, n));
    assert(graph_preds(defs, n) == starred_of(defs, n).to_set());
    assert(starred_of(defs, n).to_set().contains(m));
    assert(sorted.take(k).to_set().contains(m));
    let i = choose|i: int| 0 <= i < sorted.take(k).len() && sorted.take(k)[i] == m;
    assert(sorted[i] == sorted[j]);
    assert(i == j);
    assert(dv[j].0 == m);
    assert(dv[k].0 == n);
    assert forall|i: int| j < i < k implies (#[trigger] dv[i]).0 != dv[j].0 by {
        assert(dv[i].0 == res.sorted@[i]@);
        assert(sorted[i] != sorted[j]);
    }
    lemma_expansions_upto_lookup(dv, k as nat, j);
    let prior = expansions_upto(dv, k as nat);
    assert(expansion_entry_ok(defs, dv, k));
    let jj = choose|jj: int| 0 <= jj < starred_of(defs, n).len() && starred_of(defs, n)[jj] == m;
    assert forall|t: Seq<char>| #[trigger] dv[j].1.contains(t) implies dv[k].1.contains(t) by {
        assert(prior.contains_key(starred_of(defs, n)[jj]) && prior[starred_of(defs, n)[jj]].contains(t));
        assert(members_upto(defs, n, prior, starred_of(defs, n).len() as int).contains(t));
        assert(dv[k].1.to_set().contains(t));
    }
}

/// `impl_missing_converts!` splits the errors of the global enum: each is
/// either held by the enum or among those it still needs, never both.
pub proof fn lemma_missing_converts_partition(source: Seq<PathView>, remove: Seq<PathView>)
    ensures
        forall|p: PathView| source.contains(p) ==> remove.contains(p) || #[trigger] source.filter(not_in(remove)).contains(p),
        forall|p: PathView| #[trigger] source.filter(not_in(remove)).contains(p) ==> source.contains(p) && !remove.contains(p),
{
    broadcast use vstd::seq_lib::group_filter_ensures;
    assert forall|p: PathView| source.contains(p) implies remove.contains(p) || #[trigger] source.filter(not_in(remove)).contains(p) by {
        if !remove.contains(p) {
            let i = choose|i: int| 0 <= i < source.len() && source[i] == p;
            assert(not_in(remove)(source[i]));
        }
    }
    assert forall|p: PathView| #[trigger] source.filter(not_in(remove)).contains(p) implies source.contains(p) && !remove.contains(p) by {
        let i = choose|i: int| 0 <= i < source.filter(not_in(remove)).len() && source.filter(not_in(remove))[i] == p;
        assert(not_in(remove)(source.filter(not_in(remove))[i]));
        source.lemma_filter_contains_rev(not_in(remove), p);
    }
}

/// For a method of an impl block whose type is a single identifier,
/// `#[skerry]` and the generator hash the signature under the same key: the
/// generator finds the type's name as the block's prefix, as the attribute
/// does.
pub proof fn lemma_impl_keys_agree(self_ty: TypeModel, block_prefix: String, sig_text: Seq<char>)
    requires
        type_path_ident(self_ty) is Some,
        block_prefix@ == impl_prefix_of(self_ty),
    ensures
        normalized_signature(skerry_impl_prefix(self_ty), sig_text)
            == normalized_signature(prefix_text(seq![block_prefix]), sig_text),
{
    assert(views(seq![block_prefix]) =~= seq![block_prefix@]);
    assert(seq_join(seq![block_prefix@], Seq::empty()) == block_prefix@);
}

/// The enum planned by the last expansion step holds no error twice (two
/// errors are the same when their paths are), whatever repeats its list had.
pub proof fn lemma_step_errors_distinct(st: FnErrorStep, ty: Seq<char>, f: Seq<char>, ps: Seq<PathView>)
    requires
        step_matches(st, ty, f, ps),
    ensures
        paths_view(st.errors@).no_duplicates(),
        forall|p: PathView| #[trigger] paths_view(st.errors@).contains(p) <==> ps.contains(p),
{
    lemma_dedup_distinct_same_entries(ps);
}

/// An entry `x` of a list is mapped to `f(x)` in the mapped list.
proof fn lemma_map_contains<A, B>(s: Seq<A>, x: A, f: spec_fn(A) -> B)
    requires
        s.contains(x),
    ensures
        s.map_values(f).contains(f(x)),
{
    let i = choose|i: int| 0 <= i < s.len() && s[i] == x;
    assert(s.map_values(f)[i] == f(x));
}

/// An entry of a list that passes the filter is in the filtered list.
proof fn lemma_filter_keeps<A>(s: Seq<A>, x: A, p: spec_fn(A) -> bool)
    requires
        s.contains(x),
        p(x),
    ensures
        s.filter(p).contains(x),
{
    let i = choose|i: int| 0 <= i < s.len() && s[i] == x;
    s.lemma_filter_contains(p, i);
}

/// Every composite gets a stored result under its signature's hash: the
/// path of its enum when its list is valid, the message explaining its list
/// when it is not. (`stored` is the generator's stored results, in the form
/// [`crate::scanner::SkerryScanner::finish`] gives them.)
pub proof fn lemma_every_composite_gets_a_result(
    defs: Definitions,
    module: Seq<char>,
    res: Resolution,
    scan_failures: Seq<(Seq<char>, Seq<char>, u64)>,
    tail: Seq<(Seq<char>, (int, Seq<char>, Seq<char>))>,
    n: Seq<char>,
)
    requires
        resolution_correct(defs, module, res),
        has_composite(defs, n),
    ensures
        ({
            let stored = results_view(res.classification.results@).map_values(accepted_entry())
                + (scan_failures + failures_view(res.classification.failures@)).map_values(failure_entry())
                + tail;
            let c = composite_part(defs[n]);
            &&& valid_composite(defs, n) ==> stored.contains(
                (decimal(c.hash as nat), (0int, module + "::"@ + n, Seq::<char>::empty())))
            &&& invalid_composite(defs, n) ==> stored.contains(
                (decimal(c.hash as nat), (2int, expansion_message(defs, c), Seq::<char>::empty())))
        }),
{
    let names = views(res.order@);
    let accepted = results_view(res.classification.results@).map_values(accepted_entry());
    let refused = (scan_failures + failures_view(res.classification.failures@)).map_values(failure_entry());
    let stored = accepted + refused + tail;
    let c = composite_part(defs[n]);
    assert(names.to_set().contains(n));
    assert(names.contains(n));
    if valid_composite(defs, n) {
        lemma_filter_keeps(names, n, valid_in(defs));
        lemma_map_contains(names.filter(valid_in(defs)), n, result_in(defs, module));
        lemma_map_contains(results_view(res.classification.results@), result_of(defs, module, n), accepted_entry());
        let i = choose|i: int| 0 <= i < accepted.len() && accepted[i] == accepted_entry()(result_of(defs, module, n));
        assert(stored[i] == accepted[i]);
    }
    if invalid_composite(defs, n) {
        lemma_filter_keeps(names, n, invalid_in(defs));
        lemma_map_contains(names.filter(invalid_in(defs)), n, failure_in(defs));
        let f = failure_of(defs, n);
        let fails = failures_view(res.classification.failures@);
        let j = choose|j: int| 0 <= j < fails.len() && fails[j] == f;
        assert((scan_failures + fails)[scan_failures.len() + j] == f);
        lemma_map_contains(scan_failures + fails, f, failure_entry());
        let i = choose|i: int| 0 <= i < refused.len() && refused[i] == failure_entry()(f);
        assert(stored[accepted.len() + i] == refused[i]);
    }
}


// ---------------------------------------------------------------------------
// The conversions of a generated enum
// ---------------------------------------------------------------------------

/// A `match` arm that turns the variant `name` of `from` into the variant
/// `name` of `to`, binding the fields with `pattern` on both sides.
pub open spec fn match_arm(from: Seq<char>, to: Seq<char>, name: Seq<char>, pattern: Seq<char>) -> Seq<char> {
    from + "::"@ + name + pattern + " => "@ + to + "::"@ + name + pattern + ",\n"@
}

/// The two conversions written for a generated enum `ty` undo each other
/// variant by variant: the arm of `From<E> for ty` for a variant takes the
/// global enum's variant to the enum's variant of the same name with the
/// same fields, and the arm of `From<ty>` for the global enum is that arm
/// with its two sides swapped.
pub proof fn lemma_conversions_mirror(g: Seq<char>, ty: Seq<char>, vs: VariantsView, i: int)
    requires
        0 <= i < vs.len(),
    ensures
        from_global_piece(g, ty, vs)(i) == match_arm(g, ty, vs[i].0, expansion_text(vs[i].1)),
        to_global_piece(g, ty, vs)(i) == match_arm(ty, g, vs[i].0, expansion_text(vs[i].1)),
{
}

// ---------------------------------------------------------------------------
// The two texts of a variant's fields
// ---------------------------------------------------------------------------

/// The number of commas in a text.
pub open spec fn commas(s: Seq<char>) -> nat
    decreases s.len(),
{
    if s.len() == 0 {
        0
    } else {
        commas(s.drop_last()) + if s.last() == ',' { 1nat } else { 0nat }
    }
}

/// The number of fields of a variant.
pub open spec fn field_count(f: SimpleFields) -> nat {
    match f {
        SimpleFields::Unit => 0,
        SimpleFields::Unnamed(fields) => fields@.len(),
        SimpleFields::Named(fields) => fields@.len(),
    }
}

/// No field name or field type of the variant holds a comma.
pub open spec fn no_commas_in_fields(f: SimpleFields) -> bool {
    match f {
        SimpleFields::Unit => true,
        SimpleFields::Unnamed(fields) => forall|i: int| 0 <= i < fields@.len() ==> commas(#[trigger] fields@[i].ty@) == 0,
        SimpleFields::Named(fields) => forall|i: int| 0 <= i < fields@.len()
            ==> commas(#[trigger] fields@[i].name@) == 0 && commas(fields@[i].ty@) == 0,
    }
}

proof fn lemma_commas_add(a: Seq<char>, b: Seq<char>)
    ensures
        commas(a + b) == commas(a) + commas(b),
    decreases b.len(),
{
    if b.len() == 0 {
        assert(a + b =~= a);
    } else {
        lemma_commas_add(a, b.drop_last());
        assert((a + b).drop_last() =~= a + b.drop_last());
    }
}

proof fn lemma_commas_single(c: char)
    ensures
        commas(seq![c]) == if c == ',' { 1nat } else { 0nat },
{
    assert(seq![c].drop_last() =~= Seq::<char>::empty());
    assert(commas(Seq::<char>::empty()) == 0);
    assert(seq![c].last() == c);
}

proof fn lemma_decimal_no_commas(n: nat)
    ensures
        commas(decimal(n)) == 0,
    decreases n,
{
    if n < 10 {
        lemma_commas_single(digit_char(n));
    } else {
        lemma_decimal_no_commas(n / 10);
        lemma_commas_add(decimal(n / 10), seq![digit_char(n % 10)]);
        lemma_commas_single(digit_char(n % 10));
        assert(decimal(n / 10).push(digit_char(n % 10)) =~= decimal(n / 10) + seq![digit_char(n % 10)]);
    }
}

proof fn lemma_var_no_commas()
    ensures
        commas("var_"@) == 0,
{
    reveal_strlit("var_");
    assert("var_"@ =~= seq!['v'] + seq!['a'] + seq!['r'] + seq!['_']);
    lemma_commas_single('v');
    lemma_commas_single('a');
    lemma_commas_single('r');
    lemma_commas_single('_');
    lemma_commas_add(seq!['v'], seq!['a']);
    lemma_commas_add(seq!['v'] + seq!['a'], seq!['r']);
    lemma_commas_add(seq!['v'] + seq!['a'] + seq!['r'], seq!['_']);
}

proof fn lemma_unnamed_binders_commas(n: nat)
    ensures
        commas(unnamed_binders(n)) == n,
    decreases n,
{
    if n > 0 {
        let m = (n - 1) as nat;
        lemma_unnamed_binders_commas(m);
        lemma_var_no_commas();
        lemma_decimal_no_commas(m);
        lemma_commas_single(',');
        lemma_commas_add(unnamed_binders(m), "var_"@);
        lemma_commas_add(unnamed_binders(m) + "var_"@, decimal(m));
        lemma_commas_add(unnamed_binders(m) + "var_"@ + decimal(m), seq![',']);
    }
}

proof fn lemma_named_binders_commas(f: SimpleFields, n: nat)
    requires
        f matches SimpleFields::Named(fields) && n <= fields@.len(),
        no_commas_in_fields(f),
    ensures
        commas(named_binders(f->Named_0@, n)) == n,
    decreases n,
{
    let fields = f->Named_0@;
    if n > 0 {
        let m = (n - 1) as nat;
        lemma_named_binders_commas(f, m);
        assert(commas(fields[m as int].name@) == 0);
        lemma_commas_single(',');
        lemma_commas_add(named_binders(fields, m), fields[m as int].name@);
        lemma_commas_add(named_binders(fields, m) + fields[m as int].name@, seq![',']);
    }
}

proof fn lemma_unnamed_types_commas(f: SimpleFields, n: nat)
    requires
        f matches SimpleFields::Unnamed(fields) && n <= fields@.len(),
        no_commas_in_fields(f),
    ensures
        commas(unnamed_types(f->Unnamed_0@, n)) == n,
    decreases n,
{
    let fields = f->Unnamed_0@;
    if n > 0 {
        let m = (n - 1) as nat;
        lemma_unnamed_types_commas(f, m);
        assert(commas(fields[m as int].ty@) == 0);
        lemma_commas_single(',');
        lemma_commas_add(unnamed_types(fields, m), fields[m as int].ty@);
        lemma_commas_add(unnamed_types(fields, m) + fields[m as int].ty@, seq![',']);
    }
}

proof fn lemma_named_types_commas(f: SimpleFields, n: nat)
    requires
        f matches SimpleFields::Named(fields) && n <= fields@.len(),
        no_commas_in_fields(f),
    ensures
        commas(named_types(f->Named_0@, n)) == n,
    decreases n,
{
    let fields = f->Named_0@;
    if n > 0 {
        let m = (n - 1) as nat;
        lemma_named_types_commas(f, m);
        assert(commas(fields[m as int].name@) == 0 && commas(fields[m as int].ty@) == 0);
        lemma_commas_single(',');
        lemma_commas_single(':');
        let a = named_types(fields, m);
        lemma_commas_add(a, fields[m as int].name@);
        lemma_commas_add(a + fields[m as int].name@, seq![':']);
        lemma_commas_add(a + fields[m as int].name@ + seq![':'], fields[m as int].ty@);
        lemma_commas_add(a + fields[m as int].name@ + seq![':'] + fields[m as int].ty@, seq![',']);
    }
}

proof fn lemma_delimited_commas(open: char, body: Seq<char>, close: char)
    requires
        open != ',',
        close != ',',
    ensures
        commas(seq![open] + body + seq![close]) == commas(body),
{
    lemma_commas_single(open);
    lemma_commas_single(close);
    lemma_commas_add(seq![open], body);
    lemma_commas_add(seq![open] + body, seq![close]);
}

/// The pattern that binds a variant's fields and the variant's field list
/// have the same shape: both empty for a unit variant, otherwise both
/// between the same delimiters (`(`..`)` or `{`..`}`), and, where no field
/// name or type holds a comma, both with one comma per field.
pub proof fn lemma_field_texts_agree(f: SimpleFields)
    ensures
        (expansion_text(f).len() == 0) == (f is Unit),
        (def_text(f).len() == 0) == (f is Unit),
        !(f is Unit) ==> {
            &&& expansion_text(f).len() >= 2
            &&& def_text(f).len() >= 2
            &&& expansion_text(f)[0] == def_text(f)[0]
            &&& expansion_text(f).last() == def_text(f).last()
        },
        no_commas_in_fields(f) ==> commas(expansion_text(f)) == field_count(f)
            && commas(def_text(f)) == field_count(f),
{
    match f {
        SimpleFields::Unit => {
            assert(commas(Seq::<char>::empty()) == 0);
        },
        SimpleFields::Unnamed(fields) => {
            let n = fields@.len();
            lemma_unnamed_binders_commas(n);
            lemma_delimited_commas('(', unnamed_binders(n), ')');
            if no_commas_in_fields(f) {
                lemma_unnamed_types_commas(f, n);
                lemma_delimited_commas('(', unnamed_types(fields@, n), ')');
            }
        },
        SimpleFields::Named(fields) => {
            let n = fields@.len();
            if no_commas_in_fields(f) {
                lemma_named_binders_commas(f, n);
                lemma_delimited_commas('{', named_binders(fields@, n), '}');
                lemma_named_types_commas(f, n);
                lemma_delimited_commas('{', named_types(fields@, n), '}');
            }
        },
    }
}

// ---------------------------------------------------------------------------
// Reading a stored result back
// ---------------------------------------------------------------------------

/// A result stored for the signature hash `h` is what `skerry_invoke!(h)`
/// reads back: the writer files it under the decimal text of `h` (the text
/// of the unsuffixed literal `h` that the attribute macros write), so both
/// name the same file in the expansions folder; and the stored result gives
/// the stored enum path to expand to, or the stored message as the error.
pub proof fn lemma_stored_result_read_back(stored_name: Seq<char>, h: u64, res: WrittenResult, out_dir: Seq<char>)
    requires
        stored_name == decimal(h as nat),
    ensures
        expansion_path(out_dir, stored_name) == expansion_path(out_dir, decimal(h as nat)),
        res matches WrittenResult::Success(path) ==> invoke_outcome(Ok(res)) == (true, path@),
        res matches WrittenResult::EnumError { msg, .. } ==> invoke_outcome(Ok(res)) == (false, msg@),
        res matches WrittenResult::RawError { msg } ==> invoke_outcome(Ok(res)) == (false, msg@),
{
}

// ---------------------------------------------------------------------------
// The generated file
// ---------------------------------------------------------------------------

proof fn lemma_concat_over_prefix(n: nat, f: spec_fn(int) -> Seq<char>, k: int)
    requires
        0 <= k < n,
    ensures
        concat_over(n, f).len() >= concat_over(k as nat, f).len() + f(k).len(),
        concat_over(n, f).subrange(0, (concat_over(k as nat, f).len() + f(k).len()) as int)
            == concat_over(k as nat, f) + f(k),
    decreases n,
{
    let a = concat_over(k as nat, f) + f(k);
    if k == n - 1 {
        assert(concat_over(n, f) == a);
        assert(concat_over(n, f).subrange(0, a.len() as int) =~= a);
    } else {
        lemma_concat_over_prefix((n - 1) as nat, f, k);
        let prev = concat_over((n - 1) as nat, f);
        assert(concat_over(n, f) == prev + f(n - 1));
        assert(concat_over(n, f).subrange(0, a.len() as int) =~= prev.subrange(0, a.len() as int));
    }
}

proof fn lemma_piece_in_file(n: nat, f: spec_fn(int) -> Seq<char>, privates: Seq<char>, k: int)
    requires
        0 <= k < n,
    ensures
        ({
            let text = crate::writer::finished_text(concat_over(n, f), privates);
            let before = concat_over(k as nat, f).len();
            &&& before + f(k).len() <= text.len()
            &&& text.subrange(before as int, (before + f(k).len()) as int) == f(k)
        }),
{
    lemma_concat_over_prefix(n, f, k);
    let all = concat_over(n, f);
    let pre = concat_over(k as nat, f);
    let d = f(k);
    let text = crate::writer::finished_text(all, privates);
    assert(text.subrange(0, all.len() as int) =~= all);
    assert(text.subrange(pre.len() as int, (pre.len() + d.len()) as int)
        =~= all.subrange(0, (pre.len() + d.len()) as int).subrange(pre.len() as int, (pre.len() + d.len()) as int));
    assert((pre + d).subrange(pre.len() as int, (pre.len() + d.len()) as int) =~= d);
}

/// The generated file holds, for each expanded enum in order, its
/// definition (the enum, its impls and its conversions) right after those of
/// the enums before it, with the enum's plain errors as its variants:
/// sorted, each once, and exactly the plain errors of the composite and of
/// the composites it lists with `*`.
pub proof fn lemma_generated_text_defines(defs: Definitions, module: Seq<char>, g: Seq<char>, res: Resolution, k: int)
    requires
        resolution_correct(defs, module, res),
        0 <= k < res.defines@.len(),
    ensures
        ({
            let dv = defines_view(res.defines@);
            let before = concat_over(k as nat, crate::generate::define_piece(defs, g, dv)).len();
            let d = define_text(g, dv[k].0, expansion_variants(defs, dv[k].1));
            &&& before + d.len() <= generated_text(defs, g, res).len()
            &&& generated_text(defs, g, res).subrange(before as int, (before + d.len()) as int) == d
            &&& strictly_sorted(dv[k].1)
            &&& dv[k].1.to_set() == expansion_members(defs, dv[k].0, expansions_upto(dv, k as nat))
        }),
{
    let dv = defines_view(res.defines@);
    assert(res.defines@.len() == res.sorted@.len());
    assert(expansion_entry_ok(defs, dv, k));
    let f = crate::generate::define_piece(defs, g, dv);
    let markers = views(res.classification.markers@);
    let sorted = views(res.sorted@);
    let privates = concat_over(markers.len(), crate::generate::marker_piece(markers))
        + concat_over(sorted.len(), crate::generate::not_piece(sorted));
    lemma_piece_in_file(dv.len(), f, privates, k);
}

// ---------------------------------------------------------------------------
// The message of a wrong expansion
// ---------------------------------------------------------------------------

proof fn lemma_join_ends(pieces: Seq<Seq<char>>, sep: Seq<char>)
    requires
        pieces.len() > 0,
        forall|i: int| 0 <= i < pieces.len() ==> (#[trigger] pieces[i]).len() > 0,
    ensures
        seq_join(pieces, sep).len() > 0,
        seq_join(pieces, sep)[0] == pieces[0][0],
        seq_join(pieces, sep).last() == pieces.last().last(),
    decreases pieces.len(),
{
    if pieces.len() > 1 {
        let init = pieces.drop_last();
        assert(forall|i: int| 0 <= i < init.len() ==> init[i] == pieces[i]);
        lemma_join_ends(init, sep);
        assert(init[0] == pieces[0]);
    }
}

proof fn lemma_line_ends(head: Seq<char>, list: Seq<Seq<char>>, first: char)
    requires
        head.len() > 0,
        head[0] == first,
    ensures
        ({
            let line = head + seq_join(list, ", "@) + "]"@;
            &&& line.len() > 0
            &&& line[0] == first
            &&& line.last() == ']'
        }),
{
    reveal_strlit("]");
}

/// The message for a wrong expansion has one line for each list that is
/// not empty (missing types, then composites to mark with `*`, then plain
/// errors to unmark), joined by line breaks: it is empty exactly when all
/// three lists are, and otherwise it neither starts nor ends with a line
/// break.
pub proof fn lemma_expansion_message_lines(cause: DefinitionErrorCause)
    requires
        cause is WrongErrorExpansion,
    ensures
        ({
            let missing = views(cause->missing_errors@);
            let remove = views(cause->remove_asterisk@);
            let add = views(cause->add_asterisk@);
            let msg = cause_message(cause);
            &&& expansion_lines(missing, remove, add).len()
                == (if missing.len() > 0 { 1int } else { 0 }) + (if add.len() > 0 { 1int } else { 0 })
                    + (if remove.len() > 0 { 1int } else { 0 })
            &&& (msg.len() == 0) == (missing.len() == 0 && remove.len() == 0 && add.len() == 0)
            &&& msg.len() > 0 ==> msg[0] != '\n' && msg.last() != '\n'
        }),
{
    let missing = views(cause->missing_errors@);
    let remove = views(cause->remove_asterisk@);
    let add = views(cause->add_asterisk@);
    let lines = expansion_lines(missing, remove, add);
    reveal_strlit("The following types were not found: [");
    reveal_strlit("Add '*' prefix to composite errors: [");
    reveal_strlit("Remove the '*' on plain errors: [");
    lemma_line_ends("The following types were not found: ["@, missing, 'T');
    lemma_line_ends("Add '*' prefix to composite errors: ["@, add, 'A');
    lemma_line_ends("Remove the '*' on plain errors: ["@, remove, 'R');
    assert forall|i: int| 0 <= i < lines.len() implies (#[trigger] lines[i]).len() > 0
        && lines[i][0] != '\n' && lines[i].last() == ']' by {
    }
    if lines.len() > 0 {
        lemma_join_ends(lines, "\n"@);
        assert(lines[0][0] != '\n');
        assert(lines.last() == lines[lines.len() - 1]);
    } else {
        assert(seq_join(lines, "\n"@).len() == 0);
    }
}

// ---------------------------------------------------------------------------
// The subset impl of a generated enum
// ---------------------------------------------------------------------------

/// The `Contains` bound of every variant, in order.
pub open spec fn variant_bounds(vs: VariantsView) -> Seq<Seq<char>> {
    Seq::new(vs.len(), |i: int| contains_bound(vs[i].0))
}

/// The text of the `IsSubsetOf` impl of the enum `ty`.
pub open spec fn subset_impl_text(ty: Seq<char>, vs: VariantsView) -> Seq<char> {
    "impl <T:"@ + seq_join(variant_bounds(vs), "+"@) + "> skerry::skerry_internals::IsSubsetOf<T> for "@ + ty + "{}"@
}

proof fn lemma_bounds_joined(vs: VariantsView, n: nat)
    requires
        n <= vs.len(),
    ensures
        concat_over(n, bound_piece(vs)) == seq_join(variant_bounds(vs).take(n as int), "+"@),
    decreases n,
{
    let b = variant_bounds(vs);
    if n == 0 {
        assert(b.take(0) =~= Seq::<Seq<char>>::empty());
    } else {
        lemma_bounds_joined(vs, (n - 1) as nat);
        assert(b.take(n as int).drop_last() =~= b.take(n - 1));
        assert(b.take(n as int).last() == contains_bound(vs[n - 1].0));
        if n == 1 {
            assert(concat_over(0, bound_piece(vs)) =~= Seq::<char>::empty());
            assert(concat_over(1, bound_piece(vs)) =~= contains_bound(vs[0].0));
        }
    }
}

/// The definition written for an enum holds, right after the enum and its
/// `Contains` impls, the `IsSubsetOf` impl whose bound list is the
/// `Contains` bound of every variant of the enum, in order, joined by `+`:
/// the enum is a subset only of types that contain all of its variants.
pub proof fn lemma_subset_impl_bounds_every_variant(g: Seq<char>, ty: Seq<char>, vs: VariantsView)
    ensures
        ({
            let n = vs.len();
            let before = ("pub enum "@ + ty + "{"@ + concat_over(n, variant_piece(vs)) + "}"@
                + concat_over(n, contains_piece(ty, vs))).len();
            let x = subset_impl_text(ty, vs);
            &&& before + x.len() <= define_text(g, ty, vs).len()
            &&& define_text(g, ty, vs).subrange(before as int, (before + x.len()) as int) == x
        }),
{
    let n = vs.len();
    lemma_bounds_joined(vs, n);
    assert(variant_bounds(vs).take(n as int) =~= variant_bounds(vs));
    let a = "pub enum "@ + ty + "{"@ + concat_over(n, variant_piece(vs)) + "}"@ + concat_over(n, contains_piece(ty, vs));
    let x = subset_impl_text(ty, vs);
    let d = define_text(g, ty, vs);
    let rest = d.subrange((a + x).len() as int, d.len() as int);
    assert(d =~= a + x + rest);
    assert(d.subrange(a.len() as int, (a.len() + x.len()) as int) =~= x);
}

// ---------------------------------------------------------------------------
// The module path of a source file
// ---------------------------------------------------------------------------

/// A file named `mod.rs`, `lib.rs` or `main.rs` adds nothing to the module
/// path of its folder; any other file adds its stem: the module path of a
/// file is `crate`, its folders below `src`, then its stem unless that is
/// `mod`, `lib` or `main`.
pub proof fn lemma_module_path_of_file(dirs: Seq<Seq<char>>, stem: Seq<char>)
    ensures
        (stem == "mod"@ || stem == "lib"@ || stem == "main"@) ==> module_stack_of(dirs, stem) == seq!["crate"@] + dirs,
        !(stem == "mod"@ || stem == "lib"@ || stem == "main"@) ==> module_stack_of(dirs, stem) == seq!["crate"@] + dirs + seq![stem],
        module_stack_of(dirs, "mod"@) == module_stack_of(dirs, "lib"@),
        module_stack_of(dirs, "mod"@).len() == dirs.len() + 1,
{
}

// ---------------------------------------------------------------------------
// The error type of a `#[fn_error]` function in the tuple form
// ---------------------------------------------------------------------------

/// A single error type, that is neither a group nor starts with `&`, is one
/// plain error and nothing is passed through; one that starts with `&` is
/// passed through (without the `&`) and nothing is plain.
pub proof fn lemma_single_error_type(tokens: Seq<TokenTree>)
    requires
        tokens.len() > 0,
        !(tokens[0] is Group),
    ensures
        !is_punct(tokens[0], '&') ==> error_type_lists(tokens) == (seq![tokens], Seq::<Seq<TokenTree>>::empty()),
        is_punct(tokens[0], '&') ==> error_type_lists(tokens) == (Seq::<Seq<TokenTree>>::empty(), seq![tokens.drop_first()]),
{
    assert(tokens.subrange(1, tokens.len() as int) =~= tokens.drop_first());
}

// ---------------------------------------------------------------------------
// The items of an error list
// ---------------------------------------------------------------------------

/// The item at `n - 1` is written `*Name`.
pub open spec fn starred_item_ends(toks: Seq<TokenTree>, n: int) -> bool {
    n >= 2 && is_punct(toks[n - 2], '*') && is_any_ident(toks[n - 1])
}

/// The item at `n - 1` is a name not preceded by `*`.
pub open spec fn plain_item_ends(toks: Seq<TokenTree>, n: int) -> bool {
    n >= 1 && is_any_ident(toks[n - 1]) && !(n >= 2 && is_punct(toks[n - 2], '*'))
}

/// The names written `*Name` among the first `n` tokens, in order.
pub open spec fn starred_items(toks: Seq<TokenTree>, n: nat) -> Seq<Seq<char>>
    decreases n,
{
    if n == 0 {
        Seq::empty()
    } else {
        starred_items(toks, (n - 1) as nat)
            + if starred_item_ends(toks, n as int) { seq![ident_name(toks[n - 1])] } else { Seq::empty() }
    }
}

/// The names written without `*` among the first `n` tokens, in order.
pub open spec fn plain_items(toks: Seq<TokenTree>, n: nat) -> Seq<Seq<char>>
    decreases n,
{
    if n == 0 {
        Seq::empty()
    } else {
        plain_items(toks, (n - 1) as nat)
            + if plain_item_ends(toks, n as int) { seq![ident_name(toks[n - 1])] } else { Seq::empty() }
    }
}

proof fn lemma_items_step(toks: Seq<TokenTree>, n: nat)
    requires
        n < toks.len(),
        !starred_item_ends(toks, (n + 1) as int),
        !plain_item_ends(toks, (n + 1) as int),
    ensures
        starred_items(toks, n + 1) == starred_items(toks, n),
        plain_items(toks, n + 1) == plain_items(toks, n),
{
    assert(starred_items(toks, n + 1) =~= starred_items(toks, n));
    assert(plain_items(toks, n + 1) =~= plain_items(toks, n));
}

proof fn lemma_list_items_from(toks: Seq<TokenTree>, i: int, after: bool)
    requires
        0 <= i <= toks.len(),
        !after ==> (i == 0 || is_punct(toks[i - 1], ',')),
        after ==> i >= 1,
        (if after {
            inner_after_item(toks, i, plain_items(toks, i as nat), starred_items(toks, i as nat))
        } else {
            inner_errors_from(toks, i, plain_items(toks, i as nat), starred_items(toks, i as nat))
        }) is Ok,
    ensures
        (if after {
            inner_after_item(toks, i, plain_items(toks, i as nat), starred_items(toks, i as nat))
        } else {
            inner_errors_from(toks, i, plain_items(toks, i as nat), starred_items(toks, i as nat))
        }) == Ok::<_, (crate::tokens::InnerErrorKind, int)>((plain_items(toks, toks.len()), starred_items(toks, toks.len()))),
    decreases toks.len() - i, if after { 0int } else { 1int },
{
    let normal = plain_items(toks, i as nat);
    let pass = starred_items(toks, i as nat);
    if after {
        if i < toks.len() {
            assert(is_punct(toks[i], ','));
            lemma_items_step(toks, i as nat);
            lemma_list_items_from(toks, i + 1, false);
        }
    } else if i < toks.len() {
        if is_punct(toks[i], '*') {
            lemma_items_step(toks, i as nat);
            assert(starred_item_ends(toks, i + 2));
            assert(!plain_item_ends(toks, i + 2));
            assert(starred_items(toks, (i + 2) as nat) =~= pass.push(ident_name(toks[i + 1])));
            assert(plain_items(toks, (i + 2) as nat) =~= normal);
            lemma_list_items_from(toks, i + 2, true);
        } else {
            assert(is_any_ident(toks[i]));
            assert(plain_item_ends(toks, i + 1));
            assert(!starred_item_ends(toks, i + 1));
            assert(plain_items(toks, (i + 1) as nat) =~= normal.push(ident_name(toks[i])));
            assert(starred_items(toks, (i + 1) as nat) =~= pass);
            lemma_list_items_from(toks, i + 1, true);
        }
    }
}

/// In a well-formed error list, every item written `*Name` is a starred
/// error and every other item a plain error, each list in the order the
/// items are written: the starred list is the names after a `*`, the plain
/// list the other names.
pub proof fn lemma_error_list_items(toks: Seq<TokenTree>)
    requires
        inner_errors_spec(toks) is Ok,
    ensures
        inner_errors_spec(toks)->Ok_0 == (plain_items(toks, toks.len()), starred_items(toks, toks.len())),
{
    assert(plain_items(toks, 0) =~= Seq::<Seq<char>>::empty());
    assert(starred_items(toks, 0) =~= Seq::<Seq<char>>::empty());
    lemma_list_items_from(toks, 0, false);
}

// ---------------------------------------------------------------------------
// The `#[from]` structs of an error module
// ---------------------------------------------------------------------------

/// The item at `i` is a struct whose first `#[from]` attribute is at `p`.
pub open spec fn from_struct_at(items: Seq<ItemModel>, i: int, p: int) -> bool {
    0 <= i < items.len() && (items[i] matches ItemModel::Struct { attrs, .. } && attr_position(attrs@, "from"@) == Some(p))
}

/// The entries are in strictly increasing item order.
pub open spec fn in_item_order(fs: Seq<(int, int)>) -> bool {
    forall|a: int, b: int| 0 <= a < b < fs.len() ==> (#[trigger] fs[a]).0 < (#[trigger] fs[b]).0
}

proof fn lemma_from_structs_collect(items: Seq<ItemModel>, i: int, acc: Seq<(int, int)>)
    requires
        0 <= i <= items.len(),
        from_structs_from(items, i, acc) is Ok,
        in_item_order(acc),
        forall|k: int| 0 <= k < acc.len() ==> (#[trigger] acc[k]).0 < i,
        forall|j: int, p: int| j < i ==> (from_struct_at(items, j, p) <==> acc.contains((j, p))),
    ensures
        ({
            let fs = from_structs_from(items, i, acc)->Ok_0;
            &&& in_item_order(fs)
            &&& forall|j: int, p: int| from_struct_at(items, j, p) <==> #[trigger] fs.contains((j, p))
        }),
    decreases items.len() - i,
{
    if i == items.len() {
        assert forall|j: int, p: int| from_struct_at(items, j, p) <==> #[trigger] acc.contains((j, p)) by {
            if acc.contains((j, p)) {
                let k = choose|k: int| 0 <= k < acc.len() && acc[k] == (j, p);
                assert(acc[k].0 < i);
            }
        }
    } else {
        match items[i] {
            ItemModel::Struct { attrs, fields, .. } => {
                match attr_position(attrs@, "from"@) {
                    None => {
                        assert forall|j: int, p: int| j < i + 1 implies (from_struct_at(items, j, p) <==> acc.contains((j, p))) by {
                            if j == i {
                                if acc.contains((j, p)) {
                                    let k = choose|k: int| 0 <= k < acc.len() && acc[k] == (j, p);
                                    assert(acc[k].0 < i);
                                }
                            }
                        }
                        lemma_from_structs_collect(items, i + 1, acc);
                    },
                    Some(pos) => {
                        let acc2 = acc.push((i, pos));
                        assert(in_item_order(acc2)) by {
                            assert forall|a: int, b: int| 0 <= a < b < acc2.len() implies (#[trigger] acc2[a]).0 < (#[trigger] acc2[b]).0 by {
                                if b == acc.len() {
                                    assert(acc2[a] == acc[a]);
                                } else {
                                    assert(acc2[a] == acc[a] && acc2[b] == acc[b]);
                                }
                            }
                        }
                        assert forall|k: int| 0 <= k < acc2.len() implies (#[trigger] acc2[k]).0 < i + 1 by {
                            if k < acc.len() {
                                assert(acc2[k] == acc[k]);
                            }
                        }
                        assert forall|j: int, p: int| j < i + 1 implies (from_struct_at(items, j, p) <==> acc2.contains((j, p))) by {
                            if j < i {
                                if acc.contains((j, p)) {
                                    let k = choose|k: int| 0 <= k < acc.len() && acc[k] == (j, p);
                                    assert(acc2[k] == acc[k]);
                                }
                                if acc2.contains((j, p)) {
                                    let k = choose|k: int| 0 <= k < acc2.len() && acc2[k] == (j, p);
                                    if k < acc.len() {
                                        assert(acc2[k] == acc[k]);
                                    }
                                }
                            } else {
                                assert(acc2[acc.len() as int] == (i, pos));
                                if acc2.contains((j, p)) {
                                    let k = choose|k: int| 0 <= k < acc2.len() && acc2[k] == (j, p);
                                    if k < acc.len() {
                                        assert(acc2[k] == acc[k]);
                                        assert(acc[k].0 < i);
                                    }
                                }
                            }
                        }
                        match fields {
                            FieldsModel::Unnamed(fs) => {
                                lemma_from_structs_collect(items, i + 1, acc2);
                            },
                            _ => {},
                        }
                    },
                }
            },
            ItemModel::Other => {
                assert forall|j: int, p: int| j < i + 1 implies (from_struct_at(items, j, p) <==> acc.contains((j, p))) by {
                    if j == i && acc.contains((j, p)) {
                        let k = choose|k: int| 0 <= k < acc.len() && acc[k] == (j, p);
                        assert(acc[k].0 < i);
                    }
                }
                lemma_from_structs_collect(items, i + 1, acc);
            },
        }
    }
}

/// When an error module is accepted, its `#[from]` structs are recorded
/// exactly: each struct of the module that carries `#[from]`, by its item
/// position and the position of its first `#[from]` attribute, and nothing
/// else, in item order.
pub proof fn lemma_every_from_struct_recorded(items: Seq<ItemModel>)
    requires
        from_structs_from(items, 0, Seq::empty()) is Ok,
    ensures
        ({
            let fs = from_structs_from(items, 0, Seq::empty())->Ok_0;
            &&& in_item_order(fs)
            &&& forall|j: int, p: int| from_struct_at(items, j, p) <==> #[trigger] fs.contains((j, p))
        }),
{
    lemma_from_structs_collect(items, 0, Seq::empty());
}

} // verus!
