//! What the generator produces from the collected definitions: the
//! generated file and the result for every signature.

use vstd::prelude::*;
use crate::definitions::{TypeDefinitionType, TypeDefinitionError, SimpleType, SimpleFields};
use crate::tables::{DefinitionTable, definition_table_contents, definition_table_get};
use crate::resolve::{
    Definitions, Resolution, ResolveError, resolve, resolution_correct, failures_view, results_view,
    defines_view, simple_part, has_simple, expansion_entry_ok,
};
use crate::writer::{
    SkerryWriter, WrittenResult, EnumErrorLocation, VariantsView, variants_view, variant_view_fn,
    define_text, marker_text, not_text, finished_text, concat_over,
};
use crate::text::{views, decimal, copy_string, lemma_map_push};

verus! {

/// The plain-value view of a result: its kind (0 for an expansion, 1 for an
/// error at a variant, 2 for a plain error), its text, and the variant.
pub open spec fn written_view(w: WrittenResult) -> (int, Seq<char>, Seq<char>) {
    match w {
        WrittenResult::Success(s) => (0, s@, Seq::empty()),
        WrittenResult::EnumError { location: EnumErrorLocation::Variant(v), msg } => (1, msg@, v@),
        WrittenResult::RawError { msg } => (2, msg@, Seq::empty()),
    }
}

/// The plain-value view of the stored results: file name and result.
pub open spec fn stored_view(v: Seq<(String, WrittenResult)>) -> Seq<(Seq<char>, (int, Seq<char>, Seq<char>))> {
    v.map_values(stored_entry_fn())
}

/// The plain-value view of one stored result.
pub open spec fn stored_entry_fn() -> spec_fn((String, WrittenResult)) -> (Seq<char>, (int, Seq<char>, Seq<char>)) {
    |p: (String, WrittenResult)| (p.0@, written_view(p.1))
}

/// The stored result of an accepted composite: under its hash, the path of
/// its enum.
pub open spec fn accepted_entry() -> spec_fn((u64, Seq<char>)) -> (Seq<char>, (int, Seq<char>, Seq<char>)) {
    |p: (u64, Seq<char>)| (decimal(p.0 as nat), (0int, p.1, Seq::<char>::empty()))
}

/// The stored result of a failure: under its hash, the message.
pub open spec fn failure_entry() -> spec_fn((Seq<char>, Seq<char>, u64)) -> (Seq<char>, (int, Seq<char>, Seq<char>)) {
    |f: (Seq<char>, Seq<char>, u64)| (decimal(f.2 as nat), (2int, f.0, Seq::<char>::empty()))
}

/// The variants of the enum of an expansion: each plain error with its
/// fields.
pub open spec fn expansion_variants(defs: Definitions, exp: Seq<Seq<char>>) -> VariantsView {
    exp.map_values(expansion_variant_fn(defs))
}

/// A plain error with its fields.
pub open spec fn expansion_variant_fn(defs: Definitions) -> spec_fn(Seq<char>) -> (Seq<char>, SimpleFields) {
    |t: Seq<char>| (t, simple_part(defs[t]).fields)
}

/// The definition of the `k`-th expanded enum.
pub open spec fn define_piece(defs: Definitions, g: Seq<char>, dv: Seq<(Seq<char>, Seq<Seq<char>>)>) -> spec_fn(int) -> Seq<char> {
    |k: int| define_text(g, dv[k].0, expansion_variants(defs, dv[k].1))
}

/// The marker type of the `k`-th plain error.
pub open spec fn marker_piece(ms: Seq<Seq<char>>) -> spec_fn(int) -> Seq<char> {
    |k: int| marker_text(ms[k])
}

/// The auto trait of the `k`-th expanded enum.
pub open spec fn not_piece(ns: Seq<Seq<char>>) -> spec_fn(int) -> Seq<char> {
    |k: int| not_text(ns[k])
}

/// The generated file: the definitions of the expanded enums in order, then
/// the private module with the markers of the plain errors and the auto
/// traits of the expanded enums.
pub open spec fn generated_text(defs: Definitions, g: Seq<char>, res: Resolution) -> Seq<char> {
    let dv = defines_view(res.defines@);
    let markers = views(res.classification.markers@);
    let sorted = views(res.sorted@);
    finished_text(
        concat_over(dv.len(), define_piece(defs, g, dv)),
        concat_over(markers.len(), marker_piece(markers)) + concat_over(sorted.len(), not_piece(sorted)),
    )
}

/// What the generator writes: the resolution, every failure (those found
/// while scanning, then those found while resolving), the generated file and
/// the stored results.
pub struct GeneratedOutput {
    pub resolution: Resolution,
    pub failures: Vec<TypeDefinitionError>,
    pub text: String,
    pub results: Vec<(String, WrittenResult)>,
}

/// The definitions cannot be resolved: some composites expand each other in
/// a circle, or a composite to expand lists a name that is not a plain error.
pub open spec fn resolve_fails(defs: Definitions) -> bool {
    crate::resolve::has_cycle(defs) || !crate::resolve::expandable(defs)
}

fn write_markers(writer: &mut SkerryWriter, markers: &Vec<String>)
    ensures
        final(writer).privates@ == old(writer).privates@ + concat_over(markers@.len(), marker_piece(views(markers@))),
        final(writer).writer == old(writer).writer,
        final(writer).global_error_path == old(writer).global_error_path,
        final(writer).results == old(writer).results,
{
    let ghost start = writer.privates@;
    let mut i: usize = 0;
    while i < markers.len()
        invariant
            i <= markers.len(),
            writer.writer == old(writer).writer,
            writer.global_error_path == old(writer).global_error_path,
            writer.results == old(writer).results,
            writer.privates@ == start + concat_over(i as nat, marker_piece(views(markers@))),
        decreases markers.len() - i,
    {
        writer.add_marker(markers[i].as_str());
        assert(views(markers@)[i as int] == markers@[i as int]@);
        i += 1;
    }
}

fn write_accepted(writer: &mut SkerryWriter, accepted: &Vec<(u64, String)>)
    ensures
        stored_view(final(writer).results@) == stored_view(old(writer).results@)
            + results_view(accepted@).map_values(accepted_entry()),
        final(writer).writer == old(writer).writer,
        final(writer).privates == old(writer).privates,
        final(writer).global_error_path == old(writer).global_error_path,
{
    let ghost start = stored_view(writer.results@);
    let mut i: usize = 0;
    while i < accepted.len()
        invariant
            i <= accepted.len(),
            writer.writer == old(writer).writer,
            writer.privates == old(writer).privates,
            writer.global_error_path == old(writer).global_error_path,
            stored_view(writer.results@) == start + results_view(accepted@).take(i as int).map_values(accepted_entry()),
        decreases accepted.len() - i,
    {
        let ghost before = writer.results@;
        let path = copy_string(&accepted[i].1);
        let ghost entry_hash = accepted@[i as int].0;
        let ghost entry_path = accepted@[i as int].1@;
        writer.add_result(accepted[i].0, WrittenResult::Success(path));
        proof {
            let last = writer.results@.last();
            lemma_map_push(before, last, stored_entry_fn());
            assert(results_view(accepted@)[i as int] == (entry_hash, entry_path));
            assert(results_view(accepted@).take(i + 1) =~= results_view(accepted@).take(i as int).push((entry_hash, entry_path)));
            lemma_map_push(results_view(accepted@).take(i as int), (entry_hash, entry_path), accepted_entry());
            assert(stored_entry_fn()(last) == accepted_entry()((entry_hash, entry_path)));
            assert(stored_view(writer.results@) =~= start + results_view(accepted@).take(i + 1).map_values(accepted_entry()));
        }
        i += 1;
    }
    assert(results_view(accepted@).take(accepted@.len() as int) =~= results_view(accepted@));
}

fn variants_of<'a>(table: &'a DefinitionTable, exp: &'a Vec<String>) -> (r: Vec<(&'a str, &'a SimpleType)>)
    requires
        forall|t: Seq<char>| #[trigger] views(exp@).contains(t) ==> has_simple(definition_table_contents(*table), t),
    ensures
        variants_view(r@) == expansion_variants(definition_table_contents(*table), views(exp@)),
{
    let ghost defs = definition_table_contents(*table);
    let mut variants: Vec<(&str, &SimpleType)> = Vec::new();
    let mut q: usize = 0;
    while q < exp.len()
        invariant
            defs == definition_table_contents(*table),
            q <= exp.len(),
            forall|t: Seq<char>| #[trigger] views(exp@).contains(t) ==> has_simple(defs, t),
            variants_view(variants@) == expansion_variants(defs, views(exp@).take(q as int)),
        decreases exp.len() - q,
    {
        let ghost t = exp@[q as int]@;
        assert(views(exp@)[q as int] == t);
        assert(views(exp@).contains(t));
        let d = definition_table_get(table, &exp[q]).unwrap();
        match &d.ty {
            TypeDefinitionType::Simple(st) => {
                let ghost before = variants@;
                let item = (exp[q].as_str(), st);
                variants.push(item);
                proof {
                    lemma_map_push(before, item, variant_view_fn());
                    assert(views(exp@).take(q + 1) =~= views(exp@).take(q as int).push(t));
                    lemma_map_push(views(exp@).take(q as int), t, expansion_variant_fn(defs));
                    assert(variants_view(variants@) =~= expansion_variants(defs, views(exp@).take(q + 1)));
                }
            },
            TypeDefinitionType::Composite(_) => {
                proof { assert(false); }
            },
        }
        q += 1;
    }
    assert(views(exp@).take(exp.len() as int) =~= views(exp@));
    variants
}

fn write_defines(writer: &mut SkerryWriter, table: &DefinitionTable, module: &String, res: &Resolution)
    requires
        resolution_correct(definition_table_contents(*table), module@, *res),
    ensures
        final(writer).writer@ == old(writer).writer@ + concat_over(res.defines@.len(),
            define_piece(definition_table_contents(*table), old(writer).global_error_path@, defines_view(res.defines@))),
        final(writer).privates@ == old(writer).privates@ + concat_over(res.sorted@.len(), not_piece(views(res.sorted@))),
        final(writer).global_error_path == old(writer).global_error_path,
        final(writer).results == old(writer).results,
{
    let ghost defs = definition_table_contents(*table);
    let ghost g = writer.global_error_path@;
    let ghost dv = defines_view(res.defines@);
    let ghost sorted = views(res.sorted@);
    let ghost w0 = writer.writer@;
    let ghost p0 = writer.privates@;
    let mut k: usize = 0;
    while k < res.defines.len()
        invariant
            defs == definition_table_contents(*table),
            resolution_correct(defs, module@, *res),
            dv == defines_view(res.defines@),
            sorted == views(res.sorted@),
            k <= res.defines.len(),
            writer.global_error_path@ == g,
            writer.results == old(writer).results,
            writer.global_error_path == old(writer).global_error_path,
            writer.writer@ == w0 + concat_over(k as nat, define_piece(defs, g, dv)),
            writer.privates@ == p0 + concat_over(k as nat, not_piece(sorted)),
        decreases res.defines.len() - k,
    {
        let name = &res.defines[k].0;
        let exp = &res.defines[k].1;
        assert(expansion_entry_ok(defs, dv, k as int));
        assert(dv[k as int] == (name@, views(exp@)));
        assert(dv[k as int].0 == sorted[k as int]);
        writer.add_not(name.as_str());
        let variants = variants_of(table, exp);
        writer.add_define(name.as_str(), &variants);
        k += 1;
    }
}

fn collect_failures(scan_failures: Vec<TypeDefinitionError>, found: &Vec<TypeDefinitionError>) -> (r: Vec<TypeDefinitionError>)
    ensures
        failures_view(r@) == failures_view(scan_failures@) + failures_view(found@),
{
    let mut failures = scan_failures;
    let ghost scan_view = failures_view(failures@);
    let mut i: usize = 0;
    while i < found.len()
        invariant
            i <= found.len(),
            failures_view(failures@) == scan_view + failures_view(found@).take(i as int),
        decreases found.len() - i,
    {
        let f = &found[i];
        let ghost before = failures@;
        let copy = TypeDefinitionError { msg: copy_string(&f.msg), file: copy_string(&f.file), hash: f.hash };
        failures.push(copy);
        proof {
            lemma_map_push(before, copy, crate::resolve::failure_view_fn());
            assert(failures_view(found@)[i as int] == crate::resolve::failure_view(*f));
            assert(failures_view(failures@) =~= scan_view + failures_view(found@).take(i + 1));
        }
        i += 1;
    }
    assert(failures_view(found@).take(found.len() as int) =~= failures_view(found@));
    failures
}

fn write_failures(writer: &mut SkerryWriter, failures: &Vec<TypeDefinitionError>)
    ensures
        stored_view(final(writer).results@) == stored_view(old(writer).results@)
            + failures_view(failures@).map_values(failure_entry()),
        final(writer).writer == old(writer).writer,
        final(writer).privates == old(writer).privates,
        final(writer).global_error_path == old(writer).global_error_path,
{
    let ghost start = stored_view(writer.results@);
    let mut i: usize = 0;
    while i < failures.len()
        invariant
            i <= failures.len(),
            writer.writer == old(writer).writer,
            writer.privates == old(writer).privates,
            writer.global_error_path == old(writer).global_error_path,
            stored_view(writer.results@) == start + failures_view(failures@).take(i as int).map_values(failure_entry()),
        decreases failures.len() - i,
    {
        let ghost before = writer.results@;
        let ghost f = crate::resolve::failure_view(failures@[i as int]);
        let msg = copy_string(&failures[i].msg);
        writer.add_result(failures[i].hash, WrittenResult::RawError { msg });
        proof {
            let last = writer.results@.last();
            lemma_map_push(before, last, stored_entry_fn());
            assert(failures_view(failures@)[i as int] == f);
            assert(failures_view(failures@).take(i + 1) =~= failures_view(failures@).take(i as int).push(f));
            lemma_map_push(failures_view(failures@).take(i as int), f, failure_entry());
            assert(stored_entry_fn()(last) == failure_entry()(f));
            assert(stored_view(writer.results@) =~= start + failures_view(failures@).take(i + 1).map_values(failure_entry()));
        }
        i += 1;
    }
    assert(failures_view(failures@).take(failures.len() as int) =~= failures_view(failures@));
}

/// Resolves the definitions and produces everything the generator writes,
/// for the global error enum `global_error_ident` in `module`.
pub fn generate_output(
    table: &DefinitionTable,
    scan_failures: Vec<TypeDefinitionError>,
    module: &String,
    global_error_ident: &String,
) -> (r: Result<GeneratedOutput, ResolveError>)
    ensures
        r is Err <==> resolve_fails(definition_table_contents(*table)),
        r matches Err(e) ==> ((e matches ResolveError::CircularDependency) <==> crate::resolve::has_cycle(definition_table_contents(*table))),
        r matches Ok(out) ==> {
            let defs = definition_table_contents(*table);
            let g = module@ + "::"@ + global_error_ident@;
            &&& resolution_correct(defs, module@, out.resolution)
            &&& failures_view(out.failures@) == failures_view(scan_failures@) + failures_view(out.resolution.classification.failures@)
            &&& out.text@ == generated_text(defs, g, out.resolution)
            &&& stored_view(out.results@) == results_view(out.resolution.classification.results@).map_values(accepted_entry())
                + failures_view(out.failures@).map_values(failure_entry())
                + seq![("global"@, (0int, Seq::<char>::empty(), Seq::<char>::empty()))]
        },
{
    let ghost defs = definition_table_contents(*table);
    let res = match resolve(table, module) {
        Ok(res) => res,
        Err(e) => { return Err(e); },
    };
    let mut writer = SkerryWriter::new(global_error_ident.as_str(), module.as_str());
    write_markers(&mut writer, &res.classification.markers);
    write_accepted(&mut writer, &res.classification.results);
    write_defines(&mut writer, table, module, &res);
    let failures = collect_failures(scan_failures, &res.classification.failures);
    write_failures(&mut writer, &failures);
    let ghost before_finish = writer.results@;
    let ghost wtext = writer.writer@;
    let ghost ptext = writer.privates@;
    let (text, results) = writer.finish();
    proof {
        assert(results@ =~= before_finish.push(results@.last()));
        lemma_map_push(before_finish, results@.last(), stored_entry_fn());
        assert(stored_view(results@) =~= stored_view(before_finish).push(("global"@, (0int, Seq::<char>::empty(), Seq::<char>::empty()))));
        assert(ptext =~= concat_over(views(res.classification.markers@).len(), marker_piece(views(res.classification.markers@)))
            + concat_over(views(res.sorted@).len(), not_piece(views(res.sorted@))));
        assert(wtext =~= concat_over(defines_view(res.defines@).len(), define_piece(defs, module@ + "::"@ + global_error_ident@, defines_view(res.defines@))));
    }
    Ok(GeneratedOutput { resolution: res, failures, text, results })
}

} // verus!
