//! The text that the generator writes: the enum of each composite error with
//! its conversions, the marker types of the plain errors, and the results it
//! leaves for each function signature.

use vstd::prelude::*;
use crate::definitions::{SimpleType, SimpleFields, def_text, expansion_text};
use crate::text::{push_str, copy_string, decimal};

verus! {

/// Where in an enum an error was found.
pub enum EnumErrorLocation {
    Variant(String),
}

/// What a function signature expands to: the path of its error enum, or an
/// error to report there.
pub enum WrittenResult {
    Success(String),
    EnumError { location: EnumErrorLocation, msg: String },
    RawError { msg: String },
}

/// Builds the generated file and the results, in memory.
pub struct SkerryWriter {
    /// The generated definitions so far.
    pub writer: String,
    /// The private module's items so far.
    pub privates: String,
    /// `module::Global`, the path of the global error enum.
    pub global_error_path: String,
    /// The module of the global error enum.
    pub global_module: String,
    /// The results to store, each under its file name in the expansions folder.
    pub results: Vec<(String, WrittenResult)>,
}

/// The pieces of text `f(0)`, ..., `f(n - 1)`, one after the other.
pub open spec fn concat_over(n: nat, f: spec_fn(int) -> Seq<char>) -> Seq<char>
    decreases n,
{
    if n == 0 {
        Seq::empty()
    } else {
        concat_over((n - 1) as nat, f) + f(n - 1)
    }
}

/// The variants of an enum as plain values: each name with its fields.
pub type VariantsView = Seq<(Seq<char>, SimpleFields)>;

/// The plain-value view of a list of variants.
pub open spec fn variants_view(vs: Seq<(&str, &SimpleType)>) -> VariantsView {
    vs.map_values(variant_view_fn())
}

/// The plain-value view of one variant.
pub open spec fn variant_view_fn<'a>() -> spec_fn((&'a str, &'a SimpleType)) -> (Seq<char>, SimpleFields) {
    |p: (&'a str, &'a SimpleType)| (p.0@, p.1.fields)
}

/// The variant `name` with its fields, followed by a comma.
pub open spec fn variant_piece(vs: VariantsView) -> spec_fn(int) -> Seq<char> {
    |i: int| vs[i].0 + def_text(vs[i].1) + ","@
}

/// The marker bound `Contains<__skerry_private::{name}Marker>` of a variant.
pub open spec fn contains_bound(name: Seq<char>) -> Seq<char> {
    "skerry::skerry_internals::Contains<__skerry_private::"@ + name + "Marker>"@
}

/// The impl saying that the enum `ty` contains the variant.
pub open spec fn contains_piece(ty: Seq<char>, vs: VariantsView) -> spec_fn(int) -> Seq<char> {
    |i: int| "impl "@ + contains_bound(vs[i].0) + " for "@ + ty + "{}"@
}

/// The bounds of the subset impl, joined with `+`.
pub open spec fn bound_piece(vs: VariantsView) -> spec_fn(int) -> Seq<char> {
    |i: int| (if i > 0 { "+"@ } else { Seq::empty() }) + contains_bound(vs[i].0)
}

/// A `match` arm from the global enum `g` to the enum `ty`.
pub open spec fn from_global_piece(g: Seq<char>, ty: Seq<char>, vs: VariantsView) -> spec_fn(int) -> Seq<char> {
    |i: int| g + "::"@ + vs[i].0 + expansion_text(vs[i].1) + " => "@ + ty + "::"@ + vs[i].0
        + expansion_text(vs[i].1) + ",\n"@
}

/// A `match` arm from the enum `ty` to the global enum `g`.
pub open spec fn to_global_piece(g: Seq<char>, ty: Seq<char>, vs: VariantsView) -> spec_fn(int) -> Seq<char> {
    |i: int| ty + "::"@ + vs[i].0 + expansion_text(vs[i].1) + " => "@ + g + "::"@ + vs[i].0
        + expansion_text(vs[i].1) + ",\n"@
}

/// The text that defines the composite enum `ty` with the given variants,
/// where `g` is the path of the global error enum: the enum, its `Contains`
/// and `IsSubsetOf` impls, and the conversions from and to the global enum.
pub open spec fn define_text(g: Seq<char>, ty: Seq<char>, vs: VariantsView) -> Seq<char> {
    let n = vs.len();
    "pub enum "@ + ty + "{"@ + concat_over(n, variant_piece(vs)) + "}"@
        + concat_over(n, contains_piece(ty, vs))
        + "impl <T:"@ + concat_over(n, bound_piece(vs)) + "> skerry::skerry_internals::IsSubsetOf<T> for "@ + ty + "{}"@
        + "impl<E: Into<"@ + g + "> + skerry::skerry_internals::IsSubsetOf<"@ + ty
        + "> + __skerry_private::Not"@ + ty + "> From<E> for "@ + ty + " {fn from(val:E)->"@ + ty
        + "{match val.into(){"@ + concat_over(n, from_global_piece(g, ty, vs)) + "_ => unreachable!()}}}"@
        + "impl From<"@ + ty + "> for "@ + g + " {\n                fn from(val: "@ + ty + ") -> "@ + g
        + " {\n                    match val {"@ + "\n"@ + concat_over(n, to_global_piece(g, ty, vs)) + "}}}\n"@
}

/// The marker type of the plain error `ty`.
pub open spec fn marker_text(ty: Seq<char>) -> Seq<char> {
    "pub struct "@ + ty + "Marker{}"@ + "\n"@
}

/// The auto trait that every type but the enum `ty` implements.
pub open spec fn not_text(ty: Seq<char>) -> Seq<char> {
    "pub auto trait Not"@ + ty + " {} impl !Not"@ + ty + " for super::"@ + ty + " {}"@ + "\n"@
}

/// The whole generated file: the definitions, then the private module.
pub open spec fn finished_text(writer: Seq<char>, privates: Seq<char>) -> Seq<char> {
    writer + "#[allow(unused)]\nmod __skerry_private{"@ + "\n"@ + privates + "}"@
}

/// Decimal text of a `u64`, as `u64::to_string` writes it.
pub fn u64_to_decimal(n: u64) -> (r: String)
    ensures
        r@ == decimal(n as nat),
    decreases n,
{
    if n < 10 {
        let mut s = String::new();
        push_str(&mut s, digit_str(n));
        s
    } else {
        let mut s = u64_to_decimal(n / 10);
        push_str(&mut s, digit_str(n % 10));
        s
    }
}

fn digit_str(d: u64) -> (r: &'static str)
    requires
        d < 10,
    ensures
        r@ == seq![crate::text::digit_char(d as nat)],
{
    proof {
        reveal_strlit("0");
        reveal_strlit("1");
        reveal_strlit("2");
        reveal_strlit("3");
        reveal_strlit("4");
        reveal_strlit("5");
        reveal_strlit("6");
        reveal_strlit("7");
        reveal_strlit("8");
        reveal_strlit("9");
    }
    if d == 0 { "0" }
    else if d == 1 { "1" }
    else if d == 2 { "2" }
    else if d == 3 { "3" }
    else if d == 4 { "4" }
    else if d == 5 { "5" }
    else if d == 6 { "6" }
    else if d == 7 { "7" }
    else if d == 8 { "8" }
    else { "9" }
}

impl SkerryWriter {
    /// A writer for the global error enum `global_error_ident` defined in
    /// `global_module`.
    pub fn new(global_error_ident: &str, global_module: &str) -> (r: Self)
        ensures
            r.writer@ == Seq::<char>::empty(),
            r.privates@ == Seq::<char>::empty(),
            r.global_error_path@ == global_module@ + "::"@ + global_error_ident@,
            r.global_module@ == global_module@,
            r.results@.len() == 0,
    {
        let mut path = String::new();
        push_str(&mut path, global_module);
        push_str(&mut path, "::");
        push_str(&mut path, global_error_ident);
        let mut module = String::new();
        push_str(&mut module, global_module);
        SkerryWriter {
            writer: String::new(),
            privates: String::new(),
            global_error_path: path,
            global_module: module,
            results: Vec::new(),
        }
    }

    /// Appends the definition of the composite enum `ty` with the given
    /// variants.
    pub fn add_define(&mut self, ty: &str, variants: &Vec<(&str, &SimpleType)>)
        ensures
            final(self).writer@ == old(self).writer@ + define_text(old(self).global_error_path@, ty@, variants_view(variants@)),
            final(self).privates == old(self).privates,
            final(self).global_error_path == old(self).global_error_path,
            final(self).global_module == old(self).global_module,
            final(self).results == old(self).results,
    {
        let ghost start = self.writer@;
        let ghost g = self.global_error_path@;
        let ghost vs = variants_view(variants@);
        let ghost n = vs.len();
        let global_error = copy_string(&self.global_error_path);
        let mut w = String::new();

        push_str(&mut w, "pub enum ");
        push_str(&mut w, ty);
        push_str(&mut w, "{");
        let ghost p0 = w@;
        let mut i: usize = 0;
        while i < variants.len()
            invariant
                vs == variants_view(variants@),
                i <= variants.len(),
                w@ == p0 + concat_over(i as nat, variant_piece(vs)),
            decreases variants.len() - i,
        {
            push_str(&mut w, variants[i].0);
            let d = variants[i].1.fields.display_def();
            push_str(&mut w, d.as_str());
            push_str(&mut w, ",");
            i += 1;
        }
        push_str(&mut w, "}");
        let ghost p1 = w@;
        let mut i: usize = 0;
        while i < variants.len()
            invariant
                vs == variants_view(variants@),
                i <= variants.len(),
                w@ == p1 + concat_over(i as nat, contains_piece(ty@, vs)),
            decreases variants.len() - i,
        {
            push_str(&mut w, "impl ");
            push_str(&mut w, "skerry::skerry_internals::Contains<__skerry_private::");
            push_str(&mut w, variants[i].0);
            push_str(&mut w, "Marker>");
            push_str(&mut w, " for ");
            push_str(&mut w, ty);
            push_str(&mut w, "{}");
            i += 1;
        }
        push_str(&mut w, "impl <T:");
        let ghost p2 = w@;
        let mut i: usize = 0;
        while i < variants.len()
            invariant
                vs == variants_view(variants@),
                i <= variants.len(),
                w@ == p2 + concat_over(i as nat, bound_piece(vs)),
            decreases variants.len() - i,
        {
            let ghost before = w@;
            if i > 0 {
                push_str(&mut w, "+");
            }
            push_str(&mut w, "skerry::skerry_internals::Contains<__skerry_private::");
            push_str(&mut w, variants[i].0);
            push_str(&mut w, "Marker>");
            proof {
                if i > 0 {
                    assert(w@ =~= before + bound_piece(vs)(i as int));
                } else {
                    assert(w@ =~= before + bound_piece(vs)(i as int));
                }
            }
            i += 1;
        }
        push_str(&mut w, "> skerry::skerry_internals::IsSubsetOf<T> for ");
        push_str(&mut w, ty);
        push_str(&mut w, "{}");
        push_str(&mut w, "impl<E: Into<");
        push_str(&mut w, global_error.as_str());
        push_str(&mut w, "> + skerry::skerry_internals::IsSubsetOf<");
        push_str(&mut w, ty);
        push_str(&mut w, "> + __skerry_private::Not");
        push_str(&mut w, ty);
        push_str(&mut w, "> From<E> for ");
        push_str(&mut w, ty);
        push_str(&mut w, " {fn from(val:E)->");
        push_str(&mut w, ty);
        push_str(&mut w, "{match val.into(){");
        let ghost p3 = w@;
        let mut i: usize = 0;
        while i < variants.len()
            invariant
                vs == variants_view(variants@),
                g == global_error@,
                i <= variants.len(),
                w@ == p3 + concat_over(i as nat, from_global_piece(g, ty@, vs)),
            decreases variants.len() - i,
        {
            let expand = variants[i].1.fields.display_expansion();
            push_str(&mut w, global_error.as_str());
            push_str(&mut w, "::");
            push_str(&mut w, variants[i].0);
            push_str(&mut w, expand.as_str());
            push_str(&mut w, " => ");
            push_str(&mut w, ty);
            push_str(&mut w, "::");
            push_str(&mut w, variants[i].0);
            push_str(&mut w, expand.as_str());
            push_str(&mut w, ",\n");
            i += 1;
        }
        push_str(&mut w, "_ => unreachable!()}}}");
        push_str(&mut w, "impl From<");
        push_str(&mut w, ty);
        push_str(&mut w, "> for ");
        push_str(&mut w, global_error.as_str());
        push_str(&mut w, " {\n                fn from(val: ");
        push_str(&mut w, ty);
        push_str(&mut w, ") -> ");
        push_str(&mut w, global_error.as_str());
        push_str(&mut w, " {\n                    match val {");
        push_str(&mut w, "\n");
        let ghost p4 = w@;
        let mut i: usize = 0;
        while i < variants.len()
            invariant
                vs == variants_view(variants@),
                g == global_error@,
                i <= variants.len(),
                w@ == p4 + concat_over(i as nat, to_global_piece(g, ty@, vs)),
            decreases variants.len() - i,
        {
            let expand = variants[i].1.fields.display_expansion();
            push_str(&mut w, ty);
            push_str(&mut w, "::");
            push_str(&mut w, variants[i].0);
            push_str(&mut w, expand.as_str());
            push_str(&mut w, " => ");
            push_str(&mut w, global_error.as_str());
            push_str(&mut w, "::");
            push_str(&mut w, variants[i].0);
            push_str(&mut w, expand.as_str());
            push_str(&mut w, ",\n");
            i += 1;
        }
        push_str(&mut w, "}}}\n");
        assert(w@ =~= define_text(g, ty@, vs));
        push_str(&mut self.writer, w.as_str());
    }

    /// Stores the result for the signature with hash `hash`.
    pub fn add_result(&mut self, hash: u64, res: WrittenResult)
        ensures
            final(self).results@ == old(self).results@.push((final(self).results@.last().0, res)),
            final(self).results@.last().0@ == decimal(hash as nat),
            final(self).writer == old(self).writer,
            final(self).privates == old(self).privates,
            final(self).global_error_path == old(self).global_error_path,
            final(self).global_module == old(self).global_module,
    {
        let name = u64_to_decimal(hash);
        self.results.push((name, res));
    }

    /// Adds the marker type of the plain error `ty`.
    pub fn add_marker(&mut self, ty: &str)
        ensures
            final(self).privates@ == old(self).privates@ + marker_text(ty@),
            final(self).writer == old(self).writer,
            final(self).global_error_path == old(self).global_error_path,
            final(self).global_module == old(self).global_module,
            final(self).results == old(self).results,
    {
        push_str(&mut self.privates, "pub struct ");
        push_str(&mut self.privates, ty);
        push_str(&mut self.privates, "Marker{}");
        push_str(&mut self.privates, "\n");
        assert(self.privates@ =~= old(self).privates@ + marker_text(ty@));
    }

    /// Adds the auto trait that every type but the enum `ty` implements.
    pub fn add_not(&mut self, ty: &str)
        ensures
            final(self).privates@ == old(self).privates@ + not_text(ty@),
            final(self).writer == old(self).writer,
            final(self).global_error_path == old(self).global_error_path,
            final(self).global_module == old(self).global_module,
            final(self).results == old(self).results,
    {
        push_str(&mut self.privates, "pub auto trait Not");
        push_str(&mut self.privates, ty);
        push_str(&mut self.privates, " {} impl !Not");
        push_str(&mut self.privates, ty);
        push_str(&mut self.privates, " for super::");
        push_str(&mut self.privates, ty);
        push_str(&mut self.privates, " {}");
        push_str(&mut self.privates, "\n");
        assert(self.privates@ =~= old(self).privates@ + not_text(ty@));
    }

    /// Finishes: stores the result of the global enum (an empty expansion)
    /// under `global`, and returns the whole generated file with the results.
    pub fn finish(self) -> (r: (String, Vec<(String, WrittenResult)>))
        ensures
            r.0@ == finished_text(self.writer@, self.privates@),
            r.1@.len() == self.results@.len() + 1,
            r.1@.take(self.results@.len() as int) == self.results@,
            r.1@.last().0@ == "global"@,
            r.1@.last().1 matches WrittenResult::Success(s) && s@ == Seq::<char>::empty(),
    {
        let SkerryWriter { writer, privates, results, .. } = self;
        let mut results = results;
        let mut global = String::new();
        push_str(&mut global, "global");
        results.push((global, WrittenResult::Success(String::new())));
        let mut text = writer;
        push_str(&mut text, "#[allow(unused)]\nmod __skerry_private{");
        push_str(&mut text, "\n");
        push_str(&mut text, privates.as_str());
        push_str(&mut text, "}");
        assert(results@.take(self.results@.len() as int) =~= self.results@);
        (text, results)
    }
}

} // verus!
