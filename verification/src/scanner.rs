//! The generator's pass over the source files: every marked signature
//! becomes a composite definition named after its prefix and function, the
//! global error enum gives the plain definitions, and at the end everything
//! is resolved into the generated file.

use vstd::prelude::*;
use crate::definitions::{
    TypeDefinition, TypeDefinitionType, SimpleType, SimpleFields, CompositeType, NamedField, UnnamedField,
    TypeDefinitionError, DefinitionErrorCause,
};
use crate::tables::{
    DefinitionTable, definition_table_contents, definition_table_new, definition_table_try_insert,
    definition_table_insert, definition_table_get, definition_table_keys,
};
use crate::signature::{TypeModel, GenericArgumentModel, SignatureModel, result_error_arg, impl_prefix};
use crate::items::{VariantModel, FieldsModel, has_attr, find_attr};
use crate::tokens::{TokenTree, ErrorLists, skerry_error_list_spec, parse_skerry_error_list};
use crate::naming::{camel_case, format_camel_case};
use crate::resolve::{ResolveError, failures_view};
use crate::generate::{GeneratedOutput, generate_output, resolve_fails, generated_text, stored_view, accepted_entry, failure_entry};
use crate::hashing::calculate_sig_hash;
use crate::text::{views, copy_string, push_str, seq_join, join, lemma_views_push};

verus! {

// ---------------------------------------------------------------------------
// Definitions as plain values
// ---------------------------------------------------------------------------

/// Fields as plain values.
pub enum FieldsView {
    Unit,
    Unnamed(Seq<Seq<char>>),
    Named(Seq<(Seq<char>, Seq<char>)>),
}

/// A definition as plain values: a plain error's fields and `from` type,
/// or a composite's lists, file and hash.
pub enum DefinitionView {
    Simple(FieldsView, Option<Seq<char>>),
    Composite(Seq<Seq<char>>, Seq<Seq<char>>, Seq<char>, u64),
}

/// The plain-value view of named fields.
pub open spec fn named_view(v: Seq<NamedField>) -> Seq<(Seq<char>, Seq<char>)> {
    v.map_values(|f: NamedField| (f.name@, f.ty@))
}

/// The plain-value view of unnamed fields.
pub open spec fn unnamed_view(v: Seq<UnnamedField>) -> Seq<Seq<char>> {
    v.map_values(|f: UnnamedField| f.ty@)
}

/// The plain-value view of the fields of a plain error.
pub open spec fn fields_view(f: SimpleFields) -> FieldsView {
    match f {
        SimpleFields::Unit => FieldsView::Unit,
        SimpleFields::Unnamed(v) => FieldsView::Unnamed(unnamed_view(v@)),
        SimpleFields::Named(v) => FieldsView::Named(named_view(v@)),
    }
}

/// The plain-value view of an optional string.
pub open spec fn opt_view(o: Option<String>) -> Option<Seq<char>> {
    match o {
        Some(s) => Some(s@),
        None => None,
    }
}

/// The plain-value view of a definition.
pub open spec fn definition_view(d: TypeDefinition) -> DefinitionView {
    match d.ty {
        TypeDefinitionType::Simple(s) => DefinitionView::Simple(fields_view(s.fields), opt_view(s.from)),
        TypeDefinitionType::Composite(c) => DefinitionView::Composite(views(c.types@), views(c.composites@), c.file@, c.hash),
    }
}

/// The plain-value view of all definitions.
pub open spec fn contents_view(m: Map<Seq<char>, TypeDefinition>) -> Map<Seq<char>, DefinitionView> {
    m.map_values(|d: TypeDefinition| definition_view(d))
}

fn copy_fields(f: &SimpleFields) -> (r: SimpleFields)
    ensures
        fields_view(r) == fields_view(*f),
{
    match f {
        SimpleFields::Unit => SimpleFields::Unit,
        SimpleFields::Unnamed(v) => SimpleFields::Unnamed(unnamed_copy(v)),
        SimpleFields::Named(v) => SimpleFields::Named(named_copy(v)),
    }
}

/// A copy of a definition.
pub fn copy_definition(d: &TypeDefinition) -> (r: TypeDefinition)
    ensures
        definition_view(r) == definition_view(*d),
{
    match &d.ty {
        TypeDefinitionType::Simple(s) => {
            let from = match &s.from {
                Some(t) => Some(copy_string(t)),
                None => None,
            };
            TypeDefinition { ty: TypeDefinitionType::Simple(SimpleType { fields: copy_fields(&s.fields), from }) }
        },
        TypeDefinitionType::Composite(c) => TypeDefinition {
            ty: TypeDefinitionType::Composite(CompositeType {
                types: crate::resolve::copy_strings(&c.types),
                composites: crate::resolve::copy_strings(&c.composites),
                file: copy_string(&c.file),
                hash: c.hash,
            }),
        },
    }
}

// ---------------------------------------------------------------------------
// The variants of the global error enum
// ---------------------------------------------------------------------------

/// The type a variant converts from: the type of its single field, when it
/// is a `#[from]` tuple variant with one field.
pub open spec fn variant_from(v: VariantModel) -> Option<Seq<char>> {
    match v.fields {
        FieldsModel::Unnamed(fs) => if has_attr(v.attrs@, "from"@) && fs@.len() == 1 {
            Some(fs@[0].ty@)
        } else {
            None
        },
        _ => None,
    }
}

/// The fields of a variant as plain values.
pub open spec fn variant_fields_view(f: FieldsModel) -> FieldsView {
    match f {
        FieldsModel::Unit => FieldsView::Unit,
        FieldsModel::Unnamed(v) => FieldsView::Unnamed(unnamed_view(v@)),
        FieldsModel::Named(v) => FieldsView::Named(named_view(v@)),
    }
}

/// The plain error a variant of the global enum defines.
pub open spec fn variant_definition_view(v: VariantModel) -> DefinitionView {
    DefinitionView::Simple(variant_fields_view(v.fields), variant_from(v))
}

/// The plain error a variant of the global enum defines: its fields, and
/// the type it converts from.
pub fn variant_definition(v: &VariantModel) -> (r: TypeDefinition)
    ensures
        definition_view(r) == variant_definition_view(*v),
{
    proof { reveal_strlit("from"); }
    let has_from = find_attr(&v.attrs, "from").is_some();
    let (fields, from) = match &v.fields {
        FieldsModel::Unit => (SimpleFields::Unit, None),
        FieldsModel::Named(fs) => (SimpleFields::Named(named_copy(fs)), None),
        FieldsModel::Unnamed(fs) => {
            let from = if has_from && fs.len() == 1 { Some(copy_string(&fs[0].ty)) } else { None };
            (SimpleFields::Unnamed(unnamed_copy(fs)), from)
        },
    };
    TypeDefinition { ty: TypeDefinitionType::Simple(SimpleType { fields, from }) }
}

fn named_copy(v: &Vec<NamedField>) -> (r: Vec<NamedField>)
    ensures
        named_view(r@) == named_view(v@),
{
    let mut out: Vec<NamedField> = Vec::new();
    let mut i: usize = 0;
    while i < v.len()
        invariant
            i <= v.len(),
            named_view(out@) == named_view(v@).take(i as int),
        decreases v.len() - i,
    {
        let ghost before = out@;
        out.push(NamedField { name: copy_string(&v[i].name), ty: copy_string(&v[i].ty) });
        assert(named_view(out@) =~= named_view(before).push((out@.last().name@, out@.last().ty@)));
        assert(named_view(out@) =~= named_view(v@).take(i + 1));
        i += 1;
    }
    assert(named_view(v@).take(v.len() as int) =~= named_view(v@));
    out
}

fn unnamed_copy(v: &Vec<UnnamedField>) -> (r: Vec<UnnamedField>)
    ensures
        unnamed_view(r@) == unnamed_view(v@),
{
    let mut out: Vec<UnnamedField> = Vec::new();
    let mut i: usize = 0;
    while i < v.len()
        invariant
            i <= v.len(),
            unnamed_view(out@) == unnamed_view(v@).take(i as int),
        decreases v.len() - i,
    {
        let ghost before = out@;
        out.push(UnnamedField { ty: copy_string(&v[i].ty) });
        assert(unnamed_view(out@) =~= unnamed_view(before).push(out@.last().ty@));
        assert(unnamed_view(out@) =~= unnamed_view(v@).take(i + 1));
        i += 1;
    }
    assert(unnamed_view(v@).take(v.len() as int) =~= unnamed_view(v@));
    out
}

// ---------------------------------------------------------------------------
// The error list of a marked signature
// ---------------------------------------------------------------------------

/// The tokens of the `e![...]` call in `Result<_, e![...]>`, when the return
/// type has that shape.
pub open spec fn result_macro_tokens(ty: TypeModel) -> Option<Seq<TokenTree>> {
    match result_error_arg(ty) {
        Some(GenericArgumentModel::Type { ty: TypeModel::Macro(toks), .. }) => Some(toks@),
        _ => None,
    }
}

/// Finds the tokens of the `e![...]` call of a return type.
pub fn find_result_macro_tokens(ty: &TypeModel) -> (r: Option<&Vec<TokenTree>>)
    ensures
        match result_macro_tokens(*ty) {
            Some(t) => r matches Some(v) && v@ == t,
            None => r is None,
        },
{
    match crate::signature::extract_result_error_type(ty) {
        Some(GenericArgumentModel::Type { ty: TypeModel::Macro(toks), .. }) => Some(toks),
        _ => None,
    }
}

/// The tokens of the `e![...]` call of a return type that has one.
pub fn extract_result_error_tokens(ty: &TypeModel) -> (r: &Vec<TokenTree>)
    requires
        result_macro_tokens(*ty) is Some,
    ensures
        r@ == result_macro_tokens(*ty)->0,
{
    find_result_macro_tokens(ty).unwrap()
}

/// The errors of a signature: `Err` when it has no return type, else the
/// plain and starred errors of its `e![...]` list; `None` when the return
/// type has no such list or the list is malformed.
pub open spec fn e_errors_spec(output: Option<TypeModel>) -> Option<Result<ErrorLists, ()>> {
    match output {
        None => Some(Err(())),
        Some(ty) => match result_macro_tokens(ty) {
            None => None,
            Some(toks) => match skerry_error_list_spec(toks) {
                Ok(l) => Some(Ok(l)),
                Err(_) => None,
            },
        },
    }
}

/// Reads the plain and starred errors of a signature's `e![...]` list.
pub fn extract_e_errors(output: &Option<TypeModel>) -> (r: Result<(Vec<String>, Vec<String>), ()>)
    requires
        e_errors_spec(*output) is Some,
    ensures
        match e_errors_spec(*output)->0 {
            Err(()) => r is Err,
            Ok(l) => r matches Ok(v) && views(v.0@) == l.0 && views(v.1@) == l.1,
        },
{
    match output {
        None => Err(()),
        Some(ty) => {
            let toks = extract_result_error_tokens(ty);
            match parse_skerry_error_list(toks) {
                Ok(lists) => Ok(lists),
                Err(_) => { proof { assert(false); } Err(()) },
            }
        },
    }
}

/// The generator can read the signature: it returns `Result<_, e![...]>`
/// with a well-formed list.
pub open spec fn scannable_spec(sig: SignatureModel) -> bool {
    e_errors_spec(sig.output) matches Some(Ok(_))
}

/// Whether the generator can read a signature.
pub fn scannable(sig: &SignatureModel) -> (r: bool)
    ensures
        r == scannable_spec(*sig),
{
    match &sig.output {
        None => false,
        Some(ty) => match find_result_macro_tokens(ty) {
            None => false,
            Some(toks) => parse_skerry_error_list(toks).is_ok(),
        },
    }
}


// ---------------------------------------------------------------------------
// The pass over the source files
// ---------------------------------------------------------------------------

/// The module path of a source file: `crate`, then the folders below `src`,
/// then the file's stem unless it is `mod`, `lib` or `main`.
pub open spec fn module_stack_of(dirs: Seq<Seq<char>>, stem: Seq<char>) -> Seq<Seq<char>> {
    if stem == "mod"@ || stem == "lib"@ || stem == "main"@ {
        seq!["crate"@] + dirs
    } else {
        seq!["crate"@] + dirs + seq![stem]
    }
}

/// Builds the module path of a source file from its folders below `src` and
/// its stem.
pub fn file_module_stack(dirs: &Vec<String>, stem: &String) -> (r: Vec<String>)
    ensures
        views(r@) == module_stack_of(views(dirs@), stem@),
{
    let mut out: Vec<String> = Vec::new();
    out.push(String::from_str("crate"));
    let mut i: usize = 0;
    assert(views(out@) =~= seq!["crate"@]);
    while i < dirs.len()
        invariant
            i <= dirs.len(),
            views(out@) == seq!["crate"@] + views(dirs@).take(i as int),
        decreases dirs.len() - i,
    {
        let ghost before = out@;
        out.push(copy_string(&dirs[i]));
        proof { lemma_views_push(before, out@.last()); }
        assert(views(out@) =~= seq!["crate"@] + views(dirs@).take(i + 1));
        i += 1;
    }
    assert(views(dirs@).take(dirs.len() as int) =~= views(dirs@));
    proof {
        reveal_strlit("mod");
        reveal_strlit("lib");
        reveal_strlit("main");
    }
    if !(crate::text::text_is(stem, "mod") || crate::text::text_is(stem, "lib") || crate::text::text_is(stem, "main")) {
        let ghost before = out@;
        out.push(copy_string(stem));
        proof { lemma_views_push(before, out@.last()); }
    }
    out
}

/// A file is read again unless the stamp of the last run and the file's
/// modification time are both known and the file is not newer than the
/// stamp (times in nanoseconds since the epoch).
pub fn needs_processing(file_modified: Option<u128>, stamp_modified: Option<u128>) -> (r: bool)
    ensures
        r == match (file_modified, stamp_modified) {
            (Some(f), Some(s)) => f > s,
            _ => true,
        },
{
    let stamp = match stamp_modified {
        Some(t) => t,
        None => { return true; },
    };
    let file = match file_modified {
        Some(t) => t,
        None => { return true; },
    };
    file > stamp
}

/// The prefix the generator puts before the names of a block's errors: the
/// prefixes of the enclosing blocks, one after the other.
pub open spec fn prefix_text(stack: Seq<String>) -> Seq<char> {
    seq_join(views(stack), Seq::empty())
}

/// The name of the composite error of a function under a prefix.
pub open spec fn composite_name(prefix: Seq<char>, fn_name: Seq<char>) -> Seq<char> {
    prefix + camel_case(fn_name) + "Error"@
}

/// The state of the pass over the source files: the file being read, what
/// was collected so far, and where the reading stands in the file.
pub struct SkerryScanner {
    pub file_path: String,
    pub type_definitions: DefinitionTable,
    pub errors: Vec<TypeDefinitionError>,
    pub prefix_stack: Vec<String>,
    pub module_stack: Vec<String>,
    pub global_error_path: Option<(String, String)>,
}

/// What reading a marked signature does: its composite is added under its
/// name, or, when the name is taken, a conflict is reported; either under
/// the signature's hash `hash`. Nothing else changes.
pub open spec fn function_read(old_s: SkerryScanner, new_s: SkerryScanner, sig: SignatureModel, hash: u64) -> bool {
    let name = composite_name(prefix_text(old_s.prefix_stack@), sig.ident@);
    let lists = e_errors_spec(sig.output)->0->Ok_0;
    let before = definition_table_contents(old_s.type_definitions);
    let after = definition_table_contents(new_s.type_definitions);
    &&& new_s.file_path == old_s.file_path
    &&& new_s.prefix_stack == old_s.prefix_stack
    &&& new_s.module_stack == old_s.module_stack
    &&& new_s.global_error_path == old_s.global_error_path
    &&& if !before.contains_key(name) {
        &&& after == before.insert(name, after[name])
        &&& definition_view(after[name]) == DefinitionView::Composite(lists.0, lists.1, old_s.file_path@, hash)
        &&& new_s.errors == old_s.errors
    } else {
        &&& after == before
        &&& failures_view(new_s.errors@) == failures_view(old_s.errors@).push(
            ("Conflicting name definition: "@ + name, old_s.file_path@, hash))
    }
}

/// The definitions after registering the variants of the global enum, in
/// order (a later variant of the same name wins).
pub open spec fn register_variants(m: Map<Seq<char>, DefinitionView>, vs: Seq<VariantModel>) -> Map<Seq<char>, DefinitionView>
    decreases vs.len(),
{
    if vs.len() == 0 {
        m
    } else {
        register_variants(m, vs.drop_last()).insert(vs.last().name@, variant_definition_view(vs.last()))
    }
}

/// Inserting a definition changes the view at its name only.
proof fn lemma_contents_view_insert(m: Map<Seq<char>, TypeDefinition>, k: Seq<char>, d: TypeDefinition)
    ensures
        contents_view(m.insert(k, d)) == contents_view(m).insert(k, definition_view(d)),
{
    assert(contents_view(m.insert(k, d)) =~= contents_view(m).insert(k, definition_view(d)));
}

/// Why the generator could not produce its output.
pub enum SkerryCodeGenError {
    /// No `#[skerry_global]` enum was found.
    MissingGlobalDefinition,
    /// The composites cannot be expanded.
    Unresolvable(ResolveError),
}

impl SkerryScanner {
    /// Nothing read yet.
    pub fn new() -> (r: Self)
        ensures
            r.file_path@ == Seq::<char>::empty(),
            definition_table_contents(r.type_definitions).dom() == Set::<Seq<char>>::empty(),
            r.errors@.len() == 0,
            r.prefix_stack@.len() == 0,
            r.module_stack@.len() == 0,
            r.global_error_path is None,
    {
        SkerryScanner {
            file_path: String::new(),
            type_definitions: definition_table_new(),
            errors: Vec::new(),
            prefix_stack: Vec::new(),
            module_stack: Vec::new(),
            global_error_path: None,
        }
    }

    /// Starts reading a file, at the top of the given module.
    pub fn start_file(&mut self, file_path: String, module_stack: Vec<String>)
        ensures
            final(self).file_path == file_path,
            final(self).module_stack == module_stack,
            final(self).prefix_stack@.len() == 0,
            final(self).type_definitions == old(self).type_definitions,
            final(self).errors == old(self).errors,
            final(self).global_error_path == old(self).global_error_path,
    {
        self.file_path = file_path;
        self.module_stack = module_stack;
        self.prefix_stack = Vec::new();
    }

    /// Enters an inline module.
    pub fn visit_item_mod(&mut self, name: String)
        ensures
            final(self).module_stack@ == old(self).module_stack@.push(name),
            final(self).file_path == old(self).file_path,
            final(self).prefix_stack == old(self).prefix_stack,
            final(self).type_definitions == old(self).type_definitions,
            final(self).errors == old(self).errors,
            final(self).global_error_path == old(self).global_error_path,
    {
        self.module_stack.push(name);
    }

    /// Leaves the innermost module.
    pub fn leave_item_mod(&mut self)
        ensures
            final(self).module_stack@ == (if old(self).module_stack@.len() > 0 {
                old(self).module_stack@.drop_last()
            } else {
                old(self).module_stack@
            }),
            final(self).file_path == old(self).file_path,
            final(self).prefix_stack == old(self).prefix_stack,
            final(self).type_definitions == old(self).type_definitions,
            final(self).errors == old(self).errors,
            final(self).global_error_path == old(self).global_error_path,
    {
        let _ = self.module_stack.pop();
    }

    /// Enters an impl block with the given attributes: only one marked
    /// `#[skerry]` is read, under the name of its type as prefix. Says
    /// whether it is read.
    pub fn visit_item_impl(&mut self, attrs: &Vec<Option<String>>, self_ty: &TypeModel) -> (entered: bool)
        ensures
            entered == has_attr(attrs@, "skerry"@),
            final(self).prefix_stack@ == (if entered {
                old(self).prefix_stack@.push(final(self).prefix_stack@.last())
            } else {
                old(self).prefix_stack@
            }),
            entered ==> final(self).prefix_stack@.last()@ == crate::signature::impl_prefix_of(*self_ty),
            final(self).file_path == old(self).file_path,
            final(self).module_stack == old(self).module_stack,
            final(self).type_definitions == old(self).type_definitions,
            final(self).errors == old(self).errors,
            final(self).global_error_path == old(self).global_error_path,
    {
        proof { reveal_strlit("skerry"); }
        if find_attr(attrs, "skerry").is_none() {
            return false;
        }
        let prefix = impl_prefix(self_ty);
        self.prefix_stack.push(prefix);
        true
    }

    /// Enters a trait with the given attributes: only one marked `#[skerry]`
    /// is read, under its name as prefix. Says whether it is read.
    pub fn visit_item_trait(&mut self, attrs: &Vec<Option<String>>, ident: &String) -> (entered: bool)
        ensures
            entered == has_attr(attrs@, "skerry"@),
            final(self).prefix_stack@ == (if entered {
                old(self).prefix_stack@.push(final(self).prefix_stack@.last())
            } else {
                old(self).prefix_stack@
            }),
            entered ==> final(self).prefix_stack@.last()@ == ident@,
            final(self).file_path == old(self).file_path,
            final(self).module_stack == old(self).module_stack,
            final(self).type_definitions == old(self).type_definitions,
            final(self).errors == old(self).errors,
            final(self).global_error_path == old(self).global_error_path,
    {
        proof { reveal_strlit("skerry"); }
        if find_attr(attrs, "skerry").is_none() {
            return false;
        }
        self.prefix_stack.push(copy_string(ident));
        true
    }

    /// Leaves the innermost impl block or trait.
    pub fn leave_block(&mut self)
        ensures
            final(self).prefix_stack@ == (if old(self).prefix_stack@.len() > 0 {
                old(self).prefix_stack@.drop_last()
            } else {
                old(self).prefix_stack@
            }),
            final(self).file_path == old(self).file_path,
            final(self).module_stack == old(self).module_stack,
            final(self).type_definitions == old(self).type_definitions,
            final(self).errors == old(self).errors,
            final(self).global_error_path == old(self).global_error_path,
    {
        let _ = self.prefix_stack.pop();
    }

    /// Reads a marked signature: its composite error, named after the
    /// prefix and the function, is added with the signature's error lists,
    /// the file and the signature's hash, which is returned; when the name
    /// is taken, a conflict is reported instead.
    pub fn process_function_error(&mut self, sig: &SignatureModel) -> (hash: u64)
        requires
            scannable_spec(*sig),
        ensures
            function_read(*old(self), *final(self), *sig, hash),
    {
        let prefix = join(&self.prefix_stack, "");
        proof { reveal_strlit(""); }
        let sig_hash = calculate_sig_hash(prefix.as_str(), sig.text.as_str());
        let (types, composites) = match extract_e_errors(&sig.output) {
            Ok(lists) => lists,
            Err(()) => { proof { assert(false); } (Vec::new(), Vec::new()) },
        };
        let camel = format_camel_case(sig.ident.as_str());
        let mut name = copy_string(&prefix);
        push_str(&mut name, camel.as_str());
        push_str(&mut name, "Error");
        let ghost key = name@;
        let def = TypeDefinition::composite(CompositeType {
            file: copy_string(&self.file_path),
            hash: sig_hash,
            types,
            composites,
        });
        let ghost d = def;
        let ghost before = definition_table_contents(self.type_definitions);
        let conflict_name = copy_string(&name);
        let inserted = definition_table_try_insert(&mut self.type_definitions, name, def);
        if !inserted {
            let ghost old_errors = self.errors@;
            let e = TypeDefinitionError::new(
                DefinitionErrorCause::NameConflict { name: conflict_name },
                copy_string(&self.file_path),
                sig_hash,
            );
            self.errors.push(e);
            proof {
                assert(failures_view(self.errors@) =~= failures_view(old_errors).push(
                    crate::resolve::failure_view(self.errors@.last())));
            }
        } else {
            proof {
                let after = definition_table_contents(self.type_definitions);
                assert(after[key] == d);
            }
        }
        proof {
            assert(""@ =~= Seq::<char>::empty());
            assert(prefix@ == prefix_text(old(self).prefix_stack@));
            assert(key == composite_name(prefix_text(old(self).prefix_stack@), sig.ident@));
        }
        sig_hash
    }

    /// Reads a function with the given attributes: only one marked
    /// `#[skerry]` is read (as [`Self::process_function_error`] does), and
    /// its hash is returned.
    pub fn visit_item_fn(&mut self, attrs: &Vec<Option<String>>, sig: &SignatureModel) -> (r: Option<u64>)
        requires
            has_attr(attrs@, "skerry"@) ==> scannable_spec(*sig),
        ensures
            r is Some == has_attr(attrs@, "skerry"@),
            match r {
                Some(h) => function_read(*old(self), *final(self), *sig, h),
                None => *final(self) == *old(self),
            },
    {
        proof { reveal_strlit("skerry"); }
        if find_attr(attrs, "skerry").is_none() {
            return None;
        }
        Some(self.process_function_error(sig))
    }

    /// Reads the global error enum (marked `#[skerry_global]`): records its
    /// module and name, and defines a plain error for each variant. Returns
    /// each variant's name with its definition, in order.
    pub fn register_global_enum(&mut self, ident: &String, variants: &Vec<VariantModel>) -> (defined: Vec<(String, TypeDefinition)>)
        requires
            old(self).global_error_path is None,
        ensures
            final(self).global_error_path matches Some((m, g))
                && m@ == seq_join(views(old(self).module_stack@), "::"@) && g@ == ident@,
            contents_view(definition_table_contents(final(self).type_definitions))
                == register_variants(contents_view(definition_table_contents(old(self).type_definitions)), variants@),
            defined@.len() == variants@.len(),
            forall|k: int| 0 <= k < defined@.len() ==> (#[trigger] defined@[k]).0@ == variants@[k].name@
                && definition_view(defined@[k].1) == variant_definition_view(variants@[k]),
            final(self).file_path == old(self).file_path,
            final(self).prefix_stack == old(self).prefix_stack,
            final(self).module_stack == old(self).module_stack,
            final(self).errors == old(self).errors,
    {
        let module = join(&self.module_stack, "::");
        self.global_error_path = Some((module, copy_string(ident)));
        let ghost start = contents_view(definition_table_contents(self.type_definitions));
        let ghost gp = self.global_error_path;
        let mut defined: Vec<(String, TypeDefinition)> = Vec::new();
        let mut i: usize = 0;
        while i < variants.len()
            invariant
                i <= variants.len(),
                contents_view(definition_table_contents(self.type_definitions))
                    == register_variants(start, variants@.take(i as int)),
                defined@.len() == i,
                forall|k: int| 0 <= k < i ==> (#[trigger] defined@[k]).0@ == variants@[k].name@
                    && definition_view(defined@[k].1) == variant_definition_view(variants@[k]),
                self.global_error_path == gp,
                self.file_path == old(self).file_path,
                self.prefix_stack == old(self).prefix_stack,
                self.module_stack == old(self).module_stack,
                self.errors == old(self).errors,
            decreases variants.len() - i,
        {
            let v = &variants[i];
            let def = variant_definition(v);
            let copy = copy_definition(&def);
            let ghost m = definition_table_contents(self.type_definitions);
            definition_table_insert(&mut self.type_definitions, copy_string(&v.name), def);
            proof {
                lemma_contents_view_insert(m, v.name@, def);
                assert(variants@.take(i + 1).drop_last() =~= variants@.take(i as int));
            }
            defined.push((copy_string(&v.name), copy));
            i += 1;
        }
        assert(variants@.take(variants.len() as int) =~= variants@);
        defined
    }

    /// Restores a definition read from the cache of an unchanged file.
    pub fn restore_definition(&mut self, name: String, def: TypeDefinition)
        ensures
            definition_table_contents(final(self).type_definitions)
                == definition_table_contents(old(self).type_definitions).insert(name@, def),
            final(self).file_path == old(self).file_path,
            final(self).prefix_stack == old(self).prefix_stack,
            final(self).module_stack == old(self).module_stack,
            final(self).errors == old(self).errors,
            final(self).global_error_path == old(self).global_error_path,
    {
        definition_table_insert(&mut self.type_definitions, name, def);
    }

    /// Restores the global enum's module and name read from a cache.
    pub fn restore_global(&mut self, module: String, global_ident: String)
        ensures
            final(self).global_error_path == Some((module, global_ident)),
            final(self).type_definitions == old(self).type_definitions,
            final(self).file_path == old(self).file_path,
            final(self).prefix_stack == old(self).prefix_stack,
            final(self).module_stack == old(self).module_stack,
            final(self).errors == old(self).errors,
    {
        self.global_error_path = Some((module, global_ident));
    }

    /// Restores a failure read from a cache.
    pub fn restore_failure(&mut self, e: TypeDefinitionError)
        ensures
            final(self).errors@ == old(self).errors@.push(e),
            final(self).type_definitions == old(self).type_definitions,
            final(self).file_path == old(self).file_path,
            final(self).prefix_stack == old(self).prefix_stack,
            final(self).module_stack == old(self).module_stack,
            final(self).global_error_path == old(self).global_error_path,
    {
        self.errors.push(e);
    }

    /// Every composite definition collected, each once, with its name (in
    /// the table's own order): what the cache of each file keeps.
    pub fn composite_entries(&self) -> (r: Vec<(String, TypeDefinition)>)
        ensures
            forall|k: int| 0 <= k < r@.len() ==> {
                let defs = definition_table_contents(self.type_definitions);
                &&& defs.contains_key((#[trigger] r@[k]).0@)
                &&& defs[r@[k].0@].ty is Composite
                &&& definition_view(r@[k].1) == definition_view(defs[r@[k].0@])
            },
            forall|n: Seq<char>| #![trigger definition_table_contents(self.type_definitions)[n]]
                definition_table_contents(self.type_definitions).contains_key(n)
                && definition_table_contents(self.type_definitions)[n].ty is Composite
                ==> exists|k: int| 0 <= k < r@.len() && (#[trigger] r@[k]).0@ == n,
            forall|a: int, b: int| 0 <= a < b < r@.len() ==> (#[trigger] r@[a]).0@ != (#[trigger] r@[b]).0@,
    {
        let ghost defs = definition_table_contents(self.type_definitions);
        let keys = definition_table_keys(&self.type_definitions);
        let mut out: Vec<(String, TypeDefinition)> = Vec::new();
        let mut i: usize = 0;
        while i < keys.len()
            invariant
                i <= keys.len(),
                defs == definition_table_contents(self.type_definitions),
                views(keys@).no_duplicates(),
                views(keys@).to_set() == defs.dom(),
                forall|k: int| 0 <= k < out@.len() ==> {
                    &&& defs.contains_key((#[trigger] out@[k]).0@)
                    &&& defs[out@[k].0@].ty is Composite
                    &&& definition_view(out@[k].1) == definition_view(defs[out@[k].0@])
                },
                forall|k: int| 0 <= k < out@.len() ==> exists|j: int| 0 <= j < i && keys@[j]@ == (#[trigger] out@[k]).0@,
                forall|j: int| 0 <= j < i && (#[trigger] defs[keys@[j]@]).ty is Composite
                    ==> exists|k: int| 0 <= k < out@.len() && (#[trigger] out@[k]).0@ == keys@[j]@,
                forall|a: int, b: int| 0 <= a < b < out@.len() ==> (#[trigger] out@[a]).0@ != (#[trigger] out@[b]).0@,
            decreases keys.len() - i,
        {
            assert(views(keys@)[i as int] == keys@[i as int]@);
            assert(views(keys@).to_set().contains(keys@[i as int]@));
            match definition_table_get(&self.type_definitions, &keys[i]) {
                Some(d) => {
                    let is_composite = match &d.ty { TypeDefinitionType::Composite(_) => true, _ => false };
                    if is_composite {
                        let ghost before = out@;
                        out.push((copy_string(&keys[i]), copy_definition(d)));
                        proof {
                            assert forall|a: int, b: int| 0 <= a < b < out@.len() implies (#[trigger] out@[a]).0@ != (#[trigger] out@[b]).0@ by {
                                if b == out@.len() - 1 {
                                    assert(out@[a] == before[a]);
                                    let j = choose|j: int| 0 <= j < i && keys@[j]@ == before[a].0@;
                                    assert(views(keys@)[j] == keys@[j]@);
                                }
                            }
                            assert forall|k: int| 0 <= k < out@.len() implies exists|j: int| 0 <= j < i + 1 && keys@[j]@ == (#[trigger] out@[k]).0@ by {
                                if k < out@.len() - 1 {
                                    assert(out@[k] == before[k]);
                                } else {
                                    assert(keys@[i as int]@ == out@[k].0@);
                                }
                            }
                            assert forall|j: int| 0 <= j < i + 1 && (#[trigger] defs[keys@[j]@]).ty is Composite
                                implies exists|k: int| 0 <= k < out@.len() && (#[trigger] out@[k]).0@ == keys@[j]@ by {
                                if j < i {
                                    let k = choose|k: int| 0 <= k < before.len() && (#[trigger] before[k]).0@ == keys@[j]@;
                                    assert(out@[k] == before[k]);
                                } else {
                                    assert(out@[out@.len() - 1].0@ == keys@[j]@);
                                }
                            }
                        }
                    }
                },
                None => {},
            }
            i += 1;
        }
        proof {
            assert forall|n: Seq<char>| #![trigger defs[n]] defs.contains_key(n) && defs[n].ty is Composite
                implies exists|k: int| 0 <= k < out@.len() && (#[trigger] out@[k]).0@ == n by {
                assert(views(keys@).to_set().contains(n));
                let j = choose|j: int| 0 <= j < views(keys@).len() && views(keys@)[j] == n;
                assert(keys@[j]@ == n);
                assert(defs[keys@[j]@].ty is Composite);
            }
        }
        out
    }

    /// Resolves everything collected into the generator's output, for the
    /// global enum found (in its module, or in `module_override` when one is
    /// given). It succeeds exactly when a global enum was found and the
    /// definitions resolve. The scan's failures come first among the
    /// output's failures.
    pub fn finish(self, module_override: Option<String>) -> (r: Result<GeneratedOutput, SkerryCodeGenError>)
        ensures
            self.global_error_path is None ==> r matches Err(SkerryCodeGenError::MissingGlobalDefinition),
            self.global_error_path matches Some((m, g)) ==> {
                let defs = definition_table_contents(self.type_definitions);
                let module = match module_override { Some(o) => o@, None => m@ };
                &&& r is Ok <==> !resolve_fails(defs)
                &&& (r matches Err(SkerryCodeGenError::Unresolvable(_))) <==> resolve_fails(defs)
                &&& r matches Err(SkerryCodeGenError::Unresolvable(e)) ==>
                    ((e matches ResolveError::CircularDependency) <==> crate::resolve::has_cycle(defs))
                &&& r matches Ok(out) ==> {
                    let gp = module + "::"@ + g@;
                    &&& crate::resolve::resolution_correct(defs, module, out.resolution)
                    &&& failures_view(out.failures@) == failures_view(self.errors@)
                        + failures_view(out.resolution.classification.failures@)
                    &&& out.text@ == generated_text(defs, gp, out.resolution)
                    &&& stored_view(out.results@) == crate::resolve::results_view(out.resolution.classification.results@).map_values(accepted_entry())
                        + failures_view(out.failures@).map_values(failure_entry())
                        + seq![("global"@, (0int, Seq::<char>::empty(), Seq::<char>::empty()))]
                }
            },
    {
        let (found_module, global_ident) = match self.global_error_path {
            Some(p) => p,
            None => { return Err(SkerryCodeGenError::MissingGlobalDefinition); },
        };
        let module = match module_override {
            Some(o) => o,
            None => found_module,
        };
        match generate_output(&self.type_definitions, self.errors, &module, &global_ident) {
            Ok(out) => Ok(out),
            Err(e) => Err(SkerryCodeGenError::Unresolvable(e)),
        }
    }
}

} // verus!
