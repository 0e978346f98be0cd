//! The attribute macros that work with the generator: `#[skerry]` marks
//! signatures whose error type the generator fills in, `#[skerry_global]`
//! checks the global error enum, `skerry_invoke!` reads back what the
//! generator stored, and `#[skerry_mod]` checks the `#[from]` structs of an
//! error module.

use vstd::prelude::*;
use crate::signature::{
    SignatureModel, TypeModel, ReplaceError, result_error_arg, replace_fn_error, type_path_ident,
    get_type_ident, type_ident, type_to_ident,
};
use crate::items::{
    ItemModel, VariantModel, FieldsModel, has_attr, attr_position, find_attr, lemma_attr_position,
    struct_names_of,
};
use crate::fn_attrs::{MethodModel, MethodExpansion, marked_outcomes_from, expansions_match};
use crate::tokens::{TokenTree, AttributeError, ImplAttribute, attribute_from, attribute_error_ok};
use crate::writer::WrittenResult;
use crate::text::{views, copy_string, push_str};
use crate::hashing::{normalize_signature, normalized_signature};

verus! {

// ---------------------------------------------------------------------------
// `#[skerry]`
// ---------------------------------------------------------------------------

/// An item under `#[skerry]`: a function, an impl block (whether it
/// implements a trait, its type, and the signatures of its methods), a
/// trait (its name and the signatures of its methods), or anything else.
pub enum SkerryItem {
    Fn(SignatureModel),
    Impl { trait_impl: bool, self_ty: TypeModel, fns: Vec<SignatureModel> },
    Trait { ident: String, fns: Vec<SignatureModel> },
    Other,
}

/// Why `#[skerry]` refused an item.
pub enum SkerryAttrError {
    /// `#[skerry] does not support trait implementation blocks. Instead call
    /// #[skerry] in your trait definition.`
    TraitImpl,
    /// `#[skerry] only supports functions and impl/trait blocks`
    Unsupported,
    /// `Function must return Result<T, e![...]>`, for the signature at the
    /// position, at its return type or its `fn` keyword.
    NoErrorType { index: usize, at: ReplaceError },
}

/// The message of a refusal.
pub open spec fn skerry_attr_message(e: SkerryAttrError) -> Seq<char> {
    match e {
        SkerryAttrError::TraitImpl =>
            "#[skerry] does not support trait implementation blocks. Instead call #[skerry] in your trait definition."@,
        SkerryAttrError::Unsupported => "#[skerry] only supports functions and impl/trait blocks"@,
        SkerryAttrError::NoErrorType { .. } => crate::signature::replace_error_message(),
    }
}

impl SkerryAttrError {
    /// The message shown for this refusal.
    pub fn message(&self) -> (r: String)
        ensures
            r@ == skerry_attr_message(*self),
    {
        match self {
            SkerryAttrError::TraitImpl => String::from_str(
                "#[skerry] does not support trait implementation blocks. Instead call #[skerry] in your trait definition.",
            ),
            SkerryAttrError::Unsupported => String::from_str("#[skerry] only supports functions and impl/trait blocks"),
            SkerryAttrError::NoErrorType { .. } => crate::signature::replace_error_text(),
        }
    }
}

/// A signature can be marked: it returns `Result<_, E>`.
pub open spec fn markable(sig: SignatureModel) -> bool {
    sig.output matches Some(t) && result_error_arg(t) is Some
}

/// Where an unmarkable signature is reported.
pub open spec fn unmarkable_at(sig: SignatureModel) -> ReplaceError {
    if sig.output is None { ReplaceError::AtFnToken } else { ReplaceError::AtReturnType }
}

/// The first signature that cannot be marked, if any.
pub open spec fn first_unmarkable(fns: Seq<SignatureModel>) -> Option<int> {
    if exists|i: int| 0 <= i < fns.len() && !markable(#[trigger] fns[i]) {
        Some(choose|i: int| 0 <= i < fns.len() && !markable(#[trigger] fns[i])
            && forall|j: int| 0 <= j < i ==> markable(fns[j]))
    } else {
        None
    }
}

/// The prefix `#[skerry]` gives the methods of an impl block: the type's
/// name when the type is a single identifier, else nothing.
pub open spec fn skerry_impl_prefix(self_ty: TypeModel) -> Seq<char> {
    match type_path_ident(self_ty) {
        Some(n) => n,
        None => Seq::empty(),
    }
}

/// What `#[skerry]` does with an item: refuses it, or marks each of its
/// signatures (all of them must be markable).
pub open spec fn skerry_outcome(item: SkerryItem) -> Result<Seq<SignatureModel>, SkerryAttrError> {
    match item {
        SkerryItem::Fn(sig) => if markable(sig) {
            Ok(seq![sig])
        } else {
            Err(SkerryAttrError::NoErrorType { index: 0, at: unmarkable_at(sig) })
        },
        SkerryItem::Impl { trait_impl, fns, .. } => if trait_impl {
            Err(SkerryAttrError::TraitImpl)
        } else {
            match first_unmarkable(fns@) {
                Some(i) => Err(SkerryAttrError::NoErrorType { index: i as usize, at: unmarkable_at(fns@[i]) }),
                None => Ok(fns@),
            }
        },
        SkerryItem::Trait { fns, .. } => match first_unmarkable(fns@) {
            Some(i) => Err(SkerryAttrError::NoErrorType { index: i as usize, at: unmarkable_at(fns@[i]) }),
            None => Ok(fns@),
        },
        SkerryItem::Other => Err(SkerryAttrError::Unsupported),
    }
}

/// The prefix under which each signature of the item is hashed.
pub open spec fn skerry_prefix(item: SkerryItem) -> Seq<char> {
    match item {
        SkerryItem::Impl { self_ty, .. } => skerry_impl_prefix(self_ty),
        SkerryItem::Trait { ident, .. } => ident@,
        _ => Seq::empty(),
    }
}

/// Each signature is marked under its key: the prefix and the signature's
/// text without whitespace.
pub open spec fn marks_match(v: Seq<(u64, String)>, prefix: Seq<char>, sigs: Seq<SignatureModel>) -> bool {
    &&& v.len() == sigs.len()
    &&& forall|k: int| 0 <= k < v.len() ==> (#[trigger] v[k]).1@ == normalized_signature(prefix, sigs[k].text@)
}

/// Marks every signature, stopping at the first that cannot be marked; each
/// mark is the hash and the key it was taken of.
fn mark_all(prefix: &str, fns: &Vec<SignatureModel>) -> (r: Result<Vec<(u64, String)>, SkerryAttrError>)
    ensures
        match first_unmarkable(fns@) {
            Some(i) => r matches Err(e) && e == SkerryAttrError::NoErrorType { index: i as usize, at: unmarkable_at(fns@[i]) },
            None => r matches Ok(v) && marks_match(v@, prefix@, fns@),
        },
{
    let mut hashes: Vec<(u64, String)> = Vec::new();
    let mut i: usize = 0;
    while i < fns.len()
        invariant
            i <= fns.len(),
            hashes@.len() == i,
            forall|k: int| 0 <= k < i ==> (#[trigger] hashes@[k]).1@ == normalized_signature(prefix@, fns@[k].text@),
            forall|j: int| 0 <= j < i ==> markable(#[trigger] fns@[j]),
        decreases fns.len() - i,
    {
        match replace_fn_error(prefix, &fns[i]) {
            Ok(h) => {
                assert(markable(fns@[i as int]));
                let key = normalize_signature(prefix, fns[i].text.as_str());
                hashes.push((h, key));
            },
            Err(at) => {
                proof {
                    assert(!markable(fns@[i as int]));
                    let k = choose|k: int| 0 <= k < fns@.len() && !markable(#[trigger] fns@[k])
                        && forall|j: int| 0 <= j < k ==> markable(fns@[j]);
                    if k < i {
                        assert(markable(fns@[k]));
                    }
                    if i < k {
                        assert(markable(fns@[i as int]));
                    }
                }
                return Err(SkerryAttrError::NoErrorType { index: i, at });
            },
        }
        i += 1;
    }
    Ok(hashes)
}

/// Applies `#[skerry]` to an item: refuses trait implementations and other
/// items, and marks each signature (of the function, or of each method in
/// order) with the hash under which its error type is looked up, and the
/// key that hash was taken of.
pub fn skerry(item: &SkerryItem) -> (r: Result<Vec<(u64, String)>, SkerryAttrError>)
    ensures
        match skerry_outcome(*item) {
            Ok(sigs) => r matches Ok(v) && marks_match(v@, skerry_prefix(*item), sigs),
            Err(e) => r matches Err(e2) && e2 == e,
        },
{
    match item {
        SkerryItem::Fn(sig) => {
            match replace_fn_error("", sig) {
                Ok(h) => {
                    let mut v: Vec<(u64, String)> = Vec::new();
                    let key = normalize_signature("", sig.text.as_str());
                    proof { reveal_strlit(""); }
                    v.push((h, key));
                    Ok(v)
                },
                Err(at) => Err(SkerryAttrError::NoErrorType { index: 0, at }),
            }
        },
        SkerryItem::Impl { trait_impl, self_ty, fns } => {
            if *trait_impl {
                return Err(SkerryAttrError::TraitImpl);
            }
            let prefix = match get_type_ident(self_ty) {
                Some(n) => n,
                None => String::new(),
            };
            mark_all(prefix.as_str(), fns)
        },
        SkerryItem::Trait { ident, fns } => mark_all(ident.as_str(), fns),
        SkerryItem::Other => Err(SkerryAttrError::Unsupported),
    }
}

// ---------------------------------------------------------------------------
// `#[skerry_global]`
// ---------------------------------------------------------------------------

/// Why `#[skerry_global]` refused an enum.
pub enum GlobalAttrError {
    /// `skerry_global enums must be 'pub'`
    NotPublic,
    /// `#[from] can only be applied to tuples with one element`, at the
    /// variant.
    BadFrom(usize),
}

/// The message of a refusal.
pub open spec fn global_attr_message(e: GlobalAttrError) -> Seq<char> {
    match e {
        GlobalAttrError::NotPublic => "skerry_global enums must be 'pub'"@,
        GlobalAttrError::BadFrom(_) => "#[from] can only be applied to tuples with one element"@,
    }
}

impl GlobalAttrError {
    /// The message shown for this refusal.
    pub fn message(&self) -> (r: String)
        ensures
            r@ == global_attr_message(*self),
    {
        match self {
            GlobalAttrError::NotPublic => String::from_str("skerry_global enums must be 'pub'"),
            GlobalAttrError::BadFrom(_) => String::from_str("#[from] can only be applied to tuples with one element"),
        }
    }
}

/// A variant may carry `#[from]` only when it is a tuple variant with at
/// most one field (the check refuses two or more fields, and other kinds of
/// variants).
pub open spec fn from_ok(v: VariantModel) -> bool {
    has_attr(v.attrs@, "from"@) ==> (v.fields matches FieldsModel::Unnamed(fs) && fs@.len() <= 1)
}

/// The first variant that carries `#[from]` wrongly, if any.
pub open spec fn first_bad_from(vs: Seq<VariantModel>) -> Option<int> {
    if exists|i: int| 0 <= i < vs.len() && !from_ok(#[trigger] vs[i]) {
        Some(choose|i: int| 0 <= i < vs.len() && !from_ok(#[trigger] vs[i])
            && forall|j: int| 0 <= j < i ==> from_ok(vs[j]))
    } else {
        None
    }
}

/// Checks the global error enum: it must be public, and `#[from]` may only
/// stand on tuple variants with at most one field.
pub fn skerry_global(is_pub: bool, variants: &Vec<VariantModel>) -> (r: Result<(), GlobalAttrError>)
    ensures
        !is_pub ==> r matches Err(GlobalAttrError::NotPublic),
        is_pub ==> match first_bad_from(variants@) {
            Some(i) => r matches Err(GlobalAttrError::BadFrom(k)) && k == i,
            None => r is Ok,
        },
{
    if !is_pub {
        return Err(GlobalAttrError::NotPublic);
    }
    let mut i: usize = 0;
    proof { reveal_strlit("from"); }
    while i < variants.len()
        invariant
            is_pub,
            i <= variants.len(),
            forall|j: int| 0 <= j < i ==> from_ok(#[trigger] variants@[j]),
        decreases variants.len() - i,
    {
        let v = &variants[i];
        if find_attr(&v.attrs, "from").is_some() {
            let ok = match &v.fields {
                FieldsModel::Unnamed(fs) => fs.len() <= 1,
                _ => false,
            };
            if !ok {
                proof {
                    assert(!from_ok(variants@[i as int]));
                    let k = choose|k: int| 0 <= k < variants@.len() && !from_ok(#[trigger] variants@[k])
                        && forall|j: int| 0 <= j < k ==> from_ok(variants@[j]);
                    if k < i {
                        assert(from_ok(variants@[k]));
                    }
                    if i < k {
                        assert(from_ok(variants@[i as int]));
                    }
                }
                return Err(GlobalAttrError::BadFrom(i));
            }
        }
        assert(from_ok(variants@[i as int]));
        i += 1;
    }
    Ok(())
}

// ---------------------------------------------------------------------------
// `#[skerry_mod]`
// ---------------------------------------------------------------------------

/// Why `#[skerry_mod]` refused a `#[from]` struct.
pub enum ModError {
    /// `#[from] structs must have exactly one field`, at the struct.
    NotOneField(usize),
    /// `#[from] can only be used on tuple structs`, at the struct.
    NotTuple(usize),
}

/// The message of a refusal.
pub open spec fn mod_error_message(e: ModError) -> Seq<char> {
    match e {
        ModError::NotOneField(_) => "#[from] structs must have exactly one field"@,
        ModError::NotTuple(_) => "#[from] can only be used on tuple structs"@,
    }
}

impl ModError {
    /// The message shown for this refusal.
    pub fn message(&self) -> (r: String)
        ensures
            r@ == mod_error_message(*self),
    {
        match self {
            ModError::NotOneField(_) => String::from_str("#[from] structs must have exactly one field"),
            ModError::NotTuple(_) => String::from_str("#[from] can only be used on tuple structs"),
        }
    }
}

/// What an error module expands to: the names of its structs (the variants
/// of the global enum), and the `#[from]` structs, each by its position
/// among the items and that of its `#[from]` attribute, which is removed.
pub struct ModPlan {
    pub struct_names: Vec<String>,
    pub from_structs: Vec<(usize, usize)>,
}

/// The `#[from]` structs from position `i` on (after those in `acc`), or the
/// first refusal.
pub open spec fn from_structs_from(items: Seq<ItemModel>, i: int, acc: Seq<(int, int)>) -> Result<Seq<(int, int)>, ModError>
    decreases items.len() - i,
{
    if i < 0 || i >= items.len() {
        Ok(acc)
    } else {
        match items[i] {
            ItemModel::Struct { attrs, fields, .. } => match attr_position(attrs@, "from"@) {
                None => from_structs_from(items, i + 1, acc),
                Some(pos) => match fields {
                    FieldsModel::Unnamed(fs) => if fs@.len() == 1 {
                        from_structs_from(items, i + 1, acc.push((i, pos)))
                    } else {
                        Err(ModError::NotOneField(i as usize))
                    },
                    _ => Err(ModError::NotTuple(i as usize)),
                },
            },
            ItemModel::Other => from_structs_from(items, i + 1, acc),
        }
    }
}

/// Reads an error module: the names of its structs, and its `#[from]`
/// structs, which must be tuple structs of exactly one field.
pub fn skerry_mod(items: &Vec<ItemModel>) -> (r: Result<ModPlan, ModError>)
    ensures
        match from_structs_from(items@, 0, Seq::empty()) {
            Ok(fs) => r matches Ok(plan) && views(plan.struct_names@) == struct_names_of(items@)
                && plan.from_structs@.len() == fs.len()
                && forall|k: int| 0 <= k < fs.len() ==> (#[trigger] plan.from_structs@[k]).0 as int == fs[k].0
                    && plan.from_structs@[k].1 as int == fs[k].1,
            Err(e) => r matches Err(e2) && e2 == e,
        },
{
    let mut from_structs: Vec<(usize, usize)> = Vec::new();
    let ghost mut done: Seq<(int, int)> = Seq::empty();
    let mut i: usize = 0;
    proof { reveal_strlit("from"); }
    while i < items.len()
        invariant
            i <= items.len(),
            from_structs_from(items@, 0, Seq::empty()) == from_structs_from(items@, i as int, done),
            from_structs@.len() == done.len(),
            forall|k: int| 0 <= k < done.len() ==> (#[trigger] from_structs@[k]).0 as int == done[k].0
                && from_structs@[k].1 as int == done[k].1,
        decreases items.len() - i,
    {
        match &items[i] {
            ItemModel::Struct { attrs, fields, .. } => {
                match find_attr(attrs, "from") {
                    None => {},
                    Some(pos) => {
                        proof { lemma_attr_position(attrs@, "from"@, pos as int); }
                        match fields {
                            FieldsModel::Unnamed(fs) => {
                                if fs.len() != 1 {
                                    return Err(ModError::NotOneField(i));
                                }
                                from_structs.push((i, pos));
                                proof { done = done.push((i as int, pos as int)); }
                            },
                            _ => { return Err(ModError::NotTuple(i)); },
                        }
                    },
                }
            },
            ItemModel::Other => {},
        }
        i += 1;
    }
    let struct_names = crate::items::struct_names(items);
    Ok(ModPlan { struct_names, from_structs })
}

// ---------------------------------------------------------------------------
// `#[skerry_impl]` with the type's name as the default prefix
// ---------------------------------------------------------------------------

/// The arguments of `#[skerry_impl(...)]` in this form.
pub struct ImplTraitAttribute {
    pub prefix: Option<String>,
}

impl ImplTraitAttribute {
    /// Reads the arguments: `prefix(Name)` items, each optionally followed
    /// by a comma.
    pub fn parse(toks: &Vec<TokenTree>) -> (r: Result<ImplTraitAttribute, AttributeError>)
        ensures
            match attribute_from(toks@, 0, None) {
                Ok(p) => r matches Ok(a) && (match p {
                    Some(n) => a.prefix matches Some(s) && s@ == n,
                    None => a.prefix is None,
                }),
                Err((kind, at)) => r matches Err(e) && attribute_error_ok(toks@, e, kind, at),
            },
    {
        match ImplAttribute::parse(toks) {
            Ok(a) => Ok(ImplTraitAttribute { prefix: a.prefix }),
            Err(e) => Err(e),
        }
    }
}

/// The prefix of the methods of an impl block in this form: the attribute's
/// prefix, or else the name of the implementing type.
pub open spec fn impl_trait_prefix(prefix: Option<String>, self_ty: TypeModel) -> Seq<char> {
    match prefix {
        Some(p) => p@,
        None => type_ident(self_ty),
    }
}

/// Expands the marked methods of an impl block, under the attribute's
/// prefix or the type's name.
pub fn skerry_impl(attr: &ImplTraitAttribute, self_ty: &TypeModel, methods: &Vec<MethodModel>) -> (r: Result<Vec<MethodExpansion>, (usize, crate::signature::SkerryFnError)>)
    ensures
        match marked_outcomes_from(methods@, 0, Some(impl_trait_prefix(attr.prefix, *self_ty)), Seq::empty()) {
            Ok(outs) => r matches Ok(v) && expansions_match(v@, outs),
            Err((i, e)) => r matches Err((i2, e2)) && i2 as int == i && e2 == e,
        },
{
    let prefix = match &attr.prefix {
        Some(p) => copy_string(p),
        None => type_to_ident(self_ty),
    };
    let block = ImplAttribute { prefix: Some(prefix) };
    crate::fn_attrs::skerry_impl(&block, methods)
}

// ---------------------------------------------------------------------------
// `skerry_invoke!`
// ---------------------------------------------------------------------------

/// The file where the generator stores the result for `key`, under the
/// build's output folder.
pub open spec fn expansion_path(out_dir: Seq<char>, key: Seq<char>) -> Seq<char> {
    out_dir + "/skerry/expansions/"@ + key
}

/// Builds the path of the file where the result for `key` is stored.
pub fn expansion_file(out_dir: &str, key: &str) -> (r: String)
    ensures
        r@ == expansion_path(out_dir@, key@),
{
    let mut s = String::new();
    push_str(&mut s, out_dir);
    push_str(&mut s, "/skerry/expansions/");
    push_str(&mut s, key);
    s
}

/// Why a stored result could not be used.
pub enum InvokeFailure {
    /// `Couldn't read expansion result`
    Unreadable,
    /// `Expansion result invalid`
    Invalid,
}

/// What `skerry_invoke!` expands to: the stored text, or an error.
pub enum InvokeOutcome {
    Expand(String),
    CompileError(String),
}

/// What `skerry_invoke!` expands to for a stored result, or a failure to
/// read it.
pub open spec fn invoke_outcome(read: Result<WrittenResult, InvokeFailure>) -> (bool, Seq<char>) {
    match read {
        Err(InvokeFailure::Unreadable) => (false, "Couldn't read expansion result"@),
        Err(InvokeFailure::Invalid) => (false, "Expansion result invalid"@),
        Ok(WrittenResult::Success(s)) => (true, s@),
        Ok(WrittenResult::EnumError { msg, .. }) => (false, msg@),
        Ok(WrittenResult::RawError { msg }) => (false, msg@),
    }
}

/// Turns a stored result into what `skerry_invoke!` expands to: the stored
/// type for a success, the message as an error otherwise.
pub fn skerry_invoke(read: Result<WrittenResult, InvokeFailure>) -> (r: InvokeOutcome)
    ensures
        match r {
            InvokeOutcome::Expand(s) => invoke_outcome(read) == (true, s@),
            InvokeOutcome::CompileError(s) => invoke_outcome(read) == (false, s@),
        },
{
    match read {
        Err(InvokeFailure::Unreadable) => InvokeOutcome::CompileError(String::from_str("Couldn't read expansion result")),
        Err(InvokeFailure::Invalid) => InvokeOutcome::CompileError(String::from_str("Expansion result invalid")),
        Ok(WrittenResult::Success(s)) => InvokeOutcome::Expand(s),
        Ok(WrittenResult::EnumError { msg, .. }) => InvokeOutcome::CompileError(msg),
        Ok(WrittenResult::RawError { msg }) => InvokeOutcome::CompileError(msg),
    }
}

} // verus!
