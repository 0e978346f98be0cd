//! Items of the error module and variants of the global error enum, as the
//! macros and the generator read them, and the attributes that mark them.

use vstd::prelude::*;
use crate::definitions::{NamedField, UnnamedField};
use crate::text::{copy_string, text_is};

verus! {

/// The fields of a struct or an enum variant.
pub enum FieldsModel {
    Named(Vec<NamedField>),
    Unnamed(Vec<UnnamedField>),
    Unit,
}

/// An item of a module: a struct with its attributes and fields, or
/// anything else. Each attribute is given by its path when that path is a
/// single identifier.
pub enum ItemModel {
    Struct { ident: String, attrs: Vec<Option<String>>, fields: FieldsModel },
    Other,
}

/// A variant of an enum, with its attributes (as for items) and fields.
pub struct VariantModel {
    pub name: String,
    pub attrs: Vec<Option<String>>,
    pub fields: FieldsModel,
}

/// The attribute at `i` is `#[name]` (its path is that one identifier).
pub open spec fn attr_is(attrs: Seq<Option<String>>, i: int, name: Seq<char>) -> bool {
    attrs[i] matches Some(n) && n@ == name
}

/// The position of the first `#[name]` attribute, if any.
pub open spec fn attr_position(attrs: Seq<Option<String>>, name: Seq<char>) -> Option<int> {
    if exists|i: int| 0 <= i < attrs.len() && #[trigger] attr_is(attrs, i, name) {
        Some(choose|i: int| 0 <= i < attrs.len() && #[trigger] attr_is(attrs, i, name)
            && forall|j: int| 0 <= j < i ==> !attr_is(attrs, j, name))
    } else {
        None
    }
}

/// Some attribute is `#[name]`.
pub open spec fn has_attr(attrs: Seq<Option<String>>, name: Seq<char>) -> bool {
    exists|i: int| 0 <= i < attrs.len() && #[trigger] attr_is(attrs, i, name)
}

/// Finds the first `#[name]` attribute.
pub fn find_attr(attrs: &Vec<Option<String>>, name: &str) -> (r: Option<usize>)
    ensures
        match r {
            Some(i) => i < attrs@.len() && attr_is(attrs@, i as int, name@)
                && forall|j: int| 0 <= j < i ==> !attr_is(attrs@, j, name@),
            None => !has_attr(attrs@, name@),
        },
        r is Some == has_attr(attrs@, name@),
{
    let mut i: usize = 0;
    while i < attrs.len()
        invariant
            i <= attrs.len(),
            forall|j: int| 0 <= j < i ==> !attr_is(attrs@, j, name@),
        decreases attrs.len() - i,
    {
        let hit = match &attrs[i] {
            Some(n) => text_is(n, name),
            None => false,
        };
        if hit {
            assert(attr_is(attrs@, i as int, name@));
            return Some(i);
        }
        i += 1;
    }
    None
}

/// The first `#[name]` attribute is the one [`find_attr`] reports.
pub proof fn lemma_attr_position(attrs: Seq<Option<String>>, name: Seq<char>, i: int)
    requires
        0 <= i < attrs.len(),
        attr_is(attrs, i, name),
        forall|j: int| 0 <= j < i ==> !attr_is(attrs, j, name),
    ensures
        attr_position(attrs, name) == Some(i),
{
    let k = choose|k: int| 0 <= k < attrs.len() && #[trigger] attr_is(attrs, k, name)
        && forall|j: int| 0 <= j < k ==> !attr_is(attrs, j, name);
    if k < i {
        assert(!attr_is(attrs, k, name));
    }
    if i < k {
        assert(!attr_is(attrs, i, name));
    }
}

/// The names of the structs among the items, in order.
pub open spec fn struct_names_of(items: Seq<ItemModel>) -> Seq<Seq<char>>
    decreases items.len(),
{
    if items.len() == 0 {
        Seq::empty()
    } else {
        let rest = struct_names_of(items.drop_last());
        match items.last() {
            ItemModel::Struct { ident, .. } => rest.push(ident@),
            ItemModel::Other => rest,
        }
    }
}

/// The names of the structs among the items, in order.
pub fn struct_names(items: &Vec<ItemModel>) -> (r: Vec<String>)
    ensures
        crate::text::views(r@) == struct_names_of(items@),
{
    let mut out: Vec<String> = Vec::new();
    let mut i: usize = 0;
    assert(crate::text::views(out@) =~= Seq::<Seq<char>>::empty());
    while i < items.len()
        invariant
            i <= items.len(),
            crate::text::views(out@) == struct_names_of(items@.take(i as int)),
        decreases items.len() - i,
    {
        assert(items@.take(i + 1).drop_last() =~= items@.take(i as int));
        match &items[i] {
            ItemModel::Struct { ident, .. } => {
                let ghost before = out@;
                out.push(copy_string(ident));
                proof { crate::text::lemma_views_push(before, out@.last()); }
            },
            ItemModel::Other => {},
        }
        i += 1;
    }
    assert(items@.take(items.len() as int) =~= items@);
    out
}

} // verus!
