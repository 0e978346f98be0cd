//! The attribute macros that expand error lists in place: `#[skerry_fn]` on
//! a function, `#[skerry_impl]` and `#[skerry_trait]` on blocks whose marked
//! methods each get an error enum, and `#[skerry_mod]` on the error module.

use vstd::prelude::*;
use crate::signature::{
    SignatureModel, ErrorEnumPlan, SkerryFnError, skerry_fn_outcome, plan_matches, process_skerry_logic,
};
use crate::tokens::{ImplAttribute, TokenTree, Delimiter};
use crate::items::{ItemModel, attr_position, find_attr, lemma_attr_position, struct_names_of, struct_names};

verus! {

/// The outcome for a `#[skerry_fn]` function as the plan it gives.
pub open spec fn outcome_matches(
    r: Result<Option<ErrorEnumPlan>, SkerryFnError>,
    o: Result<Option<(Seq<char>, Seq<Seq<char>>, Seq<Seq<char>>)>, SkerryFnError>,
) -> bool {
    match o {
        Ok(None) => r matches Ok(None),
        Ok(Some(x)) => r matches Ok(Some(p)) && plan_matches(p, x),
        Err(e) => r matches Err(e2) && e2 == e,
    }
}

/// The optional prefix as plain characters.
pub open spec fn prefix_view(p: Option<&String>) -> Option<Seq<char>> {
    match p {
        Some(s) => Some(s@),
        None => None,
    }
}

/// An owned optional prefix as plain characters.
pub open spec fn owned_prefix_view(p: Option<String>) -> Option<Seq<char>> {
    match p {
        Some(s) => Some(s@),
        None => None,
    }
}

/// Expands a `#[skerry_fn]` function outside any block.
pub fn skerry_fn(sig: &SignatureModel) -> (r: Result<Option<ErrorEnumPlan>, SkerryFnError>)
    ensures
        outcome_matches(r, skerry_fn_outcome(*sig, None)),
{
    process_skerry_logic(sig, None)
}

/// Expands a `#[skerry_fn]` function or method, under the block's prefix.
pub fn skerry_fn_standard(sig: &SignatureModel, prefix: Option<&String>) -> (r: Result<Option<ErrorEnumPlan>, SkerryFnError>)
    ensures
        outcome_matches(r, skerry_fn_outcome(*sig, prefix_view(prefix))),
{
    process_skerry_logic(sig, prefix)
}

/// Expands a `#[skerry_fn]` trait method, under the trait's prefix.
pub fn skerry_fn_trait(sig: &SignatureModel, prefix: Option<&String>) -> (r: Result<Option<ErrorEnumPlan>, SkerryFnError>)
    ensures
        outcome_matches(r, skerry_fn_outcome(*sig, prefix_view(prefix))),
{
    process_skerry_logic(sig, prefix)
}

/// A method of an impl or trait block: its attributes (each given by its
/// path when that path is one identifier) and its signature.
pub struct MethodModel {
    pub attrs: Vec<Option<String>>,
    pub sig: SignatureModel,
}

/// What a marked method turns into: its position in the block, the position
/// of its `#[skerry_fn]` attribute (which is removed), and its enum.
pub struct MethodExpansion {
    pub index: usize,
    pub marker: usize,
    pub plan: Option<ErrorEnumPlan>,
}

/// The marked methods from position `i` on, each with its outcome, after
/// those found before (`acc`); the first refusal ends the expansion, with the
/// position of its method.
pub open spec fn marked_outcomes_from(
    ms: Seq<MethodModel>,
    i: int,
    prefix: Option<Seq<char>>,
    acc: Seq<(int, int, Option<(Seq<char>, Seq<Seq<char>>, Seq<Seq<char>>)>)>,
) -> Result<Seq<(int, int, Option<(Seq<char>, Seq<Seq<char>>, Seq<Seq<char>>)>)>, (int, SkerryFnError)>
    decreases ms.len() - i,
{
    if i < 0 || i >= ms.len() {
        Ok(acc)
    } else {
        match attr_position(ms[i].attrs@, "skerry_fn"@) {
            None => marked_outcomes_from(ms, i + 1, prefix, acc),
            Some(pos) => match skerry_fn_outcome(ms[i].sig, prefix) {
                Err(e) => Err((i, e)),
                Ok(o) => marked_outcomes_from(ms, i + 1, prefix, acc.push((i, pos, o))),
            },
        }
    }
}

/// The expansions are the outcomes.
pub open spec fn expansions_match(
    v: Seq<MethodExpansion>,
    outs: Seq<(int, int, Option<(Seq<char>, Seq<Seq<char>>, Seq<Seq<char>>)>)>,
) -> bool {
    &&& v.len() == outs.len()
    &&& forall|k: int| 0 <= k < v.len() ==> {
        &&& #[trigger] v[k].index as int == outs[k].0
        &&& v[k].marker as int == outs[k].1
        &&& match outs[k].2 {
            None => v[k].plan is None,
            Some(x) => v[k].plan matches Some(p) && plan_matches(p, x),
        }
    }
}

/// Expands every method marked `#[skerry_fn]`, under the prefix, stopping
/// at the first refusal.
fn expand_marked(methods: &Vec<MethodModel>, prefix: Option<&String>) -> (r: Result<Vec<MethodExpansion>, (usize, SkerryFnError)>)
    ensures
        match marked_outcomes_from(methods@, 0, prefix_view(prefix), Seq::empty()) {
            Ok(outs) => r matches Ok(v) && expansions_match(v@, outs),
            Err((i, e)) => r matches Err((i2, e2)) && i2 as int == i && e2 == e,
        },
{
    let mut out: Vec<MethodExpansion> = Vec::new();
    let mut i: usize = 0;
    let ghost pv = prefix_view(prefix);
    // The outcomes of the methods before `i`, found so far.
    let ghost mut done: Seq<(int, int, Option<(Seq<char>, Seq<Seq<char>>, Seq<Seq<char>>)>)> = Seq::empty();
    while i < methods.len()
        invariant
            i <= methods.len(),
            pv == prefix_view(prefix),
            expansions_match(out@, done),
            marked_outcomes_from(methods@, 0, pv, Seq::empty()) == marked_outcomes_from(methods@, i as int, pv, done),
        decreases methods.len() - i,
    {
        let m = &methods[i];
        proof { reveal_strlit("skerry_fn"); }
        match find_attr(&m.attrs, "skerry_fn") {
            None => {
                assert(attr_position(methods@[i as int].attrs@, "skerry_fn"@) is None);
            },
            Some(pos) => {
                proof { lemma_attr_position(m.attrs@, "skerry_fn"@, pos as int); }
                match process_skerry_logic(&m.sig, prefix) {
                    Err(e) => { return Err((i, e)); },
                    Ok(plan) => {
                        let ghost o = skerry_fn_outcome(m.sig, pv)->Ok_0;
                        let ghost before = out@;
                        out.push(MethodExpansion { index: i, marker: pos, plan });
                        proof {
                            let item = (i as int, pos as int, o);
                            done = done.push(item);
                            assert forall|k: int| 0 <= k < out@.len() implies {
                                &&& #[trigger] out@[k].index as int == done[k].0
                                &&& out@[k].marker as int == done[k].1
                                &&& match done[k].2 {
                                    None => out@[k].plan is None,
                                    Some(x) => out@[k].plan matches Some(p) && plan_matches(p, x),
                                }
                            } by {
                                if k < out@.len() - 1 {
                                    assert(out@[k] == before[k]);
                                    assert(done[k] == done.drop_last()[k]);
                                }
                            }
                        }
                    },
                }
            },
        }
        i += 1;
    }
    Ok(out)
}

/// Expands the marked methods of an impl block under the attribute's
/// prefix.
pub fn skerry_impl(attr: &ImplAttribute, methods: &Vec<MethodModel>) -> (r: Result<Vec<MethodExpansion>, (usize, SkerryFnError)>)
    ensures
        match marked_outcomes_from(methods@, 0, owned_prefix_view(attr.prefix), Seq::empty()) {
            Ok(outs) => r matches Ok(v) && expansions_match(v@, outs),
            Err((i, e)) => r matches Err((i2, e2)) && i2 as int == i && e2 == e,
        },
{
    expand_marked(methods, attr.prefix.as_ref())
}

/// Expands the marked methods of a trait under the attribute's prefix.
pub fn skerry_trait(attr: &ImplAttribute, methods: &Vec<MethodModel>) -> (r: Result<Vec<MethodExpansion>, (usize, SkerryFnError)>)
    ensures
        match marked_outcomes_from(methods@, 0, owned_prefix_view(attr.prefix), Seq::empty()) {
            Ok(outs) => r matches Ok(v) && expansions_match(v@, outs),
            Err((i, e)) => r matches Err((i2, e2)) && i2 as int == i && e2 == e,
        },
{
    expand_marked(methods, attr.prefix.as_ref())
}

/// The errors an error module defines: its structs, in order.
pub fn skerry_mod(items: &Vec<ItemModel>) -> (r: Vec<String>)
    ensures
        crate::text::views(r@) == struct_names_of(items@),
{
    struct_names(items)
}


// ---------------------------------------------------------------------------
// `?` inside expanded functions
// ---------------------------------------------------------------------------

/// Rewrites `expr?` in an expanded function into
/// `expr.map_err(|e| Into::<GlobalErrors<_>>::into(e))?`, so that any error
/// a `?` meets converts into the global enum first.
pub struct QuestionMarkTransformer;

/// The token is the identifier `n`.
pub open spec fn is_word(t: TokenTree, n: Seq<char>) -> bool {
    t matches TokenTree::Ident { name, .. } && name@ == n
}

/// The token is the character `c` with the given spacing.
pub open spec fn is_mark(t: TokenTree, c: char, joint: bool) -> bool {
    t matches TokenTree::Punct { ch, joint: j } && ch == c && j == joint
}

/// The tokens of the closure `|e| Into::<GlobalErrors<_>>::into(e)`.
pub open spec fn conversion_closure(s: Seq<TokenTree>) -> bool {
    &&& s.len() == 16
    &&& is_mark(s[0], '|', false)
    &&& is_word(s[1], "e"@)
    &&& is_mark(s[2], '|', false)
    &&& is_word(s[3], "Into"@)
    &&& is_mark(s[4], ':', true)
    &&& is_mark(s[5], ':', false)
    &&& is_mark(s[6], '<', false)
    &&& is_word(s[7], "GlobalErrors"@)
    &&& is_mark(s[8], '<', false)
    &&& s[9] matches TokenTree::Ident { name, keyword } && keyword && name@ == "_"@
    &&& is_mark(s[10], '>', true)
    &&& is_mark(s[11], '>', false)
    &&& is_mark(s[12], ':', true)
    &&& is_mark(s[13], ':', false)
    &&& is_word(s[14], "into"@)
    &&& s[15] matches TokenTree::Group { delimiter: Delimiter::Parenthesis, stream }
        && stream@.len() == 1 && is_word(stream@[0], "e"@)
}

/// The tokens that follow the expression: `.map_err(closure)?`.
pub open spec fn conversion_suffix(s: Seq<TokenTree>) -> bool {
    &&& s.len() == 4
    &&& is_mark(s[0], '.', false)
    &&& is_word(s[1], "map_err"@)
    &&& s[2] matches TokenTree::Group { delimiter: Delimiter::Parenthesis, stream } && conversion_closure(stream@)
    &&& is_mark(s[3], '?', false)
}

fn word(n: &str) -> (r: TokenTree)
    ensures
        r == (TokenTree::Ident { name: r->name, keyword: false }),
        r->name@ == n@,
{
    TokenTree::Ident { name: String::from_str(n), keyword: false }
}

fn mark(c: char, joint: bool) -> (r: TokenTree)
    ensures
        r == (TokenTree::Punct { ch: c, joint }),
{
    TokenTree::Punct { ch: c, joint }
}

impl QuestionMarkTransformer {
    /// The tokens written after the operand of `?`, which they replace:
    /// `.map_err(|e| Into::<GlobalErrors<_>>::into(e))?`.
    pub fn conversion(&self) -> (r: Vec<TokenTree>)
        ensures
            conversion_suffix(r@),
    {
        let mut arg: Vec<TokenTree> = Vec::new();
        arg.push(word("e"));
        let mut closure: Vec<TokenTree> = Vec::new();
        closure.push(mark('|', false));
        closure.push(word("e"));
        closure.push(mark('|', false));
        closure.push(word("Into"));
        closure.push(mark(':', true));
        closure.push(mark(':', false));
        closure.push(mark('<', false));
        closure.push(word("GlobalErrors"));
        closure.push(mark('<', false));
        closure.push(TokenTree::Ident { name: String::from_str("_"), keyword: true });
        closure.push(mark('>', true));
        closure.push(mark('>', false));
        closure.push(mark(':', true));
        closure.push(mark(':', false));
        closure.push(word("into"));
        closure.push(TokenTree::Group { delimiter: Delimiter::Parenthesis, stream: arg });
        let mut out: Vec<TokenTree> = Vec::new();
        out.push(mark('.', false));
        out.push(word("map_err"));
        out.push(TokenTree::Group { delimiter: Delimiter::Parenthesis, stream: closure });
        out.push(mark('?', false));
        out
    }
}

} // verus!
