//! The helper macros that the expansion of an error list goes through:
//! reading their arguments, removing repeated errors, and choosing the
//! conversions to generate.

use vstd::prelude::*;
use crate::tokens::{TokenTree, Delimiter, is_punct, is_plain_ident, ident_name, flatten, flatten_invisible};
use crate::paths::{
    PathModel, PathView, SyntaxKind, SyntaxError, path_view, paths_view, path_at, parse_path,
    lemma_path_at_advances,
};
use crate::lists::{dedup_seq, dedup_paths, dedup_strings};
use crate::text::{views, lemma_views_push, copy_string, push_str, text_is};

verus! {

// ---------------------------------------------------------------------------
// Lists of paths and identifiers
// ---------------------------------------------------------------------------

/// Paths from position `i` to the end, each optionally preceded by a comma
/// (so a comma at the very end is refused).
pub open spec fn loose_paths_from(s: Seq<TokenTree>, i: int, acc: Seq<PathView>) -> Result<Seq<PathView>, (SyntaxKind, int)>
    decreases s.len() - i,
{
    if i < 0 || i >= s.len() {
        Ok(acc)
    } else {
        let j = if is_punct(s[i], ',') { i + 1 } else { i };
        match path_at(s, j) {
            Ok((p, k)) => {
                proof { lemma_path_at_advances(s, j); }
                loose_paths_from(s, k, acc.push(p))
            },
            Err(e) => Err(e),
        }
    }
}

/// Paths from position `i` to the end, separated by commas, with an
/// optional comma at the end.
pub open spec fn terminated_paths_from(s: Seq<TokenTree>, i: int, acc: Seq<PathView>) -> Result<Seq<PathView>, (SyntaxKind, int)>
    decreases s.len() - i,
{
    if i < 0 || i >= s.len() {
        Ok(acc)
    } else {
        match path_at(s, i) {
            Ok((p, k)) => {
                proof { lemma_path_at_advances(s, i); }
                if k >= s.len() {
                    Ok(acc.push(p))
                } else if is_punct(s[k], ',') {
                    terminated_paths_from(s, k + 1, acc.push(p))
                } else {
                    Err((SyntaxKind::ExpectedComma, k))
                }
            },
            Err(e) => Err(e),
        }
    }
}

/// Identifiers from position `i` to the end, separated by commas, with an
/// optional comma at the end.
pub open spec fn terminated_idents_from(s: Seq<TokenTree>, i: int, acc: Seq<Seq<char>>) -> Result<Seq<Seq<char>>, (SyntaxKind, int)>
    decreases s.len() - i,
{
    if i < 0 || i >= s.len() {
        Ok(acc)
    } else if !is_plain_ident(s[i]) {
        Err((SyntaxKind::ExpectedIdent, i))
    } else if i + 1 >= s.len() {
        Ok(acc.push(ident_name(s[i])))
    } else if is_punct(s[i + 1], ',') {
        terminated_idents_from(s, i + 2, acc.push(ident_name(s[i])))
    } else {
        Err((SyntaxKind::ExpectedComma, i + 1))
    }
}

/// The token at `i` is a bracketed group; its contents, read as a list of
/// paths with commas between them. A refusal inside the group is reported
/// at the group.
pub open spec fn bracketed_paths_at(s: Seq<TokenTree>, i: int) -> Result<Seq<PathView>, (SyntaxKind, int)> {
    if 0 <= i < s.len() {
        match s[i] {
            TokenTree::Group { delimiter: Delimiter::Bracket, stream } => {
                match terminated_paths_from(flatten(stream@), 0, Seq::empty()) {
                    Ok(ps) => Ok(ps),
                    Err((k, _)) => Err((k, i)),
                }
            },
            _ => Err((SyntaxKind::ExpectedBrackets, i)),
        }
    } else {
        Err((SyntaxKind::ExpectedBrackets, i))
    }
}

/// The refusal `(kind, at)` as a value.
pub open spec fn syntax_error_is(e: SyntaxError, err: (SyntaxKind, int)) -> bool {
    e.kind == err.0 && e.at as int == err.1
}

/// An identifier (not a keyword) at `i`.
pub(crate) fn plain_ident_at(s: &Vec<TokenTree>, i: usize) -> (r: Option<String>)
    ensures
        r is Some == (i < s@.len() && is_plain_ident(s@[i as int])),
        r matches Some(n) ==> n@ == ident_name(s@[i as int]),
{
    if i < s.len() {
        match &s[i] {
            TokenTree::Ident { name, keyword } => {
                if *keyword { None } else { Some(copy_string(name)) }
            },
            _ => None,
        }
    } else {
        None
    }
}

/// The punctuation character `c` at `i`.
fn punct_at(s: &Vec<TokenTree>, i: usize, c: char) -> (r: bool)
    ensures
        r == (i < s@.len() && is_punct(s@[i as int], c)),
{
    if i < s.len() {
        match &s[i] {
            TokenTree::Punct { ch, .. } => *ch == c,
            _ => false,
        }
    } else {
        false
    }
}

/// Reads paths, each optionally preceded by a comma, from `i` to the end.
pub fn parse_loose_paths(s: &Vec<TokenTree>, i: usize) -> (r: Result<Vec<PathModel>, SyntaxError>)
    requires
        i <= s@.len(),
    ensures
        match loose_paths_from(s@, i as int, Seq::empty()) {
            Ok(ps) => r matches Ok(v) && paths_view(v@) == ps,
            Err(err) => r matches Err(e) && syntax_error_is(e, err),
        },
{
    let mut out: Vec<PathModel> = Vec::new();
    let mut k = i;
    assert(paths_view(out@) =~= Seq::<PathView>::empty());
    while k < s.len()
        invariant
            i <= k <= s@.len(),
            loose_paths_from(s@, i as int, Seq::empty()) == loose_paths_from(s@, k as int, paths_view(out@)),
        decreases s@.len() - k,
    {
        let j = if punct_at(s, k, ',') { k + 1 } else { k };
        match parse_path(s, j) {
            Ok((p, next)) => {
                proof { lemma_path_at_advances(s@, j as int); }
                let ghost before = out@;
                out.push(p);
                assert(paths_view(out@) =~= paths_view(before).push(path_view(out@.last())));
                k = next;
            },
            Err(e) => { return Err(e); },
        }
    }
    Ok(out)
}

/// Reads paths separated by commas, with an optional comma at the end, from
/// `i` to the end.
pub fn parse_terminated_paths(s: &Vec<TokenTree>, i: usize) -> (r: Result<Vec<PathModel>, SyntaxError>)
    requires
        i <= s@.len(),
    ensures
        match terminated_paths_from(s@, i as int, Seq::empty()) {
            Ok(ps) => r matches Ok(v) && paths_view(v@) == ps,
            Err(err) => r matches Err(e) && syntax_error_is(e, err),
        },
{
    let mut out: Vec<PathModel> = Vec::new();
    let mut k = i;
    assert(paths_view(out@) =~= Seq::<PathView>::empty());
    while k < s.len()
        invariant
            i <= k <= s@.len(),
            terminated_paths_from(s@, i as int, Seq::empty()) == terminated_paths_from(s@, k as int, paths_view(out@)),
        decreases s@.len() - k,
    {
        match parse_path(s, k) {
            Ok((p, next)) => {
                proof { lemma_path_at_advances(s@, k as int); }
                let ghost before = out@;
                out.push(p);
                assert(paths_view(out@) =~= paths_view(before).push(path_view(out@.last())));
                if next >= s.len() {
                    return Ok(out);
                } else if punct_at(s, next, ',') {
                    k = next + 1;
                } else {
                    return Err(SyntaxError { kind: SyntaxKind::ExpectedComma, at: next });
                }
            },
            Err(e) => { return Err(e); },
        }
    }
    Ok(out)
}

/// Reads identifiers separated by commas, with an optional comma at the
/// end, from `i` to the end.
pub fn parse_terminated_idents(s: &Vec<TokenTree>, i: usize) -> (r: Result<Vec<String>, SyntaxError>)
    requires
        i <= s@.len(),
    ensures
        match terminated_idents_from(s@, i as int, Seq::empty()) {
            Ok(ns) => r matches Ok(v) && views(v@) == ns,
            Err(err) => r matches Err(e) && syntax_error_is(e, err),
        },
{
    let mut out: Vec<String> = Vec::new();
    let mut k = i;
    assert(views(out@) =~= Seq::<Seq<char>>::empty());
    while k < s.len()
        invariant
            i <= k <= s@.len(),
            terminated_idents_from(s@, i as int, Seq::empty()) == terminated_idents_from(s@, k as int, views(out@)),
        decreases s@.len() - k,
    {
        match plain_ident_at(s, k) {
            Some(n) => {
                let ghost before = out@;
                out.push(n);
                proof { lemma_views_push(before, out@.last()); }
                if s.len() - k <= 1 {
                    return Ok(out);
                } else if punct_at(s, k + 1, ',') {
                    k = k + 2;
                } else {
                    return Err(SyntaxError { kind: SyntaxKind::ExpectedComma, at: k + 1 });
                }
            },
            None => { return Err(SyntaxError { kind: SyntaxKind::ExpectedIdent, at: k }); },
        }
    }
    Ok(out)
}

/// Takes the token at `i` out of the list, leaving a placeholder literal in
/// its place.
fn take_token(s: &mut Vec<TokenTree>, i: usize) -> (r: TokenTree)
    requires
        i < old(s)@.len(),
    ensures
        r == old(s)@[i as int],
        final(s)@.len() == old(s)@.len(),
        forall|j: int| 0 <= j < old(s)@.len() && j != i ==> final(s)@[j] == old(s)@[j],
{
    let mut t = TokenTree::Literal(String::new());
    std::mem::swap(&mut t, &mut s[i]);
    t
}

/// Reads the bracketed list of paths at `i`, taking the group out of `s`.
pub fn parse_bracketed_paths(s: &mut Vec<TokenTree>, i: usize) -> (r: Result<Vec<PathModel>, SyntaxError>)
    ensures
        match bracketed_paths_at(old(s)@, i as int) {
            Ok(ps) => r matches Ok(v) && paths_view(v@) == ps,
            Err(err) => r matches Err(e) && syntax_error_is(e, err),
        },
        final(s)@.len() == old(s)@.len(),
        forall|j: int| 0 <= j < old(s)@.len() && j != i ==> final(s)@[j] == old(s)@[j],
{
    if i >= s.len() {
        return Err(SyntaxError { kind: SyntaxKind::ExpectedBrackets, at: i });
    }
    let is_bracket = match &s[i] {
        TokenTree::Group { delimiter: Delimiter::Bracket, .. } => true,
        _ => false,
    };
    if !is_bracket {
        return Err(SyntaxError { kind: SyntaxKind::ExpectedBrackets, at: i });
    }
    let g = take_token(s, i);
    match g {
        TokenTree::Group { stream, .. } => {
            let content = flatten_invisible(stream);
            match parse_terminated_paths(&content, 0) {
                Ok(v) => Ok(v),
                Err(e) => Err(SyntaxError { kind: e.kind, at: i }),
            }
        },
        _ => Err(SyntaxError { kind: SyntaxKind::ExpectedBrackets, at: i }),
    }
}


// ---------------------------------------------------------------------------
// Removing repeated identifiers
// ---------------------------------------------------------------------------

/// Reads identifiers separated by commas and returns them without repeats,
/// keeping the first of each.
pub fn dedup(input: Vec<TokenTree>) -> (r: Result<Vec<String>, SyntaxError>)
    ensures
        match terminated_idents_from(flatten(input@), 0, Seq::empty()) {
            Ok(ns) => r matches Ok(v) && views(v@) == dedup_seq(ns),
            Err(err) => r matches Err(e) && syntax_error_is(e, err),
        },
{
    let s = flatten_invisible(input);
    match parse_terminated_idents(&s, 0) {
        Ok(names) => Ok(dedup_strings(&names)),
        Err(e) => Err(e),
    }
}

// ---------------------------------------------------------------------------
// The last step of an expansion
// ---------------------------------------------------------------------------

/// What the last step of an expansion generates from: the path of the error
/// module when one is given, the enum's name, the name of the function and
/// of its list macro, the errors without repeats and the variant of each.
pub struct FnErrorStep {
    pub base_path: Option<PathModel>,
    pub ty: String,
    pub fn_name: String,
    pub macro_name: String,
    pub errors: Vec<PathModel>,
    pub variants: Vec<String>,
}

/// The name of the macro that holds a function's error list.
pub open spec fn list_macro_name(fn_name: Seq<char>) -> Seq<char> {
    fn_name + "_error_list"@
}

/// The variant of an error: the last segment of its path.
pub open spec fn variant_of(p: PathView) -> Seq<char> {
    if p.1.len() > 0 { p.1.last() } else { Seq::empty() }
}

/// The variant of each error.
pub open spec fn variant_names(ps: Seq<PathView>) -> Seq<Seq<char>> {
    ps.map_values(|p: PathView| variant_of(p))
}

/// The arguments `Enum, function, errors...` from position `i` on.
pub open spec fn step_args_at(s: Seq<TokenTree>, i: int) -> Result<(Seq<char>, Seq<char>, Seq<PathView>), (SyntaxKind, int)> {
    if !(0 <= i < s.len() && is_plain_ident(s[i])) {
        Err((SyntaxKind::ExpectedIdent, i))
    } else if !(i + 1 < s.len() && is_punct(s[i + 1], ',')) {
        Err((SyntaxKind::ExpectedComma, i + 1))
    } else if !(i + 2 < s.len() && is_plain_ident(s[i + 2])) {
        Err((SyntaxKind::ExpectedIdent, i + 2))
    } else {
        match loose_paths_from(s, i + 3, Seq::empty()) {
            Ok(ps) => Ok((ident_name(s[i]), ident_name(s[i + 2]), ps)),
            Err(e) => Err(e),
        }
    }
}

/// The plan holds the enum `ty`, the function `f` and the errors `ps`
/// without repeats.
pub open spec fn step_matches(st: FnErrorStep, ty: Seq<char>, f: Seq<char>, ps: Seq<PathView>) -> bool {
    &&& st.ty@ == ty
    &&& st.fn_name@ == f
    &&& st.macro_name@ == list_macro_name(f)
    &&& paths_view(st.errors@) == dedup_seq(ps)
    &&& views(st.variants@) == variant_names(dedup_seq(ps))
}

/// The variant of each path.
fn variants_of(ps: &Vec<PathModel>) -> (r: Vec<String>)
    ensures
        views(r@) == variant_names(paths_view(ps@)),
{
    let mut out: Vec<String> = Vec::new();
    let mut i: usize = 0;
    while i < ps.len()
        invariant
            i <= ps.len(),
            views(out@) == variant_names(paths_view(ps@)).take(i as int),
        decreases ps.len() - i,
    {
        let p = &ps[i];
        let v = if p.segments.len() > 0 {
            copy_string(&p.segments[p.segments.len() - 1])
        } else {
            String::new()
        };
        let ghost before = out@;
        out.push(v);
        proof {
            lemma_views_push(before, out@.last());
            assert(views(p.segments@).len() == p.segments@.len());
            if p.segments@.len() > 0 {
                assert(views(p.segments@).last() == p.segments@.last()@);
            } else {
                assert(v@ =~= Seq::<char>::empty());
            }
            assert(variant_names(paths_view(ps@))[i as int] == variant_of(path_view(ps@[i as int])));
        }
        assert(views(out@) =~= variant_names(paths_view(ps@)).take(i + 1));
        i += 1;
    }
    assert(variant_names(paths_view(ps@)).take(ps.len() as int) =~= variant_names(paths_view(ps@)));
    out
}

/// The name of a function's list macro.
fn list_macro(fn_name: &String) -> (r: String)
    ensures
        r@ == list_macro_name(fn_name@),
{
    let mut s = copy_string(fn_name);
    push_str(&mut s, "_error_list");
    s
}

/// Reads `Enum, function, errors...` from position `i` on and builds the
/// plan.
pub(crate) fn step_from(s: &Vec<TokenTree>, i: usize, base_path: Option<PathModel>) -> (r: Result<FnErrorStep, SyntaxError>)
    requires
        i <= s@.len(),
    ensures
        match step_args_at(s@, i as int) {
            Ok((ty, f, ps)) => r matches Ok(st) && st.base_path == base_path && step_matches(st, ty, f, ps),
            Err(err) => r matches Err(e) && syntax_error_is(e, err),
        },
{
    let ty = match plain_ident_at(s, i) {
        Some(n) => n,
        None => { return Err(SyntaxError { kind: SyntaxKind::ExpectedIdent, at: i }); },
    };
    if s.len() - i <= 1 || !punct_at(s, i + 1, ',') {
        return Err(SyntaxError { kind: SyntaxKind::ExpectedComma, at: i + 1 });
    }
    let fn_name = match plain_ident_at(s, i + 2) {
        Some(n) => n,
        None => { return Err(SyntaxError { kind: SyntaxKind::ExpectedIdent, at: i + 2 }); },
    };
    let errors = match parse_loose_paths(s, i + 3) {
        Ok(v) => v,
        Err(e) => { return Err(e); },
    };
    let errors = dedup_paths(&errors);
    let variants = variants_of(&errors);
    let macro_name = list_macro(&fn_name);
    Ok(FnErrorStep { base_path, ty, fn_name, macro_name, errors, variants })
}

/// Reads the arguments of the last expansion step, `Enum, function,
/// errors...`, and plans the enum: the errors without repeats, each with
/// the last segment of its path as its variant.
pub fn create_fn_error_step(input: Vec<TokenTree>) -> (r: Result<FnErrorStep, SyntaxError>)
    ensures
        match step_args_at(flatten(input@), 0) {
            Ok((ty, f, ps)) => r matches Ok(st) && st.base_path is None && step_matches(st, ty, f, ps),
            Err(err) => r matches Err(e) && syntax_error_is(e, err),
        },
{
    let s = flatten_invisible(input);
    step_from(&s, 0, None)
}

// ---------------------------------------------------------------------------
// The conversions an enum still needs
// ---------------------------------------------------------------------------

/// The paths not in `remove`.
pub open spec fn not_in(remove: Seq<PathView>) -> spec_fn(PathView) -> bool {
    |p: PathView| !remove.contains(p)
}

/// What `impl_missing_converts!` generates from: the enum, the errors of the
/// global enum that it does not hold, the errors it holds, and whether
/// conversions into it are generated.
pub struct MissingConverts {
    pub ty: String,
    pub filtered: Vec<PathModel>,
    pub to_remove: Vec<PathModel>,
    pub expand: bool,
}

/// The arguments `Enum, [all errors], [its errors]` with an optional
/// `, no_expand`.
pub open spec fn missing_converts_input(s: Seq<TokenTree>) -> Result<(Seq<char>, Seq<PathView>, Seq<PathView>, bool), (SyntaxKind, int)> {
    if !(0 < s.len() && is_plain_ident(s[0])) {
        Err((SyntaxKind::ExpectedIdent, 0))
    } else if !(1 < s.len() && is_punct(s[1], ',')) {
        Err((SyntaxKind::ExpectedComma, 1))
    } else {
        match bracketed_paths_at(s, 2) {
            Err(e) => Err(e),
            Ok(source) => {
                if !(3 < s.len() && is_punct(s[3], ',')) {
                    Err((SyntaxKind::ExpectedComma, 3))
                } else {
                    match bracketed_paths_at(s, 4) {
                        Err(e) => Err(e),
                        Ok(remove) => {
                            if 5 < s.len() && is_punct(s[5], ',') {
                                if 6 < s.len() && is_plain_ident(s[6]) {
                                    if ident_name(s[6]) != "no_expand"@ {
                                        Err((SyntaxKind::UnexpectedToken, 6))
                                    } else if 7 < s.len() {
                                        Err((SyntaxKind::UnexpectedToken, 7))
                                    } else {
                                        Ok((ident_name(s[0]), source, remove, false))
                                    }
                                } else if 6 < s.len() {
                                    Err((SyntaxKind::UnexpectedToken, 6))
                                } else {
                                    Ok((ident_name(s[0]), source, remove, true))
                                }
                            } else if 5 < s.len() {
                                Err((SyntaxKind::UnexpectedToken, 5))
                            } else {
                                Ok((ident_name(s[0]), source, remove, true))
                            }
                        },
                    }
                }
            },
        }
    }
}

fn contains_path_view(list: &Vec<PathModel>, p: &PathModel) -> (r: bool)
    ensures
        r == paths_view(list@).contains(path_view(*p)),
{
    let mut i: usize = 0;
    while i < list.len()
        invariant
            i <= list.len(),
            forall|k: int| 0 <= k < i ==> path_view(list@[k]) != path_view(*p),
        decreases list.len() - i,
    {
        if crate::lists::same_path(&list[i], p) {
            assert(paths_view(list@)[i as int] == path_view(*p));
            return true;
        }
        i += 1;
    }
    proof {
        if paths_view(list@).contains(path_view(*p)) {
            let k = choose|k: int| 0 <= k < paths_view(list@).len() && paths_view(list@)[k] == path_view(*p);
            assert(path_view(list@[k]) == path_view(*p));
        }
    }
    false
}

/// The paths of `source` that are not in `remove`, in order.
pub fn filter_paths(source: &Vec<PathModel>, remove: &Vec<PathModel>) -> (r: Vec<PathModel>)
    ensures
        paths_view(r@) == paths_view(source@).filter(not_in(paths_view(remove@))),
{
    let ghost all = paths_view(source@);
    let ghost pred = not_in(paths_view(remove@));
    let mut out: Vec<PathModel> = Vec::new();
    let mut i: usize = 0;
    assert(all.take(0).filter(pred) =~= Seq::<PathView>::empty()) by {
        reveal_with_fuel(Seq::filter, 1);
    }
    while i < source.len()
        invariant
            i <= source.len(),
            all == paths_view(source@),
            pred == not_in(paths_view(remove@)),
            paths_view(out@) == all.take(i as int).filter(pred),
        decreases source.len() - i,
    {
        assert(all.take(i + 1).drop_last() =~= all.take(i as int));
        assert(all.take(i + 1).last() == path_view(source@[i as int]));
        let ghost x = path_view(source@[i as int]);
        assert(pred(x) == !paths_view(remove@).contains(x));
        assert(all.take(i + 1).filter(pred) == (if pred(x) {
            all.take(i as int).filter(pred).push(x)
        } else {
            all.take(i as int).filter(pred)
        })) by {
            reveal(Seq::filter);
        }
        if !contains_path_view(remove, &source[i]) {
            let ghost before = out@;
            out.push(crate::lists::copy_path(&source[i]));
            assert(paths_view(out@) =~= paths_view(before).push(path_view(out@.last())));
        }
        i += 1;
    }
    assert(all.take(source.len() as int) =~= all);
    out
}

/// Reads the arguments of `impl_missing_converts!` and keeps the errors of
/// the global enum that the enum does not hold.
pub fn impl_missing_converts(input: Vec<TokenTree>) -> (r: Result<MissingConverts, SyntaxError>)
    ensures
        match missing_converts_input(flatten(input@)) {
            Ok((ty, source, remove, expand)) => r matches Ok(m) && {
                &&& m.ty@ == ty
                &&& paths_view(m.filtered@) == source.filter(not_in(remove))
                &&& paths_view(m.to_remove@) == remove
                &&& m.expand == expand
            },
            Err(err) => r matches Err(e) && syntax_error_is(e, err),
        },
{
    let mut s = flatten_invisible(input);
    let ghost orig = s@;
    let ty = match plain_ident_at(&s, 0) {
        Some(n) => n,
        None => { return Err(SyntaxError { kind: SyntaxKind::ExpectedIdent, at: 0 }); },
    };
    if !punct_at(&s, 1, ',') {
        return Err(SyntaxError { kind: SyntaxKind::ExpectedComma, at: 1 });
    }
    let source = match parse_bracketed_paths(&mut s, 2) {
        Ok(v) => v,
        Err(e) => { return Err(e); },
    };
    assert(s@.len() == orig.len());
    if !punct_at(&s, 3, ',') {
        return Err(SyntaxError { kind: SyntaxKind::ExpectedComma, at: 3 });
    }
    let remove = match parse_bracketed_paths(&mut s, 4) {
        Ok(v) => v,
        Err(e) => { return Err(e); },
    };
    assert(forall|j: int| 4 < j < orig.len() ==> s@[j] == orig[j]);
    let mut expand = true;
    if punct_at(&s, 5, ',') {
        if let Some(word) = plain_ident_at(&s, 6) {
            proof { reveal_strlit("no_expand"); }
            if !text_is(&word, "no_expand") {
                return Err(SyntaxError { kind: SyntaxKind::UnexpectedToken, at: 6 });
            }
            if s.len() > 7 {
                return Err(SyntaxError { kind: SyntaxKind::UnexpectedToken, at: 7 });
            }
            expand = false;
        } else if s.len() > 6 {
            return Err(SyntaxError { kind: SyntaxKind::UnexpectedToken, at: 6 });
        }
    } else if s.len() > 5 {
        return Err(SyntaxError { kind: SyntaxKind::UnexpectedToken, at: 5 });
    }
    let filtered = filter_paths(&source, &remove);
    Ok(MissingConverts { ty, filtered, to_remove: remove, expand })
}

/// What `impl_converts!` generates from: the enum and the errors it holds.
pub struct ConvertsInput {
    pub ty: String,
    pub source: Vec<PathModel>,
}

/// The arguments `Enum, [errors],`.
pub open spec fn converts_input(s: Seq<TokenTree>) -> Result<(Seq<char>, Seq<PathView>), (SyntaxKind, int)> {
    if !(0 < s.len() && is_plain_ident(s[0])) {
        Err((SyntaxKind::ExpectedIdent, 0))
    } else if !(1 < s.len() && is_punct(s[1], ',')) {
        Err((SyntaxKind::ExpectedComma, 1))
    } else {
        match bracketed_paths_at(s, 2) {
            Err(e) => Err(e),
            Ok(source) => {
                if !(3 < s.len() && is_punct(s[3], ',')) {
                    Err((SyntaxKind::ExpectedComma, 3))
                } else if 4 < s.len() {
                    Err((SyntaxKind::UnexpectedToken, 4))
                } else {
                    Ok((ident_name(s[0]), source))
                }
            },
        }
    }
}

/// Reads the arguments of `impl_converts!`.
pub fn impl_converts(input: Vec<TokenTree>) -> (r: Result<ConvertsInput, SyntaxError>)
    ensures
        match converts_input(flatten(input@)) {
            Ok((ty, source)) => r matches Ok(c) && c.ty@ == ty && paths_view(c.source@) == source,
            Err(err) => r matches Err(e) && syntax_error_is(e, err),
        },
{
    let mut s = flatten_invisible(input);
    let ty = match plain_ident_at(&s, 0) {
        Some(n) => n,
        None => { return Err(SyntaxError { kind: SyntaxKind::ExpectedIdent, at: 0 }); },
    };
    if !punct_at(&s, 1, ',') {
        return Err(SyntaxError { kind: SyntaxKind::ExpectedComma, at: 1 });
    }
    let source = match parse_bracketed_paths(&mut s, 2) {
        Ok(v) => v,
        Err(e) => { return Err(e); },
    };
    if !punct_at(&s, 3, ',') {
        return Err(SyntaxError { kind: SyntaxKind::ExpectedComma, at: 3 });
    }
    if s.len() > 4 {
        return Err(SyntaxError { kind: SyntaxKind::UnexpectedToken, at: 4 });
    }
    Ok(ConvertsInput { ty, source })
}

} // verus!
