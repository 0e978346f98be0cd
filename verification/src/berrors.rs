//! The tuple-based form of the error macros: `#[fn_error]` functions return
//! `Result<T, (ErrA, &OtherFnError, ...)>`, where `&` marks an error enum
//! whose errors are passed through, and `#[error_module]` lists the errors.

use vstd::prelude::*;
use crate::tokens::{TokenTree, Delimiter, is_punct, flatten, flatten_invisible};
use crate::paths::{PathModel, PathView, SyntaxKind, SyntaxError, path_view, path_at, parse_path};
use crate::signature::{TypeModel, PathArgumentsModel, GenericArgumentModel};
use crate::macros::{
    FnErrorStep, MissingConverts, step_args_at, step_matches, not_in, bracketed_paths_at,
    syntax_error_is, parse_bracketed_paths, filter_paths,
};
use crate::items::{ItemModel, struct_names_of, struct_names};
use crate::naming::{camel_case, format_camel_case};
use crate::text::{push_str};

pub use crate::macros::dedup;

verus! {

// ---------------------------------------------------------------------------
// `#[fn_error]`
// ---------------------------------------------------------------------------

/// The position of the first comma at or after `i` (or the end).
pub open spec fn next_comma(s: Seq<TokenTree>, i: int) -> int
    decreases s.len() - i,
{
    if i < 0 || i >= s.len() || is_punct(s[i], ',') {
        if i < 0 { 0 } else { i }
    } else {
        next_comma(s, i + 1)
    }
}

/// The next comma lies between `i` and the end.
pub proof fn lemma_next_comma(s: Seq<TokenTree>, i: int)
    requires
        0 <= i <= s.len(),
    ensures
        i <= next_comma(s, i) <= s.len(),
    decreases s.len() - i,
{
    if i < s.len() && !is_punct(s[i], ',') {
        lemma_next_comma(s, i + 1);
    }
}

/// The errors of a parenthesized tuple from position `i` on: the tokens
/// between commas, a piece that starts with `&` being passed through (without
/// its `&`), any other non-empty piece being a plain error.
pub open spec fn munch_from(s: Seq<TokenTree>, i: int, normal: Seq<Seq<TokenTree>>, pass: Seq<Seq<TokenTree>>) -> (Seq<Seq<TokenTree>>, Seq<Seq<TokenTree>>)
    decreases s.len() - i,
{
    if i < 0 || i >= s.len() {
        (normal, pass)
    } else if is_punct(s[i], ',') {
        munch_from(s, i + 1, normal, pass)
    } else {
        let j = next_comma(s, i + 1);
        proof { lemma_next_comma(s, i + 1); }
        if is_punct(s[i], '&') {
            munch_from(s, j, normal, pass.push(s.subrange(i + 1, j)))
        } else {
            munch_from(s, j, normal.push(s.subrange(i, j)), pass)
        }
    }
}

/// The errors written as the error type: the pieces of a parenthesized
/// tuple; nothing for another group; else the one type, passed through when
/// it starts with `&`.
pub open spec fn error_type_lists(tokens: Seq<TokenTree>) -> (Seq<Seq<TokenTree>>, Seq<Seq<TokenTree>>) {
    if tokens.len() > 0 && tokens[0] is Group {
        match tokens[0] {
            TokenTree::Group { delimiter: Delimiter::Parenthesis, stream } => munch_from(stream@, 0, Seq::empty(), Seq::empty()),
            _ => (Seq::empty(), Seq::empty()),
        }
    } else if tokens.len() > 0 && is_punct(tokens[0], '&') {
        (Seq::empty(), seq![tokens.subrange(1, tokens.len() as int)])
    } else {
        (seq![tokens], Seq::empty())
    }
}

/// The second generic argument of the last segment of a path return type.
pub open spec fn second_argument(output: Option<TypeModel>) -> Option<GenericArgumentModel> {
    match output {
        Some(TypeModel::Path { segments, .. }) => {
            if segments@.len() == 0 {
                None
            } else {
                match segments@.last().arguments {
                    PathArgumentsModel::AngleBracketed(args) => if args@.len() >= 2 { Some(args@[1]) } else { None },
                    _ => None,
                }
            }
        },
        _ => None,
    }
}

/// The errors of a `#[fn_error]` function, read from its return type.
pub open spec fn fn_error_lists(output: Option<TypeModel>) -> (Seq<Seq<TokenTree>>, Seq<Seq<TokenTree>>) {
    match second_argument(output) {
        Some(GenericArgumentModel::Type { tokens, .. }) => error_type_lists(tokens@),
        _ => (Seq::empty(), Seq::empty()),
    }
}

/// The plain-value view of lists of tokens.
pub open spec fn token_lists_view(v: Seq<Vec<TokenTree>>) -> Seq<Seq<TokenTree>> {
    v.map_values(|x: Vec<TokenTree>| x@)
}

/// The path of the error module: the attribute's path, or `crate::errors`
/// when the attribute is empty.
pub open spec fn base_path_of(attr: Seq<TokenTree>) -> Result<PathView, (SyntaxKind, int)> {
    if attr.len() == 0 {
        Ok((false, seq!["crate"@, "errors"@], seq![Seq::empty(), Seq::empty()]))
    } else {
        match path_at(flatten(attr), 0) {
            Ok((p, k)) => if k < flatten(attr).len() { Err((SyntaxKind::UnexpectedToken, k)) } else { Ok(p) },
            Err(e) => Err(e),
        }
    }
}

/// What a `#[fn_error]` function expands to: the error module's path, the
/// enum's name, its plain errors and passed-through errors as tokens, and
/// whether the error type of the signature is replaced by the enum.
pub struct FnErrorPlan {
    pub base_path: PathModel,
    pub struct_name: String,
    pub normal: Vec<Vec<TokenTree>>,
    pub passthrough: Vec<Vec<TokenTree>>,
    pub replace_error_type: bool,
}

fn move_front(s: &mut Vec<TokenTree>) -> (r: TokenTree)
    requires
        old(s)@.len() > 0,
    ensures
        r == old(s)@[0],
        final(s)@ == old(s)@.subrange(1, old(s)@.len() as int),
{
    let r = s.remove(0);
    assert(s@ =~= old(s)@.subrange(1, old(s)@.len() as int));
    r
}

/// Splits the tokens of a parenthesized tuple into plain and passed-through
/// errors.
fn munch(stream: Vec<TokenTree>) -> (r: (Vec<Vec<TokenTree>>, Vec<Vec<TokenTree>>))
    ensures
        (token_lists_view(r.0@), token_lists_view(r.1@)) == munch_from(stream@, 0, Seq::empty(), Seq::empty()),
{
    let ghost all = stream@;
    let mut rest = stream;
    let mut normal: Vec<Vec<TokenTree>> = Vec::new();
    let mut pass: Vec<Vec<TokenTree>> = Vec::new();
    let ghost mut i: int = 0;
    assert(token_lists_view(normal@) =~= Seq::<Seq<TokenTree>>::empty());
    assert(token_lists_view(pass@) =~= Seq::<Seq<TokenTree>>::empty());
    assert(rest@ =~= all.subrange(0, all.len() as int));
    while rest.len() > 0
        invariant
            0 <= i <= all.len(),
            rest@ == all.subrange(i, all.len() as int),
            munch_from(all, 0, Seq::empty(), Seq::empty())
                == munch_from(all, i, token_lists_view(normal@), token_lists_view(pass@)),
        decreases rest@.len(),
    {
        let first = move_front(&mut rest);
        proof { i = i + 1; }
        let is_comma = match &first { TokenTree::Punct { ch, .. } => *ch == ',', _ => false };
        if is_comma {
            continue;
        }
        let is_amp = match &first { TokenTree::Punct { ch, .. } => *ch == '&', _ => false };
        let ghost start = i;
        let mut piece: Vec<TokenTree> = Vec::new();
        if !is_amp {
            piece.push(first);
        }
        proof { lemma_next_comma(all, start); }
        loop
            invariant
                1 <= start <= i <= all.len(),
                rest@ == all.subrange(i, all.len() as int),
                next_comma(all, start) == next_comma(all, i),
                piece@ == (if is_amp { all.subrange(start, i) } else { all.subrange(start - 1, i) }),
            ensures
                1 <= start <= i <= all.len(),
                rest@ == all.subrange(i, all.len() as int),
                next_comma(all, start) == i,
                piece@ == (if is_amp { all.subrange(start, i) } else { all.subrange(start - 1, i) }),
            decreases rest@.len(),
        {
            if rest.len() == 0 {
                break;
            }
            let stop = match &rest[0] { TokenTree::Punct { ch, .. } => *ch == ',', _ => false };
            assert(rest@[0] == all[i]);
            if stop {
                break;
            }
            let t = move_front(&mut rest);
            piece.push(t);
            proof { i = i + 1; }
            assert(piece@ =~= (if is_amp { all.subrange(start, i) } else { all.subrange(start - 1, i) }));
        }
        if is_amp {
            let ghost before = pass@;
            pass.push(piece);
            assert(token_lists_view(pass@) =~= token_lists_view(before).push(all.subrange(start, i)));
        } else {
            let ghost before = normal@;
            normal.push(piece);
            assert(token_lists_view(normal@) =~= token_lists_view(before).push(all.subrange(start - 1, i)));
        }
    }
    (normal, pass)
}

/// The errors written as the error type.
fn error_type_split(tokens: Vec<TokenTree>) -> (r: (Vec<Vec<TokenTree>>, Vec<Vec<TokenTree>>))
    ensures
        (token_lists_view(r.0@), token_lists_view(r.1@)) == error_type_lists(tokens@),
{
    let ghost all = tokens@;
    let mut tokens = tokens;
    if tokens.len() == 0 {
        let mut normal: Vec<Vec<TokenTree>> = Vec::new();
        let pass: Vec<Vec<TokenTree>> = Vec::new();
        normal.push(tokens);
        assert(token_lists_view(normal@) =~= seq![all]);
        assert(token_lists_view(pass@) =~= Seq::<Seq<TokenTree>>::empty());
        return (normal, pass);
    }
    let is_group = match &tokens[0] { TokenTree::Group { .. } => true, _ => false };
    if is_group {
        let first = move_front(&mut tokens);
        match first {
            TokenTree::Group { delimiter: Delimiter::Parenthesis, stream } => munch(stream),
            _ => {
                let normal: Vec<Vec<TokenTree>> = Vec::new();
                let pass: Vec<Vec<TokenTree>> = Vec::new();
                assert(token_lists_view(normal@) =~= Seq::<Seq<TokenTree>>::empty());
                (normal, pass)
            },
        }
    } else {
        let is_amp = match &tokens[0] { TokenTree::Punct { ch, .. } => *ch == '&', _ => false };
        let mut normal: Vec<Vec<TokenTree>> = Vec::new();
        let mut pass: Vec<Vec<TokenTree>> = Vec::new();
        if is_amp {
            let _amp = move_front(&mut tokens);
            pass.push(tokens);
            assert(token_lists_view(pass@) =~= seq![all.subrange(1, all.len() as int)]);
            assert(token_lists_view(normal@) =~= Seq::<Seq<TokenTree>>::empty());
        } else {
            normal.push(tokens);
            assert(token_lists_view(normal@) =~= seq![all]);
            assert(token_lists_view(pass@) =~= Seq::<Seq<TokenTree>>::empty());
        }
        (normal, pass)
    }
}

/// Reads the errors of a `#[fn_error]` function from its return type, and
/// whether its error argument is there to be replaced.
fn fn_error_split(output: Option<TypeModel>) -> (r: (Vec<Vec<TokenTree>>, Vec<Vec<TokenTree>>, bool))
    ensures
        (token_lists_view(r.0@), token_lists_view(r.1@)) == fn_error_lists(output),
        r.2 == second_argument(output) is Some,
{
    let empty_normal: Vec<Vec<TokenTree>> = Vec::new();
    let empty_pass: Vec<Vec<TokenTree>> = Vec::new();
    assert(token_lists_view(empty_normal@) =~= Seq::<Seq<TokenTree>>::empty());
    assert(token_lists_view(empty_pass@) =~= Seq::<Seq<TokenTree>>::empty());
    match output {
        Some(TypeModel::Path { segments, .. }) => {
            let ghost segs = segments@;
            let mut segments = segments;
            match segments.pop() {
                None => (empty_normal, empty_pass, false),
                Some(last) => {
                    assert(last == segs.last());
                    match last.arguments {
                        PathArgumentsModel::AngleBracketed(args) => {
                            if args.len() >= 2 {
                                let ghost all = args@;
                                let mut args = args;
                                let second = args.remove(1);
                                assert(second == all[1]);
                                match second {
                                    GenericArgumentModel::Type { tokens, .. } => {
                                        let (n, p) = error_type_split(tokens);
                                        (n, p, true)
                                    },
                                    GenericArgumentModel::Other => (empty_normal, empty_pass, true),
                                }
                            } else {
                                (empty_normal, empty_pass, false)
                            }
                        },
                        _ => (empty_normal, empty_pass, false),
                    }
                },
            }
        },
        _ => (empty_normal, empty_pass, false),
    }
}

/// Reads the path of the error module from the attribute's tokens.
fn base_path(attr: Vec<TokenTree>) -> (r: Result<PathModel, SyntaxError>)
    ensures
        match base_path_of(attr@) {
            Ok(p) => r matches Ok(q) && path_view(q) == p,
            Err(err) => r matches Err(e) && syntax_error_is(e, err),
        },
{
    if attr.len() == 0 {
        let mut segments: Vec<String> = Vec::new();
        segments.push(String::from_str("crate"));
        segments.push(String::from_str("errors"));
        let mut arguments: Vec<String> = Vec::new();
        arguments.push(String::new());
        arguments.push(String::new());
        let p = PathModel { leading_colon: false, segments, arguments };
        assert(crate::text::views(p.segments@) =~= seq!["crate"@, "errors"@]);
        assert(crate::text::views(p.arguments@) =~= seq![Seq::<char>::empty(), Seq::<char>::empty()]);
        return Ok(p);
    }
    let s = flatten_invisible(attr);
    match parse_path(&s, 0) {
        Ok((p, k)) => {
            if k < s.len() {
                Err(SyntaxError { kind: SyntaxKind::UnexpectedToken, at: k })
            } else {
                Ok(p)
            }
        },
        Err(e) => Err(e),
    }
}

/// The name of a function's error enum in this form: the function name in
/// CamelCase, then `Error`.
pub open spec fn fn_error_name(fn_name: Seq<char>) -> Seq<char> {
    camel_case(fn_name) + "Error"@
}

/// Plans a `#[fn_error]` function: the error module (from the attribute),
/// the enum named after the function, and the errors of its return type.
pub fn fn_error(attr: Vec<TokenTree>, fn_name: &String, output: Option<TypeModel>) -> (r: Result<FnErrorPlan, SyntaxError>)
    ensures
        match base_path_of(attr@) {
            Ok(bp) => r matches Ok(plan) && {
                &&& path_view(plan.base_path) == bp
                &&& plan.struct_name@ == fn_error_name(fn_name@)
                &&& (token_lists_view(plan.normal@), token_lists_view(plan.passthrough@)) == fn_error_lists(output)
                &&& plan.replace_error_type == second_argument(output) is Some
            },
            Err(err) => r matches Err(e) && syntax_error_is(e, err),
        },
{
    let base = match base_path(attr) {
        Ok(p) => p,
        Err(e) => { return Err(e); },
    };
    let mut struct_name = format_camel_case(fn_name.as_str());
    push_str(&mut struct_name, "Error");
    let (normal, passthrough, replace_error_type) = fn_error_split(output);
    Ok(FnErrorPlan { base_path: base, struct_name, normal, passthrough, replace_error_type })
}

// ---------------------------------------------------------------------------
// `#[error_module]` and the helper macros
// ---------------------------------------------------------------------------

/// The errors an error module defines: its structs, in order.
pub fn error_module(items: &Vec<ItemModel>) -> (r: Vec<String>)
    ensures
        crate::text::views(r@) == struct_names_of(items@),
{
    struct_names(items)
}

/// The arguments `base::path, Enum, function, errors...`.
pub open spec fn base_step_input(s: Seq<TokenTree>) -> Result<(PathView, (Seq<char>, Seq<char>, Seq<PathView>)), (SyntaxKind, int)> {
    match path_at(s, 0) {
        Ok((bp, k)) => {
            if !(k < s.len() && is_punct(s[k], ',')) {
                Err((SyntaxKind::ExpectedComma, k))
            } else {
                match step_args_at(s, k + 1) {
                    Ok(a) => Ok((bp, a)),
                    Err(e) => Err(e),
                }
            }
        },
        Err(e) => Err(e),
    }
}

/// Reads the arguments of the last expansion step, `base::path, Enum,
/// function, errors...`, and plans the enum as
/// [`crate::macros::create_fn_error_step`] does, remembering the path of the
/// error module.
pub fn create_fn_error_step(input: Vec<TokenTree>) -> (r: Result<FnErrorStep, SyntaxError>)
    ensures
        match base_step_input(flatten(input@)) {
            Ok((bp, (ty, f, ps))) => r matches Ok(st) && st.base_path matches Some(b) && path_view(b) == bp
                && step_matches(st, ty, f, ps),
            Err(err) => r matches Err(e) && syntax_error_is(e, err),
        },
{
    let s = flatten_invisible(input);
    let (bp, k) = match parse_path(&s, 0) {
        Ok(x) => x,
        Err(e) => { return Err(e); },
    };
    proof { crate::paths::lemma_path_at_advances(s@, 0); }
    let comma = k < s.len() && match &s[k] { TokenTree::Punct { ch, .. } => *ch == ',', _ => false };
    if !comma {
        return Err(SyntaxError { kind: SyntaxKind::ExpectedComma, at: k });
    }
    crate::macros::step_from(&s, k + 1, Some(bp))
}

/// The arguments `Enum, [all errors], [its errors]`, with an optional comma
/// between the two lists.
pub open spec fn old_missing_converts_input(s: Seq<TokenTree>) -> Result<(Seq<char>, Seq<PathView>, Seq<PathView>), (SyntaxKind, int)> {
    if !(0 < s.len() && crate::tokens::is_plain_ident(s[0])) {
        Err((SyntaxKind::ExpectedIdent, 0))
    } else if !(1 < s.len() && is_punct(s[1], ',')) {
        Err((SyntaxKind::ExpectedComma, 1))
    } else {
        match bracketed_paths_at(s, 2) {
            Err(e) => Err(e),
            Ok(source) => {
                let j = if 3 < s.len() && is_punct(s[3], ',') { 4int } else { 3int };
                match bracketed_paths_at(s, j) {
                    Err(e) => Err(e),
                    Ok(remove) => if j + 1 < s.len() {
                        Err((SyntaxKind::UnexpectedToken, j + 1))
                    } else {
                        Ok((crate::tokens::ident_name(s[0]), source, remove))
                    },
                }
            },
        }
    }
}

/// Reads the arguments of `impl_missing_converts!` in this form and keeps
/// the errors of the global enum that the enum does not hold.
pub fn impl_missing_converts(input: Vec<TokenTree>) -> (r: Result<MissingConverts, SyntaxError>)
    ensures
        match old_missing_converts_input(flatten(input@)) {
            Ok((ty, source, remove)) => r matches Ok(m) && {
                &&& m.ty@ == ty
                &&& crate::paths::paths_view(m.filtered@) == source.filter(not_in(remove))
                &&& crate::paths::paths_view(m.to_remove@) == remove
                &&& m.expand
            },
            Err(err) => r matches Err(e) && syntax_error_is(e, err),
        },
{
    let mut s = flatten_invisible(input);
    let ghost orig = s@;
    let ty = match crate::macros::plain_ident_at(&s, 0) {
        Some(n) => n,
        None => { return Err(SyntaxError { kind: SyntaxKind::ExpectedIdent, at: 0 }); },
    };
    let comma1 = s.len() > 1 && match &s[1] { TokenTree::Punct { ch, .. } => *ch == ',', _ => false };
    if !comma1 {
        return Err(SyntaxError { kind: SyntaxKind::ExpectedComma, at: 1 });
    }
    let source = match parse_bracketed_paths(&mut s, 2) {
        Ok(v) => v,
        Err(e) => { return Err(e); },
    };
    let comma2 = s.len() > 3 && match &s[3] { TokenTree::Punct { ch, .. } => *ch == ',', _ => false };
    let j: usize = if comma2 { 4 } else { 3 };
    assert(s@[3] == orig[3] || s@.len() <= 3);
    let remove = match parse_bracketed_paths(&mut s, j) {
        Ok(v) => v,
        Err(e) => { return Err(e); },
    };
    if s.len() > j + 1 {
        return Err(SyntaxError { kind: SyntaxKind::UnexpectedToken, at: j + 1 });
    }
    let filtered = filter_paths(&source, &remove);
    Ok(MissingConverts { ty, filtered, to_remove: remove, expand: true })
}

} // verus!
