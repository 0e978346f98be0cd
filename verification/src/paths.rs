//! Paths such as `crate::errors::ErrA`, and the comma-separated lists of
//! paths and identifiers that the helper macros take, read from tokens the
//! way `syn` reads them.

use vstd::prelude::*;
use crate::tokens::{TokenTree, Delimiter, is_punct, ident_name, tokens_text, push_tokens_text};
use crate::text::{views, lemma_views_push, text_is, copy_string, push_str};

verus! {

/// A path: an optional leading `::`, the identifiers of its segments, and
/// for each segment the text of the generic arguments written after it
/// (empty where there are none), as in `Vec::<u8>` or `Box<dyn Error>`.
pub struct PathModel {
    pub leading_colon: bool,
    pub segments: Vec<String>,
    pub arguments: Vec<String>,
}

/// A path as plain values: the leading `::`, the segments' identifiers, and
/// their generic arguments.
pub type PathView = (bool, Seq<Seq<char>>, Seq<Seq<char>>);

/// The plain-value view of a path.
pub open spec fn path_view(p: PathModel) -> PathView {
    (p.leading_colon, views(p.segments@), views(p.arguments@))
}

/// The plain-value view of a list of paths.
pub open spec fn paths_view(v: Seq<PathModel>) -> Seq<PathView> {
    v.map_values(|p: PathModel| path_view(p))
}

/// Why some tokens were refused.
pub enum SyntaxKind {
    /// `expected identifier`
    ExpectedIdent,
    /// ``expected `,` ``
    ExpectedComma,
    /// `expected square brackets`
    ExpectedBrackets,
    /// `unexpected token`
    UnexpectedToken,
    /// ``expected `>` ``: generic arguments that are never closed.
    ExpectedCloseAngle,
}

/// A refusal and the position of the token it is about (the end of the
/// tokens when the position is past them).
pub struct SyntaxError {
    pub kind: SyntaxKind,
    pub at: usize,
}

/// The message of a refusal.
pub open spec fn syntax_message(k: SyntaxKind) -> Seq<char> {
    match k {
        SyntaxKind::ExpectedIdent => "expected identifier"@,
        SyntaxKind::ExpectedComma => "expected `,`"@,
        SyntaxKind::ExpectedBrackets => "expected square brackets"@,
        SyntaxKind::UnexpectedToken => "unexpected token"@,
        SyntaxKind::ExpectedCloseAngle => "expected `>`"@,
    }
}

impl SyntaxError {
    /// The message shown for this refusal.
    pub fn message(&self) -> (r: String)
        ensures
            r@ == syntax_message(self.kind),
    {
        let mut s = String::new();
        match self.kind {
            SyntaxKind::ExpectedIdent => push_str(&mut s, "expected identifier"),
            SyntaxKind::ExpectedComma => push_str(&mut s, "expected `,`"),
            SyntaxKind::ExpectedBrackets => push_str(&mut s, "expected square brackets"),
            SyntaxKind::UnexpectedToken => push_str(&mut s, "unexpected token"),
            SyntaxKind::ExpectedCloseAngle => push_str(&mut s, "expected `>`"),
        }
        s
    }
}

/// The keywords that may stand as a path segment.
pub open spec fn path_keyword(n: Seq<char>) -> bool {
    n == "super"@ || n == "self"@ || n == "crate"@ || n == "try"@ || n == "Self"@
}

/// A token that can be a path segment.
pub open spec fn is_segment(t: TokenTree) -> bool {
    t matches TokenTree::Ident { name, keyword } && (!keyword || path_keyword(name@))
}

/// The token is the character `c`, joined to the next one.
pub open spec fn is_joint(t: TokenTree, c: char) -> bool {
    t matches TokenTree::Punct { ch, joint } && ch == c && joint
}

/// A `::` starts at `i`.
pub open spec fn is_sep(s: Seq<TokenTree>, i: int) -> bool {
    0 <= i && i + 1 < s.len() && is_joint(s[i], ':') && is_punct(s[i + 1], ':')
}

/// Generic arguments start at `i`: a `<` that does not begin `<=` or `<<=`,
/// or `::<`.
pub open spec fn generics_follow(s: Seq<TokenTree>, i: int) -> bool {
    ||| (0 <= i < s.len() && is_punct(s[i], '<')
        && !(is_joint(s[i], '<') && i + 1 < s.len() && is_punct(s[i + 1], '='))
        && !(is_joint(s[i], '<') && i + 2 < s.len() && is_joint(s[i + 1], '<') && is_punct(s[i + 2], '=')))
    ||| (is_sep(s, i) && i + 2 < s.len() && is_punct(s[i + 2], '<'))
}

/// The token at `i` is a parenthesized group.
pub open spec fn is_paren_at(s: Seq<TokenTree>, i: int) -> bool {
    0 <= i < s.len() && s[i] matches TokenTree::Group { delimiter: Delimiter::Parenthesis, .. }
}

/// Where generic arguments end, scanning from `j` with `depth` angle
/// brackets open: the position after the `>` that closes the first `<`. A
/// `>` that ends `->` closes nothing.
pub open spec fn angle_close(s: Seq<TokenTree>, j: int, depth: nat) -> Option<int>
    decreases s.len() - j,
{
    if j < 0 || j >= s.len() || depth == 0 {
        None
    } else if is_punct(s[j], '<') {
        angle_close(s, j + 1, depth + 1)
    } else if is_punct(s[j], '>') && !(j > 0 && is_joint(s[j - 1], '-')) {
        if depth == 1 {
            Some(j + 1)
        } else {
            angle_close(s, j + 1, (depth - 1) as nat)
        }
    } else {
        angle_close(s, j + 1, depth)
    }
}

/// The generic arguments that start at `k` close before the end.
pub proof fn lemma_angle_close_bounds(s: Seq<TokenTree>, j: int, depth: nat)
    ensures
        angle_close(s, j, depth) matches Some(e) ==> j < e <= s.len(),
    decreases s.len() - j,
{
    if !(j < 0 || j >= s.len() || depth == 0) {
        if is_punct(s[j], '<') {
            lemma_angle_close_bounds(s, j + 1, depth + 1);
        } else if is_punct(s[j], '>') && !(j > 0 && is_joint(s[j - 1], '-')) {
            if depth != 1 {
                lemma_angle_close_bounds(s, j + 1, (depth - 1) as nat);
            }
        } else {
            lemma_angle_close_bounds(s, j + 1, depth);
        }
    }
}

/// Where the `<` of the generic arguments that start at `k` stands (after
/// the `::` of `::<`).
pub open spec fn angle_open(s: Seq<TokenTree>, k: int) -> int {
    if is_punct(s[k], '<') { k } else { k + 2 }
}

/// The rest of a path after a segment's identifier, at `k`: the segment's
/// generic arguments, if any, then the segments after it.
pub open spec fn segment_rest(s: Seq<TokenTree>, k: int, names: Seq<Seq<char>>, args: Seq<Seq<char>>)
    -> Result<(Seq<Seq<char>>, Seq<Seq<char>>, int), (SyntaxKind, int)>
    decreases s.len() - k, 1int,
{
    if k < 0 || k > s.len() {
        Err((SyntaxKind::UnexpectedToken, k))
    } else if generics_follow(s, k) {
        match angle_close(s, angle_open(s, k) + 1, 1) {
            Some(e) => {
                proof { lemma_angle_close_bounds(s, angle_open(s, k) + 1, 1); }
                path_rest(s, e, names, args.push(tokens_text(s.subrange(k, e))))
            },
            None => Err((SyntaxKind::ExpectedCloseAngle, s.len() as int)),
        }
    } else {
        path_rest(s, k, names, args.push(Seq::empty()))
    }
}

/// The segments after a complete segment, from `k` on: each `::` not
/// followed by a parenthesized group takes one more segment.
pub open spec fn path_rest(s: Seq<TokenTree>, k: int, names: Seq<Seq<char>>, args: Seq<Seq<char>>)
    -> Result<(Seq<Seq<char>>, Seq<Seq<char>>, int), (SyntaxKind, int)>
    decreases s.len() - k, 0int,
{
    if k < 0 || k > s.len() {
        Err((SyntaxKind::UnexpectedToken, k))
    } else if is_sep(s, k) && !is_paren_at(s, k + 2) {
        if k + 2 < s.len() && is_segment(s[k + 2]) {
            segment_rest(s, k + 3, names.push(ident_name(s[k + 2])), args)
        } else {
            Err((SyntaxKind::ExpectedIdent, k + 2))
        }
    } else {
        Ok((names, args, k))
    }
}

/// The path that starts at `i`, and the position after it.
pub open spec fn path_at(s: Seq<TokenTree>, i: int) -> Result<(PathView, int), (SyntaxKind, int)> {
    let lc = is_sep(s, i);
    let j = if lc { i + 2 } else { i };
    if 0 <= j < s.len() && is_segment(s[j]) {
        match segment_rest(s, j + 1, seq![ident_name(s[j])], Seq::empty()) {
            Ok((names, args, k)) => Ok(((lc, names, args), k)),
            Err(e) => Err(e),
        }
    } else {
        Err((SyntaxKind::ExpectedIdent, j))
    }
}

proof fn lemma_segment_rest_advances(s: Seq<TokenTree>, k: int, names: Seq<Seq<char>>, args: Seq<Seq<char>>, after: bool)
    requires
        (if after { path_rest(s, k, names, args) } else { segment_rest(s, k, names, args) }) is Ok,
        after ==> args.len() == names.len(),
        !after ==> args.len() + 1 == names.len(),
    ensures
        ({
            let r = if after { path_rest(s, k, names, args) } else { segment_rest(s, k, names, args) };
            &&& k <= r->Ok_0.2 <= s.len()
            &&& r->Ok_0.0.len() >= names.len()
            &&& r->Ok_0.1.len() == r->Ok_0.0.len()
        }),
    decreases s.len() - k, if after { 0int } else { 1int },
{
    if after {
        if is_sep(s, k) && !is_paren_at(s, k + 2) && k + 2 < s.len() && is_segment(s[k + 2]) {
            lemma_segment_rest_advances(s, k + 3, names.push(ident_name(s[k + 2])), args, false);
        }
    } else if generics_follow(s, k) {
        let e = angle_close(s, angle_open(s, k) + 1, 1)->Some_0;
        lemma_angle_close_bounds(s, angle_open(s, k) + 1, 1);
        lemma_segment_rest_advances(s, e, names, args.push(tokens_text(s.subrange(k, e))), true);
    } else {
        lemma_segment_rest_advances(s, k, names, args.push(Seq::empty()), true);
    }
}

/// The path at `i` ends after it, has at least one segment, and has
/// arguments (possibly empty) for each segment.
pub proof fn lemma_path_at_advances(s: Seq<TokenTree>, i: int)
    requires
        path_at(s, i) is Ok,
    ensures
        i < path_at(s, i)->Ok_0.1 <= s.len(),
        path_at(s, i)->Ok_0.0.1.len() >= 1,
        path_at(s, i)->Ok_0.0.2.len() == path_at(s, i)->Ok_0.0.1.len(),
{
    let lc = is_sep(s, i);
    let j = if lc { i + 2 } else { i };
    lemma_segment_rest_advances(s, j + 1, seq![ident_name(s[j])], Seq::empty(), false);
}

/// Whether a token is a path segment.
fn segment_name(t: &TokenTree) -> (r: Option<&String>)
    ensures
        r is Some == is_segment(*t),
        r matches Some(n) ==> n@ == ident_name(*t),
{
    match t {
        TokenTree::Ident { name, keyword } => {
            if !*keyword {
                return Some(name);
            }
            proof {
                reveal_strlit("super");
                reveal_strlit("self");
                reveal_strlit("crate");
                reveal_strlit("try");
                reveal_strlit("Self");
            }
            if text_is(name, "super") || text_is(name, "self") || text_is(name, "crate")
                || text_is(name, "try") || text_is(name, "Self") {
                Some(name)
            } else {
                None
            }
        },
        _ => None,
    }
}

fn punct_at(s: &Vec<TokenTree>, i: usize, c: char) -> (r: bool)
    ensures
        r == (i < s@.len() && is_punct(s@[i as int], c)),
{
    if i < s.len() {
        match &s[i] {
            TokenTree::Punct { ch, .. } => *ch == c,
            _ => false,
        }
    } else {
        false
    }
}

fn joint_at(s: &Vec<TokenTree>, i: usize, c: char) -> (r: bool)
    ensures
        r == (i < s@.len() && is_joint(s@[i as int], c)),
{
    if i < s.len() {
        match &s[i] {
            TokenTree::Punct { ch, joint } => *ch == c && *joint,
            _ => false,
        }
    } else {
        false
    }
}

fn sep_at(s: &Vec<TokenTree>, i: usize) -> (r: bool)
    requires
        i <= s@.len(),
    ensures
        r == is_sep(s@, i as int),
{
    i < s.len() && s.len() - i > 1 && joint_at(s, i, ':') && punct_at(s, i + 1, ':')
}

fn generics_at(s: &Vec<TokenTree>, i: usize) -> (r: bool)
    requires
        i <= s@.len(),
    ensures
        r == generics_follow(s@, i as int),
{
    if i >= s.len() {
        return false;
    }
    let joint_lt = joint_at(s, i, '<');
    let lt_eq = joint_lt && s.len() - i > 1 && punct_at(s, i + 1, '=');
    let shl_eq = joint_lt && s.len() - i > 2 && joint_at(s, i + 1, '<') && punct_at(s, i + 2, '=');
    let lt = punct_at(s, i, '<') && !lt_eq && !shl_eq;
    lt || (sep_at(s, i) && s.len() - i > 2 && punct_at(s, i + 2, '<'))
}

/// A `::` at `k` that takes another segment.
fn continues_at(s: &Vec<TokenTree>, k: usize) -> (r: bool)
    requires
        k <= s@.len(),
    ensures
        r == (is_sep(s@, k as int) && !is_paren_at(s@, k as int + 2)),
{
    if !sep_at(s, k) {
        return false;
    }
    if s.len() - k > 2 {
        match &s[k + 2] {
            TokenTree::Group { delimiter: Delimiter::Parenthesis, .. } => false,
            _ => true,
        }
    } else {
        true
    }
}

/// Where the generic arguments that start inside `s` at `j` close.
fn angle_close_at(s: &Vec<TokenTree>, j: usize) -> (r: Option<usize>)
    requires
        1 <= j <= s@.len(),
    ensures
        match angle_close(s@, j as int, 1) {
            Some(e) => r == Some(e as usize),
            None => r is None,
        },
{
    let mut i: usize = j;
    let mut depth: usize = 1;
    while i < s.len()
        invariant
            1 <= j <= i <= s@.len(),
            1 <= depth <= i,
            angle_close(s@, j as int, 1) == angle_close(s@, i as int, depth as nat),
        decreases s@.len() - i,
    {
        if punct_at(s, i, '<') {
            depth = depth + 1;
        } else if punct_at(s, i, '>') && !joint_at(s, i - 1, '-') {
            if depth == 1 {
                return Some(i + 1);
            }
            depth = depth - 1;
        }
        i = i + 1;
    }
    None
}

/// Reads the path that starts at `i`.
pub fn parse_path(s: &Vec<TokenTree>, i: usize) -> (r: Result<(PathModel, usize), SyntaxError>)
    requires
        i <= s@.len(),
    ensures
        match path_at(s@, i as int) {
            Ok((p, k)) => r matches Ok((q, k2)) && path_view(q) == p && k2 == k,
            Err((kind, at)) => r matches Err(e) && e.kind == kind && e.at == at,
        },
{
    let lc = sep_at(s, i);
    let n = s.len();
    let j = if lc { assert(i + 1 < n); i + 2 } else { i };
    if j >= n {
        return Err(SyntaxError { kind: SyntaxKind::ExpectedIdent, at: j });
    }
    let first = match segment_name(&s[j]) {
        Some(n) => copy_string(n),
        None => { return Err(SyntaxError { kind: SyntaxKind::ExpectedIdent, at: j }); },
    };
    let mut segments: Vec<String> = Vec::new();
    let mut arguments: Vec<String> = Vec::new();
    segments.push(first);
    let mut k = j + 1;
    assert(views(segments@) =~= seq![ident_name(s@[j as int])]);
    assert(views(arguments@) =~= Seq::<Seq<char>>::empty());
    loop
        invariant
            j < k <= s@.len(),
            n == s@.len(),
            lc == is_sep(s@, i as int),
            j == (if lc { i + 2 } else { i as int }),
            is_segment(s@[j as int]),
            path_at(s@, i as int) == (match segment_rest(s@, k as int, views(segments@), views(arguments@)) {
                Ok((names, args, e)) => Ok(((lc, names, args), e)),
                Err(e) => Err(e),
            }),
        decreases s@.len() - k,
    {
        let ghost names = views(segments@);
        let ghost args0 = views(arguments@);
        let ghost before_args = arguments@;
        let mut text = String::new();
        let next = if generics_at(s, k) {
            let lt = if punct_at(s, k, '<') {
                k
            } else {
                assert(is_sep(s@, k as int) && k + 2 < n);
                k + 2
            };
            assert(lt as int == angle_open(s@, k as int) && lt < s@.len());
            match angle_close_at(s, lt + 1) {
                Some(e) => {
                    proof { lemma_angle_close_bounds(s@, lt + 1, 1); }
                    push_tokens_text(s, k, e, &mut text);
                    assert(text@ =~= tokens_text(s@.subrange(k as int, e as int)));
                    e
                },
                None => {
                    return Err(SyntaxError { kind: SyntaxKind::ExpectedCloseAngle, at: n });
                },
            }
        } else {
            assert(text@ =~= Seq::<char>::empty());
            k
        };
        arguments.push(text);
        proof { lemma_views_push(before_args, arguments@.last()); }
        assert(segment_rest(s@, k as int, names, args0) == path_rest(s@, next as int, names, views(arguments@)));
        if continues_at(s, next) {
            if s.len() - next > 2 {
                match segment_name(&s[next + 2]) {
                    Some(nm) => {
                        let ghost before = segments@;
                        segments.push(copy_string(nm));
                        proof { lemma_views_push(before, segments@.last()); }
                        k = next + 3;
                    },
                    None => { return Err(SyntaxError { kind: SyntaxKind::ExpectedIdent, at: next + 2 }); },
                }
            } else {
                return Err(SyntaxError { kind: SyntaxKind::ExpectedIdent, at: next + 2 });
            }
        } else {
            return Ok((PathModel { leading_colon: lc, segments, arguments }, next));
        }
    }
}

} // verus!
