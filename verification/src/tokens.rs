//! A plain model of token trees, and the grammars of the error lists written
//! inside `e![...]` and of the attribute arguments.

use vstd::prelude::*;
use crate::text::{views, lemma_views_push, push_str, push_char};

verus! {

/// The delimiter of a group of tokens.
pub enum Delimiter {
    Parenthesis,
    Brace,
    Bracket,
    /// An invisible delimiter, as around macro-substituted fragments.
    Invisible,
}

/// A token tree. An identifier records whether `syn` refuses it as an
/// identifier (a keyword or `_`); a punctuation character records whether it
/// is joined to the next one (as the first `:` of `::`).
pub enum TokenTree {
    Group { delimiter: Delimiter, stream: Vec<TokenTree> },
    Ident { name: String, keyword: bool },
    Punct { ch: char, joint: bool },
    Literal(String),
}

/// Which token a diagnostic points at: the macro call, a token of the input
/// (by index), or a token inside the bracketed group of `e![...]` (by index).
pub enum SpanRef {
    CallSite,
    Outer(usize),
    Inner(usize),
}

/// The token is the punctuation character `c`.
pub open spec fn is_punct(t: TokenTree, c: char) -> bool {
    t matches TokenTree::Punct { ch, .. } && ch == c
}

/// The token is an identifier of any kind.
pub open spec fn is_any_ident(t: TokenTree) -> bool {
    t is Ident
}

/// The token is an identifier that `syn` accepts as one.
pub open spec fn is_plain_ident(t: TokenTree) -> bool {
    t matches TokenTree::Ident { keyword, .. } && !keyword
}

/// The characters of an identifier token.
pub open spec fn ident_name(t: TokenTree) -> Seq<char> {
    t->name@
}

// ---------------------------------------------------------------------------
// Tokens as text
// ---------------------------------------------------------------------------

/// The token is a word: an identifier or a literal. Two words in a row are
/// written with a space between them; other tokens are written together.
pub open spec fn is_word_token(t: TokenTree) -> bool {
    t is Ident || t is Literal
}

/// The opening character of a delimiter (none for an invisible one).
pub open spec fn open_text(d: Delimiter) -> Seq<char> {
    match d {
        Delimiter::Parenthesis => seq!['('],
        Delimiter::Brace => seq!['{'],
        Delimiter::Bracket => seq!['['],
        Delimiter::Invisible => Seq::empty(),
    }
}

/// The closing character of a delimiter (none for an invisible one).
pub open spec fn close_text(d: Delimiter) -> Seq<char> {
    match d {
        Delimiter::Parenthesis => seq![')'],
        Delimiter::Brace => seq!['}'],
        Delimiter::Bracket => seq![']'],
        Delimiter::Invisible => Seq::empty(),
    }
}

/// The text of a token.
pub open spec fn token_text(t: TokenTree) -> Seq<char>
    decreases t,
{
    match t {
        TokenTree::Group { delimiter, stream } => open_text(delimiter) + tokens_text(stream@) + close_text(delimiter),
        TokenTree::Ident { name, .. } => name@,
        TokenTree::Punct { ch, .. } => seq![ch],
        TokenTree::Literal(l) => l@,
    }
}

/// The text of a sequence of tokens: each token's text, with a space
/// between two words in a row.
pub open spec fn tokens_text(s: Seq<TokenTree>) -> Seq<char>
    decreases s,
{
    if s.len() == 0 {
        Seq::empty()
    } else {
        let gap = if s.len() > 1 && is_word_token(s[s.len() - 2]) && is_word_token(s.last()) {
            seq![' ']
        } else {
            Seq::empty()
        };
        tokens_text(s.drop_last()) + gap + token_text(s.last())
    }
}

fn push_delimiter(d: &Delimiter, open: bool, out: &mut String)
    ensures
        final(out)@ == old(out)@ + (if open { open_text(*d) } else { close_text(*d) }),
{
    match d {
        Delimiter::Parenthesis => push_char(out, if open { '(' } else { ')' }),
        Delimiter::Brace => push_char(out, if open { '{' } else { '}' }),
        Delimiter::Bracket => push_char(out, if open { '[' } else { ']' }),
        Delimiter::Invisible => {
            assert(old(out)@ + Seq::<char>::empty() =~= old(out)@);
        },
    }
}

fn is_word(t: &TokenTree) -> (r: bool)
    ensures
        r == is_word_token(*t),
{
    match t {
        TokenTree::Ident { .. } => true,
        TokenTree::Literal(_) => true,
        _ => false,
    }
}

/// Appends the text of a token.
pub fn push_token_text(t: &TokenTree, out: &mut String)
    ensures
        final(out)@ == old(out)@ + token_text(*t),
    decreases t,
{
    match t {
        TokenTree::Group { delimiter, stream } => {
            push_delimiter(delimiter, true, out);
            assert(stream@.subrange(0, stream@.len() as int) =~= stream@);
            push_tokens_text(stream, 0, stream.len(), out);
            push_delimiter(delimiter, false, out);
            assert(final(out)@ =~= old(out)@ + token_text(*t));
        },
        TokenTree::Ident { name, .. } => push_str(out, name.as_str()),
        TokenTree::Punct { ch, .. } => {
            push_char(out, *ch);
            assert(final(out)@ =~= old(out)@ + seq![*ch]);
        },
        TokenTree::Literal(l) => push_str(out, l.as_str()),
    }
}

/// Appends the text of the tokens from `from` up to `to`.
pub fn push_tokens_text(s: &Vec<TokenTree>, from: usize, to: usize, out: &mut String)
    requires
        from <= to <= s@.len(),
    ensures
        final(out)@ == old(out)@ + tokens_text(s@.subrange(from as int, to as int)),
    decreases s,
{
    let ghost start = out@;
    let mut i: usize = from;
    assert(s@.subrange(from as int, from as int) =~= Seq::<TokenTree>::empty());
    assert(start + Seq::<char>::empty() =~= start);
    while i < to
        invariant
            from <= i <= to <= s@.len(),
            out@ == start + tokens_text(s@.subrange(from as int, i as int)),
        decreases to - i,
    {
        let ghost part = s@.subrange(from as int, i as int + 1);
        assert(part.drop_last() =~= s@.subrange(from as int, i as int));
        assert(part.last() == s@[i as int]);
        if i > from && is_word(&s[i - 1]) && is_word(&s[i]) {
            assert(part[part.len() - 2] == s@[i - 1]);
            push_char(out, ' ');
        } else {
            proof {
                if part.len() > 1 {
                    assert(part[part.len() - 2] == s@[i - 1]);
                }
            }
        }
        let ghost mid = out@;
        assert(decreases_to!(s => s@[i as int]));
        push_token_text(&s[i], out);
        assert(out@ =~= start + tokens_text(part));
        i += 1;
    }
}

fn punct_is(t: &TokenTree, c: char) -> (r: bool)
    ensures
        r == is_punct(*t, c),
{
    match t {
        TokenTree::Punct { ch, .. } => *ch == c,
        _ => false,
    }
}

// ---------------------------------------------------------------------------
// The list inside `e![...]`, as the attribute macros read it
// ---------------------------------------------------------------------------

/// What is wrong with an error list.
pub enum InnerErrorKind {
    /// `Cannot be empty; expected at least one error type`
    Empty,
    /// `Expected error type after '*'`
    ExpectedAfterStar,
    /// `Unexpected extra comma in error list`
    ExtraComma,
    /// `Expected error type`
    ExpectedErrorType,
    /// `Expected ',' between error types`
    ExpectedComma,
    /// `e! only accepts brackets [].`
    OnlyBrackets,
    /// `Unexpected EOF`
    UnexpectedEof,
}

/// An error in an error list and where to report it.
pub struct ListError {
    pub kind: InnerErrorKind,
    pub span: SpanRef,
}

/// The message of an error-list diagnostic.
pub open spec fn inner_error_message(k: InnerErrorKind) -> Seq<char> {
    match k {
        InnerErrorKind::Empty => "Cannot be empty; expected at least one error type"@,
        InnerErrorKind::ExpectedAfterStar => "Expected error type after '*'"@,
        InnerErrorKind::ExtraComma => "Unexpected extra comma in error list"@,
        InnerErrorKind::ExpectedErrorType => "Expected error type"@,
        InnerErrorKind::ExpectedComma => "Expected ',' between error types"@,
        InnerErrorKind::OnlyBrackets => "e! only accepts brackets []."@,
        InnerErrorKind::UnexpectedEof => "Unexpected EOF"@,
    }
}

impl InnerErrorKind {
    /// The message shown for this error.
    pub fn message(&self) -> (r: String)
        ensures
            r@ == inner_error_message(*self),
    {
        let mut s = String::new();
        match self {
            InnerErrorKind::Empty => push_str(&mut s, "Cannot be empty; expected at least one error type"),
            InnerErrorKind::ExpectedAfterStar => push_str(&mut s, "Expected error type after '*'"),
            InnerErrorKind::ExtraComma => push_str(&mut s, "Unexpected extra comma in error list"),
            InnerErrorKind::ExpectedErrorType => push_str(&mut s, "Expected error type"),
            InnerErrorKind::ExpectedComma => push_str(&mut s, "Expected ',' between error types"),
            InnerErrorKind::OnlyBrackets => push_str(&mut s, "e! only accepts brackets []."),
            InnerErrorKind::UnexpectedEof => push_str(&mut s, "Unexpected EOF"),
        }
        s
    }
}

/// The plain errors and the starred errors of a list.
pub type ErrorLists = (Seq<Seq<char>>, Seq<Seq<char>>);

/// After an item ending before `j`: the end, or a comma and more items.
pub open spec fn inner_after_item(toks: Seq<TokenTree>, j: int, normal: Seq<Seq<char>>, pass: Seq<Seq<char>>) -> Result<ErrorLists, (InnerErrorKind, int)>
    decreases toks.len() - j, 0int,
{
    if j >= toks.len() {
        Ok((normal, pass))
    } else if is_punct(toks[j], ',') {
        inner_errors_from(toks, j + 1, normal, pass)
    } else {
        Err((InnerErrorKind::ExpectedComma, j))
    }
}

/// The list read from position `i` on, given what was read before it: each
/// item is `Name` or `*Name`, and items are separated by commas (one may
/// end the list).
pub open spec fn inner_errors_from(toks: Seq<TokenTree>, i: int, normal: Seq<Seq<char>>, pass: Seq<Seq<char>>) -> Result<ErrorLists, (InnerErrorKind, int)>
    decreases toks.len() - i, 1int,
{
    if i >= toks.len() || i < 0 {
        Ok((normal, pass))
    } else if is_punct(toks[i], '*') {
        if i + 1 < toks.len() && is_any_ident(toks[i + 1]) {
            inner_after_item(toks, i + 2, normal, pass.push(ident_name(toks[i + 1])))
        } else {
            Err((InnerErrorKind::ExpectedAfterStar, i))
        }
    } else if is_punct(toks[i], ',') {
        Err((InnerErrorKind::ExtraComma, i))
    } else if is_any_ident(toks[i]) {
        inner_after_item(toks, i + 1, normal.push(ident_name(toks[i])), pass)
    } else {
        Err((InnerErrorKind::ExpectedErrorType, i))
    }
}

/// The list inside `e![...]`: not empty, then as [`inner_errors_from`].
pub open spec fn inner_errors_spec(toks: Seq<TokenTree>) -> Result<ErrorLists, (InnerErrorKind, int)> {
    if toks.len() == 0 {
        Err((InnerErrorKind::Empty, -1))
    } else {
        inner_errors_from(toks, 0, Seq::empty(), Seq::empty())
    }
}

/// Where an error of the inner list is reported: the group itself for an
/// empty list, the token otherwise.
pub open spec fn inner_span_ok(span: SpanRef, at: int, group_at: int) -> bool {
    if at < 0 {
        span == SpanRef::Outer(group_at as usize)
    } else {
        span == SpanRef::Inner(at as usize)
    }
}

/// Reads the list of errors inside `e![...]`: the plain errors and the
/// starred (`*`) errors, in the order written.
pub fn process_inner_errors(toks: &Vec<TokenTree>, group_at: usize) -> (r: Result<(Vec<String>, Vec<String>), ListError>)
    ensures
        match inner_errors_spec(toks@) {
            Ok(lists) => r matches Ok(v) && views(v.0@) == lists.0 && views(v.1@) == lists.1,
            Err((kind, at)) => r matches Err(e) && e.kind == kind && inner_span_ok(e.span, at, group_at as int),
        },
{
    if toks.len() == 0 {
        return Err(ListError { kind: InnerErrorKind::Empty, span: SpanRef::Outer(group_at) });
    }
    let mut normal: Vec<String> = Vec::new();
    let mut pass: Vec<String> = Vec::new();
    assert(views(normal@) =~= Seq::<Seq<char>>::empty());
    assert(views(pass@) =~= Seq::<Seq<char>>::empty());
    let mut i: usize = 0;
    while i < toks.len()
        invariant
            0 <= i <= toks.len(),
            toks@.len() > 0,
            inner_errors_spec(toks@) == inner_errors_from(toks@, i as int, views(normal@), views(pass@)),
        decreases toks.len() - i,
    {
        let j: usize;
        if punct_is(&toks[i], '*') {
            if i + 1 < toks.len() {
                match &toks[i + 1] {
                    TokenTree::Ident { name, .. } => {
                        proof { lemma_views_push(pass@, *name); }
                        pass.push(name.clone());
                        j = i + 2;
                    },
                    _ => {
                        return Err(ListError { kind: InnerErrorKind::ExpectedAfterStar, span: SpanRef::Inner(i) });
                    },
                }
            } else {
                return Err(ListError { kind: InnerErrorKind::ExpectedAfterStar, span: SpanRef::Inner(i) });
            }
        } else if punct_is(&toks[i], ',') {
            return Err(ListError { kind: InnerErrorKind::ExtraComma, span: SpanRef::Inner(i) });
        } else {
            match &toks[i] {
                TokenTree::Ident { name, .. } => {
                    proof { lemma_views_push(normal@, *name); }
                    normal.push(name.clone());
                    j = i + 1;
                },
                _ => {
                    return Err(ListError { kind: InnerErrorKind::ExpectedErrorType, span: SpanRef::Inner(i) });
                },
            }
        }
        assert(inner_errors_spec(toks@) == inner_after_item(toks@, j as int, views(normal@), views(pass@)));
        if j >= toks.len() {
            i = j;
        } else if punct_is(&toks[j], ',') {
            i = j + 1;
        } else {
            return Err(ListError { kind: InnerErrorKind::ExpectedComma, span: SpanRef::Inner(j) });
        }
    }
    Ok((normal, pass))
}

/// Reading the error type of a signature: `Ok(None)` when it is not written
/// as `e![...]`, the two lists when it is, or the error.
pub open spec fn error_list_spec(toks: Seq<TokenTree>) -> Result<Option<ErrorLists>, (InnerErrorKind, SpanRef)> {
    if toks.len() == 0 {
        Err((InnerErrorKind::UnexpectedEof, SpanRef::CallSite))
    } else if toks[0] matches TokenTree::Ident { name, .. } && name@ == "e"@ {
        if toks.len() >= 2 && is_punct(toks[1], '!') {
            if toks.len() >= 3 && toks[2] is Group {
                if !(toks[2]->delimiter is Bracket) {
                    Err((InnerErrorKind::OnlyBrackets, SpanRef::Outer(2)))
                } else {
                    match inner_errors_spec(toks[2]->stream@) {
                        Ok(lists) => Ok(Some(lists)),
                        Err((kind, at)) => Err((kind, if at < 0 { SpanRef::Outer(2) } else { SpanRef::Inner(at as usize) })),
                    }
                }
            } else {
                Err((InnerErrorKind::OnlyBrackets, SpanRef::Outer(1)))
            }
        } else {
            Ok(None)
        }
    } else {
        Ok(None)
    }
}

/// Reads the error type of a skerry function: `e![A, *B]` gives the plain
/// errors `[A]` and the starred errors `[B]`; any other type gives `None`.
pub fn extract_errors_from_tokens(toks: &Vec<TokenTree>) -> (r: Result<Option<(Vec<String>, Vec<String>)>, ListError>)
    ensures
        match error_list_spec(toks@) {
            Ok(None) => r matches Ok(None),
            Ok(Some(lists)) => r matches Ok(Some(v)) && views(v.0@) == lists.0 && views(v.1@) == lists.1,
            Err((kind, span)) => r matches Err(e) && e.kind == kind && e.span == span,
        },
{
    if toks.len() == 0 {
        return Err(ListError { kind: InnerErrorKind::UnexpectedEof, span: SpanRef::CallSite });
    }
    let is_e = match &toks[0] {
        TokenTree::Ident { name, .. } => {
            proof { reveal_strlit("e"); }
            let e = String::from_str("e");
            name.eq(&e)
        },
        _ => false,
    };
    if !is_e {
        return Ok(None);
    }
    if toks.len() < 2 || !punct_is(&toks[1], '!') {
        return Ok(None);
    }
    if toks.len() < 3 {
        return Err(ListError { kind: InnerErrorKind::OnlyBrackets, span: SpanRef::Outer(1) });
    }
    match &toks[2] {
        TokenTree::Group { delimiter, stream } => {
            match delimiter {
                Delimiter::Bracket => {
                    match process_inner_errors(stream, 2) {
                        Ok(lists) => Ok(Some(lists)),
                        Err(e) => Err(e),
                    }
                },
                _ => Err(ListError { kind: InnerErrorKind::OnlyBrackets, span: SpanRef::Outer(2) }),
            }
        },
        _ => Err(ListError { kind: InnerErrorKind::OnlyBrackets, span: SpanRef::Outer(1) }),
    }
}


fn ident_of(t: &TokenTree) -> (r: Option<&String>)
    ensures
        r is Some == is_plain_ident(*t),
        r matches Some(n) ==> n@ == ident_name(*t),
{
    match t {
        TokenTree::Ident { name, keyword } => if *keyword { None } else { Some(name) },
        _ => None,
    }
}

// ---------------------------------------------------------------------------
// The list inside `e![...]`, as the generator reads it
// ---------------------------------------------------------------------------

/// What is wrong with a comma-separated list read by the generator.
pub enum TerminatedErrorKind {
    /// `expected identifier`
    ExpectedIdent,
    /// `expected `,``
    ExpectedComma,
    /// `Should contain at least one element`
    Empty,
}

/// An error in a list read by the generator, with its position.
pub struct TerminatedError {
    pub kind: TerminatedErrorKind,
    pub span: SpanRef,
}

/// After an item ending before `j`: the end, or a comma and more items.
pub open spec fn terminated_after(toks: Seq<TokenTree>, j: int, simple: Seq<Seq<char>>, comp: Seq<Seq<char>>) -> Result<ErrorLists, (TerminatedErrorKind, int)>
    decreases toks.len() - j, 0int,
{
    if j >= toks.len() {
        Ok((simple, comp))
    } else if is_punct(toks[j], ',') {
        terminated_from(toks, j + 1, simple, comp)
    } else {
        Err((TerminatedErrorKind::ExpectedComma, j))
    }
}

/// The items from position `i` on, separated by commas with an optional
/// comma at the end: `Name` (a plain error) or `*Name` (a composite).
pub open spec fn terminated_from(toks: Seq<TokenTree>, i: int, simple: Seq<Seq<char>>, comp: Seq<Seq<char>>) -> Result<ErrorLists, (TerminatedErrorKind, int)>
    decreases toks.len() - i, 1int,
{
    if i >= toks.len() || i < 0 {
        Ok((simple, comp))
    } else if is_punct(toks[i], '*') {
        if i + 1 < toks.len() && is_plain_ident(toks[i + 1]) {
            terminated_after(toks, i + 2, simple, comp.push(ident_name(toks[i + 1])))
        } else {
            Err((TerminatedErrorKind::ExpectedIdent, i + 1))
        }
    } else if is_plain_ident(toks[i]) {
        terminated_after(toks, i + 1, simple.push(ident_name(toks[i])), comp)
    } else {
        Err((TerminatedErrorKind::ExpectedIdent, i))
    }
}

/// The list the generator reads from `e![...]`: the items, of which there
/// must be at least one.
pub open spec fn skerry_error_list_spec(toks: Seq<TokenTree>) -> Result<ErrorLists, (TerminatedErrorKind, int)> {
    match terminated_from(toks, 0, Seq::empty(), Seq::empty()) {
        Ok(lists) => if lists.0.len() + lists.1.len() == 0 {
            Err((TerminatedErrorKind::Empty, toks.len() as int))
        } else {
            Ok(lists)
        },
        Err(e) => Err(e),
    }
}

/// Where the generator's list error is reported: the token at the position,
/// or the end of the input.
pub open spec fn terminated_span_ok(toks: Seq<TokenTree>, span: SpanRef, at: int) -> bool {
    if at >= toks.len() {
        span == SpanRef::CallSite
    } else {
        span == SpanRef::Outer(at as usize)
    }
}

/// Reads the list inside `e![...]` as the generator does: the plain errors
/// and the starred errors.
pub fn parse_skerry_error_list(toks: &Vec<TokenTree>) -> (r: Result<(Vec<String>, Vec<String>), TerminatedError>)
    ensures
        match skerry_error_list_spec(toks@) {
            Ok(lists) => r matches Ok(v) && views(v.0@) == lists.0 && views(v.1@) == lists.1,
            Err((kind, at)) => r matches Err(e) && e.kind == kind && terminated_span_ok(toks@, e.span, at),
        },
{
    let mut simple: Vec<String> = Vec::new();
    let mut comp: Vec<String> = Vec::new();
    assert(views(simple@) =~= Seq::<Seq<char>>::empty());
    assert(views(comp@) =~= Seq::<Seq<char>>::empty());
    let mut i: usize = 0;
    while i < toks.len()
        invariant
            0 <= i <= toks.len(),
            terminated_from(toks@, 0, Seq::empty(), Seq::empty()) == terminated_from(toks@, i as int, views(simple@), views(comp@)),
        decreases toks.len() - i,
    {
        let j: usize;
        if punct_is(&toks[i], '*') {
            if i + 1 < toks.len() {
                match ident_of(&toks[i + 1]) {
                    Some(name) => {
                        proof { lemma_views_push(comp@, *name); }
                        comp.push(name.clone());
                        j = i + 2;
                    },
                    None => {
                        return Err(TerminatedError { kind: TerminatedErrorKind::ExpectedIdent, span: SpanRef::Outer(i + 1) });
                    },
                }
            } else {
                return Err(TerminatedError { kind: TerminatedErrorKind::ExpectedIdent, span: SpanRef::CallSite });
            }
        } else {
            match ident_of(&toks[i]) {
                Some(name) => {
                    proof { lemma_views_push(simple@, *name); }
                    simple.push(name.clone());
                    j = i + 1;
                },
                None => {
                    return Err(TerminatedError { kind: TerminatedErrorKind::ExpectedIdent, span: SpanRef::Outer(i) });
                },
            }
        }
        assert(terminated_from(toks@, 0, Seq::empty(), Seq::empty()) == terminated_after(toks@, j as int, views(simple@), views(comp@)));
        if j >= toks.len() {
            i = j;
        } else if punct_is(&toks[j], ',') {
            i = j + 1;
        } else {
            return Err(TerminatedError { kind: TerminatedErrorKind::ExpectedComma, span: SpanRef::Outer(j) });
        }
    }
    if simple.len() == 0 && comp.len() == 0 {
        return Err(TerminatedError { kind: TerminatedErrorKind::Empty, span: SpanRef::CallSite });
    }
    Ok((simple, comp))
}

// ---------------------------------------------------------------------------
// The error list of the attribute form
// ---------------------------------------------------------------------------

/// One error of an attribute's list: a plain error, or a spread (`*`)
/// composite.
pub enum ErrorInput {
    Standard(String),
    Spread(String),
}

/// An error list as given to an attribute.
pub struct EInput {
    pub errors: Vec<ErrorInput>,
}

/// The plain-value view of one item: whether it is spread, and the name.
pub open spec fn error_input_view(e: ErrorInput) -> (bool, Seq<char>) {
    match e {
        ErrorInput::Standard(n) => (false, n@),
        ErrorInput::Spread(n) => (true, n@),
    }
}

/// The plain-value view of an attribute's list.
pub open spec fn error_inputs_view(v: Seq<ErrorInput>) -> Seq<(bool, Seq<char>)> {
    v.map_values(|e: ErrorInput| error_input_view(e))
}

/// The items from position `i` on: `Name` or `*Name`, each optionally
/// followed by a comma.
pub open spec fn e_input_from(toks: Seq<TokenTree>, i: int, acc: Seq<(bool, Seq<char>)>) -> Result<Seq<(bool, Seq<char>)>, int>
    decreases toks.len() - i,
{
    if i >= toks.len() || i < 0 {
        Ok(acc)
    } else {
        let spread = is_punct(toks[i], '*');
        let j = if spread { i + 1 } else { i };
        if j < toks.len() && is_plain_ident(toks[j]) {
            let acc2 = acc.push((spread, ident_name(toks[j])));
            if j + 1 < toks.len() && is_punct(toks[j + 1], ',') {
                e_input_from(toks, j + 2, acc2)
            } else {
                e_input_from(toks, j + 1, acc2)
            }
        } else {
            Err(j)
        }
    }
}

/// An attribute's list: at least one item.
pub open spec fn e_input_spec(toks: Seq<TokenTree>) -> Result<Seq<(bool, Seq<char>)>, int> {
    if toks.len() == 0 {
        Err(-1)
    } else {
        e_input_from(toks, 0, Seq::empty())
    }
}

/// Why an attribute's list was refused.
pub enum EInputError {
    /// `Attribute requires you to define at least one error`
    Empty,
    /// `expected identifier`, at the given token or at the end.
    ExpectedIdent(SpanRef),
}

impl EInput {
    /// Reads an attribute's error list.
    pub fn parse(toks: &Vec<TokenTree>) -> (r: Result<EInput, EInputError>)
        ensures
            match e_input_spec(toks@) {
                Ok(items) => r matches Ok(v) && error_inputs_view(v.errors@) == items,
                Err(at) => r matches Err(e) && (if at < 0 {
                    e is Empty
                } else if at >= toks@.len() {
                    e == EInputError::ExpectedIdent(SpanRef::CallSite)
                } else {
                    e == EInputError::ExpectedIdent(SpanRef::Outer(at as usize))
                }),
            },
    {
        if toks.len() == 0 {
            return Err(EInputError::Empty);
        }
        let mut errors: Vec<ErrorInput> = Vec::new();
        assert(error_inputs_view(errors@) =~= Seq::<(bool, Seq<char>)>::empty());
        let mut i: usize = 0;
        while i < toks.len()
            invariant
                0 <= i <= toks.len(),
                toks@.len() > 0,
                e_input_spec(toks@) == e_input_from(toks@, i as int, error_inputs_view(errors@)),
            decreases toks.len() - i,
        {
            let spread = punct_is(&toks[i], '*');
            let j = if spread { i + 1 } else { i };
            if j >= toks.len() {
                return Err(EInputError::ExpectedIdent(SpanRef::CallSite));
            }
            match ident_of(&toks[j]) {
                Some(name) => {
                    let item = if spread { ErrorInput::Spread(name.clone()) } else { ErrorInput::Standard(name.clone()) };
                    let ghost before = errors@;
                    errors.push(item);
                    assert(error_inputs_view(errors@) =~= error_inputs_view(before).push((spread, name@)));
                    if j + 1 < toks.len() && punct_is(&toks[j + 1], ',') {
                        i = j + 2;
                    } else {
                        i = j + 1;
                    }
                },
                None => {
                    return Err(EInputError::ExpectedIdent(SpanRef::Outer(j)));
                },
            }
        }
        Ok(EInput { errors })
    }
}

// ---------------------------------------------------------------------------
// `prefix(Name)` attribute arguments
// ---------------------------------------------------------------------------

/// Why the arguments of an impl or trait attribute were refused.
pub enum AttributeError {
    /// `expected identifier`
    ExpectedIdent(SpanRef),
    /// `expected parentheses`
    ExpectedParens(SpanRef),
    /// `unexpected token`
    UnexpectedToken(SpanRef),
    /// `"{name}" is not an attribute, valid attributes are "prefix".`
    UnknownAttribute { name: String, at: usize },
}

/// The message for an unknown attribute name.
pub open spec fn unknown_attribute_message(name: Seq<char>) -> Seq<char> {
    "\""@ + name + "\" is not an attribute, valid attributes are \"prefix\"."@
}

/// The message of a refused attribute argument.
pub open spec fn attribute_error_message(e: AttributeError) -> Seq<char> {
    match e {
        AttributeError::ExpectedIdent(_) => "expected identifier"@,
        AttributeError::ExpectedParens(_) => "expected parentheses"@,
        AttributeError::UnexpectedToken(_) => "unexpected token"@,
        AttributeError::UnknownAttribute { name, .. } => unknown_attribute_message(name@),
    }
}

impl AttributeError {
    /// The message shown for this refusal.
    pub fn message(&self) -> (r: String)
        ensures
            r@ == attribute_error_message(*self),
    {
        match self {
            AttributeError::ExpectedIdent(_) => String::from_str("expected identifier"),
            AttributeError::ExpectedParens(_) => String::from_str("expected parentheses"),
            AttributeError::UnexpectedToken(_) => String::from_str("unexpected token"),
            AttributeError::UnknownAttribute { name, .. } => unknown_attribute(name),
        }
    }
}

/// The message of an error in a list read by the generator.
pub open spec fn terminated_error_message(k: TerminatedErrorKind) -> Seq<char> {
    match k {
        TerminatedErrorKind::ExpectedIdent => "expected identifier"@,
        TerminatedErrorKind::ExpectedComma => "expected `,`"@,
        TerminatedErrorKind::Empty => "Should contain at least one element"@,
    }
}

impl TerminatedErrorKind {
    /// The message shown for this error.
    pub fn message(&self) -> (r: String)
        ensures
            r@ == terminated_error_message(*self),
    {
        match self {
            TerminatedErrorKind::ExpectedIdent => String::from_str("expected identifier"),
            TerminatedErrorKind::ExpectedComma => String::from_str("expected `,`"),
            TerminatedErrorKind::Empty => String::from_str("Should contain at least one element"),
        }
    }
}

/// The arguments from position `i` on, given the prefix read so far:
/// `prefix(Name)` items, each optionally followed by a comma; the last
/// prefix given wins.
pub open spec fn attribute_from(toks: Seq<TokenTree>, i: int, prefix: Option<Seq<char>>) -> Result<Option<Seq<char>>, (int, int)>
    decreases toks.len() - i,
{
    if i >= toks.len() || i < 0 {
        Ok(prefix)
    } else if !is_plain_ident(toks[i]) {
        Err((0, i))
    } else if ident_name(toks[i]) != "prefix"@ {
        Err((3, i))
    } else if !(i + 1 < toks.len() && toks[i + 1] is Group && toks[i + 1]->delimiter is Parenthesis) {
        Err((1, i + 1))
    } else {
        let inner = toks[i + 1]->stream@;
        if !(inner.len() >= 1 && is_plain_ident(inner[0])) {
            Err((0, i + 1))
        } else if inner.len() > 1 {
            Err((2, i + 1))
        } else {
            let p = Some(ident_name(inner[0]));
            if i + 2 < toks.len() && is_punct(toks[i + 2], ',') {
                attribute_from(toks, i + 3, p)
            } else {
                attribute_from(toks, i + 2, p)
            }
        }
    }
}

/// The error that [`attribute_from`] reports as `(kind, position)`.
pub open spec fn attribute_error_ok(toks: Seq<TokenTree>, e: AttributeError, kind: int, at: int) -> bool {
    let span = if at >= toks.len() { SpanRef::CallSite } else { SpanRef::Outer(at as usize) };
    if kind == 0 {
        e == AttributeError::ExpectedIdent(span)
    } else if kind == 1 {
        e == AttributeError::ExpectedParens(span)
    } else if kind == 2 {
        e == AttributeError::UnexpectedToken(span)
    } else {
        e matches AttributeError::UnknownAttribute { name, at: a } && a == at && name@ == ident_name(toks[at])
    }
}

/// The arguments of `#[skerry_impl(...)]` and `#[skerry_trait(...)]`.
pub struct ImplAttribute {
    pub prefix: Option<String>,
}

impl ImplAttribute {
    /// Reads the arguments of an impl or trait attribute.
    pub fn parse(toks: &Vec<TokenTree>) -> (r: Result<ImplAttribute, AttributeError>)
        ensures
            match attribute_from(toks@, 0, None) {
                Ok(p) => r matches Ok(a) && (match p {
                    Some(n) => a.prefix matches Some(s) && s@ == n,
                    None => a.prefix is None,
                }),
                Err((kind, at)) => r matches Err(e) && attribute_error_ok(toks@, e, kind, at),
            },
    {
        let mut prefix: Option<String> = None;
        let mut i: usize = 0;
        proof { reveal_strlit("prefix"); }
        let key_prefix = String::from_str("prefix");
        while i < toks.len()
            invariant
                0 <= i <= toks.len(),
                key_prefix@ == "prefix"@,
                attribute_from(toks@, 0, None) == attribute_from(toks@, i as int, match prefix {
                    Some(s) => Some(s@),
                    None => None,
                }),
            decreases toks.len() - i,
        {
            let key = match ident_of(&toks[i]) {
                Some(k) => k,
                None => { return Err(AttributeError::ExpectedIdent(SpanRef::Outer(i))); },
            };
            if !key.eq(&key_prefix) {
                return Err(AttributeError::UnknownAttribute { name: key.clone(), at: i });
            }
            if i + 1 >= toks.len() {
                return Err(AttributeError::ExpectedParens(SpanRef::CallSite));
            }
            match &toks[i + 1] {
                TokenTree::Group { delimiter: Delimiter::Parenthesis, stream } => {
                    if stream.len() == 0 {
                        return Err(AttributeError::ExpectedIdent(SpanRef::Outer(i + 1)));
                    }
                    let name = match ident_of(&stream[0]) {
                        Some(n) => n,
                        None => { return Err(AttributeError::ExpectedIdent(SpanRef::Outer(i + 1))); },
                    };
                    if stream.len() > 1 {
                        return Err(AttributeError::UnexpectedToken(SpanRef::Outer(i + 1)));
                    }
                    prefix = Some(name.clone());
                },
                _ => { return Err(AttributeError::ExpectedParens(SpanRef::Outer(i + 1))); },
            }
            if i + 2 < toks.len() && punct_is(&toks[i + 2], ',') {
                i = i + 3;
            } else {
                i = i + 2;
            }
        }
        Ok(ImplAttribute { prefix })
    }
}

/// The message for an unknown attribute name.
pub fn unknown_attribute(name: &String) -> (r: String)
    ensures
        r@ == unknown_attribute_message(name@),
{
    let mut s = String::new();
    push_str(&mut s, "\"");
    push_str(&mut s, name.as_str());
    push_str(&mut s, "\" is not an attribute, valid attributes are \"prefix\".");
    s
}


// ---------------------------------------------------------------------------
// Invisible groups
// ---------------------------------------------------------------------------

/// The tokens with every invisible group replaced by its contents, as `syn`
/// reads them: a parser sees through such groups.
pub open spec fn flatten(s: Seq<TokenTree>) -> Seq<TokenTree>
    decreases s,
{
    if s.len() == 0 {
        Seq::empty()
    } else {
        let rest = flatten(s.subrange(1, s.len() as int));
        match s[0] {
            TokenTree::Group { delimiter: Delimiter::Invisible, stream } => {
                proof { assert(decreases_to!(s => stream@)); }
                flatten(stream@) + rest
            }
            _ => seq![s[0]] + rest,
        }
    }
}

/// Replaces every invisible group by its contents.
pub fn flatten_invisible(toks: Vec<TokenTree>) -> (r: Vec<TokenTree>)
    ensures
        r@ == flatten(toks@),
    decreases toks@,
{
    let mut toks = toks;
    if toks.len() == 0 {
        return Vec::new();
    }
    let ghost all = toks@;
    let head = toks.remove(0);
    assert(toks@ =~= all.subrange(1, all.len() as int));
    let mut rest = flatten_invisible(toks);
    match head {
        TokenTree::Group { delimiter: Delimiter::Invisible, stream } => {
            assert(decreases_to!(all => stream@));
            let mut inner = flatten_invisible(stream);
            inner.append(&mut rest);
            inner
        }
        other => {
            let mut out = Vec::new();
            out.push(other);
            out.append(&mut rest);
            assert(out@ =~= seq![all[0]] + flatten(all.subrange(1, all.len() as int)));
            out
        }
    }
}

} // verus!
