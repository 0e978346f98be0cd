use skerry::berrors;
use skerry::fn_attrs::{self, MethodModel};
use skerry::items::{FieldsModel, ItemModel, VariantModel};
use skerry::macros;
use skerry::marking::{
    self, expansion_file, skerry_global, skerry_invoke, GlobalAttrError, ImplTraitAttribute, InvokeFailure,
    InvokeOutcome, ModError, SkerryAttrError, SkerryItem,
};
use skerry::definitions::UnnamedField;
use skerry::paths::{parse_path, PathModel, SyntaxKind};
use skerry::signature::{
    process_skerry_logic, replace_fn_error, type_to_ident, GenericArgumentModel, PathArgumentsModel,
    PathSegmentModel, ReplaceError, SignatureModel, SkerryFnError, TypeModel,
};
use skerry::tokens::{
    extract_errors_from_tokens, parse_skerry_error_list, process_inner_errors, AttributeError, Delimiter, EInput,
    EInputError, ErrorInput, ImplAttribute, InnerErrorKind, SpanRef, TokenTree,
};
use skerry::writer::{EnumErrorLocation, WrittenResult};

fn ident(s: &str) -> TokenTree {
    TokenTree::Ident { name: s.to_string(), keyword: false }
}

fn keyword(s: &str) -> TokenTree {
    TokenTree::Ident { name: s.to_string(), keyword: true }
}

fn punct(c: char) -> TokenTree {
    TokenTree::Punct { ch: c, joint: false }
}

fn joint(c: char) -> TokenTree {
    TokenTree::Punct { ch: c, joint: true }
}

fn group(d: Delimiter, stream: Vec<TokenTree>) -> TokenTree {
    TokenTree::Group { delimiter: d, stream }
}

/// The tokens of a path such as `crate::errors::ErrA`.
fn path_tokens(p: &str) -> Vec<TokenTree> {
    let mut out = Vec::new();
    for (i, seg) in p.split("::").enumerate() {
        if i > 0 {
            out.push(joint(':'));
            out.push(punct(':'));
        }
        if seg == "crate" || seg == "self" || seg == "super" {
            out.push(keyword(seg));
        } else {
            out.push(ident(seg));
        }
    }
    out
}

fn path_text(p: &PathModel) -> String {
    let mut s = if p.leading_colon { "::".to_string() } else { String::new() };
    for (i, seg) in p.segments.iter().enumerate() {
        if i > 0 {
            s.push_str("::");
        }
        s.push_str(seg);
        s.push_str(&p.arguments[i]);
    }
    s
}

/// `e![list]` as tokens.
fn e_call(list: Vec<TokenTree>) -> Vec<TokenTree> {
    vec![ident("e"), punct('!'), group(Delimiter::Bracket, list)]
}

fn plain_type(name: &str) -> TypeModel {
    TypeModel::Path {
        leading_colon: false,
        segments: vec![PathSegmentModel { ident: name.to_string(), arguments: PathArgumentsModel::NoArguments }],
    }
}

/// `Name<(), error>` where the error argument has the given tokens.
fn generic_type(name: &str, error_tokens: Vec<TokenTree>) -> TypeModel {
    TypeModel::Path {
        leading_colon: false,
        segments: vec![PathSegmentModel {
            ident: name.to_string(),
            arguments: PathArgumentsModel::AngleBracketed(vec![
                GenericArgumentModel::Type { ty: TypeModel::Other, tokens: vec![group(Delimiter::Parenthesis, vec![])] },
                GenericArgumentModel::Type { ty: TypeModel::Other, tokens: error_tokens },
            ]),
        }],
    }
}

fn sig(name: &str, output: Option<TypeModel>) -> SignatureModel {
    SignatureModel { ident: name.to_string(), output, text: format!("fn {name} ()") }
}

fn names(v: &[String]) -> Vec<&str> {
    v.iter().map(|s| s.as_str()).collect()
}

// ---------------------------------------------------------------------------
// Error lists
// ---------------------------------------------------------------------------

#[test]
fn inner_errors_split_plain_and_starred() {
    let toks = vec![ident("ErrA"), punct(','), punct('*'), ident("LowLevelError"), punct(','), ident("ErrB")];
    let (normal, pass) = process_inner_errors(&toks, 0).ok().unwrap();
    assert_eq!(names(&normal), vec!["ErrA", "ErrB"]);
    assert_eq!(names(&pass), vec!["LowLevelError"]);
}

#[test]
fn inner_errors_report_each_mistake() {
    let kind = |toks: Vec<TokenTree>| process_inner_errors(&toks, 0).err().unwrap().kind;
    assert!(matches!(kind(vec![]), InnerErrorKind::Empty));
    assert!(matches!(kind(vec![punct(',')]), InnerErrorKind::ExtraComma));
    assert!(matches!(kind(vec![punct('*'), punct(',')]), InnerErrorKind::ExpectedAfterStar));
    assert!(matches!(kind(vec![ident("A"), ident("B")]), InnerErrorKind::ExpectedComma));
    assert!(matches!(kind(vec![TokenTree::Literal("1".to_string())]), InnerErrorKind::ExpectedErrorType));
    assert_eq!(InnerErrorKind::ExpectedComma.message(), "Expected ',' between error types");
}

#[test]
fn error_list_needs_the_e_macro() {
    let found = extract_errors_from_tokens(&e_call(vec![ident("AuthErr")])).ok().unwrap().unwrap();
    assert_eq!(names(&found.0), vec!["AuthErr"]);
    assert!(extract_errors_from_tokens(&vec![ident("ToJsonError")]).ok().unwrap().is_none());
    let eof = extract_errors_from_tokens(&vec![]).err().unwrap();
    assert!(matches!(eof.kind, InnerErrorKind::UnexpectedEof));
    assert!(matches!(eof.span, SpanRef::CallSite));
    let parens = vec![ident("e"), punct('!'), group(Delimiter::Parenthesis, vec![ident("A")])];
    let err = extract_errors_from_tokens(&parens).err().unwrap();
    assert!(matches!(err.kind, InnerErrorKind::OnlyBrackets));
    assert_eq!(err.kind.message(), "e! only accepts brackets [].");
}

#[test]
fn generator_error_list() {
    let toks = vec![ident("ErrA"), punct(','), punct('*'), ident("Other"), punct(',')];
    let (simple, composite) = parse_skerry_error_list(&toks).ok().unwrap();
    assert_eq!(names(&simple), vec!["ErrA"]);
    assert_eq!(names(&composite), vec!["Other"]);
    assert!(parse_skerry_error_list(&vec![]).is_err());
}

#[test]
fn impl_attribute_reads_a_prefix() {
    let toks = vec![ident("prefix"), group(Delimiter::Parenthesis, vec![ident("Database")])];
    assert_eq!(ImplAttribute::parse(&toks).ok().unwrap().prefix.as_deref(), Some("Database"));
    assert!(ImplAttribute::parse(&vec![]).ok().unwrap().prefix.is_none());
    let bad = vec![ident("name"), group(Delimiter::Parenthesis, vec![ident("X")])];
    assert!(ImplAttribute::parse(&bad).is_err());
    assert_eq!(
        skerry::tokens::unknown_attribute(&"name".to_string()),
        "\"name\" is not an attribute, valid attributes are \"prefix\"."
    );
    let t = ImplTraitAttribute::parse(&toks).ok().unwrap();
    assert_eq!(t.prefix.as_deref(), Some("Database"));
}

// ---------------------------------------------------------------------------
// Paths and the helper macros
// ---------------------------------------------------------------------------

#[test]
fn paths_are_read_like_syn() {
    let toks = path_tokens("crate::errors::ErrA");
    let (p, next) = parse_path(&toks, 0).ok().unwrap();
    assert_eq!(path_text(&p), "crate::errors::ErrA");
    assert_eq!(next, toks.len());
    let mut lead = vec![joint(':'), punct(':')];
    lead.extend(path_tokens("a::b"));
    assert_eq!(path_text(&parse_path(&lead, 0).ok().unwrap().0), "::a::b");
    let generic = vec![ident("Vec"), punct('<'), ident("u8"), punct('>')];
    let (p, next) = parse_path(&generic, 0).ok().unwrap();
    assert_eq!(path_text(&p), "Vec<u8>");
    assert_eq!(p.segments, vec!["Vec"]);
    assert_eq!(next, 4);
    let unclosed = vec![ident("Vec"), punct('<'), ident("u8")];
    let e = parse_path(&unclosed, 0).err().unwrap();
    assert!(matches!(e.kind, SyntaxKind::ExpectedCloseAngle));
    assert_eq!(e.at, 3);
    assert_eq!(e.message(), "expected `>`");
    assert!(matches!(parse_path(&vec![keyword("fn")], 0).err().unwrap().kind, SyntaxKind::ExpectedIdent));
}

#[test]
fn dedup_keeps_first_occurrences() {
    let toks = vec![ident("a"), punct(','), ident("b"), punct(','), ident("a"), punct(',')];
    assert_eq!(names(&macros::dedup(toks).ok().unwrap()), vec!["a", "b"]);
    let missing_comma = vec![ident("a"), ident("b")];
    let e = macros::dedup(missing_comma).err().unwrap();
    assert!(matches!(e.kind, SyntaxKind::ExpectedComma));
    assert_eq!(e.at, 1);
    assert_eq!(e.message(), "expected `,`");
    assert!(berrors::dedup(vec![]).ok().unwrap().is_empty());
}

fn invisible(p: &str) -> TokenTree {
    group(Delimiter::Invisible, path_tokens(p))
}

#[test]
fn create_fn_error_step_removes_repeated_errors() {
    let toks = vec![
        ident("RunError"), punct(','), ident("run"), punct(','),
        invisible("ErrA"), punct(','), invisible("crate::x::ErrB"), punct(','), invisible("ErrA"),
    ];
    let step = macros::create_fn_error_step(toks).ok().unwrap();
    assert_eq!(step.ty, "RunError");
    assert_eq!(step.fn_name, "run");
    assert_eq!(step.macro_name, "run_error_list");
    let errors: Vec<String> = step.errors.iter().map(path_text).collect();
    assert_eq!(errors, vec!["ErrA", "crate::x::ErrB"]);
    assert_eq!(names(&step.variants), vec!["ErrA", "ErrB"]);
    assert!(step.base_path.is_none());
}

#[test]
fn create_fn_error_step_refuses_a_trailing_comma() {
    let toks = vec![ident("T"), punct(','), ident("f"), punct(','), ident("A"), punct(',')];
    let e = macros::create_fn_error_step(toks).err().unwrap();
    assert!(matches!(e.kind, SyntaxKind::ExpectedIdent));
    assert_eq!(e.at, 6);
}

#[test]
fn create_fn_error_step_with_a_base_path() {
    let mut toks = path_tokens("crate::errors");
    toks.extend(vec![punct(','), ident("T"), punct(','), ident("f"), punct(','), ident("A"), ident("A")]);
    let step = berrors::create_fn_error_step(toks).ok().unwrap();
    assert_eq!(path_text(step.base_path.as_ref().unwrap()), "crate::errors");
    assert_eq!(names(&step.variants), vec!["A"]);
}

fn bracket(paths: &[&str]) -> TokenTree {
    let mut inner = Vec::new();
    for (i, p) in paths.iter().enumerate() {
        if i > 0 {
            inner.push(punct(','));
        }
        inner.extend(path_tokens(p));
    }
    group(Delimiter::Bracket, inner)
}

#[test]
fn missing_converts_keep_the_errors_not_held() {
    let toks = vec![
        ident("Ty"), punct(','), bracket(&["A", "B", "C"]), punct(','), bracket(&["B"]), punct(','),
        ident("no_expand"),
    ];
    let m = macros::impl_missing_converts(toks).ok().unwrap();
    assert_eq!(m.ty, "Ty");
    assert_eq!(m.filtered.iter().map(path_text).collect::<Vec<_>>(), vec!["A", "C"]);
    assert_eq!(m.to_remove.iter().map(path_text).collect::<Vec<_>>(), vec!["B"]);
    assert!(!m.expand);

    let plain = vec![ident("Ty"), punct(','), bracket(&["A"]), punct(','), bracket(&[])];
    assert!(macros::impl_missing_converts(plain).ok().unwrap().expand);

    let other = vec![
        ident("Ty"), punct(','), bracket(&["A"]), punct(','), bracket(&[]), punct(','), ident("expand"),
    ];
    let e = macros::impl_missing_converts(other).err().unwrap();
    assert!(matches!(e.kind, SyntaxKind::UnexpectedToken));
    assert_eq!(e.at, 6);

    let no_brackets = vec![ident("Ty"), punct(','), ident("A")];
    assert!(matches!(macros::impl_missing_converts(no_brackets).err().unwrap().kind, SyntaxKind::ExpectedBrackets));
}

#[test]
fn generic_paths_keep_their_arguments() {
    // [Box<dyn Fn() -> u8>, Vec::<u8>, a::B<T>::C, Vec<u8>]
    let boxed = vec![
        ident("Box"), punct('<'), ident("dyn"), ident("Fn"), group(Delimiter::Parenthesis, vec![]),
        joint('-'), punct('>'), ident("u8"), punct('>'),
    ];
    let turbofish = vec![ident("Vec"), joint(':'), punct(':'), punct('<'), ident("u8"), punct('>')];
    let nested = vec![
        ident("a"), joint(':'), punct(':'), ident("B"), punct('<'), ident("T"), punct('>'),
        joint(':'), punct(':'), ident("C"),
    ];
    let vec_u8 = || vec![ident("Vec"), punct('<'), ident("u8"), punct('>')];
    let mut source = Vec::new();
    for (i, p) in [boxed, turbofish, nested, vec_u8()].into_iter().enumerate() {
        if i > 0 {
            source.push(punct(','));
        }
        source.extend(p);
    }
    let mut toks = vec![ident("Ty"), punct(','), group(Delimiter::Bracket, source), punct(',')];
    toks.push(group(Delimiter::Bracket, vec_u8()));
    let m = macros::impl_missing_converts(toks).ok().unwrap();
    assert_eq!(
        m.filtered.iter().map(path_text).collect::<Vec<_>>(),
        vec!["Box<dyn Fn()->u8>", "Vec::<u8>", "a::B<T>::C"]
    );
    assert_eq!(m.to_remove.iter().map(path_text).collect::<Vec<_>>(), vec!["Vec<u8>"]);
    assert_eq!(m.filtered[2].segments, vec!["a", "B", "C"]);
    assert_eq!(m.filtered[2].arguments, vec!["", "<T>", ""]);
}

#[test]
fn missing_converts_in_the_tuple_form() {
    let toks = vec![ident("Ty"), punct(','), bracket(&["A", "B"]), bracket(&["A"])];
    let m = berrors::impl_missing_converts(toks).ok().unwrap();
    assert_eq!(m.filtered.iter().map(path_text).collect::<Vec<_>>(), vec!["B"]);
    assert!(m.expand);
}

#[test]
fn converts_read_the_held_errors() {
    let toks = vec![ident("Ty"), punct(','), bracket(&["A", "crate::B"]), punct(',')];
    let c = macros::impl_converts(toks).ok().unwrap();
    assert_eq!(c.ty, "Ty");
    assert_eq!(c.source.iter().map(path_text).collect::<Vec<_>>(), vec!["A", "crate::B"]);
    let missing = vec![ident("Ty"), punct(','), bracket(&["A"])];
    assert!(matches!(macros::impl_converts(missing).err().unwrap().kind, SyntaxKind::ExpectedComma));
}

// ---------------------------------------------------------------------------
// `#[fn_error]` and `#[error_module]`
// ---------------------------------------------------------------------------

fn token_text(v: &[TokenTree]) -> String {
    v.iter()
        .map(|t| match t {
            TokenTree::Ident { name, .. } => name.clone(),
            TokenTree::Punct { ch, .. } => ch.to_string(),
            TokenTree::Literal(l) => l.clone(),
            TokenTree::Group { .. } => "(..)".to_string(),
        })
        .collect::<Vec<_>>()
        .join("")
}

#[test]
fn fn_error_splits_the_tuple() {
    let mut tuple = vec![ident("LocalError"), punct(','), punct('&'), ident("PassthroughErr"), punct(',')];
    tuple.extend(path_tokens("crate::x::ErrB"));
    let output = generic_type("Result", vec![group(Delimiter::Parenthesis, tuple)]);
    let plan = berrors::fn_error(vec![], &"perform_task".to_string(), Some(output)).ok().unwrap();
    assert_eq!(path_text(&plan.base_path), "crate::errors");
    assert_eq!(plan.struct_name, "PerformTaskError");
    let normal: Vec<String> = plan.normal.iter().map(|v| token_text(v)).collect();
    let pass: Vec<String> = plan.passthrough.iter().map(|v| token_text(v)).collect();
    assert_eq!(normal, vec!["LocalError", "crate::x::ErrB"]);
    assert_eq!(pass, vec!["PassthroughErr"]);
    assert!(plan.replace_error_type);
}

#[test]
fn fn_error_single_and_missing_errors() {
    let single = generic_type("Result", vec![punct('&'), ident("Other")]);
    let plan = berrors::fn_error(path_tokens("my::errs"), &"go".to_string(), Some(single)).ok().unwrap();
    assert_eq!(path_text(&plan.base_path), "my::errs");
    assert!(plan.normal.is_empty());
    assert_eq!(plan.passthrough.iter().map(|v| token_text(v)).collect::<Vec<_>>(), vec!["Other"]);

    let none = berrors::fn_error(vec![], &"go".to_string(), Some(plain_type("Result"))).ok().unwrap();
    assert!(none.normal.is_empty() && none.passthrough.is_empty() && !none.replace_error_type);

    let bad_attr = vec![ident("a"), ident("b")];
    let e = berrors::fn_error(bad_attr, &"go".to_string(), None).err().unwrap();
    assert!(matches!(e.kind, SyntaxKind::UnexpectedToken));
}

fn strukt(name: &str, attrs: Vec<Option<String>>, fields: FieldsModel) -> ItemModel {
    ItemModel::Struct { ident: name.to_string(), attrs, fields }
}

#[test]
fn error_modules_list_their_structs() {
    let items = vec![
        strukt("ErrorA", vec![], FieldsModel::Unit),
        ItemModel::Other,
        strukt("ErrorB", vec![], FieldsModel::Unit),
    ];
    assert_eq!(names(&berrors::error_module(&items)), vec!["ErrorA", "ErrorB"]);
    assert_eq!(names(&fn_attrs::skerry_mod(&items)), vec!["ErrorA", "ErrorB"]);
}

#[test]
fn from_structs_must_be_single_field_tuples() {
    let from = || vec![None, Some("from".to_string())];
    let one = FieldsModel::Unnamed(vec![UnnamedField { ty: "LibError".to_string() }]);
    let items = vec![strukt("DatabaseErr", vec![], FieldsModel::Unit), strukt("LibErr", from(), one)];
    let plan = marking::skerry_mod(&items).ok().unwrap();
    assert_eq!(names(&plan.struct_names), vec!["DatabaseErr", "LibErr"]);
    assert_eq!(plan.from_structs, vec![(1, 1)]);

    let two = FieldsModel::Unnamed(vec![UnnamedField { ty: "A".to_string() }, UnnamedField { ty: "B".to_string() }]);
    let e = marking::skerry_mod(&vec![strukt("Two", from(), two)]).err().unwrap();
    assert!(matches!(e, ModError::NotOneField(0)));
    assert_eq!(e.message(), "#[from] structs must have exactly one field");
    let e = marking::skerry_mod(&vec![ItemModel::Other, strukt("U", from(), FieldsModel::Unit)]).err().unwrap();
    assert!(matches!(e, ModError::NotTuple(1)));
}

// ---------------------------------------------------------------------------
// Signatures
// ---------------------------------------------------------------------------

#[test]
fn types_are_named_by_their_last_segment() {
    let array = TypeModel::Array(Box::new(plain_type("u8")), Some("3".to_string()));
    assert_eq!(type_to_ident(&TypeModel::Reference(Box::new(array))), "u8Array3Ref");
    assert_eq!(type_to_ident(&TypeModel::Slice(Box::new(plain_type("Db")))), "DbSlice");
    let long = TypeModel::Path {
        leading_colon: true,
        segments: vec![
            PathSegmentModel { ident: "db".to_string(), arguments: PathArgumentsModel::NoArguments },
            PathSegmentModel { ident: "Pool".to_string(), arguments: PathArgumentsModel::Parenthesized },
        ],
    };
    assert_eq!(type_to_ident(&long), "Pool");
    assert_eq!(type_to_ident(&TypeModel::Path { leading_colon: false, segments: vec![] }), "UnknownType");
    assert_eq!(type_to_ident(&TypeModel::Other), "GenericType");
    assert_eq!(type_to_ident(&TypeModel::Array(Box::new(plain_type("T")), None)), "TArray");
}

#[test]
fn skerry_fn_names_the_enum_after_the_function() {
    let out = Some(generic_type("Result", e_call(vec![ident("AuthErr")])));
    let plan = process_skerry_logic(&sig("check_auth", out), None).ok().unwrap().unwrap();
    assert_eq!(plan.struct_name, "CheckAuthError");
    assert_eq!(names(&plan.normal), vec!["AuthErr"]);

    let list = vec![ident("ValidationErr"), punct(','), ident("LibErr"), punct(','), punct('*'), ident("CheckAuthError")];
    let out = Some(generic_type("Result", e_call(list)));
    let prefix = "Controller".to_string();
    let plan = fn_attrs::skerry_fn_standard(&sig("run", out), Some(&prefix)).ok().unwrap().unwrap();
    assert_eq!(plan.struct_name, "ControllerRunError");
    assert_eq!(names(&plan.normal), vec!["ValidationErr", "LibErr"]);
    assert_eq!(names(&plan.passthrough), vec!["CheckAuthError"]);

    let existing = Some(generic_type("Result", vec![ident("ToJsonError")]));
    assert!(fn_attrs::skerry_fn(&sig("to_json", existing)).ok().unwrap().is_none());
}

#[test]
fn skerry_fn_refuses_other_return_types() {
    let err = |out: Option<TypeModel>| process_skerry_logic(&sig("f", out), None).err().unwrap();
    let e = err(None);
    assert!(matches!(e, SkerryFnError::NoReturnType));
    assert_eq!(e.message(), "Functions must return Result to use Skerry.");
    assert!(matches!(err(Some(TypeModel::Other)), SkerryFnError::UnsupportedReturnType));
    assert!(matches!(err(Some(TypeModel::Path { leading_colon: false, segments: vec![] })), SkerryFnError::EmptyPath));
    assert!(matches!(err(Some(generic_type("Option", vec![]))), SkerryFnError::NotResult));
    assert!(matches!(err(Some(plain_type("Result"))), SkerryFnError::NoAngleBrackets));
    let one_arg = TypeModel::Path {
        leading_colon: false,
        segments: vec![PathSegmentModel {
            ident: "Result".to_string(),
            arguments: PathArgumentsModel::AngleBracketed(vec![GenericArgumentModel::Other]),
        }],
    };
    assert!(matches!(err(Some(one_arg)), SkerryFnError::NoErrorType));
    let bad_list = Some(generic_type("Result", e_call(vec![])));
    assert_eq!(err(bad_list).message(), "Cannot be empty; expected at least one error type");
}

#[test]
fn trait_methods_use_the_trait_prefix() {
    let out = Some(generic_type("Result", e_call(vec![ident("ParseFailed")])));
    let prefix = "ToJson".to_string();
    let plan = fn_attrs::skerry_fn_trait(&sig("parse", out), Some(&prefix)).ok().unwrap().unwrap();
    assert_eq!(plan.struct_name, "ToJsonParseError");
}

fn method(marked: bool, name: &str, out: Option<TypeModel>) -> MethodModel {
    let attrs = if marked { vec![Some("doc".to_string()), Some("skerry_fn".to_string())] } else { vec![] };
    MethodModel { attrs, sig: sig(name, out) }
}

#[test]
fn blocks_expand_their_marked_methods() {
    let ok = || Some(generic_type("Result", e_call(vec![ident("ConnectionFailed")])));
    let methods = vec![method(false, "helper", None), method(true, "connect", ok())];
    let attr = ImplAttribute { prefix: Some("Database".to_string()) };
    let v = fn_attrs::skerry_impl(&attr, &methods).ok().unwrap();
    assert_eq!(v.len(), 1);
    assert_eq!(v[0].index, 1);
    assert_eq!(v[0].marker, 1);
    assert_eq!(v[0].plan.as_ref().unwrap().struct_name, "DatabaseConnectError");

    let v = fn_attrs::skerry_trait(&ImplAttribute { prefix: None }, &methods).ok().unwrap();
    assert_eq!(v[0].plan.as_ref().unwrap().struct_name, "ConnectError");

    let failing = vec![method(true, "a", ok()), method(true, "b", None), method(true, "c", Some(TypeModel::Other))];
    assert!(matches!(fn_attrs::skerry_impl(&attr, &failing).err().unwrap(), (1, SkerryFnError::NoReturnType)));

    let by_type = ImplTraitAttribute { prefix: None };
    let v = marking::skerry_impl(&by_type, &plain_type("Controller"), &methods).ok().unwrap();
    assert_eq!(v[0].plan.as_ref().unwrap().struct_name, "ControllerConnectError");
}

// ---------------------------------------------------------------------------
// The generator's attributes
// ---------------------------------------------------------------------------

#[test]
fn skerry_marks_every_signature() {
    let ok = |name: &str| sig(name, Some(generic_type("Result", e_call(vec![ident("A")]))));
    let marks = match marking::skerry(&SkerryItem::Fn(ok("run"))) {
        Ok(v) => v,
        Err(_) => panic!("marked"),
    };
    assert_eq!(marks.len(), 1);
    assert_eq!(marks[0].1, "fnrun()");

    let item = SkerryItem::Impl { trait_impl: false, self_ty: plain_type("Store"), fns: vec![ok("get"), ok("put")] };
    let marks = match marking::skerry(&item) {
        Ok(v) => v,
        Err(_) => panic!("marked"),
    };
    assert_eq!(marks.iter().map(|(_, k)| k.as_str()).collect::<Vec<_>>(), vec!["Storefnget()", "Storefnput()"]);
    assert_ne!(marks[0].0, marks[1].0);

    let item = SkerryItem::Trait { ident: "Api".to_string(), fns: vec![ok("call")] };
    assert_eq!(marking::skerry(&item).ok().unwrap()[0].1, "Apifncall()");
}

#[test]
fn skerry_refuses_what_it_cannot_mark() {
    let item = SkerryItem::Impl { trait_impl: true, self_ty: plain_type("S"), fns: vec![] };
    let e = marking::skerry(&item).err().unwrap();
    assert!(matches!(e, SkerryAttrError::TraitImpl));
    assert_eq!(
        e.message(),
        "#[skerry] does not support trait implementation blocks. Instead call #[skerry] in your trait definition."
    );
    assert_eq!(
        marking::skerry(&SkerryItem::Other).err().unwrap().message(),
        "#[skerry] only supports functions and impl/trait blocks"
    );
    let fns = vec![sig("a", Some(generic_type("Result", vec![]))), sig("b", None), sig("c", Some(TypeModel::Other))];
    let e = marking::skerry(&SkerryItem::Trait { ident: "T".to_string(), fns }).err().unwrap();
    assert!(matches!(e, SkerryAttrError::NoErrorType { index: 1, at: ReplaceError::AtFnToken }));
    assert_eq!(e.message(), "Function must return Result<T, e![...]>");
    assert!(matches!(replace_fn_error("", &sig("x", Some(plain_type("Result")))), Err(ReplaceError::AtReturnType)));
}

#[test]
fn global_enums_must_be_public_with_valid_from() {
    let from = || vec![Some("from".to_string())];
    let one = || VariantModel {
        name: "Io".to_string(),
        attrs: from(),
        fields: FieldsModel::Unnamed(vec![UnnamedField { ty: "E".to_string() }]),
    };
    let empty_tuple = VariantModel { name: "Z".to_string(), attrs: from(), fields: FieldsModel::Unnamed(vec![]) };
    assert!(skerry_global(true, &vec![one(), empty_tuple]).is_ok());
    let two = VariantModel {
        name: "Two".to_string(),
        attrs: from(),
        fields: FieldsModel::Unnamed(vec![UnnamedField { ty: "A".to_string() }, UnnamedField { ty: "B".to_string() }]),
    };
    let e = skerry_global(true, &vec![one(), two]).err().unwrap();
    assert!(matches!(e, GlobalAttrError::BadFrom(1)));
    let e = skerry_global(false, &vec![]).err().unwrap();
    assert_eq!(e.message(), "skerry_global enums must be 'pub'");
    let unit = VariantModel { name: "U".to_string(), attrs: from(), fields: FieldsModel::Unit };
    let plain = VariantModel { name: "P".to_string(), attrs: vec![], fields: FieldsModel::Unit };
    let e = skerry_global(true, &vec![plain, unit]).err().unwrap();
    assert!(matches!(e, GlobalAttrError::BadFrom(1)));
    assert_eq!(e.message(), "#[from] can only be applied to tuples with one element");
}

#[test]
fn invoke_expands_stored_results() {
    assert!(matches!(skerry_invoke(Ok(WrittenResult::Success("crate::E".to_string()))), InvokeOutcome::Expand(s) if s == "crate::E"));
    assert!(matches!(skerry_invoke(Ok(WrittenResult::RawError { msg: "bad".to_string() })), InvokeOutcome::CompileError(s) if s == "bad"));
    let located = WrittenResult::EnumError { location: EnumErrorLocation::Variant("V".to_string()), msg: "m".to_string() };
    assert!(matches!(skerry_invoke(Ok(located)), InvokeOutcome::CompileError(s) if s == "m"));
    assert!(matches!(skerry_invoke(Err(InvokeFailure::Unreadable)), InvokeOutcome::CompileError(s) if s == "Couldn't read expansion result"));
    assert!(matches!(skerry_invoke(Err(InvokeFailure::Invalid)), InvokeOutcome::CompileError(s) if s == "Expansion result invalid"));
    assert_eq!(expansion_file("/out", "123"), "/out/skerry/expansions/123");
}

#[test]
fn generator_list_errors() {
    let ident_missing = vec![punct(',')];
    let e = parse_skerry_error_list(&ident_missing).err().unwrap();
    assert!(matches!(e.kind, skerry::tokens::TerminatedErrorKind::ExpectedIdent));
    assert_eq!(e.kind.message(), "expected identifier");
    let comma_missing = vec![ident("A"), ident("B")];
    let e = parse_skerry_error_list(&comma_missing).err().unwrap();
    assert!(matches!(e.kind, skerry::tokens::TerminatedErrorKind::ExpectedComma));
    let empty = parse_skerry_error_list(&vec![]).err().unwrap();
    assert_eq!(empty.kind.message(), "Should contain at least one element");
}

#[test]
fn attribute_arguments_errors() {
    let no_parens = vec![ident("prefix"), ident("X")];
    let e = ImplAttribute::parse(&no_parens).err().unwrap();
    assert!(matches!(e, AttributeError::ExpectedParens(SpanRef::Outer(1))));
    assert_eq!(e.message(), "expected parentheses");
    let not_ident = vec![punct(',')];
    let e = ImplAttribute::parse(&not_ident).err().unwrap();
    assert!(matches!(e, AttributeError::ExpectedIdent(SpanRef::Outer(0))));
    assert_eq!(e.message(), "expected identifier");
    let two = vec![ident("prefix"), group(Delimiter::Parenthesis, vec![ident("A"), ident("B")])];
    let e = ImplAttribute::parse(&two).err().unwrap();
    assert!(matches!(e, AttributeError::UnexpectedToken(SpanRef::Outer(1))));
    assert_eq!(e.message(), "unexpected token");
}

#[test]
fn attribute_error_lists() {
    assert!(matches!(EInput::parse(&vec![]).err().unwrap(), EInputError::Empty));
    let items = EInput::parse(&vec![punct('*'), ident("A"), punct(','), ident("B")]).ok().unwrap();
    assert!(matches!(&items.errors[0], ErrorInput::Spread(n) if n == "A"));
    assert!(matches!(&items.errors[1], ErrorInput::Standard(n) if n == "B"));
    assert!(matches!(EInput::parse(&vec![punct('*')]).err().unwrap(), EInputError::ExpectedIdent(SpanRef::CallSite)));
}

#[test]
fn question_marks_convert_into_the_global_enum() {
    let suffix = fn_attrs::QuestionMarkTransformer.conversion();
    let text = |v: &[TokenTree]| -> String {
        v.iter()
            .map(|t| match t {
                TokenTree::Ident { name, .. } => name.clone(),
                TokenTree::Punct { ch, .. } => ch.to_string(),
                TokenTree::Literal(l) => l.clone(),
                TokenTree::Group { stream, .. } => format!("({})", stream.iter().map(|t| match t {
                    TokenTree::Ident { name, .. } => name.clone(),
                    TokenTree::Punct { ch, .. } => ch.to_string(),
                    TokenTree::Group { .. } => "(e)".to_string(),
                    TokenTree::Literal(l) => l.clone(),
                }).collect::<String>()),
            })
            .collect()
    };
    assert_eq!(text(&suffix), ".map_err(|e|Into::<GlobalErrors<_>>::into(e))?");
}
