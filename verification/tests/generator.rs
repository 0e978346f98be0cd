use skerry::definitions::{
    CompositeType, NamedField, SimpleFields, SimpleType, TypeDefinition, TypeDefinitionType, UnnamedField,
};
use skerry::items::{FieldsModel, VariantModel};
use skerry::marking::{skerry, SkerryItem};
use skerry::resolve::ResolveError;
use skerry::scanner::{
    file_module_stack, needs_processing, scannable, SkerryCodeGenError, SkerryScanner,
};
use skerry::signature::{
    GenericArgumentModel, PathArgumentsModel, PathSegmentModel, SignatureModel, TypeModel,
};
use skerry::tokens::{Delimiter, TokenTree};
use skerry::writer::{SkerryWriter, WrittenResult};

fn ident(s: &str) -> TokenTree {
    TokenTree::Ident { name: s.to_string(), keyword: false }
}

fn punct(c: char) -> TokenTree {
    TokenTree::Punct { ch: c, joint: false }
}

/// The tokens inside `e![...]` for a list such as `ErrA, *OtherError`.
fn list_tokens(list: &str) -> Vec<TokenTree> {
    let mut out = Vec::new();
    for (i, item) in list.split(',').map(|s| s.trim()).enumerate() {
        if i > 0 {
            out.push(punct(','));
        }
        if let Some(rest) = item.strip_prefix('*') {
            out.push(punct('*'));
            out.push(ident(rest));
        } else {
            out.push(ident(item));
        }
    }
    out
}

/// The signature `fn name() -> Result<(), e![list]>`.
fn e_sig(name: &str, list: &str) -> SignatureModel {
    let mut macro_call = vec![ident("e"), punct('!')];
    macro_call.push(TokenTree::Group { delimiter: Delimiter::Bracket, stream: list_tokens(list) });
    SignatureModel {
        ident: name.to_string(),
        output: Some(TypeModel::Path {
            leading_colon: false,
            segments: vec![PathSegmentModel {
                ident: "Result".to_string(),
                arguments: PathArgumentsModel::AngleBracketed(vec![
                    GenericArgumentModel::Type {
                        ty: TypeModel::Other,
                        tokens: vec![TokenTree::Group { delimiter: Delimiter::Parenthesis, stream: vec![] }],
                    },
                    GenericArgumentModel::Type { ty: TypeModel::Macro(list_tokens(list)), tokens: macro_call },
                ]),
            }],
        }),
        text: format!("fn {name} () -> Result < () , e ! [{list}] >"),
    }
}

fn unit_variant(name: &str) -> VariantModel {
    VariantModel { name: name.to_string(), attrs: vec![], fields: FieldsModel::Unit }
}

fn skerry_attr() -> Vec<Option<String>> {
    vec![Some("skerry".to_string())]
}

fn path_type(name: &str) -> TypeModel {
    TypeModel::Path {
        leading_colon: false,
        segments: vec![PathSegmentModel { ident: name.to_string(), arguments: PathArgumentsModel::NoArguments }],
    }
}

fn expansion_of(out: &skerry::generate::GeneratedOutput, name: &str) -> Option<Vec<String>> {
    out.resolution.defines.iter().find(|(n, _)| n == name).map(|(_, v)| v.clone())
}

/// The declarations of the crate's own test module, read by the generator:
/// the global errors, the marked functions, an impl block and a trait.
#[test]
fn test() {
    let mut sc = SkerryScanner::new();
    sc.start_file("src/test.rs".to_string(), file_module_stack(&vec![], &"test".to_string()));

    let mut variants: Vec<VariantModel> =
        ["ErrA", "ErrB", "ErrC", "ErrD", "ErrE", "ErrF"].iter().map(|n| unit_variant(n)).collect();
    variants.push(VariantModel {
        name: "Outer".to_string(),
        attrs: vec![Some("from".to_string())],
        fields: FieldsModel::Unnamed(vec![UnnamedField { ty: "OuterErrorFromLib".to_string() }]),
    });
    let defined = sc.register_global_enum(&"GlobalErrors".to_string(), &variants);
    assert_eq!(defined.len(), 7);

    // define_error!(DefineTest, [ErrA])
    sc.restore_definition(
        "DefineTest".to_string(),
        TypeDefinition::composite(CompositeType {
            types: vec!["ErrA".to_string()],
            composites: vec![],
            file: "src/test.rs".to_string(),
            hash: 1,
        }),
    );

    let h1 = sc.visit_item_fn(&skerry_attr(), &e_sig("my_fn1", "ErrA, ErrB, ErrC")).unwrap();
    let _h2 = sc.visit_item_fn(&skerry_attr(), &e_sig("my_fn2", "ErrE, ErrF, Outer")).unwrap();
    let h3 = sc.visit_item_fn(&skerry_attr(), &e_sig("my_fn3", "ErrA, ErrB, ErrC, *MyFn2Error")).unwrap();

    assert!(sc.visit_item_impl(&skerry_attr(), &path_type("MyStruct")));
    sc.process_function_error(&e_sig("struct_fn", "*DefineTest, *MyFn3Error"));
    sc.process_function_error(&e_sig("struct_fn_2", "*MyStructStructFnError"));
    sc.leave_block();

    assert!(sc.visit_item_trait(&skerry_attr(), &"TestTrait".to_string()));
    sc.process_function_error(&e_sig("test", "ErrA, ErrB, *MyFn3Error"));
    sc.process_function_error(&e_sig("test_2", "ErrA, ErrB, *MyFn3Error"));
    sc.leave_block();

    let out = match sc.finish(None) {
        Ok(out) => out,
        Err(_) => panic!("the test declarations resolve"),
    };
    assert!(out.failures.is_empty());
    let all = vec!["ErrA", "ErrB", "ErrC", "ErrE", "ErrF", "Outer"];
    assert_eq!(expansion_of(&out, "MyFn1Error").unwrap(), vec!["ErrA", "ErrB", "ErrC"]);
    assert_eq!(expansion_of(&out, "MyFn2Error").unwrap(), vec!["ErrE", "ErrF", "Outer"]);
    assert_eq!(expansion_of(&out, "MyFn3Error").unwrap(), all);
    assert_eq!(expansion_of(&out, "MyStructStructFnError").unwrap(), all);
    assert_eq!(expansion_of(&out, "MyStructStructFn2Error").unwrap(), all);
    assert_eq!(expansion_of(&out, "TestTraitTestError").unwrap(), all);
    assert_eq!(expansion_of(&out, "TestTraitTest2Error").unwrap(), all);
    assert!(out.text.contains("pub enum MyFn3Error{ErrA,ErrB,ErrC,ErrE,ErrF,Outer(OuterErrorFromLib,),}"));
    assert!(out.text.contains("pub struct OuterMarker{}"));

    let stored: Vec<(String, String)> = out
        .results
        .iter()
        .filter_map(|(k, r)| match r {
            WrittenResult::Success(s) => Some((k.clone(), s.clone())),
            _ => None,
        })
        .collect();
    assert!(stored.contains(&(h1.to_string(), "crate::test::MyFn1Error".to_string())));
    assert!(stored.contains(&(h3.to_string(), "crate::test::MyFn3Error".to_string())));
    assert_eq!(out.results.last().unwrap().0, "global");
}

#[test]
fn star_is_shorthand_for_the_listed_errors() {
    let mut sc = SkerryScanner::new();
    sc.start_file("src/lib.rs".to_string(), file_module_stack(&vec![], &"lib".to_string()));
    let variants: Vec<VariantModel> = ["ErrA", "ErrB", "ErrC"].iter().map(|n| unit_variant(n)).collect();
    sc.register_global_enum(&"Errors".to_string(), &variants);
    sc.visit_item_fn(&skerry_attr(), &e_sig("low_level", "ErrA, ErrB")).unwrap();
    sc.visit_item_fn(&skerry_attr(), &e_sig("high_level", "ErrC, *LowLevelError")).unwrap();
    sc.visit_item_fn(&skerry_attr(), &e_sig("written_out", "ErrB, ErrA, ErrC, ErrA")).unwrap();
    let out = match sc.finish(None) {
        Ok(out) => out,
        Err(_) => panic!("resolves"),
    };
    let high = expansion_of(&out, "HighLevelError").unwrap();
    assert_eq!(high, vec!["ErrA", "ErrB", "ErrC"]);
    assert_eq!(expansion_of(&out, "WrittenOutError").unwrap(), high);
    assert!(out.text.contains("pub enum HighLevelError{ErrA,ErrB,ErrC,}"));
}

#[test]
fn wrong_stars_are_reported() {
    let mut sc = SkerryScanner::new();
    sc.start_file("src/errors.rs".to_string(), file_module_stack(&vec![], &"errors".to_string()));
    let variants: Vec<VariantModel> = ["ErrA", "ErrB"].iter().map(|n| unit_variant(n)).collect();
    sc.register_global_enum(&"Errors".to_string(), &variants);
    sc.visit_item_fn(&skerry_attr(), &e_sig("base", "ErrA")).unwrap();
    let bad = sc.visit_item_fn(&skerry_attr(), &e_sig("bad", "BaseError, *ErrB, Missing")).unwrap();
    let out = match sc.finish(None) {
        Ok(out) => out,
        Err(_) => panic!("resolves"),
    };
    assert_eq!(out.failures.len(), 1);
    assert_eq!(out.failures[0].hash, bad);
    assert_eq!(out.failures[0].file, "src/errors.rs");
    assert_eq!(
        out.failures[0].msg,
        "The following types were not found: [Missing]\nAdd '*' prefix to composite errors: [BaseError]\nRemove the '*' on plain errors: [ErrB]"
    );
    assert!(out.results.iter().any(|(k, r)| k == &bad.to_string()
        && matches!(r, WrittenResult::RawError { msg } if msg.starts_with("The following types"))));
}

#[test]
fn conflicting_names_are_reported() {
    let mut sc = SkerryScanner::new();
    sc.start_file("src/a.rs".to_string(), file_module_stack(&vec!["sub".to_string()], &"a".to_string()));
    assert_eq!(sc.module_stack, vec!["crate", "sub", "a"]);
    sc.register_global_enum(&"Errors".to_string(), &vec![unit_variant("ErrA")]);
    let first = sc.visit_item_fn(&skerry_attr(), &e_sig("run", "ErrA")).unwrap();
    let second = sc.visit_item_fn(&skerry_attr(), &e_sig("run", "ErrA")).unwrap();
    assert_eq!(first, second);
    assert_eq!(sc.errors.len(), 1);
    assert_eq!(sc.errors[0].msg, "Conflicting name definition: RunError");
    assert_eq!(sc.errors[0].hash, second);
    assert_eq!(sc.global_error_path, Some(("crate::sub::a".to_string(), "Errors".to_string())));
}

#[test]
fn unmarked_items_are_skipped() {
    let mut sc = SkerryScanner::new();
    assert_eq!(sc.visit_item_fn(&vec![Some("inline".to_string()), None], &e_sig("f", "ErrA")), None);
    assert!(!sc.visit_item_impl(&vec![], &path_type("S")));
    assert!(!sc.visit_item_trait(&vec![], &"T".to_string()));
    assert!(sc.errors.is_empty());
    assert!(sc.composite_entries().is_empty());
}

#[test]
fn impl_prefix_falls_back_to_unknown() {
    let mut sc = SkerryScanner::new();
    sc.start_file("src/main.rs".to_string(), file_module_stack(&vec![], &"main".to_string()));
    assert_eq!(sc.module_stack, vec!["crate"]);
    sc.register_global_enum(&"Errors".to_string(), &vec![unit_variant("ErrA")]);
    assert!(sc.visit_item_impl(&skerry_attr(), &TypeModel::Slice(Box::new(path_type("u8")))));
    sc.process_function_error(&e_sig("go", "ErrA"));
    sc.leave_block();
    let names: Vec<String> = sc.composite_entries().into_iter().map(|(n, _)| n).collect();
    assert_eq!(names, vec!["UnknownGoError"]);
}

#[test]
fn missing_global_enum_is_an_error() {
    let mut sc = SkerryScanner::new();
    sc.visit_item_fn(&skerry_attr(), &e_sig("f", "ErrA")).unwrap();
    assert!(matches!(sc.finish(None), Err(SkerryCodeGenError::MissingGlobalDefinition)));
}

#[test]
fn circular_expansions_are_refused() {
    let mut sc = SkerryScanner::new();
    sc.register_global_enum(&"Errors".to_string(), &vec![unit_variant("ErrA")]);
    sc.visit_item_fn(&skerry_attr(), &e_sig("a", "ErrA, *BError")).unwrap();
    sc.visit_item_fn(&skerry_attr(), &e_sig("b", "*AError")).unwrap();
    assert!(matches!(
        sc.finish(None),
        Err(SkerryCodeGenError::Unresolvable(ResolveError::CircularDependency))
    ));
}

#[test]
fn module_override_changes_paths() {
    let mut sc = SkerryScanner::new();
    sc.start_file("src/x.rs".to_string(), file_module_stack(&vec![], &"x".to_string()));
    sc.register_global_enum(&"Errors".to_string(), &vec![unit_variant("ErrA")]);
    let h = sc.visit_item_fn(&skerry_attr(), &e_sig("f", "ErrA")).unwrap();
    let out = match sc.finish(Some("crate::elsewhere".to_string())) {
        Ok(out) => out,
        Err(_) => panic!("resolves"),
    };
    assert!(out.results.iter().any(|(k, r)| k == &h.to_string()
        && matches!(r, WrittenResult::Success(s) if s == "crate::elsewhere::FError")));
    assert!(out.text.contains("crate::elsewhere::Errors"));
}

#[test]
fn variants_define_plain_errors() {
    let mut sc = SkerryScanner::new();
    let variants = vec![
        VariantModel {
            name: "Io".to_string(),
            attrs: vec![Some("from".to_string())],
            fields: FieldsModel::Unnamed(vec![UnnamedField { ty: "std::io::Error".to_string() }]),
        },
        VariantModel {
            name: "Pair".to_string(),
            attrs: vec![Some("from".to_string())],
            fields: FieldsModel::Unnamed(vec![
                UnnamedField { ty: "u8".to_string() },
                UnnamedField { ty: "u8".to_string() },
            ]),
        },
        VariantModel {
            name: "Named".to_string(),
            attrs: vec![],
            fields: FieldsModel::Named(vec![NamedField { name: "code".to_string(), ty: "u32".to_string() }]),
        },
    ];
    let defined = sc.register_global_enum(&"Errors".to_string(), &variants);
    match &defined[0].1.ty {
        TypeDefinitionType::Simple(SimpleType { from: Some(f), .. }) => assert_eq!(f, "std::io::Error"),
        _ => panic!("a plain error converting from its field"),
    }
    match &defined[1].1.ty {
        TypeDefinitionType::Simple(SimpleType { from, fields: SimpleFields::Unnamed(fs) }) => {
            assert!(from.is_none());
            assert_eq!(fs.len(), 2);
        },
        _ => panic!("a plain error"),
    }
    match &defined[2].1.ty {
        TypeDefinitionType::Simple(SimpleType { fields, .. }) => assert_eq!(fields.display_def(), "{code:u32,}"),
        _ => panic!("a plain error"),
    }
}

#[test]
fn scannable_signatures() {
    assert!(scannable(&e_sig("f", "ErrA, *G")));
    assert!(!scannable(&SignatureModel { ident: "f".to_string(), output: None, text: String::new() }));
    let mut s = e_sig("f", "ErrA");
    s.output = Some(path_type("Result"));
    assert!(!scannable(&s));
}

#[test]
fn files_are_read_again_when_newer_or_unknown() {
    assert!(needs_processing(Some(10), Some(5)));
    assert!(!needs_processing(Some(5), Some(5)));
    assert!(!needs_processing(Some(4), Some(5)));
    assert!(needs_processing(None, Some(5)));
    assert!(needs_processing(Some(4), None));
}

#[test]
fn writer_records_results_in_order() {
    let mut w = SkerryWriter::new("Global", "crate::errors");
    assert_eq!(w.global_error_path, "crate::errors::Global");
    w.add_marker("ErrA");
    w.add_not("Comp");
    w.add_result(42, WrittenResult::Success("crate::errors::Comp".to_string()));
    let unit = SimpleType { fields: SimpleFields::Unit, from: None };
    w.add_define("Comp", &vec![("ErrA", &unit)]);
    let (text, results) = w.finish();
    assert_eq!(results.len(), 2);
    assert_eq!(results[0].0, "42");
    assert_eq!(results[1].0, "global");
    assert!(text.starts_with("pub enum Comp{ErrA,}"));
    assert!(text.contains("crate::errors::Global::ErrA => Comp::ErrA,"));
    assert!(text.ends_with(
        "#[allow(unused)]\nmod __skerry_private{\npub struct ErrAMarker{}\npub auto trait NotComp {} impl !NotComp for super::Comp {}\n}"
    ));
}

#[test]
fn attribute_and_generator_agree_on_keys() {
    let mut sc = SkerryScanner::new();
    sc.register_global_enum(&"Errors".to_string(), &vec![unit_variant("ErrA")]);

    let free = match skerry(&SkerryItem::Fn(e_sig("load", "ErrA"))) {
        Ok(marks) => marks,
        Err(_) => panic!("marked"),
    };
    let scanned = sc.visit_item_fn(&skerry_attr(), &e_sig("load", "ErrA")).unwrap();
    assert_eq!(free[0].0, scanned);

    let item = SkerryItem::Impl { trait_impl: false, self_ty: path_type("Store"), fns: vec![e_sig("get", "ErrA")] };
    let method = match skerry(&item) {
        Ok(marks) => marks,
        Err(_) => panic!("marked"),
    };
    assert!(sc.visit_item_impl(&skerry_attr(), &path_type("Store")));
    let scanned = sc.process_function_error(&e_sig("get", "ErrA"));
    sc.leave_block();
    assert_eq!(method[0].0, scanned);
    assert_eq!(method[0].1, format!("Store{}", e_sig("get", "ErrA").text.replace(' ', "")));
}

#[test]
fn unexpandable_members_are_refused() {
    let mut sc = SkerryScanner::new();
    sc.register_global_enum(&"Errors".to_string(), &vec![unit_variant("ErrA")]);
    sc.visit_item_fn(&skerry_attr(), &e_sig("b", "Missing")).unwrap();
    sc.visit_item_fn(&skerry_attr(), &e_sig("a", "ErrA, *BError")).unwrap();
    assert!(matches!(
        sc.finish(None),
        Err(SkerryCodeGenError::Unresolvable(ResolveError::UnknownMember(n))) if n == "Missing"
    ));

    let mut sc = SkerryScanner::new();
    sc.register_global_enum(&"Errors".to_string(), &vec![unit_variant("ErrA")]);
    sc.visit_item_fn(&skerry_attr(), &e_sig("c", "ErrA")).unwrap();
    sc.visit_item_fn(&skerry_attr(), &e_sig("b", "CError")).unwrap();
    sc.visit_item_fn(&skerry_attr(), &e_sig("a", "*BError")).unwrap();
    assert!(matches!(
        sc.finish(None),
        Err(SkerryCodeGenError::Unresolvable(ResolveError::CompositeMember(n))) if n == "CError"
    ));
}
