use skerry::definitions::{
    CompositeType, DefinitionErrorCause, NamedField, SimpleFields, SimpleType, TypeDefinition,
    TypeDefinitionError, TypeDefinitionType, UnnamedField,
};
use skerry::hashing::{calculate_ident_hash, calculate_sig_hash, normalize_signature};
use skerry::lists::dedup_strings;
use skerry::naming::{format_camel_case, format_snake_case};
use skerry::runtime::ConstantStrVec;
use skerry::tokens::{flatten_invisible, Delimiter, TokenTree};

#[test]
fn snake_case_of_camel_case_names() {
    assert_eq!(format_snake_case("MyStruct"), "my_struct");
    assert_eq!(format_snake_case("HTTPError"), "h_t_t_p_error");
    assert_eq!(format_snake_case("already_snake"), "already_snake");
    assert_eq!(format_snake_case(""), "");
    assert_eq!(format_snake_case("Ünïcode"), "ünïcode");
}

#[test]
fn camel_case_of_snake_case_names() {
    assert_eq!(format_camel_case("check_auth"), "CheckAuth");
    assert_eq!(format_camel_case("my_fn_3"), "MyFn3");
    assert_eq!(format_camel_case("__double__under"), "DoubleUnder");
    assert_eq!(format_camel_case("straße_ok"), "StraßeOk");
    assert_eq!(format_camel_case("ß"), "SS");
    assert_eq!(format_camel_case(""), "");
}

#[test]
fn fields_are_displayed_for_patterns_and_definitions() {
    let unnamed = SimpleFields::Unnamed(vec![UnnamedField { ty: "u8".to_string() }, UnnamedField { ty: "String".to_string() }]);
    assert_eq!(unnamed.display_expansion(), "(var_0,var_1,)");
    assert_eq!(unnamed.display_def(), "(u8,String,)");
    let named = SimpleFields::Named(vec![NamedField { name: "code".to_string(), ty: "u32".to_string() }]);
    assert_eq!(named.display_expansion(), "{code,}");
    assert_eq!(named.display_def(), "{code:u32,}");
    assert_eq!(SimpleFields::Unit.display_expansion(), "");
    assert_eq!(SimpleFields::Unit.display_def(), "");
    let many = SimpleFields::Unnamed((0..11).map(|_| UnnamedField { ty: "u8".to_string() }).collect());
    assert!(many.display_expansion().ends_with("var_9,var_10,)"));
}

#[test]
fn definitions_wrap_their_kind() {
    let s = TypeDefinition::simple(SimpleType { fields: SimpleFields::Unit, from: None });
    assert!(matches!(s.ty, TypeDefinitionType::Simple(_)));
    let c = TypeDefinition::composite(CompositeType { types: vec![], composites: vec![], file: "f".to_string(), hash: 7 });
    assert!(matches!(c.ty, TypeDefinitionType::Composite(CompositeType { hash: 7, .. })));
}

#[test]
fn messages_for_refused_definitions() {
    let conflict = DefinitionErrorCause::NameConflict { name: "RunError".to_string() };
    assert_eq!(conflict.to_msg(), "Conflicting name definition: RunError");
    let wrong = DefinitionErrorCause::WrongErrorExpansion {
        missing_errors: vec!["A".to_string(), "B".to_string()],
        remove_asterisk: vec!["C".to_string()],
        add_asterisk: vec![],
    };
    assert_eq!(wrong.to_msg(), "The following types were not found: [A, B]\nRemove the '*' on plain errors: [C]");
    let only_add = DefinitionErrorCause::WrongErrorExpansion {
        missing_errors: vec![],
        remove_asterisk: vec![],
        add_asterisk: vec!["D".to_string()],
    };
    let e = TypeDefinitionError::new(only_add, "src/x.rs".to_string(), 9);
    assert_eq!(e.msg, "Add '*' prefix to composite errors: [D]");
    assert_eq!(e.file, "src/x.rs");
    assert_eq!(e.hash, 9);
}

#[test]
fn snake_names_survive_the_camel_form() {
    for name in ["check_auth", "fn3", "a", "load_user_v2_data"] {
        let camel = format_camel_case(name);
        assert!(!camel.contains('_'));
        assert_eq!(format_camel_case(&camel), camel);
        assert_eq!(format_snake_case(&camel), name);
    }
    let camel = format_camel_case("__x_y_");
    assert_eq!(camel, "XY");
    assert_eq!(camel.len(), "__x_y_".len() - 4);
}

#[test]
fn an_empty_expansion_message_has_no_lines() {
    let none = DefinitionErrorCause::WrongErrorExpansion {
        missing_errors: vec![],
        remove_asterisk: vec![],
        add_asterisk: vec![],
    };
    assert_eq!(none.to_msg(), "");
    let all = DefinitionErrorCause::WrongErrorExpansion {
        missing_errors: vec!["A".to_string()],
        remove_asterisk: vec!["C".to_string()],
        add_asterisk: vec!["B".to_string()],
    };
    let msg = all.to_msg();
    assert_eq!(msg.lines().count(), 3);
    assert!(!msg.starts_with('\n') && !msg.ends_with('\n'));
    assert_eq!(
        msg,
        "The following types were not found: [A]\nAdd '*' prefix to composite errors: [B]\nRemove the '*' on plain errors: [C]"
    );
}

#[test]
fn constant_str_vec_keeps_what_was_pushed() {
    let mut v = ConstantStrVec::new();
    assert!(v.is_empty());
    assert!(v.get_slice().is_empty());
    v.push("ErrA");
    v.push("ErrB");
    assert!(!v.is_empty());
    assert_eq!(v.get_slice(), &["ErrA", "ErrB"]);
}

#[test]
fn constant_str_vec_holds_its_capacity() {
    let mut v = ConstantStrVec::new();
    for _ in 0..skerry::runtime::CAPACITY {
        v.push("x");
    }
    assert_eq!(v.get_slice().len(), 512);
}

#[test]
fn signatures_hash_without_whitespace() {
    assert_eq!(normalize_signature("Db", "fn connect (& self) -> Result < () , X >"), "Dbfnconnect(&self)->Result<(),X>");
    assert_eq!(normalize_signature("", "\t a\u{a0}b\n"), "ab");
    let a = calculate_sig_hash("Db", "fn connect ( & self )");
    let b = calculate_sig_hash("Db", "fn connect(&self)");
    assert_eq!(a, b);
    assert_ne!(a, calculate_sig_hash("", "fn connect(&self)"));
    assert_ne!(a, calculate_sig_hash("Db", "fn close(&self)"));
    assert_eq!(calculate_ident_hash("Errors"), calculate_ident_hash("Errors"));
    assert_ne!(calculate_ident_hash("Errors"), calculate_ident_hash("Other"));
}

#[test]
fn repeated_strings_are_dropped() {
    let v: Vec<String> = ["b", "a", "b", "c", "a"].iter().map(|s| s.to_string()).collect();
    assert_eq!(dedup_strings(&v), vec!["b", "a", "c"]);
    let once = dedup_strings(&v);
    assert_eq!(dedup_strings(&once), once);
}

#[test]
fn invisible_groups_are_opened() {
    let ident = |s: &str| TokenTree::Ident { name: s.to_string(), keyword: false };
    let inner = TokenTree::Group { delimiter: Delimiter::Invisible, stream: vec![ident("a"), ident("b")] };
    let kept = TokenTree::Group { delimiter: Delimiter::Bracket, stream: vec![ident("c")] };
    let out = flatten_invisible(vec![ident("x"), inner, kept]);
    assert_eq!(out.len(), 4);
    assert!(matches!(&out[1], TokenTree::Ident { name, .. } if name == "a"));
    assert!(matches!(&out[3], TokenTree::Group { delimiter: Delimiter::Bracket, .. }));
}
