//! Function signatures as the macros read them: the return type, where the
//! error list of a `Result` sits in it, and the names derived from types.

use vstd::prelude::*;
use crate::tokens::{
    TokenTree, ListError, error_list_spec, extract_errors_from_tokens, inner_error_message,
};
use crate::naming::{camel_case, format_camel_case};
use crate::text::{views, copy_string, push_str, text_is};
use crate::hashing::calculate_sig_hash;

verus! {

/// A type, as far as the macros look into it.
pub enum TypeModel {
    /// A path type (any qualified self is left out): whether it starts with
    /// `::`, and its segments.
    Path { leading_colon: bool, segments: Vec<PathSegmentModel> },
    /// `&T` or `&mut T`.
    Reference(Box<TypeModel>),
    /// `[T]`.
    Slice(Box<TypeModel>),
    /// `[T; N]`, with the text of `N` when it is a literal.
    Array(Box<TypeModel>, Option<String>),
    /// A macro call in type position, with the tokens inside it.
    Macro(Vec<TokenTree>),
    /// Any other type.
    Other,
}

/// A segment of a path type.
pub struct PathSegmentModel {
    pub ident: String,
    pub arguments: PathArgumentsModel,
}

/// The arguments of a path segment.
pub enum PathArgumentsModel {
    NoArguments,
    AngleBracketed(Vec<GenericArgumentModel>),
    Parenthesized,
}

/// A generic argument: a type (with its tokens), or anything else.
pub enum GenericArgumentModel {
    Type { ty: TypeModel, tokens: Vec<TokenTree> },
    Other,
}

/// A function signature: its name, its return type, and its text as the
/// tokens print it.
pub struct SignatureModel {
    pub ident: String,
    pub output: Option<TypeModel>,
    pub text: String,
}

/// The second generic argument of a return type `...::Result<_, E>`, when
/// the type has that shape.
pub open spec fn result_error_arg(ty: TypeModel) -> Option<GenericArgumentModel> {
    match ty {
        TypeModel::Path { segments, .. } => {
            if segments@.len() == 0 {
                None
            } else {
                let last = segments@.last();
                if last.ident@ != "Result"@ {
                    None
                } else {
                    match last.arguments {
                        PathArgumentsModel::AngleBracketed(args) => {
                            if args@.len() >= 2 { Some(args@[1]) } else { None }
                        },
                        _ => None,
                    }
                }
            }
        },
        _ => None,
    }
}

/// Finds the error argument of a `Result` return type.
pub fn extract_result_error_type(ty: &TypeModel) -> (r: Option<&GenericArgumentModel>)
    ensures
        match result_error_arg(*ty) {
            Some(a) => r matches Some(b) && *b == a,
            None => r is None,
        },
{
    match ty {
        TypeModel::Path { segments, .. } => {
            if segments.len() == 0 {
                return None;
            }
            let last = &segments[segments.len() - 1];
            proof { reveal_strlit("Result"); }
            if !text_is(&last.ident, "Result") {
                return None;
            }
            match &last.arguments {
                PathArgumentsModel::AngleBracketed(args) => {
                    if args.len() >= 2 { Some(&args[1]) } else { None }
                },
                _ => None,
            }
        },
        _ => None,
    }
}

// ---------------------------------------------------------------------------
// Names from types
// ---------------------------------------------------------------------------

/// The identifier a type is named by: its last segment, with `Ref`,
/// `Slice` or `Array` and the length appended for references, slices and
/// arrays.
pub open spec fn type_ident(t: TypeModel) -> Seq<char>
    decreases t,
{
    match t {
        TypeModel::Path { segments, .. } => {
            if segments@.len() == 0 { "UnknownType"@ } else { segments@.last().ident@ }
        },
        TypeModel::Reference(inner) => type_ident(*inner) + "Ref"@,
        TypeModel::Slice(inner) => type_ident(*inner) + "Slice"@,
        TypeModel::Array(inner, len) => type_ident(*inner) + "Array"@ + (match len {
            Some(l) => l@,
            None => Seq::<char>::empty(),
        }),
        _ => "GenericType"@,
    }
}

/// Names a type by an identifier, for the prefix of the errors of an impl
/// block.
pub fn type_to_ident(ty: &TypeModel) -> (r: String)
    ensures
        r@ == type_ident(*ty),
    decreases ty,
{
    match ty {
        TypeModel::Path { segments, .. } => {
            if segments.len() == 0 {
                String::from_str("UnknownType")
            } else {
                copy_string(&segments[segments.len() - 1].ident)
            }
        },
        TypeModel::Reference(inner) => {
            let mut s = type_to_ident(inner);
            push_str(&mut s, "Ref");
            s
        },
        TypeModel::Slice(inner) => {
            let mut s = type_to_ident(inner);
            push_str(&mut s, "Slice");
            s
        },
        TypeModel::Array(inner, len) => {
            let mut s = type_to_ident(inner);
            push_str(&mut s, "Array");
            match len {
                Some(l) => push_str(&mut s, l.as_str()),
                None => {},
            }
            s
        },
        _ => String::from_str("GenericType"),
    }
}

/// The prefix the generator gives the errors of an impl block: the last
/// segment of the implementing type, or `Unknown`.
pub open spec fn impl_prefix_of(t: TypeModel) -> Seq<char> {
    match t {
        TypeModel::Path { segments, .. } => {
            if segments@.len() == 0 { "Unknown"@ } else { segments@.last().ident@ }
        },
        _ => "Unknown"@,
    }
}

/// Chooses the prefix for the errors of an impl block.
pub fn impl_prefix(self_ty: &TypeModel) -> (r: String)
    ensures
        r@ == impl_prefix_of(*self_ty),
{
    match self_ty {
        TypeModel::Path { segments, .. } => {
            if segments.len() == 0 {
                String::from_str("Unknown")
            } else {
                copy_string(&segments[segments.len() - 1].ident)
            }
        },
        _ => String::from_str("Unknown"),
    }
}

/// The single identifier a path type consists of, if it is one: no leading
/// `::`, one segment, no arguments.
pub open spec fn type_path_ident(t: TypeModel) -> Option<Seq<char>> {
    match t {
        TypeModel::Path { leading_colon, segments } => {
            if !leading_colon && segments@.len() == 1 && segments@[0].arguments is NoArguments {
                Some(segments@[0].ident@)
            } else {
                None
            }
        },
        _ => None,
    }
}

/// The identifier of a path type that is a single identifier.
pub fn get_type_ident(t: &TypeModel) -> (r: Option<String>)
    ensures
        match type_path_ident(*t) {
            Some(n) => r matches Some(s) && s@ == n,
            None => r is None,
        },
{
    match t {
        TypeModel::Path { leading_colon, segments } => {
            if !*leading_colon && segments.len() == 1 {
                match segments[0].arguments {
                    PathArgumentsModel::NoArguments => Some(copy_string(&segments[0].ident)),
                    _ => None,
                }
            } else {
                None
            }
        },
        _ => None,
    }
}

// ---------------------------------------------------------------------------
// The error enum of a `#[skerry_fn]` function
// ---------------------------------------------------------------------------

/// Why a `#[skerry_fn]` function was refused.
pub enum SkerryFnError {
    /// `Functions must return Result to use Skerry.`
    NoReturnType,
    /// `Unsupported return type format.`
    UnsupportedReturnType,
    /// `Expected a return type.`
    EmptyPath,
    /// `Skerry functions must return a Result.` (at the last segment)
    NotResult,
    /// `Result must use angle brackets.`
    NoAngleBrackets,
    /// `Result must have an error type.`
    NoErrorType,
    /// A malformed `e![...]` list.
    List(ListError),
}

/// The message of a refusal.
pub open spec fn skerry_fn_message(e: SkerryFnError) -> Seq<char> {
    match e {
        SkerryFnError::NoReturnType => "Functions must return Result to use Skerry."@,
        SkerryFnError::UnsupportedReturnType => "Unsupported return type format."@,
        SkerryFnError::EmptyPath => "Expected a return type."@,
        SkerryFnError::NotResult => "Skerry functions must return a Result."@,
        SkerryFnError::NoAngleBrackets => "Result must use angle brackets."@,
        SkerryFnError::NoErrorType => "Result must have an error type."@,
        SkerryFnError::List(l) => inner_error_message(l.kind),
    }
}

impl SkerryFnError {
    /// The message shown for this refusal.
    pub fn message(&self) -> (r: String)
        ensures
            r@ == skerry_fn_message(*self),
    {
        let mut s = String::new();
        match self {
            SkerryFnError::NoReturnType => push_str(&mut s, "Functions must return Result to use Skerry."),
            SkerryFnError::UnsupportedReturnType => push_str(&mut s, "Unsupported return type format."),
            SkerryFnError::EmptyPath => push_str(&mut s, "Expected a return type."),
            SkerryFnError::NotResult => push_str(&mut s, "Skerry functions must return a Result."),
            SkerryFnError::NoAngleBrackets => push_str(&mut s, "Result must use angle brackets."),
            SkerryFnError::NoErrorType => push_str(&mut s, "Result must have an error type."),
            SkerryFnError::List(l) => { return l.kind.message(); },
        }
        s
    }
}

/// The enum to generate for a function: its name, its plain errors and the
/// errors whose variants it takes over.
pub struct ErrorEnumPlan {
    pub struct_name: String,
    pub normal: Vec<String>,
    pub passthrough: Vec<String>,
}

/// The name of a function's error enum: the prefix and the function name,
/// both in CamelCase, then `Error`.
pub open spec fn error_enum_name(prefix: Option<Seq<char>>, fn_name: Seq<char>) -> Seq<char> {
    (match prefix {
        Some(p) => camel_case(p),
        None => Seq::<char>::empty(),
    }) + camel_case(fn_name) + "Error"@
}

/// What a `#[skerry_fn]` function is turned into, given its signature and
/// the prefix of its impl or trait block: an error, no enum (the function
/// names an existing error type), or the enum to generate.
pub open spec fn skerry_fn_outcome(sig: SignatureModel, prefix: Option<Seq<char>>) -> Result<Option<(Seq<char>, Seq<Seq<char>>, Seq<Seq<char>>)>, SkerryFnError> {
    match sig.output {
        None => Err(SkerryFnError::NoReturnType),
        Some(ty) => match ty {
            TypeModel::Path { segments, .. } => {
                if segments@.len() == 0 {
                    Err(SkerryFnError::EmptyPath)
                } else if segments@.last().ident@ != "Result"@ {
                    Err(SkerryFnError::NotResult)
                } else {
                    match segments@.last().arguments {
                        PathArgumentsModel::AngleBracketed(args) => {
                            if args@.len() >= 2 && args@[1] is Type {
                                match error_list_spec(args@[1]->tokens@) {
                                    Ok(Some(lists)) => Ok(Some((error_enum_name(prefix, sig.ident@), lists.0, lists.1))),
                                    Ok(None) => Ok(None),
                                    Err((kind, span)) => Err(SkerryFnError::List(ListError { kind, span })),
                                }
                            } else {
                                Err(SkerryFnError::NoErrorType)
                            }
                        },
                        _ => Err(SkerryFnError::NoAngleBrackets),
                    }
                }
            },
            _ => Err(SkerryFnError::UnsupportedReturnType),
        },
    }
}

/// The plan matches the outcome's enum.
pub open spec fn plan_matches(p: ErrorEnumPlan, o: (Seq<char>, Seq<Seq<char>>, Seq<Seq<char>>)) -> bool {
    p.struct_name@ == o.0 && views(p.normal@) == o.1 && views(p.passthrough@) == o.2
}

/// The error enum's name for a function.
fn enum_name(prefix: Option<&String>, fn_name: &String) -> (r: String)
    ensures
        r@ == error_enum_name(match prefix { Some(p) => Some(p@), None => None }, fn_name@),
{
    let mut s = match prefix {
        Some(p) => format_camel_case(p.as_str()),
        None => String::new(),
    };
    let f = format_camel_case(fn_name.as_str());
    push_str(&mut s, f.as_str());
    push_str(&mut s, "Error");
    s
}

/// Checks the return type of a `#[skerry_fn]` function and, when it holds
/// an `e![...]` list, plans the error enum named after the prefix and the
/// function.
pub fn process_skerry_logic(sig: &SignatureModel, prefix: Option<&String>) -> (r: Result<Option<ErrorEnumPlan>, SkerryFnError>)
    ensures
        match skerry_fn_outcome(*sig, match prefix { Some(p) => Some(p@), None => None }) {
            Ok(None) => r matches Ok(None),
            Ok(Some(o)) => r matches Ok(Some(p)) && plan_matches(p, o),
            Err(e) => r matches Err(e2) && e2 == e,
        },
{
    let ty = match &sig.output {
        None => { return Err(SkerryFnError::NoReturnType); },
        Some(t) => t,
    };
    let segments = match ty {
        TypeModel::Path { segments, .. } => segments,
        _ => { return Err(SkerryFnError::UnsupportedReturnType); },
    };
    if segments.len() == 0 {
        return Err(SkerryFnError::EmptyPath);
    }
    let last = &segments[segments.len() - 1];
    proof { reveal_strlit("Result"); }
    if !text_is(&last.ident, "Result") {
        return Err(SkerryFnError::NotResult);
    }
    let args = match &last.arguments {
        PathArgumentsModel::AngleBracketed(args) => args,
        _ => { return Err(SkerryFnError::NoAngleBrackets); },
    };
    if args.len() < 2 {
        return Err(SkerryFnError::NoErrorType);
    }
    let tokens = match &args[1] {
        GenericArgumentModel::Type { tokens, .. } => tokens,
        _ => { return Err(SkerryFnError::NoErrorType); },
    };
    match extract_errors_from_tokens(tokens) {
        Ok(Some((normal, passthrough))) => {
            let struct_name = enum_name(prefix, &sig.ident);
            Ok(Some(ErrorEnumPlan { struct_name, normal, passthrough }))
        },
        Ok(None) => Ok(None),
        Err(e) => Err(SkerryFnError::List(e)),
    }
}

// ---------------------------------------------------------------------------
// Marking a signature for the generator
// ---------------------------------------------------------------------------

/// Where a signature without a `Result<T, e![...]>` return type is reported.
pub enum ReplaceError {
    /// At the return type.
    AtReturnType,
    /// At the `fn` keyword (no return type).
    AtFnToken,
}

/// The message for a signature that cannot be marked.
pub open spec fn replace_error_message() -> Seq<char> {
    "Function must return Result<T, e![...]>"@
}

/// The message for a signature that cannot be marked.
pub fn replace_error_text() -> (r: String)
    ensures
        r@ == replace_error_message(),
{
    String::from_str("Function must return Result<T, e![...]>")
}

/// Checks that a signature returns `Result<_, E>` and gives the hash under
/// which the generator stores its error type (its error argument is then
/// replaced by a lookup of that hash).
pub fn replace_fn_error(prefix: &str, sig: &SignatureModel) -> (r: Result<u64, ReplaceError>)
    ensures
        match sig.output {
            None => r matches Err(ReplaceError::AtFnToken),
            Some(t) => (r is Ok <==> result_error_arg(t) is Some)
                && (r is Err ==> r matches Err(ReplaceError::AtReturnType)),
        },
{
    let hash = calculate_sig_hash(prefix, sig.text.as_str());
    match &sig.output {
        Some(ty) => match extract_result_error_type(ty) {
            Some(_) => Ok(hash),
            None => Err(ReplaceError::AtReturnType),
        },
        None => Err(ReplaceError::AtFnToken),
    }
}

} // verus!
