//! The definitions that the generator collects: plain error types with their
//! fields, composite errors built from lists of plain and starred errors, and
//! the failures it reports.

use vstd::prelude::*;
use crate::text::{push_char, push_str, usize_to_decimal, decimal, seq_join, views, join};

verus! {

/// A named field of a plain error type: its name and the text of its type.
pub struct NamedField {
    pub name: String,
    pub ty: String,
}

/// An unnamed (tuple) field of a plain error type: the text of its type.
pub struct UnnamedField {
    pub ty: String,
}

/// The fields of a plain error type.
pub enum SimpleFields {
    Unit,
    Unnamed(Vec<UnnamedField>),
    Named(Vec<NamedField>),
}

/// A plain error type: its fields and, for `#[from]` tuple variants with one
/// field, the text of the type it converts from.
pub struct SimpleType {
    pub fields: SimpleFields,
    pub from: Option<String>,
}

/// A composite error: the plain errors it lists, the composite errors it
/// lists with `*`, the file it was found in and the hash of its signature.
pub struct CompositeType {
    pub types: Vec<String>,
    pub composites: Vec<String>,
    pub file: String,
    pub hash: u64,
}

/// Either kind of definition.
pub enum TypeDefinitionType {
    Simple(SimpleType),
    Composite(CompositeType),
}

/// A definition registered under a name.
pub struct TypeDefinition {
    pub ty: TypeDefinitionType,
}

/// Why a definition was refused.
pub enum DefinitionErrorCause {
    NameConflict { name: String },
    WrongErrorExpansion {
        missing_errors: Vec<String>,
        remove_asterisk: Vec<String>,
        add_asterisk: Vec<String>,
    },
}

/// A refused definition: the message shown to the user, the file and the
/// signature hash where it is reported.
pub struct TypeDefinitionError {
    pub msg: String,
    pub file: String,
    pub hash: u64,
}

// ---------------------------------------------------------------------------
// Text of the fields
// ---------------------------------------------------------------------------

/// `var_0,var_1,...` for the first `n` unnamed fields.
pub open spec fn unnamed_binders(n: nat) -> Seq<char>
    decreases n,
{
    if n == 0 {
        Seq::empty()
    } else {
        unnamed_binders((n - 1) as nat) + "var_"@ + decimal((n - 1) as nat) + seq![',']
    }
}

/// `name,` for each of the first `n` named fields.
pub open spec fn named_binders(fields: Seq<NamedField>, n: nat) -> Seq<char>
    decreases n,
{
    if n == 0 {
        Seq::empty()
    } else {
        named_binders(fields, (n - 1) as nat) + fields[n - 1].name@ + seq![',']
    }
}

/// `ty,` for each of the first `n` unnamed fields.
pub open spec fn unnamed_types(fields: Seq<UnnamedField>, n: nat) -> Seq<char>
    decreases n,
{
    if n == 0 {
        Seq::empty()
    } else {
        unnamed_types(fields, (n - 1) as nat) + fields[n - 1].ty@ + seq![',']
    }
}

/// `name:ty,` for each of the first `n` named fields.
pub open spec fn named_types(fields: Seq<NamedField>, n: nat) -> Seq<char>
    decreases n,
{
    if n == 0 {
        Seq::empty()
    } else {
        named_types(fields, (n - 1) as nat) + fields[n - 1].name@ + seq![':']
            + fields[n - 1].ty@ + seq![',']
    }
}

/// The pattern that binds every field of a variant: nothing for a unit
/// variant, `(var_0,var_1,)` for a tuple variant, `{a,b,}` for named fields.
pub open spec fn expansion_text(f: SimpleFields) -> Seq<char> {
    match f {
        SimpleFields::Unit => Seq::empty(),
        SimpleFields::Unnamed(fields) => seq!['('] + unnamed_binders(fields@.len()) + seq![')'],
        SimpleFields::Named(fields) => seq!['{'] + named_binders(fields@, fields@.len()) + seq!['}'],
    }
}

/// The field list of a variant definition: nothing, `(T0,T1,)` or `{a:A,b:B,}`.
pub open spec fn def_text(f: SimpleFields) -> Seq<char> {
    match f {
        SimpleFields::Unit => Seq::empty(),
        SimpleFields::Unnamed(fields) => seq!['('] + unnamed_types(fields@, fields@.len()) + seq![')'],
        SimpleFields::Named(fields) => seq!['{'] + named_types(fields@, fields@.len()) + seq!['}'],
    }
}

impl SimpleFields {
    /// The pattern that binds every field, as used in the generated `match` arms.
    pub fn display_expansion(&self) -> (r: String)
        ensures
            r@ == expansion_text(*self),
    {
        match self {
            SimpleFields::Unit => String::new(),
            SimpleFields::Unnamed(fields) => {
                let mut s = String::new();
                push_char(&mut s, '(');
                let mut i: usize = 0;
                while i < fields.len()
                    invariant
                        i <= fields.len(),
                        s@ == seq!['('] + unnamed_binders(i as nat),
                    decreases fields.len() - i,
                {
                    push_str(&mut s, "var_");
                    let d = usize_to_decimal(i);
                    push_str(&mut s, d.as_str());
                    push_char(&mut s, ',');
                    proof {
                        assert(unnamed_binders((i + 1) as nat) == unnamed_binders(i as nat) + "var_"@
                            + decimal(i as nat) + seq![',']);
                    }
                    i += 1;
                }
                push_char(&mut s, ')');
                s
            },
            SimpleFields::Named(fields) => {
                let mut s = String::new();
                push_char(&mut s, '{');
                let mut i: usize = 0;
                while i < fields.len()
                    invariant
                        i <= fields.len(),
                        s@ == seq!['{'] + named_binders(fields@, i as nat),
                    decreases fields.len() - i,
                {
                    push_str(&mut s, fields[i].name.as_str());
                    push_char(&mut s, ',');
                    proof {
                        assert(named_binders(fields@, (i + 1) as nat) == named_binders(fields@, i as nat)
                            + fields@[i as int].name@ + seq![',']);
                    }
                    i += 1;
                }
                push_char(&mut s, '}');
                s
            },
        }
    }

    /// The field list of the generated variant definition.
    pub fn display_def(&self) -> (r: String)
        ensures
            r@ == def_text(*self),
    {
        match self {
            SimpleFields::Unit => String::new(),
            SimpleFields::Unnamed(fields) => {
                let mut s = String::new();
                push_char(&mut s, '(');
                let mut i: usize = 0;
                while i < fields.len()
                    invariant
                        i <= fields.len(),
                        s@ == seq!['('] + unnamed_types(fields@, i as nat),
                    decreases fields.len() - i,
                {
                    push_str(&mut s, fields[i].ty.as_str());
                    push_char(&mut s, ',');
                    proof {
                        assert(unnamed_types(fields@, (i + 1) as nat) == unnamed_types(fields@, i as nat)
                            + fields@[i as int].ty@ + seq![',']);
                    }
                    i += 1;
                }
                push_char(&mut s, ')');
                s
            },
            SimpleFields::Named(fields) => {
                let mut s = String::new();
                push_char(&mut s, '{');
                let mut i: usize = 0;
                while i < fields.len()
                    invariant
                        i <= fields.len(),
                        s@ == seq!['{'] + named_types(fields@, i as nat),
                    decreases fields.len() - i,
                {
                    push_str(&mut s, fields[i].name.as_str());
                    push_char(&mut s, ':');
                    push_str(&mut s, fields[i].ty.as_str());
                    push_char(&mut s, ',');
                    proof {
                        assert(named_types(fields@, (i + 1) as nat) == named_types(fields@, i as nat)
                            + fields@[i as int].name@ + seq![':'] + fields@[i as int].ty@ + seq![',']);
                    }
                    i += 1;
                }
                push_char(&mut s, '}');
                s
            },
        }
    }
}

impl TypeDefinition {
    /// A plain error definition.
    pub fn simple(ty: SimpleType) -> (r: Self)
        ensures
            r == (TypeDefinition { ty: TypeDefinitionType::Simple(ty) }),
    {
        Self { ty: TypeDefinitionType::Simple(ty) }
    }

    /// A composite error definition.
    pub fn composite(composite: CompositeType) -> (r: Self)
        ensures
            r == (TypeDefinition { ty: TypeDefinitionType::Composite(composite) }),
    {
        Self { ty: TypeDefinitionType::Composite(composite) }
    }
}

// ---------------------------------------------------------------------------
// Messages
// ---------------------------------------------------------------------------

/// The lines of the message for a wrong expansion: missing types, then
/// composites written without `*`, then plain errors written with `*`; each
/// line only where its list is not empty.
pub open spec fn expansion_lines(
    missing: Seq<Seq<char>>,
    remove_asterisk: Seq<Seq<char>>,
    add_asterisk: Seq<Seq<char>>,
) -> Seq<Seq<char>> {
    let l1: Seq<Seq<char>> = if missing.len() > 0 {
        seq!["The following types were not found: ["@ + seq_join(missing, ", "@) + "]"@]
    } else {
        Seq::empty()
    };
    let l2: Seq<Seq<char>> = if add_asterisk.len() > 0 {
        seq!["Add '*' prefix to composite errors: ["@ + seq_join(add_asterisk, ", "@) + "]"@]
    } else {
        Seq::empty()
    };
    let l3: Seq<Seq<char>> = if remove_asterisk.len() > 0 {
        seq!["Remove the '*' on plain errors: ["@ + seq_join(remove_asterisk, ", "@) + "]"@]
    } else {
        Seq::empty()
    };
    l1 + l2 + l3
}

/// The message shown for a refused definition.
pub open spec fn cause_message(cause: DefinitionErrorCause) -> Seq<char> {
    match cause {
        DefinitionErrorCause::NameConflict { name } => "Conflicting name definition: "@ + name@,
        DefinitionErrorCause::WrongErrorExpansion { missing_errors, remove_asterisk, add_asterisk } =>
            seq_join(
                expansion_lines(views(missing_errors@), views(remove_asterisk@), views(add_asterisk@)),
                "\n"@,
            ),
    }
}

fn bracketed_line(head: &str, items: &Vec<String>) -> (r: String)
    ensures
        r@ == head@ + seq_join(views(items@), ", "@) + "]"@,
{
    let mut s = String::new();
    push_str(&mut s, head);
    let joined = join(items, ", ");
    push_str(&mut s, joined.as_str());
    push_str(&mut s, "]");
    s
}

impl DefinitionErrorCause {
    /// The message shown to the user for this cause.
    pub fn to_msg(self) -> (r: String)
        ensures
            r@ == cause_message(self),
    {
        match self {
            DefinitionErrorCause::NameConflict { name } => {
                let mut s = String::new();
                push_str(&mut s, "Conflicting name definition: ");
                push_str(&mut s, name.as_str());
                s
            },
            DefinitionErrorCause::WrongErrorExpansion { missing_errors, remove_asterisk, add_asterisk } => {
                let mut lines: Vec<String> = Vec::new();
                if missing_errors.len() != 0 {
                    lines.push(bracketed_line("The following types were not found: [", &missing_errors));
                }
                if add_asterisk.len() != 0 {
                    lines.push(bracketed_line("Add '*' prefix to composite errors: [", &add_asterisk));
                }
                if remove_asterisk.len() != 0 {
                    lines.push(bracketed_line("Remove the '*' on plain errors: [", &remove_asterisk));
                }
                proof {
                    assert(views(lines@) =~= expansion_lines(
                        views(missing_errors@),
                        views(remove_asterisk@),
                        views(add_asterisk@),
                    ));
                }
                join(&lines, "\n")
            },
        }
    }
}

impl TypeDefinitionError {
    /// A refused definition reported in `file` under the signature hash `hash`.
    pub fn new(cause: DefinitionErrorCause, file: String, hash: u64) -> (r: Self)
        ensures
            r.msg@ == cause_message(cause),
            r.file == file,
            r.hash == hash,
    {
        Self { msg: cause.to_msg(), file, hash }
    }
}

} // verus!
