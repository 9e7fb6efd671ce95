use vstd::prelude::*;
use crate::json::{Json, JsonV};
use crate::rename::{renamed, RenameRule};

verus! {

/// The type of a field's value.
#[derive(Clone, Copy, Debug, PartialEq, Eq, Structural)]
pub enum FieldType {
    Int,
    Bool,
    Str,
    /// A free-form JSON array.
    Array,
    /// A free-form JSON object.
    Object,
    /// The generic template's type parameter with this index.
    Param(usize),
}

/// What a field takes when the input leaves it out.
pub enum DefaultValue {
    /// The zero value of the field's type.
    Zero,
    /// The value that a named factory produces.
    Factory(Json),
}

/// One declared constraint on a field's value; it is both checked when
/// parsing and written into the field's schema.
#[derive(Clone, Copy, Debug, PartialEq, Eq, Structural)]
pub enum Validator {
    MinLength(u64),
    MaxLength(u64),
    Minimum(i64),
    Maximum(i64),
}

/// One field of a record type, with its modifiers.
pub struct FieldDescriptor {
    pub ident: String,
    pub rename: Option<String>,
    pub ty: FieldType,
    /// The field may be empty (it holds `Json::Null` then).
    pub optional: bool,
    pub default: Option<DefaultValue>,
    pub read_only: bool,
    pub write_only: bool,
    pub flatten: bool,
    pub skip: bool,
    pub validators: Vec<Validator>,
    pub description: Option<String>,
}

/// A named binding of a generic template's type parameters.
pub struct Concrete {
    pub name: String,
    pub params: Vec<FieldType>,
    pub example: Option<Json>,
}

/// A record type: its fields in declaration order and its type-level modifiers.
pub struct TypeDescriptor {
    pub ident: String,
    pub rename: Option<String>,
    /// Derives the key of each field that has no `rename` of its own.
    pub rename_all: Option<RenameRule>,
    pub description: Option<String>,
    pub deprecated: bool,
    pub external_docs: Option<String>,
    pub read_only_all: bool,
    pub write_only_all: bool,
    pub deny_unknown_fields: bool,
    pub inline: bool,
    pub example: Option<Json>,
    pub concretes: Vec<Concrete>,
    pub fields: Vec<FieldDescriptor>,
}

/// A descriptor that cannot be compiled.
#[derive(Debug, PartialEq, Eq, Structural)]
pub enum ConfigError {
    /// The field with this index is both read-only and write-only.
    ReadAndWriteOnly(usize),
    /// An inline type has generic instantiations.
    InlineWithConcretes,
    /// A type-level example is set beside generic instantiations.
    ExampleWithConcretes,
    /// The field with this index is flattened but its type is not an object.
    FlattenNotObject(usize),
    /// The field with this index has a type parameter that nothing binds.
    UnboundParam(usize),
}

pub open spec fn opt_str_view(o: Option<String>) -> Option<Seq<char>> {
    match o {
        Some(s) => Some(s@),
        None => None,
    }
}

pub open spec fn opt_json_view(o: Option<Json>) -> Option<JsonV> {
    match o {
        Some(j) => Some(j@),
        None => None,
    }
}

/// The key under which the field is read and written.
pub open spec fn field_name(d: TypeDescriptor, f: FieldDescriptor) -> Seq<char> {
    match f.rename {
        Some(r) => r@,
        None => match d.rename_all {
            Some(rule) => renamed(rule, f.ident@),
            None => f.ident@,
        },
    }
}

pub open spec fn is_read_only(d: TypeDescriptor, f: FieldDescriptor) -> bool {
    d.read_only_all || f.read_only
}

pub open spec fn is_write_only(d: TypeDescriptor, f: FieldDescriptor) -> bool {
    d.write_only_all || f.write_only
}

/// Whether every type parameter in `d`'s fields is below `n`.
pub open spec fn params_below(d: TypeDescriptor, n: nat) -> bool {
    forall|i: int|
        0 <= i < d.fields@.len() && !d.fields@[i].skip ==> match #[trigger] d.fields@[i].ty {
            FieldType::Param(p) => p < n,
            _ => true,
        }
}

/// The error that compiling `d` meets first, if any.
pub open spec fn config_error(d: TypeDescriptor) -> Option<ConfigError> {
    if d.inline && d.concretes@.len() > 0 {
        Some(ConfigError::InlineWithConcretes)
    } else if d.example is Some && d.concretes@.len() > 0 {
        Some(ConfigError::ExampleWithConcretes)
    } else {
        field_error(d, 0)
    }
}

/// The first error among the fields from index `i` on.
pub open spec fn field_error(d: TypeDescriptor, i: nat) -> Option<ConfigError>
    decreases d.fields@.len() - i,
{
    if i >= d.fields@.len() {
        None
    } else {
        let f = d.fields@[i as int];
        if f.skip {
            field_error(d, i + 1)
        } else if is_read_only(d, f) && is_write_only(d, f) {
            Some(ConfigError::ReadAndWriteOnly(i as usize))
        } else if f.flatten && (f.ty != FieldType::Object || f.optional) {
            Some(ConfigError::FlattenNotObject(i as usize))
        } else if f.ty is Param && d.concretes@.len() == 0 {
            Some(ConfigError::UnboundParam(i as usize))
        } else {
            field_error(d, i + 1)
        }
    }
}

/// A descriptor whose types are all bound: the shape the codec works on.
pub open spec fn resolved(d: TypeDescriptor) -> bool {
    config_error(d) is None && d.concretes@.len() == 0
}

/// Checks the descriptor's configuration.
pub fn check_config(d: &TypeDescriptor) -> (r: Result<(), ConfigError>)
    ensures
        r is Ok <==> config_error(*d) is None,
        r is Err ==> config_error(*d) == Some(r->Err_0),
{
    if d.inline && d.concretes.len() > 0 {
        return Err(ConfigError::InlineWithConcretes);
    }
    if d.example.is_some() && d.concretes.len() > 0 {
        return Err(ConfigError::ExampleWithConcretes);
    }
    let mut i: usize = d.fields.len();
    let mut found: Option<ConfigError> = None;
    while i > 0
        invariant
            i <= d.fields@.len(),
            found == field_error(*d, i as nat),
        decreases i,
    {
        i -= 1;
        let f = &d.fields[i];
        let ro = d.read_only_all || f.read_only;
        let wo = d.write_only_all || f.write_only;
        if f.skip {
        } else if ro && wo {
            found = Some(ConfigError::ReadAndWriteOnly(i));
        } else if f.flatten && (f.ty != FieldType::Object || f.optional) {
            found = Some(ConfigError::FlattenNotObject(i));
        } else if matches!(f.ty, FieldType::Param(_)) && d.concretes.len() == 0 {
            found = Some(ConfigError::UnboundParam(i));
        }
    }
    match found {
        None => Ok(()),
        Some(e) => Err(e),
    }
}

} // verus!
