use vstd::prelude::*;
use crate::codec::{bind_type, bound_type, default_of, default_value_of, name_of};
use crate::descriptor::{
    field_name, is_read_only, is_write_only, opt_json_view, opt_str_view, FieldDescriptor,
    FieldType, TypeDescriptor, Validator,
};
use crate::json::{Json, JsonV};

verus! {

/// The schema of one property of an object.
pub struct PropertySchema {
    pub ty: FieldType,
    pub default: Option<Json>,
    pub read_only: bool,
    pub write_only: bool,
    pub description: Option<String>,
    pub min_length: Option<u64>,
    pub max_length: Option<u64>,
    pub minimum: Option<i64>,
    pub maximum: Option<i64>,
}

pub struct PropertySchemaV {
    pub ty: FieldType,
    pub default: Option<JsonV>,
    pub read_only: bool,
    pub write_only: bool,
    pub description: Option<Seq<char>>,
    pub min_length: Option<u64>,
    pub max_length: Option<u64>,
    pub minimum: Option<i64>,
    pub maximum: Option<i64>,
}

impl View for PropertySchema {
    type V = PropertySchemaV;

    open spec fn view(&self) -> PropertySchemaV {
        PropertySchemaV {
            ty: self.ty,
            default: opt_json_view(self.default),
            read_only: self.read_only,
            write_only: self.write_only,
            description: opt_str_view(self.description),
            min_length: self.min_length,
            max_length: self.max_length,
            minimum: self.minimum,
            maximum: self.maximum,
        }
    }
}

/// The schema of an object type.
pub struct Schema {
    pub description: Option<String>,
    pub external_docs: Option<String>,
    pub required: Vec<String>,
    pub properties: Vec<(String, PropertySchema)>,
    pub deprecated: bool,
    pub example: Option<Json>,
}

pub struct SchemaV {
    pub description: Option<Seq<char>>,
    pub external_docs: Option<Seq<char>>,
    pub required: Seq<Seq<char>>,
    pub properties: Seq<(Seq<char>, PropertySchemaV)>,
    pub deprecated: bool,
    pub example: Option<JsonV>,
}

impl View for Schema {
    type V = SchemaV;

    open spec fn view(&self) -> SchemaV {
        SchemaV {
            description: opt_str_view(self.description),
            external_docs: opt_str_view(self.external_docs),
            required: self.required@.map_values(|s: String| s@),
            properties: self.properties@.map_values(|p: (String, PropertySchema)| (p.0@, p.1@)),
            deprecated: self.deprecated,
            example: opt_json_view(self.example),
        }
    }
}

/// The schema patch of one constraint.
pub open spec fn patch(p: PropertySchemaV, c: Validator) -> PropertySchemaV {
    match c {
        Validator::MinLength(n) => PropertySchemaV { min_length: Some(n), ..p },
        Validator::MaxLength(n) => PropertySchemaV { max_length: Some(n), ..p },
        Validator::Minimum(m) => PropertySchemaV { minimum: Some(m), ..p },
        Validator::Maximum(m) => PropertySchemaV { maximum: Some(m), ..p },
    }
}

/// The patches of all constraints, applied in order.
pub open spec fn patch_all(p: PropertySchemaV, cs: Seq<Validator>) -> PropertySchemaV
    decreases cs.len(),
{
    if cs.len() == 0 {
        p
    } else {
        patch(patch_all(p, cs.drop_last()), cs.last())
    }
}

/// The default that a schema advertises: the default value, unless it is empty.
pub open spec fn advertised_default(f: FieldDescriptor, b: Seq<FieldType>) -> Option<JsonV> {
    match default_of(f, b) {
        Some(JsonV::Null) => None,
        o => o,
    }
}

/// The schema of a field: its type's schema with the field's patch.
pub open spec fn property_of(d: TypeDescriptor, b: Seq<FieldType>, f: FieldDescriptor) -> PropertySchemaV {
    patch_all(
        PropertySchemaV {
            ty: bound_type(f.ty, b),
            default: advertised_default(f, b),
            read_only: is_read_only(d, f),
            write_only: is_write_only(d, f),
            description: opt_str_view(f.description),
            min_length: None,
            max_length: None,
            minimum: None,
            maximum: None,
        },
        f.validators@,
    )
}

/// Whether a field has a property of its own in the schema.
pub open spec fn is_property(f: FieldDescriptor) -> bool {
    !f.skip && !f.flatten
}

/// Whether a field is listed as required: its type needs a value and it has no default.
pub open spec fn is_required(f: FieldDescriptor) -> bool {
    is_property(f) && !f.optional && f.default is None
}

/// The properties of the first `i` fields.
pub open spec fn properties_prefix(d: TypeDescriptor, b: Seq<FieldType>, i: nat) -> Seq<(Seq<char>, PropertySchemaV)>
    decreases i,
{
    if i == 0 {
        Seq::empty()
    } else {
        let f = d.fields@[i - 1];
        let r = properties_prefix(d, b, (i - 1) as nat);
        if is_property(f) {
            r.push((field_name(d, f), property_of(d, b, f)))
        } else {
            r
        }
    }
}

/// The required names among the first `i` fields.
pub open spec fn required_prefix(d: TypeDescriptor, i: nat) -> Seq<Seq<char>>
    decreases i,
{
    if i == 0 {
        Seq::empty()
    } else {
        let f = d.fields@[i - 1];
        let r = required_prefix(d, (i - 1) as nat);
        if is_required(f) {
            r.push(field_name(d, f))
        } else {
            r
        }
    }
}

/// The schema of `d` with its type parameters bound by `b`.
pub open spec fn schema_spec(d: TypeDescriptor, b: Seq<FieldType>, example: Option<JsonV>) -> SchemaV {
    SchemaV {
        description: opt_str_view(d.description),
        external_docs: opt_str_view(d.external_docs),
        required: required_prefix(d, d.fields@.len()),
        properties: properties_prefix(d, b, d.fields@.len()),
        deprecated: d.deprecated,
        example,
    }
}

fn clone_opt_str(o: &Option<String>) -> (r: Option<String>)
    ensures
        opt_str_view(r) == opt_str_view(*o),
{
    match o {
        Some(s) => Some(s.clone()),
        None => None,
    }
}

/// The schema of one field.
pub fn build_property(d: &TypeDescriptor, b: &Vec<FieldType>, f: &FieldDescriptor) -> (r: PropertySchema)
    ensures
        r@ == property_of(*d, b@, *f),
{
    let default = match default_value_of(f, b) {
        Some(Json::Null) => None,
        o => o,
    };
    let mut p = PropertySchema {
        ty: bind_type(f.ty, b),
        default,
        read_only: d.read_only_all || f.read_only,
        write_only: d.write_only_all || f.write_only,
        description: clone_opt_str(&f.description),
        min_length: None,
        max_length: None,
        minimum: None,
        maximum: None,
    };
    let ghost base = p@;
    let mut i: usize = 0;
    assert(f.validators@.take(0) =~= Seq::<Validator>::empty());
    while i < f.validators.len()
        invariant
            i <= f.validators@.len(),
            p@ == patch_all(base, f.validators@.take(i as int)),
        decreases f.validators.len() - i,
    {
        assert(f.validators@.take(i + 1).drop_last() =~= f.validators@.take(i as int));
        match f.validators[i] {
            Validator::MinLength(n) => p.min_length = Some(n),
            Validator::MaxLength(n) => p.max_length = Some(n),
            Validator::Minimum(m) => p.minimum = Some(m),
            Validator::Maximum(m) => p.maximum = Some(m),
        }
        i += 1;
    }
    assert(f.validators@.take(i as int) =~= f.validators@);
    p
}

/// Builds the schema of `d` with its type parameters bound by `b`.
pub fn build_schema(d: &TypeDescriptor, b: &Vec<FieldType>, example: Option<Json>) -> (r: Schema)
    ensures
        r@ == schema_spec(*d, b@, opt_json_view(example)),
{
    let mut required: Vec<String> = Vec::new();
    let mut properties: Vec<(String, PropertySchema)> = Vec::new();
    let mut i: usize = 0;
    assert(required@.map_values(|s: String| s@) =~= Seq::<Seq<char>>::empty());
    assert(properties@.map_values(|p: (String, PropertySchema)| (p.0@, p.1@)) =~= Seq::<(Seq<char>, PropertySchemaV)>::empty());
    while i < d.fields.len()
        invariant
            i <= d.fields@.len(),
            required@.map_values(|s: String| s@) == required_prefix(*d, i as nat),
            properties@.map_values(|p: (String, PropertySchema)| (p.0@, p.1@)) == properties_prefix(*d, b@, i as nat),
        decreases d.fields.len() - i,
    {
        let f = &d.fields[i];
        if !f.skip && !f.flatten {
            let name = name_of(d, f);
            let prop = build_property(d, b, f);
            let ghost before = properties@;
            properties.push((name.clone(), prop));
            assert(properties@.map_values(|p: (String, PropertySchema)| (p.0@, p.1@)) =~= before.map_values(|p: (String, PropertySchema)| (p.0@, p.1@)).push((name@, prop@)));
            if !f.optional && f.default.is_none() {
                let ghost rb = required@;
                required.push(name);
                assert(required@.map_values(|s: String| s@) =~= rb.map_values(|s: String| s@).push(field_name(*d, *f)));
            }
        }
        i += 1;
    }
    Schema {
        description: clone_opt_str(&d.description),
        external_docs: clone_opt_str(&d.external_docs),
        required,
        properties,
        deprecated: d.deprecated,
        example,
    }
}

} // verus!
