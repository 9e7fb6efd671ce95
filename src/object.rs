use vstd::prelude::*;
use crate::codec::{parse, parse_spec, serialize, serialize_spec, Instance, ParseError};
use crate::descriptor::{check_config, config_error, opt_json_view, ConfigError, FieldType, TypeDescriptor};
use crate::json::{Json, JsonV};
use crate::registry::{has_name, names_unique, Registry};
use crate::schema::{build_schema, schema_spec, Schema};

verus! {

/// How other schemas refer to a type's schema.
pub enum SchemaRef {
    /// The schema body, embedded where it is used.
    Inline(Schema),
    /// The name under which the schema is registered.
    Reference(String),
}

/// A checked descriptor: the codec and schema of one record type, or of
/// each named instantiation of a generic template.
pub struct ObjectType {
    desc: TypeDescriptor,
}

/// How many public types the descriptor gives: one per instantiation, or one.
pub open spec fn type_count(d: TypeDescriptor) -> nat {
    if d.concretes@.len() == 0 {
        1
    } else {
        d.concretes@.len()
    }
}

/// The name of the `k`-th public type.
pub open spec fn public_name(d: TypeDescriptor, k: int) -> Seq<char> {
    if d.concretes@.len() == 0 {
        match d.rename {
            Some(r) => r@,
            None => d.ident@,
        }
    } else {
        d.concretes@[k].name@
    }
}

/// The binding of type parameters of the `k`-th public type.
pub open spec fn binding(d: TypeDescriptor, k: int) -> Seq<FieldType> {
    if d.concretes@.len() == 0 {
        Seq::empty()
    } else {
        d.concretes@[k].params@
    }
}

/// The example of the `k`-th public type.
pub open spec fn example_of(d: TypeDescriptor, k: int) -> Option<JsonV> {
    if d.concretes@.len() == 0 {
        opt_json_view(d.example)
    } else {
        opt_json_view(d.concretes@[k].example)
    }
}

/// Checks the descriptor and makes its types.
pub fn compile(desc: TypeDescriptor) -> (r: Result<ObjectType, ConfigError>)
    ensures
        r is Ok <==> config_error(desc) is None,
        r is Ok ==> r->Ok_0.desc() == desc,
        r is Err ==> config_error(desc) == Some(r->Err_0),
{
    match check_config(&desc) {
        Ok(()) => Ok(ObjectType { desc }),
        Err(e) => Err(e),
    }
}

fn clone_example(o: &Option<Json>) -> (r: Option<Json>)
    ensures
        opt_json_view(r) == opt_json_view(*o),
{
    match o {
        Some(j) => Some(j.copy()),
        None => None,
    }
}

impl ObjectType {
    pub closed spec fn desc(&self) -> TypeDescriptor {
        self.desc
    }

    /// The descriptor the types were made from.
    pub fn descriptor(&self) -> (r: &TypeDescriptor)
        ensures
            *r == self.desc(),
    {
        &self.desc
    }

    /// How many public types there are.
    pub fn count(&self) -> (r: usize)
        ensures
            r == type_count(self.desc()),
    {
        if self.desc.concretes.len() == 0 {
            1
        } else {
            self.desc.concretes.len()
        }
    }

    /// The name of the `k`-th type.
    pub fn name(&self, k: usize) -> (r: String)
        requires
            k < type_count(self.desc()),
        ensures
            r@ == public_name(self.desc(), k as int),
    {
        if self.desc.concretes.len() == 0 {
            match &self.desc.rename {
                Some(n) => n.clone(),
                None => self.desc.ident.clone(),
            }
        } else {
            self.desc.concretes[k].name.clone()
        }
    }

    fn bindings(&self, k: usize) -> (r: Vec<FieldType>)
        requires
            k < type_count(self.desc()),
        ensures
            r@ == binding(self.desc(), k as int),
    {
        if self.desc.concretes.len() == 0 {
            Vec::new()
        } else {
            let ps = &self.desc.concretes[k].params;
            let mut out: Vec<FieldType> = Vec::new();
            let mut i: usize = 0;
            while i < ps.len()
                invariant
                    i <= ps@.len(),
                    out@ == ps@.take(i as int),
                decreases ps.len() - i,
            {
                out.push(ps[i]);
                assert(out@ =~= ps@.take(i + 1));
                i += 1;
            }
            assert(ps@.take(i as int) =~= ps@);
            out
        }
    }

    fn example(&self, k: usize) -> (r: Option<Json>)
        requires
            k < type_count(self.desc()),
        ensures
            opt_json_view(r) == example_of(self.desc(), k as int),
    {
        if self.desc.concretes.len() == 0 {
            clone_example(&self.desc.example)
        } else {
            clone_example(&self.desc.concretes[k].example)
        }
    }

    /// The full schema of the `k`-th type.
    pub fn schema(&self, k: usize) -> (r: Schema)
        requires
            k < type_count(self.desc()),
        ensures
            r@ == schema_spec(self.desc(), binding(self.desc(), k as int), example_of(self.desc(), k as int)),
    {
        let b = self.bindings(k);
        build_schema(&self.desc, &b, self.example(k))
    }

    /// How other schemas refer to the `k`-th type: its body when the type is
    /// inline, else its name.
    pub fn schema_ref(&self, k: usize) -> (r: SchemaRef)
        requires
            k < type_count(self.desc()),
        ensures
            self.desc().inline && self.desc().concretes@.len() == 0 ==> r is Inline
                && r->Inline_0@ == schema_spec(self.desc(), binding(self.desc(), k as int), example_of(self.desc(), k as int)),
            !(self.desc().inline && self.desc().concretes@.len() == 0) ==> r is Reference
                && r->Reference_0@ == public_name(self.desc(), k as int),
    {
        if self.desc.inline && self.desc.concretes.len() == 0 {
            SchemaRef::Inline(self.schema(k))
        } else {
            SchemaRef::Reference(self.name(k))
        }
    }

    /// Registers the `k`-th type's schema under its name, unless the name is
    /// already there. An inline type registers nothing: its fields' types
    /// are all unnamed.
    pub fn register(&self, k: usize, registry: &mut Registry)
        requires
            k < type_count(self.desc()),
        ensures
            self.desc().inline && self.desc().concretes@.len() == 0 ==> final(registry)@ == old(registry)@,
            !(self.desc().inline && self.desc().concretes@.len() == 0) ==> {
                let name = public_name(self.desc(), k as int);
                let body = schema_spec(self.desc(), binding(self.desc(), k as int), example_of(self.desc(), k as int));
                &&& has_name(old(registry)@, name) ==> final(registry)@ == old(registry)@
                &&& !has_name(old(registry)@, name) ==> final(registry)@ == old(registry)@.push((name, body))
            },
            names_unique(old(registry)@) ==> names_unique(final(registry)@),
    {
        if self.desc.inline && self.desc.concretes.len() == 0 {
            return;
        }
        let name = self.name(k);
        if !registry.contains(&name) {
            let s = self.schema(k);
            registry.insert_if_absent(name, s);
        }
    }

    /// Reads a JSON value, possibly missing, as a value of the `k`-th type.
    pub fn parse(&self, k: usize, input: Option<Json>) -> (r: Result<Instance, ParseError>)
        requires
            k < type_count(self.desc()),
        ensures
            match parse_spec(self.desc(), binding(self.desc(), k as int), opt_json_view(input)) {
                Ok(vals) => r is Ok && r->Ok_0@ == vals,
                Err(e) => r is Err && r->Err_0@ == e,
            },
    {
        let b = self.bindings(k);
        parse(&self.desc, &b, input)
    }

    /// Writes a value of the types as a JSON object.
    pub fn serialize(&self, inst: &Instance) -> (r: Json)
        requires
            inst.values@.len() == self.desc().fields@.len(),
        ensures
            r@ == serialize_spec(self.desc(), inst@),
    {
        serialize(&self.desc, inst)
    }
}

} // verus!
