use vstd::prelude::*;
use crate::descriptor::{
    field_name, is_read_only, is_write_only, opt_json_view, DefaultValue, FieldDescriptor,
    FieldType, TypeDescriptor, Validator,
};
use vstd::string::StrSliceExecFns;
use crate::rename::rename;
use crate::json::{
    contains_key, copy_entries, entries_view, lemma_entries_view_index, lemma_entries_view_len, lookup, put, put_all,
    put_entries, put_entry, remove_key, without, Entries, Json, JsonV,
};

verus! {

/// Why one field's value was refused.
#[derive(Clone, Copy, Debug, PartialEq, Eq, Structural)]
pub enum FieldFault {
    /// The value is not of the field's type (or is missing where the type needs one).
    ExpectedType,
    /// The value breaks this constraint.
    Invalid(Validator),
}

/// Why an object could not be parsed.
#[derive(Debug)]
pub enum ParseError {
    /// The input is neither an object nor empty.
    ExpectedType,
    /// The input holds a read-only field under this key.
    ReadOnlyViolation(String),
    /// Unknown fields are denied and the input holds this key.
    UnknownField(String),
    /// The field under this key was refused.
    FieldError(String, FieldFault),
}

pub enum ParseErrorV {
    ExpectedType,
    ReadOnlyViolation(Seq<char>),
    UnknownField(Seq<char>),
    FieldError(Seq<char>, FieldFault),
}

impl View for ParseError {
    type V = ParseErrorV;

    open spec fn view(&self) -> ParseErrorV {
        match *self {
            ParseError::ExpectedType => ParseErrorV::ExpectedType,
            ParseError::ReadOnlyViolation(k) => ParseErrorV::ReadOnlyViolation(k@),
            ParseError::UnknownField(k) => ParseErrorV::UnknownField(k@),
            ParseError::FieldError(k, f) => ParseErrorV::FieldError(k@, f),
        }
    }
}

/// A value of a record type: one value per field, in declaration order.
pub struct Instance {
    pub values: Vec<Json>,
}

pub open spec fn values_view(s: Seq<Json>) -> Seq<JsonV> {
    s.map_values(|j: Json| j@)
}

impl View for Instance {
    type V = Seq<JsonV>;

    open spec fn view(&self) -> Seq<JsonV> {
        values_view(self.values@)
    }
}

/// The type that `t` stands for under the binding `b` of type parameters.
pub open spec fn bound_type(t: FieldType, b: Seq<FieldType>) -> FieldType {
    match t {
        FieldType::Param(p) => if p < b.len() {
            b[p as int]
        } else {
            t
        },
        _ => t,
    }
}

/// The zero value of a field's type.
pub open spec fn zero_value(f: FieldDescriptor, b: Seq<FieldType>) -> JsonV {
    if f.optional {
        JsonV::Null
    } else {
        match bound_type(f.ty, b) {
            FieldType::Int => JsonV::Int(0),
            FieldType::Bool => JsonV::Bool(false),
            FieldType::Str => JsonV::Str(Seq::empty()),
            FieldType::Array => JsonV::Array(Seq::empty()),
            FieldType::Object => JsonV::Object(Seq::empty()),
            FieldType::Param(_) => JsonV::Null,
        }
    }
}

/// What the field takes in place of a missing value, if it has a default.
pub open spec fn default_of(f: FieldDescriptor, b: Seq<FieldType>) -> Option<JsonV> {
    match f.default {
        None => None,
        Some(DefaultValue::Zero) => Some(zero_value(f, b)),
        Some(DefaultValue::Factory(j)) => Some(j@),
    }
}

/// Whether `v` is a value of the type (`Null` standing for an empty optional).
pub open spec fn fits(ty: FieldType, optional: bool, v: JsonV) -> bool {
    match v {
        JsonV::Null => optional,
        JsonV::Int(n) => ty == FieldType::Int && i64::MIN <= n <= i64::MAX,
        JsonV::Bool(_) => ty == FieldType::Bool,
        JsonV::Str(_) => ty == FieldType::Str,
        JsonV::Array(_) => ty == FieldType::Array,
        JsonV::Object(_) => ty == FieldType::Object,
    }
}

/// The type's own parse rule on a value that may be missing.
pub open spec fn parse_value(ty: FieldType, optional: bool, v: Option<JsonV>) -> Result<JsonV, FieldFault> {
    let j = match v {
        Some(j) => j,
        None => JsonV::Null,
    };
    if fits(ty, optional, j) {
        Ok(j)
    } else {
        Err(FieldFault::ExpectedType)
    }
}

/// Whether `v` meets the constraint; a constraint on another kind of value holds.
pub open spec fn satisfies(c: Validator, v: JsonV) -> bool {
    match c {
        Validator::MinLength(n) => match v {
            JsonV::Str(s) => s.len() >= n,
            _ => true,
        },
        Validator::MaxLength(n) => match v {
            JsonV::Str(s) => s.len() <= n,
            _ => true,
        },
        Validator::Minimum(m) => match v {
            JsonV::Int(x) => x >= m,
            _ => true,
        },
        Validator::Maximum(m) => match v {
            JsonV::Int(x) => x <= m,
            _ => true,
        },
    }
}

/// The first constraint, in declaration order, that `v` breaks.
pub open spec fn first_failure(cs: Seq<Validator>, v: JsonV) -> Option<Validator>
    decreases cs.len(),
{
    if cs.len() == 0 {
        None
    } else if !satisfies(cs[0], v) {
        Some(cs[0])
    } else {
        first_failure(cs.drop_first(), v)
    }
}

/// Reads one field from the working entries: its value and the entries left.
pub open spec fn field_step(d: TypeDescriptor, b: Seq<FieldType>, f: FieldDescriptor, work: Entries) -> Result<(JsonV, Entries), ParseErrorV> {
    let name = field_name(d, f);
    if f.skip {
        Ok((zero_value(f, b), work))
    } else if is_read_only(d, f) {
        if lookup(work, name) is Some {
            Err(ParseErrorV::ReadOnlyViolation(name))
        } else {
            Ok((zero_value(f, b), work))
        }
    } else if f.flatten {
        Ok((JsonV::Object(work), work))
    } else {
        let got = lookup(work, name);
        let rest = without(work, name);
        if (got is None || got == Some(JsonV::Null)) && f.default is Some {
            Ok((default_of(f, b)->0, rest))
        } else {
            match parse_value(bound_type(f.ty, b), f.optional, got) {
                Err(fault) => Err(ParseErrorV::FieldError(name, fault)),
                Ok(v) => match first_failure(f.validators@, v) {
                    Some(c) => Err(ParseErrorV::FieldError(name, FieldFault::Invalid(c))),
                    None => Ok((v, rest)),
                },
            }
        }
    }
}

/// The first `i` fields read from `start`: their values and the entries left.
pub open spec fn parse_prefix(d: TypeDescriptor, b: Seq<FieldType>, i: nat, start: Entries) -> Result<(Seq<JsonV>, Entries), ParseErrorV>
    decreases i,
{
    if i == 0 {
        Ok((Seq::empty(), start))
    } else {
        match parse_prefix(d, b, (i - 1) as nat, start) {
            Err(e) => Err(e),
            Ok((vals, work)) => match field_step(d, b, d.fields@[i - 1], work) {
                Err(e) => Err(e),
                Ok((v, rest)) => Ok((vals.push(v), rest)),
            },
        }
    }
}

/// An object's entries read as a value of `d`.
pub open spec fn parse_entries(d: TypeDescriptor, b: Seq<FieldType>, start: Entries) -> Result<Seq<JsonV>, ParseErrorV> {
    match parse_prefix(d, b, d.fields@.len(), start) {
        Err(e) => Err(e),
        Ok((vals, rest)) => if d.deny_unknown_fields && rest.len() > 0 {
            Err(ParseErrorV::UnknownField(rest[0].0))
        } else {
            Ok(vals)
        },
    }
}

/// A JSON value, possibly missing, read as a value of `d`.
pub open spec fn parse_spec(d: TypeDescriptor, b: Seq<FieldType>, input: Option<JsonV>) -> Result<Seq<JsonV>, ParseErrorV> {
    match input {
        None => parse_entries(d, b, Seq::empty()),
        Some(JsonV::Null) => parse_entries(d, b, Seq::empty()),
        Some(JsonV::Object(e)) => parse_entries(d, b, e),
        Some(_) => Err(ParseErrorV::ExpectedType),
    }
}


pub proof fn lemma_values_view_push(s: Seq<Json>, x: Json)
    ensures
        values_view(s.push(x)) == values_view(s).push(x@),
{
    assert(values_view(s.push(x)) =~= values_view(s).push(x@));
}

/// The key under which the field is read and written.
pub fn name_of(d: &TypeDescriptor, f: &FieldDescriptor) -> (r: String)
    ensures
        r@ == field_name(*d, *f),
{
    match &f.rename {
        Some(n) => n.clone(),
        None => match d.rename_all {
            Some(rule) => rename(rule, &f.ident),
            None => f.ident.clone(),
        },
    }
}

/// The type that `t` stands for under the binding `b`.
pub fn bind_type(t: FieldType, b: &Vec<FieldType>) -> (r: FieldType)
    ensures
        r == bound_type(t, b@),
{
    match t {
        FieldType::Param(p) => if p < b.len() {
            b[p]
        } else {
            t
        },
        _ => t,
    }
}

/// The zero value of the field's type.
pub fn zero_of(f: &FieldDescriptor, b: &Vec<FieldType>) -> (r: Json)
    ensures
        r@ == zero_value(*f, b@),
{
    if f.optional {
        Json::Null
    } else {
        match bind_type(f.ty, b) {
            FieldType::Int => Json::Int(0),
            FieldType::Bool => Json::Bool(false),
            FieldType::Str => Json::Str(String::new()),
            FieldType::Array => Json::Array(Vec::new()),
            FieldType::Object => Json::Object(Vec::new()),
            FieldType::Param(_) => Json::Null,
        }
    }
}

/// The field's default value, if it has one.
pub fn default_value_of(f: &FieldDescriptor, b: &Vec<FieldType>) -> (r: Option<Json>)
    ensures
        opt_json_view(r) == default_of(*f, b@),
{
    match &f.default {
        None => None,
        Some(DefaultValue::Zero) => Some(zero_of(f, b)),
        Some(DefaultValue::Factory(j)) => Some(j.copy()),
    }
}

/// Whether `v` is a value of the type.
pub fn value_fits(ty: FieldType, optional: bool, v: &Json) -> (r: bool)
    ensures
        r == fits(ty, optional, v@),
{
    match v {
        Json::Null => optional,
        Json::Int(_) => ty == FieldType::Int,
        Json::Bool(_) => ty == FieldType::Bool,
        Json::Str(_) => ty == FieldType::Str,
        Json::Array(_) => ty == FieldType::Array,
        Json::Object(_) => ty == FieldType::Object,
    }
}

/// Whether `v` meets the constraint.
pub fn check_one(c: Validator, v: &Json) -> (r: bool)
    ensures
        r == satisfies(c, v@),
{
    match (c, v) {
        (Validator::MinLength(n), Json::Str(s)) => s.as_str().unicode_len() as u64 >= n,
        (Validator::MaxLength(n), Json::Str(s)) => s.as_str().unicode_len() as u64 <= n,
        (Validator::Minimum(m), Json::Int(x)) => *x >= m,
        (Validator::Maximum(m), Json::Int(x)) => *x <= m,
        _ => true,
    }
}

/// The first constraint, in declaration order, that `v` breaks.
pub fn check_validators(cs: &Vec<Validator>, v: &Json) -> (r: Option<Validator>)
    ensures
        r == first_failure(cs@, v@),
{
    let mut i: usize = 0;
    assert(cs@.skip(0) =~= cs@);
    while i < cs.len()
        invariant
            i <= cs@.len(),
            first_failure(cs@, v@) == first_failure(cs@.skip(i as int), v@),
        decreases cs.len() - i,
    {
        assert(cs@.skip(i as int).drop_first() =~= cs@.skip(i + 1));
        assert(cs@.skip(i as int)[0] == cs@[i as int]);
        if !check_one(cs[i], v) {
            return Some(cs[i]);
        }
        i += 1;
    }
    assert(cs@.skip(i as int).len() == 0);
    None
}

/// Reads one field from the working entries.
pub fn read_field(d: &TypeDescriptor, b: &Vec<FieldType>, f: &FieldDescriptor, work: Vec<(String, Json)>) -> (r: Result<(Json, Vec<(String, Json)>), ParseError>)
    ensures
        match field_step(*d, b@, *f, entries_view(work@)) {
            Ok((v, rest)) => r is Ok && r->Ok_0.0@ == v && entries_view(r->Ok_0.1@) == rest,
            Err(e) => r is Err && r->Err_0@ == e,
        },
{
    if f.skip {
        return Ok((zero_of(f, b), work));
    }
    let name = name_of(d, f);
    if d.read_only_all || f.read_only {
        if contains_key(&work, &name) {
            return Err(ParseError::ReadOnlyViolation(name));
        }
        return Ok((zero_of(f, b), work));
    }
    if f.flatten {
        let copy = copy_entries(&work);
        return Ok((Json::Object(copy), work));
    }
    let (rest, got) = remove_key(&work, &name);
    let absent = match &got {
        None => true,
        Some(Json::Null) => true,
        Some(_) => false,
    };
    if absent && f.default.is_some() {
        let dv = default_value_of(f, b);
        match dv {
            Some(v) => {
                return Ok((v, rest));
            },
            None => {
                return Err(ParseError::ExpectedType);
            },
        }
    }
    let value = match got {
        Some(v) => v,
        None => Json::Null,
    };
    if !value_fits(bind_type(f.ty, b), f.optional, &value) {
        return Err(ParseError::FieldError(name, FieldFault::ExpectedType));
    }
    match check_validators(&f.validators, &value) {
        Some(c) => Err(ParseError::FieldError(name, FieldFault::Invalid(c))),
        None => Ok((value, rest)),
    }
}

pub proof fn lemma_prefix_err_stays(d: TypeDescriptor, b: Seq<FieldType>, i: nat, j: nat, start: Entries)
    requires
        i <= j,
        parse_prefix(d, b, i, start) is Err,
    ensures
        parse_prefix(d, b, j, start) == parse_prefix(d, b, i, start),
    decreases j - i,
{
    if i < j {
        lemma_prefix_err_stays(d, b, i, (j - 1) as nat, start);
    }
}

/// Reads an object's entries as a value of `d`.
pub fn parse_object(d: &TypeDescriptor, b: &Vec<FieldType>, entries: Vec<(String, Json)>) -> (r: Result<Instance, ParseError>)
    ensures
        match parse_entries(*d, b@, entries_view(entries@)) {
            Ok(vals) => r is Ok && r->Ok_0@ == vals,
            Err(e) => r is Err && r->Err_0@ == e,
        },
{
    let ghost start = entries_view(entries@);
    let mut work = entries;
    let mut values: Vec<Json> = Vec::new();
    let mut i: usize = 0;
    assert(values_view(values@) =~= Seq::<JsonV>::empty());
    while i < d.fields.len()
        invariant
            i <= d.fields@.len(),
            start == entries_view(entries@),
            parse_prefix(*d, b@, i as nat, start) == Ok::<(Seq<JsonV>, Entries), ParseErrorV>((values_view(values@), entries_view(work@))),
        decreases d.fields.len() - i,
    {
        let res = read_field(d, b, &d.fields[i], work);
        match res {
            Err(e) => {
                proof {
                    assert(parse_prefix(*d, b@, (i + 1) as nat, start) == Err::<(Seq<JsonV>, Entries), ParseErrorV>(e@));
                    lemma_prefix_err_stays(*d, b@, (i + 1) as nat, d.fields@.len(), start);
                    assert(parse_entries(*d, b@, start) == Err::<Seq<JsonV>, ParseErrorV>(e@));
                }
                return Err(e);
            },
            Ok((v, rest)) => {
                proof {
                    lemma_values_view_push(values@, v);
                }
                values.push(v);
                work = rest;
            },
        }
        i += 1;
    }
    if d.deny_unknown_fields && work.len() > 0 {
        proof {
            lemma_entries_view_index(work@, 0);
        }
        return Err(ParseError::UnknownField(work[0].0.clone()));
    }
    proof {
        lemma_entries_view_len(work@);
    }
    Ok(Instance { values })
}

/// Reads a JSON value, possibly missing, as a value of `d` with its type
/// parameters bound by `b`. A missing value
/// and `null` read as the empty object.
pub fn parse(d: &TypeDescriptor, b: &Vec<FieldType>, input: Option<Json>) -> (r: Result<Instance, ParseError>)
    ensures
        match parse_spec(*d, b@, opt_json_view(input)) {
            Ok(vals) => r is Ok && r->Ok_0@ == vals,
            Err(e) => r is Err && r->Err_0@ == e,
        },
{
    match input {
        None => parse_object(d, b, Vec::new()),
        Some(Json::Null) => parse_object(d, b, Vec::new()),
        Some(Json::Object(e)) => parse_object(d, b, e),
        Some(_) => Err(ParseError::ExpectedType),
    }
}


/// The entries written for the first `i` fields of `vals`.
pub open spec fn emit_prefix(d: TypeDescriptor, vals: Seq<JsonV>, i: nat) -> Entries
    decreases i,
{
    if i == 0 {
        Seq::empty()
    } else {
        let out = emit_prefix(d, vals, (i - 1) as nat);
        let f = d.fields@[i - 1];
        let v = vals[i - 1];
        if f.skip || is_write_only(d, f) {
            out
        } else if f.flatten {
            match v {
                JsonV::Object(e) => put_all(out, e),
                _ => out,
            }
        } else if v == JsonV::Null {
            out
        } else {
            put(out, field_name(d, f), v)
        }
    }
}

/// The JSON object written for a value of `d`.
pub open spec fn serialize_spec(d: TypeDescriptor, vals: Seq<JsonV>) -> JsonV {
    JsonV::Object(emit_prefix(d, vals, d.fields@.len()))
}

/// Writes a value of `d` as a JSON object. Skipped and write-only fields are
/// left out, and so are empty optional ones; a flattened field's entries are
/// merged in, a later field overwriting an earlier one under the same key.
pub fn serialize(d: &TypeDescriptor, inst: &Instance) -> (r: Json)
    requires
        inst.values@.len() == d.fields@.len(),
    ensures
        r@ == serialize_spec(*d, inst@),
{
    let mut out: Vec<(String, Json)> = Vec::new();
    let mut i: usize = 0;
    while i < d.fields.len()
        invariant
            i <= d.fields@.len(),
            inst.values@.len() == d.fields@.len(),
            entries_view(out@) == emit_prefix(*d, inst@, i as nat),
        decreases d.fields.len() - i,
    {
        let f = &d.fields[i];
        let v = &inst.values[i];
        if f.skip || d.write_only_all || f.write_only {
        } else if f.flatten {
            match v {
                Json::Object(e) => put_entries(&mut out, e),
                _ => {},
            }
        } else {
            match v {
                Json::Null => {},
                _ => put_entry(&mut out, name_of(d, f), v.copy()),
            }
        }
        i += 1;
    }
    Json::Object(out)
}

} // verus!
