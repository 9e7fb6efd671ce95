use vstd::prelude::*;
use crate::codec::{
    bound_type, field_step, first_failure, fits, parse_entries, parse_prefix, parse_spec,
    zero_value, emit_prefix, serialize_spec, FieldFault, ParseErrorV,
    lemma_prefix_err_stays,
};
use crate::descriptor::{field_name, is_read_only, is_write_only, DefaultValue, FieldType, TypeDescriptor};
use crate::json::{
    lemma_lookup_put, lemma_lookup_put_all, lemma_lookup_without, lemma_without_entries, lookup,
    without, Entries, JsonV,
};
use crate::object::{public_name, type_count};

verus! {

/// Reading more fields keeps the values read so far.
pub proof fn lemma_prefix_ok(d: TypeDescriptor, b: Seq<FieldType>, i: nat, j: nat, e: Entries)
    requires
        i <= j,
        parse_prefix(d, b, j, e) is Ok,
    ensures
        parse_prefix(d, b, i, e) is Ok,
        parse_prefix(d, b, j, e)->Ok_0.0.len() == j,
        parse_prefix(d, b, i, e)->Ok_0.0 == parse_prefix(d, b, j, e)->Ok_0.0.take(i as int),
    decreases j,
{
    if j > 0 {
        lemma_prefix_ok(d, b, (j - 1) as nat, (j - 1) as nat, e);
        if i < j {
            lemma_prefix_ok(d, b, i, (j - 1) as nat, e);
            let p = parse_prefix(d, b, (j - 1) as nat, e)->Ok_0.0;
            let q = parse_prefix(d, b, j, e)->Ok_0.0;
            assert(q.take(i as int) =~= p.take(i as int));
        } else {
            assert(parse_prefix(d, b, j, e)->Ok_0.0.take(j as int) =~= parse_prefix(d, b, j, e)->Ok_0.0);
        }
    }
}

/// The whole parse fails with the first error met, or succeeds with all values.
pub proof fn lemma_entries_from_prefix(d: TypeDescriptor, b: Seq<FieldType>, i: nat, e: Entries)
    requires
        i <= d.fields@.len(),
        parse_prefix(d, b, i, e) is Err,
    ensures
        parse_entries(d, b, e) == Err::<Seq<JsonV>, ParseErrorV>(parse_prefix(d, b, i, e)->Err_0),
{
    lemma_prefix_err_stays(d, b, i, d.fields@.len(), e);
}

/// A read-only field is never taken from the input: if the key is still in
/// the object when the field's turn comes, parsing fails with a read-only
/// violation, whatever the value under it.
pub proof fn law_read_only_rejected(d: TypeDescriptor, b: Seq<FieldType>, i: nat, e: Entries)
    requires
        i < d.fields@.len(),
        !d.fields@[i as int].skip,
        is_read_only(d, d.fields@[i as int]),
        parse_prefix(d, b, i, e) is Ok,
        lookup(parse_prefix(d, b, i, e)->Ok_0.1, field_name(d, d.fields@[i as int])) is Some,
    ensures
        parse_spec(d, b, Some(JsonV::Object(e))) == Err::<Seq<JsonV>, ParseErrorV>(
            ParseErrorV::ReadOnlyViolation(field_name(d, d.fields@[i as int])),
        ),
{
    lemma_entries_from_prefix(d, b, i + 1, e);
}

/// A field with a zero-value default takes the zero value when its key is
/// missing or `null`, and takes the given value when that value is valid.
pub proof fn law_default_substitution(d: TypeDescriptor, b: Seq<FieldType>, i: nat, e: Entries)
    requires
        i < d.fields@.len(),
        !d.fields@[i as int].skip,
        !is_read_only(d, d.fields@[i as int]),
        !d.fields@[i as int].flatten,
        d.fields@[i as int].default == Some(DefaultValue::Zero),
        parse_prefix(d, b, i, e) is Ok,
    ensures
        ({
            let f = d.fields@[i as int];
            let work = parse_prefix(d, b, i, e)->Ok_0.1;
            let got = lookup(work, field_name(d, f));
            let taken = if got is None || got == Some(JsonV::Null) {
                zero_value(f, b)
            } else {
                got->0
            };
            (got is None || got == Some(JsonV::Null) || (fits(bound_type(f.ty, b), f.optional, got->0)
                && first_failure(f.validators@, got->0) is None)) ==> {
                &&& parse_prefix(d, b, i + 1, e) is Ok
                &&& parse_prefix(d, b, i + 1, e)->Ok_0.0[i as int] == taken
                &&& parse_spec(d, b, Some(JsonV::Object(e))) is Ok ==> parse_spec(d, b, Some(JsonV::Object(e)))->Ok_0[i as int] == taken
            }
        }),
{
    let f = d.fields@[i as int];
    let work = parse_prefix(d, b, i, e)->Ok_0.1;
    let got = lookup(work, field_name(d, f));
    if got is None || got == Some(JsonV::Null) || (fits(bound_type(f.ty, b), f.optional, got->0)
        && first_failure(f.validators@, got->0) is None) {
        lemma_prefix_ok(d, b, i, i, e);
        assert(parse_prefix(d, b, i + 1, e) is Ok);
        if parse_spec(d, b, Some(JsonV::Object(e))) is Ok {
            lemma_prefix_ok(d, b, i + 1, d.fields@.len(), e);
        }
    }
}

/// Once every field is read, entries left over fail the parse when unknown
/// fields are denied and are dropped otherwise. A key that no field reads is
/// left over.
pub proof fn law_unknown_fields(d: TypeDescriptor, b: Seq<FieldType>, e: Entries, k: Seq<char>)
    requires
        parse_prefix(d, b, d.fields@.len(), e) is Ok,
    ensures
        ({
            let (vals, rest) = parse_prefix(d, b, d.fields@.len(), e)->Ok_0;
            &&& d.deny_unknown_fields && rest.len() > 0 ==> parse_spec(d, b, Some(JsonV::Object(e)))
                == Err::<Seq<JsonV>, ParseErrorV>(ParseErrorV::UnknownField(rest[0].0))
            &&& !d.deny_unknown_fields ==> parse_spec(d, b, Some(JsonV::Object(e))) == Ok::<Seq<JsonV>, ParseErrorV>(vals)
            &&& (forall|j: int| 0 <= j < d.fields@.len() ==> field_name(d, #[trigger] d.fields@[j]) != k)
                ==> lookup(rest, k) == lookup(e, k)
        }),
{
    if forall|j: int| 0 <= j < d.fields@.len() ==> field_name(d, #[trigger] d.fields@[j]) != k {
        lemma_rest_keeps(d, b, d.fields@.len(), e, k);
    }
}

proof fn lemma_rest_keeps(d: TypeDescriptor, b: Seq<FieldType>, i: nat, e: Entries, k: Seq<char>)
    requires
        i <= d.fields@.len(),
        parse_prefix(d, b, i, e) is Ok,
        forall|j: int| 0 <= j < d.fields@.len() ==> field_name(d, #[trigger] d.fields@[j]) != k,
    ensures
        lookup(parse_prefix(d, b, i, e)->Ok_0.1, k) == lookup(e, k),
    decreases i,
{
    if i > 0 {
        lemma_rest_keeps(d, b, (i - 1) as nat, e, k);
        let work = parse_prefix(d, b, (i - 1) as nat, e)->Ok_0.1;
        let f = d.fields@[i - 1];
        assert(field_name(d, f) != k);
        lemma_lookup_without(work, field_name(d, f), k);
    }
}

/// A flattened field reads the whole object as it stands when its turn
/// comes, and takes nothing out of it.
pub proof fn law_flatten_reads_all(d: TypeDescriptor, b: Seq<FieldType>, i: nat, e: Entries)
    requires
        i < d.fields@.len(),
        !d.fields@[i as int].skip,
        !is_read_only(d, d.fields@[i as int]),
        d.fields@[i as int].flatten,
        parse_prefix(d, b, i, e) is Ok,
    ensures
        ({
            let (vals, work) = parse_prefix(d, b, i, e)->Ok_0;
            parse_prefix(d, b, i + 1, e) == Ok::<(Seq<JsonV>, Entries), ParseErrorV>((vals.push(JsonV::Object(work)), work))
        }),
{
}

/// What the field with index `j` writes under the key `k`, if anything.
pub open spec fn writes(d: TypeDescriptor, vals: Seq<JsonV>, j: int, k: Seq<char>) -> Option<JsonV> {
    let f = d.fields@[j];
    let v = vals[j];
    if f.skip || is_write_only(d, f) {
        None
    } else if f.flatten {
        match v {
            JsonV::Object(e) => lookup(e, k),
            _ => None,
        }
    } else if v == JsonV::Null || field_name(d, f) != k {
        None
    } else {
        Some(v)
    }
}

/// The value under `k` written by the last of the first `m` fields that writes it.
pub open spec fn last_write(d: TypeDescriptor, vals: Seq<JsonV>, m: nat, k: Seq<char>) -> Option<JsonV>
    decreases m,
{
    if m == 0 {
        None
    } else {
        match writes(d, vals, m - 1, k) {
            Some(v) => Some(v),
            None => last_write(d, vals, (m - 1) as nat, k),
        }
    }
}

/// Keys written by several fields, flattened or declared, hold what the
/// field declared last wrote.
pub proof fn law_serialize_precedence(d: TypeDescriptor, vals: Seq<JsonV>, k: Seq<char>)
    requires
        vals.len() == d.fields@.len(),
    ensures
        lookup(serialize_spec(d, vals)->Object_0, k) == last_write(d, vals, d.fields@.len(), k),
{
    lemma_emit_lookup(d, vals, d.fields@.len(), k);
}

proof fn lemma_emit_lookup(d: TypeDescriptor, vals: Seq<JsonV>, m: nat, k: Seq<char>)
    requires
        m <= d.fields@.len(),
        vals.len() == d.fields@.len(),
    ensures
        lookup(emit_prefix(d, vals, m), k) == last_write(d, vals, m, k),
    decreases m,
{
    if m > 0 {
        lemma_emit_lookup(d, vals, (m - 1) as nat, k);
        let out = emit_prefix(d, vals, (m - 1) as nat);
        let f = d.fields@[m - 1];
        let v = vals[m - 1];
        if f.skip || is_write_only(d, f) {
        } else if f.flatten {
            match v {
                JsonV::Object(e) => lemma_lookup_put_all(out, e, k),
                _ => {},
            }
        } else if v != JsonV::Null {
            lemma_lookup_put(out, field_name(d, f), v, k);
        }
    }
}

proof fn lemma_no_write(d: TypeDescriptor, vals: Seq<JsonV>, m: nat, k: Seq<char>)
    requires
        m <= d.fields@.len(),
        forall|j: int| 0 <= j < m ==> #[trigger] writes(d, vals, j, k) is None,
    ensures
        last_write(d, vals, m, k) is None,
    decreases m,
{
    if m > 0 {
        lemma_no_write(d, vals, (m - 1) as nat, k);
    }
}

/// A write-only field never shows in the output: its key is absent unless
/// another field writes the same key.
pub proof fn law_write_only_omitted(d: TypeDescriptor, vals: Seq<JsonV>, i: int)
    requires
        vals.len() == d.fields@.len(),
        0 <= i < d.fields@.len(),
        is_write_only(d, d.fields@[i]),
        forall|j: int| 0 <= j < d.fields@.len() && j != i ==> #[trigger] writes(d, vals, j, field_name(d, d.fields@[i])) is None,
    ensures
        lookup(serialize_spec(d, vals)->Object_0, field_name(d, d.fields@[i])) is None,
{
    let k = field_name(d, d.fields@[i]);
    assert(writes(d, vals, i, k) is None);
    lemma_no_write(d, vals, d.fields@.len(), k);
    lemma_emit_lookup(d, vals, d.fields@.len(), k);
}

/// Instantiations with distinct names are distinct types, and a value that
/// fits one binding of a field's type parameter is refused under a binding
/// to another type.
pub proof fn law_instantiations_apart(
    d: TypeDescriptor,
    i: int,
    j: int,
    f: int,
    work: Entries,
)
    requires
        0 <= i < type_count(d),
        0 <= j < type_count(d),
        d.concretes@.len() > 0,
        d.concretes@[i].name@ != d.concretes@[j].name@,
        0 <= f < d.fields@.len(),
        !d.fields@[f].skip,
        !is_read_only(d, d.fields@[f]),
        !d.fields@[f].flatten,
        d.fields@[f].ty is Param,
        lookup(work, field_name(d, d.fields@[f])) is Some,
        lookup(work, field_name(d, d.fields@[f]))->0 != JsonV::Null,
        fits(bound_type(d.fields@[f].ty, d.concretes@[i].params@), d.fields@[f].optional, lookup(work, field_name(d, d.fields@[f]))->0),
        bound_type(d.fields@[f].ty, d.concretes@[i].params@) != bound_type(d.fields@[f].ty, d.concretes@[j].params@),
    ensures
        public_name(d, i) != public_name(d, j),
        field_step(d, d.concretes@[j].params@, d.fields@[f], work) == Err::<(JsonV, Entries), ParseErrorV>(
            ParseErrorV::FieldError(field_name(d, d.fields@[f]), FieldFault::ExpectedType),
        ),
{
}


/// Whether `vals` is a value of `d` that serializing and parsing back keeps:
/// every field is read-write and not flattened, skipped fields hold their
/// zero value, the others hold valid values of their type (empty only where
/// no default would replace them), and no two fields share a key.
pub open spec fn round_trippable(d: TypeDescriptor, b: Seq<FieldType>, vals: Seq<JsonV>) -> bool {
    &&& vals.len() == d.fields@.len()
    &&& forall|j: int| 0 <= j < d.fields@.len() ==> {
        let f = #[trigger] d.fields@[j];
        &&& !is_read_only(d, f)
        &&& !is_write_only(d, f)
        &&& !f.flatten
        &&& f.skip ==> vals[j] == zero_value(f, b)
        &&& !f.skip ==> fits(bound_type(f.ty, b), f.optional, vals[j])
        &&& !f.skip ==> first_failure(f.validators@, vals[j]) is None
        &&& !f.skip && vals[j] == JsonV::Null ==> f.default is None
    }
    &&& forall|j1: int, j2: int|
        0 <= j1 < d.fields@.len() && 0 <= j2 < d.fields@.len() && j1 != j2 && !d.fields@[j1].skip
            && !d.fields@[j2].skip ==> field_name(d, #[trigger] d.fields@[j1]) != field_name(d, #[trigger] d.fields@[j2])
}

proof fn lemma_last_write_single(d: TypeDescriptor, vals: Seq<JsonV>, m: nat, j: int, k: Seq<char>)
    requires
        m <= d.fields@.len(),
        0 <= j < m,
        forall|j2: int| 0 <= j2 < m && j2 != j ==> #[trigger] writes(d, vals, j2, k) is None,
    ensures
        last_write(d, vals, m, k) == writes(d, vals, j, k),
    decreases m,
{
    if j < m - 1 {
        assert(writes(d, vals, m - 1, k) is None);
        lemma_last_write_single(d, vals, (m - 1) as nat, j, k);
    } else {
        if writes(d, vals, j, k) is None {
            lemma_no_write(d, vals, (m - 1) as nat, k);
        }
    }
}

/// Every key that the first `m` fields write is the key of one of them.
proof fn lemma_emit_keys(d: TypeDescriptor, b: Seq<FieldType>, vals: Seq<JsonV>, m: nat)
    requires
        m <= d.fields@.len(),
        round_trippable(d, b, vals),
    ensures
        forall|x: (Seq<char>, JsonV)| #[trigger] emit_prefix(d, vals, m).contains(x) ==> exists|j: int|
            0 <= j < m && !d.fields@[j].skip && x.0 == field_name(d, #[trigger] d.fields@[j]),
    decreases m,
{
    if m > 0 {
        lemma_emit_keys(d, b, vals, (m - 1) as nat);
        let out = emit_prefix(d, vals, (m - 1) as nat);
        let f = d.fields@[m - 1];
        let v = vals[m - 1];
        assert(!f.flatten && !is_write_only(d, f));
        if !f.skip && v != JsonV::Null {
            let k = field_name(d, f);
            lemma_without_entries(out, k);
            assert forall|x: (Seq<char>, JsonV)| #[trigger] emit_prefix(d, vals, m).contains(x) implies exists|j: int|
                0 <= j < m && !d.fields@[j].skip && x.0 == field_name(d, #[trigger] d.fields@[j]) by {
                let w = without(out, k);
                assert(emit_prefix(d, vals, m) == w.push((k, v)));
                let t = choose|t: int| 0 <= t < w.push((k, v)).len() && w.push((k, v))[t] == x;
                if t < w.len() {
                    assert(w[t] == x);
                    assert(w.contains(x));
                    assert(out.contains(x));
                } else {
                    assert(x.0 == field_name(d, d.fields@[m - 1]));
                }
            }
        }
    }
}

/// The state after reading the first `i` fields of a serialized value.
proof fn lemma_round_trip_prefix(d: TypeDescriptor, b: Seq<FieldType>, vals: Seq<JsonV>, i: nat)
    requires
        i <= d.fields@.len(),
        round_trippable(d, b, vals),
    ensures
        parse_prefix(d, b, i, emit_prefix(d, vals, d.fields@.len())) is Ok,
        parse_prefix(d, b, i, emit_prefix(d, vals, d.fields@.len()))->Ok_0.0 == vals.take(i as int),
        forall|j: int| i <= j < d.fields@.len() && !d.fields@[j].skip ==> lookup(
            parse_prefix(d, b, i, emit_prefix(d, vals, d.fields@.len()))->Ok_0.1,
            field_name(d, #[trigger] d.fields@[j]),
        ) == writes(d, vals, j, field_name(d, d.fields@[j])),
        forall|x: (Seq<char>, JsonV)| #[trigger] parse_prefix(d, b, i, emit_prefix(d, vals, d.fields@.len()))->Ok_0.1.contains(x)
            ==> exists|j: int| i <= j < d.fields@.len() && !d.fields@[j].skip && x.0 == field_name(d, #[trigger] d.fields@[j]),
    decreases i,
{
    let n = d.fields@.len();
    let out = emit_prefix(d, vals, n);
    if i == 0 {
        assert(vals.take(0) =~= Seq::<JsonV>::empty());
        lemma_emit_keys(d, b, vals, n);
        assert forall|j: int| 0 <= j < n && !d.fields@[j].skip implies lookup(out, field_name(d, #[trigger] d.fields@[j]))
            == writes(d, vals, j, field_name(d, d.fields@[j])) by {
            let k = field_name(d, d.fields@[j]);
            assert forall|j2: int| 0 <= j2 < n && j2 != j implies #[trigger] writes(d, vals, j2, k) is None by {
                let f2 = d.fields@[j2];
                if !f2.skip {
                    assert(field_name(d, f2) != k);
                }
            }
            lemma_last_write_single(d, vals, n, j, k);
            lemma_emit_lookup(d, vals, n, k);
        }
    } else {
        let p = (i - 1) as nat;
        lemma_round_trip_prefix(d, b, vals, p);
        let work = parse_prefix(d, b, p, out)->Ok_0.1;
        let f = d.fields@[p as int];
        let v = vals[p as int];
        let k = field_name(d, f);
        assert(vals.take(i as int) =~= vals.take(p as int).push(v));
        if f.skip {
            assert(field_step(d, b, f, work) == Ok::<(JsonV, Entries), ParseErrorV>((v, work)));
            assert forall|x: (Seq<char>, JsonV)| #[trigger] work.contains(x) implies exists|j: int|
                i <= j < n && !d.fields@[j].skip && x.0 == field_name(d, #[trigger] d.fields@[j]) by {
                let j = choose|j: int| p <= j < n && !d.fields@[j].skip && x.0 == field_name(d, #[trigger] d.fields@[j]);
                assert(j != p);
            }
        } else {
            assert(lookup(work, k) == writes(d, vals, p as int, k));
            let rest = without(work, k);
            assert(field_step(d, b, f, work) == Ok::<(JsonV, Entries), ParseErrorV>((v, rest)));
            assert forall|j: int| i <= j < n && !d.fields@[j].skip implies lookup(rest, field_name(d, #[trigger] d.fields@[j]))
                == writes(d, vals, j, field_name(d, d.fields@[j])) by {
                assert(field_name(d, d.fields@[j]) != k);
                lemma_lookup_without(work, k, field_name(d, d.fields@[j]));
            }
            lemma_without_entries(work, k);
            assert forall|x: (Seq<char>, JsonV)| #[trigger] rest.contains(x) implies exists|j: int|
                i <= j < n && !d.fields@[j].skip && x.0 == field_name(d, #[trigger] d.fields@[j]) by {
                assert(work.contains(x));
                let j = choose|j: int| p <= j < n && !d.fields@[j].skip && x.0 == field_name(d, #[trigger] d.fields@[j]);
                assert(j != p);
            }
        }
    }
}

/// Serializing a value of `d` whose fields are all read-write, and parsing
/// the result back, gives the value again.
pub proof fn law_round_trip(d: TypeDescriptor, b: Seq<FieldType>, vals: Seq<JsonV>)
    requires
        round_trippable(d, b, vals),
    ensures
        parse_spec(d, b, Some(serialize_spec(d, vals))) == Ok::<Seq<JsonV>, ParseErrorV>(vals),
{
    let n = d.fields@.len();
    lemma_round_trip_prefix(d, b, vals, n);
    let rest = parse_prefix(d, b, n, emit_prefix(d, vals, n))->Ok_0.1;
    if rest.len() > 0 {
        assert(rest.contains(rest[0]));
    }
    assert(vals.take(n as int) =~= vals);
}

} // verus!
