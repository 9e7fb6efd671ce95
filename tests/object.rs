use openapi_object::codec::{FieldFault, Instance, ParseError};
use openapi_object::descriptor::{
    Concrete, ConfigError, DefaultValue, FieldDescriptor, FieldType, TypeDescriptor, Validator,
};
use openapi_object::json::Json;
use openapi_object::object::{compile, ObjectType, SchemaRef};
use openapi_object::registry::Registry;
use openapi_object::rename::{rename, RenameRule};

fn s(x: &str) -> String {
    x.to_string()
}

fn field(name: &str, ty: FieldType) -> FieldDescriptor {
    FieldDescriptor {
        ident: s(name),
        rename: None,
        ty,
        optional: false,
        default: None,
        read_only: false,
        write_only: false,
        flatten: false,
        skip: false,
        validators: Vec::new(),
        description: None,
    }
}

fn desc(name: &str, fields: Vec<FieldDescriptor>) -> TypeDescriptor {
    TypeDescriptor {
        ident: s(name),
        rename: None,
        rename_all: None,
        description: None,
        deprecated: false,
        external_docs: None,
        read_only_all: false,
        write_only_all: false,
        deny_unknown_fields: false,
        inline: false,
        example: None,
        concretes: Vec::new(),
        fields,
    }
}

fn obj(entries: Vec<(&str, Json)>) -> Json {
    Json::Object(entries.into_iter().map(|(k, v)| (s(k), v)).collect())
}

fn text(x: &str) -> Json {
    Json::Str(s(x))
}

fn same(a: &Json, b: &Json) -> bool {
    match (a, b) {
        (Json::Null, Json::Null) => true,
        (Json::Bool(x), Json::Bool(y)) => x == y,
        (Json::Int(x), Json::Int(y)) => x == y,
        (Json::Str(x), Json::Str(y)) => x == y,
        (Json::Array(x), Json::Array(y)) => x.len() == y.len() && x.iter().zip(y.iter()).all(|(p, q)| same(p, q)),
        (Json::Object(x), Json::Object(y)) => {
            x.len() == y.len() && x.iter().zip(y.iter()).all(|(p, q)| p.0 == q.0 && same(&p.1, &q.1))
        }
        _ => false,
    }
}

fn get<'a>(j: &'a Json, k: &str) -> Option<&'a Json> {
    match j {
        Json::Object(e) => e.iter().rev().find(|p| p.0 == k).map(|p| &p.1),
        _ => None,
    }
}

fn keys(j: &Json) -> Vec<String> {
    match j {
        Json::Object(e) => e.iter().map(|p| p.0.clone()).collect(),
        _ => Vec::new(),
    }
}

fn compiled(d: TypeDescriptor) -> ObjectType {
    match compile(d) {
        Ok(t) => t,
        Err(e) => panic!("descriptor refused: {:?}", e),
    }
}

fn parsed(t: &ObjectType, input: Option<Json>) -> Vec<Json> {
    match t.parse(0, input) {
        Ok(i) => i.values,
        Err(e) => panic!("parse failed: {:?}", e),
    }
}

fn parse_err(t: &ObjectType, input: Option<Json>) -> ParseError {
    match t.parse(0, input) {
        Ok(i) => panic!("parse succeeded: {:?}", i.values),
        Err(e) => e,
    }
}

#[test]
fn round_trip_all_field_types() {
    let mut note = field("note", FieldType::Str);
    note.optional = true;
    let t = compiled(desc(
        "Pet",
        vec![
            field("id", FieldType::Int),
            field("alive", FieldType::Bool),
            field("name", FieldType::Str),
            note,
            field("tags", FieldType::Object),
            field("scores", FieldType::Array),
        ],
    ));
    let values = vec![
        Json::Int(i64::MAX),
        Json::Bool(true),
        text("Rex"),
        Json::Null,
        obj(vec![("color", text("brown")), ("age", Json::Int(3))]),
        Json::Array(vec![Json::Int(1), text("two"), Json::Null]),
    ];
    let out = t.serialize(&Instance { values: values.iter().map(|v| copy(v)).collect() });
    assert!(get(&out, "note").is_none());
    let back = parsed(&t, Some(out));
    assert_eq!(back.len(), values.len());
    for (a, b) in back.iter().zip(values.iter()) {
        assert!(same(a, b));
    }
}

fn copy(j: &Json) -> Json {
    j.copy()
}

#[test]
fn read_only_rejected_whatever_the_value() {
    let mut f = field("f", FieldType::Int);
    f.read_only = true;
    let t = compiled(desc("R", vec![f]));
    for v in vec![Json::Int(1), Json::Null, text("x"), obj(vec![])] {
        match parse_err(&t, Some(obj(vec![("f", v)]))) {
            ParseError::ReadOnlyViolation(k) => assert_eq!(k, "f"),
            e => panic!("wrong error {:?}", e),
        }
    }
    let vals = parsed(&t, Some(obj(vec![])));
    assert!(same(&vals[0], &Json::Int(0)));
}

#[test]
fn read_only_all_applies_to_every_field() {
    let mut d = desc("R", vec![field("a", FieldType::Str)]);
    d.read_only_all = true;
    let t = compiled(d);
    assert!(matches!(parse_err(&t, Some(obj(vec![("a", text("x"))]))), ParseError::ReadOnlyViolation(_)));
}

#[test]
fn default_substitution() {
    let mut f = field("f", FieldType::Int);
    f.default = Some(DefaultValue::Zero);
    let t = compiled(desc("D", vec![f]));
    assert!(same(&parsed(&t, Some(obj(vec![])))[0], &Json::Int(0)));
    assert!(same(&parsed(&t, Some(obj(vec![("f", Json::Null)])))[0], &Json::Int(0)));
    assert!(same(&parsed(&t, Some(obj(vec![("f", Json::Int(7))])))[0], &Json::Int(7)));
}

#[test]
fn factory_default_is_used_when_missing() {
    let mut f = field("f", FieldType::Str);
    f.default = Some(DefaultValue::Factory(text("hello")));
    let t = compiled(desc("D", vec![f]));
    assert!(same(&parsed(&t, None)[0], &text("hello")));
    assert!(same(&parsed(&t, Some(obj(vec![("f", text("x"))])))[0], &text("x")));
}

#[test]
fn unknown_fields_denied_or_dropped() {
    let mut d = desc("U", vec![field("known", FieldType::Int)]);
    d.deny_unknown_fields = true;
    let t = compiled(d);
    match parse_err(&t, Some(obj(vec![("known", Json::Int(1)), ("extra", Json::Int(1))]))) {
        ParseError::UnknownField(k) => assert_eq!(k, "extra"),
        e => panic!("wrong error {:?}", e),
    }
    let t = compiled(desc("U", vec![field("known", FieldType::Int)]));
    let vals = parsed(&t, Some(obj(vec![("known", Json::Int(1)), ("extra", Json::Int(1))])));
    assert_eq!(vals.len(), 1);
    assert!(same(&vals[0], &Json::Int(1)));
}

fn flat(name: &str) -> FieldDescriptor {
    let mut f = field(name, FieldType::Object);
    f.flatten = true;
    f
}

#[test]
fn flatten_later_field_wins_on_serialize() {
    let t = compiled(desc("F", vec![flat("extra"), field("a", FieldType::Int)]));
    let out = t.serialize(&Instance {
        values: vec![obj(vec![("a", Json::Int(1)), ("b", Json::Int(2))]), Json::Int(5)],
    });
    assert!(same(get(&out, "a").unwrap(), &Json::Int(5)));
    assert!(same(get(&out, "b").unwrap(), &Json::Int(2)));
    assert_eq!(keys(&out).len(), 2);

    let t = compiled(desc("F", vec![field("a", FieldType::Int), flat("extra")]));
    let out = t.serialize(&Instance {
        values: vec![Json::Int(5), obj(vec![("a", Json::Int(1)), ("b", Json::Int(2))])],
    });
    assert!(same(get(&out, "a").unwrap(), &Json::Int(1)));
}

#[test]
fn flatten_reads_the_remaining_object() {
    let input = obj(vec![("a", Json::Int(1)), ("b", Json::Int(2))]);
    let t = compiled(desc("F", vec![field("a", FieldType::Int), flat("extra")]));
    let vals = parsed(&t, Some(copy(&input)));
    assert!(same(&vals[1], &obj(vec![("b", Json::Int(2))])));

    let t = compiled(desc("F", vec![flat("extra"), field("a", FieldType::Int)]));
    let vals = parsed(&t, Some(input));
    assert!(same(&vals[0], &obj(vec![("a", Json::Int(1)), ("b", Json::Int(2))])));
    assert!(same(&vals[1], &Json::Int(1)));
}

fn wrapper() -> TypeDescriptor {
    let mut d = desc("Wrapper", vec![field("value", FieldType::Param(0))]);
    d.concretes = vec![
        Concrete { name: s("IntWrapper"), params: vec![FieldType::Int], example: Some(obj(vec![("value", Json::Int(1))])) },
        Concrete { name: s("StrWrapper"), params: vec![FieldType::Str], example: None },
    ];
    d
}

#[test]
fn generic_instantiations_stay_apart() {
    let t = compiled(wrapper());
    assert_eq!(t.count(), 2);
    assert_eq!(t.name(0), "IntWrapper");
    assert_eq!(t.name(1), "StrWrapper");
    let mut reg = Registry::new();
    t.register(0, &mut reg);
    t.register(1, &mut reg);
    assert_eq!(reg.len(), 2);
    assert!(reg.get(&s("IntWrapper")).unwrap().example.is_some());
    assert!(reg.get(&s("StrWrapper")).unwrap().example.is_none());
    assert_eq!(reg.get(&s("StrWrapper")).unwrap().properties[0].1.ty, FieldType::Str);
    assert!(matches!(t.schema_ref(0), SchemaRef::Reference(n) if n == "IntWrapper"));

    let json = t.serialize(&Instance { values: vec![Json::Int(3)] });
    assert!(t.parse(0, Some(copy(&json))).is_ok());
    match t.parse(1, Some(json)) {
        Err(ParseError::FieldError(k, FieldFault::ExpectedType)) => assert_eq!(k, "value"),
        other => panic!("unexpected {:?}", other.map(|i| i.values)),
    }
}

#[test]
fn write_only_never_serialized() {
    let mut f = field("secret", FieldType::Str);
    f.write_only = true;
    let t = compiled(desc("W", vec![f, field("id", FieldType::Int)]));
    for v in vec![text(""), text("pw")] {
        let out = t.serialize(&Instance { values: vec![v, Json::Int(1)] });
        assert!(get(&out, "secret").is_none());
        assert_eq!(keys(&out), vec![s("id")]);
    }
    let vals = parsed(&t, Some(obj(vec![("secret", text("pw")), ("id", Json::Int(1))])));
    assert!(same(&vals[0], &text("pw")));
}

#[test]
fn config_errors() {
    let mut f = field("f", FieldType::Int);
    f.read_only = true;
    f.write_only = true;
    assert_eq!(compile(desc("C", vec![field("a", FieldType::Int), f])).err(), Some(ConfigError::ReadAndWriteOnly(1)));

    let mut d = wrapper();
    d.inline = true;
    assert_eq!(compile(d).err(), Some(ConfigError::InlineWithConcretes));

    let mut d = wrapper();
    d.example = Some(obj(vec![]));
    assert_eq!(compile(d).err(), Some(ConfigError::ExampleWithConcretes));

    let mut f = field("f", FieldType::Int);
    f.flatten = true;
    assert_eq!(compile(desc("C", vec![f])).err(), Some(ConfigError::FlattenNotObject(0)));

    assert_eq!(compile(desc("C", vec![field("f", FieldType::Param(0))])).err(), Some(ConfigError::UnboundParam(0)));

    let mut f = field("f", FieldType::Int);
    f.read_only = true;
    f.write_only = true;
    f.skip = true;
    assert!(compile(desc("C", vec![f])).is_ok());
}

#[test]
fn input_shapes() {
    let mut f = field("f", FieldType::Int);
    f.optional = true;
    let t = compiled(desc("P", vec![f]));
    assert!(same(&parsed(&t, None)[0], &Json::Null));
    assert!(same(&parsed(&t, Some(Json::Null))[0], &Json::Null));
    assert!(matches!(parse_err(&t, Some(Json::Int(1))), ParseError::ExpectedType));
    assert!(matches!(parse_err(&t, Some(text("x"))), ParseError::ExpectedType));
}

#[test]
fn missing_required_field_fails() {
    let t = compiled(desc("P", vec![field("id", FieldType::Int)]));
    match parse_err(&t, Some(obj(vec![]))) {
        ParseError::FieldError(k, FieldFault::ExpectedType) => assert_eq!(k, "id"),
        e => panic!("wrong error {:?}", e),
    }
    match parse_err(&t, Some(obj(vec![("id", text("1"))]))) {
        ParseError::FieldError(k, FieldFault::ExpectedType) => assert_eq!(k, "id"),
        e => panic!("wrong error {:?}", e),
    }
}

#[test]
fn validators_run_in_order() {
    let mut f = field("name", FieldType::Str);
    f.validators = vec![Validator::MaxLength(5), Validator::MinLength(3)];
    let t = compiled(desc("V", vec![f]));
    match parse_err(&t, Some(obj(vec![("name", text("ab"))]))) {
        ParseError::FieldError(k, FieldFault::Invalid(c)) => {
            assert_eq!(k, "name");
            assert_eq!(c, Validator::MinLength(3));
        }
        e => panic!("wrong error {:?}", e),
    }
    match parse_err(&t, Some(obj(vec![("name", text("abcdefg"))]))) {
        ParseError::FieldError(_, FieldFault::Invalid(c)) => assert_eq!(c, Validator::MaxLength(5)),
        e => panic!("wrong error {:?}", e),
    }
    assert!(same(&parsed(&t, Some(obj(vec![("name", text("abcd"))])))[0], &text("abcd")));

    let mut g = field("n", FieldType::Int);
    g.validators = vec![Validator::Minimum(1), Validator::Maximum(10)];
    let t = compiled(desc("V", vec![g]));
    assert!(matches!(parse_err(&t, Some(obj(vec![("n", Json::Int(0))]))), ParseError::FieldError(_, FieldFault::Invalid(Validator::Minimum(1)))));
    assert!(matches!(parse_err(&t, Some(obj(vec![("n", Json::Int(11))]))), ParseError::FieldError(_, FieldFault::Invalid(Validator::Maximum(10)))));
    assert!(same(&parsed(&t, Some(obj(vec![("n", Json::Int(10))])))[0], &Json::Int(10)));
}

#[test]
fn schema_lists_required_and_properties() {
    let mut id = field("id", FieldType::Int);
    id.validators = vec![Validator::Minimum(1), Validator::Maximum(9)];
    id.description = Some(s("the id"));
    let mut name = field("name", FieldType::Str);
    name.default = Some(DefaultValue::Factory(text("anon")));
    name.rename = Some(s("displayName"));
    let mut note = field("note", FieldType::Str);
    note.optional = true;
    note.default = Some(DefaultValue::Zero);
    let mut hidden = field("hidden", FieldType::Int);
    hidden.skip = true;
    let mut d = desc("Pet", vec![id, name, note, hidden, flat("extra")]);
    d.description = Some(s("A pet"));
    d.deprecated = true;
    d.read_only_all = false;
    let t = compiled(d);
    let sc = t.schema(0);
    assert_eq!(sc.required, vec![s("id")]);
    let names: Vec<String> = sc.properties.iter().map(|p| p.0.clone()).collect();
    assert_eq!(names, vec![s("id"), s("displayName"), s("note")]);
    let id_p = &sc.properties[0].1;
    assert_eq!(id_p.minimum, Some(1));
    assert_eq!(id_p.maximum, Some(9));
    assert_eq!(id_p.description, Some(s("the id")));
    assert!(id_p.default.is_none());
    assert!(same(sc.properties[1].1.default.as_ref().unwrap(), &text("anon")));
    assert!(sc.properties[2].1.default.is_none());
    assert_eq!(sc.description, Some(s("A pet")));
    assert!(sc.deprecated);
}

#[test]
fn schema_marks_access_modes() {
    let mut a = field("a", FieldType::Int);
    a.read_only = true;
    let mut b = field("b", FieldType::Int);
    b.write_only = true;
    let t = compiled(desc("M", vec![a, b]));
    let sc = t.schema(0);
    assert!(sc.properties[0].1.read_only && !sc.properties[0].1.write_only);
    assert!(sc.properties[1].1.write_only && !sc.properties[1].1.read_only);
}

#[test]
fn register_is_idempotent_and_inline_registers_nothing() {
    let t = compiled(desc("Pet", vec![field("id", FieldType::Int)]));
    let mut reg = Registry::new();
    t.register(0, &mut reg);
    t.register(0, &mut reg);
    assert_eq!(reg.len(), 1);
    assert!(reg.contains(&s("Pet")));
    assert!(matches!(t.schema_ref(0), SchemaRef::Reference(n) if n == "Pet"));

    let mut d = desc("Pet", vec![field("id", FieldType::Int)]);
    d.inline = true;
    d.rename = Some(s("Animal"));
    let t = compiled(d);
    assert_eq!(t.name(0), "Animal");
    let mut reg = Registry::new();
    t.register(0, &mut reg);
    assert_eq!(reg.len(), 0);
    assert!(matches!(t.schema_ref(0), SchemaRef::Inline(sc) if sc.required == vec![s("id")]));
}

#[test]
fn skipped_fields_take_zero_and_are_not_written() {
    let mut f = field("cache", FieldType::Str);
    f.skip = true;
    let t = compiled(desc("S", vec![f, field("id", FieldType::Int)]));
    let vals = parsed(&t, Some(obj(vec![("cache", text("x")), ("id", Json::Int(2))])));
    assert!(same(&vals[0], &text("")));
    let out = t.serialize(&Instance { values: vec![text("x"), Json::Int(2)] });
    assert_eq!(keys(&out), vec![s("id")]);
}

#[test]
fn rename_sets_the_key() {
    let mut f = field("user_name", FieldType::Str);
    f.rename = Some(s("userName"));
    let t = compiled(desc("N", vec![f]));
    let out = t.serialize(&Instance { values: vec![text("ann")] });
    assert_eq!(keys(&out), vec![s("userName")]);
    assert!(same(&parsed(&t, Some(out))[0], &text("ann")));
}

#[test]
fn rename_rules_on_identifiers() {
    let id = s("user_name_2");
    assert_eq!(rename(RenameRule::Lower, &id), "user_name_2");
    assert_eq!(rename(RenameRule::Snake, &id), "user_name_2");
    assert_eq!(rename(RenameRule::Upper, &id), "USER_NAME_2");
    assert_eq!(rename(RenameRule::ScreamingSnake, &id), "USER_NAME_2");
    assert_eq!(rename(RenameRule::Pascal, &id), "UserName2");
    assert_eq!(rename(RenameRule::Camel, &id), "userName2");
    assert_eq!(rename(RenameRule::Kebab, &id), "user-name-2");
    assert_eq!(rename(RenameRule::ScreamingKebab, &id), "USER-NAME-2");
    assert_eq!(rename(RenameRule::Camel, &s("")), "");
    assert_eq!(rename(RenameRule::Camel, &s("_id")), "id");
}

#[test]
fn rename_all_applies_where_no_rename_is_given() {
    let mut a = field("first_name", FieldType::Str);
    a.rename = Some(s("given"));
    let mut d = desc("P", vec![a, field("last_name", FieldType::Str)]);
    d.rename_all = Some(RenameRule::Camel);
    let t = compiled(d);
    let out = t.serialize(&Instance { values: vec![text("Ann"), text("Lee")] });
    assert_eq!(keys(&out), vec![s("given"), s("lastName")]);
    let vals = parsed(&t, Some(out));
    assert!(same(&vals[1], &text("Lee")));
    assert_eq!(t.schema(0).required, vec![s("given"), s("lastName")]);
}

#[test]
fn registry_lookup_of_missing_name() {
    let reg = Registry::new();
    assert!(!reg.contains(&s("Pet")));
    assert!(reg.get(&s("Pet")).is_none());
    assert_eq!(reg.len(), 0);
}

#[test]
fn copy_keeps_nested_values() {
    let v = obj(vec![("a", Json::Array(vec![obj(vec![("b", Json::Bool(false))])])), ("c", Json::Null)]);
    assert!(same(&v.copy(), &v));
}
