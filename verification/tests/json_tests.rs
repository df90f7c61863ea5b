use tailcall::json::{JsonNumber, JsonObject, JsonPrimitive, JsonValue};

fn s(x: &str) -> String {
    x.to_string()
}

fn obj(entries: Vec<(&str, JsonValue)>) -> JsonValue {
    JsonValue::object(JsonObject::from_vec(entries.into_iter().map(|(k, v)| (s(k), v)).collect()))
}

fn sample() -> JsonValue {
    obj(vec![
        ("a", obj(vec![("b", JsonValue::array(vec![JsonValue::Bool(true), JsonValue::string(s("x"))]))])),
        ("n", JsonValue::Number(JsonNumber::PosInt(7))),
    ])
}

fn path(p: &[&str]) -> Vec<String> {
    p.iter().map(|x| s(x)).collect()
}

#[test]
fn get_path_walks_objects_and_arrays() {
    let v = sample();
    let r = v.get_path(&path(&["a", "b", "1"])).unwrap();
    assert_eq!(r.as_str(), Some("x"));
    assert_eq!(v.get_path(&path(&["a", "b", "0"])).unwrap().as_bool(), Some(true));
    assert_eq!(v.get_path(&path(&["n"])).unwrap().as_u64(), Some(7));
}

#[test]
fn get_path_of_no_step_is_the_value() {
    let v = sample();
    assert!(v.get_path(&path(&[])).unwrap().as_object().is_some());
}

#[test]
fn get_path_reads_indices_as_from_str_does() {
    let v = sample();
    assert_eq!(v.get_path(&path(&["a", "b", "+1"])).unwrap().as_str(), Some("x"));
    assert_eq!(v.get_path(&path(&["a", "b", "01"])).unwrap().as_str(), Some("x"));
    assert!(v.get_path(&path(&["a", "b", "-1"])).is_none());
    assert!(v.get_path(&path(&["a", "b", " 1"])).is_none());
    assert!(v.get_path(&path(&["a", "b", "+"])).is_none());
    assert!(v.get_path(&path(&["a", "b", ""])).is_none());
    assert!(v.get_path(&path(&["a", "b", "2"])).is_none());
    assert!(v.get_path(&path(&["a", "b", "99999999999999999999999"])).is_none());
}

#[test]
fn get_path_stops_at_missing_keys_and_primitives() {
    let v = sample();
    assert!(v.get_path(&path(&["z"])).is_none());
    assert!(v.get_path(&path(&["n", "0"])).is_none());
    assert!(v.get_path(&path(&["a", "b", "1", "c"])).is_none());
}

#[test]
fn get_path_concat_is_two_walks() {
    let v = sample();
    let first = v.get_path(&path(&["a"])).unwrap();
    let second = first.get_path(&path(&["b", "1"])).unwrap();
    let whole = v.get_path(&path(&["a", "b", "1"])).unwrap();
    assert_eq!(second.as_str(), whole.as_str());
}

#[test]
fn get_key_finds_the_first_entry() {
    let v = obj(vec![("k", JsonValue::Bool(true)), ("k", JsonValue::Bool(false))]);
    assert_eq!(v.get_key("k").unwrap().as_bool(), Some(true));
    assert!(v.get_key("other").is_none());
    assert!(JsonValue::null().get_key("k").is_none());
}

#[test]
fn insert_key_replaces_first_or_appends() {
    let mut o = JsonObject::new();
    assert!(o.is_empty());
    o.insert_key(s("a"), JsonValue::Bool(true));
    o.insert_key(s("b"), JsonValue::Bool(true));
    o.insert_key(s("a"), JsonValue::Bool(false));
    assert_eq!(o.len(), 2);
    assert_eq!(o.get_key("a").unwrap().as_bool(), Some(false));
    assert_eq!(o.get_key("b").unwrap().as_bool(), Some(true));
    let keys: Vec<&str> = o.iter().iter().map(|(k, _)| k.as_str()).collect();
    assert_eq!(keys, vec!["a", "b"]);
}

#[test]
fn insert_then_find_and_other_keys_kept() {
    let mut o = JsonObject::with_capacity(4);
    o.insert_key(s("x"), JsonValue::string(s("1")));
    o.insert_key(s("y"), JsonValue::string(s("2")));
    o.insert_key(s("x"), JsonValue::string(s("3")));
    assert_eq!(o.get_key("x").unwrap().as_str(), Some("3"));
    assert_eq!(o.get_key("y").unwrap().as_str(), Some("2"));
}

#[test]
fn from_primitive_makes_integers_as_the_borrowed_value_does() {
    match JsonValue::from_primitive(JsonPrimitive::Number(JsonNumber::PosInt(5))) {
        JsonValue::Number(n) => assert_eq!(n, JsonNumber::NegInt(5)),
        _ => panic!("not a number"),
    }
    match JsonValue::from_primitive(JsonPrimitive::Number(JsonNumber::PosInt(u64::MAX))) {
        JsonValue::Number(n) => assert_eq!(n, JsonNumber::PosInt(u64::MAX)),
        _ => panic!("not a number"),
    }
    match JsonValue::from_primitive(JsonPrimitive::Number(JsonNumber::NegInt(-3))) {
        JsonValue::Number(n) => assert_eq!(n, JsonNumber::NegInt(-3)),
        _ => panic!("not a number"),
    }
    let bits = 2.5f64.to_bits();
    match JsonValue::from_primitive(JsonPrimitive::Number(JsonNumber::Float(bits))) {
        JsonValue::Number(n) => assert_eq!(n, JsonNumber::Float(bits)),
        _ => panic!("not a number"),
    }
    assert!(JsonValue::from_primitive(JsonPrimitive::Null).is_null());
    assert_eq!(JsonValue::from_primitive(JsonPrimitive::Bool(true)).as_bool(), Some(true));
    assert_eq!(JsonValue::from_primitive(JsonPrimitive::Str(s("q"))).as_str(), Some("q"));
}

#[test]
fn as_primitive_gives_numbers_as_serde_json_holds_them() {
    match JsonValue::Number(JsonNumber::NegInt(5)).as_primitive() {
        Some(JsonPrimitive::Number(n)) => assert_eq!(n, JsonNumber::PosInt(5)),
        _ => panic!("not a number"),
    }
    match JsonValue::Number(JsonNumber::NegInt(-5)).as_primitive() {
        Some(JsonPrimitive::Number(n)) => assert_eq!(n, JsonNumber::NegInt(-5)),
        _ => panic!("not a number"),
    }
    assert!(JsonValue::array(vec![]).as_primitive().is_none());
    assert!(obj(vec![]).as_primitive().is_none());
    assert!(matches!(JsonValue::null().as_primitive(), Some(JsonPrimitive::Null)));
}

#[test]
fn primitive_round_trip() {
    let prims = vec![
        JsonPrimitive::Number(JsonNumber::PosInt(5)),
        JsonPrimitive::Number(JsonNumber::PosInt(u64::MAX)),
        JsonPrimitive::Number(JsonNumber::NegInt(-9)),
        JsonPrimitive::Number(JsonNumber::Float(1.5f64.to_bits())),
    ];
    for p in prims {
        let n = match &p {
            JsonPrimitive::Number(n) => *n,
            _ => unreachable!(),
        };
        match JsonValue::from_primitive(p).as_primitive() {
            Some(JsonPrimitive::Number(m)) => assert_eq!(m, n),
            _ => panic!("not a number"),
        }
    }
    match JsonValue::from_primitive(JsonPrimitive::Str(s("t"))).as_primitive() {
        Some(JsonPrimitive::Str(t)) => assert_eq!(t, "t"),
        _ => panic!("not a string"),
    }
}

#[test]
fn number_accessors() {
    assert_eq!(JsonNumber::PosInt(1 << 63).as_i64(), None);
    assert_eq!(JsonNumber::PosInt(12).as_i64(), Some(12));
    assert_eq!(JsonNumber::NegInt(-1).as_u64(), None);
    assert_eq!(JsonNumber::Float(0).as_i64(), None);
    assert_eq!(JsonValue::Number(JsonNumber::NegInt(-2)).as_i64(), Some(-2));
    assert_eq!(JsonValue::Bool(true).as_i64(), None);
    assert_eq!(JsonValue::Bool(true).as_u64(), None);
    assert_eq!(JsonValue::null().as_bool(), None);
    assert!(!JsonValue::Bool(false).is_null());
}

#[test]
fn array_and_object_access() {
    let mut v = JsonValue::array(vec![JsonValue::null()]);
    v.as_array_mut().unwrap().push(JsonValue::Bool(true));
    assert_eq!(v.as_array().unwrap().len(), 2);
    assert!(v.as_object().is_none());
    assert_eq!(v.into_array().unwrap().len(), 2);
    let mut o = obj(vec![]);
    o.as_object_mut().unwrap().insert_key(s("k"), JsonValue::null());
    assert!(o.as_array_mut().is_none());
    assert_eq!(o.into_object().unwrap().len(), 1);
    assert!(JsonValue::null().into_array().is_none());
    assert!(JsonValue::null().into_object().is_none());
}
