use tailcall::config::{Config, Enum, Field, Type};
use tailcall::lint::{is_enum, is_type, Lint};
use tailcall::strmap::{StrMap, StrSet};

fn field(type_of: &str) -> Field {
    Field { type_of: type_of.to_string(), cache: None }
}

fn ty(fields: &[&str], doc: Option<&str>) -> Type {
    let mut m = StrMap::new();
    for f in fields {
        m.insert(f.to_string(), field("String"));
    }
    Type { fields: m, doc: doc.map(|d| d.to_string()) }
}

fn en(variants: &[&str]) -> Enum {
    let mut s = StrSet::new();
    for v in variants {
        s.insert(v.to_string());
    }
    Enum { variants: s, doc: None }
}

fn config(types: Vec<(&str, Type)>, enums: Vec<(&str, Enum)>) -> Config {
    let mut t = StrMap::new();
    for (n, v) in types {
        t.insert(n.to_string(), v);
    }
    let mut e = StrMap::new();
    for (n, v) in enums {
        e.insert(n.to_string(), v);
    }
    Config { types: t, enums: e }
}

fn lint(auto_fix: Option<bool>) -> Lint {
    Lint { auto_fix, enum_lint: None, enum_value_lint: None, field_lint: None, type_lint: None }
}

fn type_names(c: &Config) -> Vec<String> {
    c.types.entries().iter().map(|(k, _)| k.clone()).collect()
}

fn field_names(t: &Type) -> Vec<String> {
    t.fields.entries().iter().map(|(k, _)| k.clone()).collect()
}

#[test]
fn lint_default_turns_everything_on() {
    let l = Lint::default();
    assert_eq!(l.auto_fix, Some(true));
    assert_eq!(l.enum_lint, Some(true));
    assert_eq!(l.enum_value_lint, Some(true));
    assert_eq!(l.field_lint, Some(true));
    assert_eq!(l.type_lint, Some(true));
}

#[test]
fn lint_auto_fix_renames_every_wrong_name() {
    let c = config(
        vec![("foo_bar", ty(&["Some_field", "okField"], Some("d")))],
        vec![("color", en(&["red", "Green", "BLUE"]))],
    );
    let out = Lint::default().lint(c).unwrap();
    assert_eq!(type_names(&out), vec!["FooBar".to_string()]);
    let t = out.types.get("FooBar").unwrap();
    assert_eq!(field_names(t), vec!["okField".to_string(), "someField".to_string()]);
    assert_eq!(t.doc, Some("d".to_string()));
    let e = out.enums.get("Color").unwrap();
    let mut vs: Vec<String> = Vec::new();
    for v in ["BLUE", "GREEN", "RED"] {
        assert!(e.variants.contains(v));
        vs.push(v.to_string());
    }
    assert_eq!(e.variants.len(), 3);
    assert!(!out.types.contains_key("foo_bar"));
}

#[test]
fn lint_without_auto_fix_gathers_messages_in_name_order() {
    let c = config(
        vec![("bad_type", ty(&["Bad_Field"], None)), ("Good", ty(&["bad_field", "fine"], None))],
        vec![("Status", en(&["ok", "FAILED"]))],
    );
    let err = lint(None).lint(c).err().unwrap();
    let expected = vec![
        "Field name {field_name} of {type_name} should be camelCase, you can use @modify to correct it.",
        "Type name {type_name} should be PascalCase, you can use @modify to correct it.",
        "Field name {field_name} of {type_name} should be camelCase, you can use @modify to correct it.",
        "Enum value {variant} of {enum_name} should be ALL_CAPS, you can use @modify to correct it.",
    ];
    let got: Vec<&str> = err.causes().iter().map(|s| s.as_str()).collect();
    assert_eq!(got, expected);
}

#[test]
fn lint_enum_name_message() {
    let c = config(vec![], vec![("status", en(&["OK"]))]);
    let err = lint(Some(false)).lint(c).err().unwrap();
    let got: Vec<&str> = err.causes().iter().map(|s| s.as_str()).collect();
    assert_eq!(got, vec!["Enum name {enum_name} should be PascalCase, you can use @modify to correct it."]);
}

#[test]
fn lint_checks_off_keep_names() {
    let c = config(vec![("bad_type", ty(&["Bad_Field"], None))], vec![("status", en(&["ok"]))]);
    let l = Lint {
        auto_fix: Some(false),
        enum_lint: Some(false),
        enum_value_lint: Some(false),
        field_lint: Some(false),
        type_lint: Some(false),
    };
    let out = l.lint(c).unwrap();
    assert_eq!(type_names(&out), vec!["bad_type".to_string()]);
    assert_eq!(field_names(out.types.get("bad_type").unwrap()), vec!["Bad_Field".to_string()]);
    assert!(out.enums.get("status").unwrap().variants.contains("ok"));
}

#[test]
fn lint_passing_config_comes_back_unchanged() {
    let c = config(
        vec![("Query", ty(&["user", "posts"], Some("root"))), ("User", ty(&["id"], None))],
        vec![("Role", en(&["ADMIN", "GUEST"]))],
    );
    let out = lint(Some(false)).lint(c).unwrap();
    assert_eq!(type_names(&out), vec!["Query".to_string(), "User".to_string()]);
    assert_eq!(field_names(out.types.get("Query").unwrap()), vec!["posts".to_string(), "user".to_string()]);
    assert_eq!(out.types.get("Query").unwrap().doc, Some("root".to_string()));
    let r = out.enums.get("Role").unwrap();
    assert!(r.variants.contains("ADMIN") && r.variants.contains("GUEST"));
    assert_eq!(r.variants.len(), 2);
}

#[test]
fn lint_auto_fix_never_fails() {
    let c = config(
        vec![("a_b", ty(&["X_Y", "Z"], None)), ("c", ty(&[], None))],
        vec![("d_e", en(&["f", "g_h"]))],
    );
    assert!(lint(Some(true)).lint(c).is_ok());
}

#[test]
fn lint_check_only_fails_on_wrong_names() {
    let good = config(vec![("A", ty(&["b"], None))], vec![]);
    assert!(lint(Some(false)).lint(good).is_ok());
    let bad = config(vec![("A", ty(&["B"], None))], vec![]);
    assert_eq!(lint(Some(false)).lint(bad).err().unwrap().causes().len(), 1);
}

#[test]
fn lint_renamed_types_that_meet_keep_the_later_one() {
    // "fooBar" walks before "foo_bar"; both become "FooBar" and the later wins.
    let c = config(
        vec![("fooBar", ty(&[], Some("first"))), ("foo_bar", ty(&[], Some("second")))],
        vec![],
    );
    let out = lint(Some(true)).lint(c).unwrap();
    assert_eq!(type_names(&out), vec!["FooBar".to_string()]);
    assert_eq!(out.types.get("FooBar").unwrap().doc, Some("second".to_string()));
}

#[test]
fn is_type_and_is_enum_look_up_names() {
    let c = config(vec![("Query", ty(&[], None))], vec![("Role", en(&[]))]);
    assert!(is_type("Query", &c.types));
    assert!(!is_type("Role", &c.types));
    assert!(is_enum("Role", &c.enums));
    assert!(!is_enum("Query", &c.enums));
}

#[test]
fn lint_auto_fixed_config_lints_again_to_itself() {
    let c = config(
        vec![("foo_bar", ty(&["Some_field", "ok"], None)), ("Query", ty(&["user_name"], None))],
        vec![("color", en(&["red", "dark_blue"]))],
    );
    let l = Lint::default();
    let once = l.lint(c).unwrap();
    let types1 = type_names(&once);
    let fields1: Vec<Vec<String>> = once.types.entries().iter().map(|(_, t)| field_names(t)).collect();
    let twice = l.lint(once).unwrap();
    assert_eq!(type_names(&twice), types1);
    let fields2: Vec<Vec<String>> = twice.types.entries().iter().map(|(_, t)| field_names(t)).collect();
    assert_eq!(fields2, fields1);
    let e = twice.enums.get("Color").unwrap();
    assert!(e.variants.contains("RED") && e.variants.contains("DARK_BLUE"));
    assert_eq!(e.variants.len(), 2);
    let strict = Lint { auto_fix: Some(false), ..Lint::default() };
    let again = l.lint(twice).unwrap();
    assert!(strict.lint(again).is_ok());
}

#[test]
fn lint_settings_compare_and_clone() {
    let l = Lint::default();
    assert_eq!(l.clone(), l);
    assert_ne!(Lint { auto_fix: Some(false), ..Lint::default() }, l);
}
