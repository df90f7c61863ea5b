use tailcall::blueprint::{update_cache, Expression, FieldDefinition};
use tailcall::config::{CacheDirective, Config, Field, Type};
use tailcall::strmap::StrMap;

fn setup() -> (Config, Type) {
    (Config { types: StrMap::new(), enums: StrMap::new() }, Type { fields: StrMap::new(), doc: None })
}

fn def(resolver: Option<Expression>) -> FieldDefinition {
    FieldDefinition { name: "user".to_string(), of_type: "User".to_string(), resolver }
}

#[test]
fn update_cache_wraps_the_resolver() {
    let (c, t) = setup();
    let f = Field { type_of: "User".to_string(), cache: CacheDirective::new(60) };
    let out = update_cache(&c, &f, &t, "user", def(Some(Expression::Resolver("http".to_string())))).unwrap();
    assert_eq!(out.name, "user");
    assert_eq!(out.of_type, "User");
    match out.resolver {
        Some(Expression::Cache(cache)) => {
            assert_eq!(cache.max_age, 60);
            match *cache.expr {
                Expression::Resolver(r) => assert_eq!(r, "http"),
                _ => panic!("wrong inner expression"),
            }
        },
        _ => panic!("not cached"),
    }
}

#[test]
fn update_cache_without_directive_keeps_the_resolver() {
    let (c, t) = setup();
    let f = Field { type_of: "User".to_string(), cache: None };
    let out = update_cache(&c, &f, &t, "user", def(Some(Expression::Resolver("http".to_string())))).unwrap();
    match out.resolver {
        Some(Expression::Resolver(r)) => assert_eq!(r, "http"),
        _ => panic!("changed"),
    }
}

#[test]
fn update_cache_without_resolver_adds_none() {
    let (c, t) = setup();
    let f = Field { type_of: "User".to_string(), cache: CacheDirective::new(5) };
    let out = update_cache(&c, &f, &t, "user", def(None)).unwrap();
    assert!(out.resolver.is_none());
}

#[test]
fn update_cache_twice_wraps_twice() {
    let (c, t) = setup();
    let f = Field { type_of: "User".to_string(), cache: CacheDirective::new(7) };
    let once = update_cache(&c, &f, &t, "user", def(Some(Expression::Resolver("r".to_string())))).unwrap();
    let twice = update_cache(&c, &f, &t, "user", once).unwrap();
    match twice.resolver {
        Some(Expression::Cache(outer)) => assert!(matches!(*outer.expr, Expression::Cache(_))),
        _ => panic!("not cached"),
    }
}

#[test]
fn cache_directive_refuses_zero() {
    assert!(CacheDirective::new(0).is_none());
    assert_eq!(CacheDirective::new(3).unwrap().max_age(), 3);
}
