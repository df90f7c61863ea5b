//! Field definitions of the blueprint and the operator that puts a cache in
//! front of a field's resolver.
use vstd::prelude::*;
use crate::config::{Config, Field, Type};
use crate::valid::ValidationError;

verus! {

/// A resolver expression.
#[derive(Debug)]
pub enum Expression {
    /// A resolver that is not a cache, named by what it resolves.
    Resolver(String),
    /// A resolver whose results are kept for a while.
    Cache(Cache),
}

/// A cache in front of an expression.
#[derive(Debug)]
pub struct Cache {
    /// Seconds a result is kept; never zero.
    pub max_age: u64,
    /// The expression whose results are kept.
    pub expr: Box<Expression>,
}

impl Cache {
    /// A cache of the given age in front of the expression.
    pub fn new(max_age: u64, expr: Box<Expression>) -> (c: Self)
        requires
            max_age > 0,
        ensures
            c.max_age == max_age,
            c.expr == expr,
    {
        Cache { max_age, expr }
    }
}

/// A field of a type of the blueprint.
#[derive(Debug)]
pub struct FieldDefinition {
    /// The field's name.
    pub name: String,
    /// The name of the field's type.
    pub of_type: String,
    /// How the field is resolved, if it is resolved at all.
    pub resolver: Option<Expression>,
}

/// What `update_cache` makes of a field definition: where the field has a
/// resolver and the configuration's field has a cache directive, the resolver
/// is wrapped into a cache of the directive's age; otherwise it is left as it is.
pub open spec fn spec_update_cache(field: Field, b_field: FieldDefinition) -> FieldDefinition {
    match b_field.resolver {
        Some(source) => match field.cache {
            Some(cache) => FieldDefinition {
                resolver: Some(
                    Expression::Cache(Cache { max_age: cache.spec_max_age(), expr: Box::new(source) }),
                ),
                ..b_field
            },
            None => b_field,
        },
        None => b_field,
    }
}

/// Where the field has a cache directive and the definition a resolver, the
/// resolver becomes a cache of exactly the directive's age, whatever that age,
/// in front of the resolver as it was; the name and the type stay.
pub proof fn law_cache_wraps_resolver(field: Field, b_field: FieldDefinition)
    requires
        field.cache is Some,
        b_field.resolver is Some,
    ensures
        spec_update_cache(field, b_field).resolver == Some(
            Expression::Cache(
                Cache {
                    max_age: field.cache->0.spec_max_age(),
                    expr: Box::new(b_field.resolver->0),
                },
            ),
        ),
        spec_update_cache(field, b_field).name == b_field.name,
        spec_update_cache(field, b_field).of_type == b_field.of_type,
{
}

/// Without a cache directive on the field, or without a resolver to put it in
/// front of, the definition is left as it is.
pub proof fn law_no_cache_keeps_definition(field: Field, b_field: FieldDefinition)
    requires
        field.cache is None || b_field.resolver is None,
    ensures
        spec_update_cache(field, b_field) == b_field,
{
}

/// One step of building a field definition from the configuration: puts a
/// cache in front of the field's resolver when the field asks for one. It
/// never fails.
pub fn update_cache(
    config: &Config,
    field: &Field,
    ty: &Type,
    name: &str,
    b_field: FieldDefinition,
) -> (r: Result<FieldDefinition, ValidationError>)
    ensures
        r == Ok::<FieldDefinition, ValidationError>(spec_update_cache(*field, b_field)),
{
    let mut updated_b_field = b_field;
    match updated_b_field.resolver {
        Some(source) => {
            match &field.cache {
                Some(cache) => {
                    let cache = Expression::Cache(Cache::new(cache.max_age(), Box::new(source)));
                    updated_b_field.resolver = Some(cache);
                },
                None => {
                    updated_b_field.resolver = Some(source);
                },
            }
            Ok(updated_b_field)
        },
        None => Ok(updated_b_field),
    }
}

} // verus!
