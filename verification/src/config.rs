//! The part of a configuration that the lint and cache operators read.
use vstd::prelude::*;
use crate::strmap::{StrMap, StrSet};

verus! {

/// The `@cache` directive of a field: how many seconds a result is kept.
#[derive(Debug)]
pub struct CacheDirective {
    max_age: u64,
}

impl CacheDirective {
    #[verifier::type_invariant]
    closed spec fn inv(self) -> bool {
        self.max_age > 0
    }

    /// The number of seconds.
    pub closed spec fn spec_max_age(&self) -> u64 {
        self.max_age
    }

    /// A cache directive; `None` for a zero age, which the directive does not take.
    pub fn new(max_age: u64) -> (r: Option<Self>)
        ensures
            match r {
                Some(c) => max_age > 0 && c.spec_max_age() == max_age,
                None => max_age == 0,
            },
    {
        if max_age == 0 {
            None
        } else {
            Some(CacheDirective { max_age })
        }
    }

    /// The number of seconds, never zero.
    pub fn max_age(&self) -> (r: u64)
        ensures
            r == self.spec_max_age(),
            r > 0,
    {
        proof {
            use_type_invariant(self);
        }
        self.max_age
    }
}

/// A field of a type in the configuration.
#[derive(Debug)]
pub struct Field {
    /// The name of the field's type.
    pub type_of: String,
    /// The field's cache directive, if any.
    pub cache: Option<CacheDirective>,
}

/// A type of the configuration.
#[derive(Debug)]
pub struct Type {
    /// The fields, by name.
    pub fields: StrMap<Field>,
    /// The type's documentation.
    pub doc: Option<String>,
}

/// An enum of the configuration.
#[derive(Debug)]
pub struct Enum {
    /// The names of the variants.
    pub variants: StrSet,
    /// The enum's documentation.
    pub doc: Option<String>,
}

/// A configuration: its types and its enums, by name.
#[derive(Debug)]
pub struct Config {
    pub types: StrMap<Type>,
    pub enums: StrMap<Enum>,
}

/// What a type holds: its fields by name and its documentation.
pub struct TypeView {
    pub fields: Map<Seq<char>, Field>,
    pub doc: Option<String>,
}

/// What an enum holds: the set of its variant names and its documentation.
pub struct EnumView {
    pub variants: Set<Seq<char>>,
    pub doc: Option<String>,
}

impl Type {
    pub open spec fn view(&self) -> TypeView {
        TypeView { fields: self.fields@, doc: self.doc }
    }
}

impl Enum {
    pub open spec fn view(&self) -> EnumView {
        EnumView { variants: self.variants@, doc: self.doc }
    }
}

impl Config {
    /// The types, each by its view.
    pub open spec fn types_view(&self) -> Map<Seq<char>, TypeView> {
        self.types@.map_values(|t: Type| t@)
    }

    /// The enums, each by its view.
    pub open spec fn enums_view(&self) -> Map<Seq<char>, EnumView> {
        self.enums@.map_values(|e: Enum| e@)
    }
}

} // verus!
