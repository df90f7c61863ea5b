//! The `@lint` directive: checks, and optionally fixes, the letter case of
//! type, field, enum and enum value names.
use vstd::prelude::*;
use crate::case::{TextCase, spec_to_case, is_case, to_case};
use crate::config::{Config, Enum, EnumView, Field, Type, TypeView};
use crate::strmap::{
    StrMap, StrSet, pairs_to_map, sorted_pairs, has_name, lemma_pairs_to_map_dom,
    lemma_pairs_to_map_value_in, lemma_sorted_pairs_value,
};
use crate::valid::ValidationError;

verus! {

/// The `@lint` directive allows you to configure linting.
#[derive(Debug, Clone, PartialEq, Eq, Structural)]
pub struct Lint {
    /// To autoFix the lint.
    /// Example Usage lint:{autoFix:true}
    pub auto_fix: Option<bool>,
    /// This enum is provided with appropriate TextCase.
    /// Example Usage: lint:{enum:Pascal}
    pub enum_lint: Option<bool>,
    /// This enumValue is provided with appropriate TextCase.
    /// Example Usage: lint:{enumValue:ScreamingSnake}
    pub enum_value_lint: Option<bool>,
    /// This field is provided with appropriate TextCase.
    /// Example Usage: lint:{field:Camel}
    pub field_lint: Option<bool>,
    /// This type is provided with appropriate TextCase.
    /// Example Usage: lint:{type:Pascal}
    pub type_lint: Option<bool>,
}

impl Default for Lint {
    fn default() -> (l: Self)
        ensures
            l.auto_fix == Some(true),
            l.enum_lint == Some(true),
            l.enum_value_lint == Some(true),
            l.field_lint == Some(true),
            l.type_lint == Some(true),
    {
        Lint {
            auto_fix: Some(true),
            enum_lint: Some(true),
            enum_value_lint: Some(true),
            field_lint: Some(true),
            type_lint: Some(true),
        }
    }
}

pub const TYPE_NAME_CASE: TextCase = TextCase::Pascal;

pub const FIELD_NAME_CASE: TextCase = TextCase::Camel;

pub const ENUM_NAME_CASE: TextCase = TextCase::Pascal;

pub const ENUM_VALUE_CASE: TextCase = TextCase::UpperSnake;

/// Error messages: one list of messages, in the order they arose.
pub type Messages = Seq<Seq<char>>;

/// The setting, or its default when it is not given.
pub open spec fn flag_or(o: Option<bool>, default: bool) -> bool {
    match o {
        Some(b) => b,
        None => default,
    }
}

pub open spec fn type_name_message() -> Seq<char> {
    "Type name {type_name} should be PascalCase, you can use @modify to correct it."@
}

pub open spec fn field_name_message() -> Seq<char> {
    "Field name {field_name} of {type_name} should be camelCase, you can use @modify to correct it."@
}

pub open spec fn enum_name_message() -> Seq<char> {
    "Enum name {enum_name} should be PascalCase, you can use @modify to correct it."@
}

pub open spec fn enum_value_message() -> Seq<char> {
    "Enum value {variant} of {enum_name} should be ALL_CAPS, you can use @modify to correct it."@
}

/// One name checked against a case: kept when it is in the case or the check
/// is off, converted when it is not and fixing is on, refused otherwise.
pub open spec fn lint_name(
    enabled: bool,
    auto_fix: bool,
    name: Seq<char>,
    case: TextCase,
    message: Seq<char>,
) -> Result<Seq<char>, Messages> {
    if enabled && spec_to_case(name, case) != name {
        if auto_fix {
            Ok(spec_to_case(name, case))
        } else {
            Err(seq![message])
        }
    } else {
        Ok(name)
    }
}

/// Adds one more outcome to a list of outcomes: the values while nothing
/// failed, and otherwise all messages so far, in order.
pub open spec fn gather<T>(acc: Result<Seq<T>, Messages>, item: Result<T, Messages>) -> Result<
    Seq<T>,
    Messages,
> {
    match acc {
        Ok(s) => match item {
            Ok(t) => Ok(s.push(t)),
            Err(e) => Err(e),
        },
        Err(e1) => match item {
            Ok(_) => Err(e1),
            Err(e2) => Err(e1 + e2),
        },
    }
}

/// Both outcomes together: both values, or the messages of the first then of
/// the second.
pub open spec fn zip<A, B>(a: Result<A, Messages>, b: Result<B, Messages>) -> Result<
    (A, B),
    Messages,
> {
    match a {
        Ok(x) => match b {
            Ok(y) => Ok((x, y)),
            Err(e) => Err(e),
        },
        Err(e1) => match b {
            Ok(_) => Err(e1),
            Err(e2) => Err(e1 + e2),
        },
    }
}

impl Lint {
    pub open spec fn spec_auto_fix(&self) -> bool {
        flag_or(self.auto_fix, false)
    }

    pub open spec fn spec_type_lint(&self) -> bool {
        flag_or(self.type_lint, true)
    }

    pub open spec fn spec_field_lint(&self) -> bool {
        flag_or(self.field_lint, true)
    }

    pub open spec fn spec_enum_lint(&self) -> bool {
        flag_or(self.enum_lint, true)
    }

    pub open spec fn spec_enum_value_lint(&self) -> bool {
        flag_or(self.enum_value_lint, true)
    }

    /// The fields of a type, each checked in order.
    pub open spec fn lint_fields(&self, fs: Seq<(Seq<char>, Field)>) -> Result<
        Seq<(Seq<char>, Field)>,
        Messages,
    >
        decreases fs.len(),
    {
        if fs.len() == 0 {
            Ok(Seq::empty())
        } else {
            gather(
                self.lint_fields(fs.drop_last()),
                match lint_name(
                    self.spec_field_lint(),
                    self.spec_auto_fix(),
                    fs.last().0,
                    FIELD_NAME_CASE,
                    field_name_message(),
                ) {
                    Ok(n) => Ok((n, fs.last().1)),
                    Err(e) => Err(e),
                },
            )
        }
    }

    /// One type: its name, then its fields.
    pub open spec fn lint_type(&self, name: Seq<char>, ty: Type) -> Result<
        (Seq<char>, TypeView),
        Messages,
    > {
        match zip(
            lint_name(
                self.spec_type_lint(),
                self.spec_auto_fix(),
                name,
                TYPE_NAME_CASE,
                type_name_message(),
            ),
            self.lint_fields(ty.fields.pairs()),
        ) {
            Ok((n, fs)) => Ok((n, TypeView { fields: pairs_to_map(fs), doc: ty.doc })),
            Err(e) => Err(e),
        }
    }

    /// The types, each checked in order.
    pub open spec fn lint_types(&self, ts: Seq<(Seq<char>, Type)>) -> Result<
        Seq<(Seq<char>, TypeView)>,
        Messages,
    >
        decreases ts.len(),
    {
        if ts.len() == 0 {
            Ok(Seq::empty())
        } else {
            gather(self.lint_types(ts.drop_last()), self.lint_type(ts.last().0, ts.last().1))
        }
    }

    /// The variants of an enum, each checked in order.
    pub open spec fn lint_variants(&self, vs: Seq<Seq<char>>) -> Result<Seq<Seq<char>>, Messages>
        decreases vs.len(),
    {
        if vs.len() == 0 {
            Ok(Seq::empty())
        } else {
            gather(
                self.lint_variants(vs.drop_last()),
                lint_name(
                    self.spec_enum_value_lint(),
                    self.spec_auto_fix(),
                    vs.last(),
                    ENUM_VALUE_CASE,
                    enum_value_message(),
                ),
            )
        }
    }

    /// One enum: its name, then its variants.
    pub open spec fn lint_enum(&self, name: Seq<char>, e: Enum) -> Result<
        (Seq<char>, EnumView),
        Messages,
    > {
        match zip(
            lint_name(
                self.spec_enum_lint(),
                self.spec_auto_fix(),
                name,
                ENUM_NAME_CASE,
                enum_name_message(),
            ),
            self.lint_variants(e.variants.names()),
        ) {
            Ok((n, vs)) => Ok((n, EnumView { variants: vs.to_set(), doc: e.doc })),
            Err(m) => Err(m),
        }
    }

    /// The enums, each checked in order.
    pub open spec fn lint_enums(&self, es: Seq<(Seq<char>, Enum)>) -> Result<
        Seq<(Seq<char>, EnumView)>,
        Messages,
    >
        decreases es.len(),
    {
        if es.len() == 0 {
            Ok(Seq::empty())
        } else {
            gather(self.lint_enums(es.drop_last()), self.lint_enum(es.last().0, es.last().1))
        }
    }

    /// What linting a configuration gives: its types and enums, or all
    /// messages, those of the types first.
    pub open spec fn spec_lint(&self, config: Config) -> Result<
        (Map<Seq<char>, TypeView>, Map<Seq<char>, EnumView>),
        Messages,
    > {
        match zip(
            self.lint_types(config.types.pairs()),
            self.lint_enums(config.enums.pairs()),
        ) {
            Ok((ts, es)) => Ok((pairs_to_map(ts), pairs_to_map(es))),
            Err(m) => Err(m),
        }
    }
}

/// The map of the pairs, each value taken by `f`, is the map of the pairs
/// with their values taken by `f`.
pub proof fn lemma_pairs_to_map_map_values<V, W>(ps: Seq<(Seq<char>, V)>, f: spec_fn(V) -> W)
    ensures
        pairs_to_map(ps).map_values(f) == pairs_to_map(
            ps.map_values(|p: (Seq<char>, V)| (p.0, f(p.1))),
        ),
    decreases ps.len(),
{
    let qs = ps.map_values(|p: (Seq<char>, V)| (p.0, f(p.1)));
    if ps.len() == 0 {
        assert(pairs_to_map(ps).map_values(f) =~= pairs_to_map(qs));
    } else {
        lemma_pairs_to_map_map_values(ps.drop_last(), f);
        assert(qs.drop_last() =~= ps.drop_last().map_values(|p: (Seq<char>, V)| (p.0, f(p.1))));
        assert(pairs_to_map(ps).map_values(f) =~= pairs_to_map(qs));
    }
}

/// Checks one name against a case, as `lint_name` says.
fn check_name(
    enabled: bool,
    auto_fix: bool,
    name: String,
    case: TextCase,
    message: &str,
) -> (r: Result<String, ValidationError>)
    ensures
        match r {
            Ok(n) => lint_name(enabled, auto_fix, name@, case, message@) == Ok::<
                Seq<char>,
                Messages,
            >(n@),
            Err(e) => lint_name(enabled, auto_fix, name@, case, message@) == Err::<
                Seq<char>,
                Messages,
            >(e@),
        },
{
    if enabled && !is_case(name.as_str(), case) {
        if auto_fix {
            Ok(to_case(name.as_str(), case))
        } else {
            Err(ValidationError::new(String::from_str(message)))
        }
    } else {
        Ok(name)
    }
}

impl Lint {
    fn auto_fix_flag(&self) -> (r: bool)
        ensures
            r == self.spec_auto_fix(),
    {
        match self.auto_fix {
            Some(b) => b,
            None => false,
        }
    }

    fn check_flag(o: Option<bool>) -> (r: bool)
        ensures
            r == flag_or(o, true),
    {
        match o {
            Some(b) => b,
            None => true,
        }
    }

    /// Checks the fields of a type, in name order.
    fn lint_field_entries(&self, fields: StrMap<Field>) -> (r: Result<
        Vec<(String, Field)>,
        ValidationError,
    >)
        ensures
            match r {
                Ok(v) => self.lint_fields(fields.pairs()) == Ok::<_, Messages>(
                    v@.map_values(|e: (String, Field)| (e.0@, e.1)),
                ),
                Err(e) => self.lint_fields(fields.pairs()) == Err::<Seq<(Seq<char>, Field)>, Messages>(
                    e@,
                ),
            },
    {
        let auto_fix = self.auto_fix_flag();
        let enabled = Self::check_flag(self.field_lint);
        let ghost ps = fields.pairs();
        let mut rest = fields.into_entries();
        let ghost orig = rest@;
        let n = rest.len();
        let mut vals: Vec<(String, Field)> = Vec::new();
        let mut errs = ValidationError::empty();
        let mut failed = false;
        let mut i: usize = 0;
        assert(orig.skip(0) =~= orig);
        assert(ps.take(0) =~= Seq::<(Seq<char>, Field)>::empty());
        assert(vals@.map_values(|e: (String, Field)| (e.0@, e.1)) =~= Seq::<(Seq<char>, Field)>::empty());
        while i < n
            invariant
                n == orig.len(),
                i <= n,
                rest@ == orig.skip(i as int),
                orig.map_values(|e: (String, Field)| (e.0@, e.1)) == ps,
                auto_fix == self.spec_auto_fix(),
                enabled == self.spec_field_lint(),
                !failed ==> errs@.len() == 0 && self.lint_fields(ps.take(i as int)) == Ok::<_, Messages>(
                    vals@.map_values(|e: (String, Field)| (e.0@, e.1)),
                ),
                failed ==> self.lint_fields(ps.take(i as int)) == Err::<Seq<(Seq<char>, Field)>, Messages>(
                    errs@,
                ),
            decreases n - i,
        {
            let (name, field) = rest.remove(0);
            assert(orig.skip(i as int).remove(0) =~= orig.skip(i + 1));
            assert(ps[i as int] == (name@, field));
            assert(ps.take(i + 1).drop_last() =~= ps.take(i as int));
            assert(ps.take(i + 1).last() == ps[i as int]);
            let ghost prev = vals@;
            let checked = check_name(
                enabled,
                auto_fix,
                name,
                FIELD_NAME_CASE,
                "Field name {field_name} of {type_name} should be camelCase, you can use @modify to correct it.",
            );
            match checked {
                Ok(n2) => {
                    if !failed {
                        vals.push((n2, field));
                        assert(vals@.map_values(|e: (String, Field)| (e.0@, e.1)) =~= prev.map_values(
                            |e: (String, Field)| (e.0@, e.1),
                        ).push((n2@, field)));
                    }
                },
                Err(e) => {
                    errs.combine(e);
                    if !failed {
                        assert(errs@ =~= e@);
                    }
                    failed = true;
                },
            }
            i = i + 1;
        }
        assert(ps.take(n as int) =~= ps);
        if failed {
            Err(errs)
        } else {
            Ok(vals)
        }
    }
}

impl Lint {
    /// Checks one type: its name, then its fields.
    fn lint_one_type(&self, name: String, ty: Type) -> (r: Result<(String, Type), ValidationError>)
        ensures
            match r {
                Ok(p) => self.lint_type(name@, ty) == Ok::<_, Messages>((p.0@, p.1@)),
                Err(e) => self.lint_type(name@, ty) == Err::<(Seq<char>, TypeView), Messages>(e@),
            },
    {
        let auto_fix = self.auto_fix_flag();
        let enabled = Self::check_flag(self.type_lint);
        let Type { fields, doc } = ty;
        let name_checked = check_name(
            enabled,
            auto_fix,
            name,
            TYPE_NAME_CASE,
            "Type name {type_name} should be PascalCase, you can use @modify to correct it.",
        );
        let fields_checked = self.lint_field_entries(fields);
        match name_checked {
            Ok(n) => match fields_checked {
                Ok(fs) => {
                    let ghost fps = fs@.map_values(|e: (String, Field)| (e.0@, e.1));
                    let mut m: StrMap<Field> = StrMap::new();
                    m.extend(fs);
                    assert(m@ =~= pairs_to_map(fps));
                    Ok((n, Type { fields: m, doc }))
                },
                Err(e) => Err(e),
            },
            Err(e1) => match fields_checked {
                Ok(_) => Err(e1),
                Err(e2) => {
                    let mut e = e1;
                    e.combine(e2);
                    Err(e)
                },
            },
        }
    }

    /// Checks the types, in name order.
    fn lint_type_entries(&self, types: StrMap<Type>) -> (r: Result<
        Vec<(String, Type)>,
        ValidationError,
    >)
        ensures
            match r {
                Ok(v) => self.lint_types(types.pairs()) == Ok::<_, Messages>(
                    v@.map_values(|e: (String, Type)| (e.0@, e.1@)),
                ),
                Err(e) => self.lint_types(types.pairs()) == Err::<Seq<(Seq<char>, TypeView)>, Messages>(
                    e@,
                ),
            },
    {
        let ghost ps = types.pairs();
        let mut rest = types.into_entries();
        let ghost orig = rest@;
        let n = rest.len();
        let mut vals: Vec<(String, Type)> = Vec::new();
        let mut errs = ValidationError::empty();
        let mut failed = false;
        let mut i: usize = 0;
        assert(orig.skip(0) =~= orig);
        assert(ps.take(0) =~= Seq::<(Seq<char>, Type)>::empty());
        assert(vals@.map_values(|e: (String, Type)| (e.0@, e.1@)) =~= Seq::<(Seq<char>, TypeView)>::empty());
        while i < n
            invariant
                n == orig.len(),
                i <= n,
                rest@ == orig.skip(i as int),
                orig.map_values(|e: (String, Type)| (e.0@, e.1)) == ps,
                !failed ==> errs@.len() == 0 && self.lint_types(ps.take(i as int)) == Ok::<_, Messages>(
                    vals@.map_values(|e: (String, Type)| (e.0@, e.1@)),
                ),
                failed ==> self.lint_types(ps.take(i as int)) == Err::<Seq<(Seq<char>, TypeView)>, Messages>(
                    errs@,
                ),
            decreases n - i,
        {
            let (name, ty) = rest.remove(0);
            assert(orig.skip(i as int).remove(0) =~= orig.skip(i + 1));
            assert(ps[i as int] == (name@, ty));
            assert(ps.take(i + 1).drop_last() =~= ps.take(i as int));
            assert(ps.take(i + 1).last() == ps[i as int]);
            let ghost prev = vals@;
            let checked = self.lint_one_type(name, ty);
            match checked {
                Ok(p) => {
                    if !failed {
                        let ghost pv = (p.0@, p.1@);
                        vals.push(p);
                        assert(vals@.map_values(|e: (String, Type)| (e.0@, e.1@)) =~= prev.map_values(
                            |e: (String, Type)| (e.0@, e.1@),
                        ).push(pv));
                    }
                },
                Err(e) => {
                    errs.combine(e);
                    if !failed {
                        assert(errs@ =~= e@);
                    }
                    failed = true;
                },
            }
            i = i + 1;
        }
        assert(ps.take(n as int) =~= ps);
        if failed {
            Err(errs)
        } else {
            Ok(vals)
        }
    }

    /// Checks the variants of an enum, in name order.
    fn lint_variant_names(&self, variants: StrSet) -> (r: Result<Vec<String>, ValidationError>)
        ensures
            match r {
                Ok(v) => self.lint_variants(variants.names()) == Ok::<_, Messages>(
                    v@.map_values(|s: String| s@),
                ),
                Err(e) => self.lint_variants(variants.names()) == Err::<Seq<Seq<char>>, Messages>(e@),
            },
    {
        let auto_fix = self.auto_fix_flag();
        let enabled = Self::check_flag(self.enum_value_lint);
        let ghost ps = variants.names();
        let mut rest = variants.into_names();
        let ghost orig = rest@;
        let n = rest.len();
        let mut vals: Vec<String> = Vec::new();
        let mut errs = ValidationError::empty();
        let mut failed = false;
        let mut i: usize = 0;
        assert(orig.skip(0) =~= orig);
        assert(ps.take(0) =~= Seq::<Seq<char>>::empty());
        assert(vals@.map_values(|s: String| s@) =~= Seq::<Seq<char>>::empty());
        while i < n
            invariant
                n == orig.len(),
                i <= n,
                rest@ == orig.skip(i as int),
                orig.map_values(|s: String| s@) == ps,
                auto_fix == self.spec_auto_fix(),
                enabled == self.spec_enum_value_lint(),
                !failed ==> errs@.len() == 0 && self.lint_variants(ps.take(i as int)) == Ok::<_, Messages>(
                    vals@.map_values(|s: String| s@),
                ),
                failed ==> self.lint_variants(ps.take(i as int)) == Err::<Seq<Seq<char>>, Messages>(errs@),
            decreases n - i,
        {
            let name = rest.remove(0);
            assert(orig.skip(i as int).remove(0) =~= orig.skip(i + 1));
            assert(ps[i as int] == name@);
            assert(ps.take(i + 1).drop_last() =~= ps.take(i as int));
            assert(ps.take(i + 1).last() == ps[i as int]);
            let ghost prev = vals@;
            let checked = check_name(
                enabled,
                auto_fix,
                name,
                ENUM_VALUE_CASE,
                "Enum value {variant} of {enum_name} should be ALL_CAPS, you can use @modify to correct it.",
            );
            match checked {
                Ok(n2) => {
                    if !failed {
                        vals.push(n2);
                        assert(vals@.map_values(|s: String| s@) =~= prev.map_values(|s: String| s@).push(n2@));
                    }
                },
                Err(e) => {
                    errs.combine(e);
                    if !failed {
                        assert(errs@ =~= e@);
                    }
                    failed = true;
                },
            }
            i = i + 1;
        }
        assert(ps.take(n as int) =~= ps);
        if failed {
            Err(errs)
        } else {
            Ok(vals)
        }
    }

    /// Checks one enum: its name, then its variants.
    fn lint_one_enum(&self, name: String, en: Enum) -> (r: Result<(String, Enum), ValidationError>)
        ensures
            match r {
                Ok(p) => self.lint_enum(name@, en) == Ok::<_, Messages>((p.0@, p.1@)),
                Err(e) => self.lint_enum(name@, en) == Err::<(Seq<char>, EnumView), Messages>(e@),
            },
    {
        let auto_fix = self.auto_fix_flag();
        let enabled = Self::check_flag(self.enum_lint);
        let Enum { variants, doc } = en;
        let name_checked = check_name(
            enabled,
            auto_fix,
            name,
            ENUM_NAME_CASE,
            "Enum name {enum_name} should be PascalCase, you can use @modify to correct it.",
        );
        let variants_checked = self.lint_variant_names(variants);
        match name_checked {
            Ok(n) => match variants_checked {
                Ok(vs) => {
                    let ghost vv = vs@.map_values(|s: String| s@);
                    let mut set = StrSet::new();
                    set.extend(vs);
                    assert(set@ =~= vv.to_set());
                    Ok((n, Enum { variants: set, doc }))
                },
                Err(e) => Err(e),
            },
            Err(e1) => match variants_checked {
                Ok(_) => Err(e1),
                Err(e2) => {
                    let mut e = e1;
                    e.combine(e2);
                    Err(e)
                },
            },
        }
    }

    /// Checks the enums, in name order.
    fn lint_enum_entries(&self, enums: StrMap<Enum>) -> (r: Result<
        Vec<(String, Enum)>,
        ValidationError,
    >)
        ensures
            match r {
                Ok(v) => self.lint_enums(enums.pairs()) == Ok::<_, Messages>(
                    v@.map_values(|e: (String, Enum)| (e.0@, e.1@)),
                ),
                Err(e) => self.lint_enums(enums.pairs()) == Err::<Seq<(Seq<char>, EnumView)>, Messages>(
                    e@,
                ),
            },
    {
        let ghost ps = enums.pairs();
        let mut rest = enums.into_entries();
        let ghost orig = rest@;
        let n = rest.len();
        let mut vals: Vec<(String, Enum)> = Vec::new();
        let mut errs = ValidationError::empty();
        let mut failed = false;
        let mut i: usize = 0;
        assert(orig.skip(0) =~= orig);
        assert(ps.take(0) =~= Seq::<(Seq<char>, Enum)>::empty());
        assert(vals@.map_values(|e: (String, Enum)| (e.0@, e.1@)) =~= Seq::<(Seq<char>, EnumView)>::empty());
        while i < n
            invariant
                n == orig.len(),
                i <= n,
                rest@ == orig.skip(i as int),
                orig.map_values(|e: (String, Enum)| (e.0@, e.1)) == ps,
                !failed ==> errs@.len() == 0 && self.lint_enums(ps.take(i as int)) == Ok::<_, Messages>(
                    vals@.map_values(|e: (String, Enum)| (e.0@, e.1@)),
                ),
                failed ==> self.lint_enums(ps.take(i as int)) == Err::<Seq<(Seq<char>, EnumView)>, Messages>(
                    errs@,
                ),
            decreases n - i,
        {
            let (name, en) = rest.remove(0);
            assert(orig.skip(i as int).remove(0) =~= orig.skip(i + 1));
            assert(ps[i as int] == (name@, en));
            assert(ps.take(i + 1).drop_last() =~= ps.take(i as int));
            assert(ps.take(i + 1).last() == ps[i as int]);
            let ghost prev = vals@;
            let checked = self.lint_one_enum(name, en);
            match checked {
                Ok(p) => {
                    if !failed {
                        let ghost pv = (p.0@, p.1@);
                        vals.push(p);
                        assert(vals@.map_values(|e: (String, Enum)| (e.0@, e.1@)) =~= prev.map_values(
                            |e: (String, Enum)| (e.0@, e.1@),
                        ).push(pv));
                    }
                },
                Err(e) => {
                    errs.combine(e);
                    if !failed {
                        assert(errs@ =~= e@);
                    }
                    failed = true;
                },
            }
            i = i + 1;
        }
        assert(ps.take(n as int) =~= ps);
        if failed {
            Err(errs)
        } else {
            Ok(vals)
        }
    }

    /// Lints a configuration: checks the case of every type, field, enum and
    /// enum value name, converting wrong names when `auto_fix` is on and
    /// otherwise failing with one message per wrong name. All messages are
    /// gathered: those of the types, in name order, then those of the enums.
    pub fn lint(&self, config: Config) -> (r: Result<Config, ValidationError>)
        ensures
            match r {
                Ok(c) => self.spec_lint(config) == Ok::<_, Messages>((c.types_view(), c.enums_view()))
                    && sorted_pairs(c.types.pairs()) && sorted_pairs(c.enums.pairs()),
                Err(e) => self.spec_lint(config) == Err::<
                    (Map<Seq<char>, TypeView>, Map<Seq<char>, EnumView>),
                    Messages,
                >(e@),
            },
    {
        let Config { types, enums } = config;
        let types_checked = self.lint_type_entries(types);
        let enums_checked = self.lint_enum_entries(enums);
        match types_checked {
            Ok(ts) => match enums_checked {
                Ok(es) => {
                    let ghost tps = ts@.map_values(|e: (String, Type)| (e.0@, e.1));
                    let ghost eps = es@.map_values(|e: (String, Enum)| (e.0@, e.1));
                    let mut new_types: StrMap<Type> = StrMap::new();
                    new_types.extend(ts);
                    let mut new_enums: StrMap<Enum> = StrMap::new();
                    new_enums.extend(es);
                    assert(new_types@ =~= pairs_to_map(tps));
                    assert(new_enums@ =~= pairs_to_map(eps));
                    let c = Config { types: new_types, enums: new_enums };
                    proof {
                        let ft = |t: Type| t@;
                        let fe = |e: Enum| e@;
                        lemma_pairs_to_map_map_values(tps, ft);
                        lemma_pairs_to_map_map_values(eps, fe);
                        assert(tps.map_values(|p: (Seq<char>, Type)| (p.0, ft(p.1))) =~= ts@.map_values(
                            |e: (String, Type)| (e.0@, e.1@),
                        ));
                        assert(eps.map_values(|p: (Seq<char>, Enum)| (p.0, fe(p.1))) =~= es@.map_values(
                            |e: (String, Enum)| (e.0@, e.1@),
                        ));
                        assert(c.types_view() =~= pairs_to_map(tps).map_values(ft));
                        assert(c.enums_view() =~= pairs_to_map(eps).map_values(fe));
                    }
                    Ok(c)
                },
                Err(e) => Err(e),
            },
            Err(e1) => match enums_checked {
                Ok(_) => Err(e1),
                Err(e2) => {
                    let mut e = e1;
                    e.combine(e2);
                    Err(e)
                },
            },
        }
    }
}

/// Whether the configuration has a type of this name.
pub fn is_type(name: &str, types: &StrMap<Type>) -> (r: bool)
    ensures
        r == types@.contains_key(name@),
{
    types.contains_key(name)
}

/// Whether the configuration has an enum of this name.
pub fn is_enum(enum_name: &str, enums: &StrMap<Enum>) -> (r: bool)
    ensures
        r == enums@.contains_key(enum_name@),
{
    enums.contains_key(enum_name)
}

/// A name passes its check: the check is off, or the name is in its case.
pub open spec fn name_passes(enabled: bool, name: Seq<char>, case: TextCase) -> bool {
    !enabled || spec_to_case(name, case) == name
}

impl Lint {
    pub open spec fn fields_pass(&self, fs: Seq<(Seq<char>, Field)>) -> bool {
        forall|j: int|
            0 <= j < fs.len() ==> name_passes(self.spec_field_lint(), #[trigger] fs[j].0, FIELD_NAME_CASE)
    }

    pub open spec fn variants_pass(&self, vs: Seq<Seq<char>>) -> bool {
        forall|j: int|
            0 <= j < vs.len() ==> name_passes(self.spec_enum_value_lint(), #[trigger] vs[j], ENUM_VALUE_CASE)
    }

    pub open spec fn type_passes(&self, name: Seq<char>, ty: Type) -> bool {
        name_passes(self.spec_type_lint(), name, TYPE_NAME_CASE) && self.fields_pass(ty.fields.pairs())
    }

    pub open spec fn enum_passes(&self, name: Seq<char>, e: Enum) -> bool {
        name_passes(self.spec_enum_lint(), name, ENUM_NAME_CASE) && self.variants_pass(e.variants.names())
    }

    pub open spec fn types_pass(&self, ts: Seq<(Seq<char>, Type)>) -> bool {
        forall|j: int| 0 <= j < ts.len() ==> self.type_passes(#[trigger] ts[j].0, ts[j].1)
    }

    pub open spec fn enums_pass(&self, es: Seq<(Seq<char>, Enum)>) -> bool {
        forall|j: int| 0 <= j < es.len() ==> self.enum_passes(#[trigger] es[j].0, es[j].1)
    }

    /// Every name of the configuration passes its check.
    pub open spec fn config_passes(&self, config: Config) -> bool {
        self.types_pass(config.types.pairs()) && self.enums_pass(config.enums.pairs())
    }

    proof fn lemma_lint_fields(&self, fs: Seq<(Seq<char>, Field)>)
        ensures
            self.fields_pass(fs) ==> self.lint_fields(fs) == Ok::<_, Messages>(fs),
            self.spec_auto_fix() ==> self.lint_fields(fs) is Ok,
            !self.spec_auto_fix() && self.lint_fields(fs) is Ok ==> self.fields_pass(fs),
        decreases fs.len(),
    {
        if fs.len() > 0 {
            let init = fs.drop_last();
            self.lemma_lint_fields(init);
            if self.fields_pass(fs) {
                assert(self.fields_pass(init)) by {
                    assert forall|j: int| 0 <= j < init.len() implies name_passes(
                        self.spec_field_lint(),
                        #[trigger] init[j].0,
                        FIELD_NAME_CASE,
                    ) by {
                        assert(init[j] == fs[j]);
                    }
                }
                assert(name_passes(self.spec_field_lint(), fs[fs.len() - 1].0, FIELD_NAME_CASE));
                assert(init.push(fs.last()) =~= fs);
            }
            if !self.spec_auto_fix() && self.lint_fields(fs) is Ok {
                assert forall|j: int| 0 <= j < fs.len() implies name_passes(
                    self.spec_field_lint(),
                    #[trigger] fs[j].0,
                    FIELD_NAME_CASE,
                ) by {
                    if j < fs.len() - 1 {
                        assert(init[j] == fs[j]);
                    }
                }
            }
        } else {
            assert(fs =~= Seq::<(Seq<char>, Field)>::empty());
        }
    }

    proof fn lemma_lint_variants(&self, vs: Seq<Seq<char>>)
        ensures
            self.variants_pass(vs) ==> self.lint_variants(vs) == Ok::<_, Messages>(vs),
            self.spec_auto_fix() ==> self.lint_variants(vs) is Ok,
            !self.spec_auto_fix() && self.lint_variants(vs) is Ok ==> self.variants_pass(vs),
        decreases vs.len(),
    {
        if vs.len() > 0 {
            let init = vs.drop_last();
            self.lemma_lint_variants(init);
            if self.variants_pass(vs) {
                assert(self.variants_pass(init)) by {
                    assert forall|j: int| 0 <= j < init.len() implies name_passes(
                        self.spec_enum_value_lint(),
                        #[trigger] init[j],
                        ENUM_VALUE_CASE,
                    ) by {
                        assert(init[j] == vs[j]);
                    }
                }
                assert(name_passes(self.spec_enum_value_lint(), vs[vs.len() - 1], ENUM_VALUE_CASE));
                assert(init.push(vs.last()) =~= vs);
            }
            if !self.spec_auto_fix() && self.lint_variants(vs) is Ok {
                assert forall|j: int| 0 <= j < vs.len() implies name_passes(
                    self.spec_enum_value_lint(),
                    #[trigger] vs[j],
                    ENUM_VALUE_CASE,
                ) by {
                    if j < vs.len() - 1 {
                        assert(init[j] == vs[j]);
                    }
                }
            }
        } else {
            assert(vs =~= Seq::<Seq<char>>::empty());
        }
    }

    proof fn lemma_lint_types(&self, ts: Seq<(Seq<char>, Type)>)
        ensures
            self.types_pass(ts) ==> self.lint_types(ts) == Ok::<_, Messages>(
                ts.map_values(|p: (Seq<char>, Type)| (p.0, p.1@)),
            ),
            self.spec_auto_fix() ==> self.lint_types(ts) is Ok,
            !self.spec_auto_fix() && self.lint_types(ts) is Ok ==> self.types_pass(ts),
        decreases ts.len(),
    {
        if ts.len() > 0 {
            let init = ts.drop_last();
            let last = ts.last();
            self.lemma_lint_types(init);
            self.lemma_lint_fields(last.1.fields.pairs());
            if self.types_pass(ts) {
                assert(self.types_pass(init)) by {
                    assert forall|j: int| 0 <= j < init.len() implies self.type_passes(
                        #[trigger] init[j].0,
                        init[j].1,
                    ) by {
                        assert(init[j] == ts[j]);
                    }
                }
                assert(self.type_passes(ts[ts.len() - 1].0, ts[ts.len() - 1].1));
                assert(ts.map_values(|p: (Seq<char>, Type)| (p.0, p.1@)) =~= init.map_values(
                    |p: (Seq<char>, Type)| (p.0, p.1@),
                ).push((last.0, last.1@)));
            }
            if !self.spec_auto_fix() && self.lint_types(ts) is Ok {
                assert forall|j: int| 0 <= j < ts.len() implies self.type_passes(
                    #[trigger] ts[j].0,
                    ts[j].1,
                ) by {
                    if j < ts.len() - 1 {
                        assert(init[j] == ts[j]);
                    }
                }
            }
        } else {
            assert(ts.map_values(|p: (Seq<char>, Type)| (p.0, p.1@)) =~= Seq::<(Seq<char>, TypeView)>::empty());
        }
    }

    proof fn lemma_lint_enums(&self, es: Seq<(Seq<char>, Enum)>)
        ensures
            self.enums_pass(es) ==> self.lint_enums(es) == Ok::<_, Messages>(
                es.map_values(|p: (Seq<char>, Enum)| (p.0, p.1@)),
            ),
            self.spec_auto_fix() ==> self.lint_enums(es) is Ok,
            !self.spec_auto_fix() && self.lint_enums(es) is Ok ==> self.enums_pass(es),
        decreases es.len(),
    {
        if es.len() > 0 {
            let init = es.drop_last();
            let last = es.last();
            self.lemma_lint_enums(init);
            self.lemma_lint_variants(last.1.variants.names());
            if self.enums_pass(es) {
                assert(self.enums_pass(init)) by {
                    assert forall|j: int| 0 <= j < init.len() implies self.enum_passes(
                        #[trigger] init[j].0,
                        init[j].1,
                    ) by {
                        assert(init[j] == es[j]);
                    }
                }
                assert(self.enum_passes(es[es.len() - 1].0, es[es.len() - 1].1));
                assert(es.map_values(|p: (Seq<char>, Enum)| (p.0, p.1@)) =~= init.map_values(
                    |p: (Seq<char>, Enum)| (p.0, p.1@),
                ).push((last.0, last.1@)));
            }
            if !self.spec_auto_fix() && self.lint_enums(es) is Ok {
                assert forall|j: int| 0 <= j < es.len() implies self.enum_passes(
                    #[trigger] es[j].0,
                    es[j].1,
                ) by {
                    if j < es.len() - 1 {
                        assert(init[j] == es[j]);
                    }
                }
            }
        } else {
            assert(es.map_values(|p: (Seq<char>, Enum)| (p.0, p.1@)) =~= Seq::<(Seq<char>, EnumView)>::empty());
        }
    }

    /// With `auto_fix` on, linting never fails: every wrong name is converted.
    pub proof fn law_auto_fix_never_fails(&self, config: Config)
        requires
            self.spec_auto_fix(),
        ensures
            self.spec_lint(config) is Ok,
    {
        self.lemma_lint_types(config.types.pairs());
        self.lemma_lint_enums(config.enums.pairs());
    }

    /// A configuration whose names all pass their checks comes back unchanged.
    pub proof fn law_passing_config_unchanged(&self, config: Config)
        requires
            self.config_passes(config),
        ensures
            self.spec_lint(config) == Ok::<_, Messages>((config.types_view(), config.enums_view())),
    {
        let ts = config.types.pairs();
        let es = config.enums.pairs();
        self.lemma_lint_types(ts);
        self.lemma_lint_enums(es);
        let ft = |t: Type| t@;
        let fe = |e: Enum| e@;
        lemma_pairs_to_map_map_values(ts, ft);
        lemma_pairs_to_map_map_values(es, fe);
        assert(ts.map_values(|p: (Seq<char>, Type)| (p.0, ft(p.1))) =~= ts.map_values(
            |p: (Seq<char>, Type)| (p.0, p.1@),
        ));
        assert(es.map_values(|p: (Seq<char>, Enum)| (p.0, fe(p.1))) =~= es.map_values(
            |p: (Seq<char>, Enum)| (p.0, p.1@),
        ));
        assert(config.types_view() =~= config.types@.map_values(ft));
        assert(config.enums_view() =~= config.enums@.map_values(fe));
    }

    /// With `auto_fix` off, linting succeeds exactly when every name of the
    /// configuration passes its check.
    pub proof fn law_check_only_fails_on_wrong_names(&self, config: Config)
        requires
            !self.spec_auto_fix(),
        ensures
            self.spec_lint(config) is Ok <==> self.config_passes(config),
    {
        self.lemma_lint_types(config.types.pairs());
        self.lemma_lint_enums(config.enums.pairs());
    }
}

impl Lint {
    /// One for a name that does not pass its check.
    pub open spec fn wrong(enabled: bool, name: Seq<char>, case: TextCase) -> nat {
        if name_passes(enabled, name, case) {
            0
        } else {
            1
        }
    }

    pub open spec fn count_fields(&self, fs: Seq<(Seq<char>, Field)>) -> nat
        decreases fs.len(),
    {
        if fs.len() == 0 {
            0
        } else {
            self.count_fields(fs.drop_last()) + Self::wrong(
                self.spec_field_lint(),
                fs.last().0,
                FIELD_NAME_CASE,
            )
        }
    }

    pub open spec fn count_types(&self, ts: Seq<(Seq<char>, Type)>) -> nat
        decreases ts.len(),
    {
        if ts.len() == 0 {
            0
        } else {
            self.count_types(ts.drop_last()) + Self::wrong(
                self.spec_type_lint(),
                ts.last().0,
                TYPE_NAME_CASE,
            ) + self.count_fields(ts.last().1.fields.pairs())
        }
    }

    pub open spec fn count_variants(&self, vs: Seq<Seq<char>>) -> nat
        decreases vs.len(),
    {
        if vs.len() == 0 {
            0
        } else {
            self.count_variants(vs.drop_last()) + Self::wrong(
                self.spec_enum_value_lint(),
                vs.last(),
                ENUM_VALUE_CASE,
            )
        }
    }

    pub open spec fn count_enums(&self, es: Seq<(Seq<char>, Enum)>) -> nat
        decreases es.len(),
    {
        if es.len() == 0 {
            0
        } else {
            self.count_enums(es.drop_last()) + Self::wrong(
                self.spec_enum_lint(),
                es.last().0,
                ENUM_NAME_CASE,
            ) + self.count_variants(es.last().1.variants.names())
        }
    }

    /// How many names of the configuration do not pass their checks.
    pub open spec fn count_wrong_names(&self, config: Config) -> nat {
        self.count_types(config.types.pairs()) + self.count_enums(config.enums.pairs())
    }

    proof fn lemma_count_fields(&self, fs: Seq<(Seq<char>, Field)>)
        requires
            !self.spec_auto_fix(),
        ensures
            match self.lint_fields(fs) {
                Ok(_) => self.count_fields(fs) == 0,
                Err(m) => m.len() == self.count_fields(fs),
            },
        decreases fs.len(),
    {
        if fs.len() > 0 {
            self.lemma_count_fields(fs.drop_last());
        }
    }

    proof fn lemma_count_variants(&self, vs: Seq<Seq<char>>)
        requires
            !self.spec_auto_fix(),
        ensures
            match self.lint_variants(vs) {
                Ok(_) => self.count_variants(vs) == 0,
                Err(m) => m.len() == self.count_variants(vs),
            },
        decreases vs.len(),
    {
        if vs.len() > 0 {
            self.lemma_count_variants(vs.drop_last());
        }
    }

    proof fn lemma_count_types(&self, ts: Seq<(Seq<char>, Type)>)
        requires
            !self.spec_auto_fix(),
        ensures
            match self.lint_types(ts) {
                Ok(_) => self.count_types(ts) == 0,
                Err(m) => m.len() == self.count_types(ts),
            },
        decreases ts.len(),
    {
        if ts.len() > 0 {
            self.lemma_count_types(ts.drop_last());
            self.lemma_count_fields(ts.last().1.fields.pairs());
        }
    }

    proof fn lemma_count_enums(&self, es: Seq<(Seq<char>, Enum)>)
        requires
            !self.spec_auto_fix(),
        ensures
            match self.lint_enums(es) {
                Ok(_) => self.count_enums(es) == 0,
                Err(m) => m.len() == self.count_enums(es),
            },
        decreases es.len(),
    {
        if es.len() > 0 {
            self.lemma_count_enums(es.drop_last());
            self.lemma_count_variants(es.last().1.variants.names());
        }
    }

    /// With `auto_fix` off, every wrong name gives exactly one message.
    pub proof fn law_one_message_per_wrong_name(&self, config: Config)
        requires
            !self.spec_auto_fix(),
        ensures
            match self.spec_lint(config) {
                Ok(_) => self.count_wrong_names(config) == 0,
                Err(m) => m.len() == self.count_wrong_names(config),
            },
    {
        self.lemma_count_types(config.types.pairs());
        self.lemma_count_enums(config.enums.pairs());
    }
}

/// Converting a name into the case again changes nothing.
pub open spec fn conversion_settles(name: Seq<char>, case: TextCase) -> bool {
    spec_to_case(spec_to_case(name, case), case) == spec_to_case(name, case)
}

impl Lint {
    /// Every name of the configuration is one whose conversion into its case
    /// settles.
    pub open spec fn names_settle(&self, config: Config) -> bool {
        &&& forall|j: int|
            0 <= j < config.types.pairs().len() ==> {
                &&& conversion_settles(#[trigger] config.types.pairs()[j].0, TYPE_NAME_CASE)
                &&& forall|f: int|
                    0 <= f < config.types.pairs()[j].1.fields.pairs().len() ==> conversion_settles(
                        #[trigger] config.types.pairs()[j].1.fields.pairs()[f].0,
                        FIELD_NAME_CASE,
                    )
            }
        &&& forall|j: int|
            0 <= j < config.enums.pairs().len() ==> {
                &&& conversion_settles(#[trigger] config.enums.pairs()[j].0, ENUM_NAME_CASE)
                &&& forall|f: int|
                    0 <= f < config.enums.pairs()[j].1.variants.names().len() ==> conversion_settles(
                        #[trigger] config.enums.pairs()[j].1.variants.names()[f],
                        ENUM_VALUE_CASE,
                    )
            }
    }

    proof fn lemma_fixed_name_passes(
        enabled: bool,
        name: Seq<char>,
        case: TextCase,
        message: Seq<char>,
    )
        requires
            conversion_settles(name, case),
        ensures
            lint_name(enabled, true, name, case, message) is Ok,
            name_passes(enabled, lint_name(enabled, true, name, case, message)->Ok_0, case),
    {
    }

    proof fn lemma_fixed_fields_pass(&self, fs: Seq<(Seq<char>, Field)>)
        requires
            self.spec_auto_fix(),
            forall|f: int| 0 <= f < fs.len() ==> conversion_settles(#[trigger] fs[f].0, FIELD_NAME_CASE),
        ensures
            self.lint_fields(fs) is Ok,
            self.fields_pass(self.lint_fields(fs)->Ok_0),
        decreases fs.len(),
    {
        if fs.len() == 0 {
        } else {
            let init = fs.drop_last();
            assert forall|f: int| 0 <= f < init.len() implies conversion_settles(
                #[trigger] init[f].0,
                FIELD_NAME_CASE,
            ) by {
                assert(init[f] == fs[f]);
            }
            self.lemma_fixed_fields_pass(init);
            assert(conversion_settles(fs[fs.len() - 1].0, FIELD_NAME_CASE));
            Self::lemma_fixed_name_passes(
                self.spec_field_lint(),
                fs.last().0,
                FIELD_NAME_CASE,
                field_name_message(),
            );
            let prev = self.lint_fields(init)->Ok_0;
            let out = self.lint_fields(fs)->Ok_0;
            assert forall|j: int| 0 <= j < out.len() implies name_passes(
                self.spec_field_lint(),
                #[trigger] out[j].0,
                FIELD_NAME_CASE,
            ) by {
                if j < prev.len() {
                    assert(out[j] == prev[j]);
                }
            }
        }
    }

    proof fn lemma_fixed_variants_pass(&self, vs: Seq<Seq<char>>)
        requires
            self.spec_auto_fix(),
            forall|f: int| 0 <= f < vs.len() ==> conversion_settles(#[trigger] vs[f], ENUM_VALUE_CASE),
        ensures
            self.lint_variants(vs) is Ok,
            self.variants_pass(self.lint_variants(vs)->Ok_0),
        decreases vs.len(),
    {
        if vs.len() == 0 {
        } else {
            let init = vs.drop_last();
            assert forall|f: int| 0 <= f < init.len() implies conversion_settles(
                #[trigger] init[f],
                ENUM_VALUE_CASE,
            ) by {
                assert(init[f] == vs[f]);
            }
            self.lemma_fixed_variants_pass(init);
            assert(conversion_settles(vs[vs.len() - 1], ENUM_VALUE_CASE));
            Self::lemma_fixed_name_passes(
                self.spec_enum_value_lint(),
                vs.last(),
                ENUM_VALUE_CASE,
                enum_value_message(),
            );
            let prev = self.lint_variants(init)->Ok_0;
            let out = self.lint_variants(vs)->Ok_0;
            assert forall|j: int| 0 <= j < out.len() implies name_passes(
                self.spec_enum_value_lint(),
                #[trigger] out[j],
                ENUM_VALUE_CASE,
            ) by {
                if j < prev.len() {
                    assert(out[j] == prev[j]);
                }
            }
        }
    }

    /// What a fixed type passes: its name, and every name of its fields.
    pub open spec fn type_view_passes(&self, name: Seq<char>, tv: TypeView) -> bool {
        &&& name_passes(self.spec_type_lint(), name, TYPE_NAME_CASE)
        &&& forall|k: Seq<char>|
            #[trigger] tv.fields.contains_key(k) ==> name_passes(self.spec_field_lint(), k, FIELD_NAME_CASE)
    }

    /// What a fixed enum passes: its name, and every variant.
    pub open spec fn enum_view_passes(&self, name: Seq<char>, ev: EnumView) -> bool {
        &&& name_passes(self.spec_enum_lint(), name, ENUM_NAME_CASE)
        &&& forall|k: Seq<char>|
            #[trigger] ev.variants.contains(k) ==> name_passes(
                self.spec_enum_value_lint(),
                k,
                ENUM_VALUE_CASE,
            )
    }

    proof fn lemma_fixed_types_pass(&self, ts: Seq<(Seq<char>, Type)>)
        requires
            self.spec_auto_fix(),
            forall|j: int|
                0 <= j < ts.len() ==> {
                    &&& conversion_settles(#[trigger] ts[j].0, TYPE_NAME_CASE)
                    &&& forall|f: int|
                        0 <= f < ts[j].1.fields.pairs().len() ==> conversion_settles(
                            #[trigger] ts[j].1.fields.pairs()[f].0,
                            FIELD_NAME_CASE,
                        )
                },
        ensures
            self.lint_types(ts) is Ok,
            forall|i: int|
                0 <= i < self.lint_types(ts)->Ok_0.len() ==> self.type_view_passes(
                    #[trigger] self.lint_types(ts)->Ok_0[i].0,
                    self.lint_types(ts)->Ok_0[i].1,
                ),
        decreases ts.len(),
    {
        if ts.len() == 0 {
        } else {
            let init = ts.drop_last();
            assert forall|j: int| 0 <= j < init.len() implies {
                &&& conversion_settles(#[trigger] init[j].0, TYPE_NAME_CASE)
                &&& forall|f: int|
                    0 <= f < init[j].1.fields.pairs().len() ==> conversion_settles(
                        #[trigger] init[j].1.fields.pairs()[f].0,
                        FIELD_NAME_CASE,
                    )
            } by {
                assert(init[j] == ts[j]);
            }
            self.lemma_fixed_types_pass(init);
            let last = ts.last();
            assert(last == ts[ts.len() - 1]);
            let fps = last.1.fields.pairs();
            self.lemma_fixed_fields_pass(fps);
            Self::lemma_fixed_name_passes(
                self.spec_type_lint(),
                last.0,
                TYPE_NAME_CASE,
                type_name_message(),
            );
            let fs2 = self.lint_fields(fps)->Ok_0;
            let item = self.lint_type(last.0, last.1)->Ok_0;
            assert forall|k: Seq<char>| #[trigger] item.1.fields.contains_key(k) implies name_passes(
                self.spec_field_lint(),
                k,
                FIELD_NAME_CASE,
            ) by {
                lemma_pairs_to_map_dom(fs2, k);
                let j = choose|j: int| 0 <= j < fs2.len() && #[trigger] fs2[j].0 == k;
            }
            let prev = self.lint_types(init)->Ok_0;
            let out = self.lint_types(ts)->Ok_0;
            assert forall|i: int| 0 <= i < out.len() implies self.type_view_passes(
                #[trigger] out[i].0,
                out[i].1,
            ) by {
                if i < prev.len() {
                    assert(out[i] == prev[i]);
                } else {
                    assert(out[i] == item);
                }
            }
        }
    }

    proof fn lemma_fixed_enums_pass(&self, es: Seq<(Seq<char>, Enum)>)
        requires
            self.spec_auto_fix(),
            forall|j: int|
                0 <= j < es.len() ==> {
                    &&& conversion_settles(#[trigger] es[j].0, ENUM_NAME_CASE)
                    &&& forall|f: int|
                        0 <= f < es[j].1.variants.names().len() ==> conversion_settles(
                            #[trigger] es[j].1.variants.names()[f],
                            ENUM_VALUE_CASE,
                        )
                },
        ensures
            self.lint_enums(es) is Ok,
            forall|i: int|
                0 <= i < self.lint_enums(es)->Ok_0.len() ==> self.enum_view_passes(
                    #[trigger] self.lint_enums(es)->Ok_0[i].0,
                    self.lint_enums(es)->Ok_0[i].1,
                ),
        decreases es.len(),
    {
        if es.len() == 0 {
        } else {
            let init = es.drop_last();
            assert forall|j: int| 0 <= j < init.len() implies {
                &&& conversion_settles(#[trigger] init[j].0, ENUM_NAME_CASE)
                &&& forall|f: int|
                    0 <= f < init[j].1.variants.names().len() ==> conversion_settles(
                        #[trigger] init[j].1.variants.names()[f],
                        ENUM_VALUE_CASE,
                    )
            } by {
                assert(init[j] == es[j]);
            }
            self.lemma_fixed_enums_pass(init);
            let last = es.last();
            assert(last == es[es.len() - 1]);
            let vs = last.1.variants.names();
            self.lemma_fixed_variants_pass(vs);
            Self::lemma_fixed_name_passes(
                self.spec_enum_lint(),
                last.0,
                ENUM_NAME_CASE,
                enum_name_message(),
            );
            let vs2 = self.lint_variants(vs)->Ok_0;
            let item = self.lint_enum(last.0, last.1)->Ok_0;
            assert forall|k: Seq<char>| #[trigger] item.1.variants.contains(k) implies name_passes(
                self.spec_enum_value_lint(),
                k,
                ENUM_VALUE_CASE,
            ) by {
                assert(vs2.contains(k));
                let j = choose|j: int| 0 <= j < vs2.len() && vs2[j] == k;
                assert(name_passes(self.spec_enum_value_lint(), vs2[j], ENUM_VALUE_CASE));
            }
            let prev = self.lint_enums(init)->Ok_0;
            let out = self.lint_enums(es)->Ok_0;
            assert forall|i: int| 0 <= i < out.len() implies self.enum_view_passes(
                #[trigger] out[i].0,
                out[i].1,
            ) by {
                if i < prev.len() {
                    assert(out[i] == prev[i]);
                } else {
                    assert(out[i] == item);
                }
            }
        }
    }

    /// Linting with `auto_fix` a configuration whose names settle once
    /// converted gives a configuration that lints again to itself, with no
    /// message.
    pub proof fn law_lint_idempotent(&self, config: Config, fixed: Config)
        requires
            self.spec_auto_fix(),
            self.names_settle(config),
            self.spec_lint(config) == Ok::<_, Messages>((fixed.types_view(), fixed.enums_view())),
            sorted_pairs(fixed.types.pairs()),
            sorted_pairs(fixed.enums.pairs()),
        ensures
            self.spec_lint(fixed) == Ok::<_, Messages>((fixed.types_view(), fixed.enums_view())),
    {
        let cts = config.types.pairs();
        assert forall|j: int| 0 <= j < cts.len() implies {
            &&& conversion_settles(#[trigger] cts[j].0, TYPE_NAME_CASE)
            &&& forall|f: int|
                0 <= f < cts[j].1.fields.pairs().len() ==> conversion_settles(
                    #[trigger] cts[j].1.fields.pairs()[f].0,
                    FIELD_NAME_CASE,
                )
        } by {
            assert(conversion_settles(config.types.pairs()[j].0, TYPE_NAME_CASE));
            assert forall|f: int| 0 <= f < cts[j].1.fields.pairs().len() implies conversion_settles(
                #[trigger] cts[j].1.fields.pairs()[f].0,
                FIELD_NAME_CASE,
            ) by {
                assert(conversion_settles(config.types.pairs()[j].1.fields.pairs()[f].0, FIELD_NAME_CASE));
            }
        }
        self.lemma_fixed_types_pass(cts);
        let ces = config.enums.pairs();
        assert forall|j: int| 0 <= j < ces.len() implies {
            &&& conversion_settles(#[trigger] ces[j].0, ENUM_NAME_CASE)
            &&& forall|f: int|
                0 <= f < ces[j].1.variants.names().len() ==> conversion_settles(
                    #[trigger] ces[j].1.variants.names()[f],
                    ENUM_VALUE_CASE,
                )
        } by {
            assert(conversion_settles(config.enums.pairs()[j].0, ENUM_NAME_CASE));
            assert forall|f: int| 0 <= f < ces[j].1.variants.names().len() implies conversion_settles(
                #[trigger] ces[j].1.variants.names()[f],
                ENUM_VALUE_CASE,
            ) by {
                assert(conversion_settles(config.enums.pairs()[j].1.variants.names()[f], ENUM_VALUE_CASE));
            }
        }
        self.lemma_fixed_enums_pass(ces);
        let ts2 = self.lint_types(config.types.pairs())->Ok_0;
        let es2 = self.lint_enums(config.enums.pairs())->Ok_0;
        assert(fixed.types_view() == pairs_to_map(ts2));
        assert(fixed.enums_view() == pairs_to_map(es2));
        let fps = fixed.types.pairs();
        assert forall|j: int| 0 <= j < fps.len() implies self.type_passes(
            #[trigger] fps[j].0,
            fps[j].1,
        ) by {
            let key = fps[j].0;
            let ty = fps[j].1;
            lemma_sorted_pairs_value(fps, j);
            assert(fixed.types_view().contains_key(key));
            assert(fixed.types_view()[key] == ty@);
            lemma_pairs_to_map_value_in(ts2, key);
            let i = choose|i: int|
                0 <= i < ts2.len() && #[trigger] ts2[i].0 == key && pairs_to_map(ts2)[key] == ts2[i].1;
            assert(self.type_view_passes(ts2[i].0, ts2[i].1));
            let ffs = ty.fields.pairs();
            assert forall|f: int| 0 <= f < ffs.len() implies name_passes(
                self.spec_field_lint(),
                #[trigger] ffs[f].0,
                FIELD_NAME_CASE,
            ) by {
                lemma_pairs_to_map_dom(ffs, ffs[f].0);
                assert(ty@.fields.contains_key(ffs[f].0));
            }
        }
        let eps = fixed.enums.pairs();
        assert forall|j: int| 0 <= j < eps.len() implies self.enum_passes(
            #[trigger] eps[j].0,
            eps[j].1,
        ) by {
            let key = eps[j].0;
            let en = eps[j].1;
            lemma_sorted_pairs_value(eps, j);
            assert(fixed.enums_view().contains_key(key));
            assert(fixed.enums_view()[key] == en@);
            lemma_pairs_to_map_value_in(es2, key);
            let i = choose|i: int|
                0 <= i < es2.len() && #[trigger] es2[i].0 == key && pairs_to_map(es2)[key] == es2[i].1;
            assert(self.enum_view_passes(es2[i].0, es2[i].1));
            let names = en.variants.names();
            assert forall|f: int| 0 <= f < names.len() implies name_passes(
                self.spec_enum_value_lint(),
                #[trigger] names[f],
                ENUM_VALUE_CASE,
            ) by {
                assert(names.contains(names[f]));
                assert(en@.variants.contains(names[f]));
            }
        }
        self.law_passing_config_unchanged(fixed);
    }
}


/// Every message of a failed outcome is one of the allowed texts.
pub open spec fn messages_among<T>(r: Result<T, Messages>, allowed: Set<Seq<char>>) -> bool {
    match r {
        Ok(_) => true,
        Err(m) => forall|i: int| 0 <= i < m.len() ==> allowed.contains(#[trigger] m[i]),
    }
}

proof fn lemma_gather_among<T>(
    acc: Result<Seq<T>, Messages>,
    item: Result<T, Messages>,
    allowed: Set<Seq<char>>,
)
    requires
        messages_among(acc, allowed),
        messages_among(item, allowed),
    ensures
        messages_among(gather(acc, item), allowed),
{
    if let Err(e1) = acc {
        if let Err(e2) = item {
            assert forall|i: int| 0 <= i < (e1 + e2).len() implies allowed.contains(
                #[trigger] (e1 + e2)[i],
            ) by {
                if i >= e1.len() {
                    assert((e1 + e2)[i] == e2[i - e1.len()]);
                }
            }
        }
    }
}

proof fn lemma_zip_among<A, B>(a: Result<A, Messages>, b: Result<B, Messages>, allowed: Set<Seq<char>>)
    requires
        messages_among(a, allowed),
        messages_among(b, allowed),
    ensures
        messages_among(zip(a, b), allowed),
{
    if let Err(e1) = a {
        if let Err(e2) = b {
            assert forall|i: int| 0 <= i < (e1 + e2).len() implies allowed.contains(
                #[trigger] (e1 + e2)[i],
            ) by {
                if i >= e1.len() {
                    assert((e1 + e2)[i] == e2[i - e1.len()]);
                }
            }
        }
    }
}

impl Lint {
    /// The messages of the checks that the settings turn on, read from the
    /// settings themselves: each check is on unless its own setting is `false`.
    pub open spec fn messages_of_checks_on(&self) -> Set<Seq<char>> {
        Set::new(
            |m: Seq<char>|
                (m == type_name_message() && flag_or(self.type_lint, true)) || (m
                    == field_name_message() && flag_or(self.field_lint, true)) || (m
                    == enum_name_message() && flag_or(self.enum_lint, true)) || (m
                    == enum_value_message() && flag_or(self.enum_value_lint, true)),
        )
    }

    proof fn lemma_field_messages(&self, fs: Seq<(Seq<char>, Field)>)
        ensures
            messages_among(self.lint_fields(fs), self.messages_of_checks_on()),
        decreases fs.len(),
    {
        if fs.len() > 0 {
            self.lemma_field_messages(fs.drop_last());
            lemma_gather_among(
                self.lint_fields(fs.drop_last()),
                match lint_name(
                    self.spec_field_lint(),
                    self.spec_auto_fix(),
                    fs.last().0,
                    FIELD_NAME_CASE,
                    field_name_message(),
                ) {
                    Ok(n) => Ok((n, fs.last().1)),
                    Err(e) => Err(e),
                },
                self.messages_of_checks_on(),
            );
        }
    }

    proof fn lemma_type_messages(&self, ts: Seq<(Seq<char>, Type)>)
        ensures
            messages_among(self.lint_types(ts), self.messages_of_checks_on()),
        decreases ts.len(),
    {
        let allowed = self.messages_of_checks_on();
        if ts.len() > 0 {
            let last = ts.last();
            self.lemma_type_messages(ts.drop_last());
            self.lemma_field_messages(last.1.fields.pairs());
            let name_r = lint_name(
                self.spec_type_lint(),
                self.spec_auto_fix(),
                last.0,
                TYPE_NAME_CASE,
                type_name_message(),
            );
            let fields_r = self.lint_fields(last.1.fields.pairs());
            lemma_zip_among(name_r, fields_r, allowed);
            lemma_gather_among(self.lint_types(ts.drop_last()), self.lint_type(last.0, last.1), allowed);
        }
    }

    proof fn lemma_variant_messages(&self, vs: Seq<Seq<char>>)
        ensures
            messages_among(self.lint_variants(vs), self.messages_of_checks_on()),
        decreases vs.len(),
    {
        if vs.len() > 0 {
            self.lemma_variant_messages(vs.drop_last());
            lemma_gather_among(
                self.lint_variants(vs.drop_last()),
                lint_name(
                    self.spec_enum_value_lint(),
                    self.spec_auto_fix(),
                    vs.last(),
                    ENUM_VALUE_CASE,
                    enum_value_message(),
                ),
                self.messages_of_checks_on(),
            );
        }
    }

    proof fn lemma_enum_messages(&self, es: Seq<(Seq<char>, Enum)>)
        ensures
            messages_among(self.lint_enums(es), self.messages_of_checks_on()),
        decreases es.len(),
    {
        let allowed = self.messages_of_checks_on();
        if es.len() > 0 {
            let last = es.last();
            self.lemma_enum_messages(es.drop_last());
            self.lemma_variant_messages(last.1.variants.names());
            let name_r = lint_name(
                self.spec_enum_lint(),
                self.spec_auto_fix(),
                last.0,
                ENUM_NAME_CASE,
                enum_name_message(),
            );
            lemma_zip_among(name_r, self.lint_variants(last.1.variants.names()), allowed);
            lemma_gather_among(self.lint_enums(es.drop_last()), self.lint_enum(last.0, last.1), allowed);
        }
    }

    /// A refused configuration is refused only by checks that are on: every
    /// message is the type, field, enum or enum value message, and each of them
    /// only when the `type`, `field`, `enum` or `enumValue` setting,
    /// respectively, is not `false`.
    pub proof fn law_messages_follow_checks(&self, config: Config)
        ensures
            messages_among(self.spec_lint(config), self.messages_of_checks_on()),
    {
        self.lemma_type_messages(config.types.pairs());
        self.lemma_enum_messages(config.enums.pairs());
        lemma_zip_among(
            self.lint_types(config.types.pairs()),
            self.lint_enums(config.enums.pairs()),
            self.messages_of_checks_on(),
        );
    }

    /// With the enum value check turned off (`enumValue: false`), whatever the
    /// other settings, no enum value is renamed or refused: every list of
    /// variants comes through as it is.
    pub proof fn law_enum_values_off_keeps_variants(&self, vs: Seq<Seq<char>>)
        requires
            self.enum_value_lint == Some(false),
        ensures
            self.lint_variants(vs) == Ok::<_, Messages>(vs),
    {
        self.lemma_lint_variants(vs);
    }

    /// With the enum value check turned off, linting one enum keeps its set of
    /// variants as it is and refuses the enum, if at all, for its name alone.
    pub proof fn law_enum_values_off_one_enum(&self, name: Seq<char>, e: Enum)
        requires
            self.enum_value_lint == Some(false),
        ensures
            match self.lint_enum(name, e) {
                Ok((_, ev)) => ev.variants == e@.variants && ev.doc == e.doc,
                Err(m) => m == seq![enum_name_message()],
            },
    {
        self.law_enum_values_off_keeps_variants(e.variants.names());
    }

    /// With the enum value check turned off, whatever the other settings, a
    /// refused configuration is never refused for an enum value.
    pub proof fn law_enum_values_off_no_value_message(&self, config: Config)
        requires
            self.enum_value_lint == Some(false),
        ensures
            match self.spec_lint(config) {
                Ok(_) => true,
                Err(m) => forall|i: int| 0 <= i < m.len() ==> #[trigger] m[i] != enum_value_message(),
            },
    {
        self.law_messages_follow_checks(config);
        reveal_strlit(
            "Type name {type_name} should be PascalCase, you can use @modify to correct it.",
        );
        reveal_strlit(
            "Field name {field_name} of {type_name} should be camelCase, you can use @modify to correct it.",
        );
        reveal_strlit("Enum name {enum_name} should be PascalCase, you can use @modify to correct it.");
        reveal_strlit(
            "Enum value {variant} of {enum_name} should be ALL_CAPS, you can use @modify to correct it.",
        );
        assert(type_name_message()[0] != enum_value_message()[0]);
        assert(field_name_message()[0] != enum_value_message()[0]);
        assert(enum_name_message()[5] != enum_value_message()[5]);
        if let Err(m) = self.spec_lint(config) {
            assert forall|i: int| 0 <= i < m.len() implies #[trigger] m[i] != enum_value_message() by {
                assert(self.messages_of_checks_on().contains(m[i]));
            }
        }
    }

    /// With the enum value check turned off, a configuration whose type, field
    /// and enum names all pass the checks that the `type`, `field` and `enum`
    /// settings turn on comes back unchanged, whatever case its enum values are
    /// in and whatever `autoFix` says.
    pub proof fn law_enum_values_off_config_unchanged(&self, config: Config)
        requires
            self.enum_value_lint == Some(false),
            forall|j: int|
                0 <= j < config.types.pairs().len() ==> name_passes(
                    flag_or(self.type_lint, true),
                    #[trigger] config.types.pairs()[j].0,
                    TYPE_NAME_CASE,
                ),
            forall|j: int, f: int|
                0 <= j < config.types.pairs().len() && 0 <= f
                    < config.types.pairs()[j].1.fields.pairs().len() ==> name_passes(
                    flag_or(self.field_lint, true),
                    #[trigger] config.types.pairs()[j].1.fields.pairs()[f].0,
                    FIELD_NAME_CASE,
                ),
            forall|j: int|
                0 <= j < config.enums.pairs().len() ==> name_passes(
                    flag_or(self.enum_lint, true),
                    #[trigger] config.enums.pairs()[j].0,
                    ENUM_NAME_CASE,
                ),
        ensures
            self.spec_lint(config) == Ok::<_, Messages>((config.types_view(), config.enums_view())),
    {
        let ts = config.types.pairs();
        let es = config.enums.pairs();
        assert forall|j: int| 0 <= j < ts.len() implies self.type_passes(#[trigger] ts[j].0, ts[j].1) by {
            let fs = ts[j].1.fields.pairs();
            assert forall|f: int| 0 <= f < fs.len() implies name_passes(
                self.spec_field_lint(),
                #[trigger] fs[f].0,
                FIELD_NAME_CASE,
            ) by {
                assert(name_passes(
                    flag_or(self.field_lint, true),
                    config.types.pairs()[j].1.fields.pairs()[f].0,
                    FIELD_NAME_CASE,
                ));
            }
        }
        assert forall|j: int| 0 <= j < es.len() implies self.enum_passes(#[trigger] es[j].0, es[j].1) by {
            let vs = es[j].1.variants.names();
            assert forall|i: int| 0 <= i < vs.len() implies name_passes(
                self.spec_enum_value_lint(),
                #[trigger] vs[i],
                ENUM_VALUE_CASE,
            ) by {}
        }
        self.law_passing_config_unchanged(config);
    }

    /// Every name of the configuration passes the check that its own setting
    /// decides: type names under `type`, field names under `field`, enum names
    /// under `enum` and enum values under `enumValue`, each check on unless
    /// its setting is `false`.
    pub open spec fn names_pass_settings(&self, config: Config) -> bool {
        &&& forall|j: int|
            0 <= j < config.types.pairs().len() ==> name_passes(
                flag_or(self.type_lint, true),
                #[trigger] config.types.pairs()[j].0,
                TYPE_NAME_CASE,
            )
        &&& forall|j: int, f: int|
            0 <= j < config.types.pairs().len() && 0 <= f
                < config.types.pairs()[j].1.fields.pairs().len() ==> name_passes(
                flag_or(self.field_lint, true),
                #[trigger] config.types.pairs()[j].1.fields.pairs()[f].0,
                FIELD_NAME_CASE,
            )
        &&& forall|j: int|
            0 <= j < config.enums.pairs().len() ==> name_passes(
                flag_or(self.enum_lint, true),
                #[trigger] config.enums.pairs()[j].0,
                ENUM_NAME_CASE,
            )
        &&& forall|j: int, i: int|
            0 <= j < config.enums.pairs().len() && 0 <= i
                < config.enums.pairs()[j].1.variants.names().len() ==> name_passes(
                flag_or(self.enum_value_lint, true),
                #[trigger] config.enums.pairs()[j].1.variants.names()[i],
                ENUM_VALUE_CASE,
            )
    }

    proof fn lemma_names_pass_settings(&self, config: Config)
        ensures
            self.names_pass_settings(config) <==> self.config_passes(config),
    {
        let ts = config.types.pairs();
        let es = config.enums.pairs();
        if self.names_pass_settings(config) {
            assert forall|j: int| 0 <= j < ts.len() implies self.type_passes(
                #[trigger] ts[j].0,
                ts[j].1,
            ) by {
                let fs = ts[j].1.fields.pairs();
                assert forall|f: int| 0 <= f < fs.len() implies name_passes(
                    self.spec_field_lint(),
                    #[trigger] fs[f].0,
                    FIELD_NAME_CASE,
                ) by {
                    assert(name_passes(
                        flag_or(self.field_lint, true),
                        config.types.pairs()[j].1.fields.pairs()[f].0,
                        FIELD_NAME_CASE,
                    ));
                }
            }
            assert forall|j: int| 0 <= j < es.len() implies self.enum_passes(
                #[trigger] es[j].0,
                es[j].1,
            ) by {
                let vs = es[j].1.variants.names();
                assert forall|i: int| 0 <= i < vs.len() implies name_passes(
                    self.spec_enum_value_lint(),
                    #[trigger] vs[i],
                    ENUM_VALUE_CASE,
                ) by {
                    assert(name_passes(
                        flag_or(self.enum_value_lint, true),
                        config.enums.pairs()[j].1.variants.names()[i],
                        ENUM_VALUE_CASE,
                    ));
                }
            }
        }
        if self.config_passes(config) {
            assert forall|j: int, f: int|
                0 <= j < ts.len() && 0 <= f < ts[j].1.fields.pairs().len() implies name_passes(
                flag_or(self.field_lint, true),
                #[trigger] ts[j].1.fields.pairs()[f].0,
                FIELD_NAME_CASE,
            ) by {
                assert(self.type_passes(ts[j].0, ts[j].1));
                let fs = ts[j].1.fields.pairs();
                assert(name_passes(self.spec_field_lint(), fs[f].0, FIELD_NAME_CASE));
            }
            assert forall|j: int, i: int|
                0 <= j < es.len() && 0 <= i < es[j].1.variants.names().len() implies name_passes(
                flag_or(self.enum_value_lint, true),
                #[trigger] es[j].1.variants.names()[i],
                ENUM_VALUE_CASE,
            ) by {
                assert(self.enum_passes(es[j].0, es[j].1));
                let vs = es[j].1.variants.names();
                assert(name_passes(self.spec_enum_value_lint(), vs[i], ENUM_VALUE_CASE));
            }
            assert forall|j: int| 0 <= j < ts.len() implies name_passes(
                flag_or(self.type_lint, true),
                #[trigger] ts[j].0,
                TYPE_NAME_CASE,
            ) by {
                assert(self.type_passes(ts[j].0, ts[j].1));
            }
            assert forall|j: int| 0 <= j < es.len() implies name_passes(
                flag_or(self.enum_lint, true),
                #[trigger] es[j].0,
                ENUM_NAME_CASE,
            ) by {
                assert(self.enum_passes(es[j].0, es[j].1));
            }
        }
    }

    /// Unless `autoFix` is `true`, linting succeeds exactly when every name
    /// passes the check that its own setting decides; `autoFix` left out
    /// counts as `false`.
    pub proof fn law_settings_decide_checks(&self, config: Config)
        requires
            self.auto_fix != Some(true),
        ensures
            self.spec_lint(config) is Ok <==> self.names_pass_settings(config),
    {
        self.lemma_names_pass_settings(config);
        self.law_check_only_fails_on_wrong_names(config);
    }

    /// A configuration whose names all pass the checks that their settings
    /// decide comes back unchanged, whatever `autoFix` says.
    pub proof fn law_names_passing_settings_unchanged(&self, config: Config)
        requires
            self.names_pass_settings(config),
        ensures
            self.spec_lint(config) == Ok::<_, Messages>((config.types_view(), config.enums_view())),
    {
        self.lemma_names_pass_settings(config);
        self.law_passing_config_unchanged(config);
    }

    /// With `autoFix: true`, linting never fails, whatever the other settings.
    pub proof fn law_auto_fix_true_never_fails(&self, config: Config)
        requires
            self.auto_fix == Some(true),
        ensures
            self.spec_lint(config) is Ok,
    {
        self.law_auto_fix_never_fails(config);
    }

    /// Whether enum values are checked follows the `enumValue` setting alone:
    /// when it is not turned off and `autoFix` is not on, a configuration that
    /// lints without error has every enum value in its case, whatever the
    /// `enum` setting says.
    pub proof fn law_enum_values_on_checks_values(&self, config: Config)
        requires
            self.enum_value_lint != Some(false),
            self.auto_fix != Some(true),
            self.spec_lint(config) is Ok,
        ensures
            forall|j: int, i: int|
                0 <= j < config.enums.pairs().len() && 0 <= i
                    < config.enums.pairs()[j].1.variants.names().len() ==> spec_to_case(
                    #[trigger] config.enums.pairs()[j].1.variants.names()[i],
                    ENUM_VALUE_CASE,
                ) == config.enums.pairs()[j].1.variants.names()[i],
    {
        self.law_check_only_fails_on_wrong_names(config);
        let es = config.enums.pairs();
        assert forall|j: int, i: int|
            0 <= j < es.len() && 0 <= i < es[j].1.variants.names().len() implies spec_to_case(
            #[trigger] es[j].1.variants.names()[i],
            ENUM_VALUE_CASE,
        ) == es[j].1.variants.names()[i] by {
            assert(self.enum_passes(es[j].0, es[j].1));
            let vs = es[j].1.variants.names();
            assert(name_passes(self.spec_enum_value_lint(), vs[i], ENUM_VALUE_CASE));
        }
    }
}

} // verus!
