use vstd::prelude::*;
use vstd::string::*;
use crate::ast::{FieldArity, Span};
use crate::diagnostics::{error_view, DatamodelError, Diagnostics, ErrorKind, ErrorView};
use crate::names::{NameRegistry, NamespaceKind};
use crate::schema::{
    CompositeType, ConnectorCapability, Enum, Index, Model, Relation, RelationField, Schema, ValidationContext,
};

verus! {

// ---------------------------------------------------------------------------
// Messages.

fn join3(a: &str, b: &str, c: &str) -> (r: String)
    ensures
        r@ == a@ + b@ + c@,
{
    let mut r = String::from_str(a);
    r.append(b);
    r.append(c);
    r
}

fn join5(a: &str, b: &str, c: &str, d: &str, e: &str) -> (r: String)
    ensures
        r@ == a@ + b@ + c@ + d@ + e@,
{
    let mut r = join3(a, b, c);
    r.append(d);
    r.append(e);
    r
}

fn join7(a: &str, b: &str, c: &str, d: &str, e: &str, f: &str, g: &str) -> (r: String)
    ensures
        r@ == a@ + b@ + c@ + d@ + e@ + f@ + g@,
{
    let mut r = join5(a, b, c, d, e);
    r.append(f);
    r.append(g);
    r
}

pub open spec fn validation_error(message: Seq<char>, span: Span) -> ErrorView {
    error_view(ErrorKind::ValidationError, message, span)
}

pub open spec fn static_error(message: Seq<char>, span: Span) -> ErrorView {
    error_view(ErrorKind::StaticError, message, span)
}

pub open spec fn duplicate_model_error(m: Model) -> ErrorView {
    validation_error(
        "The model \""@ + m.name@ + "\" cannot be defined because a model with that name already exists."@,
        m.span,
    )
}

pub open spec fn empty_primary_key_error(m: Model, span: Span) -> ErrorView {
    validation_error(
        "The primary key of model \""@ + m.name@ + "\" must name at least one field."@,
        span,
    )
}

pub open spec fn duplicate_field_error(field: Seq<char>, model: Seq<char>, span: Span) -> ErrorView {
    validation_error(
        "Field \""@ + field + "\" is already defined on model \""@ + model + "\"."@,
        span,
    )
}

pub open spec fn ambiguity_error(field: Seq<char>, model: Seq<char>, target: Seq<char>, span: Span) -> ErrorView {
    validation_error(
        "Ambiguous relation detected. The field `"@ + field + "` in model `"@ + model
            + "` and another field both refer to `"@ + target
            + "`. Please provide different relation names for them by adding `@relation(<name>).`"@,
        span,
    )
}

pub open spec fn empty_index_error(span: Span) -> ErrorView {
    validation_error(
        "The list of fields in an index cannot be empty. Please specify at least one field."@,
        span,
    )
}

pub open spec fn unknown_index_field_error(field: Seq<char>, span: Span) -> ErrorView {
    validation_error("The index definition refers to the unknown field `"@ + field + "`."@, span)
}

pub open spec fn duplicate_constraint_error(name: Seq<char>, span: Span) -> ErrorView {
    validation_error(
        "The given constraint name `"@ + name + "` has to be unique in the model."@,
        span,
    )
}

pub open spec fn unsupported_enum_error(e: Enum) -> ErrorView {
    validation_error(
        "You defined the enum `"@ + e.name@ + "`. But the current connector does not support enums."@,
        e.span,
    )
}

pub open spec fn schema_attribute_message() -> Seq<char> {
    "@@schema is only available with the `multiSchema` preview feature."@
}

pub open spec fn schemas_property_message() -> Seq<char> {
    "The `schemas` property is only availably with the `multiSchema` preview feature."@
}

pub open spec fn schemas_unsupported_message() -> Seq<char> {
    "The `schemas` property is not supported on the current connector."@
}

pub open spec fn mismatched_references_error(span: Span) -> ErrorView {
    validation_error(
        "You must specify the same number of fields in `fields` and `references`."@,
        span,
    )
}

pub open spec fn missing_opposite_error(field: Seq<char>, model: Seq<char>, target: Seq<char>, span: Span) -> ErrorView {
    validation_error(
        "The relation field `"@ + field + "` on model `"@ + model
            + "` is missing an opposite relation field on the model `"@ + target + "`."@,
        span,
    )
}

pub open spec fn implicit_unsupported_error(span: Span) -> ErrorView {
    validation_error(
        "Implicit many-to-many relations are not supported on the current connector."@,
        span,
    )
}

pub open spec fn embedded_unsupported_error(span: Span) -> ErrorView {
    validation_error(
        "Embedded many-to-many relations are not supported on the current connector."@,
        span,
    )
}

// ---------------------------------------------------------------------------
// Relation classification.

/// The shape of a relation.
#[derive(Clone, Copy, Debug, PartialEq, Eq, Structural)]
pub enum RelationKind {
    /// One side holds the foreign key: one-to-one or one-to-many.
    Inline,
    /// Both sides are lists and the join table is implicit.
    ImplicitManyToMany,
    /// Both sides are lists and both declare `fields`: no join table.
    TwoWayEmbeddedManyToMany,
}

pub open spec fn classify_spec(a: RelationField, b: Option<RelationField>) -> RelationKind {
    match b {
        Some(b) => if a.arity == FieldArity::List && b.arity == FieldArity::List {
            if a.fields@.len() > 0 && b.fields@.len() > 0 {
                RelationKind::TwoWayEmbeddedManyToMany
            } else {
                RelationKind::ImplicitManyToMany
            }
        } else {
            RelationKind::Inline
        },
        None => RelationKind::Inline,
    }
}

/// Classifies a relation from its two sides; a pure function of what they declare.
pub fn classify(a: &RelationField, b: Option<&RelationField>) -> (r: RelationKind)
    ensures
        r == classify_spec(
            *a,
            match b {
                Some(x) => Some(*x),
                None => None,
            },
        ),
{
    match b {
        Some(b) => if a.arity == FieldArity::List && b.arity == FieldArity::List {
            if a.fields.len() > 0 && b.fields.len() > 0 {
                RelationKind::TwoWayEmbeddedManyToMany
            } else {
                RelationKind::ImplicitManyToMany
            }
        } else {
            RelationKind::Inline
        },
        None => RelationKind::Inline,
    }
}

/// An inline relation is one-to-one when both sides exist and neither is a list.
pub open spec fn is_one_to_one_spec(a: RelationField, b: Option<RelationField>) -> bool {
    match b {
        Some(b) => a.arity != FieldArity::List && b.arity != FieldArity::List,
        None => false,
    }
}

pub fn is_one_to_one(a: &RelationField, b: Option<&RelationField>) -> (r: bool)
    ensures
        r == is_one_to_one_spec(
            *a,
            match b {
                Some(x) => Some(*x),
                None => None,
            },
        ),
{
    match b {
        Some(b) => a.arity != FieldArity::List && b.arity != FieldArity::List,
        None => false,
    }
}

pub open spec fn both_sides_define_fields_error(span: Span) -> ErrorView {
    validation_error(
        "Only one side of a one-to-one relation may define `fields` and `references`."@,
        span,
    )
}

// ---------------------------------------------------------------------------
// Composite types.

/// Type `d` has a required field holding type `b`.
pub open spec fn required_edge(s: Schema, d: int, b: int) -> bool {
    exists|f: int|
        0 <= f < s.composite_types@[d].fields@.len() && (#[trigger] s.composite_types@[d].fields@[f]).composite
            == Some(b as usize) && s.composite_types@[d].fields@[f].arity == FieldArity::Required
}

/// `b` is reached from `a` by a path of between one and `k` required fields.
pub open spec fn reaches(s: Schema, a: int, b: int, k: int) -> bool
    decreases k,
{
    if k <= 0 {
        false
    } else {
        exists|d: int|
            0 <= d < s.composite_types@.len() && #[trigger] required_edge(s, d, b) && (d == a
                || reaches(s, a, d, k - 1))
    }
}

/// The type lies on a cycle of required composite fields, which no document
/// could ever close.
pub open spec fn on_cycle(s: Schema, t: int) -> bool {
    reaches(s, t, t, s.composite_types@.len() as int)
}

pub open spec fn composite_cycle_error(c: CompositeType) -> ErrorView {
    validation_error(
        "The composite type `"@ + c.name@
            + "` is part of a cycle of required fields. Make one of the fields optional or a list to break the cycle."@,
        c.span,
    )
}

pub open spec fn composite_unsupported_error(c: CompositeType) -> ErrorView {
    validation_error("Composite types are not supported on the current connector."@, c.span)
}

pub open spec fn composite_without_fields_error(c: CompositeType) -> ErrorView {
    validation_error("A type must have at least one field defined."@, c.span)
}

pub open spec fn cycle_rules(s: Schema, n: int) -> Seq<ErrorView>
    decreases n,
{
    if n <= 0 {
        Seq::empty()
    } else {
        cycle_rules(s, n - 1) + if on_cycle(s, n - 1) {
            seq![composite_cycle_error(s.composite_types@[n - 1])]
        } else {
            Seq::empty()
        }
    }
}

/// The per-type rules of the first `n` composite types. The field rules of a
/// type run only while nothing at all has been reported: `before` counts what
/// was reported ahead of these rules.
pub open spec fn composite_rules(s: Schema, ctx: ValidationContext, before: int, n: int) -> Seq<ErrorView>
    decreases n,
{
    if n <= 0 {
        Seq::empty()
    } else {
        let c = s.composite_types@[n - 1];
        let acc = composite_rules(s, ctx, before, n - 1) + if ctx.connector.spec_has_capability(
            ConnectorCapability::CompositeTypes,
        ) {
            Seq::empty()
        } else {
            seq![composite_unsupported_error(c)]
        };
        if before + acc.len() == 0 && c.fields@.len() == 0 {
            acc.push(composite_without_fields_error(c))
        } else {
            acc
        }
    }
}

/// Cycle detection first, then the per-type rules.
pub open spec fn composite_phase(s: Schema, ctx: ValidationContext, prior: int) -> Seq<ErrorView> {
    let cycles = cycle_rules(s, s.composite_types@.len() as int);
    cycles + composite_rules(s, ctx, prior + cycles.len(), s.composite_types@.len() as int)
}

// ---------------------------------------------------------------------------
// Per-model rules.

/// An earlier model has the same name.
pub open spec fn model_name_taken(s: Schema, i: int) -> bool {
    exists|j: int| 0 <= j < i && (#[trigger] s.models@[j]).name@ == s.models@[i].name@
}

pub open spec fn model_rules(s: Schema, i: int) -> Seq<ErrorView> {
    let m = s.models@[i];
    (if model_name_taken(s, i) {
        seq![duplicate_model_error(m)]
    } else {
        Seq::empty()
    }) + match m.primary_key {
        Some(pk) => if pk.fields@.len() == 0 {
            seq![empty_primary_key_error(m, pk.span)]
        } else {
            Seq::empty()
        },
        None => Seq::empty(),
    }
}

/// An earlier scalar field of the model has the same name.
pub open spec fn scalar_name_taken(m: Model, k: int) -> bool {
    exists|j: int| 0 <= j < k && (#[trigger] m.scalar_fields@[j]).name@ == m.scalar_fields@[k].name@
}

/// The name clashes of the first `n` scalar fields, in order.
pub open spec fn scalar_field_rules(m: Model, n: int) -> Seq<ErrorView>
    decreases n,
{
    if n <= 0 {
        Seq::empty()
    } else {
        scalar_field_rules(m, n - 1) + if scalar_name_taken(m, n - 1) {
            seq![duplicate_field_error(m.scalar_fields@[n - 1].name@, m.name@, m.scalar_fields@[n - 1].span)]
        } else {
            Seq::empty()
        }
    }
}

/// Another unnamed relation field of the model points at the same other model.
pub open spec fn is_ambiguous(m: Model, own: int, k: int) -> bool {
    let f = m.relation_fields@[k];
    &&& f.relation_name is None
    &&& f.target_model != own
    &&& exists|j: int|
        0 <= j < m.relation_fields@.len() && j != k && (#[trigger] m.relation_fields@[j]).target_model
            == f.target_model && m.relation_fields@[j].relation_name is None
}

/// A scalar field, or an earlier relation field, has the same name.
pub open spec fn relation_name_taken(m: Model, k: int) -> bool {
    (exists|j: int|
        0 <= j < m.scalar_fields@.len() && (#[trigger] m.scalar_fields@[j]).name@
            == m.relation_fields@[k].name@) || (exists|j: int|
        0 <= j < k && (#[trigger] m.relation_fields@[j]).name@ == m.relation_fields@[k].name@)
}

/// The rules of the first `n` relation fields of model `i`, and whether an
/// ambiguous field ended the run.
pub open spec fn relation_field_rules(s: Schema, i: int, n: int) -> (Seq<ErrorView>, bool)
    decreases n,
{
    if n <= 0 {
        (Seq::empty(), false)
    } else {
        let prev = relation_field_rules(s, i, n - 1);
        let m = s.models@[i];
        let f = m.relation_fields@[n - 1];
        if prev.1 {
            prev
        } else if is_ambiguous(m, i, n - 1) {
            (
                prev.0.push(
                    ambiguity_error(f.name@, m.name@, s.models@[f.target_model as int].name@, f.span),
                ),
                true,
            )
        } else if relation_name_taken(m, n - 1) {
            (prev.0.push(duplicate_field_error(f.name@, m.name@, f.span)), false)
        } else {
            (prev.0, false)
        }
    }
}

/// A field of the model with this name exists.
pub open spec fn has_scalar_field(m: Model, name: Seq<char>) -> bool {
    exists|j: int| 0 <= j < m.scalar_fields@.len() && (#[trigger] m.scalar_fields@[j]).name@ == name
}

pub open spec fn unknown_fields(m: Model, x: Index, n: int) -> Seq<ErrorView>
    decreases n,
{
    if n <= 0 {
        Seq::empty()
    } else {
        unknown_fields(m, x, n - 1) + if has_scalar_field(m, x.fields@[n - 1]@) {
            Seq::empty()
        } else {
            seq![unknown_index_field_error(x.fields@[n - 1]@, x.span)]
        }
    }
}

/// An earlier index of the model has the same constraint name.
pub open spec fn constraint_name_taken(m: Model, k: int) -> bool {
    let x = m.indexes@[k];
    &&& x.constraint_name is Some
    &&& exists|j: int|
        0 <= j < k && (#[trigger] m.indexes@[j]).constraint_name is Some
            && m.indexes@[j].constraint_name->0@ == x.constraint_name->0@
}

pub open spec fn index_rules(m: Model, n: int) -> Seq<ErrorView>
    decreases n,
{
    if n <= 0 {
        Seq::empty()
    } else {
        let x = m.indexes@[n - 1];
        index_rules(m, n - 1) + (if x.fields@.len() == 0 {
            seq![empty_index_error(x.span)]
        } else {
            Seq::empty()
        }) + (if constraint_name_taken(m, n - 1) {
            seq![duplicate_constraint_error(x.constraint_name->0@, x.span)]
        } else {
            Seq::empty()
        }) + unknown_fields(m, x, x.fields@.len() as int)
    }
}

/// The rules of the first `n` models in order, and whether an ambiguous
/// relation field ended the run.
pub open spec fn model_phase(s: Schema, n: int) -> (Seq<ErrorView>, bool)
    decreases n,
{
    if n <= 0 {
        (Seq::empty(), false)
    } else {
        let prev = model_phase(s, n - 1);
        let m = s.models@[n - 1];
        if prev.1 {
            prev
        } else {
            let rel = relation_field_rules(s, n - 1, m.relation_fields@.len() as int);
            let errs = prev.0 + model_rules(s, n - 1) + scalar_field_rules(
                m,
                m.scalar_fields@.len() as int,
            ) + rel.0;
            if rel.1 {
                (errs, true)
            } else {
                (errs + index_rules(m, m.indexes@.len() as int), false)
            }
        }
    }
}

// ---------------------------------------------------------------------------
// Schema-wide rules.

pub open spec fn enum_rules(s: Schema, ctx: ValidationContext, n: int) -> Seq<ErrorView>
    decreases n,
{
    if n <= 0 || ctx.connector.supports_enums {
        Seq::empty()
    } else {
        enum_rules(s, ctx, n - 1).push(unsupported_enum_error(s.enums@[n - 1]))
    }
}

pub open spec fn model_schema_attributes(s: Schema, n: int) -> Seq<ErrorView>
    decreases n,
{
    if n <= 0 {
        Seq::empty()
    } else {
        model_schema_attributes(s, n - 1) + match s.models@[n - 1].schema {
            Some(span) => seq![static_error(schema_attribute_message(), span)],
            None => Seq::empty(),
        }
    }
}

pub open spec fn enum_schema_attributes(s: Schema, n: int) -> Seq<ErrorView>
    decreases n,
{
    if n <= 0 {
        Seq::empty()
    } else {
        enum_schema_attributes(s, n - 1) + match s.enums@[n - 1].schema {
            Some(span) => seq![static_error(schema_attribute_message(), span)],
            None => Seq::empty(),
        }
    }
}

pub open spec fn missing_model_schemas(s: Schema, n: int) -> Seq<ErrorView>
    decreases n,
{
    if n <= 0 {
        Seq::empty()
    } else {
        missing_model_schemas(s, n - 1) + if s.models@[n - 1].schema is None {
            seq![static_error("This model is missing an `@@schema` attribute."@, s.models@[n - 1].span)]
        } else {
            Seq::empty()
        }
    }
}

pub open spec fn missing_enum_schemas(s: Schema, n: int) -> Seq<ErrorView>
    decreases n,
{
    if n <= 0 {
        Seq::empty()
    } else {
        missing_enum_schemas(s, n - 1) + if s.enums@[n - 1].schema is None {
            seq![static_error("This enum is missing an `@@schema` attribute."@, s.enums@[n - 1].span)]
        } else {
            Seq::empty()
        }
    }
}

/// Without the preview feature every `@@schema` and the datasource's
/// `schemas` are errors. With it, where the datasource lists `schemas`, every
/// model and enum needs `@@schema`, and `schemas` needs the connector's support.
pub open spec fn schema_rules(s: Schema, ctx: ValidationContext) -> Seq<ErrorView> {
    if !ctx.multi_schema_enabled {
        model_schema_attributes(s, s.models@.len() as int) + enum_schema_attributes(
            s,
            s.enums@.len() as int,
        ) + match ctx.datasource_schemas {
            Some(span) => seq![static_error(schemas_property_message(), span)],
            None => Seq::empty(),
        }
    } else {
        (if ctx.datasource_schemas is Some {
            missing_model_schemas(s, s.models@.len() as int) + missing_enum_schemas(
                s,
                s.enums@.len() as int,
            )
        } else {
            Seq::empty()
        }) + if !ctx.connector.spec_has_capability(ConnectorCapability::MultiSchema) {
            match ctx.datasource_schemas {
                Some(span) => seq![static_error(schemas_unsupported_message(), span)],
                None => Seq::empty(),
            }
        } else {
            Seq::empty()
        }
    }
}

pub open spec fn side_a(s: Schema, r: Relation) -> RelationField {
    s.models@[r.model_a as int].relation_fields@[r.field_a as int]
}

pub open spec fn side_b(s: Schema, r: Relation) -> Option<RelationField> {
    match r.side_b {
        Some((m, f)) => Some(s.models@[m as int].relation_fields@[f as int]),
        None => None,
    }
}

/// The rules that apply to one relation, chosen by its shape.
pub open spec fn relation_rules(s: Schema, ctx: ValidationContext, r: Relation) -> Seq<ErrorView> {
    let a = side_a(s, r);
    let b = side_b(s, r);
    match classify_spec(a, b) {
        RelationKind::Inline => (if a.fields@.len() != a.references@.len() {
            seq![mismatched_references_error(a.span)]
        } else {
            Seq::empty()
        }) + if is_one_to_one_spec(a, b) {
            if a.fields@.len() > 0 && b->0.fields@.len() > 0 {
                seq![both_sides_define_fields_error(a.span)]
            } else {
                Seq::empty()
            }
        } else if b is None {
            seq![
                missing_opposite_error(
                    a.name@,
                    s.models@[r.model_a as int].name@,
                    s.models@[a.target_model as int].name@,
                    a.span,
                ),
            ]
        } else {
            Seq::empty()
        },
        RelationKind::ImplicitManyToMany => if ctx.connector.spec_has_capability(
            ConnectorCapability::ImplicitManyToManyRelation,
        ) {
            Seq::empty()
        } else {
            seq![implicit_unsupported_error(a.span)]
        },
        RelationKind::TwoWayEmbeddedManyToMany => if ctx.connector.spec_has_capability(
            ConnectorCapability::TwoWayEmbeddedManyToManyRelation,
        ) {
            Seq::empty()
        } else {
            seq![embedded_unsupported_error(a.span)]
        },
    }
}

pub open spec fn relations_phase(s: Schema, ctx: ValidationContext, n: int) -> Seq<ErrorView>
    decreases n,
{
    if n <= 0 {
        Seq::empty()
    } else {
        relations_phase(s, ctx, n - 1) + relation_rules(s, ctx, s.relations@[n - 1])
    }
}

/// Everything that a validation run reports, in order: the composite types,
/// the per-model rules, then (unless an ambiguous relation field ended the
/// run) enums, `@@schema` and the relations. `prior` is the number of errors
/// reported before the run.
pub open spec fn validate_spec(s: Schema, ctx: ValidationContext, prior: int) -> Seq<ErrorView> {
    let composites = composite_phase(s, ctx, prior);
    let models = model_phase(s, s.models@.len() as int);
    if models.1 {
        composites + models.0
    } else {
        composites + models.0 + enum_rules(s, ctx, s.enums@.len() as int) + schema_rules(s, ctx)
            + relations_phase(s, ctx, s.relations@.len() as int)
    }
}

// ---------------------------------------------------------------------------
// The rules, executable.

/// The field names registered for model `scope` after its first `ns` scalar
/// fields and first `nr` relation fields.
pub open spec fn field_keys(m: Model, scope: usize, ns: int, nr: int) -> Set<
    (NamespaceKind, usize, Seq<char>),
> {
    Set::new(
        |k: (NamespaceKind, usize, Seq<char>)|
            k.0 == NamespaceKind::ModelFields && k.1 == scope && ((exists|j: int|
                0 <= j < ns && (#[trigger] m.scalar_fields@[j]).name@ == k.2) || (exists|j: int|
                0 <= j < nr && (#[trigger] m.relation_fields@[j]).name@ == k.2)),
    )
}

fn scalar_field_checks(m: &Model, scope: usize, names: &mut NameRegistry, diagnostics: &mut Diagnostics)
    requires
        old(names).keys() == Set::<(NamespaceKind, usize, Seq<char>)>::empty(),
    ensures
        final(diagnostics)@ == old(diagnostics)@ + scalar_field_rules(
            *m,
            m.scalar_fields@.len() as int,
        ),
        final(names).keys() == field_keys(*m, scope, m.scalar_fields@.len() as int, 0),
{
    let mut k: usize = 0;
    assert(names.keys() =~= field_keys(*m, scope, 0, 0));
    assert(diagnostics@ =~= old(diagnostics)@ + scalar_field_rules(*m, 0));
    while k < m.scalar_fields.len()
        invariant
            k <= m.scalar_fields@.len(),
            names.keys() == field_keys(*m, scope, k as int, 0),
            diagnostics@ == old(diagnostics)@ + scalar_field_rules(*m, k as int),
        decreases m.scalar_fields@.len() - k,
    {
        let f = &m.scalar_fields[k];
        let ghost before = diagnostics@;
        let fresh = names.register(NamespaceKind::ModelFields, scope, &f.name);
        assert(fresh == !scalar_name_taken(*m, k as int));
        if !fresh {
            let msg = join5("Field \"", f.name.as_str(), "\" is already defined on model \"", m.name.as_str(), "\".");
            diagnostics.push_error(DatamodelError::new_validation_error(msg, f.span));
        }
        assert(diagnostics@ =~= old(diagnostics)@ + scalar_field_rules(*m, k + 1));
        assert(names.keys() =~= field_keys(*m, scope, k + 1, 0));
        k = k + 1;
    }
}

fn is_ambiguous_exec(m: &Model, own: usize, k: usize) -> (r: bool)
    requires
        k < m.relation_fields@.len(),
    ensures
        r == is_ambiguous(*m, own as int, k as int),
{
    let f = &m.relation_fields[k];
    if f.relation_name.is_some() || f.target_model == own {
        return false;
    }
    let mut j: usize = 0;
    while j < m.relation_fields.len()
        invariant
            j <= m.relation_fields@.len(),
            k < m.relation_fields@.len(),
            f == m.relation_fields@[k as int],
            f.relation_name is None,
            f.target_model != own,
            forall|q: int|
                0 <= q < j ==> !(q != k && (#[trigger] m.relation_fields@[q]).target_model
                    == f.target_model && m.relation_fields@[q].relation_name is None),
        decreases m.relation_fields@.len() - j,
    {
        let g = &m.relation_fields[j];
        if j != k && g.target_model == f.target_model && g.relation_name.is_none() {
            assert(m.relation_fields@[j as int].target_model == f.target_model);
            return true;
        }
        j = j + 1;
    }
    false
}

fn required_edge_exec(s: &Schema, d: usize, b: usize) -> (r: bool)
    requires
        d < s.composite_types@.len(),
    ensures
        r == required_edge(*s, d as int, b as int),
{
    let c = &s.composite_types[d];
    let mut f: usize = 0;
    while f < c.fields.len()
        invariant
            d < s.composite_types@.len(),
            *c == s.composite_types@[d as int],
            f <= c.fields@.len(),
            forall|q: int|
                0 <= q < f ==> !((#[trigger] c.fields@[q]).composite == Some(b) && c.fields@[q].arity
                    == FieldArity::Required),
        decreases c.fields@.len() - f,
    {
        let x = &c.fields[f];
        if x.arity == FieldArity::Required {
            match x.composite {
                Some(target) => {
                    if target == b {
                        assert(s.composite_types@[d as int].fields@[f as int].composite == Some(b));
                        return true;
                    }
                },
                None => {},
            }
        }
        f = f + 1;
    }
    false
}

/// One more round of reachability from `t`: `b` is reached within `k + 1`
/// steps when some `d` with a required edge to `b` is `t` or reached within `k`.
fn reach_round(s: &Schema, t: usize, cur: &Vec<bool>, k: Ghost<int>) -> (next: Vec<bool>)
    requires
        cur@.len() == s.composite_types@.len(),
        forall|b: int| 0 <= b < cur@.len() ==> cur@[b] == reaches(*s, t as int, b, k@),
        k@ >= 0,
    ensures
        next@.len() == s.composite_types@.len(),
        forall|b: int| 0 <= b < next@.len() ==> next@[b] == reaches(*s, t as int, b, k@ + 1),
{
    let n = s.composite_types.len();
    let mut next: Vec<bool> = Vec::new();
    let mut b: usize = 0;
    while b < n
        invariant
            n == s.composite_types@.len(),
            cur@.len() == n,
            forall|q: int| 0 <= q < n ==> cur@[q] == reaches(*s, t as int, q, k@),
            k@ >= 0,
            b <= n,
            next@.len() == b,
            forall|q: int| 0 <= q < b ==> next@[q] == reaches(*s, t as int, q, k@ + 1),
        decreases n - b,
    {
        let mut found = false;
        let mut d: usize = 0;
        while d < n
            invariant
                n == s.composite_types@.len(),
                cur@.len() == n,
                forall|q: int| 0 <= q < n ==> cur@[q] == reaches(*s, t as int, q, k@),
                b < n,
                d <= n,
                found == exists|q: int|
                    0 <= q < d && #[trigger] required_edge(*s, q, b as int) && (q == t as int
                        || reaches(*s, t as int, q, k@)),
            decreases n - d,
        {
            if (d == t || cur[d]) && required_edge_exec(s, d, b) {
                found = true;
            }
            d = d + 1;
        }
        assert(found == reaches(*s, t as int, b as int, k@ + 1));
        next.push(found);
        b = b + 1;
    }
    next
}

fn on_cycle_exec(s: &Schema, t: usize) -> (r: bool)
    requires
        t < s.composite_types@.len(),
    ensures
        r == on_cycle(*s, t as int),
{
    let n = s.composite_types.len();
    let mut cur: Vec<bool> = Vec::new();
    let mut b: usize = 0;
    while b < n
        invariant
            n == s.composite_types@.len(),
            b <= n,
            cur@.len() == b,
            forall|q: int| 0 <= q < b ==> cur@[q] == reaches(*s, t as int, q, 0),
        decreases n - b,
    {
        cur.push(false);
        b = b + 1;
    }
    let mut k: usize = 0;
    while k < n
        invariant
            n == s.composite_types@.len(),
            k <= n,
            cur@.len() == n,
            forall|q: int| 0 <= q < n ==> cur@[q] == reaches(*s, t as int, q, k as int),
        decreases n - k,
    {
        cur = reach_round(s, t, &cur, Ghost(k as int));
        k = k + 1;
    }
    cur[t]
}

fn composite_checks(s: &Schema, ctx: &ValidationContext, diagnostics: &mut Diagnostics)
    ensures
        final(diagnostics)@ == old(diagnostics)@ + composite_phase(*s, *ctx, old(diagnostics)@.len() as int),
{
    let n = s.composite_types.len();
    let mut t: usize = 0;
    assert(diagnostics@ =~= old(diagnostics)@ + cycle_rules(*s, 0));
    while t < n
        invariant
            n == s.composite_types@.len(),
            t <= n,
            diagnostics@ == old(diagnostics)@ + cycle_rules(*s, t as int),
        decreases n - t,
    {
        if on_cycle_exec(s, t) {
            let c = &s.composite_types[t];
            let msg = join3(
                "The composite type `",
                c.name.as_str(),
                "` is part of a cycle of required fields. Make one of the fields optional or a list to break the cycle.",
            );
            diagnostics.push_error(DatamodelError::new_validation_error(msg, c.span));
        }
        assert(diagnostics@ =~= old(diagnostics)@ + cycle_rules(*s, t + 1));
        t = t + 1;
    }
    let ghost d1 = diagnostics@;
    let ghost before: int = (old(diagnostics)@.len() + cycle_rules(*s, n as int).len()) as int;
    let supported = ctx.connector.has_capability(ConnectorCapability::CompositeTypes);
    let mut t: usize = 0;
    assert(diagnostics@ =~= d1 + composite_rules(*s, *ctx, before, 0));
    while t < n
        invariant
            n == s.composite_types@.len(),
            t <= n,
            supported == ctx.connector.spec_has_capability(ConnectorCapability::CompositeTypes),
            d1.len() == before,
            diagnostics@ == d1 + composite_rules(*s, *ctx, before, t as int),
        decreases n - t,
    {
        let c = &s.composite_types[t];
        if !supported {
            diagnostics.push_error(
                DatamodelError::new_validation_error(
                    String::from_str("Composite types are not supported on the current connector."),
                    c.span,
                ),
            );
        }
        if !diagnostics.has_errors() && c.fields.len() == 0 {
            diagnostics.push_error(
                DatamodelError::new_validation_error(
                    String::from_str("A type must have at least one field defined."),
                    c.span,
                ),
            );
        }
        assert(diagnostics@ =~= d1 + composite_rules(*s, *ctx, before, t + 1));
        t = t + 1;
    }
}

fn relation_field_checks(
    s: &Schema,
    i: usize,
    names: &mut NameRegistry,
    diagnostics: &mut Diagnostics,
) -> (aborted: bool)
    requires
        s.well_formed(),
        i < s.models@.len(),
        old(names).keys() == field_keys(
            s.models@[i as int],
            i,
            s.models@[i as int].scalar_fields@.len() as int,
            0,
        ),
    ensures
        ({
            let rel = relation_field_rules(
                *s,
                i as int,
                s.models@[i as int].relation_fields@.len() as int,
            );
            final(diagnostics)@ == old(diagnostics)@ + rel.0 && aborted == rel.1
        }),
{
    let m = &s.models[i];
    let ghost ns = m.scalar_fields@.len() as int;
    let mut k: usize = 0;
    assert(diagnostics@ =~= old(diagnostics)@ + relation_field_rules(*s, i as int, 0).0);
    while k < m.relation_fields.len()
        invariant
            s.well_formed(),
            i < s.models@.len(),
            *m == s.models@[i as int],
            ns == m.scalar_fields@.len(),
            k <= m.relation_fields@.len(),
            names.keys() == field_keys(*m, i, ns, k as int),
            diagnostics@ == old(diagnostics)@ + relation_field_rules(*s, i as int, k as int).0,
            !relation_field_rules(*s, i as int, k as int).1,
        decreases m.relation_fields@.len() - k,
    {
        let f = &m.relation_fields[k];
        if is_ambiguous_exec(m, i, k) {
            let target = &s.models[f.target_model];
            let msg = join7(
                "Ambiguous relation detected. The field `",
                f.name.as_str(),
                "` in model `",
                m.name.as_str(),
                "` and another field both refer to `",
                target.name.as_str(),
                "`. Please provide different relation names for them by adding `@relation(<name>).`",
            );
            diagnostics.push_error(DatamodelError::new_validation_error(msg, f.span));
            assert(diagnostics@ =~= old(diagnostics)@ + relation_field_rules(*s, i as int, k + 1).0);
            proof {
                lemma_relation_field_rules_stay_aborted(*s, i as int, k + 1, m.relation_fields@.len() as int);
            }
            return true;
        }
        let fresh = names.register(NamespaceKind::ModelFields, i, &f.name);
        assert(fresh == !relation_name_taken(*m, k as int));
        if !fresh {
            let msg = join5("Field \"", f.name.as_str(), "\" is already defined on model \"", m.name.as_str(), "\".");
            diagnostics.push_error(DatamodelError::new_validation_error(msg, f.span));
        }
        assert(diagnostics@ =~= old(diagnostics)@ + relation_field_rules(*s, i as int, k + 1).0);
        assert(names.keys() =~= field_keys(*m, i, ns, k + 1));
        k = k + 1;
    }
    false
}

proof fn lemma_relation_field_rules_stay_aborted(s: Schema, i: int, k: int, n: int)
    requires
        0 < k <= n,
        relation_field_rules(s, i, k).1,
    ensures
        relation_field_rules(s, i, n) == relation_field_rules(s, i, k),
    decreases n - k,
{
    if n > k {
        lemma_relation_field_rules_stay_aborted(s, i, k, n - 1);
    }
}

fn has_scalar_field_exec(m: &Model, name: &String) -> (r: bool)
    ensures
        r == has_scalar_field(*m, name@),
{
    let mut j: usize = 0;
    while j < m.scalar_fields.len()
        invariant
            j <= m.scalar_fields@.len(),
            forall|q: int| 0 <= q < j ==> (#[trigger] m.scalar_fields@[q]).name@ != name@,
        decreases m.scalar_fields@.len() - j,
    {
        if m.scalar_fields[j].name == *name {
            return true;
        }
        j = j + 1;
    }
    false
}

fn unknown_field_checks(m: &Model, x: &Index, diagnostics: &mut Diagnostics)
    ensures
        final(diagnostics)@ == old(diagnostics)@ + unknown_fields(*m, *x, x.fields@.len() as int),
{
    let mut k: usize = 0;
    assert(diagnostics@ =~= old(diagnostics)@ + unknown_fields(*m, *x, 0));
    while k < x.fields.len()
        invariant
            k <= x.fields@.len(),
            diagnostics@ == old(diagnostics)@ + unknown_fields(*m, *x, k as int),
        decreases x.fields@.len() - k,
    {
        if !has_scalar_field_exec(m, &x.fields[k]) {
            let msg = join3(
                "The index definition refers to the unknown field `",
                x.fields[k].as_str(),
                "`.",
            );
            diagnostics.push_error(DatamodelError::new_validation_error(msg, x.span));
        }
        assert(diagnostics@ =~= old(diagnostics)@ + unknown_fields(*m, *x, k + 1));
        k = k + 1;
    }
}

/// The constraint names registered for model `scope` after its first `n` indexes.
pub open spec fn constraint_keys(m: Model, scope: usize, n: int) -> Set<
    (NamespaceKind, usize, Seq<char>),
> {
    Set::new(
        |k: (NamespaceKind, usize, Seq<char>)|
            k.0 == NamespaceKind::ModelConstraints && k.1 == scope && exists|j: int|
                0 <= j < n && (#[trigger] m.indexes@[j]).constraint_name is Some
                    && m.indexes@[j].constraint_name->0@ == k.2,
    )
}

fn index_checks(m: &Model, scope: usize, diagnostics: &mut Diagnostics)
    ensures
        final(diagnostics)@ == old(diagnostics)@ + index_rules(*m, m.indexes@.len() as int),
{
    let mut names = NameRegistry::new();
    let mut k: usize = 0;
    assert(names.keys() =~= constraint_keys(*m, scope, 0));
    assert(diagnostics@ =~= old(diagnostics)@ + index_rules(*m, 0));
    while k < m.indexes.len()
        invariant
            k <= m.indexes@.len(),
            names.keys() == constraint_keys(*m, scope, k as int),
            diagnostics@ == old(diagnostics)@ + index_rules(*m, k as int),
        decreases m.indexes@.len() - k,
    {
        let x = &m.indexes[k];
        let ghost d0 = diagnostics@;
        if x.fields.len() == 0 {
            let msg = String::from_str(
                "The list of fields in an index cannot be empty. Please specify at least one field.",
            );
            diagnostics.push_error(DatamodelError::new_validation_error(msg, x.span));
        }
        let ghost d1 = diagnostics@;
        match &x.constraint_name {
            Some(n) => {
                let fresh = names.register(NamespaceKind::ModelConstraints, scope, n);
                assert(fresh == !constraint_name_taken(*m, k as int));
                if !fresh {
                    let msg = join3("The given constraint name `", n.as_str(), "` has to be unique in the model.");
                    diagnostics.push_error(DatamodelError::new_validation_error(msg, x.span));
                }
                assert(names.keys() =~= constraint_keys(*m, scope, k + 1));
            },
            None => {
                assert(names.keys() =~= constraint_keys(*m, scope, k + 1));
            },
        }
        let ghost d2 = diagnostics@;
        unknown_field_checks(m, x, diagnostics);
        assert(diagnostics@ =~= old(diagnostics)@ + index_rules(*m, k + 1));
        k = k + 1;
    }
}

/// The model names registered after the first `n` models.
pub open spec fn model_keys(s: Schema, n: int) -> Set<(NamespaceKind, usize, Seq<char>)> {
    Set::new(
        |k: (NamespaceKind, usize, Seq<char>)|
            k.0 == NamespaceKind::TopLevel && k.1 == 0 && exists|j: int|
                0 <= j < n && (#[trigger] s.models@[j]).name@ == k.2,
    )
}

fn model_checks(s: &Schema, i: usize, models: &mut NameRegistry, diagnostics: &mut Diagnostics) -> (aborted: bool)
    requires
        s.well_formed(),
        i < s.models@.len(),
        old(models).keys() == model_keys(*s, i as int),
    ensures
        final(models).keys() == model_keys(*s, i + 1),
        ({
            let m = s.models@[i as int];
            let rel = relation_field_rules(*s, i as int, m.relation_fields@.len() as int);
            let errs = model_rules(*s, i as int) + scalar_field_rules(
                m,
                m.scalar_fields@.len() as int,
            ) + rel.0;
            &&& aborted == rel.1
            &&& final(diagnostics)@ == old(diagnostics)@ + if rel.1 {
                errs
            } else {
                errs + index_rules(m, m.indexes@.len() as int)
            }
        }),
{
    let m = &s.models[i];
    let fresh = models.register(NamespaceKind::TopLevel, 0, &m.name);
    assert(fresh == !model_name_taken(*s, i as int));
    assert(models.keys() =~= model_keys(*s, i + 1));
    if !fresh {
        let msg = join3(
            "The model \"",
            m.name.as_str(),
            "\" cannot be defined because a model with that name already exists.",
        );
        diagnostics.push_error(DatamodelError::new_validation_error(msg, m.span));
    }
    match &m.primary_key {
        Some(pk) => {
            if pk.fields.len() == 0 {
                let msg = join3(
                    "The primary key of model \"",
                    m.name.as_str(),
                    "\" must name at least one field.",
                );
                diagnostics.push_error(DatamodelError::new_validation_error(msg, pk.span));
            }
        },
        None => {},
    }
    assert(diagnostics@ =~= old(diagnostics)@ + model_rules(*s, i as int));
    let ghost d1 = diagnostics@;
    let mut fields = NameRegistry::new();
    scalar_field_checks(m, i, &mut fields, diagnostics);
    let ghost d2 = diagnostics@;
    let aborted = relation_field_checks(s, i, &mut fields, diagnostics);
    if aborted {
        assert(diagnostics@ =~= old(diagnostics)@ + (model_rules(*s, i as int) + scalar_field_rules(
            *m,
            m.scalar_fields@.len() as int,
        ) + relation_field_rules(*s, i as int, m.relation_fields@.len() as int).0));
        return true;
    }
    index_checks(m, i, diagnostics);
    assert(diagnostics@ =~= old(diagnostics)@ + (model_rules(*s, i as int) + scalar_field_rules(
        *m,
        m.scalar_fields@.len() as int,
    ) + relation_field_rules(*s, i as int, m.relation_fields@.len() as int).0 + index_rules(
        *m,
        m.indexes@.len() as int,
    )));
    false
}

fn enum_checks(s: &Schema, ctx: &ValidationContext, diagnostics: &mut Diagnostics)
    ensures
        final(diagnostics)@ == old(diagnostics)@ + enum_rules(*s, *ctx, s.enums@.len() as int),
{
    if ctx.connector.supports_enums {
        assert(diagnostics@ =~= old(diagnostics)@ + enum_rules(*s, *ctx, s.enums@.len() as int));
        return;
    }
    let mut k: usize = 0;
    assert(diagnostics@ =~= old(diagnostics)@ + enum_rules(*s, *ctx, 0));
    while k < s.enums.len()
        invariant
            k <= s.enums@.len(),
            !ctx.connector.supports_enums,
            diagnostics@ == old(diagnostics)@ + enum_rules(*s, *ctx, k as int),
        decreases s.enums@.len() - k,
    {
        let e = &s.enums[k];
        let msg = join3(
            "You defined the enum `",
            e.name.as_str(),
            "`. But the current connector does not support enums.",
        );
        diagnostics.push_error(DatamodelError::new_validation_error(msg, e.span));
        assert(diagnostics@ =~= old(diagnostics)@ + enum_rules(*s, *ctx, k + 1));
        k = k + 1;
    }
}

fn push_static(diagnostics: &mut Diagnostics, message: &str, span: Span)
    ensures
        final(diagnostics)@ == old(diagnostics)@.push(static_error(message@, span)),
{
    diagnostics.push_error(DatamodelError::new_static(message, span));
}

fn schema_checks(s: &Schema, ctx: &ValidationContext, diagnostics: &mut Diagnostics)
    ensures
        final(diagnostics)@ == old(diagnostics)@ + schema_rules(*s, *ctx),
{
    let attr = "@@schema is only available with the `multiSchema` preview feature.";
    if !ctx.multi_schema_enabled {
        let mut k: usize = 0;
        assert(diagnostics@ =~= old(diagnostics)@ + model_schema_attributes(*s, 0));
        while k < s.models.len()
            invariant
                k <= s.models@.len(),
                attr@ == schema_attribute_message(),
                diagnostics@ == old(diagnostics)@ + model_schema_attributes(*s, k as int),
            decreases s.models@.len() - k,
        {
            match s.models[k].schema {
                Some(span) => push_static(diagnostics, attr, span),
                None => {},
            }
            assert(diagnostics@ =~= old(diagnostics)@ + model_schema_attributes(*s, k + 1));
            k = k + 1;
        }
        let ghost d1 = diagnostics@;
        let mut k: usize = 0;
        assert(diagnostics@ =~= d1 + enum_schema_attributes(*s, 0));
        while k < s.enums.len()
            invariant
                k <= s.enums@.len(),
                attr@ == schema_attribute_message(),
                diagnostics@ == d1 + enum_schema_attributes(*s, k as int),
            decreases s.enums@.len() - k,
        {
            match s.enums[k].schema {
                Some(span) => push_static(diagnostics, attr, span),
                None => {},
            }
            assert(diagnostics@ =~= d1 + enum_schema_attributes(*s, k + 1));
            k = k + 1;
        }
        match ctx.datasource_schemas {
            Some(span) => push_static(
                diagnostics,
                "The `schemas` property is only availably with the `multiSchema` preview feature.",
                span,
            ),
            None => {},
        }
        assert(diagnostics@ =~= old(diagnostics)@ + schema_rules(*s, *ctx));
    } else {
        if ctx.datasource_schemas.is_some() {
            let mut k: usize = 0;
            assert(diagnostics@ =~= old(diagnostics)@ + missing_model_schemas(*s, 0));
            while k < s.models.len()
                invariant
                    k <= s.models@.len(),
                    diagnostics@ == old(diagnostics)@ + missing_model_schemas(*s, k as int),
                decreases s.models@.len() - k,
            {
                if s.models[k].schema.is_none() {
                    push_static(diagnostics, "This model is missing an `@@schema` attribute.", s.models[k].span);
                }
                assert(diagnostics@ =~= old(diagnostics)@ + missing_model_schemas(*s, k + 1));
                k = k + 1;
            }
            let ghost d1 = diagnostics@;
            let mut k: usize = 0;
            assert(diagnostics@ =~= d1 + missing_enum_schemas(*s, 0));
            while k < s.enums.len()
                invariant
                    k <= s.enums@.len(),
                    diagnostics@ == d1 + missing_enum_schemas(*s, k as int),
                decreases s.enums@.len() - k,
            {
                if s.enums[k].schema.is_none() {
                    push_static(diagnostics, "This enum is missing an `@@schema` attribute.", s.enums[k].span);
                }
                assert(diagnostics@ =~= d1 + missing_enum_schemas(*s, k + 1));
                k = k + 1;
            }
        }
        let ghost d2 = diagnostics@;
        if !ctx.connector.has_capability(ConnectorCapability::MultiSchema) {
            match ctx.datasource_schemas {
                Some(span) => push_static(
                    diagnostics,
                    "The `schemas` property is not supported on the current connector.",
                    span,
                ),
                None => {},
            }
        }
        assert(diagnostics@ =~= old(diagnostics)@ + schema_rules(*s, *ctx));
    }
}

fn relation_checks(s: &Schema, ctx: &ValidationContext, r: &Relation, diagnostics: &mut Diagnostics)
    requires
        s.well_formed(),
        s.relation_in_range(*r),
    ensures
        final(diagnostics)@ == old(diagnostics)@ + relation_rules(*s, *ctx, *r),
{
    let a = &s.models[r.model_a].relation_fields[r.field_a];
    let b: Option<&RelationField> = match r.side_b {
        Some((m, f)) => Some(&s.models[m].relation_fields[f]),
        None => None,
    };
    let ghost bv = side_b(*s, *r);
    assert(match b {
        Some(x) => Some(*x),
        None => None,
    } == bv);
    assert(a.target_model < s.models@.len());
    match classify(a, b) {
        RelationKind::Inline => {
            if a.fields.len() != a.references.len() {
                let msg = String::from_str(
                    "You must specify the same number of fields in `fields` and `references`.",
                );
                diagnostics.push_error(DatamodelError::new_validation_error(msg, a.span));
            }
            if is_one_to_one(a, b) {
                match b {
                    Some(bf) => {
                        if a.fields.len() > 0 && bf.fields.len() > 0 {
                            let msg = String::from_str(
                                "Only one side of a one-to-one relation may define `fields` and `references`.",
                            );
                            diagnostics.push_error(DatamodelError::new_validation_error(msg, a.span));
                        }
                    },
                    None => {},
                }
            } else if b.is_none() {
                let msg = join7(
                    "The relation field `",
                    a.name.as_str(),
                    "` on model `",
                    s.models[r.model_a].name.as_str(),
                    "` is missing an opposite relation field on the model `",
                    s.models[a.target_model].name.as_str(),
                    "`.",
                );
                diagnostics.push_error(DatamodelError::new_validation_error(msg, a.span));
            }
        },
        RelationKind::ImplicitManyToMany => {
            if !ctx.connector.has_capability(ConnectorCapability::ImplicitManyToManyRelation) {
                let msg = String::from_str(
                    "Implicit many-to-many relations are not supported on the current connector.",
                );
                diagnostics.push_error(DatamodelError::new_validation_error(msg, a.span));
            }
        },
        RelationKind::TwoWayEmbeddedManyToMany => {
            if !ctx.connector.has_capability(ConnectorCapability::TwoWayEmbeddedManyToManyRelation) {
                let msg = String::from_str(
                    "Embedded many-to-many relations are not supported on the current connector.",
                );
                diagnostics.push_error(DatamodelError::new_validation_error(msg, a.span));
            }
        },
    }
    assert(diagnostics@ =~= old(diagnostics)@ + relation_rules(*s, *ctx, *r));
}

/// Runs every rule over the graph and appends what they report. The run
/// goes through all models, enums and relations, except that the first
/// ambiguous relation field reports one error and ends it.
pub fn validate(s: &Schema, ctx: &ValidationContext, diagnostics: &mut Diagnostics)
    requires
        s.well_formed(),
    ensures
        final(diagnostics)@ == old(diagnostics)@ + validate_spec(
            *s,
            *ctx,
            old(diagnostics)@.len() as int,
        ),
{
    composite_checks(s, ctx, diagnostics);
    let ghost d0 = diagnostics@;
    let mut models = NameRegistry::new();
    let mut i: usize = 0;
    assert(models.keys() =~= model_keys(*s, 0));
    assert(diagnostics@ =~= d0 + model_phase(*s, 0).0);
    while i < s.models.len()
        invariant
            s.well_formed(),
            i <= s.models@.len(),
            models.keys() == model_keys(*s, i as int),
            diagnostics@ == d0 + model_phase(*s, i as int).0,
            d0 == old(diagnostics)@ + composite_phase(*s, *ctx, old(diagnostics)@.len() as int),
            !model_phase(*s, i as int).1,
        decreases s.models@.len() - i,
    {
        let aborted = model_checks(s, i, &mut models, diagnostics);
        assert(diagnostics@ =~= d0 + model_phase(*s, i + 1).0);
        if aborted {
            proof {
                lemma_model_phase_stays_aborted_any(*s, i + 1, s.models@.len() as int);
            }
            assert(diagnostics@ =~= old(diagnostics)@ + validate_spec(
                *s,
                *ctx,
                old(diagnostics)@.len() as int,
            ));
            return;
        }
        i = i + 1;
    }
    enum_checks(s, ctx, diagnostics);
    schema_checks(s, ctx, diagnostics);
    let ghost d1 = diagnostics@;
    let mut k: usize = 0;
    assert(diagnostics@ =~= d1 + relations_phase(*s, *ctx, 0));
    while k < s.relations.len()
        invariant
            s.well_formed(),
            k <= s.relations@.len(),
            diagnostics@ == d1 + relations_phase(*s, *ctx, k as int),
        decreases s.relations@.len() - k,
    {
        assert(s.relation_in_range(s.relations@[k as int]));
        relation_checks(s, ctx, &s.relations[k], diagnostics);
        assert(diagnostics@ =~= d1 + relations_phase(*s, *ctx, k + 1));
        k = k + 1;
    }
    assert(diagnostics@ =~= old(diagnostics)@ + validate_spec(
        *s,
        *ctx,
        old(diagnostics)@.len() as int,
    ));
}

// ---------------------------------------------------------------------------
// The ambiguity short-circuit.

proof fn lemma_ambiguous_field_aborts(s: Schema, i: int, k: int, n: int)
    requires
        0 <= i < s.models@.len(),
        0 <= k < n <= s.models@[i].relation_fields@.len(),
        is_ambiguous(s.models@[i], i, k),
    ensures
        relation_field_rules(s, i, n).1,
    decreases n,
{
    if n - 1 > k {
        lemma_ambiguous_field_aborts(s, i, k, n - 1);
    }
}

proof fn lemma_aborted_fields_end_with_ambiguity(s: Schema, i: int, n: int)
    requires
        relation_field_rules(s, i, n).1,
    ensures
        exists|k: int|
            0 <= k < n && !relation_field_rules(s, i, k).1 && is_ambiguous(s.models@[i], i, k)
                && #[trigger] relation_field_rules(s, i, n).0 == relation_field_rules(
                s,
                i,
                k,
            ).0.push(ambiguity_of(s, i, k)),
    decreases n,
{
    if relation_field_rules(s, i, n - 1).1 {
        lemma_aborted_fields_end_with_ambiguity(s, i, n - 1);
        let k = choose|k: int|
            0 <= k < n - 1 && !relation_field_rules(s, i, k).1 && is_ambiguous(s.models@[i], i, k)
                && #[trigger] relation_field_rules(s, i, n - 1).0 == relation_field_rules(
                s,
                i,
                k,
            ).0.push(ambiguity_of(s, i, k));
        assert(relation_field_rules(s, i, n) == relation_field_rules(s, i, n - 1));
    } else {
        assert(relation_field_rules(s, i, n).0 == relation_field_rules(s, i, n - 1).0.push(
            ambiguity_of(s, i, n - 1),
        ));
    }
}

/// The error that an ambiguous relation field `k` of model `i` reports.
pub open spec fn ambiguity_of(s: Schema, i: int, k: int) -> ErrorView {
    let m = s.models@[i];
    let f = m.relation_fields@[k];
    ambiguity_error(f.name@, m.name@, s.models@[f.target_model as int].name@, f.span)
}

/// What the run reports when it stops at the ambiguous field `k` of model
/// `i`: everything reported before that field, then its one error.
pub open spec fn stopped_at(s: Schema, i: int, k: int) -> Seq<ErrorView> {
    let m = s.models@[i];
    (model_phase(s, i).0 + model_rules(s, i) + scalar_field_rules(
        m,
        m.scalar_fields@.len() as int,
    ) + relation_field_rules(s, i, k).0).push(ambiguity_of(s, i, k))
}

proof fn lemma_model_phase_aborts(s: Schema, i0: int, k0: int, n: int)
    requires
        0 <= i0 < n <= s.models@.len(),
        0 <= k0 < s.models@[i0].relation_fields@.len(),
        is_ambiguous(s.models@[i0], i0, k0),
    ensures
        model_phase(s, n).1,
        exists|i: int, k: int|
            0 <= i < n && 0 <= k < s.models@[i].relation_fields@.len() && is_ambiguous(
                s.models@[i],
                i,
                k,
            ) && #[trigger] stopped_at(s, i, k) == model_phase(s, n).0,
    decreases n,
{
    if model_phase(s, n - 1).1 {
        lemma_model_phase_stays_aborted_any(s, n - 1, n);
        if n - 1 > i0 {
            lemma_model_phase_aborts(s, i0, k0, n - 1);
        } else {
            lemma_phase_aborted_has_stop(s, n - 1);
        }
    } else {
        let i = n - 1;
        let len = s.models@[i].relation_fields@.len() as int;
        if i == i0 {
            lemma_ambiguous_field_aborts(s, i, k0, len);
        } else {
            assert(i > i0);
            lemma_model_phase_aborts(s, i0, k0, i);
        }
        lemma_aborted_fields_end_with_ambiguity(s, i, len);
        let k = choose|k: int|
            0 <= k < len && !relation_field_rules(s, i, k).1 && is_ambiguous(s.models@[i], i, k)
                && #[trigger] relation_field_rules(s, i, len).0 == relation_field_rules(
                s,
                i,
                k,
            ).0.push(ambiguity_of(s, i, k));
        let m = s.models@[i];
        assert(stopped_at(s, i, k) =~= model_phase(s, n).0);
    }
}

proof fn lemma_model_phase_stays_aborted_any(s: Schema, k: int, n: int)
    requires
        0 <= k <= n,
        model_phase(s, k).1,
    ensures
        model_phase(s, n) == model_phase(s, k),
    decreases n - k,
{
    if n > k {
        lemma_model_phase_stays_aborted_any(s, k, n - 1);
    }
}

proof fn lemma_phase_aborted_has_stop(s: Schema, n: int)
    requires
        0 <= n <= s.models@.len(),
        model_phase(s, n).1,
    ensures
        exists|i: int, k: int|
            0 <= i < n && 0 <= k < s.models@[i].relation_fields@.len() && is_ambiguous(
                s.models@[i],
                i,
                k,
            ) && #[trigger] stopped_at(s, i, k) == model_phase(s, n).0,
    decreases n,
{
    if model_phase(s, n - 1).1 {
        lemma_phase_aborted_has_stop(s, n - 1);
    } else {
        let i = n - 1;
        let len = s.models@[i].relation_fields@.len() as int;
        lemma_aborted_fields_end_with_ambiguity(s, i, len);
        let k = choose|k: int|
            0 <= k < len && !relation_field_rules(s, i, k).1 && is_ambiguous(s.models@[i], i, k)
                && #[trigger] relation_field_rules(s, i, len).0 == relation_field_rules(
                s,
                i,
                k,
            ).0.push(ambiguity_of(s, i, k));
        assert(stopped_at(s, i, k) =~= model_phase(s, n).0);
    }
}

/// Where a model has two unnamed relation fields pointing at the same other
/// model, the run reports the composite-type errors and what came before the
/// first such field, then one ambiguity error, and nothing more: no enum,
/// `@@schema` or relation rule runs.
pub proof fn lemma_ambiguity_short_circuits(s: Schema, ctx: ValidationContext, prior: int, i0: int, k0: int)
    requires
        s.well_formed(),
        0 <= i0 < s.models@.len(),
        0 <= k0 < s.models@[i0].relation_fields@.len(),
        is_ambiguous(s.models@[i0], i0, k0),
    ensures
        exists|i: int, k: int|
            0 <= i < s.models@.len() && 0 <= k < s.models@[i].relation_fields@.len()
                && is_ambiguous(s.models@[i], i, k) && composite_phase(s, ctx, prior) + #[trigger] stopped_at(s, i, k)
                == validate_spec(s, ctx, prior),
{
    lemma_model_phase_aborts(s, i0, k0, s.models@.len() as int);
}

} // verus!
