use vstd::prelude::*;
use crate::ast::{FieldArity, Span};

verus! {

/// A scalar field of a model.
#[derive(Debug)]
pub struct ScalarField {
    pub name: String,
    pub span: Span,
}

/// A relation field of a model, pointing at another model.
#[derive(Debug)]
pub struct RelationField {
    pub name: String,
    /// The index of the model it points at.
    pub target_model: usize,
    pub arity: FieldArity,
    /// The name given in `@relation`, if any.
    pub relation_name: Option<String>,
    /// The `fields` argument of `@relation`.
    pub fields: Vec<String>,
    /// The `references` argument of `@relation`.
    pub references: Vec<String>,
    pub span: Span,
}

/// An `@@index` or `@@unique` of a model.
#[derive(Debug)]
pub struct Index {
    /// The database constraint name, if one was given.
    pub constraint_name: Option<String>,
    /// The names of the indexed fields.
    pub fields: Vec<String>,
    pub span: Span,
}

/// The `@@id` of a model.
#[derive(Debug)]
pub struct PrimaryKey {
    pub fields: Vec<String>,
    pub span: Span,
}

#[derive(Debug)]
pub struct Model {
    pub name: String,
    pub span: Span,
    pub scalar_fields: Vec<ScalarField>,
    pub relation_fields: Vec<RelationField>,
    pub indexes: Vec<Index>,
    pub primary_key: Option<PrimaryKey>,
    /// The span of the `@@schema` attribute, if there is one.
    pub schema: Option<Span>,
}

#[derive(Debug)]
pub struct Enum {
    pub name: String,
    pub span: Span,
    /// The span of the `@@schema` attribute, if there is one.
    pub schema: Option<Span>,
}

/// A field of a composite type; it may hold another composite type.
#[derive(Debug)]
pub struct CompositeField {
    pub name: String,
    pub arity: FieldArity,
    /// The index of the composite type it holds, if it holds one.
    pub composite: Option<usize>,
    pub span: Span,
}

/// A composite type: a named group of fields embedded in documents.
#[derive(Debug)]
pub struct CompositeType {
    pub name: String,
    pub span: Span,
    pub fields: Vec<CompositeField>,
}

/// A relation: a relation field and, where it exists, its opposite field.
#[derive(Debug)]
pub struct Relation {
    pub model_a: usize,
    pub field_a: usize,
    /// The opposite side: a model index and a relation field index.
    pub side_b: Option<(usize, usize)>,
}

/// The semantic graph: an arena of entities addressed by index.
#[derive(Debug)]
pub struct Schema {
    pub composite_types: Vec<CompositeType>,
    pub models: Vec<Model>,
    pub enums: Vec<Enum>,
    pub relations: Vec<Relation>,
}

impl Schema {
    /// Every index stored in the graph names a live entity.
    pub open spec fn well_formed(&self) -> bool {
        &&& forall|i: int, k: int|
            0 <= i < self.models@.len() && 0 <= k < self.models@[i].relation_fields@.len()
                ==> #[trigger] self.models@[i].relation_fields@[k].target_model
                < self.models@.len()
        &&& forall|r: int|
            0 <= r < self.relations@.len() ==> self.relation_in_range(#[trigger] self.relations@[r])
    }

    pub open spec fn relation_in_range(&self, rel: Relation) -> bool {
        &&& rel.model_a < self.models@.len()
        &&& rel.field_a < self.models@[rel.model_a as int].relation_fields@.len()
        &&& match rel.side_b {
            Some((m, f)) => m < self.models@.len() && f < self.models@[m as int].relation_fields@.len(),
            None => true,
        }
    }
}

/// A capability that a connector may have.
#[derive(Clone, Copy, Debug, PartialEq, Eq, Structural)]
pub enum ConnectorCapability {
    CompositeTypes,
    MultiSchema,
    ImplicitManyToManyRelation,
    TwoWayEmbeddedManyToManyRelation,
}

/// What the target database supports.
#[derive(Debug)]
pub struct Connector {
    pub supports_enums: bool,
    pub capabilities: Vec<ConnectorCapability>,
}

impl Connector {
    pub open spec fn spec_has_capability(&self, c: ConnectorCapability) -> bool {
        self.capabilities@.contains(c)
    }

    pub fn has_capability(&self, c: ConnectorCapability) -> (r: bool)
        ensures
            r == self.spec_has_capability(c),
    {
        let mut i: usize = 0;
        while i < self.capabilities.len()
            invariant
                i <= self.capabilities@.len(),
                forall|k: int| 0 <= k < i ==> self.capabilities@[k] != c,
            decreases self.capabilities@.len() - i,
        {
            if self.capabilities[i] == c {
                return true;
            }
            i = i + 1;
        }
        false
    }
}

/// The read-only context of a validation run.
#[derive(Debug)]
pub struct ValidationContext {
    pub connector: Connector,
    /// Whether the `multiSchema` preview feature is enabled.
    pub multi_schema_enabled: bool,
    /// The span of the datasource's `schemas` property, if it has one.
    pub datasource_schemas: Option<Span>,
}

} // verus!
