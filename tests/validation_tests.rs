use schema_core::ast::{FieldArity, Span};
use schema_core::diagnostics::{Diagnostics, ErrorKind};
use schema_core::names::{NameRegistry, NamespaceKind};
use schema_core::schema::{
    CompositeField, CompositeType, Connector, ConnectorCapability, Enum, Index, Model, PrimaryKey, Relation, RelationField,
    ScalarField, Schema, ValidationContext,
};
use schema_core::validation::{classify, is_one_to_one, validate, RelationKind};

fn sp(a: usize) -> Span {
    Span::new(a, a + 1)
}

fn model(name: &str, at: usize) -> Model {
    Model {
        name: name.to_owned(),
        span: sp(at),
        scalar_fields: vec![ScalarField { name: "id".to_owned(), span: sp(at + 1) }],
        relation_fields: vec![],
        indexes: vec![],
        primary_key: None,
        schema: None,
    }
}

fn rel(name: &str, target: usize, arity: FieldArity, relation_name: Option<&str>, at: usize) -> RelationField {
    RelationField {
        name: name.to_owned(),
        target_model: target,
        arity,
        relation_name: relation_name.map(|s| s.to_owned()),
        fields: vec![],
        references: vec![],
        span: sp(at),
    }
}

fn context(supports_enums: bool, caps: Vec<ConnectorCapability>, multi_schema: bool) -> ValidationContext {
    ValidationContext {
        connector: Connector { supports_enums, capabilities: caps },
        multi_schema_enabled: multi_schema,
        datasource_schemas: None,
    }
}

fn messages(d: &Diagnostics) -> Vec<String> {
    (0..d.len()).map(|i| d.get(i).message().to_owned()).collect()
}

#[test]
fn ambiguous_relation_stops_the_run() {
    let mut post = model("Post", 10);
    post.relation_fields = vec![
        rel("author", 1, FieldArity::Required, None, 20),
        rel("editor", 1, FieldArity::Required, None, 30),
    ];
    let user = model("User", 40);
    let schema = Schema {
        composite_types: vec![],
        models: vec![post, user],
        enums: vec![Enum { name: "Role".to_owned(), span: sp(50), schema: None }],
        relations: vec![Relation { model_a: 0, field_a: 0, side_b: None }],
    };
    let mut d = Diagnostics::new();
    validate(&schema, &context(false, vec![], false), &mut d);
    assert_eq!(
        messages(&d),
        vec!["Ambiguous relation detected. The field `author` in model `Post` and another field both refer to `User`. Please provide different relation names for them by adding `@relation(<name>).`".to_owned()]
    );
    assert_eq!(d.get(0).span, sp(20));
}

#[test]
fn named_relations_are_not_ambiguous() {
    let mut post = model("Post", 10);
    post.relation_fields = vec![
        rel("author", 1, FieldArity::Required, Some("a"), 20),
        rel("editor", 1, FieldArity::Required, None, 30),
    ];
    let mut user = model("User", 40);
    user.relation_fields = vec![
        rel("posts", 0, FieldArity::List, Some("a"), 41),
        rel("edited", 0, FieldArity::List, None, 42),
    ];
    let schema = Schema {
        composite_types: vec![],
        models: vec![post, user],
        enums: vec![],
        relations: vec![
            Relation { model_a: 0, field_a: 0, side_b: Some((1, 0)) },
            Relation { model_a: 0, field_a: 1, side_b: Some((1, 1)) },
        ],
    };
    let mut d = Diagnostics::new();
    validate(&schema, &context(true, vec![], false), &mut d);
    assert_eq!(d.len(), 0);
}

#[test]
fn enums_unsupported_and_schema_gating() {
    let mut m = model("Cat", 1);
    m.schema = Some(sp(5));
    let schema = Schema {
        composite_types: vec![],
        models: vec![m],
        enums: vec![Enum { name: "Mood".to_owned(), span: sp(7), schema: Some(sp(8)) }],
        relations: vec![],
    };
    let mut ctx = context(false, vec![], false);
    ctx.datasource_schemas = Some(sp(9));
    let mut d = Diagnostics::new();
    validate(&schema, &ctx, &mut d);
    assert_eq!(
        messages(&d),
        vec![
            "You defined the enum `Mood`. But the current connector does not support enums.".to_owned(),
            "@@schema is only available with the `multiSchema` preview feature.".to_owned(),
            "@@schema is only available with the `multiSchema` preview feature.".to_owned(),
            "The `schemas` property is only availably with the `multiSchema` preview feature.".to_owned(),
        ]
    );
    assert_eq!(d.get(0).kind, ErrorKind::ValidationError);
    assert_eq!(d.get(1).kind, ErrorKind::StaticError);
    assert_eq!(d.get(3).span, sp(9));
}

#[test]
fn schemas_need_connector_support() {
    let schema = Schema { composite_types: vec![], models: vec![], enums: vec![], relations: vec![] };
    let mut ctx = context(true, vec![], true);
    ctx.datasource_schemas = Some(sp(3));
    let mut d = Diagnostics::new();
    validate(&schema, &ctx, &mut d);
    assert_eq!(messages(&d), vec!["The `schemas` property is not supported on the current connector.".to_owned()]);
    let ctx = ValidationContext {
        connector: Connector { supports_enums: true, capabilities: vec![ConnectorCapability::MultiSchema] },
        multi_schema_enabled: true,
        datasource_schemas: Some(sp(3)),
    };
    let mut d = Diagnostics::new();
    validate(&schema, &ctx, &mut d);
    assert_eq!(d.len(), 0);
}

#[test]
fn duplicate_names_are_reported() {
    let mut a = model("A", 1);
    a.scalar_fields.push(ScalarField { name: "id".to_owned(), span: sp(3) });
    a.primary_key = Some(PrimaryKey { fields: vec![], span: sp(4) });
    a.indexes = vec![
        Index { constraint_name: Some("ix".to_owned()), fields: vec!["id".to_owned()], span: sp(5) },
        Index { constraint_name: Some("ix".to_owned()), fields: vec![], span: sp(6) },
        Index { constraint_name: None, fields: vec!["nope".to_owned()], span: sp(7) },
    ];
    let b = model("A", 8);
    let schema = Schema { composite_types: vec![], models: vec![a, b], enums: vec![], relations: vec![] };
    let mut d = Diagnostics::new();
    validate(&schema, &context(true, vec![], false), &mut d);
    assert_eq!(
        messages(&d),
        vec![
            "The primary key of model \"A\" must name at least one field.".to_owned(),
            "Field \"id\" is already defined on model \"A\".".to_owned(),
            "The list of fields in an index cannot be empty. Please specify at least one field.".to_owned(),
            "The given constraint name `ix` has to be unique in the model.".to_owned(),
            "The index definition refers to the unknown field `nope`.".to_owned(),
            "The model \"A\" cannot be defined because a model with that name already exists.".to_owned(),
        ]
    );
}

#[test]
fn relation_shapes_pick_their_rules() {
    let mut a = model("A", 1);
    a.relation_fields = vec![
        rel("bs", 1, FieldArity::List, None, 2),
        rel("one", 1, FieldArity::Optional, Some("x"), 3),
    ];
    a.relation_fields[1].fields = vec!["bId".to_owned()];
    let mut b = model("B", 4);
    b.relation_fields = vec![rel("as", 0, FieldArity::List, None, 5)];
    let schema = Schema {
        composite_types: vec![],
        models: vec![a, b],
        enums: vec![],
        relations: vec![
            Relation { model_a: 0, field_a: 0, side_b: Some((1, 0)) },
            Relation { model_a: 0, field_a: 1, side_b: None },
        ],
    };
    let mut d = Diagnostics::new();
    validate(&schema, &context(true, vec![], false), &mut d);
    assert_eq!(
        messages(&d),
        vec![
            "Implicit many-to-many relations are not supported on the current connector.".to_owned(),
            "You must specify the same number of fields in `fields` and `references`.".to_owned(),
            "The relation field `one` on model `A` is missing an opposite relation field on the model `B`.".to_owned(),
        ]
    );
    let mut d = Diagnostics::new();
    validate(
        &schema,
        &context(true, vec![ConnectorCapability::ImplicitManyToManyRelation], false),
        &mut d,
    );
    assert_eq!(d.len(), 2);
}

#[test]
fn classification() {
    let mut x = rel("x", 0, FieldArity::List, None, 1);
    let mut y = rel("y", 0, FieldArity::List, None, 2);
    assert_eq!(classify(&x, Some(&y)), RelationKind::ImplicitManyToMany);
    x.fields = vec!["a".to_owned()];
    y.fields = vec!["b".to_owned()];
    assert_eq!(classify(&x, Some(&y)), RelationKind::TwoWayEmbeddedManyToMany);
    let z = rel("z", 0, FieldArity::Optional, None, 3);
    let w = rel("w", 0, FieldArity::Required, None, 4);
    assert_eq!(classify(&z, Some(&w)), RelationKind::Inline);
    assert!(is_one_to_one(&z, Some(&w)));
    assert!(!is_one_to_one(&z, None));
    assert!(!is_one_to_one(&z, Some(&y)));
}

#[test]
fn registry_namespaces_are_independent() {
    let mut r = NameRegistry::new();
    let n = "User".to_owned();
    assert!(r.register(NamespaceKind::TopLevel, 0, &n));
    assert!(!r.register(NamespaceKind::TopLevel, 0, &n));
    assert!(r.register(NamespaceKind::ModelConstraints, 0, &n));
    assert!(r.register(NamespaceKind::ModelFields, 1, &n));
    assert!(r.lookup_clash(NamespaceKind::ModelFields, 1, &n));
    assert!(!r.lookup_clash(NamespaceKind::ModelFields, 2, &n));
}

fn cfield(name: &str, arity: FieldArity, composite: Option<usize>) -> CompositeField {
    CompositeField { name: name.to_owned(), arity, composite, span: sp(0) }
}

fn ctype(name: &str, at: usize, fields: Vec<CompositeField>) -> CompositeType {
    CompositeType { name: name.to_owned(), span: sp(at), fields }
}

#[test]
fn required_composite_cycle_is_reported() {
    let schema = Schema {
        composite_types: vec![
            ctype("A", 1, vec![cfield("b", FieldArity::Required, Some(1))]),
            ctype("B", 2, vec![cfield("a", FieldArity::Required, Some(0))]),
            ctype("C", 3, vec![cfield("a", FieldArity::Required, Some(0))]),
            ctype("D", 4, vec![cfield("d", FieldArity::Optional, Some(3))]),
        ],
        models: vec![],
        enums: vec![],
        relations: vec![],
    };
    let ctx = context(true, vec![ConnectorCapability::CompositeTypes], false);
    let mut d = Diagnostics::new();
    validate(&schema, &ctx, &mut d);
    assert_eq!(
        messages(&d),
        vec![
            "The composite type `A` is part of a cycle of required fields. Make one of the fields optional or a list to break the cycle.".to_owned(),
            "The composite type `B` is part of a cycle of required fields. Make one of the fields optional or a list to break the cycle.".to_owned(),
        ]
    );
    assert_eq!(d.get(1).span, sp(2));
}

#[test]
fn composite_field_rules_wait_for_a_clean_run() {
    let schema = Schema {
        composite_types: vec![ctype("Empty", 1, vec![]), ctype("Other", 2, vec![])],
        models: vec![],
        enums: vec![],
        relations: vec![],
    };
    let mut d = Diagnostics::new();
    validate(&schema, &context(true, vec![ConnectorCapability::CompositeTypes], false), &mut d);
    assert_eq!(messages(&d), vec!["A type must have at least one field defined.".to_owned()]);
    let mut d = Diagnostics::new();
    validate(&schema, &context(true, vec![], false), &mut d);
    assert_eq!(
        messages(&d),
        vec![
            "Composite types are not supported on the current connector.".to_owned(),
            "Composite types are not supported on the current connector.".to_owned(),
        ]
    );
}

#[test]
fn multi_schema_needs_schema_attributes() {
    let mut a = model("A", 1);
    a.schema = Some(sp(2));
    let b = model("B", 3);
    let schema = Schema {
        composite_types: vec![],
        models: vec![a, b],
        enums: vec![Enum { name: "E".to_owned(), span: sp(5), schema: None }],
        relations: vec![],
    };
    let ctx = ValidationContext {
        connector: Connector { supports_enums: true, capabilities: vec![ConnectorCapability::MultiSchema] },
        multi_schema_enabled: true,
        datasource_schemas: Some(sp(9)),
    };
    let mut d = Diagnostics::new();
    validate(&schema, &ctx, &mut d);
    assert_eq!(
        messages(&d),
        vec![
            "This model is missing an `@@schema` attribute.".to_owned(),
            "This enum is missing an `@@schema` attribute.".to_owned(),
        ]
    );
    assert_eq!(d.get(0).span, sp(3));
}
