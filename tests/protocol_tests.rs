use schema_core::json::JsonValue;
use schema_core::steps::{
    Argument, ArgumentLocation, CreateArgument, CreateDirective, DecodeError, DirectiveLocation,
    DirectiveType, MigrationExpression, MigrationStep, UpdateEnum, UpdateField,
};

fn s(x: &str) -> JsonValue {
    JsonValue::Str(x.to_owned())
}

fn obj(members: Vec<(&str, JsonValue)>) -> JsonValue {
    JsonValue::Object(members.into_iter().map(|(k, v)| (k.to_owned(), v)).collect())
}

fn keys(v: &JsonValue) -> Vec<String> {
    match v {
        JsonValue::Object(m) => m.iter().map(|(k, _)| k.clone()).collect(),
        _ => vec![],
    }
}

#[test]
fn unset_optionals_are_omitted() {
    let step = MigrationStep::UpdateField(UpdateField {
        model: "Blog".to_owned(),
        field: "title".to_owned(),
        new_name: None,
        tpe: Some("Int".to_owned()),
        arity: None,
    });
    let j = step.encode();
    assert_eq!(keys(&j), vec!["stepType", "model", "field", "type"]);
    assert_eq!(MigrationStep::decode(&j), Ok(step));
}

#[test]
fn empty_enum_changes_are_omitted() {
    let step = MigrationStep::UpdateEnum(UpdateEnum {
        enum_name: "E".to_owned(),
        new_name: None,
        created_values: vec![],
        deleted_values: vec!["X".to_owned()],
    });
    let j = step.encode();
    assert_eq!(keys(&j), vec!["stepType", "enum", "deletedValues"]);
    assert_eq!(MigrationStep::decode(&j), Ok(step));
}

#[test]
fn explicit_null_counts_as_unset() {
    let j = obj(vec![("stepType", s("UpdateModel")), ("model", s("Blog")), ("newName", JsonValue::Null)]);
    match MigrationStep::decode(&j) {
        Ok(MigrationStep::UpdateModel(u)) => {
            assert_eq!(u.model, "Blog");
            assert_eq!(u.new_name, None);
        }
        other => panic!("unexpected {:?}", other),
    }
}

#[test]
fn decode_errors() {
    assert_eq!(MigrationStep::decode(&s("x")), Err(DecodeError::NotAnObject));
    assert_eq!(MigrationStep::decode(&obj(vec![("model", s("Blog"))])), Err(DecodeError::MissingTag));
    assert_eq!(
        MigrationStep::decode(&obj(vec![("stepType", s("RenameModel")), ("model", s("Blog"))])),
        Err(DecodeError::UnknownTag)
    );
    assert_eq!(
        MigrationStep::decode(&obj(vec![("stepType", s("DeleteField")), ("model", s("Blog"))])),
        Err(DecodeError::MissingField)
    );
    assert_eq!(
        MigrationStep::decode(&obj(vec![
            ("stepType", s("CreateField")),
            ("model", s("Blog")),
            ("field", s("f")),
            ("type", s("String")),
            ("arity", s("many")),
        ])),
        Err(DecodeError::WrongShape)
    );
    assert_eq!(
        MigrationStep::decode(&obj(vec![("stepType", JsonValue::Bool(true))])),
        Err(DecodeError::WrongShape)
    );
}

#[test]
fn argument_location_round_trips() {
    let step = MigrationStep::CreateArgument(CreateArgument {
        location: ArgumentLocation::Directive(DirectiveLocation {
            directive_type: DirectiveType::Field { model: "M".to_owned(), field: "f".to_owned() },
            directive: "default".to_owned(),
            arguments: Some(vec![Argument { name: "".to_owned(), value: MigrationExpression("1".to_owned()) }]),
        }),
        argument: "".to_owned(),
        value: MigrationExpression("2".to_owned()),
    });
    let j = step.encode();
    assert_eq!(MigrationStep::decode(&j), Ok(step));
}

#[test]
fn directive_location_round_trips() {
    let step = MigrationStep::CreateDirective(CreateDirective {
        location: DirectiveLocation {
            directive_type: DirectiveType::Enum { enum_name: "E".to_owned() },
            directive: "map".to_owned(),
            arguments: None,
        },
    });
    let j = step.encode();
    match &j {
        JsonValue::Object(m) => {
            let loc = &m[1].1;
            assert_eq!(keys(loc), vec!["argumentType", "enum", "argumentContainer"]);
        }
        _ => panic!("not an object"),
    }
    assert_eq!(MigrationStep::decode(&j), Ok(step));
}
