use vstd::prelude::*;
use crate::ast::FieldArity;
use vstd::string::*;
use crate::json::{
    JsonValue, JsonView, member, members_view, items_view, json_view, lemma_member_push,
    lemma_object_view, lemma_array_view, get_member, json_equiv, lemma_member_equiv,
    lemma_equiv_shape,
};
use crate::text::str_eq;

verus! {

/// The source text of an argument's value, exactly as written in a schema.
#[derive(Debug, Clone, PartialEq, Eq)]
pub struct MigrationExpression(pub String);

/// A named argument of a directive.
#[derive(Debug, Clone, PartialEq, Eq)]
pub struct Argument {
    pub name: String,
    pub value: MigrationExpression,
}

/// The schema element that a directive is attached to.
#[derive(Debug, Clone, PartialEq, Eq)]
pub enum DirectiveType {
    Model { model: String },
    Field { model: String, field: String },
    Enum { enum_name: String },
}

/// Where a directive stands: its owner, its name, and the arguments it had.
#[derive(Debug, Clone, PartialEq, Eq)]
pub struct DirectiveLocation {
    pub directive_type: DirectiveType,
    pub directive: String,
    pub arguments: Option<Vec<Argument>>,
}

/// Where an argument stands.
#[derive(Debug, Clone, PartialEq, Eq)]
pub enum ArgumentLocation {
    Directive(DirectiveLocation),
}

#[derive(Debug, Clone, PartialEq, Eq)]
pub struct CreateModel {
    pub model: String,
}

#[derive(Debug, Clone, PartialEq, Eq)]
pub struct UpdateModel {
    pub model: String,
    pub new_name: Option<String>,
}

#[derive(Debug, Clone, PartialEq, Eq)]
pub struct DeleteModel {
    pub model: String,
}

#[derive(Debug, Clone, PartialEq, Eq)]
pub struct CreateField {
    pub model: String,
    pub field: String,
    pub tpe: String,
    pub arity: FieldArity,
}

#[derive(Debug, Clone, PartialEq, Eq)]
pub struct UpdateField {
    pub model: String,
    pub field: String,
    pub new_name: Option<String>,
    pub tpe: Option<String>,
    pub arity: Option<FieldArity>,
}

#[derive(Debug, Clone, PartialEq, Eq)]
pub struct DeleteField {
    pub model: String,
    pub field: String,
}

#[derive(Debug, Clone, PartialEq, Eq)]
pub struct CreateEnum {
    pub enum_name: String,
    pub values: Vec<String>,
}

#[derive(Debug, Clone, PartialEq, Eq)]
pub struct UpdateEnum {
    pub enum_name: String,
    pub new_name: Option<String>,
    pub created_values: Vec<String>,
    pub deleted_values: Vec<String>,
}

#[derive(Debug, Clone, PartialEq, Eq)]
pub struct DeleteEnum {
    pub enum_name: String,
}

#[derive(Debug, Clone, PartialEq, Eq)]
pub struct CreateDirective {
    pub location: DirectiveLocation,
}

#[derive(Debug, Clone, PartialEq, Eq)]
pub struct DeleteDirective {
    pub location: DirectiveLocation,
}

#[derive(Debug, Clone, PartialEq, Eq)]
pub struct CreateArgument {
    pub location: ArgumentLocation,
    pub argument: String,
    pub value: MigrationExpression,
}

#[derive(Debug, Clone, PartialEq, Eq)]
pub struct UpdateArgument {
    pub location: ArgumentLocation,
    pub argument: String,
    pub new_value: MigrationExpression,
}

#[derive(Debug, Clone, PartialEq, Eq)]
pub struct DeleteArgument {
    pub location: ArgumentLocation,
    pub argument: String,
}

/// One atomic schema change.
#[derive(Debug, Clone, PartialEq, Eq)]
pub enum MigrationStep {
    CreateModel(CreateModel),
    UpdateModel(UpdateModel),
    DeleteModel(DeleteModel),
    CreateField(CreateField),
    UpdateField(UpdateField),
    DeleteField(DeleteField),
    CreateEnum(CreateEnum),
    UpdateEnum(UpdateEnum),
    DeleteEnum(DeleteEnum),
    CreateDirective(CreateDirective),
    DeleteDirective(DeleteDirective),
    CreateArgument(CreateArgument),
    UpdateArgument(UpdateArgument),
    DeleteArgument(DeleteArgument),
}

/// Why a wire object is not a step.
#[derive(Clone, Copy, Debug, PartialEq, Eq, Structural)]
pub enum DecodeError {
    /// A value that must be an object is not one.
    NotAnObject,
    /// A discriminator is absent.
    MissingTag,
    /// A discriminator names no known variant.
    UnknownTag,
    /// A required member is absent.
    MissingField,
    /// A member has the wrong shape.
    WrongShape,
}

// ---------------------------------------------------------------------------
// The steps as plain values.

pub ghost enum OwnerView {
    Model { model: Seq<char> },
    Field { model: Seq<char>, field: Seq<char> },
    Enum { enum_name: Seq<char> },
}

pub ghost struct LocationView {
    pub owner: OwnerView,
    pub directive: Seq<char>,
    pub arguments: Option<Seq<(Seq<char>, Seq<char>)>>,
}

pub ghost enum StepView {
    CreateModel { model: Seq<char> },
    UpdateModel { model: Seq<char>, new_name: Option<Seq<char>> },
    DeleteModel { model: Seq<char> },
    CreateField { model: Seq<char>, field: Seq<char>, tpe: Seq<char>, arity: FieldArity },
    UpdateField {
        model: Seq<char>,
        field: Seq<char>,
        new_name: Option<Seq<char>>,
        tpe: Option<Seq<char>>,
        arity: Option<FieldArity>,
    },
    DeleteField { model: Seq<char>, field: Seq<char> },
    CreateEnum { enum_name: Seq<char>, values: Seq<Seq<char>> },
    UpdateEnum {
        enum_name: Seq<char>,
        new_name: Option<Seq<char>>,
        created_values: Seq<Seq<char>>,
        deleted_values: Seq<Seq<char>>,
    },
    DeleteEnum { enum_name: Seq<char> },
    CreateDirective { location: LocationView },
    DeleteDirective { location: LocationView },
    CreateArgument { location: LocationView, argument: Seq<char>, value: Seq<char> },
    UpdateArgument { location: LocationView, argument: Seq<char>, new_value: Seq<char> },
    DeleteArgument { location: LocationView, argument: Seq<char> },
}

pub open spec fn opt_str_view(o: Option<String>) -> Option<Seq<char>> {
    match o {
        Some(s) => Some(s@),
        None => None,
    }
}

pub open spec fn strings_view(v: Seq<String>) -> Seq<Seq<char>> {
    Seq::new(v.len(), |i: int| v[i]@)
}

pub open spec fn arguments_view(v: Seq<Argument>) -> Seq<(Seq<char>, Seq<char>)> {
    Seq::new(v.len(), |i: int| (v[i].name@, v[i].value.0@))
}

pub open spec fn opt_arguments_view(a: Option<Vec<Argument>>) -> Option<
    Seq<(Seq<char>, Seq<char>)>,
> {
    match a {
        Some(v) => Some(arguments_view(v@)),
        None => None,
    }
}

pub open spec fn owner_view(t: DirectiveType) -> OwnerView {
    match t {
        DirectiveType::Model { model } => OwnerView::Model { model: model@ },
        DirectiveType::Field { model, field } => OwnerView::Field { model: model@, field: field@ },
        DirectiveType::Enum { enum_name } => OwnerView::Enum { enum_name: enum_name@ },
    }
}

pub open spec fn location_view(l: DirectiveLocation) -> LocationView {
    LocationView {
        owner: owner_view(l.directive_type),
        directive: l.directive@,
        arguments: opt_arguments_view(l.arguments),
    }
}

pub open spec fn argument_location_view(l: ArgumentLocation) -> LocationView {
    match l {
        ArgumentLocation::Directive(d) => location_view(d),
    }
}

impl View for MigrationStep {
    type V = StepView;

    open spec fn view(&self) -> StepView {
        match self {
            MigrationStep::CreateModel(s) => StepView::CreateModel { model: s.model@ },
            MigrationStep::UpdateModel(s) => StepView::UpdateModel {
                model: s.model@,
                new_name: opt_str_view(s.new_name),
            },
            MigrationStep::DeleteModel(s) => StepView::DeleteModel { model: s.model@ },
            MigrationStep::CreateField(s) => StepView::CreateField {
                model: s.model@,
                field: s.field@,
                tpe: s.tpe@,
                arity: s.arity,
            },
            MigrationStep::UpdateField(s) => StepView::UpdateField {
                model: s.model@,
                field: s.field@,
                new_name: opt_str_view(s.new_name),
                tpe: opt_str_view(s.tpe),
                arity: s.arity,
            },
            MigrationStep::DeleteField(s) => StepView::DeleteField {
                model: s.model@,
                field: s.field@,
            },
            MigrationStep::CreateEnum(s) => StepView::CreateEnum {
                enum_name: s.enum_name@,
                values: strings_view(s.values@),
            },
            MigrationStep::UpdateEnum(s) => StepView::UpdateEnum {
                enum_name: s.enum_name@,
                new_name: opt_str_view(s.new_name),
                created_values: strings_view(s.created_values@),
                deleted_values: strings_view(s.deleted_values@),
            },
            MigrationStep::DeleteEnum(s) => StepView::DeleteEnum { enum_name: s.enum_name@ },
            MigrationStep::CreateDirective(s) => StepView::CreateDirective {
                location: location_view(s.location),
            },
            MigrationStep::DeleteDirective(s) => StepView::DeleteDirective {
                location: location_view(s.location),
            },
            MigrationStep::CreateArgument(s) => StepView::CreateArgument {
                location: argument_location_view(s.location),
                argument: s.argument@,
                value: s.value.0@,
            },
            MigrationStep::UpdateArgument(s) => StepView::UpdateArgument {
                location: argument_location_view(s.location),
                argument: s.argument@,
                new_value: s.new_value.0@,
            },
            MigrationStep::DeleteArgument(s) => StepView::DeleteArgument {
                location: argument_location_view(s.location),
                argument: s.argument@,
            },
        }
    }
}

// ---------------------------------------------------------------------------
// The canonical encoding.

pub type Members = Seq<(Seq<char>, JsonView)>;

pub open spec fn str_member(key: Seq<char>, v: Seq<char>) -> (Seq<char>, JsonView) {
    (key, JsonView::Str(v))
}

/// Appends a member for an optional string only when it is set.
pub open spec fn with_opt_str(m: Members, key: Seq<char>, v: Option<Seq<char>>) -> Members {
    match v {
        Some(s) => m.push(str_member(key, s)),
        None => m,
    }
}

pub open spec fn strings_json(v: Seq<Seq<char>>) -> JsonView {
    JsonView::Array(Seq::new(v.len(), |i: int| JsonView::Str(v[i])))
}

/// Appends a member for a list only when it is not empty.
pub open spec fn with_nonempty_strings(m: Members, key: Seq<char>, v: Seq<Seq<char>>) -> Members {
    if v.len() == 0 {
        m
    } else {
        m.push((key, strings_json(v)))
    }
}

pub open spec fn arity_name(a: FieldArity) -> Seq<char> {
    match a {
        FieldArity::Required => "required"@,
        FieldArity::Optional => "optional"@,
        FieldArity::List => "list"@,
    }
}

pub open spec fn with_opt_arity(m: Members, key: Seq<char>, a: Option<FieldArity>) -> Members {
    match a {
        Some(x) => m.push(str_member(key, arity_name(x))),
        None => m,
    }
}

pub open spec fn with_owner(m: Members, o: OwnerView) -> Members {
    match o {
        OwnerView::Model { model } => m.push(str_member("model"@, model)),
        OwnerView::Field { model, field } => m.push(str_member("model"@, model)).push(
            str_member("field"@, field),
        ),
        OwnerView::Enum { enum_name } => m.push(str_member("enum"@, enum_name)),
    }
}

/// The discriminator of a directive location.
pub open spec fn owner_directive_tag(o: OwnerView) -> Seq<char> {
    match o {
        OwnerView::Model { .. } => "ModelDirective"@,
        OwnerView::Field { .. } => "FieldDirective"@,
        OwnerView::Enum { .. } => "EnumDirective"@,
    }
}

/// The discriminator of the owner inside an argument location.
pub open spec fn owner_type_tag(o: OwnerView) -> Seq<char> {
    match o {
        OwnerView::Model { .. } => "Model"@,
        OwnerView::Field { .. } => "Field"@,
        OwnerView::Enum { .. } => "Enum"@,
    }
}

pub open spec fn argument_json(a: (Seq<char>, Seq<char>)) -> JsonView {
    JsonView::Object(
        Seq::empty().push(str_member("name"@, a.0)).push(str_member("value"@, a.1)),
    )
}

pub open spec fn with_arguments(m: Members, a: Option<Seq<(Seq<char>, Seq<char>)>>) -> Members {
    match a {
        Some(args) => m.push(
            ("arguments"@, JsonView::Array(Seq::new(args.len(), |i: int| argument_json(args[i])))),
        ),
        None => m,
    }
}

/// A directive location, discriminated by `argumentType`.
pub open spec fn encode_location(l: LocationView) -> JsonView {
    JsonView::Object(
        with_arguments(
            with_owner(
                Seq::empty().push(str_member("argumentType"@, owner_directive_tag(l.owner))),
                l.owner,
            ).push(str_member("argumentContainer"@, l.directive)),
            l.arguments,
        ),
    )
}

/// An argument location: `type` is `Directive`, and the owner is a nested
/// object discriminated by its own `type`.
pub open spec fn encode_argument_location(l: LocationView) -> JsonView {
    JsonView::Object(
        with_arguments(
            Seq::empty().push(str_member("type"@, "Directive"@)).push(
                str_member("directive"@, l.directive),
            ).push(
                (
                    "directiveType"@,
                    JsonView::Object(
                        with_owner(
                            Seq::empty().push(str_member("type"@, owner_type_tag(l.owner))),
                            l.owner,
                        ),
                    ),
                ),
            ),
            l.arguments,
        ),
    )
}

pub open spec fn tagged(tag: Seq<char>) -> Members {
    Seq::empty().push(str_member("stepType"@, tag))
}

/// The canonical wire object of a step: unset optional members and empty
/// lists of changes are left out.
pub open spec fn encode_spec(s: StepView) -> JsonView {
    JsonView::Object(
        match s {
            StepView::CreateModel { model } => tagged("CreateModel"@).push(
                str_member("model"@, model),
            ),
            StepView::UpdateModel { model, new_name } => with_opt_str(
                tagged("UpdateModel"@).push(str_member("model"@, model)),
                "newName"@,
                new_name,
            ),
            StepView::DeleteModel { model } => tagged("DeleteModel"@).push(
                str_member("model"@, model),
            ),
            StepView::CreateField { model, field, tpe, arity } => tagged("CreateField"@).push(
                str_member("model"@, model),
            ).push(str_member("field"@, field)).push(str_member("type"@, tpe)).push(
                str_member("arity"@, arity_name(arity)),
            ),
            StepView::UpdateField { model, field, new_name, tpe, arity } => with_opt_arity(
                with_opt_str(
                    with_opt_str(
                        tagged("UpdateField"@).push(str_member("model"@, model)).push(
                            str_member("field"@, field),
                        ),
                        "newName"@,
                        new_name,
                    ),
                    "type"@,
                    tpe,
                ),
                "arity"@,
                arity,
            ),
            StepView::DeleteField { model, field } => tagged("DeleteField"@).push(
                str_member("model"@, model),
            ).push(str_member("field"@, field)),
            StepView::CreateEnum { enum_name, values } => tagged("CreateEnum"@).push(
                str_member("enum"@, enum_name),
            ).push(("values"@, strings_json(values))),
            StepView::UpdateEnum { enum_name, new_name, created_values, deleted_values } =>
                with_nonempty_strings(
                with_nonempty_strings(
                    with_opt_str(
                        tagged("UpdateEnum"@).push(str_member("enum"@, enum_name)),
                        "newName"@,
                        new_name,
                    ),
                    "createdValues"@,
                    created_values,
                ),
                "deletedValues"@,
                deleted_values,
            ),
            StepView::DeleteEnum { enum_name } => tagged("DeleteEnum"@).push(
                str_member("enum"@, enum_name),
            ),
            StepView::CreateDirective { location } => tagged("CreateDirective"@).push(
                ("location"@, encode_location(location)),
            ),
            StepView::DeleteDirective { location } => tagged("DeleteDirective"@).push(
                ("location"@, encode_location(location)),
            ),
            StepView::CreateArgument { location, argument, value } => tagged(
                "CreateArgument"@,
            ).push(("location"@, encode_argument_location(location))).push(
                str_member("argument"@, argument),
            ).push(str_member("value"@, value)),
            StepView::UpdateArgument { location, argument, new_value } => tagged(
                "UpdateArgument"@,
            ).push(("location"@, encode_argument_location(location))).push(
                str_member("argument"@, argument),
            ).push(str_member("newValue"@, new_value)),
            StepView::DeleteArgument { location, argument } => tagged("DeleteArgument"@).push(
                ("location"@, encode_argument_location(location)),
            ).push(str_member("argument"@, argument)),
        },
    )
}

// ---------------------------------------------------------------------------
// Decoding.

pub open spec fn req_str(m: Members, key: Seq<char>) -> Result<Seq<char>, DecodeError> {
    match member(m, key) {
        Some(JsonView::Str(s)) => Ok(s),
        Some(_) => Err(DecodeError::WrongShape),
        None => Err(DecodeError::MissingField),
    }
}

pub open spec fn opt_str(m: Members, key: Seq<char>) -> Result<Option<Seq<char>>, DecodeError> {
    match member(m, key) {
        Some(JsonView::Str(s)) => Ok(Some(s)),
        Some(_) => Err(DecodeError::WrongShape),
        None => Ok(None),
    }
}

/// The strings of an array whose items are all strings.
pub open spec fn all_strings(items: Seq<JsonView>) -> Option<Seq<Seq<char>>>
    decreases items.len(),
{
    if items.len() == 0 {
        Some(Seq::empty())
    } else {
        match (all_strings(items.drop_last()), items.last()) {
            (Some(prev), JsonView::Str(s)) => Some(prev.push(s)),
            _ => None,
        }
    }
}

/// A list of strings; an absent list is empty unless it is required.
pub open spec fn strings_member(m: Members, key: Seq<char>, required: bool) -> Result<
    Seq<Seq<char>>,
    DecodeError,
> {
    match member(m, key) {
        Some(JsonView::Array(items)) => match all_strings(items) {
            Some(v) => Ok(v),
            None => Err(DecodeError::WrongShape),
        },
        Some(_) => Err(DecodeError::WrongShape),
        None => if required {
            Err(DecodeError::MissingField)
        } else {
            Ok(Seq::empty())
        },
    }
}

pub open spec fn arity_of_name(s: Seq<char>) -> Option<FieldArity> {
    if s == "required"@ {
        Some(FieldArity::Required)
    } else if s == "optional"@ {
        Some(FieldArity::Optional)
    } else if s == "list"@ {
        Some(FieldArity::List)
    } else {
        None
    }
}

pub open spec fn opt_arity(m: Members, key: Seq<char>) -> Result<Option<FieldArity>, DecodeError> {
    match opt_str(m, key) {
        Ok(Some(s)) => match arity_of_name(s) {
            Some(a) => Ok(Some(a)),
            None => Err(DecodeError::WrongShape),
        },
        Ok(None) => Ok(None),
        Err(e) => Err(e),
    }
}

pub open spec fn req_arity(m: Members, key: Seq<char>) -> Result<FieldArity, DecodeError> {
    match opt_arity(m, key) {
        Ok(Some(a)) => Ok(a),
        Ok(None) => Err(DecodeError::MissingField),
        Err(e) => Err(e),
    }
}

/// The owner named by `kind` (`Model`, `Field` or `Enum`), read from `m`.
pub open spec fn decode_owner(m: Members, kind: Seq<char>) -> Result<OwnerView, DecodeError> {
    if kind == "Model"@ {
        match req_str(m, "model"@) {
            Ok(model) => Ok(OwnerView::Model { model }),
            Err(e) => Err(e),
        }
    } else if kind == "Field"@ {
        match req_str(m, "model"@) {
            Ok(model) => match req_str(m, "field"@) {
                Ok(field) => Ok(OwnerView::Field { model, field }),
                Err(e) => Err(e),
            },
            Err(e) => Err(e),
        }
    } else if kind == "Enum"@ {
        match req_str(m, "enum"@) {
            Ok(enum_name) => Ok(OwnerView::Enum { enum_name }),
            Err(e) => Err(e),
        }
    } else {
        Err(DecodeError::UnknownTag)
    }
}

pub open spec fn decode_argument(j: JsonView) -> Option<(Seq<char>, Seq<char>)> {
    match j {
        JsonView::Object(m) => match (req_str(m, "name"@), req_str(m, "value"@)) {
            (Ok(n), Ok(v)) => Some((n, v)),
            _ => None,
        },
        _ => None,
    }
}

pub open spec fn all_arguments(items: Seq<JsonView>) -> Option<Seq<(Seq<char>, Seq<char>)>>
    decreases items.len(),
{
    if items.len() == 0 {
        Some(Seq::empty())
    } else {
        match (all_arguments(items.drop_last()), decode_argument(items.last())) {
            (Some(prev), Some(a)) => Some(prev.push(a)),
            _ => None,
        }
    }
}

pub open spec fn arguments_member(m: Members) -> Result<
    Option<Seq<(Seq<char>, Seq<char>)>>,
    DecodeError,
> {
    match member(m, "arguments"@) {
        Some(JsonView::Array(items)) => match all_arguments(items) {
            Some(v) => Ok(Some(v)),
            None => Err(DecodeError::WrongShape),
        },
        Some(_) => Err(DecodeError::WrongShape),
        None => Ok(None),
    }
}

/// The owner kind that a directive location's `argumentType` names.
pub open spec fn directive_tag_kind(tag: Seq<char>) -> Seq<char> {
    if tag == "ModelDirective"@ {
        "Model"@
    } else if tag == "FieldDirective"@ {
        "Field"@
    } else if tag == "EnumDirective"@ {
        "Enum"@
    } else {
        tag
    }
}

pub open spec fn known_directive_tag(tag: Seq<char>) -> bool {
    tag == "ModelDirective"@ || tag == "FieldDirective"@ || tag == "EnumDirective"@
}

pub open spec fn decode_location_members(m: Members) -> Result<LocationView, DecodeError> {
    match member(m, "argumentType"@) {
        None => Err(DecodeError::MissingTag),
        Some(JsonView::Str(tag)) => if !known_directive_tag(tag) {
            Err(DecodeError::UnknownTag)
        } else {
            match decode_owner(m, directive_tag_kind(tag)) {
                Err(e) => Err(e),
                Ok(owner) => match req_str(m, "argumentContainer"@) {
                    Err(e) => Err(e),
                    Ok(directive) => match arguments_member(m) {
                        Err(e) => Err(e),
                        Ok(arguments) => Ok(LocationView { owner, directive, arguments }),
                    },
                },
            }
        },
        Some(_) => Err(DecodeError::WrongShape),
    }
}

/// A directive location, discriminated by `argumentType`.
pub open spec fn decode_location(j: JsonView) -> Result<LocationView, DecodeError> {
    match j {
        JsonView::Object(m) => decode_location_members(m),
        _ => Err(DecodeError::NotAnObject),
    }
}

pub open spec fn decode_directive_type(j: JsonView) -> Result<OwnerView, DecodeError> {
    match j {
        JsonView::Object(m) => match member(m, "type"@) {
            None => Err(DecodeError::MissingTag),
            Some(JsonView::Str(kind)) => decode_owner(m, kind),
            Some(_) => Err(DecodeError::WrongShape),
        },
        _ => Err(DecodeError::NotAnObject),
    }
}

/// An argument location: `type` is `Directive`, with the owner under
/// `directiveType`. An object without `type` is read as a directive location.
pub open spec fn decode_argument_location(j: JsonView) -> Result<LocationView, DecodeError> {
    match j {
        JsonView::Object(m) => match member(m, "type"@) {
            None => decode_location_members(m),
            Some(JsonView::Str(t)) => if t != "Directive"@ {
                Err(DecodeError::UnknownTag)
            } else {
                match member(m, "directiveType"@) {
                    None => Err(DecodeError::MissingField),
                    Some(dt) => match decode_directive_type(dt) {
                        Err(e) => Err(e),
                        Ok(owner) => match req_str(m, "directive"@) {
                            Err(e) => Err(e),
                            Ok(directive) => match arguments_member(m) {
                                Err(e) => Err(e),
                                Ok(arguments) => Ok(LocationView { owner, directive, arguments }),
                            },
                        },
                    },
                }
            },
            Some(_) => Err(DecodeError::WrongShape),
        },
        _ => Err(DecodeError::NotAnObject),
    }
}

pub open spec fn location_member(m: Members) -> Result<LocationView, DecodeError> {
    match member(m, "location"@) {
        Some(j) => decode_location(j),
        None => Err(DecodeError::MissingField),
    }
}

pub open spec fn argument_location_member(m: Members) -> Result<LocationView, DecodeError> {
    match member(m, "location"@) {
        Some(j) => decode_argument_location(j),
        None => Err(DecodeError::MissingField),
    }
}

/// Reads the step of the variant that `tag` names from the members `m`.
pub open spec fn decode_tagged(tag: Seq<char>, m: Members) -> Result<StepView, DecodeError> {
    if tag == "CreateModel"@ {
        match req_str(m, "model"@) {
            Ok(model) => Ok(StepView::CreateModel { model }),
            Err(e) => Err(e),
        }
    } else if tag == "UpdateModel"@ {
        match (req_str(m, "model"@), opt_str(m, "newName"@)) {
            (Err(e), _) => Err(e),
            (_, Err(e)) => Err(e),
            (Ok(model), Ok(new_name)) => Ok(StepView::UpdateModel { model, new_name }),
        }
    } else if tag == "DeleteModel"@ {
        match req_str(m, "model"@) {
            Ok(model) => Ok(StepView::DeleteModel { model }),
            Err(e) => Err(e),
        }
    } else if tag == "CreateField"@ {
        match (req_str(m, "model"@), req_str(m, "field"@), req_str(m, "type"@), req_arity(m, "arity"@)) {
            (Err(e), _, _, _) => Err(e),
            (_, Err(e), _, _) => Err(e),
            (_, _, Err(e), _) => Err(e),
            (_, _, _, Err(e)) => Err(e),
            (Ok(model), Ok(field), Ok(tpe), Ok(arity)) => Ok(
                StepView::CreateField { model, field, tpe, arity },
            ),
        }
    } else if tag == "UpdateField"@ {
        match (
            req_str(m, "model"@),
            req_str(m, "field"@),
            opt_str(m, "newName"@),
            opt_str(m, "type"@),
            opt_arity(m, "arity"@),
        ) {
            (Err(e), _, _, _, _) => Err(e),
            (_, Err(e), _, _, _) => Err(e),
            (_, _, Err(e), _, _) => Err(e),
            (_, _, _, Err(e), _) => Err(e),
            (_, _, _, _, Err(e)) => Err(e),
            (Ok(model), Ok(field), Ok(new_name), Ok(tpe), Ok(arity)) => Ok(
                StepView::UpdateField { model, field, new_name, tpe, arity },
            ),
        }
    } else if tag == "DeleteField"@ {
        match (req_str(m, "model"@), req_str(m, "field"@)) {
            (Err(e), _) => Err(e),
            (_, Err(e)) => Err(e),
            (Ok(model), Ok(field)) => Ok(StepView::DeleteField { model, field }),
        }
    } else if tag == "CreateEnum"@ {
        match (req_str(m, "enum"@), strings_member(m, "values"@, true)) {
            (Err(e), _) => Err(e),
            (_, Err(e)) => Err(e),
            (Ok(enum_name), Ok(values)) => Ok(StepView::CreateEnum { enum_name, values }),
        }
    } else if tag == "UpdateEnum"@ {
        match (
            req_str(m, "enum"@),
            opt_str(m, "newName"@),
            strings_member(m, "createdValues"@, false),
            strings_member(m, "deletedValues"@, false),
        ) {
            (Err(e), _, _, _) => Err(e),
            (_, Err(e), _, _) => Err(e),
            (_, _, Err(e), _) => Err(e),
            (_, _, _, Err(e)) => Err(e),
            (Ok(enum_name), Ok(new_name), Ok(created_values), Ok(deleted_values)) => Ok(
                StepView::UpdateEnum { enum_name, new_name, created_values, deleted_values },
            ),
        }
    } else if tag == "DeleteEnum"@ {
        match req_str(m, "enum"@) {
            Ok(enum_name) => Ok(StepView::DeleteEnum { enum_name }),
            Err(e) => Err(e),
        }
    } else if tag == "CreateDirective"@ {
        match location_member(m) {
            Ok(location) => Ok(StepView::CreateDirective { location }),
            Err(e) => Err(e),
        }
    } else if tag == "DeleteDirective"@ {
        match location_member(m) {
            Ok(location) => Ok(StepView::DeleteDirective { location }),
            Err(e) => Err(e),
        }
    } else if tag == "CreateArgument"@ {
        match (argument_location_member(m), req_str(m, "argument"@), req_str(m, "value"@)) {
            (Err(e), _, _) => Err(e),
            (_, Err(e), _) => Err(e),
            (_, _, Err(e)) => Err(e),
            (Ok(location), Ok(argument), Ok(value)) => Ok(
                StepView::CreateArgument { location, argument, value },
            ),
        }
    } else if tag == "UpdateArgument"@ {
        match (argument_location_member(m), req_str(m, "argument"@), req_str(m, "newValue"@)) {
            (Err(e), _, _) => Err(e),
            (_, Err(e), _) => Err(e),
            (_, _, Err(e)) => Err(e),
            (Ok(location), Ok(argument), Ok(new_value)) => Ok(
                StepView::UpdateArgument { location, argument, new_value },
            ),
        }
    } else if tag == "DeleteArgument"@ {
        match (argument_location_member(m), req_str(m, "argument"@)) {
            (Err(e), _) => Err(e),
            (_, Err(e)) => Err(e),
            (Ok(location), Ok(argument)) => Ok(StepView::DeleteArgument { location, argument }),
        }
    } else {
        Err(DecodeError::UnknownTag)
    }
}

/// Reads a step from a wire object. Members that the variant does not read
/// are ignored; explicit nulls count as absent.
pub open spec fn decode_spec(j: JsonView) -> Result<StepView, DecodeError> {
    match j {
        JsonView::Object(m) => match member(m, "stepType"@) {
            None => Err(DecodeError::MissingTag),
            Some(JsonView::Str(tag)) => decode_tagged(tag, m),
            Some(_) => Err(DecodeError::WrongShape),
        },
        _ => Err(DecodeError::NotAnObject),
    }
}

// ---------------------------------------------------------------------------
// Round trip.

proof fn lemma_member_names_distinct()
    ensures
        "stepType"@ != "model"@,
        "stepType"@ != "newName"@,
        "stepType"@ != "field"@,
        "stepType"@ != "type"@,
        "stepType"@ != "arity"@,
        "stepType"@ != "enum"@,
        "stepType"@ != "values"@,
        "stepType"@ != "createdValues"@,
        "stepType"@ != "deletedValues"@,
        "stepType"@ != "location"@,
        "stepType"@ != "argument"@,
        "stepType"@ != "value"@,
        "stepType"@ != "newValue"@,
        "stepType"@ != "argumentType"@,
        "stepType"@ != "argumentContainer"@,
        "stepType"@ != "arguments"@,
        "stepType"@ != "directive"@,
        "stepType"@ != "directiveType"@,
        "stepType"@ != "name"@,
        "model"@ != "newName"@,
        "model"@ != "field"@,
        "model"@ != "type"@,
        "model"@ != "arity"@,
        "model"@ != "enum"@,
        "model"@ != "values"@,
        "model"@ != "createdValues"@,
        "model"@ != "deletedValues"@,
        "model"@ != "location"@,
        "model"@ != "argument"@,
        "model"@ != "value"@,
        "model"@ != "newValue"@,
        "model"@ != "argumentType"@,
        "model"@ != "argumentContainer"@,
        "model"@ != "arguments"@,
        "model"@ != "directive"@,
        "model"@ != "directiveType"@,
        "model"@ != "name"@,
        "newName"@ != "field"@,
        "newName"@ != "type"@,
        "newName"@ != "arity"@,
        "newName"@ != "enum"@,
        "newName"@ != "values"@,
        "newName"@ != "createdValues"@,
        "newName"@ != "deletedValues"@,
        "newName"@ != "location"@,
        "newName"@ != "argument"@,
        "newName"@ != "value"@,
        "newName"@ != "newValue"@,
        "newName"@ != "argumentType"@,
        "newName"@ != "argumentContainer"@,
        "newName"@ != "arguments"@,
        "newName"@ != "directive"@,
        "newName"@ != "directiveType"@,
        "newName"@ != "name"@,
        "field"@ != "type"@,
        "field"@ != "arity"@,
        "field"@ != "enum"@,
        "field"@ != "values"@,
        "field"@ != "createdValues"@,
        "field"@ != "deletedValues"@,
        "field"@ != "location"@,
        "field"@ != "argument"@,
        "field"@ != "value"@,
        "field"@ != "newValue"@,
        "field"@ != "argumentType"@,
        "field"@ != "argumentContainer"@,
        "field"@ != "arguments"@,
        "field"@ != "directive"@,
        "field"@ != "directiveType"@,
        "field"@ != "name"@,
        "type"@ != "arity"@,
        "type"@ != "enum"@,
        "type"@ != "values"@,
        "type"@ != "createdValues"@,
        "type"@ != "deletedValues"@,
        "type"@ != "location"@,
        "type"@ != "argument"@,
        "type"@ != "value"@,
        "type"@ != "newValue"@,
        "type"@ != "argumentType"@,
        "type"@ != "argumentContainer"@,
        "type"@ != "arguments"@,
        "type"@ != "directive"@,
        "type"@ != "directiveType"@,
        "type"@ != "name"@,
        "arity"@ != "enum"@,
        "arity"@ != "values"@,
        "arity"@ != "createdValues"@,
        "arity"@ != "deletedValues"@,
        "arity"@ != "location"@,
        "arity"@ != "argument"@,
        "arity"@ != "value"@,
        "arity"@ != "newValue"@,
        "arity"@ != "argumentType"@,
        "arity"@ != "argumentContainer"@,
        "arity"@ != "arguments"@,
        "arity"@ != "directive"@,
        "arity"@ != "directiveType"@,
        "arity"@ != "name"@,
        "enum"@ != "values"@,
        "enum"@ != "createdValues"@,
        "enum"@ != "deletedValues"@,
        "enum"@ != "location"@,
        "enum"@ != "argument"@,
        "enum"@ != "value"@,
        "enum"@ != "newValue"@,
        "enum"@ != "argumentType"@,
        "enum"@ != "argumentContainer"@,
        "enum"@ != "arguments"@,
        "enum"@ != "directive"@,
        "enum"@ != "directiveType"@,
        "enum"@ != "name"@,
        "values"@ != "createdValues"@,
        "values"@ != "deletedValues"@,
        "values"@ != "location"@,
        "values"@ != "argument"@,
        "values"@ != "value"@,
        "values"@ != "newValue"@,
        "values"@ != "argumentType"@,
        "values"@ != "argumentContainer"@,
        "values"@ != "arguments"@,
        "values"@ != "directive"@,
        "values"@ != "directiveType"@,
        "values"@ != "name"@,
        "createdValues"@ != "deletedValues"@,
        "createdValues"@ != "location"@,
        "createdValues"@ != "argument"@,
        "createdValues"@ != "value"@,
        "createdValues"@ != "newValue"@,
        "createdValues"@ != "argumentType"@,
        "createdValues"@ != "argumentContainer"@,
        "createdValues"@ != "arguments"@,
        "createdValues"@ != "directive"@,
        "createdValues"@ != "directiveType"@,
        "createdValues"@ != "name"@,
        "deletedValues"@ != "location"@,
        "deletedValues"@ != "argument"@,
        "deletedValues"@ != "value"@,
        "deletedValues"@ != "newValue"@,
        "deletedValues"@ != "argumentType"@,
        "deletedValues"@ != "argumentContainer"@,
        "deletedValues"@ != "arguments"@,
        "deletedValues"@ != "directive"@,
        "deletedValues"@ != "directiveType"@,
        "deletedValues"@ != "name"@,
        "location"@ != "argument"@,
        "location"@ != "value"@,
        "location"@ != "newValue"@,
        "location"@ != "argumentType"@,
        "location"@ != "argumentContainer"@,
        "location"@ != "arguments"@,
        "location"@ != "directive"@,
        "location"@ != "directiveType"@,
        "location"@ != "name"@,
        "argument"@ != "value"@,
        "argument"@ != "newValue"@,
        "argument"@ != "argumentType"@,
        "argument"@ != "argumentContainer"@,
        "argument"@ != "arguments"@,
        "argument"@ != "directive"@,
        "argument"@ != "directiveType"@,
        "argument"@ != "name"@,
        "value"@ != "newValue"@,
        "value"@ != "argumentType"@,
        "value"@ != "argumentContainer"@,
        "value"@ != "arguments"@,
        "value"@ != "directive"@,
        "value"@ != "directiveType"@,
        "value"@ != "name"@,
        "newValue"@ != "argumentType"@,
        "newValue"@ != "argumentContainer"@,
        "newValue"@ != "arguments"@,
        "newValue"@ != "directive"@,
        "newValue"@ != "directiveType"@,
        "newValue"@ != "name"@,
        "argumentType"@ != "argumentContainer"@,
        "argumentType"@ != "arguments"@,
        "argumentType"@ != "directive"@,
        "argumentType"@ != "directiveType"@,
        "argumentType"@ != "name"@,
        "argumentContainer"@ != "arguments"@,
        "argumentContainer"@ != "directive"@,
        "argumentContainer"@ != "directiveType"@,
        "argumentContainer"@ != "name"@,
        "arguments"@ != "directive"@,
        "arguments"@ != "directiveType"@,
        "arguments"@ != "name"@,
        "directive"@ != "directiveType"@,
        "directive"@ != "name"@,
        "directiveType"@ != "name"@,
{
    reveal_strlit("stepType");
    reveal_strlit("model");
    reveal_strlit("newName");
    reveal_strlit("field");
    reveal_strlit("type");
    reveal_strlit("arity");
    reveal_strlit("enum");
    reveal_strlit("values");
    reveal_strlit("createdValues");
    reveal_strlit("deletedValues");
    reveal_strlit("location");
    reveal_strlit("argument");
    reveal_strlit("value");
    reveal_strlit("newValue");
    reveal_strlit("argumentType");
    reveal_strlit("argumentContainer");
    reveal_strlit("arguments");
    reveal_strlit("directive");
    reveal_strlit("directiveType");
    reveal_strlit("name");
    assert("stepType"@.len() == 8);
    assert("model"@.len() == 5);
    assert("newName"@.len() == 7);
    assert("field"@.len() == 5);
    assert("type"@.len() == 4);
    assert("arity"@.len() == 5);
    assert("enum"@.len() == 4);
    assert("values"@.len() == 6);
    assert("createdValues"@.len() == 13);
    assert("deletedValues"@.len() == 13);
    assert("location"@.len() == 8);
    assert("argument"@.len() == 8);
    assert("value"@.len() == 5);
    assert("newValue"@.len() == 8);
    assert("argumentType"@.len() == 12);
    assert("argumentContainer"@.len() == 17);
    assert("arguments"@.len() == 9);
    assert("directive"@.len() == 9);
    assert("directiveType"@.len() == 13);
    assert("name"@.len() == 4);
    assert("stepType"@[0] == 's' && "location"@[0] == 'l');
    assert("stepType"@[0] == 's' && "argument"@[0] == 'a');
    assert("stepType"@[0] == 's' && "newValue"@[0] == 'n');
    assert("model"@[0] == 'm' && "field"@[0] == 'f');
    assert("model"@[0] == 'm' && "arity"@[0] == 'a');
    assert("model"@[0] == 'm' && "value"@[0] == 'v');
    assert("field"@[0] == 'f' && "arity"@[0] == 'a');
    assert("field"@[0] == 'f' && "value"@[0] == 'v');
    assert("type"@[0] == 't' && "enum"@[0] == 'e');
    assert("type"@[0] == 't' && "name"@[0] == 'n');
    assert("arity"@[0] == 'a' && "value"@[0] == 'v');
    assert("enum"@[0] == 'e' && "name"@[0] == 'n');
    assert("createdValues"@[0] == 'c' && "deletedValues"@[0] == 'd');
    assert("createdValues"@[0] == 'c' && "directiveType"@[0] == 'd');
    assert("deletedValues"@[1] == 'e' && "directiveType"@[1] == 'i');
    assert("location"@[0] == 'l' && "argument"@[0] == 'a');
    assert("location"@[0] == 'l' && "newValue"@[0] == 'n');
    assert("argument"@[0] == 'a' && "newValue"@[0] == 'n');
    assert("arguments"@[0] == 'a' && "directive"@[0] == 'd');
}

proof fn lemma_tags_distinct()
    ensures
        "CreateModel"@ != "UpdateModel"@,
        "CreateModel"@ != "DeleteModel"@,
        "CreateModel"@ != "CreateField"@,
        "CreateModel"@ != "UpdateField"@,
        "CreateModel"@ != "DeleteField"@,
        "CreateModel"@ != "CreateEnum"@,
        "CreateModel"@ != "UpdateEnum"@,
        "CreateModel"@ != "DeleteEnum"@,
        "CreateModel"@ != "CreateDirective"@,
        "CreateModel"@ != "DeleteDirective"@,
        "CreateModel"@ != "CreateArgument"@,
        "CreateModel"@ != "UpdateArgument"@,
        "CreateModel"@ != "DeleteArgument"@,
        "UpdateModel"@ != "DeleteModel"@,
        "UpdateModel"@ != "CreateField"@,
        "UpdateModel"@ != "UpdateField"@,
        "UpdateModel"@ != "DeleteField"@,
        "UpdateModel"@ != "CreateEnum"@,
        "UpdateModel"@ != "UpdateEnum"@,
        "UpdateModel"@ != "DeleteEnum"@,
        "UpdateModel"@ != "CreateDirective"@,
        "UpdateModel"@ != "DeleteDirective"@,
        "UpdateModel"@ != "CreateArgument"@,
        "UpdateModel"@ != "UpdateArgument"@,
        "UpdateModel"@ != "DeleteArgument"@,
        "DeleteModel"@ != "CreateField"@,
        "DeleteModel"@ != "UpdateField"@,
        "DeleteModel"@ != "DeleteField"@,
        "DeleteModel"@ != "CreateEnum"@,
        "DeleteModel"@ != "UpdateEnum"@,
        "DeleteModel"@ != "DeleteEnum"@,
        "DeleteModel"@ != "CreateDirective"@,
        "DeleteModel"@ != "DeleteDirective"@,
        "DeleteModel"@ != "CreateArgument"@,
        "DeleteModel"@ != "UpdateArgument"@,
        "DeleteModel"@ != "DeleteArgument"@,
        "CreateField"@ != "UpdateField"@,
        "CreateField"@ != "DeleteField"@,
        "CreateField"@ != "CreateEnum"@,
        "CreateField"@ != "UpdateEnum"@,
        "CreateField"@ != "DeleteEnum"@,
        "CreateField"@ != "CreateDirective"@,
        "CreateField"@ != "DeleteDirective"@,
        "CreateField"@ != "CreateArgument"@,
        "CreateField"@ != "UpdateArgument"@,
        "CreateField"@ != "DeleteArgument"@,
        "UpdateField"@ != "DeleteField"@,
        "UpdateField"@ != "CreateEnum"@,
        "UpdateField"@ != "UpdateEnum"@,
        "UpdateField"@ != "DeleteEnum"@,
        "UpdateField"@ != "CreateDirective"@,
        "UpdateField"@ != "DeleteDirective"@,
        "UpdateField"@ != "CreateArgument"@,
        "UpdateField"@ != "UpdateArgument"@,
        "UpdateField"@ != "DeleteArgument"@,
        "DeleteField"@ != "CreateEnum"@,
        "DeleteField"@ != "UpdateEnum"@,
        "DeleteField"@ != "DeleteEnum"@,
        "DeleteField"@ != "CreateDirective"@,
        "DeleteField"@ != "DeleteDirective"@,
        "DeleteField"@ != "CreateArgument"@,
        "DeleteField"@ != "UpdateArgument"@,
        "DeleteField"@ != "DeleteArgument"@,
        "CreateEnum"@ != "UpdateEnum"@,
        "CreateEnum"@ != "DeleteEnum"@,
        "CreateEnum"@ != "CreateDirective"@,
        "CreateEnum"@ != "DeleteDirective"@,
        "CreateEnum"@ != "CreateArgument"@,
        "CreateEnum"@ != "UpdateArgument"@,
        "CreateEnum"@ != "DeleteArgument"@,
        "UpdateEnum"@ != "DeleteEnum"@,
        "UpdateEnum"@ != "CreateDirective"@,
        "UpdateEnum"@ != "DeleteDirective"@,
        "UpdateEnum"@ != "CreateArgument"@,
        "UpdateEnum"@ != "UpdateArgument"@,
        "UpdateEnum"@ != "DeleteArgument"@,
        "DeleteEnum"@ != "CreateDirective"@,
        "DeleteEnum"@ != "DeleteDirective"@,
        "DeleteEnum"@ != "CreateArgument"@,
        "DeleteEnum"@ != "UpdateArgument"@,
        "DeleteEnum"@ != "DeleteArgument"@,
        "CreateDirective"@ != "DeleteDirective"@,
        "CreateDirective"@ != "CreateArgument"@,
        "CreateDirective"@ != "UpdateArgument"@,
        "CreateDirective"@ != "DeleteArgument"@,
        "DeleteDirective"@ != "CreateArgument"@,
        "DeleteDirective"@ != "UpdateArgument"@,
        "DeleteDirective"@ != "DeleteArgument"@,
        "CreateArgument"@ != "UpdateArgument"@,
        "CreateArgument"@ != "DeleteArgument"@,
        "UpdateArgument"@ != "DeleteArgument"@,
        "ModelDirective"@ != "FieldDirective"@,
        "ModelDirective"@ != "EnumDirective"@,
        "ModelDirective"@ != "Model"@,
        "ModelDirective"@ != "Field"@,
        "ModelDirective"@ != "Enum"@,
        "ModelDirective"@ != "Directive"@,
        "ModelDirective"@ != "required"@,
        "ModelDirective"@ != "optional"@,
        "ModelDirective"@ != "list"@,
        "FieldDirective"@ != "EnumDirective"@,
        "FieldDirective"@ != "Model"@,
        "FieldDirective"@ != "Field"@,
        "FieldDirective"@ != "Enum"@,
        "FieldDirective"@ != "Directive"@,
        "FieldDirective"@ != "required"@,
        "FieldDirective"@ != "optional"@,
        "FieldDirective"@ != "list"@,
        "EnumDirective"@ != "Model"@,
        "EnumDirective"@ != "Field"@,
        "EnumDirective"@ != "Enum"@,
        "EnumDirective"@ != "Directive"@,
        "EnumDirective"@ != "required"@,
        "EnumDirective"@ != "optional"@,
        "EnumDirective"@ != "list"@,
        "Model"@ != "Field"@,
        "Model"@ != "Enum"@,
        "Model"@ != "Directive"@,
        "Model"@ != "required"@,
        "Model"@ != "optional"@,
        "Model"@ != "list"@,
        "Field"@ != "Enum"@,
        "Field"@ != "Directive"@,
        "Field"@ != "required"@,
        "Field"@ != "optional"@,
        "Field"@ != "list"@,
        "Enum"@ != "Directive"@,
        "Enum"@ != "required"@,
        "Enum"@ != "optional"@,
        "Enum"@ != "list"@,
        "Directive"@ != "required"@,
        "Directive"@ != "optional"@,
        "Directive"@ != "list"@,
        "required"@ != "optional"@,
        "required"@ != "list"@,
        "optional"@ != "list"@,
{
    reveal_strlit("CreateModel");
    reveal_strlit("UpdateModel");
    reveal_strlit("DeleteModel");
    reveal_strlit("CreateField");
    reveal_strlit("UpdateField");
    reveal_strlit("DeleteField");
    reveal_strlit("CreateEnum");
    reveal_strlit("UpdateEnum");
    reveal_strlit("DeleteEnum");
    reveal_strlit("CreateDirective");
    reveal_strlit("DeleteDirective");
    reveal_strlit("CreateArgument");
    reveal_strlit("UpdateArgument");
    reveal_strlit("DeleteArgument");
    reveal_strlit("ModelDirective");
    reveal_strlit("FieldDirective");
    reveal_strlit("EnumDirective");
    reveal_strlit("Model");
    reveal_strlit("Field");
    reveal_strlit("Enum");
    reveal_strlit("Directive");
    reveal_strlit("required");
    reveal_strlit("optional");
    reveal_strlit("list");
    assert("CreateModel"@.len() == 11);
    assert("UpdateModel"@.len() == 11);
    assert("DeleteModel"@.len() == 11);
    assert("CreateField"@.len() == 11);
    assert("UpdateField"@.len() == 11);
    assert("DeleteField"@.len() == 11);
    assert("CreateEnum"@.len() == 10);
    assert("UpdateEnum"@.len() == 10);
    assert("DeleteEnum"@.len() == 10);
    assert("CreateDirective"@.len() == 15);
    assert("DeleteDirective"@.len() == 15);
    assert("CreateArgument"@.len() == 14);
    assert("UpdateArgument"@.len() == 14);
    assert("DeleteArgument"@.len() == 14);
    assert("ModelDirective"@.len() == 14);
    assert("FieldDirective"@.len() == 14);
    assert("EnumDirective"@.len() == 13);
    assert("Model"@.len() == 5);
    assert("Field"@.len() == 5);
    assert("Enum"@.len() == 4);
    assert("Directive"@.len() == 9);
    assert("required"@.len() == 8);
    assert("optional"@.len() == 8);
    assert("list"@.len() == 4);
    assert("CreateModel"@[0] == 'C' && "UpdateModel"@[0] == 'U');
    assert("CreateModel"@[0] == 'C' && "DeleteModel"@[0] == 'D');
    assert("CreateModel"@[6] == 'M' && "CreateField"@[6] == 'F');
    assert("CreateModel"@[0] == 'C' && "UpdateField"@[0] == 'U');
    assert("CreateModel"@[0] == 'C' && "DeleteField"@[0] == 'D');
    assert("UpdateModel"@[0] == 'U' && "DeleteModel"@[0] == 'D');
    assert("UpdateModel"@[0] == 'U' && "CreateField"@[0] == 'C');
    assert("UpdateModel"@[6] == 'M' && "UpdateField"@[6] == 'F');
    assert("UpdateModel"@[0] == 'U' && "DeleteField"@[0] == 'D');
    assert("DeleteModel"@[0] == 'D' && "CreateField"@[0] == 'C');
    assert("DeleteModel"@[0] == 'D' && "UpdateField"@[0] == 'U');
    assert("DeleteModel"@[6] == 'M' && "DeleteField"@[6] == 'F');
    assert("CreateField"@[0] == 'C' && "UpdateField"@[0] == 'U');
    assert("CreateField"@[0] == 'C' && "DeleteField"@[0] == 'D');
    assert("UpdateField"@[0] == 'U' && "DeleteField"@[0] == 'D');
    assert("CreateEnum"@[0] == 'C' && "UpdateEnum"@[0] == 'U');
    assert("CreateEnum"@[0] == 'C' && "DeleteEnum"@[0] == 'D');
    assert("UpdateEnum"@[0] == 'U' && "DeleteEnum"@[0] == 'D');
    assert("CreateDirective"@[0] == 'C' && "DeleteDirective"@[0] == 'D');
    assert("CreateArgument"@[0] == 'C' && "UpdateArgument"@[0] == 'U');
    assert("CreateArgument"@[0] == 'C' && "DeleteArgument"@[0] == 'D');
    assert("CreateArgument"@[0] == 'C' && "ModelDirective"@[0] == 'M');
    assert("CreateArgument"@[0] == 'C' && "FieldDirective"@[0] == 'F');
    assert("UpdateArgument"@[0] == 'U' && "DeleteArgument"@[0] == 'D');
    assert("UpdateArgument"@[0] == 'U' && "ModelDirective"@[0] == 'M');
    assert("UpdateArgument"@[0] == 'U' && "FieldDirective"@[0] == 'F');
    assert("DeleteArgument"@[0] == 'D' && "ModelDirective"@[0] == 'M');
    assert("DeleteArgument"@[0] == 'D' && "FieldDirective"@[0] == 'F');
    assert("ModelDirective"@[0] == 'M' && "FieldDirective"@[0] == 'F');
    assert("Model"@[0] == 'M' && "Field"@[0] == 'F');
    assert("Enum"@[0] == 'E' && "list"@[0] == 'l');
    assert("required"@[0] == 'r' && "optional"@[0] == 'o');
}

proof fn lemma_all_strings(v: Seq<Seq<char>>)
    ensures
        all_strings(strings_json(v)->Array_0) == Some(v),
    decreases v.len(),
{
    let items = strings_json(v)->Array_0;
    if v.len() > 0 {
        lemma_all_strings(v.drop_last());
        assert(items.drop_last() =~= strings_json(v.drop_last())->Array_0);
        assert(v.drop_last().push(v.last()) =~= v);
    }
}

proof fn lemma_all_arguments(args: Seq<(Seq<char>, Seq<char>)>)
    ensures
        all_arguments(Seq::new(args.len(), |i: int| argument_json(args[i]))) == Some(args),
    decreases args.len(),
{
    broadcast use lemma_member_push;

    lemma_member_names_distinct();
    let items = Seq::new(args.len(), |i: int| argument_json(args[i]));
    if args.len() > 0 {
        lemma_all_arguments(args.drop_last());
        assert(items.drop_last() =~= Seq::new(
            args.drop_last().len(),
            |i: int| argument_json(args.drop_last()[i]),
        ));
        assert(args.drop_last().push(args.last()) =~= args);
    }
}

proof fn lemma_owner_round_trip(base: Members, o: OwnerView)
    requires
        member(base, "model"@) is None,
        member(base, "field"@) is None,
        member(base, "enum"@) is None,
    ensures
        decode_owner(with_owner(base, o), owner_type_tag(o)) == Ok::<_, DecodeError>(o),
{
    broadcast use lemma_member_push;

    lemma_member_names_distinct();
    lemma_tags_distinct();
}

proof fn lemma_location_round_trip(l: LocationView)
    ensures
        decode_location(encode_location(l)) == Ok::<_, DecodeError>(l),
        decode_argument_location(encode_argument_location(l)) == Ok::<_, DecodeError>(l),
{
    broadcast use lemma_member_push;

    lemma_member_names_distinct();
    lemma_tags_distinct();
    let b1 = Seq::empty().push(str_member("argumentType"@, owner_directive_tag(l.owner)));
    lemma_owner_round_trip(b1, l.owner);
    let b2 = Seq::empty().push(str_member("type"@, owner_type_tag(l.owner)));
    lemma_owner_round_trip(b2, l.owner);
    match l.arguments {
        Some(a) => lemma_all_arguments(a),
        None => {},
    }
}

proof fn lemma_round_trip_create_model(s: StepView)
    requires
        s is CreateModel,
    ensures
        decode_spec(encode_spec(s)) == Ok::<_, DecodeError>(s),
{
    broadcast use lemma_member_push;

    lemma_member_names_distinct();
    lemma_tags_distinct();
}

proof fn lemma_round_trip_update_model(s: StepView)
    requires
        s is UpdateModel,
    ensures
        decode_spec(encode_spec(s)) == Ok::<_, DecodeError>(s),
{
    broadcast use lemma_member_push;

    lemma_member_names_distinct();
    lemma_tags_distinct();
}

proof fn lemma_round_trip_delete_model(s: StepView)
    requires
        s is DeleteModel,
    ensures
        decode_spec(encode_spec(s)) == Ok::<_, DecodeError>(s),
{
    broadcast use lemma_member_push;

    lemma_member_names_distinct();
    lemma_tags_distinct();
}

proof fn lemma_round_trip_create_field(s: StepView)
    requires
        s is CreateField,
    ensures
        decode_spec(encode_spec(s)) == Ok::<_, DecodeError>(s),
{
    broadcast use lemma_member_push;

    lemma_member_names_distinct();
    lemma_tags_distinct();
}

proof fn lemma_round_trip_update_field(s: StepView)
    requires
        s is UpdateField,
    ensures
        decode_spec(encode_spec(s)) == Ok::<_, DecodeError>(s),
{
    broadcast use lemma_member_push;

    lemma_member_names_distinct();
    lemma_tags_distinct();
}

proof fn lemma_round_trip_delete_field(s: StepView)
    requires
        s is DeleteField,
    ensures
        decode_spec(encode_spec(s)) == Ok::<_, DecodeError>(s),
{
    broadcast use lemma_member_push;

    lemma_member_names_distinct();
    lemma_tags_distinct();
}

proof fn lemma_round_trip_create_enum(s: StepView)
    requires
        s is CreateEnum,
    ensures
        decode_spec(encode_spec(s)) == Ok::<_, DecodeError>(s),
{
    broadcast use lemma_member_push;

    lemma_member_names_distinct();
    lemma_tags_distinct();
    lemma_all_strings(s->CreateEnum_values);
}

proof fn lemma_round_trip_update_enum(s: StepView)
    requires
        s is UpdateEnum,
    ensures
        decode_spec(encode_spec(s)) == Ok::<_, DecodeError>(s),
{
    broadcast use lemma_member_push;

    lemma_member_names_distinct();
    lemma_tags_distinct();
    lemma_all_strings(s->UpdateEnum_created_values);
    lemma_all_strings(s->UpdateEnum_deleted_values);
}

proof fn lemma_round_trip_delete_enum(s: StepView)
    requires
        s is DeleteEnum,
    ensures
        decode_spec(encode_spec(s)) == Ok::<_, DecodeError>(s),
{
    broadcast use lemma_member_push;

    lemma_member_names_distinct();
    lemma_tags_distinct();
}

proof fn lemma_round_trip_create_directive(s: StepView)
    requires
        s is CreateDirective,
    ensures
        decode_spec(encode_spec(s)) == Ok::<_, DecodeError>(s),
{
    broadcast use lemma_member_push;

    lemma_member_names_distinct();
    lemma_tags_distinct();
    lemma_location_round_trip(s->CreateDirective_location);
}

proof fn lemma_round_trip_delete_directive(s: StepView)
    requires
        s is DeleteDirective,
    ensures
        decode_spec(encode_spec(s)) == Ok::<_, DecodeError>(s),
{
    broadcast use lemma_member_push;

    lemma_member_names_distinct();
    lemma_tags_distinct();
    lemma_location_round_trip(s->DeleteDirective_location);
}

proof fn lemma_round_trip_create_argument(s: StepView)
    requires
        s is CreateArgument,
    ensures
        decode_spec(encode_spec(s)) == Ok::<_, DecodeError>(s),
{
    broadcast use lemma_member_push;

    lemma_member_names_distinct();
    lemma_tags_distinct();
    lemma_location_round_trip(s->CreateArgument_location);
}

proof fn lemma_round_trip_update_argument(s: StepView)
    requires
        s is UpdateArgument,
    ensures
        decode_spec(encode_spec(s)) == Ok::<_, DecodeError>(s),
{
    broadcast use lemma_member_push;

    lemma_member_names_distinct();
    lemma_tags_distinct();
    lemma_location_round_trip(s->UpdateArgument_location);
}

proof fn lemma_round_trip_delete_argument(s: StepView)
    requires
        s is DeleteArgument,
    ensures
        decode_spec(encode_spec(s)) == Ok::<_, DecodeError>(s),
{
    broadcast use lemma_member_push;

    lemma_member_names_distinct();
    lemma_tags_distinct();
    lemma_location_round_trip(s->DeleteArgument_location);
}

/// Decoding the encoding of a step gives the step back.
pub proof fn lemma_decode_encode(s: StepView)
    ensures
        decode_spec(encode_spec(s)) == Ok::<_, DecodeError>(s),
{
    match s {
        StepView::CreateModel { .. } => lemma_round_trip_create_model(s),
        StepView::UpdateModel { .. } => lemma_round_trip_update_model(s),
        StepView::DeleteModel { .. } => lemma_round_trip_delete_model(s),
        StepView::CreateField { .. } => lemma_round_trip_create_field(s),
        StepView::UpdateField { .. } => lemma_round_trip_update_field(s),
        StepView::DeleteField { .. } => lemma_round_trip_delete_field(s),
        StepView::CreateEnum { .. } => lemma_round_trip_create_enum(s),
        StepView::UpdateEnum { .. } => lemma_round_trip_update_enum(s),
        StepView::DeleteEnum { .. } => lemma_round_trip_delete_enum(s),
        StepView::CreateDirective { .. } => lemma_round_trip_create_directive(s),
        StepView::DeleteDirective { .. } => lemma_round_trip_delete_directive(s),
        StepView::CreateArgument { .. } => lemma_round_trip_create_argument(s),
        StepView::UpdateArgument { .. } => lemma_round_trip_update_argument(s),
        StepView::DeleteArgument { .. } => lemma_round_trip_delete_argument(s),
    }
}

// ---------------------------------------------------------------------------
// Optional members.

/// No member of `m` is named `key`.
pub open spec fn omits(m: Members, key: Seq<char>) -> bool {
    forall|i: int| 0 <= i < m.len() ==> (#[trigger] m[i]).0 != key
}

proof fn lemma_omitted_member_is_unset(m: Members, key: Seq<char>)
    requires
        omits(m, key),
    ensures
        member(m, key) is None,
    decreases m.len(),
{
    if m.len() > 0 {
        assert(m[m.len() - 1] == m.last());
        assert(omits(m.drop_last(), key)) by {
            assert forall|i: int| 0 <= i < m.drop_last().len() implies (
            #[trigger] m.drop_last()[i]).0 != key by {
                assert(m.drop_last()[i] == m[i]);
            }
        }
        lemma_omitted_member_is_unset(m.drop_last(), key);
    }
}

pub open spec fn location_of(s: StepView) -> LocationView {
    match s {
        StepView::CreateDirective { location } => location,
        StepView::DeleteDirective { location } => location,
        StepView::CreateArgument { location, .. } => location,
        StepView::UpdateArgument { location, .. } => location,
        StepView::DeleteArgument { location, .. } => location,
        _ => arbitrary(),
    }
}

pub open spec fn has_location(s: StepView) -> bool {
    s is CreateDirective || s is DeleteDirective || s is CreateArgument || s is UpdateArgument
        || s is DeleteArgument
}

/// The encoding leaves out every optional member that is unset, and every list
/// of enum changes that is empty: no such key appears.
pub proof fn lemma_encode_omits_unset(s: StepView)
    ensures
        ({
            let m = encode_spec(s)->Object_0;
            &&& s is UpdateModel && s->UpdateModel_new_name is None ==> omits(m, "newName"@)
            &&& s is UpdateField && s->UpdateField_new_name is None ==> omits(m, "newName"@)
            &&& s is UpdateField && s->UpdateField_tpe is None ==> omits(m, "type"@)
            &&& s is UpdateField && s->UpdateField_arity is None ==> omits(m, "arity"@)
            &&& s is UpdateEnum && s->UpdateEnum_new_name is None ==> omits(m, "newName"@)
            &&& s is UpdateEnum && s->UpdateEnum_created_values.len() == 0 ==> omits(
                m,
                "createdValues"@,
            )
            &&& s is UpdateEnum && s->UpdateEnum_deleted_values.len() == 0 ==> omits(
                m,
                "deletedValues"@,
            )
        }),
        has_location(s) && location_of(s).arguments is None ==> omits(
            member(encode_spec(s)->Object_0, "location"@)->0->Object_0,
            "arguments"@,
        ),
{
    broadcast use lemma_member_push;

    lemma_member_names_distinct();
}

/// Decoding an object that lacks an optional member gives an unset value, and
/// an empty list of enum changes.
pub proof fn lemma_decode_absent_is_unset(j: JsonView, s: StepView)
    requires
        j is Object,
        decode_spec(j) == Ok::<_, DecodeError>(s),
    ensures
        ({
            let m = j->Object_0;
            &&& s is UpdateModel && omits(m, "newName"@) ==> s->UpdateModel_new_name is None
            &&& s is UpdateField && omits(m, "newName"@) ==> s->UpdateField_new_name is None
            &&& s is UpdateField && omits(m, "type"@) ==> s->UpdateField_tpe is None
            &&& s is UpdateField && omits(m, "arity"@) ==> s->UpdateField_arity is None
            &&& s is UpdateEnum && omits(m, "newName"@) ==> s->UpdateEnum_new_name is None
            &&& s is UpdateEnum && omits(m, "createdValues"@)
                ==> s->UpdateEnum_created_values.len() == 0
            &&& s is UpdateEnum && omits(m, "deletedValues"@)
                ==> s->UpdateEnum_deleted_values.len() == 0
        }),
{
    lemma_tags_distinct();
    let m = j->Object_0;
    if omits(m, "newName"@) {
        lemma_omitted_member_is_unset(m, "newName"@);
    }
    if omits(m, "type"@) {
        lemma_omitted_member_is_unset(m, "type"@);
    }
    if omits(m, "arity"@) {
        lemma_omitted_member_is_unset(m, "arity"@);
    }
    if omits(m, "createdValues"@) {
        lemma_omitted_member_is_unset(m, "createdValues"@);
    }
    if omits(m, "deletedValues"@) {
        lemma_omitted_member_is_unset(m, "deletedValues"@);
    }
}

// ---------------------------------------------------------------------------
// Encoding, executable.

type Pairs = Vec<(String, JsonValue)>;

fn push_value(out: &mut Pairs, key: &str, v: JsonValue)
    ensures
        members_view(final(out)@) == members_view(old(out)@).push((key@, json_view(v))),
{
    let ghost jv = json_view(v);
    out.push((String::from_str(key), v));
    assert(members_view(out@) =~= members_view(old(out)@).push((key@, jv)));
}

fn push_str(out: &mut Pairs, key: &str, v: &String)
    ensures
        members_view(final(out)@) == members_view(old(out)@).push(str_member(key@, v@)),
{
    push_value(out, key, JsonValue::Str(v.clone()));
}

fn push_opt_str(out: &mut Pairs, key: &str, v: &Option<String>)
    ensures
        members_view(final(out)@) == with_opt_str(members_view(old(out)@), key@, opt_str_view(*v)),
{
    match v {
        Some(s) => push_str(out, key, s),
        None => {},
    }
}

fn arity_str(a: FieldArity) -> (r: &'static str)
    ensures
        r@ == arity_name(a),
{
    match a {
        FieldArity::Required => "required",
        FieldArity::Optional => "optional",
        FieldArity::List => "list",
    }
}

fn push_arity(out: &mut Pairs, key: &str, a: FieldArity)
    ensures
        members_view(final(out)@) == members_view(old(out)@).push(str_member(key@, arity_name(a))),
{
    push_value(out, key, JsonValue::Str(String::from_str(arity_str(a))));
}

fn push_opt_arity(out: &mut Pairs, key: &str, a: Option<FieldArity>)
    ensures
        members_view(final(out)@) == with_opt_arity(members_view(old(out)@), key@, a),
{
    match a {
        Some(x) => push_arity(out, key, x),
        None => {},
    }
}

fn strings_value(v: &Vec<String>) -> (r: JsonValue)
    ensures
        json_view(r) == strings_json(strings_view(v@)),
{
    let mut items: Vec<JsonValue> = Vec::new();
    let mut i: usize = 0;
    while i < v.len()
        invariant
            i <= v@.len(),
            items@.len() == i,
            items_view(items@) == Seq::new(i as nat, |k: int| JsonView::Str(v@[k]@)),
        decreases v@.len() - i,
    {
        let ghost prev = items@;
        let x = JsonValue::Str(v[i].clone());
        assert(json_view(x) == JsonView::Str(v@[i as int]@));
        items.push(x);
        assert forall|k: int| 0 <= k < i + 1 implies items_view(items@)[k] == JsonView::Str(
            v@[k]@,
        ) by {
            if k < i {
                assert(items@[k] == prev[k]);
                assert(items_view(prev)[k] == JsonView::Str(v@[k]@));
            }
        }
        assert(items_view(items@) =~= Seq::new((i + 1) as nat, |k: int| JsonView::Str(v@[k]@)));
        i = i + 1;
    }
    proof {
        lemma_array_view(items);
        assert(items_view(items@) =~= strings_json(strings_view(v@))->Array_0);
    }
    JsonValue::Array(items)
}

fn push_nonempty_strings(out: &mut Pairs, key: &str, v: &Vec<String>)
    ensures
        members_view(final(out)@) == with_nonempty_strings(
            members_view(old(out)@),
            key@,
            strings_view(v@),
        ),
{
    if v.len() > 0 {
        push_value(out, key, strings_value(v));
    }
}

fn push_owner(out: &mut Pairs, t: &DirectiveType)
    ensures
        members_view(final(out)@) == with_owner(members_view(old(out)@), owner_view(*t)),
{
    match t {
        DirectiveType::Model { model } => push_str(out, "model", model),
        DirectiveType::Field { model, field } => {
            push_str(out, "model", model);
            push_str(out, "field", field);
        },
        DirectiveType::Enum { enum_name } => push_str(out, "enum", enum_name),
    }
}

fn push_arguments(out: &mut Pairs, a: &Option<Vec<Argument>>)
    ensures
        members_view(final(out)@) == with_arguments(
            members_view(old(out)@),
            opt_arguments_view(*a),
        ),
{
    match a {
        Some(args) => {
            let mut items: Vec<JsonValue> = Vec::new();
            let mut i: usize = 0;
            while i < args.len()
                invariant
                    i <= args@.len(),
                    items@.len() == i,
                    items_view(items@) == Seq::new(
                        i as nat,
                        |k: int| argument_json(arguments_view(args@)[k]),
                    ),
                decreases args@.len() - i,
            {
                let mut obj: Pairs = Vec::new();
                assert(members_view(obj@) =~= Seq::<(Seq<char>, JsonView)>::empty());
                push_str(&mut obj, "name", &args[i].name);
                push_str(&mut obj, "value", &args[i].value.0);
                proof {
                    lemma_object_view(obj);
                    assert(members_view(obj@) =~= Seq::empty().push(
                        str_member("name"@, args@[i as int].name@),
                    ).push(str_member("value"@, args@[i as int].value.0@)));
                }
                let ghost prev = items@;
                let x = JsonValue::Object(obj);
                assert(json_view(x) == argument_json(arguments_view(args@)[i as int]));
                items.push(x);
                assert forall|k: int| 0 <= k < i + 1 implies items_view(items@)[k] == argument_json(
                    arguments_view(args@)[k],
                ) by {
                    if k < i {
                        assert(items@[k] == prev[k]);
                        assert(items_view(prev)[k] == argument_json(arguments_view(args@)[k]));
                    }
                }
                assert(items_view(items@) =~= Seq::new(
                    (i + 1) as nat,
                    |k: int| argument_json(arguments_view(args@)[k]),
                ));
                i = i + 1;
            }
            proof {
                lemma_array_view(items);
            }
            push_value(out, "arguments", JsonValue::Array(items));
        },
        None => {},
    }
}

fn owner_directive_tag_str(t: &DirectiveType) -> (r: &'static str)
    ensures
        r@ == owner_directive_tag(owner_view(*t)),
{
    match t {
        DirectiveType::Model { .. } => "ModelDirective",
        DirectiveType::Field { .. } => "FieldDirective",
        DirectiveType::Enum { .. } => "EnumDirective",
    }
}

fn owner_type_tag_str(t: &DirectiveType) -> (r: &'static str)
    ensures
        r@ == owner_type_tag(owner_view(*t)),
{
    match t {
        DirectiveType::Model { .. } => "Model",
        DirectiveType::Field { .. } => "Field",
        DirectiveType::Enum { .. } => "Enum",
    }
}

/// Encodes a directive location, discriminated by `argumentType`.
pub fn encode_directive_location(l: &DirectiveLocation) -> (r: JsonValue)
    ensures
        r@ == encode_location(location_view(*l)),
{
    let mut out: Pairs = Vec::new();
    assert(members_view(out@) =~= Seq::<(Seq<char>, JsonView)>::empty());
    push_value(
        &mut out,
        "argumentType",
        JsonValue::Str(String::from_str(owner_directive_tag_str(&l.directive_type))),
    );
    push_owner(&mut out, &l.directive_type);
    push_str(&mut out, "argumentContainer", &l.directive);
    push_arguments(&mut out, &l.arguments);
    proof {
        lemma_object_view(out);
    }
    JsonValue::Object(out)
}

/// Encodes an argument location: `type` is `Directive`, with the owner
/// nested under `directiveType`.
pub fn encode_argument_location_value(l: &ArgumentLocation) -> (r: JsonValue)
    ensures
        r@ == encode_argument_location(argument_location_view(*l)),
{
    match l {
        ArgumentLocation::Directive(d) => {
            let mut owner: Pairs = Vec::new();
            assert(members_view(owner@) =~= Seq::<(Seq<char>, JsonView)>::empty());
            push_value(
                &mut owner,
                "type",
                JsonValue::Str(String::from_str(owner_type_tag_str(&d.directive_type))),
            );
            push_owner(&mut owner, &d.directive_type);
            proof {
                lemma_object_view(owner);
            }
            let mut out: Pairs = Vec::new();
            assert(members_view(out@) =~= Seq::<(Seq<char>, JsonView)>::empty());
            push_value(&mut out, "type", JsonValue::Str(String::from_str("Directive")));
            push_str(&mut out, "directive", &d.directive);
            push_value(&mut out, "directiveType", JsonValue::Object(owner));
            push_arguments(&mut out, &d.arguments);
            proof {
                lemma_object_view(out);
            }
            JsonValue::Object(out)
        },
    }
}

fn tag(name: &str) -> (r: Pairs)
    ensures
        members_view(r@) == tagged(name@),
{
    let mut out: Pairs = Vec::new();
    assert(members_view(out@) =~= Seq::<(Seq<char>, JsonView)>::empty());
    push_value(&mut out, "stepType", JsonValue::Str(String::from_str(name)));
    out
}

impl MigrationStep {
    /// The canonical wire object of the step.
    pub fn encode(&self) -> (r: JsonValue)
        ensures
            r@ == encode_spec(self@),
    {
        let out = match self {
            MigrationStep::CreateModel(s) => {
                let mut out = tag("CreateModel");
                push_str(&mut out, "model", &s.model);
                out
            },
            MigrationStep::UpdateModel(s) => {
                let mut out = tag("UpdateModel");
                push_str(&mut out, "model", &s.model);
                push_opt_str(&mut out, "newName", &s.new_name);
                out
            },
            MigrationStep::DeleteModel(s) => {
                let mut out = tag("DeleteModel");
                push_str(&mut out, "model", &s.model);
                out
            },
            MigrationStep::CreateField(s) => {
                let mut out = tag("CreateField");
                push_str(&mut out, "model", &s.model);
                push_str(&mut out, "field", &s.field);
                push_str(&mut out, "type", &s.tpe);
                push_arity(&mut out, "arity", s.arity);
                out
            },
            MigrationStep::UpdateField(s) => {
                let mut out = tag("UpdateField");
                push_str(&mut out, "model", &s.model);
                push_str(&mut out, "field", &s.field);
                push_opt_str(&mut out, "newName", &s.new_name);
                push_opt_str(&mut out, "type", &s.tpe);
                push_opt_arity(&mut out, "arity", s.arity);
                out
            },
            MigrationStep::DeleteField(s) => {
                let mut out = tag("DeleteField");
                push_str(&mut out, "model", &s.model);
                push_str(&mut out, "field", &s.field);
                out
            },
            MigrationStep::CreateEnum(s) => {
                let mut out = tag("CreateEnum");
                push_str(&mut out, "enum", &s.enum_name);
                push_value(&mut out, "values", strings_value(&s.values));
                out
            },
            MigrationStep::UpdateEnum(s) => {
                let mut out = tag("UpdateEnum");
                push_str(&mut out, "enum", &s.enum_name);
                push_opt_str(&mut out, "newName", &s.new_name);
                push_nonempty_strings(&mut out, "createdValues", &s.created_values);
                push_nonempty_strings(&mut out, "deletedValues", &s.deleted_values);
                out
            },
            MigrationStep::DeleteEnum(s) => {
                let mut out = tag("DeleteEnum");
                push_str(&mut out, "enum", &s.enum_name);
                out
            },
            MigrationStep::CreateDirective(s) => {
                let mut out = tag("CreateDirective");
                push_value(&mut out, "location", encode_directive_location(&s.location));
                out
            },
            MigrationStep::DeleteDirective(s) => {
                let mut out = tag("DeleteDirective");
                push_value(&mut out, "location", encode_directive_location(&s.location));
                out
            },
            MigrationStep::CreateArgument(s) => {
                let mut out = tag("CreateArgument");
                push_value(&mut out, "location", encode_argument_location_value(&s.location));
                push_str(&mut out, "argument", &s.argument);
                push_str(&mut out, "value", &s.value.0);
                out
            },
            MigrationStep::UpdateArgument(s) => {
                let mut out = tag("UpdateArgument");
                push_value(&mut out, "location", encode_argument_location_value(&s.location));
                push_str(&mut out, "argument", &s.argument);
                push_str(&mut out, "newValue", &s.new_value.0);
                out
            },
            MigrationStep::DeleteArgument(s) => {
                let mut out = tag("DeleteArgument");
                push_value(&mut out, "location", encode_argument_location_value(&s.location));
                push_str(&mut out, "argument", &s.argument);
                out
            },
        };
        proof {
            lemma_object_view(out);
        }
        JsonValue::Object(out)
    }
}

// ---------------------------------------------------------------------------
// Decoding, executable.

fn req_str_exec(m: &Pairs, key: &str) -> (r: Result<String, DecodeError>)
    ensures
        match r {
            Ok(s) => req_str(members_view(m@), key@) == Ok::<_, DecodeError>(s@),
            Err(e) => req_str(members_view(m@), key@) == Err::<Seq<char>, _>(e),
        },
{
    match get_member(m, key) {
        Some(JsonValue::Str(s)) => Ok(s.clone()),
        Some(_) => Err(DecodeError::WrongShape),
        None => Err(DecodeError::MissingField),
    }
}

fn opt_str_exec(m: &Pairs, key: &str) -> (r: Result<Option<String>, DecodeError>)
    ensures
        match r {
            Ok(s) => opt_str(members_view(m@), key@) == Ok::<_, DecodeError>(opt_str_view(s)),
            Err(e) => opt_str(members_view(m@), key@) == Err::<Option<Seq<char>>, _>(e),
        },
{
    match get_member(m, key) {
        Some(JsonValue::Str(s)) => Ok(Some(s.clone())),
        Some(_) => Err(DecodeError::WrongShape),
        None => Ok(None),
    }
}

proof fn lemma_all_strings_prefix(items: Seq<JsonView>, k: int)
    requires
        0 <= k <= items.len(),
        all_strings(items) is Some,
    ensures
        all_strings(items.take(k)) is Some,
    decreases items.len(),
{
    if k < items.len() {
        lemma_all_strings_prefix(items.drop_last(), k);
        assert(items.drop_last().take(k) =~= items.take(k));
    } else {
        assert(items.take(k) =~= items);
    }
}

fn strings_exec(items: &Vec<JsonValue>) -> (r: Option<Vec<String>>)
    ensures
        match r {
            Some(v) => all_strings(items_view(items@)) == Some(strings_view(v@)),
            None => all_strings(items_view(items@)) is None,
        },
{
    let ghost iv = items_view(items@);
    let mut out: Vec<String> = Vec::new();
    let mut i: usize = 0;
    assert(iv.take(0) =~= Seq::<JsonView>::empty());
    assert(strings_view(out@) =~= Seq::<Seq<char>>::empty());
    while i < items.len()
        invariant
            i <= items@.len(),
            iv == items_view(items@),
            all_strings(iv.take(i as int)) == Some(strings_view(out@)),
        decreases items@.len() - i,
    {
        assert(iv.take(i + 1).drop_last() =~= iv.take(i as int));
        assert(iv.take(i + 1).last() == json_view(items@[i as int]));
        match &items[i] {
            JsonValue::Str(s) => {
                let ghost prev = out@;
                out.push(s.clone());
                assert(strings_view(out@) =~= strings_view(prev).push(s@));
            },
            _ => {
                proof {
                    if all_strings(iv) is Some {
                        lemma_all_strings_prefix(iv, i + 1);
                    }
                }
                return None;
            },
        }
        i = i + 1;
    }
    assert(iv.take(i as int) =~= iv);
    Some(out)
}

fn strings_member_exec(m: &Pairs, key: &str, required: bool) -> (r: Result<Vec<String>, DecodeError>)
    ensures
        match r {
            Ok(v) => strings_member(members_view(m@), key@, required) == Ok::<_, DecodeError>(
                strings_view(v@),
            ),
            Err(e) => strings_member(members_view(m@), key@, required) == Err::<
                Seq<Seq<char>>,
                _,
            >(e),
        },
{
    match get_member(m, key) {
        Some(JsonValue::Array(items)) => {
            proof {
                lemma_array_view(*items);
            }
            match strings_exec(items) {
                Some(v) => Ok(v),
                None => Err(DecodeError::WrongShape),
            }
        },
        Some(_) => Err(DecodeError::WrongShape),
        None => if required {
            Err(DecodeError::MissingField)
        } else {
            let v: Vec<String> = Vec::new();
            assert(strings_view(v@) =~= Seq::<Seq<char>>::empty());
            Ok(v)
        },
    }
}

fn arity_exec(s: &String) -> (r: Option<FieldArity>)
    ensures
        r == arity_of_name(s@),
{
    if str_eq(s.as_str(), "required") {
        Some(FieldArity::Required)
    } else if str_eq(s.as_str(), "optional") {
        Some(FieldArity::Optional)
    } else if str_eq(s.as_str(), "list") {
        Some(FieldArity::List)
    } else {
        None
    }
}

fn opt_arity_exec(m: &Pairs, key: &str) -> (r: Result<Option<FieldArity>, DecodeError>)
    ensures
        r == opt_arity(members_view(m@), key@),
{
    match opt_str_exec(m, key) {
        Ok(Some(s)) => match arity_exec(&s) {
            Some(a) => Ok(Some(a)),
            None => Err(DecodeError::WrongShape),
        },
        Ok(None) => Ok(None),
        Err(e) => Err(e),
    }
}

fn req_arity_exec(m: &Pairs, key: &str) -> (r: Result<FieldArity, DecodeError>)
    ensures
        r == req_arity(members_view(m@), key@),
{
    match opt_arity_exec(m, key) {
        Ok(Some(a)) => Ok(a),
        Ok(None) => Err(DecodeError::MissingField),
        Err(e) => Err(e),
    }
}

fn decode_owner_exec(m: &Pairs, kind: &str) -> (r: Result<DirectiveType, DecodeError>)
    ensures
        match r {
            Ok(t) => decode_owner(members_view(m@), kind@) == Ok::<_, DecodeError>(owner_view(t)),
            Err(e) => decode_owner(members_view(m@), kind@) == Err::<OwnerView, _>(e),
        },
{
    if str_eq(kind, "Model") {
        match req_str_exec(m, "model") {
            Ok(model) => Ok(DirectiveType::Model { model }),
            Err(e) => Err(e),
        }
    } else if str_eq(kind, "Field") {
        match req_str_exec(m, "model") {
            Ok(model) => match req_str_exec(m, "field") {
                Ok(field) => Ok(DirectiveType::Field { model, field }),
                Err(e) => Err(e),
            },
            Err(e) => Err(e),
        }
    } else if str_eq(kind, "Enum") {
        match req_str_exec(m, "enum") {
            Ok(enum_name) => Ok(DirectiveType::Enum { enum_name }),
            Err(e) => Err(e),
        }
    } else {
        Err(DecodeError::UnknownTag)
    }
}

proof fn lemma_all_arguments_prefix(items: Seq<JsonView>, k: int)
    requires
        0 <= k <= items.len(),
        all_arguments(items) is Some,
    ensures
        all_arguments(items.take(k)) is Some,
    decreases items.len(),
{
    if k < items.len() {
        lemma_all_arguments_prefix(items.drop_last(), k);
        assert(items.drop_last().take(k) =~= items.take(k));
    } else {
        assert(items.take(k) =~= items);
    }
}

fn argument_exec(j: &JsonValue) -> (r: Option<Argument>)
    ensures
        match r {
            Some(a) => decode_argument(json_view(*j)) == Some((a.name@, a.value.0@)),
            None => decode_argument(json_view(*j)) is None,
        },
{
    match j {
        JsonValue::Object(m) => {
            proof {
                lemma_object_view(*m);
            }
            match (req_str_exec(m, "name"), req_str_exec(m, "value")) {
                (Ok(name), Ok(value)) => Some(Argument { name, value: MigrationExpression(value) }),
                _ => None,
            }
        },
        _ => None,
    }
}

fn arguments_exec(items: &Vec<JsonValue>) -> (r: Option<Vec<Argument>>)
    ensures
        match r {
            Some(v) => all_arguments(items_view(items@)) == Some(arguments_view(v@)),
            None => all_arguments(items_view(items@)) is None,
        },
{
    let ghost iv = items_view(items@);
    let mut out: Vec<Argument> = Vec::new();
    let mut i: usize = 0;
    assert(iv.take(0) =~= Seq::<JsonView>::empty());
    assert(arguments_view(out@) =~= Seq::<(Seq<char>, Seq<char>)>::empty());
    while i < items.len()
        invariant
            i <= items@.len(),
            iv == items_view(items@),
            all_arguments(iv.take(i as int)) == Some(arguments_view(out@)),
        decreases items@.len() - i,
    {
        assert(iv.take(i + 1).drop_last() =~= iv.take(i as int));
        assert(iv.take(i + 1).last() == json_view(items@[i as int]));
        match argument_exec(&items[i]) {
            Some(a) => {
                let ghost prev = out@;
                let ghost av = (a.name@, a.value.0@);
                out.push(a);
                assert(arguments_view(out@) =~= arguments_view(prev).push(av));
            },
            None => {
                proof {
                    if all_arguments(iv) is Some {
                        lemma_all_arguments_prefix(iv, i + 1);
                    }
                }
                return None;
            },
        }
        i = i + 1;
    }
    assert(iv.take(i as int) =~= iv);
    Some(out)
}

fn arguments_member_exec(m: &Pairs) -> (r: Result<Option<Vec<Argument>>, DecodeError>)
    ensures
        match r {
            Ok(a) => arguments_member(members_view(m@)) == Ok::<_, DecodeError>(
                opt_arguments_view(a),
            ),
            Err(e) => arguments_member(members_view(m@)) == Err::<
                Option<Seq<(Seq<char>, Seq<char>)>>,
                _,
            >(e),
        },
{
    match get_member(m, "arguments") {
        Some(JsonValue::Array(items)) => {
            proof {
                lemma_array_view(*items);
            }
            match arguments_exec(items) {
                Some(v) => Ok(Some(v)),
                None => Err(DecodeError::WrongShape),
            }
        },
        Some(_) => Err(DecodeError::WrongShape),
        None => Ok(None),
    }
}

fn directive_tag_kind_exec(tag: &String) -> (r: Option<&'static str>)
    ensures
        match r {
            Some(k) => known_directive_tag(tag@) && k@ == directive_tag_kind(tag@),
            None => !known_directive_tag(tag@),
        },
{
    if str_eq(tag.as_str(), "ModelDirective") {
        Some("Model")
    } else if str_eq(tag.as_str(), "FieldDirective") {
        Some("Field")
    } else if str_eq(tag.as_str(), "EnumDirective") {
        Some("Enum")
    } else {
        None
    }
}

fn decode_location_members_exec(m: &Pairs) -> (r: Result<DirectiveLocation, DecodeError>)
    ensures
        match r {
            Ok(l) => decode_location_members(members_view(m@)) == Ok::<_, DecodeError>(
                location_view(l),
            ),
            Err(e) => decode_location_members(members_view(m@)) == Err::<LocationView, _>(e),
        },
{
    match get_member(m, "argumentType") {
        None => Err(DecodeError::MissingTag),
        Some(JsonValue::Str(tag)) => match directive_tag_kind_exec(tag) {
            None => Err(DecodeError::UnknownTag),
            Some(kind) => match decode_owner_exec(m, kind) {
                Err(e) => Err(e),
                Ok(directive_type) => match req_str_exec(m, "argumentContainer") {
                    Err(e) => Err(e),
                    Ok(directive) => match arguments_member_exec(m) {
                        Err(e) => Err(e),
                        Ok(arguments) => Ok(DirectiveLocation { directive_type, directive, arguments }),
                    },
                },
            },
        },
        Some(_) => Err(DecodeError::WrongShape),
    }
}

/// Decodes a directive location, discriminated by `argumentType`.
pub fn decode_directive_location(j: &JsonValue) -> (r: Result<DirectiveLocation, DecodeError>)
    ensures
        match r {
            Ok(l) => decode_location(j@) == Ok::<_, DecodeError>(location_view(l)),
            Err(e) => decode_location(j@) == Err::<LocationView, _>(e),
        },
{
    match j {
        JsonValue::Object(m) => {
            proof {
                lemma_object_view(*m);
            }
            decode_location_members_exec(m)
        },
        _ => Err(DecodeError::NotAnObject),
    }
}

fn decode_directive_type_exec(j: &JsonValue) -> (r: Result<DirectiveType, DecodeError>)
    ensures
        match r {
            Ok(t) => decode_directive_type(j@) == Ok::<_, DecodeError>(owner_view(t)),
            Err(e) => decode_directive_type(j@) == Err::<OwnerView, _>(e),
        },
{
    match j {
        JsonValue::Object(m) => {
            proof {
                lemma_object_view(*m);
            }
            match get_member(m, "type") {
                None => Err(DecodeError::MissingTag),
                Some(JsonValue::Str(kind)) => decode_owner_exec(m, kind.as_str()),
                Some(_) => Err(DecodeError::WrongShape),
            }
        },
        _ => Err(DecodeError::NotAnObject),
    }
}

/// Decodes an argument location. An object without `type` is read as a
/// directive location.
pub fn decode_argument_location_value(j: &JsonValue) -> (r: Result<ArgumentLocation, DecodeError>)
    ensures
        match r {
            Ok(l) => decode_argument_location(j@) == Ok::<_, DecodeError>(
                argument_location_view(l),
            ),
            Err(e) => decode_argument_location(j@) == Err::<LocationView, _>(e),
        },
{
    match j {
        JsonValue::Object(m) => {
            proof {
                lemma_object_view(*m);
            }
            match get_member(m, "type") {
                None => match decode_location_members_exec(m) {
                    Ok(l) => Ok(ArgumentLocation::Directive(l)),
                    Err(e) => Err(e),
                },
                Some(JsonValue::Str(t)) => if !str_eq(t.as_str(), "Directive") {
                    Err(DecodeError::UnknownTag)
                } else {
                    match get_member(m, "directiveType") {
                        None => Err(DecodeError::MissingField),
                        Some(dt) => match decode_directive_type_exec(dt) {
                            Err(e) => Err(e),
                            Ok(directive_type) => match req_str_exec(m, "directive") {
                                Err(e) => Err(e),
                                Ok(directive) => match arguments_member_exec(m) {
                                    Err(e) => Err(e),
                                    Ok(arguments) => Ok(
                                        ArgumentLocation::Directive(
                                            DirectiveLocation { directive_type, directive, arguments },
                                        ),
                                    ),
                                },
                            },
                        },
                    }
                },
                Some(_) => Err(DecodeError::WrongShape),
            }
        },
        _ => Err(DecodeError::NotAnObject),
    }
}

fn location_member_exec(m: &Pairs) -> (r: Result<DirectiveLocation, DecodeError>)
    ensures
        match r {
            Ok(l) => location_member(members_view(m@)) == Ok::<_, DecodeError>(location_view(l)),
            Err(e) => location_member(members_view(m@)) == Err::<LocationView, _>(e),
        },
{
    match get_member(m, "location") {
        Some(j) => decode_directive_location(j),
        None => Err(DecodeError::MissingField),
    }
}

fn argument_location_member_exec(m: &Pairs) -> (r: Result<ArgumentLocation, DecodeError>)
    ensures
        match r {
            Ok(l) => argument_location_member(members_view(m@)) == Ok::<_, DecodeError>(
                argument_location_view(l),
            ),
            Err(e) => argument_location_member(members_view(m@)) == Err::<LocationView, _>(e),
        },
{
    match get_member(m, "location") {
        Some(j) => decode_argument_location_value(j),
        None => Err(DecodeError::MissingField),
    }
}

fn decode_create_model(m: &Pairs) -> (r: Result<MigrationStep, DecodeError>)
    ensures
        match r {
            Ok(s) => decode_tagged("CreateModel"@, members_view(m@)) == Ok::<_, DecodeError>(s@),
            Err(e) => decode_tagged("CreateModel"@, members_view(m@)) == Err::<StepView, _>(e),
        },
{
    proof {
        lemma_tags_distinct();
    }
    let model = match req_str_exec(m, "model") {
        Ok(x) => x,
        Err(e) => return Err(e),
    };
    Ok(MigrationStep::CreateModel(CreateModel { model }))
}

fn decode_update_model(m: &Pairs) -> (r: Result<MigrationStep, DecodeError>)
    ensures
        match r {
            Ok(s) => decode_tagged("UpdateModel"@, members_view(m@)) == Ok::<_, DecodeError>(s@),
            Err(e) => decode_tagged("UpdateModel"@, members_view(m@)) == Err::<StepView, _>(e),
        },
{
    proof {
        lemma_tags_distinct();
    }
    let model = match req_str_exec(m, "model") {
        Ok(x) => x,
        Err(e) => return Err(e),
    };
    let new_name = match opt_str_exec(m, "newName") {
        Ok(x) => x,
        Err(e) => return Err(e),
    };
    Ok(MigrationStep::UpdateModel(UpdateModel { model, new_name }))
}

fn decode_delete_model(m: &Pairs) -> (r: Result<MigrationStep, DecodeError>)
    ensures
        match r {
            Ok(s) => decode_tagged("DeleteModel"@, members_view(m@)) == Ok::<_, DecodeError>(s@),
            Err(e) => decode_tagged("DeleteModel"@, members_view(m@)) == Err::<StepView, _>(e),
        },
{
    proof {
        lemma_tags_distinct();
    }
    let model = match req_str_exec(m, "model") {
        Ok(x) => x,
        Err(e) => return Err(e),
    };
    Ok(MigrationStep::DeleteModel(DeleteModel { model }))
}

fn decode_create_field(m: &Pairs) -> (r: Result<MigrationStep, DecodeError>)
    ensures
        match r {
            Ok(s) => decode_tagged("CreateField"@, members_view(m@)) == Ok::<_, DecodeError>(s@),
            Err(e) => decode_tagged("CreateField"@, members_view(m@)) == Err::<StepView, _>(e),
        },
{
    proof {
        lemma_tags_distinct();
    }
    let model = match req_str_exec(m, "model") {
        Ok(x) => x,
        Err(e) => return Err(e),
    };
    let field = match req_str_exec(m, "field") {
        Ok(x) => x,
        Err(e) => return Err(e),
    };
    let tpe = match req_str_exec(m, "type") {
        Ok(x) => x,
        Err(e) => return Err(e),
    };
    let arity = match req_arity_exec(m, "arity") {
        Ok(x) => x,
        Err(e) => return Err(e),
    };
    Ok(MigrationStep::CreateField(CreateField { model, field, tpe, arity }))
}

fn decode_update_field(m: &Pairs) -> (r: Result<MigrationStep, DecodeError>)
    ensures
        match r {
            Ok(s) => decode_tagged("UpdateField"@, members_view(m@)) == Ok::<_, DecodeError>(s@),
            Err(e) => decode_tagged("UpdateField"@, members_view(m@)) == Err::<StepView, _>(e),
        },
{
    proof {
        lemma_tags_distinct();
    }
    let model = match req_str_exec(m, "model") {
        Ok(x) => x,
        Err(e) => return Err(e),
    };
    let field = match req_str_exec(m, "field") {
        Ok(x) => x,
        Err(e) => return Err(e),
    };
    let new_name = match opt_str_exec(m, "newName") {
        Ok(x) => x,
        Err(e) => return Err(e),
    };
    let tpe = match opt_str_exec(m, "type") {
        Ok(x) => x,
        Err(e) => return Err(e),
    };
    let arity = match opt_arity_exec(m, "arity") {
        Ok(x) => x,
        Err(e) => return Err(e),
    };
    Ok(MigrationStep::UpdateField(UpdateField { model, field, new_name, tpe, arity }))
}

fn decode_delete_field(m: &Pairs) -> (r: Result<MigrationStep, DecodeError>)
    ensures
        match r {
            Ok(s) => decode_tagged("DeleteField"@, members_view(m@)) == Ok::<_, DecodeError>(s@),
            Err(e) => decode_tagged("DeleteField"@, members_view(m@)) == Err::<StepView, _>(e),
        },
{
    proof {
        lemma_tags_distinct();
    }
    let model = match req_str_exec(m, "model") {
        Ok(x) => x,
        Err(e) => return Err(e),
    };
    let field = match req_str_exec(m, "field") {
        Ok(x) => x,
        Err(e) => return Err(e),
    };
    Ok(MigrationStep::DeleteField(DeleteField { model, field }))
}

fn decode_create_enum(m: &Pairs) -> (r: Result<MigrationStep, DecodeError>)
    ensures
        match r {
            Ok(s) => decode_tagged("CreateEnum"@, members_view(m@)) == Ok::<_, DecodeError>(s@),
            Err(e) => decode_tagged("CreateEnum"@, members_view(m@)) == Err::<StepView, _>(e),
        },
{
    proof {
        lemma_tags_distinct();
    }
    let enum_name = match req_str_exec(m, "enum") {
        Ok(x) => x,
        Err(e) => return Err(e),
    };
    let values = match strings_member_exec(m, "values", true) {
        Ok(x) => x,
        Err(e) => return Err(e),
    };
    Ok(MigrationStep::CreateEnum(CreateEnum { enum_name, values }))
}

fn decode_update_enum(m: &Pairs) -> (r: Result<MigrationStep, DecodeError>)
    ensures
        match r {
            Ok(s) => decode_tagged("UpdateEnum"@, members_view(m@)) == Ok::<_, DecodeError>(s@),
            Err(e) => decode_tagged("UpdateEnum"@, members_view(m@)) == Err::<StepView, _>(e),
        },
{
    proof {
        lemma_tags_distinct();
    }
    let enum_name = match req_str_exec(m, "enum") {
        Ok(x) => x,
        Err(e) => return Err(e),
    };
    let new_name = match opt_str_exec(m, "newName") {
        Ok(x) => x,
        Err(e) => return Err(e),
    };
    let created_values = match strings_member_exec(m, "createdValues", false) {
        Ok(x) => x,
        Err(e) => return Err(e),
    };
    let deleted_values = match strings_member_exec(m, "deletedValues", false) {
        Ok(x) => x,
        Err(e) => return Err(e),
    };
    Ok(MigrationStep::UpdateEnum(UpdateEnum { enum_name, new_name, created_values, deleted_values }))
}

fn decode_delete_enum(m: &Pairs) -> (r: Result<MigrationStep, DecodeError>)
    ensures
        match r {
            Ok(s) => decode_tagged("DeleteEnum"@, members_view(m@)) == Ok::<_, DecodeError>(s@),
            Err(e) => decode_tagged("DeleteEnum"@, members_view(m@)) == Err::<StepView, _>(e),
        },
{
    proof {
        lemma_tags_distinct();
    }
    let enum_name = match req_str_exec(m, "enum") {
        Ok(x) => x,
        Err(e) => return Err(e),
    };
    Ok(MigrationStep::DeleteEnum(DeleteEnum { enum_name }))
}

fn decode_create_directive(m: &Pairs) -> (r: Result<MigrationStep, DecodeError>)
    ensures
        match r {
            Ok(s) => decode_tagged("CreateDirective"@, members_view(m@)) == Ok::<_, DecodeError>(s@),
            Err(e) => decode_tagged("CreateDirective"@, members_view(m@)) == Err::<StepView, _>(e),
        },
{
    proof {
        lemma_tags_distinct();
    }
    let location = match location_member_exec(m) {
        Ok(x) => x,
        Err(e) => return Err(e),
    };
    Ok(MigrationStep::CreateDirective(CreateDirective { location }))
}

fn decode_delete_directive(m: &Pairs) -> (r: Result<MigrationStep, DecodeError>)
    ensures
        match r {
            Ok(s) => decode_tagged("DeleteDirective"@, members_view(m@)) == Ok::<_, DecodeError>(s@),
            Err(e) => decode_tagged("DeleteDirective"@, members_view(m@)) == Err::<StepView, _>(e),
        },
{
    proof {
        lemma_tags_distinct();
    }
    let location = match location_member_exec(m) {
        Ok(x) => x,
        Err(e) => return Err(e),
    };
    Ok(MigrationStep::DeleteDirective(DeleteDirective { location }))
}

fn decode_create_argument(m: &Pairs) -> (r: Result<MigrationStep, DecodeError>)
    ensures
        match r {
            Ok(s) => decode_tagged("CreateArgument"@, members_view(m@)) == Ok::<_, DecodeError>(s@),
            Err(e) => decode_tagged("CreateArgument"@, members_view(m@)) == Err::<StepView, _>(e),
        },
{
    proof {
        lemma_tags_distinct();
    }
    let location = match argument_location_member_exec(m) {
        Ok(x) => x,
        Err(e) => return Err(e),
    };
    let argument = match req_str_exec(m, "argument") {
        Ok(x) => x,
        Err(e) => return Err(e),
    };
    let value = match req_str_exec(m, "value") {
        Ok(x) => x,
        Err(e) => return Err(e),
    };
    Ok(MigrationStep::CreateArgument(CreateArgument { location, argument, value: MigrationExpression(value) }))
}

fn decode_update_argument(m: &Pairs) -> (r: Result<MigrationStep, DecodeError>)
    ensures
        match r {
            Ok(s) => decode_tagged("UpdateArgument"@, members_view(m@)) == Ok::<_, DecodeError>(s@),
            Err(e) => decode_tagged("UpdateArgument"@, members_view(m@)) == Err::<StepView, _>(e),
        },
{
    proof {
        lemma_tags_distinct();
    }
    let location = match argument_location_member_exec(m) {
        Ok(x) => x,
        Err(e) => return Err(e),
    };
    let argument = match req_str_exec(m, "argument") {
        Ok(x) => x,
        Err(e) => return Err(e),
    };
    let new_value = match req_str_exec(m, "newValue") {
        Ok(x) => x,
        Err(e) => return Err(e),
    };
    Ok(MigrationStep::UpdateArgument(UpdateArgument { location, argument, new_value: MigrationExpression(new_value) }))
}

fn decode_delete_argument(m: &Pairs) -> (r: Result<MigrationStep, DecodeError>)
    ensures
        match r {
            Ok(s) => decode_tagged("DeleteArgument"@, members_view(m@)) == Ok::<_, DecodeError>(s@),
            Err(e) => decode_tagged("DeleteArgument"@, members_view(m@)) == Err::<StepView, _>(e),
        },
{
    proof {
        lemma_tags_distinct();
    }
    let location = match argument_location_member_exec(m) {
        Ok(x) => x,
        Err(e) => return Err(e),
    };
    let argument = match req_str_exec(m, "argument") {
        Ok(x) => x,
        Err(e) => return Err(e),
    };
    Ok(MigrationStep::DeleteArgument(DeleteArgument { location, argument }))
}

fn decode_tagged_exec(tag: &str, m: &Pairs) -> (r: Result<MigrationStep, DecodeError>)
    ensures
        match r {
            Ok(s) => decode_tagged(tag@, members_view(m@)) == Ok::<_, DecodeError>(s@),
            Err(e) => decode_tagged(tag@, members_view(m@)) == Err::<StepView, _>(e),
        },
{
    if str_eq(tag, "CreateModel") {
        decode_create_model(m)
    } else if str_eq(tag, "UpdateModel") {
        decode_update_model(m)
    } else if str_eq(tag, "DeleteModel") {
        decode_delete_model(m)
    } else if str_eq(tag, "CreateField") {
        decode_create_field(m)
    } else if str_eq(tag, "UpdateField") {
        decode_update_field(m)
    } else if str_eq(tag, "DeleteField") {
        decode_delete_field(m)
    } else if str_eq(tag, "CreateEnum") {
        decode_create_enum(m)
    } else if str_eq(tag, "UpdateEnum") {
        decode_update_enum(m)
    } else if str_eq(tag, "DeleteEnum") {
        decode_delete_enum(m)
    } else if str_eq(tag, "CreateDirective") {
        decode_create_directive(m)
    } else if str_eq(tag, "DeleteDirective") {
        decode_delete_directive(m)
    } else if str_eq(tag, "CreateArgument") {
        decode_create_argument(m)
    } else if str_eq(tag, "UpdateArgument") {
        decode_update_argument(m)
    } else if str_eq(tag, "DeleteArgument") {
        decode_delete_argument(m)
    } else {
        Err(DecodeError::UnknownTag)
    }
}

impl MigrationStep {
    /// Reads a step from a wire object: the variant that `stepType` names,
    /// with the members that it needs.
    pub fn decode(j: &JsonValue) -> (r: Result<MigrationStep, DecodeError>)
        ensures
            match r {
                Ok(s) => decode_spec(j@) == Ok::<_, DecodeError>(s@),
                Err(e) => decode_spec(j@) == Err::<StepView, _>(e),
            },
    {
        match j {
            JsonValue::Object(m) => {
                proof {
                    lemma_object_view(*m);
                }
                match get_member(m, "stepType") {
                    None => Err(DecodeError::MissingTag),
                    Some(JsonValue::Str(tag)) => decode_tagged_exec(tag.as_str(), m),
                    Some(_) => Err(DecodeError::WrongShape),
                }
            },
            _ => Err(DecodeError::NotAnObject),
        }
    }
}

// ---------------------------------------------------------------------------
// Decoding ignores the order of members.

pub open spec fn members_equiv(ma: Members, mb: Members) -> bool {
    json_equiv(JsonView::Object(ma), JsonView::Object(mb))
}

proof fn lemma_scalar_members(ma: Members, mb: Members, key: Seq<char>)
    requires
        members_equiv(ma, mb),
    ensures
        req_str(ma, key) == req_str(mb, key),
        opt_str(ma, key) == opt_str(mb, key),
        opt_arity(ma, key) == opt_arity(mb, key),
        req_arity(ma, key) == req_arity(mb, key),
{
    lemma_member_equiv(ma, mb, key);
    if member(ma, key) is Some {
        lemma_equiv_shape(member(ma, key)->0, member(mb, key)->0);
    }
}

proof fn lemma_all_strings_equiv(xa: Seq<JsonView>, xb: Seq<JsonView>)
    requires
        xa.len() == xb.len(),
        forall|i: int| 0 <= i < xa.len() ==> json_equiv(#[trigger] xa[i], xb[i]),
    ensures
        all_strings(xa) == all_strings(xb),
    decreases xa.len(),
{
    if xa.len() > 0 {
        let n = xa.len() - 1;
        assert(json_equiv(xa[n], xb[n]));
        lemma_equiv_shape(xa[n], xb[n]);
        assert forall|i: int| 0 <= i < xa.drop_last().len() implies json_equiv(
            #[trigger] xa.drop_last()[i],
            xb.drop_last()[i],
        ) by {
            assert(json_equiv(xa[i], xb[i]));
        }
        lemma_all_strings_equiv(xa.drop_last(), xb.drop_last());
    }
}

proof fn lemma_strings_member(ma: Members, mb: Members, key: Seq<char>, required: bool)
    requires
        members_equiv(ma, mb),
    ensures
        strings_member(ma, key, required) == strings_member(mb, key, required),
{
    lemma_member_equiv(ma, mb, key);
    if member(ma, key) is Some {
        let (va, vb) = (member(ma, key)->0, member(mb, key)->0);
        lemma_equiv_shape(va, vb);
        if va is Array {
            lemma_all_strings_equiv(va->Array_0, vb->Array_0);
        }
    }
}

proof fn lemma_argument_equiv(a: JsonView, b: JsonView)
    requires
        json_equiv(a, b),
    ensures
        decode_argument(a) == decode_argument(b),
{
    lemma_equiv_shape(a, b);
    if a is Object {
        lemma_scalar_members(a->Object_0, b->Object_0, "name"@);
        lemma_scalar_members(a->Object_0, b->Object_0, "value"@);
    }
}

proof fn lemma_all_arguments_equiv(xa: Seq<JsonView>, xb: Seq<JsonView>)
    requires
        xa.len() == xb.len(),
        forall|i: int| 0 <= i < xa.len() ==> json_equiv(#[trigger] xa[i], xb[i]),
    ensures
        all_arguments(xa) == all_arguments(xb),
    decreases xa.len(),
{
    if xa.len() > 0 {
        let n = xa.len() - 1;
        assert(json_equiv(xa[n], xb[n]));
        lemma_argument_equiv(xa[n], xb[n]);
        assert forall|i: int| 0 <= i < xa.drop_last().len() implies json_equiv(
            #[trigger] xa.drop_last()[i],
            xb.drop_last()[i],
        ) by {
            assert(json_equiv(xa[i], xb[i]));
        }
        lemma_all_arguments_equiv(xa.drop_last(), xb.drop_last());
    }
}

proof fn lemma_arguments_member(ma: Members, mb: Members)
    requires
        members_equiv(ma, mb),
    ensures
        arguments_member(ma) == arguments_member(mb),
{
    lemma_member_equiv(ma, mb, "arguments"@);
    if member(ma, "arguments"@) is Some {
        let (va, vb) = (member(ma, "arguments"@)->0, member(mb, "arguments"@)->0);
        lemma_equiv_shape(va, vb);
        if va is Array {
            lemma_all_arguments_equiv(va->Array_0, vb->Array_0);
        }
    }
}

proof fn lemma_owner_equiv(ma: Members, mb: Members, kind: Seq<char>)
    requires
        members_equiv(ma, mb),
    ensures
        decode_owner(ma, kind) == decode_owner(mb, kind),
{
    lemma_scalar_members(ma, mb, "model"@);
    lemma_scalar_members(ma, mb, "field"@);
    lemma_scalar_members(ma, mb, "enum"@);
}

proof fn lemma_location_members_equiv(ma: Members, mb: Members)
    requires
        members_equiv(ma, mb),
    ensures
        decode_location_members(ma) == decode_location_members(mb),
{
    lemma_scalar_members(ma, mb, "argumentType"@);
    lemma_member_equiv(ma, mb, "argumentType"@);
    if member(ma, "argumentType"@) is Some {
        lemma_equiv_shape(member(ma, "argumentType"@)->0, member(mb, "argumentType"@)->0);
        if member(ma, "argumentType"@)->0 is Str {
            lemma_owner_equiv(ma, mb, directive_tag_kind(member(ma, "argumentType"@)->0->Str_0));
        }
    }
    lemma_scalar_members(ma, mb, "argumentContainer"@);
    lemma_arguments_member(ma, mb);
}

proof fn lemma_location_equiv(a: JsonView, b: JsonView)
    requires
        json_equiv(a, b),
    ensures
        decode_location(a) == decode_location(b),
        decode_argument_location(a) == decode_argument_location(b),
{
    lemma_equiv_shape(a, b);
    if a is Object {
        let (ma, mb) = (a->Object_0, b->Object_0);
        lemma_location_members_equiv(ma, mb);
        lemma_member_equiv(ma, mb, "type"@);
        if member(ma, "type"@) is Some {
            lemma_equiv_shape(member(ma, "type"@)->0, member(mb, "type"@)->0);
        }
        lemma_member_equiv(ma, mb, "directiveType"@);
        if member(ma, "directiveType"@) is Some {
            let (da, db) = (member(ma, "directiveType"@)->0, member(mb, "directiveType"@)->0);
            lemma_equiv_shape(da, db);
            if da is Object {
                lemma_member_equiv(da->Object_0, db->Object_0, "type"@);
                if member(da->Object_0, "type"@) is Some {
                    lemma_equiv_shape(
                        member(da->Object_0, "type"@)->0,
                        member(db->Object_0, "type"@)->0,
                    );
                    if member(da->Object_0, "type"@)->0 is Str {
                        lemma_owner_equiv(
                            da->Object_0,
                            db->Object_0,
                            member(da->Object_0, "type"@)->0->Str_0,
                        );
                    }
                }
            }
        }
        lemma_scalar_members(ma, mb, "directive"@);
        lemma_arguments_member(ma, mb);
    }
}

proof fn lemma_tagged_equiv(tag: Seq<char>, ma: Members, mb: Members)
    requires
        members_equiv(ma, mb),
    ensures
        decode_tagged(tag, ma) == decode_tagged(tag, mb),
{
    lemma_scalar_members(ma, mb, "model"@);
    lemma_scalar_members(ma, mb, "newName"@);
    lemma_scalar_members(ma, mb, "field"@);
    lemma_scalar_members(ma, mb, "type"@);
    lemma_scalar_members(ma, mb, "arity"@);
    lemma_scalar_members(ma, mb, "enum"@);
    lemma_scalar_members(ma, mb, "argument"@);
    lemma_scalar_members(ma, mb, "value"@);
    lemma_scalar_members(ma, mb, "newValue"@);
    lemma_strings_member(ma, mb, "values"@, true);
    lemma_strings_member(ma, mb, "createdValues"@, false);
    lemma_strings_member(ma, mb, "deletedValues"@, false);
    lemma_member_equiv(ma, mb, "location"@);
    if member(ma, "location"@) is Some {
        lemma_location_equiv(member(ma, "location"@)->0, member(mb, "location"@)->0);
    }
}

/// Decoding gives the same result on wire values that are equal up to the
/// order of members.
pub proof fn lemma_decode_ignores_member_order(a: JsonView, b: JsonView)
    requires
        json_equiv(a, b),
    ensures
        decode_spec(a) == decode_spec(b),
{
    lemma_equiv_shape(a, b);
    if a is Object {
        let (ma, mb) = (a->Object_0, b->Object_0);
        lemma_member_equiv(ma, mb, "stepType"@);
        if member(ma, "stepType"@) is Some {
            lemma_equiv_shape(member(ma, "stepType"@)->0, member(mb, "stepType"@)->0);
            if member(ma, "stepType"@)->0 is Str {
                lemma_tagged_equiv(member(ma, "stepType"@)->0->Str_0, ma, mb);
            }
        }
    }
}

/// A well-formed wire object (the encoding of a step, its members in any
/// order) decodes to that step, and re-encoding what it decodes to gives a
/// value equal to it up to the order of members.
pub proof fn lemma_encode_decode(j: JsonView, s: StepView)
    requires
        json_equiv(j, encode_spec(s)),
    ensures
        decode_spec(j) == Ok::<_, DecodeError>(s),
        json_equiv(j, encode_spec(decode_spec(j)->Ok_0)),
{
    lemma_decode_ignores_member_order(j, encode_spec(s));
    lemma_decode_encode(s);
}

} // verus!
