//! Component values, and the bridge between them and JSON.

use tender_component::error::{ErrorKind, HostError};
use tender_component::json::Json;
use tender_component::value::{
    default_value, value_from_json, value_to_json, ComponentType, Val,
};

fn text(value: &str) -> Json {
    Json::Text(value.to_owned())
}

fn object(entries: Vec<(&str, Json)>) -> Json {
    let mut members: Vec<(String, Json)> = Vec::new();
    for (key, value) in entries {
        members.push((key.to_owned(), value));
    }
    Json::Object(members)
}

fn refusal(kind: ErrorKind, subject: &str) -> HostError {
    HostError::about(kind, subject)
}

fn order_type() -> ComponentType {
    ComponentType::Record(vec![
        ("id".to_owned(), ComponentType::S64),
        ("open".to_owned(), ComponentType::Bool),
        ("note".to_owned(), ComponentType::Text),
    ])
}

fn shape_type() -> ComponentType {
    ComponentType::Variant(vec![
        ("none".to_owned(), None),
        ("order".to_owned(), Some(order_type())),
    ])
}

#[test]
fn scalars_are_admitted() {
    assert_eq!(value_from_json(&ComponentType::Bool, &Json::Bool(true)), Ok(Val::Bool(true)));
    assert_eq!(value_from_json(&ComponentType::S64, &Json::Signed(-7)), Ok(Val::S64(-7)));
    assert_eq!(
        value_from_json(&ComponentType::S64, &Json::Unsigned(9223372036854775807)),
        Ok(Val::S64(i64::MAX))
    );
    assert_eq!(value_from_json(&ComponentType::Text, &text("x")), Ok(Val::Text("x".to_owned())));
}

#[test]
fn scalars_of_another_kind_are_refused() {
    assert_eq!(
        value_from_json(&ComponentType::Bool, &Json::Unsigned(1)),
        Err(refusal(ErrorKind::BoolParameter, ""))
    );
    assert_eq!(
        value_from_json(&ComponentType::S64, &Json::Unsigned(9223372036854775808)),
        Err(refusal(ErrorKind::S64Parameter, ""))
    );
    assert_eq!(
        value_from_json(&ComponentType::Text, &Json::Null),
        Err(refusal(ErrorKind::StringParameter, ""))
    );
    assert_eq!(
        value_from_json(&ComponentType::Other, &Json::Null),
        Err(refusal(ErrorKind::ParameterTypeNotAdmitted, ""))
    );
}

#[test]
fn a_fraction_is_no_integer() {
    let half = Json::parse(b"0.5").unwrap();
    assert_eq!(
        value_from_json(&ComponentType::S64, &half),
        Err(refusal(ErrorKind::S64Parameter, ""))
    );
    let whole = Json::parse(b"1.0").unwrap();
    assert_eq!(
        value_from_json(&ComponentType::S64, &whole),
        Err(refusal(ErrorKind::S64Parameter, ""))
    );
}

#[test]
fn a_record_is_admitted_in_the_order_of_its_type() {
    let json = object(vec![
        ("note", text("n")),
        ("open", Json::Bool(false)),
        ("id", Json::Unsigned(3)),
    ]);
    assert_eq!(
        value_from_json(&order_type(), &json),
        Ok(Val::Record(vec![
            ("id".to_owned(), Val::S64(3)),
            ("open".to_owned(), Val::Bool(false)),
            ("note".to_owned(), Val::Text("n".to_owned())),
        ]))
    );
}

#[test]
fn a_record_has_exactly_its_fields() {
    assert_eq!(
        value_from_json(&order_type(), &Json::Array(vec![])),
        Err(refusal(ErrorKind::RecordParameter, ""))
    );
    assert_eq!(
        value_from_json(&order_type(), &object(vec![("id", Json::Unsigned(3))])),
        Err(refusal(ErrorKind::RecordFieldMissing, "open"))
    );
    let wide = object(vec![
        ("id", Json::Unsigned(3)),
        ("open", Json::Bool(false)),
        ("note", text("n")),
        ("more", Json::Null),
    ]);
    assert_eq!(
        value_from_json(&order_type(), &wide),
        Err(refusal(ErrorKind::RecordFieldUnknown, ""))
    );
    let wrong = object(vec![("id", Json::Unsigned(3)), ("open", Json::Null)]);
    assert_eq!(
        value_from_json(&order_type(), &wrong),
        Err(refusal(ErrorKind::BoolParameter, ""))
    );
}

#[test]
fn a_variant_has_one_case_of_its_type() {
    assert_eq!(
        value_from_json(&shape_type(), &object(vec![("case", text("none"))])),
        Ok(Val::Variant("none".to_owned(), None))
    );
    assert_eq!(
        value_from_json(&shape_type(), &Json::Null),
        Err(refusal(ErrorKind::VariantParameter, ""))
    );
    assert_eq!(
        value_from_json(&shape_type(), &object(vec![])),
        Err(refusal(ErrorKind::VariantShape, ""))
    );
    assert_eq!(
        value_from_json(&shape_type(), &object(vec![("case", Json::Null)])),
        Err(refusal(ErrorKind::VariantCaseText, ""))
    );
    assert_eq!(
        value_from_json(&shape_type(), &object(vec![("case", text("other"))])),
        Err(refusal(ErrorKind::VariantCaseUnknown, ""))
    );
    assert_eq!(
        value_from_json(&shape_type(), &object(vec![("case", text("order"))])),
        Err(refusal(ErrorKind::VariantValueMissing, ""))
    );
    assert_eq!(
        value_from_json(
            &shape_type(),
            &object(vec![("case", text("none")), ("value", Json::Null)])
        ),
        Err(refusal(ErrorKind::VariantValueUnexpected, ""))
    );
}

#[test]
fn places_are_held_by_empty_values() {
    assert_eq!(
        default_value(&order_type()),
        Ok(Val::Record(vec![
            ("id".to_owned(), Val::S64(0)),
            ("open".to_owned(), Val::Bool(false)),
            ("note".to_owned(), Val::Text(String::new())),
        ]))
    );
    assert_eq!(default_value(&shape_type()), Ok(Val::Variant("none".to_owned(), None)));
    assert_eq!(
        default_value(&ComponentType::Variant(vec![(
            "only".to_owned(),
            Some(ComponentType::S64)
        )])),
        Ok(Val::Variant("only".to_owned(), Some(Box::new(Val::S64(0)))))
    );
    assert_eq!(
        default_value(&ComponentType::Variant(vec![])),
        Err(refusal(ErrorKind::ResultVariantEmpty, ""))
    );
    assert_eq!(
        default_value(&ComponentType::Other),
        Err(refusal(ErrorKind::ResultTypeNotAdmitted, ""))
    );
}

#[test]
fn values_are_reported() {
    assert_eq!(value_to_json(&Val::S64(-2)), Ok(Json::Signed(-2)));
    let variant = Val::Variant("order".to_owned(), Some(Box::new(Val::Bool(true))));
    assert_eq!(
        value_to_json(&variant).unwrap().encode(),
        b"{\"case\":\"order\",\"value\":true}".to_vec()
    );
    assert_eq!(
        value_to_json(&Val::Record(vec![("x".to_owned(), Val::Other)])),
        Err(refusal(ErrorKind::ResultTypeNotAdmitted, ""))
    );
}

#[test]
fn what_is_reported_is_admitted_again() {
    let json = Json::parse(
        b"{\"case\":\"order\",\"value\":{\"id\":-9,\"open\":true,\"note\":\"\\u00e9\"}}",
    )
    .unwrap();
    let value = value_from_json(&shape_type(), &json).unwrap();
    let told = value_to_json(&value).unwrap();
    assert_eq!(value_from_json(&shape_type(), &told), Ok(value));
    assert_eq!(
        told.encode(),
        "{\"case\":\"order\",\"value\":{\"id\":-9,\"note\":\"é\",\"open\":true}}".as_bytes().to_vec()
    );
}
