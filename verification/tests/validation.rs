use question_bank::errors::QuestionError;
use question_bank::payload::{merge_fields, validate_new_question, PayloadValue};

fn text(v: &str) -> PayloadValue {
    PayloadValue::Str(v.to_string())
}

fn object(fields: Vec<(&str, PayloadValue)>) -> PayloadValue {
    PayloadValue::Object(fields.into_iter().map(|(k, v)| (k.to_string(), v)).collect())
}

#[test]
fn valid_payload_extracts_all_fields() {
    let payload = object(vec![
        ("question_title", text("A")),
        ("type_of_content", text("B")),
        ("type_of_question", PayloadValue::Array(vec![text("x"), text("y")])),
    ]);
    let nq = validate_new_question(&payload).unwrap();
    assert_eq!(nq.question_title, "A");
    assert_eq!(nq.type_of_content, "B");
    assert_eq!(nq.type_of_question, vec!["x".to_string(), "y".to_string()]);
}

#[test]
fn non_string_tag_elements_are_dropped() {
    let payload = object(vec![
        ("question_title", text("A")),
        ("type_of_content", text("B")),
        (
            "type_of_question",
            PayloadValue::Array(vec![
                text("x"),
                PayloadValue::Other,
                PayloadValue::Array(vec![]),
                text("y"),
            ]),
        ),
    ]);
    let nq = validate_new_question(&payload).unwrap();
    assert_eq!(nq.type_of_question, vec!["x".to_string(), "y".to_string()]);
}

#[test]
fn empty_tag_array_is_accepted() {
    let payload = object(vec![
        ("question_title", text("A")),
        ("type_of_content", text("B")),
        ("type_of_question", PayloadValue::Array(vec![])),
    ]);
    let nq = validate_new_question(&payload).unwrap();
    assert!(nq.type_of_question.is_empty());
}

#[test]
fn missing_required_field_is_rejected() {
    let payload = object(vec![
        ("question_title", text("A")),
        ("type_of_question", PayloadValue::Array(vec![])),
    ]);
    assert!(matches!(
        validate_new_question(&payload),
        Err(QuestionError::InvalidPayload)
    ));
}

#[test]
fn wrongly_typed_required_field_is_rejected() {
    let payload = object(vec![
        ("question_title", text("A")),
        ("type_of_content", PayloadValue::Other),
        ("type_of_question", PayloadValue::Array(vec![])),
    ]);
    assert!(matches!(
        validate_new_question(&payload),
        Err(QuestionError::InvalidPayload)
    ));
}

#[test]
fn non_object_payload_is_rejected() {
    assert!(matches!(
        validate_new_question(&text("A")),
        Err(QuestionError::InvalidPayload)
    ));
    assert!(matches!(
        validate_new_question(&PayloadValue::Other),
        Err(QuestionError::InvalidPayload)
    ));
}

#[test]
fn merge_overwrites_only_present_fields() {
    let title = "A".to_string();
    let content = "B".to_string();
    let tags = vec!["x".to_string()];
    let patch = object(vec![("question_title", text("C"))]);
    let merged = merge_fields(&title, &content, &tags, &patch).unwrap();
    assert_eq!(merged.question_title, "C");
    assert_eq!(merged.type_of_content, "B");
    assert_eq!(merged.type_of_question, vec!["x".to_string()]);
}

#[test]
fn merge_rejects_wrongly_typed_present_field() {
    let title = "A".to_string();
    let content = "B".to_string();
    let tags = vec!["x".to_string()];
    let patch = object(vec![("question_title", PayloadValue::Array(vec![]))]);
    assert!(matches!(
        merge_fields(&title, &content, &tags, &patch),
        Err(QuestionError::InvalidPayload)
    ));
}

#[test]
fn merge_replaces_tags_and_drops_non_strings() {
    let title = "A".to_string();
    let content = "B".to_string();
    let tags = vec!["x".to_string()];
    let patch = object(vec![(
        "type_of_question",
        PayloadValue::Array(vec![text("u"), PayloadValue::Other, text("v")]),
    )]);
    let merged = merge_fields(&title, &content, &tags, &patch).unwrap();
    assert_eq!(merged.question_title, "A");
    assert_eq!(merged.type_of_question, vec!["u".to_string(), "v".to_string()]);
}

#[test]
fn duplicate_keys_take_the_first_entry() {
    let payload = object(vec![
        ("question_title", text("first")),
        ("question_title", text("second")),
        ("type_of_content", text("B")),
        ("type_of_question", PayloadValue::Array(vec![])),
    ]);
    let nq = validate_new_question(&payload).unwrap();
    assert_eq!(nq.question_title, "first");
}
