use question_bank::errors::QuestionError;
use question_bank::payload::PayloadValue;
use question_bank::questions_table::QuestionBank;
use question_bank::request_handlers::{
    add_questions, delete_question, fetch_all_questions, get_question_by_id, insert_question,
    update_question,
};

fn text(v: &str) -> PayloadValue {
    PayloadValue::Str(v.to_string())
}

fn object(fields: Vec<(&str, PayloadValue)>) -> PayloadValue {
    PayloadValue::Object(fields.into_iter().map(|(k, v)| (k.to_string(), v)).collect())
}

fn tag_array(tags: &[&str]) -> PayloadValue {
    PayloadValue::Array(tags.iter().map(|t| text(t)).collect())
}

fn sample(title: &str, content: &str, tags: &[&str]) -> PayloadValue {
    object(vec![
        ("question_title", text(title)),
        ("type_of_content", text(content)),
        ("type_of_question", tag_array(tags)),
    ])
}

#[test]
fn create_returns_validated_fields() {
    let mut bank = QuestionBank::new();
    let q = insert_question(&mut bank, &sample("A", "B", &["x", "y"])).unwrap();
    assert_eq!(q.question_id, 1);
    assert_eq!(q.question_title, "A");
    assert_eq!(q.type_of_content, "B");
    assert_eq!(q.type_of_question, vec!["x".to_string(), "y".to_string()]);
    let all = fetch_all_questions(&bank);
    assert_eq!(all.len(), 1);
    assert_eq!(all[0].question_id, 1);
    assert_eq!(all[0].question_title, "A");
    assert_eq!(all[0].type_of_content, "B");
    assert_eq!(all[0].type_of_question, vec!["x".to_string(), "y".to_string()]);
}

#[test]
fn create_then_get_round_trips() {
    let mut bank = QuestionBank::new();
    let created = insert_question(&mut bank, &sample("A", "B", &["x"])).unwrap();
    let fetched = get_question_by_id(&bank, created.question_id).unwrap();
    assert_eq!(fetched.question_id, created.question_id);
    assert_eq!(fetched.question_title, "A");
    assert_eq!(fetched.type_of_content, "B");
    assert_eq!(fetched.type_of_question, vec!["x".to_string()]);
}

#[test]
fn update_keeps_absent_fields() {
    let mut bank = QuestionBank::new();
    let created = insert_question(&mut bank, &sample("A", "B", &["x"])).unwrap();
    let patch = object(vec![("question_title", text("C"))]);
    let updated = update_question(&mut bank, created.question_id, &patch).unwrap();
    assert_eq!(updated.question_title, "C");
    assert_eq!(updated.type_of_content, "B");
    assert_eq!(updated.type_of_question, vec!["x".to_string()]);
    let fetched = get_question_by_id(&bank, created.question_id).unwrap();
    assert_eq!(fetched.question_title, "C");
    assert_eq!(fetched.type_of_content, "B");
    assert_eq!(fetched.type_of_question, vec!["x".to_string()]);
}

#[test]
fn update_and_delete_on_missing_id_change_nothing() {
    let mut bank = QuestionBank::new();
    insert_question(&mut bank, &sample("A", "B", &[])).unwrap();
    let before = fetch_all_questions(&bank);

    let patch = object(vec![("question_title", text("C"))]);
    let r = update_question(&mut bank, 42, &patch);
    assert!(matches!(r, Err(QuestionError::NotFound)));

    let r = delete_question(&mut bank, 42);
    assert!(matches!(r, Err(QuestionError::NotFound)));

    let after = fetch_all_questions(&bank);
    assert_eq!(after.len(), before.len());
    assert_eq!(after[0].question_title, before[0].question_title);
}

#[test]
fn batch_with_invalid_second_element_keeps_first() {
    let mut bank = QuestionBank::new();
    let batch = PayloadValue::Array(vec![
        sample("first", "ok", &["x"]),
        object(vec![("question_title", text("second"))]),
    ]);
    let r = add_questions(&mut bank, &batch);
    assert!(matches!(r, Err(QuestionError::InvalidPayload)));
    let all = fetch_all_questions(&bank);
    assert_eq!(all.len(), 1);
    assert_eq!(all[0].question_title, "first");
}

#[test]
fn batch_of_valid_objects_inserts_all() {
    let mut bank = QuestionBank::new();
    let batch = PayloadValue::Array(vec![sample("a", "c1", &[]), sample("b", "c2", &["t"])]);
    let n = add_questions(&mut bank, &batch).unwrap();
    assert_eq!(n, 2);
    let all = fetch_all_questions(&bank);
    assert_eq!(all.len(), 2);
    assert_eq!(all[0].question_title, "a");
    assert_eq!(all[1].question_title, "b");
}

#[test]
fn single_object_create_inserts_one() {
    let mut bank = QuestionBank::new();
    let n = add_questions(&mut bank, &sample("solo", "c", &[])).unwrap();
    assert_eq!(n, 1);
    assert_eq!(fetch_all_questions(&bank).len(), 1);
}

#[test]
fn list_after_creates_and_deletes_is_ordered() {
    let mut bank = QuestionBank::new();
    for title in ["a", "b", "c", "d"] {
        insert_question(&mut bank, &sample(title, "c", &[])).unwrap();
    }
    delete_question(&mut bank, 2).unwrap();
    delete_question(&mut bank, 4).unwrap();
    let all = fetch_all_questions(&bank);
    assert_eq!(all.len(), 2);
    assert_eq!(all[0].question_id, 1);
    assert_eq!(all[1].question_id, 3);
    assert!(all[0].question_id < all[1].question_id);
    assert_eq!(all[0].question_title, "a");
    assert_eq!(all[1].question_title, "c");
}

#[test]
fn create_and_delete_in_either_order_leave_same_records() {
    let seed = |bank: &mut QuestionBank| {
        insert_question(bank, &sample("keep", "c", &[])).unwrap();
        insert_question(bank, &sample("doomed", "c", &[])).unwrap();
    };

    let mut first_create = QuestionBank::new();
    seed(&mut first_create);
    insert_question(&mut first_create, &sample("new", "c", &[])).unwrap();
    delete_question(&mut first_create, 2).unwrap();

    let mut first_delete = QuestionBank::new();
    seed(&mut first_delete);
    delete_question(&mut first_delete, 2).unwrap();
    insert_question(&mut first_delete, &sample("new", "c", &[])).unwrap();

    let a = fetch_all_questions(&first_create);
    let b = fetch_all_questions(&first_delete);
    assert_eq!(a.len(), b.len());
    for (x, y) in a.iter().zip(b.iter()) {
        assert_eq!(x.question_id, y.question_id);
        assert_eq!(x.question_title, y.question_title);
        assert_eq!(x.type_of_content, y.type_of_content);
        assert_eq!(x.type_of_question, y.type_of_question);
    }
    assert_eq!(a.len(), 2);
    assert_eq!(a[0].question_title, "keep");
    assert_eq!(a[1].question_title, "new");
}

#[test]
fn get_missing_id_is_not_found() {
    let bank = QuestionBank::new();
    assert!(matches!(get_question_by_id(&bank, 1), Err(QuestionError::NotFound)));
}

#[test]
fn non_object_create_is_rejected() {
    let mut bank = QuestionBank::new();
    let r = add_questions(&mut bank, &PayloadValue::Other);
    assert!(matches!(r, Err(QuestionError::InvalidPayload)));
    assert_eq!(fetch_all_questions(&bank).len(), 0);
}

#[test]
fn wrongly_typed_present_field_rejects_update() {
    let mut bank = QuestionBank::new();
    let created = insert_question(&mut bank, &sample("A", "B", &["x"])).unwrap();
    let patch = object(vec![("type_of_question", text("not-an-array"))]);
    let r = update_question(&mut bank, created.question_id, &patch);
    assert!(matches!(r, Err(QuestionError::InvalidPayload)));
    let fetched = get_question_by_id(&bank, created.question_id).unwrap();
    assert_eq!(fetched.question_title, "A");
    assert_eq!(fetched.type_of_question, vec!["x".to_string()]);
}

#[test]
fn update_with_payload_of_no_known_fields_changes_nothing() {
    let mut bank = QuestionBank::new();
    let created = insert_question(&mut bank, &sample("A", "B", &["x"])).unwrap();
    let updated = update_question(&mut bank, created.question_id, &PayloadValue::Other).unwrap();
    assert_eq!(updated.question_title, "A");
    assert_eq!(updated.type_of_content, "B");
    assert_eq!(updated.type_of_question, vec!["x".to_string()]);
}

#[test]
fn error_status_codes() {
    assert_eq!(QuestionError::InvalidPayload.status_code(), 400);
    assert_eq!(QuestionError::NotFound.status_code(), 404);
    assert_eq!(QuestionError::Conflict.status_code(), 409);
    assert_eq!(QuestionError::Internal.status_code(), 500);
}
