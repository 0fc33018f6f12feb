use question_bank::errors::QuestionError;
use question_bank::payload::PayloadValue;
use question_bank::questions_database::{initialize_questions_database, Question, QuestionsDatabase};

fn record(id: &str, title: &str, content: &str, tags: &[&str]) -> Question {
    Question {
        question_id: id.to_string(),
        question_title: title.to_string(),
        type_of_content: content.to_string(),
        type_of_question: tags.iter().map(|t| t.to_string()).collect(),
    }
}

#[test]
fn seeded_database_holds_three_greetings() {
    let db = initialize_questions_database();
    let all = db.list();
    assert_eq!(all.len(), 3);
    assert_eq!(all[0].question_id, "1");
    assert_eq!(all[0].question_title, "Hello");
    assert_eq!(all[0].type_of_content, "How are you?");
    assert_eq!(all[0].type_of_question, vec!["Greeting".to_string()]);
    assert_eq!(all[1].question_id, "2");
    assert_eq!(all[1].question_title, "About work");
    assert_eq!(all[1].type_of_content, "What do you do?.");
    assert_eq!(all[2].question_id, "3");
    assert_eq!(all[2].question_title, "Hobby");
    assert_eq!(all[2].type_of_content, "What do you like to do in your free time?.");
}

#[test]
fn insert_with_fresh_id_appends() {
    let mut db = QuestionsDatabase::new();
    db.insert(record("a", "t", "c", &["g"])).unwrap();
    let all = db.list();
    assert_eq!(all.len(), 1);
    assert_eq!(all[0].question_id, "a");
}

#[test]
fn insert_with_duplicate_id_conflicts() {
    let mut db = initialize_questions_database();
    let r = db.insert(record("2", "again", "c", &[]));
    assert!(matches!(r, Err(QuestionError::Conflict)));
    assert_eq!(db.list().len(), 3);
}

#[test]
fn get_by_string_id() {
    let db = initialize_questions_database();
    let q = db.get(&"2".to_string()).unwrap();
    assert_eq!(q.question_title, "About work");
    assert!(matches!(db.get(&"9".to_string()), Err(QuestionError::NotFound)));
}

#[test]
fn delete_removes_exactly_one() {
    let mut db = initialize_questions_database();
    db.delete(&"2".to_string()).unwrap();
    let all = db.list();
    assert_eq!(all.len(), 2);
    assert_eq!(all[0].question_id, "1");
    assert_eq!(all[1].question_id, "3");
    assert!(matches!(db.delete(&"2".to_string()), Err(QuestionError::NotFound)));
    assert_eq!(db.list().len(), 2);
}

#[test]
fn replace_swaps_the_record_in_place() {
    let mut db = initialize_questions_database();
    db.replace(&"2".to_string(), record("2", "new title", "new content", &["t"])).unwrap();
    let all = db.list();
    assert_eq!(all.len(), 3);
    assert_eq!(all[1].question_id, "2");
    assert_eq!(all[1].question_title, "new title");
    let r = db.replace(&"9".to_string(), record("9", "x", "y", &[]));
    assert!(matches!(r, Err(QuestionError::NotFound)));
}

#[test]
fn update_merges_partial_payload() {
    let mut db = initialize_questions_database();
    let patch = PayloadValue::Object(vec![(
        "question_title".to_string(),
        PayloadValue::Str("Hi there".to_string()),
    )]);
    let updated = db.update(&"1".to_string(), &patch).unwrap();
    assert_eq!(updated.question_id, "1");
    assert_eq!(updated.question_title, "Hi there");
    assert_eq!(updated.type_of_content, "How are you?");
    assert_eq!(updated.type_of_question, vec!["Greeting".to_string()]);
    let fetched = db.get(&"1".to_string()).unwrap();
    assert_eq!(fetched.question_title, "Hi there");
}

#[test]
fn update_missing_id_is_not_found() {
    let mut db = QuestionsDatabase::new();
    let patch = PayloadValue::Object(vec![]);
    assert!(matches!(
        db.update(&"1".to_string(), &patch),
        Err(QuestionError::NotFound)
    ));
}
