//! Validation and merge logic: turns an untrusted request body into a valid
//! question-record mutation, rejecting anything that does not conform and
//! never partially applying an invalid change.
//!
//! A body is modelled by [`PayloadValue`], which keeps exactly what the
//! validator inspects: whether a value is a string, an array, or an object,
//! and what those contain.  Every other kind of value (null, boolean,
//! number) is [`PayloadValue::Other`]; the validator never looks inside
//! such values.

use vstd::prelude::*;

use crate::errors::QuestionError;
use crate::model::NewQuestionModel;

verus! {

/// An untrusted request body, as far as the validation logic reads it.
pub enum PayloadValue {
    /// A JSON string.
    Str(String),
    /// A JSON array.
    Array(Vec<PayloadValue>),
    /// A JSON object: fields in document order.  Lookups take the first
    /// entry with a matching key.
    Object(Vec<(String, PayloadValue)>),
    /// Any value the validator never inspects: null, boolean or number.
    Other,
}

/// Key of a record's title field.
pub open spec fn title_key() -> Seq<char> {
    "question_title"@
}

/// Key of a record's content-type field.
pub open spec fn content_key() -> Seq<char> {
    "type_of_content"@
}

/// Key of a record's tag-list field.
pub open spec fn tags_key() -> Seq<char> {
    "type_of_question"@
}

/// The value under the first entry with key `key`, if any.
pub open spec fn entries_lookup(entries: Seq<(String, PayloadValue)>, key: Seq<char>) -> Option<
    PayloadValue,
>
    decreases entries.len(),
{
    if entries.len() == 0 {
        None
    } else if entries[0].0@ == key {
        Some(entries[0].1)
    } else {
        entries_lookup(entries.drop_first(), key)
    }
}

/// The value of field `key` when `p` is an object carrying such a field;
/// `None` when the field is absent or `p` is not an object.
pub open spec fn field_of(p: PayloadValue, key: Seq<char>) -> Option<PayloadValue> {
    match p {
        PayloadValue::Object(entries) => entries_lookup(entries@, key),
        _ => None,
    }
}

/// The strings among `items`, in order; elements of any other kind are
/// silently dropped.
pub open spec fn string_items(items: Seq<PayloadValue>) -> Seq<Seq<char>>
    decreases items.len(),
{
    if items.len() == 0 {
        Seq::empty()
    } else {
        let rest = string_items(items.drop_last());
        match items.last() {
            PayloadValue::Str(s) => rest.push(s@),
            _ => rest,
        }
    }
}

/// Whether `p` conforms to the create contract: an object whose `title` and
/// `content_type` fields are strings and whose `tags` field is an array.
pub open spec fn valid_new_question(p: PayloadValue) -> bool {
    &&& field_of(p, title_key()) matches Some(PayloadValue::Str(_))
    &&& field_of(p, content_key()) matches Some(PayloadValue::Str(_))
    &&& field_of(p, tags_key()) matches Some(PayloadValue::Array(_))
}

/// The validated fields of a conforming create payload.
pub open spec fn new_question_of(p: PayloadValue) -> NewQuestionModel
    recommends
        valid_new_question(p),
{
    NewQuestionModel {
        question_title: match field_of(p, title_key()) {
            Some(PayloadValue::Str(s)) => s@,
            _ => Seq::empty(),
        },
        type_of_content: match field_of(p, content_key()) {
            Some(PayloadValue::Str(s)) => s@,
            _ => Seq::empty(),
        },
        type_of_question: match field_of(p, tags_key()) {
            Some(PayloadValue::Array(items)) => string_items(items@),
            _ => Seq::empty(),
        },
    }
}

/// Whether every field present in `p` has the type the update contract
/// demands; absent fields never make an update invalid.
pub open spec fn merge_valid(p: PayloadValue) -> bool {
    &&& (field_of(p, title_key()) matches Some(v) ==> v is Str)
    &&& (field_of(p, content_key()) matches Some(v) ==> v is Str)
    &&& (field_of(p, tags_key()) matches Some(v) ==> v is Array)
}

/// The update working copy: each field present in `p` overwrites the
/// corresponding field of `q`; fields absent from `p` stay unchanged.
pub open spec fn merged(q: NewQuestionModel, p: PayloadValue) -> NewQuestionModel
    recommends
        merge_valid(p),
{
    NewQuestionModel {
        question_title: match field_of(p, title_key()) {
            Some(PayloadValue::Str(s)) => s@,
            _ => q.question_title,
        },
        type_of_content: match field_of(p, content_key()) {
            Some(PayloadValue::Str(s)) => s@,
            _ => q.type_of_content,
        },
        type_of_question: match field_of(p, tags_key()) {
            Some(PayloadValue::Array(items)) => string_items(items@),
            _ => q.type_of_question,
        },
    }
}

/// A validated create request: the three caller-owned fields of a record.
pub struct NewQuestion {
    pub question_title: String,
    pub type_of_content: String,
    pub type_of_question: Vec<String>,
}

impl View for NewQuestion {
    type V = NewQuestionModel;

    open spec fn view(&self) -> NewQuestionModel {
        NewQuestionModel {
            question_title: self.question_title@,
            type_of_content: self.type_of_content@,
            type_of_question: self.type_of_question.deep_view(),
        }
    }
}

/// Looks `key` up among the fields of `payload`, when it is an object.
pub fn get_field<'a>(payload: &'a PayloadValue, key: &String) -> (r: Option<&'a PayloadValue>)
    ensures
        match r {
            Some(v) => field_of(*payload, key@) == Some(*v),
            None => field_of(*payload, key@) is None,
        },
{
    match payload {
        PayloadValue::Object(entries) => {
            let n = entries.len();
            let mut i: usize = 0;
            proof {
                assert(entries@.skip(0) =~= entries@);
            }
            while i < n
                invariant
                    i <= n,
                    n == entries@.len(),
                    *payload == PayloadValue::Object(*entries),
                    entries_lookup(entries@, key@) == entries_lookup(
                        entries@.skip(i as int),
                        key@,
                    ),
                decreases n - i,
            {
                if entries[i].0 == *key {
                    proof {
                        assert(entries@.skip(i as int)[0] == entries@[i as int]);
                    }
                    return Some(&entries[i].1);
                }
                proof {
                    assert(entries@.skip(i as int)[0] == entries@[i as int]);
                    assert(entries@.skip(i as int).drop_first() =~= entries@.skip(i as int + 1));
                }
                i = i + 1;
            }
            proof {
                assert(entries@.skip(n as int) =~= Seq::<(String, PayloadValue)>::empty());
            }
            None
        },
        _ => None,
    }
}

/// Copies the string elements out of `items`, dropping the rest.
pub fn collect_string_items(items: &Vec<PayloadValue>) -> (r: Vec<String>)
    ensures
        r.deep_view() == string_items(items@),
{
    let mut out: Vec<String> = Vec::new();
    let n = items.len();
    let mut i: usize = 0;
    proof {
        assert(out.deep_view() =~= string_items(items@.take(0)));
    }
    while i < n
        invariant
            i <= n,
            n == items@.len(),
            out.deep_view() == string_items(items@.take(i as int)),
        decreases n - i,
    {
        proof {
            assert(items@.take(i as int + 1).drop_last() =~= items@.take(i as int));
            assert(items@.take(i as int + 1).last() == items@[i as int]);
        }
        match &items[i] {
            PayloadValue::Str(s) => {
                let ghost prev = out.deep_view();
                out.push(s.clone());
                proof {
                    assert(out.deep_view() =~= prev.push(s@));
                }
            },
            _ => {},
        }
        i = i + 1;
    }
    proof {
        assert(items@.take(n as int) =~= items@);
    }
    out
}

/// Copies a list of strings; the backends hand out copies of records, never
/// live references into the collection.
pub fn clone_string_vec(items: &Vec<String>) -> (r: Vec<String>)
    ensures
        r.deep_view() == items.deep_view(),
{
    let mut out: Vec<String> = Vec::new();
    let n = items.len();
    let mut i: usize = 0;
    proof {
        assert(out.deep_view() =~= items.deep_view().take(0));
    }
    while i < n
        invariant
            i <= n,
            n == items@.len(),
            out.deep_view() == items.deep_view().take(i as int),
        decreases n - i,
    {
        let ghost prev = out.deep_view();
        out.push(items[i].clone());
        proof {
            assert(out.deep_view() =~= prev.push(items@[i as int]@));
            assert(items.deep_view().take(i as int + 1) =~= items.deep_view().take(i as int).push(
                items@[i as int]@,
            ));
        }
        i = i + 1;
    }
    proof {
        assert(items.deep_view().take(n as int) =~= items.deep_view());
    }
    out
}

/// Checks a create payload against the create contract and extracts the
/// validated fields: `title` and `content_type` must be strings and `tags`
/// an array; non-string tag elements are silently dropped.
pub fn validate_new_question(payload: &PayloadValue) -> (r: Result<NewQuestion, QuestionError>)
    ensures
        r is Ok <==> valid_new_question(*payload),
        r matches Ok(nq) ==> nq@ == new_question_of(*payload),
        r matches Err(e) ==> e == QuestionError::InvalidPayload,
{
    let title = match get_field(payload, &"question_title".to_owned()) {
        Some(v) => match v {
            PayloadValue::Str(s) => Some(s),
            _ => None,
        },
        None => None,
    };
    let content = match get_field(payload, &"type_of_content".to_owned()) {
        Some(v) => match v {
            PayloadValue::Str(s) => Some(s),
            _ => None,
        },
        None => None,
    };
    let tags = match get_field(payload, &"type_of_question".to_owned()) {
        Some(v) => match v {
            PayloadValue::Array(items) => Some(items),
            _ => None,
        },
        None => None,
    };
    match (title, content, tags) {
        (Some(t), Some(c), Some(items)) => Ok(
            NewQuestion {
                question_title: t.clone(),
                type_of_content: c.clone(),
                type_of_question: collect_string_items(items),
            },
        ),
        _ => Err(QuestionError::InvalidPayload),
    }
}

/// Applies an update payload to the given field values, per the update
/// contract: a present, well-typed field overwrites; an absent field leaves
/// the old value; a present field of the wrong type fails the whole update
/// with [`QuestionError::InvalidPayload`] and nothing is applied.
pub fn merge_fields(
    question_title: &String,
    type_of_content: &String,
    type_of_question: &Vec<String>,
    payload: &PayloadValue,
) -> (r: Result<NewQuestion, QuestionError>)
    ensures
        r is Ok <==> merge_valid(*payload),
        r matches Ok(nq) ==> nq@ == merged(
            NewQuestionModel {
                question_title: question_title@,
                type_of_content: type_of_content@,
                type_of_question: type_of_question.deep_view(),
            },
            *payload,
        ),
        r matches Err(e) ==> e == QuestionError::InvalidPayload,
{
    let title = match get_field(payload, &"question_title".to_owned()) {
        Some(v) => match v {
            PayloadValue::Str(s) => s.clone(),
            _ => {
                return Err(QuestionError::InvalidPayload);
            },
        },
        None => question_title.clone(),
    };
    let content = match get_field(payload, &"type_of_content".to_owned()) {
        Some(v) => match v {
            PayloadValue::Str(s) => s.clone(),
            _ => {
                return Err(QuestionError::InvalidPayload);
            },
        },
        None => type_of_content.clone(),
    };
    let tags = match get_field(payload, &"type_of_question".to_owned()) {
        Some(v) => match v {
            PayloadValue::Array(items) => collect_string_items(items),
            _ => {
                return Err(QuestionError::InvalidPayload);
            },
        },
        None => clone_string_vec(type_of_question),
    };
    Ok(NewQuestion { question_title: title, type_of_content: content, type_of_question: tags })
}

/// An update payload that lacks a field leaves that field of the working
/// copy unchanged, and an update never moves a record's identifier or, for
/// fields absent from the payload, any other part of the record.
pub proof fn lemma_merge_keeps_absent_fields(q: NewQuestionModel, p: PayloadValue)
    ensures
        field_of(p, title_key()) is None ==> merged(q, p).question_title == q.question_title,
        field_of(p, content_key()) is None ==> merged(q, p).type_of_content == q.type_of_content,
        field_of(p, tags_key()) is None ==> merged(q, p).type_of_question == q.type_of_question,
{
}

} // verus!
