//! Request handlers over the integer-keyed backend: each HTTP route's
//! decision logic, from a parsed request body to a backend mutation and a
//! result, with the dispatcher's I/O left to the caller.

use vstd::prelude::*;

use crate::errors::QuestionError;
use crate::model::{
    fields_of, has_id, lemma_id_index, new_record, record_with_id, remove_id, replace_id,
    QuestionModel,
};
use crate::payload::{
    merge_fields, merge_valid, merged, new_question_of, valid_new_question, validate_new_question,
    PayloadValue,
};
use crate::questions_table::{ordered_by_id, QuestionBank, QuestionStructure};

verus! {

/// What a batch create leaves behind: the collection and identifier counter
/// after the run, and the failure that stopped it, if one did.
pub ghost struct BatchOutcome {
    pub questions: Seq<QuestionModel<int>>,
    pub next_id: int,
    pub failure: Option<QuestionError>,
}

/// Effect of inserting `items` one by one, "insert as you go": the run stops
/// at the first element that fails validation (or when the identifier space
/// runs out), and everything inserted before the failure stays inserted.
pub open spec fn insert_all(
    s: Seq<QuestionModel<int>>,
    next: int,
    items: Seq<PayloadValue>,
) -> BatchOutcome
    decreases items.len(),
{
    if items.len() == 0 {
        BatchOutcome { questions: s, next_id: next, failure: None }
    } else if !valid_new_question(items[0]) {
        BatchOutcome { questions: s, next_id: next, failure: Some(QuestionError::InvalidPayload) }
    } else if next >= i32::MAX {
        BatchOutcome { questions: s, next_id: next, failure: Some(QuestionError::Internal) }
    } else {
        insert_all(
            s.push(new_record(next, new_question_of(items[0]))),
            next + 1,
            items.drop_first(),
        )
    }
}

/// The elements a create payload asks to insert: an array's elements, or
/// the single object itself.
pub open spec fn payload_items(p: PayloadValue) -> Seq<PayloadValue> {
    match p {
        PayloadValue::Array(items) => items@,
        PayloadValue::Object(_) => seq![p],
        _ => Seq::empty(),
    }
}

/// The record an update leaves stored: the same identifier, with the fields
/// present in the payload overwriting the existing ones.
pub open spec fn updated_record(ex: QuestionModel<int>, p: PayloadValue) -> QuestionModel<int> {
    new_record(ex.question_id, merged(fields_of(ex), p))
}

/// Every record, ordered by ascending identifier, as copies.
pub fn fetch_all_questions(bank: &QuestionBank) -> (r: Vec<QuestionStructure>)
    requires
        bank.wf(),
    ensures
        r.deep_view() == bank@,
        ordered_by_id(r.deep_view()),
{
    bank.list()
}

/// The record carrying `q_id`, or `NotFound` when no record does.
pub fn get_question_by_id(bank: &QuestionBank, q_id: i32) -> (r: Result<
    QuestionStructure,
    QuestionError,
>)
    ensures
        r is Ok <==> has_id(bank@, q_id as int),
        r matches Ok(q) ==> record_with_id(bank@, q_id as int) == Some(q@),
        r matches Err(e) ==> e == QuestionError::NotFound,
{
    bank.get(q_id)
}

/// Deletes the record carrying `q_id`.  On `NotFound` the collection is
/// left exactly as it was.
pub fn delete_question(bank: &mut QuestionBank, q_id: i32) -> (r: Result<(), QuestionError>)
    requires
        old(bank).wf(),
    ensures
        final(bank).wf(),
        final(bank)@ == remove_id(old(bank)@, q_id as int),
        final(bank).spec_next_id() == old(bank).spec_next_id(),
        r is Ok <==> has_id(old(bank)@, q_id as int),
        r matches Err(e) ==> e == QuestionError::NotFound && final(bank)@ == old(bank)@,
{
    bank.delete(q_id)
}

/// Validates one create payload and persists it.  An invalid payload is
/// rejected with `InvalidPayload` and nothing is written; identifier-space
/// exhaustion is reported as `Internal`, again with nothing written.
pub fn insert_question(bank: &mut QuestionBank, question: &PayloadValue) -> (r: Result<
    QuestionStructure,
    QuestionError,
>)
    requires
        old(bank).wf(),
    ensures
        final(bank).wf(),
        !valid_new_question(*question) ==> {
            &&& r matches Err(e) && e == QuestionError::InvalidPayload
            &&& final(bank)@ == old(bank)@
            &&& final(bank).spec_next_id() == old(bank).spec_next_id()
        },
        valid_new_question(*question) && old(bank).can_insert() ==> {
            &&& r matches Ok(q) && q@ == new_record(
                old(bank).spec_next_id(),
                new_question_of(*question),
            )
            &&& final(bank)@ == old(bank)@.push(
                new_record(old(bank).spec_next_id(), new_question_of(*question)),
            )
            &&& final(bank).spec_next_id() == old(bank).spec_next_id() + 1
        },
        valid_new_question(*question) && !old(bank).can_insert() ==> {
            &&& r matches Err(e) && e == QuestionError::Internal
            &&& final(bank)@ == old(bank)@
            &&& final(bank).spec_next_id() == old(bank).spec_next_id()
        },
{
    match validate_new_question(question) {
        Ok(nq) => bank.insert(nq),
        Err(e) => Err(e),
    }
}

/// Create endpoint: accepts one object or an array of objects and inserts
/// them in order, "insert as you go"; a failure stops the run but keeps
/// everything inserted before it.  Any other body is rejected with
/// `InvalidPayload`.  On success the number of inserted records is
/// returned.
pub fn add_questions(bank: &mut QuestionBank, input: &PayloadValue) -> (r: Result<
    usize,
    QuestionError,
>)
    requires
        old(bank).wf(),
    ensures
        final(bank).wf(),
        (*input is Array || *input is Object) ==> ({
            let o = insert_all(old(bank)@, old(bank).spec_next_id(), payload_items(*input));
            &&& final(bank)@ == o.questions
            &&& final(bank).spec_next_id() == o.next_id
            &&& (r is Ok <==> o.failure is None)
            &&& (r matches Ok(n) ==> n == payload_items(*input).len())
            &&& (r matches Err(e) ==> o.failure == Some(e))
        }),
        !(*input is Array || *input is Object) ==> {
            &&& r matches Err(e) && e == QuestionError::InvalidPayload
            &&& final(bank)@ == old(bank)@
            &&& final(bank).spec_next_id() == old(bank).spec_next_id()
        },
{
    match input {
        PayloadValue::Array(items) => {
            let n = items.len();
            let mut i: usize = 0;
            proof {
                assert(items@.skip(0) =~= items@);
            }
            while i < n
                invariant
                    i <= n,
                    n == items@.len(),
                    bank.wf(),
                    *input == PayloadValue::Array(*items),
                    insert_all(old(bank)@, old(bank).spec_next_id(), items@) == insert_all(
                        bank@,
                        bank.spec_next_id(),
                        items@.skip(i as int),
                    ),
                decreases n - i,
            {
                proof {
                    assert(items@.skip(i as int)[0] == items@[i as int]);
                    assert(items@.skip(i as int).drop_first() =~= items@.skip(i as int + 1));
                }
                match insert_question(bank, &items[i]) {
                    Ok(_) => {},
                    Err(e) => {
                        return Err(e);
                    },
                }
                i = i + 1;
            }
            proof {
                assert(items@.skip(n as int) =~= Seq::<PayloadValue>::empty());
            }
            Ok(n)
        },
        PayloadValue::Object(_) => {
            proof {
                assert(payload_items(*input) =~= seq![*input]);
                assert(seq![*input][0] == *input);
                assert(seq![*input].drop_first() =~= Seq::<PayloadValue>::empty());
            }
            match insert_question(bank, input) {
                Ok(_) => {
                    proof {
                        assert(insert_all(
                            bank@,
                            bank.spec_next_id(),
                            Seq::<PayloadValue>::empty(),
                        ) == BatchOutcome {
                            questions: bank@,
                            next_id: bank.spec_next_id(),
                            failure: None::<QuestionError>,
                        });
                    }
                    Ok(1)
                },
                Err(e) => Err(e),
            }
        },
        _ => Err(QuestionError::InvalidPayload),
    }
}

/// Update endpoint, merge-then-replace: reads the existing record (failing
/// with `NotFound` before anything is written), overwrites the fields the
/// payload supplies with the right type, keeps the fields it lacks, rejects
/// a wrongly-typed present field with `InvalidPayload` without applying any
/// part of the change, and writes the working copy back as one full
/// replace.  On success the stored record is returned.
pub fn update_question(bank: &mut QuestionBank, q_id: i32, payload: &PayloadValue) -> (r: Result<
    QuestionStructure,
    QuestionError,
>)
    requires
        old(bank).wf(),
    ensures
        final(bank).wf(),
        final(bank).spec_next_id() == old(bank).spec_next_id(),
        !has_id(old(bank)@, q_id as int) ==> {
            &&& r matches Err(e) && e == QuestionError::NotFound
            &&& final(bank)@ == old(bank)@
        },
        has_id(old(bank)@, q_id as int) && !merge_valid(*payload) ==> {
            &&& r matches Err(e) && e == QuestionError::InvalidPayload
            &&& final(bank)@ == old(bank)@
        },
        has_id(old(bank)@, q_id as int) && merge_valid(*payload) ==> {
            &&& record_with_id(old(bank)@, q_id as int) matches Some(ex)
            &&& r matches Ok(q) && q@ == updated_record(ex, *payload)
            &&& final(bank)@ == replace_id(old(bank)@, q_id as int, updated_record(ex, *payload))
        },
{
    let existing = match bank.get(q_id) {
        Ok(q) => q,
        Err(e) => {
            return Err(e);
        },
    };
    proof {
        lemma_id_index(bank@, q_id as int);
    }
    let updated = match merge_fields(
        &existing.question_title,
        &existing.type_of_content,
        &existing.type_of_question,
        payload,
    ) {
        Ok(nq) => nq,
        Err(e) => {
            return Err(e);
        },
    };
    let record = QuestionStructure {
        question_id: existing.question_id,
        question_title: updated.question_title,
        type_of_content: updated.type_of_content,
        type_of_question: updated.type_of_question,
    };
    let copy = record.clone();
    match bank.replace(q_id, record) {
        Ok(_) => Ok(copy),
        Err(_) => {
            proof {
                assert(false);
            }
            Err(QuestionError::Internal)
        },
    }
}

/// A batch whose elements are all valid (and which the identifier space can
/// hold) inserts every element, in order and under consecutive identifiers:
/// the collection grows by exactly the batch's length.
pub proof fn lemma_batch_all_valid(
    s: Seq<QuestionModel<int>>,
    next: int,
    items: Seq<PayloadValue>,
)
    requires
        forall|k: int| 0 <= k < items.len() ==> valid_new_question(#[trigger] items[k]),
        next + items.len() <= i32::MAX,
    ensures
        insert_all(s, next, items).failure is None,
        insert_all(s, next, items).next_id == next + items.len(),
        insert_all(s, next, items).questions == s + Seq::new(
            items.len(),
            |k: int| new_record(next + k, new_question_of(items[k])),
        ),
    decreases items.len(),
{
    if items.len() == 0 {
        assert(insert_all(s, next, items).questions =~= s + Seq::new(
            0,
            |k: int| new_record(next + k, new_question_of(items[k])),
        ));
    } else {
        let rec = new_record(next, new_question_of(items[0]));
        let rest = items.drop_first();
        assert forall|k: int| 0 <= k < rest.len() implies valid_new_question(
            #[trigger] rest[k],
        ) by {
            assert(rest[k] == items[k + 1]);
        }
        lemma_batch_all_valid(s.push(rec), next + 1, rest);
        assert forall|idx: int| 0 <= idx < rest.len() implies #[trigger] rest[idx] == items[idx
            + 1] by {}
        assert(s.push(rec) + Seq::new(
            rest.len(),
            |k: int| new_record(next + 1 + k, new_question_of(rest[k])),
        ) =~= s + Seq::new(items.len(), |k: int| new_record(next + k, new_question_of(items[k]))));
    }
}

/// Batch create stops at the first invalid element: every element before it
/// is persisted, in order and under consecutive identifiers, nothing after
/// it is, and the batch reports `InvalidPayload`.
pub proof fn lemma_batch_stops_at_first_invalid(
    s: Seq<QuestionModel<int>>,
    next: int,
    items: Seq<PayloadValue>,
    j: int,
)
    requires
        0 <= j < items.len(),
        !valid_new_question(items[j]),
        forall|k: int| 0 <= k < j ==> valid_new_question(#[trigger] items[k]),
        next + j < i32::MAX,
    ensures
        insert_all(s, next, items).failure == Some(QuestionError::InvalidPayload),
        insert_all(s, next, items).next_id == next + j,
        insert_all(s, next, items).questions == s + Seq::new(
            j as nat,
            |k: int| new_record(next + k, new_question_of(items[k])),
        ),
    decreases j,
{
    if j == 0 {
        assert(insert_all(s, next, items).questions =~= s + Seq::new(
            0,
            |k: int| new_record(next + k, new_question_of(items[k])),
        ));
    } else {
        let rec = new_record(next, new_question_of(items[0]));
        let rest = items.drop_first();
        assert forall|k: int| 0 <= k < j - 1 implies valid_new_question(#[trigger] rest[k]) by {
            assert(rest[k] == items[k + 1]);
        }
        assert(rest[j - 1] == items[j]);
        lemma_batch_stops_at_first_invalid(s.push(rec), next + 1, rest, j - 1);
        assert forall|idx: int| 0 <= idx < j - 1 implies #[trigger] rest[idx] == items[idx + 1] by {}
        assert(s.push(rec) + Seq::new(
            (j - 1) as nat,
            |k: int| new_record(next + 1 + k, new_question_of(rest[k])),
        ) =~= s + Seq::new(j as nat, |k: int| new_record(next + k, new_question_of(items[k]))));
    }
}

} // verus!
