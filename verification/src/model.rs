//! Mathematical model of a question collection, shared by both persistence
//! backends: records are a sequence, and every operation is defined through
//! the position of the first record carrying a given identifier.
//!
//! The proof functions at the end state the laws that hold of any backend
//! built on these definitions.

use vstd::prelude::*;

verus! {

/// Mathematical value of one question record, generic in the identifier
/// type (the integer-keyed backend uses `int`, the string-keyed one
/// `Seq<char>`).
pub ghost struct QuestionModel<Id> {
    pub question_id: Id,
    pub question_title: Seq<char>,
    pub type_of_content: Seq<char>,
    pub type_of_question: Seq<Seq<char>>,
}

/// Mathematical value of a validated create request: the three caller-owned
/// fields of a record, before a backend assigns the identifier.
pub ghost struct NewQuestionModel {
    pub question_title: Seq<char>,
    pub type_of_content: Seq<char>,
    pub type_of_question: Seq<Seq<char>>,
}

/// The record a backend persists for `input` under identifier `id`.
pub open spec fn new_record<Id>(id: Id, input: NewQuestionModel) -> QuestionModel<Id> {
    QuestionModel {
        question_id: id,
        question_title: input.question_title,
        type_of_content: input.type_of_content,
        type_of_question: input.type_of_question,
    }
}

/// The caller-owned fields of a record, with the identifier projected away.
pub open spec fn fields_of<Id>(q: QuestionModel<Id>) -> NewQuestionModel {
    NewQuestionModel {
        question_title: q.question_title,
        type_of_content: q.type_of_content,
        type_of_question: q.type_of_question,
    }
}

/// Position of the first record carrying `id`, if any record does.
pub open spec fn id_index<Id>(s: Seq<QuestionModel<Id>>, id: Id) -> Option<int>
    decreases s.len(),
{
    if s.len() == 0 {
        None
    } else if s[0].question_id == id {
        Some(0int)
    } else {
        match id_index(s.drop_first(), id) {
            Some(i) => Some(i + 1),
            None => None,
        }
    }
}

/// Whether some record carries `id`.
pub open spec fn has_id<Id>(s: Seq<QuestionModel<Id>>, id: Id) -> bool {
    id_index(s, id) is Some
}

/// The record stored under `id`, if any.
pub open spec fn record_with_id<Id>(s: Seq<QuestionModel<Id>>, id: Id) -> Option<
    QuestionModel<Id>,
> {
    match id_index(s, id) {
        Some(i) => Some(s[i]),
        None => None,
    }
}

/// The collection after deleting the record carrying `id`; unchanged when no
/// record carries it.
pub open spec fn remove_id<Id>(s: Seq<QuestionModel<Id>>, id: Id) -> Seq<QuestionModel<Id>> {
    match id_index(s, id) {
        Some(i) => s.remove(i),
        None => s,
    }
}

/// The collection after replacing the record carrying `id` with `q`;
/// unchanged when no record carries it.
pub open spec fn replace_id<Id>(s: Seq<QuestionModel<Id>>, id: Id, q: QuestionModel<Id>) -> Seq<
    QuestionModel<Id>,
> {
    match id_index(s, id) {
        Some(i) => s.update(i, q),
        None => s,
    }
}

/// No two records carry the same identifier.
pub open spec fn ids_unique<Id>(s: Seq<QuestionModel<Id>>) -> bool {
    forall|i: int, j: int|
        0 <= i < j < s.len() ==> s[i].question_id != s[j].question_id
}

/// What `id_index` finds: either the first position carrying `id`, or a
/// guarantee that no position carries it.
pub proof fn lemma_id_index<Id>(s: Seq<QuestionModel<Id>>, id: Id)
    ensures
        match id_index(s, id) {
            Some(i) => 0 <= i < s.len() && s[i].question_id == id && forall|k: int|
                0 <= k < i ==> s[k].question_id != id,
            None => forall|k: int| 0 <= k < s.len() ==> s[k].question_id != id,
        },
    decreases s.len(),
{
    if s.len() == 0 {
    } else if s[0].question_id == id {
    } else {
        lemma_id_index(s.drop_first(), id);
        match id_index(s.drop_first(), id) {
            Some(i) => {
                assert(s.drop_first()[i] == s[i + 1]);
                assert forall|k: int| 0 <= k < i + 1 implies s[k].question_id != id by {
                    if k > 0 {
                        assert(s.drop_first()[k - 1] == s[k]);
                    }
                }
            },
            None => {
                assert forall|k: int| 0 <= k < s.len() implies s[k].question_id != id by {
                    if k > 0 {
                        assert(s.drop_first()[k - 1] == s[k]);
                    }
                }
            },
        }
    }
}

/// Appending a record with a different identifier does not change where `id`
/// is found.
pub proof fn lemma_id_index_push_other<Id>(
    s: Seq<QuestionModel<Id>>,
    rec: QuestionModel<Id>,
    id: Id,
)
    requires
        rec.question_id != id,
    ensures
        id_index(s.push(rec), id) == id_index(s, id),
{
    let p = s.push(rec);
    lemma_id_index(s, id);
    lemma_id_index(p, id);
    match (id_index(s, id), id_index(p, id)) {
        (Some(a), Some(b)) => {
            assert(p[a] == s[a]);
            assert(p[s.len() as int] == rec);
            if b < s.len() {
                assert(p[b] == s[b]);
            }
            assert(a == b);
        },
        (None, Some(b)) => {
            assert(p[s.len() as int] == rec);
            if b < s.len() {
                assert(p[b] == s[b]);
            }
            assert(false);
        },
        (Some(a), None) => {
            assert(p[a] == s[a]);
            assert(false);
        },
        (None, None) => {},
    }
}

/// Round trip: after a record with a fresh identifier is appended, looking
/// that identifier up returns exactly the appended record.
pub proof fn lemma_insert_then_get<Id>(s: Seq<QuestionModel<Id>>, rec: QuestionModel<Id>)
    requires
        forall|k: int| 0 <= k < s.len() ==> s[k].question_id != rec.question_id,
    ensures
        record_with_id(s.push(rec), rec.question_id) == Some(rec),
{
    let p = s.push(rec);
    lemma_id_index(p, rec.question_id);
    assert(p[s.len() as int] == rec);
    match id_index(p, rec.question_id) {
        Some(i) => {
            if i < s.len() {
                assert(p[i] == s[i]);
            }
            assert(i == s.len());
        },
        None => {
            assert(false);
        },
    }
}

/// A created record carries exactly the validated input fields, under the
/// assigned identifier.
pub proof fn lemma_create_preserves_fields<Id>(id: Id, input: NewQuestionModel)
    ensures
        new_record(id, input).question_id == id,
        new_record(id, input).question_title == input.question_title,
        new_record(id, input).type_of_content == input.type_of_content,
        new_record(id, input).type_of_question == input.type_of_question,
{
}

/// Deleting an identifier that no record carries leaves the collection
/// unchanged.
pub proof fn lemma_remove_absent<Id>(s: Seq<QuestionModel<Id>>, id: Id)
    requires
        forall|k: int| 0 <= k < s.len() ==> s[k].question_id != id,
    ensures
        remove_id(s, id) == s,
{
    lemma_id_index(s, id);
}

/// Replacing under an identifier that no record carries leaves the
/// collection unchanged.
pub proof fn lemma_replace_absent<Id>(s: Seq<QuestionModel<Id>>, id: Id, q: QuestionModel<Id>)
    requires
        forall|k: int| 0 <= k < s.len() ==> s[k].question_id != id,
    ensures
        replace_id(s, id, q) == s,
{
    lemma_id_index(s, id);
}

/// Deleting an identifier that a record does carry removes exactly one
/// record.
pub proof fn lemma_remove_present_len<Id>(s: Seq<QuestionModel<Id>>, id: Id)
    requires
        has_id(s, id),
    ensures
        remove_id(s, id).len() == s.len() - 1,
{
    lemma_id_index(s, id);
}

/// Deleting one identifier does not disturb whether any other identifier is
/// live.
pub proof fn lemma_remove_id_preserves_other<Id>(s: Seq<QuestionModel<Id>>, id: Id, other: Id)
    requires
        other != id,
    ensures
        has_id(remove_id(s, id), other) == has_id(s, other),
{
    lemma_id_index(s, id);
    match id_index(s, id) {
        Some(i) => {
            s.remove_ensures(i);
            let t = s.remove(i);
            lemma_id_index(s, other);
            lemma_id_index(t, other);
            match id_index(s, other) {
                Some(k) => {
                    if id_index(t, other) is None {
                        if k < i {
                            assert(t[k] == s[k]);
                        } else {
                            assert(t[k - 1] == s[k]);
                        }
                        assert(false);
                    }
                },
                None => {
                    match id_index(t, other) {
                        Some(j) => {
                            if j < i {
                                assert(t[j] == s[j]);
                            } else {
                                assert(t[j] == s[j + 1]);
                            }
                            assert(false);
                        },
                        None => {},
                    }
                },
            }
        },
        None => {},
    }
}

/// The collection after deleting each identifier in `ids`, in order.
pub open spec fn remove_all<Id>(s: Seq<QuestionModel<Id>>, ids: Seq<Id>) -> Seq<QuestionModel<Id>>
    decreases ids.len(),
{
    if ids.len() == 0 {
        s
    } else {
        remove_all(remove_id(s, ids[0]), ids.drop_first())
    }
}

/// Deleting several distinct, live identifiers removes exactly one record
/// each; with every create adding exactly one record, a run of creates and
/// deletes leaves exactly their difference behind.
pub proof fn lemma_remove_all_count<Id>(s: Seq<QuestionModel<Id>>, ids: Seq<Id>)
    requires
        forall|k: int, l: int| 0 <= k < l < ids.len() ==> ids[k] != ids[l],
        forall|k: int| 0 <= k < ids.len() ==> has_id(s, #[trigger] ids[k]),
    ensures
        remove_all(s, ids).len() == s.len() - ids.len(),
    decreases ids.len(),
{
    if ids.len() > 0 {
        lemma_remove_present_len(s, ids[0]);
        let t = remove_id(s, ids[0]);
        let rest = ids.drop_first();
        assert forall|k: int| 0 <= k < rest.len() implies has_id(t, #[trigger] rest[k]) by {
            assert(rest[k] == ids[k + 1]);
            lemma_remove_id_preserves_other(s, ids[0], ids[k + 1]);
        }
        assert forall|k: int, l: int| 0 <= k < l < rest.len() implies rest[k] != rest[l] by {
            assert(rest[k] == ids[k + 1]);
            assert(rest[l] == ids[l + 1]);
        }
        lemma_remove_all_count(t, rest);
    }
}

/// Creating one record and deleting another, different identifier reach the
/// same collection in either order.
pub proof fn lemma_create_delete_commute<Id>(
    s: Seq<QuestionModel<Id>>,
    rec: QuestionModel<Id>,
    id: Id,
)
    requires
        rec.question_id != id,
    ensures
        remove_id(s.push(rec), id) == remove_id(s, id).push(rec),
{
    lemma_id_index_push_other(s, rec, id);
    lemma_id_index(s, id);
    match id_index(s, id) {
        Some(i) => {
            assert(s.push(rec).remove(i) =~= s.remove(i).push(rec));
        },
        None => {},
    }
}

} // verus!
