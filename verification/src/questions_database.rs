//! The string-keyed persistence backend: an in-memory collection of
//! question records whose identifiers the clients supply, kept in insertion
//! order.  Inserting an identifier that is already live is a conflict, so
//! identifiers stay unique.

use vstd::pervasive::VecAdditionalExecFns;
use vstd::prelude::*;

use crate::errors::QuestionError;
use crate::model::{
    fields_of, has_id, id_index, ids_unique, lemma_id_index, new_record, record_with_id,
    remove_id, replace_id, QuestionModel,
};
use crate::payload::{clone_string_vec, merge_fields, merge_valid, merged, PayloadValue};

verus! {

/// One question record of the string-keyed backend.
#[derive(Debug)]
pub struct Question {
    pub question_id: String,
    pub question_title: String,
    pub type_of_content: String,
    pub type_of_question: Vec<String>,
}

impl View for Question {
    type V = QuestionModel<Seq<char>>;

    open spec fn view(&self) -> QuestionModel<Seq<char>> {
        QuestionModel {
            question_id: self.question_id@,
            question_title: self.question_title@,
            type_of_content: self.type_of_content@,
            type_of_question: self.type_of_question.deep_view(),
        }
    }
}

impl DeepView for Question {
    type V = QuestionModel<Seq<char>>;

    open spec fn deep_view(&self) -> QuestionModel<Seq<char>> {
        self.view()
    }
}

impl Clone for Question {
    /// Copies the record; the backend hands out copies, never live
    /// references into its collection.
    fn clone(&self) -> (r: Self)
        ensures
            r@ == self@,
    {
        Question {
            question_id: self.question_id.clone(),
            question_title: self.question_title.clone(),
            type_of_content: self.type_of_content.clone(),
            type_of_question: clone_string_vec(&self.type_of_question),
        }
    }
}

/// The string-keyed backend: records in insertion order, identifiers
/// unique.
pub struct QuestionsDatabase {
    questions: Vec<Question>,
}

impl View for QuestionsDatabase {
    type V = Seq<QuestionModel<Seq<char>>>;

    closed spec fn view(&self) -> Seq<QuestionModel<Seq<char>>> {
        self.questions.deep_view()
    }
}

impl QuestionsDatabase {
    /// Well-formed: no two records carry the same identifier.
    pub open spec fn wf(&self) -> bool {
        ids_unique(self@)
    }

    /// An empty backend.
    pub fn new() -> (r: Self)
        ensures
            r.wf(),
            r@ == Seq::<QuestionModel<Seq<char>>>::empty(),
    {
        let r = QuestionsDatabase { questions: Vec::new() };
        proof {
            assert(r@ =~= Seq::<QuestionModel<Seq<char>>>::empty());
        }
        r
    }

    /// Position of the record carrying `question_id`, if any.
    fn index_of(&self, question_id: &String) -> (r: Option<usize>)
        ensures
            match r {
                Some(i) => i < self@.len() && id_index(self@, question_id@) == Some(i as int),
                None => id_index(self@, question_id@) is None,
            },
    {
        let n = self.questions.len();
        let mut i: usize = 0;
        while i < n
            invariant
                i <= n,
                n == self.questions@.len(),
                forall|k: int|
                    0 <= k < i ==> #[trigger] self.questions.deep_view()[k].question_id
                        != question_id@,
            decreases n - i,
        {
            if self.questions[i].question_id == *question_id {
                proof {
                    lemma_id_index(self@, question_id@);
                    assert(self@[i as int].question_id == question_id@);
                    match id_index(self@, question_id@) {
                        Some(j) => {
                            if j < i as int {
                                assert(self@[j].question_id != question_id@);
                            }
                            assert(j == i as int);
                        },
                        None => {
                            assert(false);
                        },
                    }
                }
                return Some(i);
            }
            i = i + 1;
        }
        proof {
            lemma_id_index(self@, question_id@);
        }
        None
    }

    /// The record stored under `question_id`, as a copy, or `NotFound`.
    pub fn get(&self, question_id: &String) -> (r: Result<Question, QuestionError>)
        ensures
            r is Ok <==> has_id(self@, question_id@),
            r matches Ok(q) ==> record_with_id(self@, question_id@) == Some(q@),
            r matches Err(e) ==> e == QuestionError::NotFound,
    {
        match self.index_of(question_id) {
            Some(i) => Ok(self.questions[i].clone()),
            None => Err(QuestionError::NotFound),
        }
    }

    /// Every record, in insertion order, as copies.
    pub fn list(&self) -> (r: Vec<Question>)
        ensures
            r.deep_view() == self@,
    {
        let n = self.questions.len();
        let mut out: Vec<Question> = Vec::new();
        let mut i: usize = 0;
        proof {
            assert(out.deep_view() =~= self@.take(0));
        }
        while i < n
            invariant
                i <= n,
                n == self.questions@.len(),
                out.deep_view() == self@.take(i as int),
            decreases n - i,
        {
            let ghost prev = out.deep_view();
            out.push(self.questions[i].clone());
            proof {
                assert(out.deep_view() =~= prev.push(self.questions@[i as int]@));
                assert(self@.take(i as int + 1) =~= self@.take(i as int).push(self@[i as int]));
            }
            i = i + 1;
        }
        proof {
            assert(self@.take(n as int) =~= self@);
        }
        out
    }

    /// Persists a record under its client-supplied identifier; fails with
    /// `Conflict`, changing nothing, when a record already carries that
    /// identifier.
    pub fn insert(&mut self, question: Question) -> (r: Result<(), QuestionError>)
        requires
            old(self).wf(),
        ensures
            final(self).wf(),
            has_id(old(self)@, question@.question_id) ==> {
                &&& r matches Err(e) && e == QuestionError::Conflict
                &&& final(self)@ == old(self)@
            },
            !has_id(old(self)@, question@.question_id) ==> {
                &&& r is Ok
                &&& final(self)@ == old(self)@.push(question@)
            },
    {
        match self.index_of(&question.question_id) {
            Some(_) => Err(QuestionError::Conflict),
            None => {
                proof {
                    lemma_id_index(self@, question@.question_id);
                }
                let ghost q_view = question@;
                self.questions.push(question);
                proof {
                    assert(self@ =~= old(self)@.push(q_view));
                }
                Ok(())
            },
        }
    }

    /// Deletes the record carrying `question_id`; fails with `NotFound`,
    /// changing nothing, when no record carries it.
    pub fn delete(&mut self, question_id: &String) -> (r: Result<(), QuestionError>)
        requires
            old(self).wf(),
        ensures
            final(self).wf(),
            final(self)@ == remove_id(old(self)@, question_id@),
            r is Ok <==> has_id(old(self)@, question_id@),
            r matches Err(e) ==> e == QuestionError::NotFound && final(self)@ == old(self)@,
    {
        match self.index_of(question_id) {
            Some(i) => {
                self.questions.remove(i);
                proof {
                    old(self)@.remove_ensures(i as int);
                    old(self).questions@.remove_ensures(i as int);
                    assert(self@ =~= old(self)@.remove(i as int));
                }
                Ok(())
            },
            None => Err(QuestionError::NotFound),
        }
    }

    /// Replaces the record carrying `question_id` with `record`, which must
    /// carry that same identifier; fails with `NotFound`, changing nothing,
    /// when no record carries it.
    pub fn replace(&mut self, question_id: &String, record: Question) -> (r: Result<
        (),
        QuestionError,
    >)
        requires
            old(self).wf(),
            record@.question_id == question_id@,
        ensures
            final(self).wf(),
            final(self)@ == replace_id(old(self)@, question_id@, record@),
            r is Ok <==> has_id(old(self)@, question_id@),
            r matches Err(e) ==> e == QuestionError::NotFound && final(self)@ == old(self)@,
    {
        match self.index_of(question_id) {
            Some(i) => {
                proof {
                    lemma_id_index(old(self)@, question_id@);
                }
                self.questions.set(i, record);
                proof {
                    assert(self@ =~= old(self)@.update(i as int, record@));
                }
                Ok(())
            },
            None => Err(QuestionError::NotFound),
        }
    }

    /// Merge-then-replace update: reads the existing record (failing with
    /// `NotFound` before anything is written), merges the payload's
    /// well-typed present fields onto a working copy, rejects a
    /// wrongly-typed present field with `InvalidPayload` without applying
    /// any part of the change, and writes the working copy back as one full
    /// replace.  On success the stored record is returned.
    pub fn update(&mut self, question_id: &String, payload: &PayloadValue) -> (r: Result<
        Question,
        QuestionError,
    >)
        requires
            old(self).wf(),
        ensures
            final(self).wf(),
            !has_id(old(self)@, question_id@) ==> {
                &&& r matches Err(e) && e == QuestionError::NotFound
                &&& final(self)@ == old(self)@
            },
            has_id(old(self)@, question_id@) && !merge_valid(*payload) ==> {
                &&& r matches Err(e) && e == QuestionError::InvalidPayload
                &&& final(self)@ == old(self)@
            },
            has_id(old(self)@, question_id@) && merge_valid(*payload) ==> {
                &&& record_with_id(old(self)@, question_id@) matches Some(ex)
                &&& r matches Ok(q) && q@ == new_record(
                    ex.question_id,
                    merged(fields_of(ex), *payload),
                )
                &&& final(self)@ == replace_id(
                    old(self)@,
                    question_id@,
                    new_record(ex.question_id, merged(fields_of(ex), *payload)),
                )
            },
    {
        let existing = match self.get(question_id) {
            Ok(q) => q,
            Err(e) => {
                return Err(e);
            },
        };
        proof {
            lemma_id_index(self@, question_id@);
        }
        let updated = match merge_fields(
            &existing.question_title,
            &existing.type_of_content,
            &existing.type_of_question,
            payload,
        ) {
            Ok(nq) => nq,
            Err(e) => {
                return Err(e);
            },
        };
        let record = Question {
            question_id: existing.question_id,
            question_title: updated.question_title,
            type_of_content: updated.type_of_content,
            type_of_question: updated.type_of_question,
        };
        let copy = record.clone();
        match self.replace(question_id, record) {
            Ok(_) => Ok(copy),
            Err(_) => {
                proof {
                    assert(false);
                }
                Err(QuestionError::Internal)
            },
        }
    }
}

/// The seeded backend the in-memory service starts from: three greeting
/// questions under identifiers "1", "2" and "3".
pub fn initialize_questions_database() -> (r: QuestionsDatabase)
    ensures
        r.wf(),
        r@.len() == 3,
        r@[0] == (QuestionModel::<Seq<char>> {
            question_id: "1"@,
            question_title: "Hello"@,
            type_of_content: "How are you?"@,
            type_of_question: seq!["Greeting"@],
        }),
        r@[1] == (QuestionModel::<Seq<char>> {
            question_id: "2"@,
            question_title: "About work"@,
            type_of_content: "What do you do?."@,
            type_of_question: seq!["Greeting"@],
        }),
        r@[2] == (QuestionModel::<Seq<char>> {
            question_id: "3"@,
            question_title: "Hobby"@,
            type_of_content: "What do you like to do in your free time?."@,
            type_of_question: seq!["Greeting"@],
        }),
{
    let mut questions: Vec<Question> = Vec::new();

    let mut tags1: Vec<String> = Vec::new();
    tags1.push("Greeting".to_owned());
    proof {
        assert(tags1.deep_view() =~= seq!["Greeting"@]);
    }
    questions.push(
        Question {
            question_id: "1".to_owned(),
            question_title: "Hello".to_owned(),
            type_of_content: "How are you?".to_owned(),
            type_of_question: tags1,
        },
    );

    let mut tags2: Vec<String> = Vec::new();
    tags2.push("Greeting".to_owned());
    proof {
        assert(tags2.deep_view() =~= seq!["Greeting"@]);
    }
    questions.push(
        Question {
            question_id: "2".to_owned(),
            question_title: "About work".to_owned(),
            type_of_content: "What do you do?.".to_owned(),
            type_of_question: tags2,
        },
    );

    let mut tags3: Vec<String> = Vec::new();
    tags3.push("Greeting".to_owned());
    proof {
        assert(tags3.deep_view() =~= seq!["Greeting"@]);
    }
    questions.push(
        Question {
            question_id: "3".to_owned(),
            question_title: "Hobby".to_owned(),
            type_of_content: "What do you like to do in your free time?.".to_owned(),
            type_of_question: tags3,
        },
    );

    let r = QuestionsDatabase { questions };
    proof {
        reveal_strlit("1");
        reveal_strlit("2");
        reveal_strlit("3");
        assert("1"@[0] == '1' && "2"@[0] == '2' && "3"@[0] == '3');
        assert("1"@ != "2"@ && "1"@ != "3"@ && "2"@ != "3"@);
        assert(r@.len() == 3);
    }
    r
}

} // verus!
