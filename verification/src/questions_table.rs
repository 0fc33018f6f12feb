//! The integer-keyed persistence backend: an ordered collection of question
//! records whose identifiers the backend itself assigns sequentially, the
//! way a relational table with a generated integer primary key behaves.

use vstd::pervasive::VecAdditionalExecFns;
use vstd::prelude::*;

use crate::errors::QuestionError;
use crate::model::{
    has_id, id_index, ids_unique, lemma_id_index, new_record, record_with_id, remove_id,
    replace_id, QuestionModel,
};
use crate::payload::{clone_string_vec, NewQuestion};

verus! {

/// One question record of the integer-keyed backend.
#[derive(Debug)]
pub struct QuestionStructure {
    pub question_id: i32,
    pub question_title: String,
    pub type_of_content: String,
    pub type_of_question: Vec<String>,
}

impl View for QuestionStructure {
    type V = QuestionModel<int>;

    open spec fn view(&self) -> QuestionModel<int> {
        QuestionModel {
            question_id: self.question_id as int,
            question_title: self.question_title@,
            type_of_content: self.type_of_content@,
            type_of_question: self.type_of_question.deep_view(),
        }
    }
}

impl DeepView for QuestionStructure {
    type V = QuestionModel<int>;

    open spec fn deep_view(&self) -> QuestionModel<int> {
        self.view()
    }
}

impl Clone for QuestionStructure {
    /// Copies the record; the backend hands out copies, never live
    /// references into its collection.
    fn clone(&self) -> (r: Self)
        ensures
            r@ == self@,
    {
        QuestionStructure {
            question_id: self.question_id,
            question_title: self.question_title.clone(),
            type_of_content: self.type_of_content.clone(),
            type_of_question: clone_string_vec(&self.type_of_question),
        }
    }
}

/// Records sorted strictly by ascending identifier.
pub open spec fn ordered_by_id(s: Seq<QuestionModel<int>>) -> bool {
    forall|i: int, j: int|
        0 <= i < j < s.len() ==> #[trigger] s[i].question_id < #[trigger] s[j].question_id
}

/// Records listed in strictly ascending identifier order carry no
/// identifier twice: the backend's ordering gives the data model's
/// uniqueness invariant.
pub proof fn lemma_ordered_ids_unique(s: Seq<QuestionModel<int>>)
    requires
        ordered_by_id(s),
    ensures
        ids_unique(s),
{
    assert forall|i: int, j: int|
        0 <= i < j < s.len() implies s[i].question_id != s[j].question_id by {
        assert(s[i].question_id < s[j].question_id);
    }
}

/// The integer-keyed backend.  Records are kept in ascending identifier
/// order, and identifiers are assigned from a counter that every record
/// stays below, so a fresh identifier never collides with a live record.
pub struct QuestionBank {
    questions: Vec<QuestionStructure>,
    next_id: i32,
}

impl View for QuestionBank {
    type V = Seq<QuestionModel<int>>;

    closed spec fn view(&self) -> Seq<QuestionModel<int>> {
        self.questions.deep_view()
    }
}

impl QuestionBank {
    /// The identifier the next accepted insert will be assigned.
    pub closed spec fn spec_next_id(&self) -> int {
        self.next_id as int
    }

    /// Well-formed: records ascend strictly by identifier, and every
    /// identifier is below the next one to be assigned.
    pub open spec fn wf(&self) -> bool {
        &&& ordered_by_id(self@)
        &&& forall|k: int|
            0 <= k < self@.len() ==> #[trigger] self@[k].question_id < self.spec_next_id()
        &&& 1 <= self.spec_next_id() <= i32::MAX
    }

    /// Whether the identifier space still has room for one more record.
    pub open spec fn can_insert(&self) -> bool {
        self.spec_next_id() < i32::MAX
    }

    /// An empty backend; the first record will get identifier 1.
    pub fn new() -> (r: Self)
        ensures
            r.wf(),
            r@ == Seq::<QuestionModel<int>>::empty(),
            r.spec_next_id() == 1,
    {
        let r = QuestionBank { questions: Vec::new(), next_id: 1 };
        proof {
            assert(r@ =~= Seq::<QuestionModel<int>>::empty());
        }
        r
    }

    /// Position of the record carrying `q_id` in the collection, if any.
    fn index_of(&self, q_id: i32) -> (r: Option<usize>)
        ensures
            match r {
                Some(i) => i < self@.len() && id_index(self@, q_id as int) == Some(i as int),
                None => id_index(self@, q_id as int) is None,
            },
    {
        let n = self.questions.len();
        let mut i: usize = 0;
        while i < n
            invariant
                i <= n,
                n == self.questions@.len(),
                forall|k: int|
                    0 <= k < i ==> #[trigger] self.questions.deep_view()[k].question_id != q_id
                        as int,
            decreases n - i,
        {
            if self.questions[i].question_id == q_id {
                proof {
                    lemma_id_index(self@, q_id as int);
                    assert(self@[i as int].question_id == q_id as int);
                    match id_index(self@, q_id as int) {
                        Some(j) => {
                            if j < i as int {
                                assert(self@[j].question_id != q_id as int);
                            }
                            assert(j == i as int);
                        },
                        None => {
                            assert(false);
                        },
                    }
                }
                return Some(i);
            }
            i = i + 1;
        }
        proof {
            lemma_id_index(self@, q_id as int);
        }
        None
    }

    /// The record stored under `q_id`, as a copy, or `NotFound` when no
    /// record carries that identifier.
    pub fn get(&self, q_id: i32) -> (r: Result<QuestionStructure, QuestionError>)
        ensures
            r is Ok <==> has_id(self@, q_id as int),
            r matches Ok(q) ==> record_with_id(self@, q_id as int) == Some(q@),
            r matches Err(e) ==> e == QuestionError::NotFound,
    {
        match self.index_of(q_id) {
            Some(i) => Ok(self.questions[i].clone()),
            None => Err(QuestionError::NotFound),
        }
    }

    /// Every record, in ascending identifier order, as copies.
    pub fn list(&self) -> (r: Vec<QuestionStructure>)
        requires
            self.wf(),
        ensures
            r.deep_view() == self@,
            ordered_by_id(r.deep_view()),
    {
        let n = self.questions.len();
        let mut out: Vec<QuestionStructure> = Vec::new();
        let mut i: usize = 0;
        proof {
            assert(out.deep_view() =~= self@.take(0));
        }
        while i < n
            invariant
                i <= n,
                n == self.questions@.len(),
                out.deep_view() == self@.take(i as int),
            decreases n - i,
        {
            let ghost prev = out.deep_view();
            out.push(self.questions[i].clone());
            proof {
                assert(out.deep_view() =~= prev.push(self.questions@[i as int]@));
                assert(self@.take(i as int + 1) =~= self@.take(i as int).push(self@[i as int]));
            }
            i = i + 1;
        }
        proof {
            assert(self@.take(n as int) =~= self@);
        }
        out
    }

    /// Persists a validated create request under a fresh identifier and
    /// returns a copy of the stored record.  Fails with `Internal` exactly
    /// when the identifier space is exhausted, in which case nothing
    /// changes.
    pub fn insert(&mut self, input: NewQuestion) -> (r: Result<QuestionStructure, QuestionError>)
        requires
            old(self).wf(),
        ensures
            final(self).wf(),
            old(self).can_insert() ==> {
                &&& r matches Ok(q) && q@ == new_record(old(self).spec_next_id(), input@)
                &&& final(self)@ == old(self)@.push(new_record(old(self).spec_next_id(), input@))
                &&& final(self).spec_next_id() == old(self).spec_next_id() + 1
            },
            !old(self).can_insert() ==> {
                &&& r matches Err(e) && e == QuestionError::Internal
                &&& final(self)@ == old(self)@
                &&& final(self).spec_next_id() == old(self).spec_next_id()
            },
    {
        if self.next_id == i32::MAX {
            return Err(QuestionError::Internal);
        }
        let id = self.next_id;
        self.next_id = self.next_id + 1;
        let record = QuestionStructure {
            question_id: id,
            question_title: input.question_title,
            type_of_content: input.type_of_content,
            type_of_question: input.type_of_question,
        };
        let copy = record.clone();
        proof {
            assert(record@ == new_record(old(self).spec_next_id(), input@));
        }
        self.questions.push(record);
        proof {
            assert(self@ =~= old(self)@.push(new_record(old(self).spec_next_id(), input@)));
        }
        Ok(copy)
    }

    /// Deletes the record carrying `q_id`; fails with `NotFound`, changing
    /// nothing, when no record carries that identifier.
    pub fn delete(&mut self, q_id: i32) -> (r: Result<(), QuestionError>)
        requires
            old(self).wf(),
        ensures
            final(self).wf(),
            final(self)@ == remove_id(old(self)@, q_id as int),
            final(self).spec_next_id() == old(self).spec_next_id(),
            r is Ok <==> has_id(old(self)@, q_id as int),
            r matches Err(e) ==> e == QuestionError::NotFound && final(self)@ == old(self)@,
    {
        match self.index_of(q_id) {
            Some(i) => {
                self.questions.remove(i);
                proof {
                    old(self)@.remove_ensures(i as int);
                    old(self).questions@.remove_ensures(i as int);
                    assert(self@ =~= old(self)@.remove(i as int));
                }
                Ok(())
            },
            None => Err(QuestionError::NotFound),
        }
    }

    /// Replaces the record carrying `q_id` with `record`, which must carry
    /// that same identifier; fails with `NotFound`, changing nothing, when
    /// no record carries it.
    pub fn replace(&mut self, q_id: i32, record: QuestionStructure) -> (r: Result<
        (),
        QuestionError,
    >)
        requires
            old(self).wf(),
            record.question_id == q_id,
        ensures
            final(self).wf(),
            final(self)@ == replace_id(old(self)@, q_id as int, record@),
            final(self).spec_next_id() == old(self).spec_next_id(),
            r is Ok <==> has_id(old(self)@, q_id as int),
            r matches Err(e) ==> e == QuestionError::NotFound && final(self)@ == old(self)@,
    {
        match self.index_of(q_id) {
            Some(i) => {
                proof {
                    lemma_id_index(old(self)@, q_id as int);
                }
                self.questions.set(i, record);
                proof {
                    assert(self@ =~= old(self)@.update(i as int, record@));
                }
                Ok(())
            },
            None => Err(QuestionError::NotFound),
        }
    }
}

} // verus!
