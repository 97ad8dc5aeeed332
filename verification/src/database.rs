//! Persistence abstraction: the repository contract the pipeline saves
//! through, and a fully in-memory implementation.
//!
//! A repository is modelled by the sequence of records it holds and by which
//! batches it accepts. One `save_batch` call is atomic from the caller's
//! point of view: either every record in the call is appended and assigned
//! its identifier, or none is and the store is unchanged.

use vstd::prelude::*;
use crate::models::{Question, QuestionType};

verus! {

/// Failure reported by a persistence backend.
#[derive(Debug)]
pub struct RepoError {
    /// What the backend reported
    pub message: String,
}

/// Two question values that carry the same record: the same content view,
/// identifier and creation time.
pub open spec fn same_record(a: Question, b: Question) -> bool {
    a@ == b@ && a.id == b.id && a.created_at == b.created_at
}

/// The records of one type, in store order.
pub open spec fn of_type(s: Seq<Question>, qtype: QuestionType) -> Seq<Question>
    decreases s.len(),
{
    if s.len() == 0 {
        Seq::empty()
    } else {
        let prev = of_type(s.drop_last(), qtype);
        if s.last().qtype == qtype {
            prev.push(s.last())
        } else {
            prev
        }
    }
}

/// Contract of a question store.
pub trait QuestionRepository: Sized {
    /// The records this repository holds, in insertion order.
    spec fn stored(&self) -> Seq<Question>;

    /// Whether this repository would accept a save of these records.
    spec fn batch_ok(&self, questions: Seq<Question>) -> bool;

    /// Save a batch of questions atomically: either all records are appended
    /// and their identifiers returned in order, or the call fails and the
    /// store is unchanged.
    fn save_batch(&mut self, questions: Vec<Question>) -> (r: Result<Vec<u128>, RepoError>)
        ensures
            r is Ok <==> old(self).batch_ok(questions@),
            r is Ok ==> final(self).stored() == old(self).stored() + questions@,
            r is Ok ==> r->Ok_0@ == questions@.map_values(|q: Question| q.id),
            r is Err ==> final(self).stored() == old(self).stored(),
    ;

    /// Find a stored record by its identifier: the first match, or nothing
    /// when no stored record has the identifier.
    fn find_by_id(&self, id: u128) -> (r: Option<Question>)
        ensures
            r is Some ==> r->0.id == id && exists|i: int|
                0 <= i < self.stored().len() && same_record(#[trigger] self.stored()[i], r->0),
            r is None ==> forall|i: int|
                0 <= i < self.stored().len() ==> (#[trigger] self.stored()[i]).id != id,
    ;

    /// All stored records of a given type, in store order.
    fn find_by_type(&self, qtype: QuestionType) -> (r: Vec<Question>)
        ensures
            r@.len() == of_type(self.stored(), qtype).len(),
            forall|i: int|
                0 <= i < r@.len() ==> same_record(
                    #[trigger] r@[i],
                    of_type(self.stored(), qtype)[i],
                ),
    ;
}

/// In-memory repository: holds every saved record and accepts every batch.
pub struct MockRepository {
    questions: Vec<Question>,
}

impl MockRepository {
    /// An empty in-memory repository.
    pub fn new() -> (r: Self)
        ensures
            r.stored() == Seq::<Question>::empty(),
    {
        let r = MockRepository { questions: Vec::new() };
        r
    }
}

impl Default for MockRepository {
    /// An empty in-memory repository.
    fn default() -> (r: Self)
        ensures
            r.stored() == Seq::<Question>::empty(),
    {
        MockRepository::new()
    }
}

impl QuestionRepository for MockRepository {
    closed spec fn stored(&self) -> Seq<Question> {
        self.questions@
    }

    open spec fn batch_ok(&self, questions: Seq<Question>) -> bool {
        true
    }

    fn save_batch(&mut self, questions: Vec<Question>) -> (r: Result<Vec<u128>, RepoError>) {
        let mut ids: Vec<u128> = Vec::new();
        let n = questions.len();
        for i in 0..n
            invariant
                n == questions@.len(),
                ids@ =~= questions@.take(i as int).map_values(|q: Question| q.id),
        {
            ids.push(questions[i].id);
            proof {
                assert(questions@.take(i + 1).map_values(|q: Question| q.id) =~= questions@.take(
                    i as int,
                ).map_values(|q: Question| q.id).push(questions@[i as int].id));
            }
        }
        proof {
            assert(questions@.take(n as int) =~= questions@);
        }
        let mut incoming = questions;
        self.questions.append(&mut incoming);
        Result::Ok(ids)
    }

    fn find_by_id(&self, id: u128) -> (r: Option<Question>) {
        let n = self.questions.len();
        for i in 0..n
            invariant
                n == self.questions@.len(),
                forall|j: int| 0 <= j < i ==> (#[trigger] self.questions@[j]).id != id,
        {
            if self.questions[i].id == id {
                return Option::Some(self.questions[i].duplicate());
            }
        }
        Option::None
    }

    fn find_by_type(&self, qtype: QuestionType) -> (r: Vec<Question>) {
        let mut out: Vec<Question> = Vec::new();
        let n = self.questions.len();
        for i in 0..n
            invariant
                n == self.questions@.len(),
                out@.len() == of_type(self.questions@.take(i as int), qtype).len(),
                forall|j: int|
                    0 <= j < out@.len() ==> same_record(
                        #[trigger] out@[j],
                        of_type(self.questions@.take(i as int), qtype)[j],
                    ),
        {
            proof {
                assert(self.questions@.take(i + 1).drop_last() =~= self.questions@.take(i as int));
                assert(self.questions@.take(i + 1).last() == self.questions@[i as int]);
            }
            if self.questions[i].qtype == qtype {
                out.push(self.questions[i].duplicate());
            }
        }
        proof {
            assert(self.questions@.take(n as int) =~= self.questions@);
        }
        out
    }
}

} // verus!
