//! The use-case layer: orchestrates store operations, surfaces each store
//! failure as a use-case error without downgrading it, and derives the
//! filtered and searched views from one consistent snapshot.

use vstd::prelude::*;
use crate::repository::{InMemoryTaskRepository, StoreView};
use crate::task::{
    spec_validate_description, with_status, CreateTask, Task, TaskValidationError, UpdateTask,
};
use crate::text::{contains_seq, lemma_contains_empty, lower_chars, lower_of, contains_slice};

verus! {

/// A use-case operation's failure, one variant per store failure kind.
#[derive(Debug)]
pub enum TaskError {
    NotFound(u64),
    Validation(TaskValidationError),
    InvalidOperation(String),
    Repository(String),
}

/// How the use-case layer surfaces a store failure: every kind is carried
/// over, none is downgraded or swallowed.
pub open spec fn spec_wrap_error(e: crate::repository::TaskError) -> TaskError {
    match e {
        crate::repository::TaskError::NotFound(id) => TaskError::NotFound(id),
        crate::repository::TaskError::ValidationError(v) => TaskError::Validation(v),
        crate::repository::TaskError::InvalidOperation(m) => TaskError::InvalidOperation(m),
        crate::repository::TaskError::RepositoryError(m) => TaskError::Repository(m),
    }
}

fn wrap_error(e: crate::repository::TaskError) -> (r: TaskError)
    ensures
        r == spec_wrap_error(e),
{
    match e {
        crate::repository::TaskError::NotFound(id) => TaskError::NotFound(id),
        crate::repository::TaskError::ValidationError(v) => TaskError::Validation(v),
        crate::repository::TaskError::InvalidOperation(m) => TaskError::InvalidOperation(m),
        crate::repository::TaskError::RepositoryError(m) => TaskError::Repository(m),
    }
}

/// Filtering keeps a sequence whose every element satisfies the predicate.
proof fn lemma_filter_all(s: Seq<Task>, pred: spec_fn(Task) -> bool)
    requires
        forall|i: int| 0 <= i < s.len() ==> pred(#[trigger] s[i]),
    ensures
        s.filter(pred) == s,
    decreases s.len(),
{
    reveal(Seq::filter);
    if s.len() != 0 {
        lemma_filter_all(s.drop_last(), pred);
        assert(pred(s.last()));
        assert(s.drop_last().push(s.last()) =~= s);
    }
}

/// The use-case layer over the in-memory store. Its state is the store's
/// state; `&mut` access serializes the operations, and a caller that shares
/// one instance wraps it in a lock, owning each call as a critical section.
/// The existence check inside `delete_task` and the delete that follows it are
/// two such sections, not one: a concurrent delete between them surfaces as
/// `NotFound` on the second call.
pub struct TaskUsecaseImpl {
    repository: InMemoryTaskRepository,
}

impl View for TaskUsecaseImpl {
    type V = StoreView;

    closed spec fn view(&self) -> StoreView {
        self.repository@
    }
}

impl TaskUsecaseImpl {
    /// Wraps a store.
    pub fn new(repository: InMemoryTaskRepository) -> (r: TaskUsecaseImpl)
        ensures
            r@ == repository@,
    {
        TaskUsecaseImpl { repository }
    }

    /// True while the allocator has an id left to hand out: the bound that
    /// `create_task` asks its caller for.
    pub fn can_create(&self) -> (r: bool)
        ensures
            r == (self@.next_id < u64::MAX),
    {
        self.repository.can_create()
    }

    /// A snapshot copy of every task.
    pub fn get_all_tasks(&self) -> (r: Vec<Task>)
        ensures
            r@ == self@.tasks,
    {
        self.repository.get_all()
    }

    /// The task carrying `id`, or `NotFound`.
    pub fn get_task_by_id(&self, id: u64) -> (r: Result<Task, TaskError>)
        requires
            self@.wf(),
        ensures
            self@.has_id(id) ==> r == Ok::<Task, TaskError>(self@.task_of(id)),
            !self@.has_id(id) ==> r == Err::<Task, TaskError>(TaskError::NotFound(id)),
    {
        match self.repository.get_by_id(id) {
            Ok(t) => Ok(t),
            Err(e) => Err(wrap_error(e)),
        }
    }

    /// Validates the description and stores a new pending task under a fresh
    /// id; on success the returned copy has `completed` false and equal
    /// creation and update instants. A validation failure changes nothing.
    pub fn create_task(&mut self, create_task: CreateTask) -> (r: Result<Task, TaskError>)
        requires
            old(self)@.wf(),
            old(self)@.next_id < u64::MAX,
        ensures
            final(self)@.wf(),
            ({
                let v = spec_validate_description(create_task.description@);
                match r {
                    Ok(t) => {
                        &&& v is Ok
                        &&& t.id == old(self)@.next_id
                        &&& t.description == create_task.description
                        &&& !t.completed
                        &&& t.created_at == t.updated_at
                        &&& final(self)@.tasks == old(self)@.tasks.push(t)
                        &&& final(self)@.next_id == old(self)@.next_id + 1
                    },
                    Err(e) => {
                        &&& v matches Err(ve) && e == TaskError::Validation(ve)
                        &&& final(self)@ == old(self)@
                    },
                }
            }),
    {
        match create_task.validate() {
            Ok(()) => {},
            Err(e) => {
                return Err(TaskError::Validation(e));
            },
        }
        match self.repository.create(create_task) {
            Ok(t) => Ok(t),
            Err(e) => Err(wrap_error(e)),
        }
    }

    /// Applies a partial update to the task carrying `id`. An update with no
    /// field present is rejected as an invalid operation, an invalid
    /// description as a validation error, and a missing id as not found; each
    /// failure changes nothing.
    pub fn update_task(&mut self, id: u64, update_task: UpdateTask) -> (r: Result<Task, TaskError>)
        requires
            old(self)@.wf(),
        ensures
            final(self)@.wf(),
            ({
                let pre = old(self)@;
                if update_task.spec_validate() is Err {
                    &&& r matches Err(e)
                    &&& update_task.spec_validate() matches Err(ve) && e == TaskError::Validation(
                        ve,
                    )
                    &&& final(self)@ == pre
                } else if update_task.spec_is_empty() {
                    &&& r matches Err(e)
                    &&& e matches TaskError::InvalidOperation(m) && m@
                        == "Update task cannot be empty"@
                    &&& final(self)@ == pre
                } else if !pre.has_id(id) {
                    &&& r == Err::<Task, TaskError>(TaskError::NotFound(id))
                    &&& final(self)@ == pre
                } else {
                    let old_t = pre.task_of(id);
                    &&& r matches Ok(t)
                    &&& t.id == id
                    &&& (match update_task.description {
                        Some(d) => t.description == d,
                        None => t.description == old_t.description,
                    })
                    &&& (match update_task.completed {
                        Some(c) => t.completed == c,
                        None => t.completed == old_t.completed,
                    })
                    &&& t.created_at == old_t.created_at
                    &&& final(self)@.tasks == pre.tasks.update(pre.idx_of(id), t)
                    &&& final(self)@.next_id == pre.next_id
                }
            }),
    {
        match update_task.validate() {
            Ok(()) => {},
            Err(e) => {
                return Err(TaskError::Validation(e));
            },
        }
        match self.repository.update(id, update_task) {
            Ok(t) => Ok(t),
            Err(e) => Err(wrap_error(e)),
        }
    }

    /// Verifies that the task exists — surfacing `NotFound` if it does not —
    /// and then removes it. The freed id is never allocated again.
    pub fn delete_task(&mut self, id: u64) -> (r: Result<(), TaskError>)
        requires
            old(self)@.wf(),
        ensures
            final(self)@.wf(),
            old(self)@.has_id(id) ==> r == Ok::<(), TaskError>(()) && final(self)@.tasks == old(
                self,
            )@.tasks.remove(old(self)@.idx_of(id)) && final(self)@.next_id == old(self)@.next_id,
            !old(self)@.has_id(id) ==> r == Err::<(), TaskError>(TaskError::NotFound(id))
                && final(self)@ == old(self)@,
    {
        match self.repository.get_by_id(id) {
            Ok(_) => {},
            Err(e) => {
                return Err(wrap_error(e));
            },
        }
        match self.repository.delete(id) {
            Ok(()) => Ok(()),
            Err(e) => Err(wrap_error(e)),
        }
    }

    /// Marks the task carrying `id` completed — also when it already is — and
    /// returns a copy whose only other change is the refreshed update instant.
    pub fn complete_task(&mut self, id: u64) -> (r: Result<Task, TaskError>)
        requires
            old(self)@.wf(),
        ensures
            final(self)@.wf(),
            !old(self)@.has_id(id) ==> r == Err::<Task, TaskError>(TaskError::NotFound(id))
                && final(self)@ == old(self)@,
            old(self)@.has_id(id) ==> (r matches Ok(t) && {
                &&& t == with_status(old(self)@.task_of(id), true, t.updated_at)
                &&& final(self)@.tasks == old(self)@.tasks.update(old(self)@.idx_of(id), t)
                &&& final(self)@.next_id == old(self)@.next_id
            }),
    {
        match self.repository.complete(id) {
            Ok(t) => Ok(t),
            Err(e) => Err(wrap_error(e)),
        }
    }

    /// Marks the task carrying `id` pending — also when it already is — and
    /// returns a copy whose only other change is the refreshed update instant.
    pub fn uncomplete_task(&mut self, id: u64) -> (r: Result<Task, TaskError>)
        requires
            old(self)@.wf(),
        ensures
            final(self)@.wf(),
            !old(self)@.has_id(id) ==> r == Err::<Task, TaskError>(TaskError::NotFound(id))
                && final(self)@ == old(self)@,
            old(self)@.has_id(id) ==> (r matches Ok(t) && {
                &&& t == with_status(old(self)@.task_of(id), false, t.updated_at)
                &&& final(self)@.tasks == old(self)@.tasks.update(old(self)@.idx_of(id), t)
                &&& final(self)@.next_id == old(self)@.next_id
            }),
    {
        match self.repository.uncomplete(id) {
            Ok(t) => Ok(t),
            Err(e) => Err(wrap_error(e)),
        }
    }

    /// The completed tasks of one snapshot, in stored order.
    pub fn get_completed_tasks(&self) -> (r: Vec<Task>)
        ensures
            r@ == self@.tasks.filter(|t: Task| t.completed),
    {
        let all = self.repository.get_all();
        let mut out: Vec<Task> = Vec::new();
        let mut i: usize = 0;
        proof {
            reveal(Seq::filter);
        }
        while i < all.len()
            invariant
                all@ == self@.tasks,
                0 <= i <= all@.len(),
                out@ == all@.take(i as int).filter(|t: Task| t.completed),
            decreases all@.len() - i,
        {
            let t = &all[i];
            if t.completed {
                out.push(t.clone());
            }
            i += 1;
            proof {
                reveal(Seq::filter);
                assert(all@.take(i as int).drop_last() =~= all@.take(i as int - 1));
                assert(all@.take(i as int).last() == all@[i as int - 1]);
            }
        }
        proof {
            assert(all@.take(all@.len() as int) =~= all@);
        }
        out
    }

    /// The pending tasks of one snapshot, in stored order.
    pub fn get_pending_tasks(&self) -> (r: Vec<Task>)
        ensures
            r@ == self@.tasks.filter(|t: Task| !t.completed),
    {
        let all = self.repository.get_all();
        let mut out: Vec<Task> = Vec::new();
        let mut i: usize = 0;
        proof {
            reveal(Seq::filter);
        }
        while i < all.len()
            invariant
                all@ == self@.tasks,
                0 <= i <= all@.len(),
                out@ == all@.take(i as int).filter(|t: Task| !t.completed),
            decreases all@.len() - i,
        {
            let t = &all[i];
            if !t.completed {
                out.push(t.clone());
            }
            i += 1;
            proof {
                reveal(Seq::filter);
                assert(all@.take(i as int).drop_last() =~= all@.take(i as int - 1));
                assert(all@.take(i as int).last() == all@[i as int - 1]);
            }
        }
        proof {
            assert(all@.take(all@.len() as int) =~= all@);
        }
        out
    }

    /// The tasks of one snapshot whose completion flag equals `completed`, in
    /// stored order.
    pub fn get_tasks_by_status(&self, completed: bool) -> (r: Vec<Task>)
        ensures
            r@ == self@.tasks.filter(|t: Task| t.completed == completed),
    {
        let all = self.repository.get_all();
        let mut out: Vec<Task> = Vec::new();
        let mut i: usize = 0;
        proof {
            reveal(Seq::filter);
        }
        while i < all.len()
            invariant
                all@ == self@.tasks,
                0 <= i <= all@.len(),
                out@ == all@.take(i as int).filter(|t: Task| t.completed == completed),
            decreases all@.len() - i,
        {
            let t = &all[i];
            if t.completed == completed {
                out.push(t.clone());
            }
            i += 1;
            proof {
                reveal(Seq::filter);
                assert(all@.take(i as int).drop_last() =~= all@.take(i as int - 1));
                assert(all@.take(i as int).last() == all@[i as int - 1]);
            }
        }
        proof {
            assert(all@.take(all@.len() as int) =~= all@);
        }
        out
    }

    /// The tasks of one snapshot whose lower-cased description contains the
    /// lower-cased query, in stored order; an empty query keeps every task.
    pub fn search_tasks(&self, query: &str) -> (r: Vec<Task>)
        ensures
            r@ == self@.tasks.filter(
                |t: Task| contains_seq(lower_of(t.description@), lower_of(query@)),
            ),
            query@.len() == 0 ==> r@ == self@.tasks,
    {
        let needle = lower_chars(query);
        let all = self.repository.get_all();
        let mut out: Vec<Task> = Vec::new();
        let mut i: usize = 0;
        proof {
            reveal(Seq::filter);
        }
        while i < all.len()
            invariant
                needle@ == lower_of(query@),
                all@ == self@.tasks,
                0 <= i <= all@.len(),
                out@ == all@.take(i as int).filter(
                    |t: Task| contains_seq(lower_of(t.description@), lower_of(query@)),
                ),
            decreases all@.len() - i,
        {
            let t = &all[i];
            let hay = lower_chars(t.description.as_str());
            if contains_slice(hay.as_slice(), needle.as_slice()) {
                out.push(t.clone());
            }
            i += 1;
            proof {
                reveal(Seq::filter);
                assert(all@.take(i as int).drop_last() =~= all@.take(i as int - 1));
                assert(all@.take(i as int).last() == all@[i as int - 1]);
            }
        }
        proof {
            assert(all@.take(all@.len() as int) =~= all@);
            if query@.len() == 0 {
                let pred = |t: Task| contains_seq(lower_of(t.description@), lower_of(query@));
                assert forall|k: int| 0 <= k < all@.len() implies pred(#[trigger] all@[k]) by {
                    lemma_contains_empty(lower_of(all@[k].description@), lower_of(query@));
                }
                lemma_filter_all(all@, pred);
            }
        }
        out
    }
}

} // verus!
