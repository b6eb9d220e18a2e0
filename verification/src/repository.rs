//! The in-memory task store: the canonical id-to-task collection and the
//! monotone id allocator, with validated creation, partial update, deletion
//! and status transitions.

use vstd::prelude::*;
use crate::task::{
    spec_validate_description, with_status, CreateTask, Task, TaskValidationError, UpdateTask,
};

verus! {

/// A store operation's failure. `RepositoryError` is reserved for
/// infrastructure failures (a caller's lock that cannot be acquired); the
/// store itself never produces it.
#[derive(Debug)]
pub enum TaskError {
    NotFound(u64),
    RepositoryError(String),
    ValidationError(TaskValidationError),
    InvalidOperation(String),
}

/// The store's mathematical state: the stored tasks, in insertion order, and
/// the next id the allocator will hand out.
pub ghost struct StoreView {
    pub tasks: Seq<Task>,
    pub next_id: u64,
}

impl StoreView {
    /// The store's invariant: allocation starts at 1; every stored task is
    /// valid and carries an id below the allocator; and ids strictly increase
    /// with insertion order, so each id occurs at most once.
    pub open spec fn wf(self) -> bool {
        &&& self.next_id >= 1
        &&& forall|i: int|
            0 <= i < self.tasks.len() ==> (#[trigger] self.tasks[i]).wf() && self.tasks[i].id
                < self.next_id
        &&& forall|i: int, j: int|
            0 <= i < j < self.tasks.len() ==> (#[trigger] self.tasks[i]).id < (
            #[trigger] self.tasks[j]).id
    }

    /// Some stored task carries the id.
    pub open spec fn has_id(self, id: u64) -> bool {
        exists|i: int| 0 <= i < self.tasks.len() && (#[trigger] self.tasks[i]).id == id
    }

    /// The position of the task carrying the id (meaningful when `has_id`).
    pub open spec fn idx_of(self, id: u64) -> int {
        choose|i: int| 0 <= i < self.tasks.len() && (#[trigger] self.tasks[i]).id == id
    }

    /// The task carrying the id (meaningful when `has_id`).
    pub open spec fn task_of(self, id: u64) -> Task {
        self.tasks[self.idx_of(id)]
    }
}

/// In a well-formed store, ids are unique: the position holding a given id is
/// exactly the one `idx_of` picks.
pub proof fn lemma_index_of_id(s: StoreView, i: int)
    requires
        s.wf(),
        0 <= i < s.tasks.len(),
    ensures
        s.has_id(s.tasks[i].id),
        s.idx_of(s.tasks[i].id) == i,
        s.task_of(s.tasks[i].id) == s.tasks[i],
{
    let id = s.tasks[i].id;
    assert(s.has_id(id));
    let k = s.idx_of(id);
    if k < i {
        assert(s.tasks[k].id < s.tasks[i].id);
    } else if k > i {
        assert(s.tasks[i].id < s.tasks[k].id);
    }
}

/// Appending a freshly allocated task and advancing the allocator preserves
/// the store invariant.
proof fn lemma_wf_push(s: StoreView, t: Task)
    requires
        s.wf(),
        t.wf(),
        t.id == s.next_id,
        s.next_id < u64::MAX,
    ensures
        (StoreView { tasks: s.tasks.push(t), next_id: (s.next_id + 1) as u64 }).wf(),
{
    let s2 = StoreView { tasks: s.tasks.push(t), next_id: (s.next_id + 1) as u64 };
    assert forall|i: int|
        0 <= i < s2.tasks.len() implies (#[trigger] s2.tasks[i]).wf() && s2.tasks[i].id
        < s2.next_id by {
        if i < s.tasks.len() {
            assert(s2.tasks[i] == s.tasks[i]);
        } else {
            assert(s2.tasks[i] == t);
        }
    }
    assert forall|i: int, j: int|
        0 <= i < j < s2.tasks.len() implies (#[trigger] s2.tasks[i]).id < (
    #[trigger] s2.tasks[j]).id by {
        if j < s.tasks.len() {
            assert(s2.tasks[i] == s.tasks[i] && s2.tasks[j] == s.tasks[j]);
        } else {
            assert(s2.tasks[j] == t);
            assert(s2.tasks[i] == s.tasks[i]);
            assert(s.tasks[i].id < s.next_id);
        }
    }
}

/// Replacing a stored task by one carrying the same id, in place, preserves
/// the store invariant.
proof fn lemma_wf_update(s: StoreView, i: int, t: Task)
    requires
        s.wf(),
        0 <= i < s.tasks.len(),
        t.id == s.tasks[i].id,
        t.wf(),
    ensures
        (StoreView { tasks: s.tasks.update(i, t), next_id: s.next_id }).wf(),
{
    let s2 = StoreView { tasks: s.tasks.update(i, t), next_id: s.next_id };
    assert forall|k: int|
        0 <= k < s2.tasks.len() implies (#[trigger] s2.tasks[k]).wf() && s2.tasks[k].id
        < s2.next_id by {
        if k != i {
            assert(s2.tasks[k] == s.tasks[k]);
        }
    }
    assert forall|k: int, l: int|
        0 <= k < l < s2.tasks.len() implies (#[trigger] s2.tasks[k]).id < (
    #[trigger] s2.tasks[l]).id by {
        assert(s.tasks[k].id < s.tasks[l].id);
    }
}

/// Removing a stored task preserves the store invariant.
proof fn lemma_wf_remove(s: StoreView, i: int)
    requires
        s.wf(),
        0 <= i < s.tasks.len(),
    ensures
        (StoreView { tasks: s.tasks.remove(i), next_id: s.next_id }).wf(),
{
    let s2 = StoreView { tasks: s.tasks.remove(i), next_id: s.next_id };
    s.tasks.remove_ensures(i);
    assert forall|k: int|
        0 <= k < s2.tasks.len() implies (#[trigger] s2.tasks[k]).wf() && s2.tasks[k].id
        < s2.next_id by {
        if k < i {
            assert(s2.tasks[k] == s.tasks[k]);
        } else {
            assert(s2.tasks[k] == s.tasks[k + 1]);
        }
    }
    assert forall|k: int, l: int|
        0 <= k < l < s2.tasks.len() implies (#[trigger] s2.tasks[k]).id < (
    #[trigger] s2.tasks[l]).id by {
        let k0 = if k < i { k } else { k + 1 };
        let l0 = if l < i { l } else { l + 1 };
        assert(s2.tasks[k] == s.tasks[k0]);
        assert(s2.tasks[l] == s.tasks[l0]);
        assert(s.tasks[k0].id < s.tasks[l0].id);
    }
}

/// Law: after a create, a fetch by the new task's id finds exactly the task
/// the create returned. `pre` is the store the create saw; `post.tasks` is
/// what `create`'s contract says the store holds afterwards.
pub proof fn lemma_create_then_get(pre: StoreView, post: StoreView, t: Task)
    requires
        pre.wf(),
        t.id == pre.next_id,
        post.tasks == pre.tasks.push(t),
    ensures
        post.has_id(t.id),
        post.task_of(t.id) == t,
{
    let n = pre.tasks.len() as int;
    assert(post.tasks[n] == t);
    assert(post.has_id(t.id));
    let k = post.idx_of(t.id);
    if k < n {
        assert(post.tasks[k] == pre.tasks[k]);
        assert(pre.tasks[k].id < pre.next_id);
    }
}

/// Law: completing a task is idempotent. After one complete the task is still
/// present and completed, so a second complete again meets `complete`'s
/// success case; it keeps `completed` true and the id, description and
/// creation instant, refreshing only the update timestamp.
pub proof fn lemma_complete_idempotent(pre: StoreView, mid: StoreView, id: u64, stamp: i64)
    requires
        pre.wf(),
        pre.has_id(id),
        mid.tasks == pre.tasks.update(pre.idx_of(id), with_status(pre.task_of(id), true, stamp)),
        mid.next_id == pre.next_id,
    ensures
        mid.wf(),
        mid.has_id(id),
        mid.task_of(id) == with_status(pre.task_of(id), true, stamp),
        mid.task_of(id).completed,
        mid.task_of(id).id == pre.task_of(id).id,
        mid.task_of(id).description == pre.task_of(id).description,
        mid.task_of(id).created_at == pre.task_of(id).created_at,
{
    let i = pre.idx_of(id);
    let t = with_status(pre.task_of(id), true, stamp);
    lemma_wf_update(pre, i, t);
    assert(mid == StoreView { tasks: pre.tasks.update(i, t), next_id: pre.next_id });
    lemma_index_of_id(mid, i);
}

/// Law: the allocator's next id exceeds every stored id, so the id a create
/// assigns is fresh; and since neither update nor delete moves the allocator
/// back, an id is never reused even after its task is deleted.
pub proof fn lemma_next_id_fresh(s: StoreView)
    requires
        s.wf(),
    ensures
        forall|i: int| 0 <= i < s.tasks.len() ==> (#[trigger] s.tasks[i]).id < s.next_id,
{
}

/// The in-memory store. `&mut` access serializes its operations; a caller
/// that shares one store among several logical callers wraps it in a lock, so
/// that each operation is its own critical section and a snapshot read never
/// observes a half-applied mutation.
pub struct InMemoryTaskRepository {
    tasks: Vec<Task>,
    next_id: u64,
}

impl View for InMemoryTaskRepository {
    type V = StoreView;

    closed spec fn view(&self) -> StoreView {
        StoreView { tasks: self.tasks@, next_id: self.next_id }
    }
}

impl InMemoryTaskRepository {
    /// An empty store whose allocation starts at 1.
    pub fn new() -> (r: InMemoryTaskRepository)
        ensures
            r@.tasks == Seq::<Task>::empty(),
            r@.next_id == 1,
            r@.wf(),
    {
        InMemoryTaskRepository { tasks: Vec::new(), next_id: 1 }
    }

    /// True while the allocator has an id left to hand out: the bound that
    /// `create` asks its caller for.
    pub fn can_create(&self) -> (r: bool)
        ensures
            r == (self@.next_id < u64::MAX),
    {
        self.next_id < u64::MAX
    }

    /// The position of the task carrying `id`, if any.
    fn find_index(&self, id: u64) -> (r: Option<usize>)
        requires
            self@.wf(),
        ensures
            match r {
                Some(i) => i < self@.tasks.len() && self@.tasks[i as int].id == id && self@.has_id(
                    id,
                ) && self@.idx_of(id) == i,
                None => !self@.has_id(id),
            },
    {
        let n = self.tasks.len();
        let mut i: usize = 0;
        while i < n
            invariant
                n == self@.tasks.len(),
                0 <= i <= n,
                forall|j: int| 0 <= j < i ==> (#[trigger] self@.tasks[j]).id != id,
                self@.wf(),
            decreases n - i,
        {
            if self.tasks[i].id == id {
                proof {
                    lemma_index_of_id(self@, i as int);
                }
                return Some(i);
            }
            i += 1;
        }
        None
    }

    /// A snapshot copy of every stored task, in insertion order.
    pub fn get_all(&self) -> (r: Vec<Task>)
        ensures
            r@ == self@.tasks,
    {
        let r = self.tasks.clone();
        proof {
            assert(r@ =~= self.tasks@);
        }
        r
    }

    /// A copy of the task carrying `id`, or `NotFound` when no task does.
    pub fn get_by_id(&self, id: u64) -> (r: Result<Task, TaskError>)
        requires
            self@.wf(),
        ensures
            self@.has_id(id) ==> r == Ok::<Task, TaskError>(self@.task_of(id)),
            !self@.has_id(id) ==> r == Err::<Task, TaskError>(TaskError::NotFound(id)),
    {
        match self.find_index(id) {
            Some(i) => Ok(self.tasks[i].clone()),
            None => Err(TaskError::NotFound(id)),
        }
    }

    /// Validates the input, allocates the next id, stores the new pending
    /// task, and returns a copy of it. A validation failure changes nothing.
    pub fn create(&mut self, create_task: CreateTask) -> (r: Result<Task, TaskError>)
        requires
            old(self)@.wf(),
            old(self)@.next_id < u64::MAX,
        ensures
            final(self)@.wf(),
            ({
                let v = spec_validate_description(create_task.description@);
                match r {
                    Ok(t) => {
                        &&& v is Ok
                        &&& t.id == old(self)@.next_id
                        &&& t.description == create_task.description
                        &&& !t.completed
                        &&& t.created_at == t.updated_at
                        &&& final(self)@.tasks == old(self)@.tasks.push(t)
                        &&& final(self)@.next_id == old(self)@.next_id + 1
                    },
                    Err(e) => {
                        &&& v matches Err(ve) && e == TaskError::ValidationError(ve)
                        &&& final(self)@ == old(self)@
                    },
                }
            }),
    {
        match create_task.validate() {
            Ok(()) => {},
            Err(e) => {
                return Err(TaskError::ValidationError(e));
            },
        }
        let id = self.next_id;
        match Task::new(id, create_task.description) {
            Ok(task) => {
                let result = task.clone();
                proof {
                    lemma_wf_push(self@, task);
                }
                self.tasks.push(task);
                self.next_id = id + 1;
                Ok(result)
            },
            Err(e) => Err(TaskError::ValidationError(e)),
        }
    }

    /// Applies a partial update to the task carrying `id` and returns a copy
    /// of the result. An update with no field present is rejected as an
    /// invalid operation, an invalid description as a validation error, and a
    /// missing id as not found; each failure changes nothing. The whole task
    /// transitions at once: no reader can observe the description changed but
    /// the flag not yet.
    pub fn update(&mut self, id: u64, update_task: UpdateTask) -> (r: Result<Task, TaskError>)
        requires
            old(self)@.wf(),
        ensures
            final(self)@.wf(),
            ({
                let pre = old(self)@;
                if update_task.spec_is_empty() {
                    &&& r matches Err(e)
                    &&& e matches TaskError::InvalidOperation(m) && m@ == "Update task cannot be empty"@
                    &&& final(self)@ == pre
                } else if update_task.spec_validate() is Err {
                    &&& r matches Err(e)
                    &&& update_task.spec_validate() matches Err(ve) && e
                        == TaskError::ValidationError(ve)
                    &&& final(self)@ == pre
                } else if !pre.has_id(id) {
                    &&& r == Err::<Task, TaskError>(TaskError::NotFound(id))
                    &&& final(self)@ == pre
                } else {
                    let old_t = pre.task_of(id);
                    &&& r matches Ok(t)
                    &&& t.id == id
                    &&& (match update_task.description {
                        Some(d) => t.description == d,
                        None => t.description == old_t.description,
                    })
                    &&& (match update_task.completed {
                        Some(c) => t.completed == c,
                        None => t.completed == old_t.completed,
                    })
                    &&& t.created_at == old_t.created_at
                    &&& final(self)@.tasks == pre.tasks.update(pre.idx_of(id), t)
                    &&& final(self)@.next_id == pre.next_id
                }
            }),
    {
        if update_task.is_empty() {
            return Err(TaskError::InvalidOperation("Update task cannot be empty".to_owned()));
        }
        match update_task.validate() {
            Ok(()) => {},
            Err(e) => {
                return Err(TaskError::ValidationError(e));
            },
        }
        let UpdateTask { description, completed } = update_task;
        match self.find_index(id) {
            None => Err(TaskError::NotFound(id)),
            Some(i) => {
                let mut task = self.tasks[i].clone();
                if let Some(d) = description {
                    match task.update_description(d) {
                        Ok(()) => {},
                        Err(e) => {
                            return Err(TaskError::ValidationError(e));
                        },
                    }
                }
                if let Some(c) = completed {
                    if c {
                        task.complete();
                    } else {
                        task.uncomplete();
                    }
                }
                let stored = task.clone();
                proof {
                    lemma_wf_update(old(self)@, i as int, stored);
                }
                self.tasks[i] = stored;
                Ok(task)
            },
        }
    }

    /// Removes the task carrying `id`; the allocator does not move back, so
    /// the id is never handed out again.
    pub fn delete(&mut self, id: u64) -> (r: Result<(), TaskError>)
        requires
            old(self)@.wf(),
        ensures
            final(self)@.wf(),
            old(self)@.has_id(id) ==> r == Ok::<(), TaskError>(()) && final(self)@.tasks == old(self)@.tasks.remove(old(self)@.idx_of(id)) && final(self)@.next_id == old(self)@.next_id,
            !old(self)@.has_id(id) ==> r == Err::<(), TaskError>(TaskError::NotFound(id)) && final(self)@ == old(self)@,
    {
        match self.find_index(id) {
            None => Err(TaskError::NotFound(id)),
            Some(i) => {
                proof {
                    lemma_wf_remove(self@, i as int);
                }
                self.tasks.remove(i);
                Ok(())
            },
        }
    }

    /// Fetches the task carrying `id`, gives it the status `completed`, stores
    /// the result in place and returns a copy of it.
    fn set_status(&mut self, id: u64, completed: bool) -> (r: Result<Task, TaskError>)
        requires
            old(self)@.wf(),
        ensures
            final(self)@.wf(),
            !old(self)@.has_id(id) ==> r == Err::<Task, TaskError>(TaskError::NotFound(id)) && final(self)@ == old(self)@,
            old(self)@.has_id(id) ==> (r matches Ok(t) && {
                &&& t == with_status(old(self)@.task_of(id), completed, t.updated_at)
                &&& final(self)@.tasks == old(self)@.tasks.update(old(self)@.idx_of(id), t)
                &&& final(self)@.next_id == old(self)@.next_id
            }),
    {
        match self.find_index(id) {
            None => Err(TaskError::NotFound(id)),
            Some(i) => {
                let mut task = self.tasks[i].clone();
                if completed {
                    task.complete();
                } else {
                    task.uncomplete();
                }
                let stored = task.clone();
                proof {
                    lemma_wf_update(old(self)@, i as int, stored);
                }
                self.tasks[i] = stored;
                Ok(task)
            },
        }
    }

    /// Marks the task carrying `id` completed — also when it already is — and
    /// returns a copy of the result.
    pub fn complete(&mut self, id: u64) -> (r: Result<Task, TaskError>)
        requires
            old(self)@.wf(),
        ensures
            final(self)@.wf(),
            !old(self)@.has_id(id) ==> r == Err::<Task, TaskError>(TaskError::NotFound(id)) && final(self)@ == old(self)@,
            old(self)@.has_id(id) ==> (r matches Ok(t) && {
                &&& t == with_status(old(self)@.task_of(id), true, t.updated_at)
                &&& final(self)@.tasks == old(self)@.tasks.update(old(self)@.idx_of(id), t)
                &&& final(self)@.next_id == old(self)@.next_id
            }),
    {
        self.set_status(id, true)
    }

    /// Marks the task carrying `id` pending — also when it already is — and
    /// returns a copy of the result.
    pub fn uncomplete(&mut self, id: u64) -> (r: Result<Task, TaskError>)
        requires
            old(self)@.wf(),
        ensures
            final(self)@.wf(),
            !old(self)@.has_id(id) ==> r == Err::<Task, TaskError>(TaskError::NotFound(id)) && final(self)@ == old(self)@,
            old(self)@.has_id(id) ==> (r matches Ok(t) && {
                &&& t == with_status(old(self)@.task_of(id), false, t.updated_at)
                &&& final(self)@.tasks == old(self)@.tasks.update(old(self)@.idx_of(id), t)
                &&& final(self)@.next_id == old(self)@.next_id
            }),
    {
        self.set_status(id, false)
    }
}

} // verus!
