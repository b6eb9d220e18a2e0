//! The task entity: validation rules and lifecycle transitions for a single
//! task.

use vstd::prelude::*;
use crate::clock::now_nanos;
use crate::text::{all_whitespace, str_is_blank};

verus! {

/// Upper bound on a description's length, in characters.
pub const MAX_DESCRIPTION_LEN: usize = 1000;

/// Why a description was rejected.
#[derive(Debug)]
pub enum TaskValidationError {
    EmptyDescription,
    DescriptionTooLong(usize),
}

/// What validating a description returns: it must not trim to nothing, and it
/// must not exceed [`MAX_DESCRIPTION_LEN`] characters. The emptiness check
/// comes first.
pub open spec fn spec_validate_description(d: Seq<char>) -> Result<(), TaskValidationError> {
    if all_whitespace(d) {
        Err(TaskValidationError::EmptyDescription)
    } else if d.len() > MAX_DESCRIPTION_LEN {
        Err(TaskValidationError::DescriptionTooLong(MAX_DESCRIPTION_LEN as usize))
    } else {
        Ok(())
    }
}

/// A description that passes validation.
pub open spec fn description_ok(d: Seq<char>) -> bool {
    spec_validate_description(d) is Ok
}

/// Validates a description string against the rules above.
pub fn validate_description(s: &str) -> (r: Result<(), TaskValidationError>)
    ensures
        r == spec_validate_description(s@),
{
    if str_is_blank(s) {
        return Err(TaskValidationError::EmptyDescription);
    }
    if s.unicode_len() > MAX_DESCRIPTION_LEN {
        return Err(TaskValidationError::DescriptionTooLong(MAX_DESCRIPTION_LEN));
    }
    Ok(())
}

/// A unit of work: a description, a completion flag, and the instants (in
/// nanoseconds since the Unix epoch) at which it was created and last changed.
#[derive(Debug)]
pub struct Task {
    pub id: u64,
    pub description: String,
    pub completed: bool,
    pub created_at: i64,
    pub updated_at: i64,
}

/// `t` with its completion flag set to `completed` and its update timestamp
/// set to `stamp`; every other field is kept. Both `complete` and `uncomplete`
/// change a task exactly this way.
pub open spec fn with_status(t: Task, completed: bool, stamp: i64) -> Task {
    Task { completed, updated_at: stamp, ..t }
}

impl Clone for Task {
    fn clone(&self) -> (r: Self)
        ensures
            r == *self,
    {
        Task {
            id: self.id,
            description: self.description.clone(),
            completed: self.completed,
            created_at: self.created_at,
            updated_at: self.updated_at,
        }
    }
}

impl PartialEq for Task {
    fn eq(&self, other: &Task) -> (r: bool)
        ensures
            r == (self.id == other.id && self.description@ == other.description@ && self.completed
                == other.completed && self.created_at == other.created_at && self.updated_at
                == other.updated_at),
    {
        self.id == other.id && self.description == other.description && self.completed
            == other.completed && self.created_at == other.created_at && self.updated_at
            == other.updated_at
    }
}

impl vstd::std_specs::cmp::PartialEqSpecImpl for Task {
    open spec fn obeys_eq_spec() -> bool {
        true
    }

    open spec fn eq_spec(&self, other: &Task) -> bool {
        self.id == other.id && self.description@ == other.description@ && self.completed
            == other.completed && self.created_at == other.created_at && self.updated_at
            == other.updated_at
    }
}

impl Task {
    /// A stored task always carries a valid description.
    pub open spec fn wf(self) -> bool {
        description_ok(self.description@)
    }

    /// Builds a pending task stamped with the current instant, rejecting an
    /// invalid description.
    pub fn new(id: u64, description: String) -> (r: Result<Task, TaskValidationError>)
        ensures
            ({
                let v = spec_validate_description(description@);
                match r {
                    Ok(t) => v is Ok && t.id == id && t.description == description && !t.completed
                        && t.created_at == t.updated_at && t.wf(),
                    Err(e) => v == Err::<(), TaskValidationError>(e),
                }
            }),
    {
        let now = now_nanos();
        let task = Task { id, description, completed: false, created_at: now, updated_at: now };
        match task.validate() {
            Ok(()) => Ok(task),
            Err(e) => Err(e),
        }
    }

    /// Applies the description rules to the carried description.
    pub fn validate(&self) -> (r: Result<(), TaskValidationError>)
        ensures
            r == spec_validate_description(self.description@),
    {
        validate_description(self.description.as_str())
    }

    /// Marks the task completed, whatever its prior state, and refreshes the
    /// update timestamp.
    pub fn complete(&mut self)
        ensures
            *final(self) == with_status(*old(self), true, final(self).updated_at),
    {
        self.completed = true;
        self.updated_at = now_nanos();
    }

    /// Marks the task pending, whatever its prior state, and refreshes the
    /// update timestamp.
    pub fn uncomplete(&mut self)
        ensures
            *final(self) == with_status(*old(self), false, final(self).updated_at),
    {
        self.completed = false;
        self.updated_at = now_nanos();
    }

    /// Replaces the description if the new one is valid, refreshing the update
    /// timestamp; on a validation failure the task is left exactly as it was.
    pub fn update_description(&mut self, description: String) -> (r: Result<
        (),
        TaskValidationError,
    >)
        ensures
            ({
                let v = spec_validate_description(description@);
                match r {
                    Ok(()) => v is Ok && *final(self) == (Task {
                        description,
                        updated_at: final(self).updated_at,
                        ..*old(self)
                    }),
                    Err(e) => v == Err::<(), TaskValidationError>(e) && *final(self) == *old(self),
                }
            }),
    {
        let original_description = self.description.clone();
        self.description = description;
        match self.validate() {
            Ok(()) => {
                self.updated_at = now_nanos();
                Ok(())
            },
            Err(e) => {
                self.description = original_description;
                Err(e)
            },
        }
    }

    /// The completion flag.
    pub fn is_completed(&self) -> (r: bool)
        ensures
            r == self.completed,
    {
        self.completed
    }

    /// The negation of the completion flag.
    pub fn is_pending(&self) -> (r: bool)
        ensures
            r == !self.completed,
    {
        !self.completed
    }
}

/// The input to task creation: a description, validated before a task is made
/// of it.
#[derive(Debug)]
pub struct CreateTask {
    pub description: String,
}

impl CreateTask {
    /// Wraps a description, rejecting an invalid one.
    pub fn new(description: String) -> (r: Result<CreateTask, TaskValidationError>)
        ensures
            ({
                let v = spec_validate_description(description@);
                match r {
                    Ok(ct) => v is Ok && ct.description == description,
                    Err(e) => v == Err::<(), TaskValidationError>(e),
                }
            }),
    {
        let create_task = CreateTask { description };
        match create_task.validate() {
            Ok(()) => Ok(create_task),
            Err(e) => Err(e),
        }
    }

    /// Checks the wrapped description against the validation rules.
    pub fn validate(&self) -> (r: Result<(), TaskValidationError>)
        ensures
            r == spec_validate_description(self.description@),
    {
        validate_description(self.description.as_str())
    }
}

/// The input to a partial update: an optional new description and an optional
/// new completion flag.
#[derive(Debug)]
pub struct UpdateTask {
    pub description: Option<String>,
    pub completed: Option<bool>,
}

impl UpdateTask {
    /// What validating the update returns: a present description must pass
    /// the description rules; an absent one passes.
    pub open spec fn spec_validate(self) -> Result<(), TaskValidationError> {
        match self.description {
            Some(d) => spec_validate_description(d@),
            None => Ok(()),
        }
    }

    /// Neither field is present.
    pub open spec fn spec_is_empty(self) -> bool {
        self.description is None && self.completed is None
    }

    /// Wraps the two optional fields, rejecting an invalid description.
    pub fn new(description: Option<String>, completed: Option<bool>) -> (r: Result<
        UpdateTask,
        TaskValidationError,
    >)
        ensures
            ({
                let u = UpdateTask { description, completed };
                match r {
                    Ok(ut) => u.spec_validate() is Ok && ut == u,
                    Err(e) => u.spec_validate() == Err::<(), TaskValidationError>(e),
                }
            }),
    {
        let update_task = UpdateTask { description, completed };
        match update_task.validate() {
            Ok(()) => Ok(update_task),
            Err(e) => Err(e),
        }
    }

    /// Checks the present fields against the validation rules.
    pub fn validate(&self) -> (r: Result<(), TaskValidationError>)
        ensures
            r == self.spec_validate(),
    {
        match &self.description {
            Some(description) => validate_description(description.as_str()),
            None => Ok(()),
        }
    }

    /// True when no field is present, so that applying the update would mean
    /// nothing.
    pub fn is_empty(&self) -> (r: bool)
        ensures
            r == self.spec_is_empty(),
    {
        self.description.is_none() && self.completed.is_none()
    }
}

} // verus!
