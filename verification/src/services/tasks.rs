//! Errors of the background task machinery.

use vstd::prelude::*;

verus! {

/// The identifier of a background task.
#[derive(Clone, Copy, Debug, PartialEq, Eq, Structural, Hash)]
pub struct TaskId {
    pub id: u128,
}

/// Errors the task machinery reports.
#[derive(Clone, Copy, Debug, PartialEq, Eq, Structural)]
pub enum TaskError {
    /// No task exists under the identifier.
    TaskNotFound { task_id: TaskId },
    /// The task was aborted by the user.
    TaskAborted { task_id: TaskId },
}

impl TaskError {
    /// The identifier the error is about.
    pub fn task_id(&self) -> (r: TaskId)
        ensures
            self matches TaskError::TaskNotFound { task_id } ==> r == task_id,
            self matches TaskError::TaskAborted { task_id } ==> r == task_id,
    {
        match self {
            TaskError::TaskNotFound { task_id } => *task_id,
            TaskError::TaskAborted { task_id } => *task_id,
        }
    }
}

} // verus!
