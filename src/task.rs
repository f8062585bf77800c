//! Progress of a long-running task, as shown to the user.

use vstd::prelude::*;
use vstd::string::StringExecFns;
use crate::text::owned;

verus! {

/// A named task, its latest message and its progress in thousandths.
#[derive(Clone, Debug)]
pub struct TaskProgress {
    pub task_name: String,
    pub message: String,
    pub progress: u32,
    pub is_complete: bool,
    pub is_error: bool,
}

impl TaskProgress {
    /// A task that has just started: message `"name..."`, no progress.
    pub fn new(task_name: &str) -> (r: TaskProgress)
        ensures
            r.task_name@ == task_name@,
            r.message@ == task_name@ + "..."@,
            r.progress == 0,
            !r.is_complete,
            !r.is_error,
    {
        let mut message = owned(task_name);
        message.append("...");
        TaskProgress { task_name: owned(task_name), message, progress: 0, is_complete: false, is_error: false }
    }

    /// Sets the progress (clamped to 1000 thousandths) and the message.
    pub fn update(&mut self, progress: u32, message: &str)
        ensures
            final(self).progress == if progress > 1000 {
                1000
            } else {
                progress
            },
            final(self).message@ == message@,
            final(self).task_name == old(self).task_name,
            final(self).is_complete == old(self).is_complete,
            final(self).is_error == old(self).is_error,
    {
        self.progress = if progress > 1000 {
            1000
        } else {
            progress
        };
        self.message = owned(message);
    }

    /// Marks the task done, at full progress.
    pub fn complete(&mut self, message: &str)
        ensures
            final(self).progress == 1000,
            final(self).message@ == message@,
            final(self).is_complete,
            final(self).is_error == old(self).is_error,
            final(self).task_name == old(self).task_name,
    {
        self.progress = 1000;
        self.message = owned(message);
        self.is_complete = true;
    }

    /// Marks the task done with an error; the progress stays.
    pub fn fail(&mut self, message: &str)
        ensures
            final(self).progress == old(self).progress,
            final(self).message@ == message@,
            final(self).is_complete,
            final(self).is_error,
            final(self).task_name == old(self).task_name,
    {
        self.message = owned(message);
        self.is_complete = true;
        self.is_error = true;
    }
}

} // verus!
