use vstd::prelude::*;

verus! {

/// The scheduling state of a thread.
#[derive(Clone, Copy, Debug, PartialEq, Eq, Structural)]
pub enum TaskStatus {
    Ready,
    Running,
    Blocked,
}

/// The mutable part of a thread control block.
pub struct TaskControlBlockInner {
    /// Physical page number of the page that holds the thread's trap context.
    pub trap_cx_ppn: usize,
    pub task_status: TaskStatus,
    pub exit_code: Option<i32>,
}

impl TaskControlBlockInner {
    /// A new thread: ready to run, not exited.
    pub fn new(trap_cx_ppn: usize) -> (r: Self)
        ensures
            r.trap_cx_ppn == trap_cx_ppn,
            r.task_status == TaskStatus::Ready,
            r.exit_code is None,
    {
        TaskControlBlockInner { trap_cx_ppn, task_status: TaskStatus::Ready, exit_code: None }
    }

    /// The thread's scheduling state.
    pub fn get_status(&self) -> (r: TaskStatus)
        ensures
            r == self.task_status,
    {
        self.task_status
    }
}

} // verus!
