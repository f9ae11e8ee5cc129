//! When the program looks anew at what it shows.

use vstd::prelude::*;

verus! {

/// How long to wait for a key, in milliseconds.
pub const POLL_MS: u64 = 100;

/// How long the state of the station is good for, in milliseconds.
pub const STATUS_POLL_MS: u64 = 300;

/// How long the list of networks is good for, in milliseconds.
pub const REFRESH_MS: u64 = 2_000;

/// When the program last looked. Moments are in milliseconds on one clock.
pub struct Schedule {
    pub status_at: u64,
    pub networks_at: u64,
}

/// What is to be done before the next key is waited for.
#[derive(Clone, Copy, Debug, PartialEq, Eq, Structural)]
pub enum Task {
    /// Read the state of the station, the details and the wired connection.
    Status,
    /// Read the state of the station and the networks.
    Networks,
}

/// Whether a moment lies at least `period` back.
pub open spec fn is_due(at: u64, period: u64, now: u64) -> bool {
    now >= at + period
}

/// The task that is due. A task that has been done in this round is not asked for again.
pub open spec fn task_due(s: Schedule, done: Option<Task>, now: u64) -> Option<Task> {
    if done is None && is_due(s.status_at, STATUS_POLL_MS, now) {
        Some(Task::Status)
    } else if done != Some(Task::Networks) && is_due(s.networks_at, REFRESH_MS, now) {
        Some(Task::Networks)
    } else {
        None
    }
}

/// The schedule after a task was done.
pub open spec fn task_done(s: Schedule, task: Task, now: u64) -> Schedule {
    match task {
        Task::Status => Schedule { status_at: now, ..s },
        Task::Networks => Schedule { networks_at: now, ..s },
    }
}

fn due(at: u64, period: u64, now: u64) -> (res: bool)
    ensures
        res == is_due(at, period, now),
{
    now >= at && now - at >= period
}

/// A schedule that begins now: everything was just looked at.
pub open spec fn schedule_from(now: u64) -> Schedule {
    Schedule { status_at: now, networks_at: now }
}

impl Schedule {
    /// A schedule that begins now.
    pub fn new(now: u64) -> (res: Schedule)
        ensures
            res == schedule_from(now),
    {
        Schedule { status_at: now, networks_at: now }
    }

    /// Says what is to be done now, after `done` has been done in this round.
    pub fn next_task(&self, done: Option<Task>, now: u64) -> (res: Option<Task>)
        ensures
            res == task_due(*self, done, now),
    {
        match done {
            None if due(self.status_at, STATUS_POLL_MS, now) => Some(Task::Status),
            Some(Task::Networks) => None,
            _ => {
                if due(self.networks_at, REFRESH_MS, now) {
                    Some(Task::Networks)
                } else {
                    None
                }
            },
        }
    }

    /// Takes in that a task was done.
    pub fn done(&mut self, task: Task, now: u64)
        ensures
            *final(self) == task_done(*old(self), task, now),
    {
        match task {
            Task::Status => {
                self.status_at = now;
            },
            Task::Networks => {
                self.networks_at = now;
            },
        }
    }
}

/// Each round does a task at most once, the state before the networks, and a task that was
/// done is not due again before its time.
pub proof fn law_tasks_take_turns(s: Schedule, done: Option<Task>, task: Task, now: u64, later: u64)
    ensures
        done == Some(Task::Networks) ==> task_due(s, done, now) is None,
        done == Some(Task::Status) ==> task_due(s, done, now) != Some(Task::Status),
        task == Task::Status && later < now + STATUS_POLL_MS ==> task_due(
            task_done(s, task, now),
            None,
            later,
        ) != Some(task),
        task == Task::Networks && later < now + REFRESH_MS ==> task_due(
            task_done(s, task, now),
            None,
            later,
        ) != Some(task),
{
}

} // verus!
