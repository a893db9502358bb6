//! A named task: time banked from finished sessions plus an optional session
//! in progress.

use vstd::prelude::*;
use crate::clock::{Stamp, now_millis, now_stamp};
use crate::duration::{format_hms, hms};

verus! {

/// A task with its accumulated time in milliseconds.
pub struct Task {
    pub name: String,
    /// Time banked from finished sessions, in milliseconds.
    pub total_millis: u64,
    /// Start of the session in progress, in milliseconds since the Unix epoch.
    pub start_timestamp: Option<i64>,
    pub is_running: bool,
    pub created_at: Stamp,
}

/// The mathematical value of a [`Task`].
pub struct TaskModel {
    pub name: Seq<char>,
    pub total_millis: u64,
    pub start_timestamp: Option<i64>,
    pub is_running: bool,
    pub created_at: Stamp,
}

impl View for Task {
    type V = TaskModel;

    open spec fn view(&self) -> TaskModel {
        TaskModel {
            name: self.name@,
            total_millis: self.total_millis,
            start_timestamp: self.start_timestamp,
            is_running: self.is_running,
            created_at: self.created_at,
        }
    }
}

impl TaskModel {
    /// A session is in progress exactly when its start is recorded, and the
    /// creation stamp is in range.
    pub open spec fn wf(self) -> bool {
        &&& self.is_running <==> self.start_timestamp is Some
        &&& self.created_at.wf()
    }
}

/// Milliseconds from `start` to `now`, or zero when the clock went backwards.
pub open spec fn elapsed(start: i64, now: i64) -> nat {
    if now > start { (now - start) as nat } else { 0 }
}

/// `a + b`, held at `u64::MAX`.
pub open spec fn sat_add(a: int, b: int) -> u64 {
    if a + b > u64::MAX { u64::MAX } else { (a + b) as u64 }
}

/// Banked time plus the live time of the session in progress at `now`.
pub open spec fn current_millis(t: TaskModel, now: i64) -> u64 {
    match t.start_timestamp {
        Some(start) if t.is_running => sat_add(t.total_millis as int, elapsed(start, now) as int),
        _ => t.total_millis,
    }
}

/// The task after `stop` at `now`: the live session is banked and closed.
pub open spec fn stopped(t: TaskModel, now: i64) -> TaskModel {
    if t.is_running {
        TaskModel {
            total_millis: current_millis(t, now),
            start_timestamp: None,
            is_running: false,
            ..t
        }
    } else {
        t
    }
}

/// The task after `start` at `now`: a session begins unless one is running.
pub open spec fn started(t: TaskModel, now: i64) -> TaskModel {
    if t.is_running {
        t
    } else {
        TaskModel { start_timestamp: Some(now), is_running: true, ..t }
    }
}

/// The task after `reset`: no session and nothing banked.
pub open spec fn reset_model(t: TaskModel) -> TaskModel {
    TaskModel { total_millis: 0, start_timestamp: None, is_running: false, ..t }
}

/// A session started at `t0` and stopped at `t1` banks exactly the time
/// between them (zero if the clock went backwards, held at `u64::MAX`), and
/// leaves the task stopped.
pub proof fn lemma_start_then_stop(t: TaskModel, t0: i64, t1: i64)
    requires
        t.wf(),
        !t.is_running,
    ensures
        stopped(started(t, t0), t1).total_millis == sat_add(t.total_millis as int, elapsed(t0, t1) as int),
        !stopped(started(t, t0), t1).is_running,
        stopped(started(t, t0), t1).start_timestamp is None,
        stopped(started(t, t0), t1).wf(),
{
}

/// Whatever the state of a task, a reset leaves nothing banked, no session,
/// and a current time of zero at every instant.
pub proof fn lemma_reset_clears(t: TaskModel, now: i64)
    ensures
        reset_model(t).total_millis == 0,
        !reset_model(t).is_running,
        reset_model(t).start_timestamp is None,
        current_millis(reset_model(t), now) == 0,
        t.wf() ==> reset_model(t).wf(),
{
}

/// Elapsed milliseconds from `start` to `now`, zero if `now` is earlier.
fn elapsed_millis(start: i64, now: i64) -> (r: u64)
    ensures
        r == elapsed(start, now),
{
    if now > start {
        (now as i128 - start as i128) as u64
    } else {
        0
    }
}

impl Task {
    /// A new task created at `created_at`, with nothing banked and no session.
    pub fn new_at(name: String, created_at: Stamp) -> (r: Task)
        ensures
            r@ == (TaskModel {
                name: name@,
                total_millis: 0,
                start_timestamp: None,
                is_running: false,
                created_at,
            }),
    {
        Task { name, total_millis: 0, start_timestamp: None, is_running: false, created_at }
    }

    /// A new task created now, with nothing banked and no session.
    pub fn new(name: String) -> (r: Task)
        ensures
            r@.name == name@,
            r@.total_millis == 0,
            r@.start_timestamp is None,
            !r@.is_running,
            r@.wf(),
    {
        Task::new_at(name, now_stamp())
    }

    /// Begins a session at `now` unless one is in progress.
    pub fn start_at(&mut self, now: i64)
        ensures
            final(self)@ == started(old(self)@, now),
    {
        if !self.is_running {
            self.start_timestamp = Some(now);
            self.is_running = true;
        }
    }

    /// Begins a session at the current time unless one is in progress.
    pub fn start(&mut self)
        ensures
            exists|now: i64| final(self)@ == started(old(self)@, now),
    {
        let now = now_millis();
        self.start_at(now);
    }

    /// Ends the session in progress at `now`, banking its elapsed time.
    pub fn stop_at(&mut self, now: i64)
        ensures
            final(self)@ == stopped(old(self)@, now),
    {
        if self.is_running {
            if let Some(start) = self.start_timestamp {
                let e = elapsed_millis(start, now);
                self.total_millis = self.total_millis.saturating_add(e);
            }
            self.is_running = false;
            self.start_timestamp = None;
        }
    }

    /// Ends the session in progress at the current time, banking its time.
    pub fn stop(&mut self)
        ensures
            exists|now: i64| final(self)@ == stopped(old(self)@, now),
    {
        let now = now_millis();
        self.stop_at(now);
    }

    /// Ends any session and clears the banked time.
    pub fn reset(&mut self)
        ensures
            final(self)@ == reset_model(old(self)@),
    {
        self.is_running = false;
        self.start_timestamp = None;
        self.total_millis = 0;
    }

    /// Banked time plus the live time of the session in progress at `now`.
    pub fn current_millis_at(&self, now: i64) -> (r: u64)
        ensures
            r == current_millis(self@, now),
    {
        let mut current = self.total_millis;
        if self.is_running {
            if let Some(start) = self.start_timestamp {
                current = current.saturating_add(elapsed_millis(start, now));
            }
        }
        current
    }

    /// Banked time plus the live time of the session in progress, in
    /// milliseconds, read at the current time.
    pub fn get_current_time(&self) -> (r: u64)
        ensures
            exists|now: i64| r == current_millis(self@, now),
            !self.is_running ==> r == self.total_millis,
    {
        let now = now_millis();
        self.current_millis_at(now)
    }

    /// `HH:MM:SS` for a number of whole seconds.
    pub fn format_duration(secs: u64) -> (r: String)
        ensures
            r@ == hms(secs as nat),
    {
        format_hms(secs)
    }
}

} // verus!
