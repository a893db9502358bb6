//! The task store: tasks with unique names and the operations on them.

use vstd::prelude::*;
use crate::clock::{Stamp, local_text, now_millis, now_stamp, stamp_text};
use crate::duration::hms;
use crate::order::{
    by_creation, comes_before, created_keys, creation_order, is_permutation, lemma_by_creation,
};
use crate::task::{Task, TaskModel, current_millis, reset_model, started, stopped};

verus! {

/// Why a store operation was refused.
#[derive(Clone, Copy, Debug, PartialEq, Eq, Structural)]
pub enum StoreError {
    /// The name is empty once surrounding whitespace is removed.
    EmptyName,
    /// A task of that name exists already.
    DuplicateTask,
    /// No task has that name.
    NotFound,
    /// Reading or writing the store or an export failed.
    IoError,
    /// The shared store could not be locked.
    LockFailure,
}

/// A read-only summary of one task.
pub struct TaskDto {
    pub name: String,
    pub total_time_secs: u64,
    pub formatted_time: String,
    pub is_running: bool,
    pub created_at: String,
}

/// The mathematical value of a [`TaskDto`].
pub struct TaskDtoModel {
    pub name: Seq<char>,
    pub total_time_secs: u64,
    pub formatted_time: Seq<char>,
    pub is_running: bool,
    pub created_at: Seq<char>,
}

impl View for TaskDto {
    type V = TaskDtoModel;

    open spec fn view(&self) -> TaskDtoModel {
        TaskDtoModel {
            name: self.name@,
            total_time_secs: self.total_time_secs,
            formatted_time: self.formatted_time@,
            is_running: self.is_running,
            created_at: self.created_at@,
        }
    }
}

/// The summary of `t` as seen at `now`.
pub open spec fn dto_of(t: TaskModel, now: i64) -> TaskDtoModel {
    TaskDtoModel {
        name: t.name,
        total_time_secs: current_millis(t, now) / 1000,
        formatted_time: hms((current_millis(t, now) / 1000) as nat),
        is_running: t.is_running,
        created_at: local_text(t.created_at.millis as int, t.created_at.offset_secs as int),
    }
}

impl TaskDto {
    /// The summary of `t` as seen at `now`.
    pub fn from_task_at(t: &Task, now: i64) -> (r: TaskDto)
        requires
            t.created_at.wf(),
        ensures
            r@ == dto_of(t@, now),
    {
        let secs = t.current_millis_at(now) / 1000;
        TaskDto {
            name: t.name.clone(),
            total_time_secs: secs,
            formatted_time: Task::format_duration(secs),
            is_running: t.is_running,
            created_at: stamp_text(t.created_at),
        }
    }
}

/// The summaries of all tasks at `now`, in display order.
pub open spec fn listing(ts: Seq<TaskModel>, now: i64) -> Seq<TaskDtoModel> {
    by_creation(created_keys(ts)).map_values(|i: int| dto_of(ts[i], now))
}

/// The listing holds one summary per task, taken in an order that lists each
/// task once, with creation instants ascending whatever the storage order.
pub proof fn lemma_listing_by_creation(ts: Seq<TaskModel>, now: i64)
    ensures
        ({
            let order = by_creation(created_keys(ts));
            &&& is_permutation(order, ts.len() as int)
            &&& listing(ts, now).len() == ts.len()
            &&& forall|k: int| 0 <= k < ts.len() ==> #[trigger] listing(ts, now)[k] == dto_of(ts[order[k]], now)
            &&& forall|a: int, b: int|
                0 <= a < b < ts.len() ==> ts[#[trigger] order[a]].created_at.millis
                    <= ts[#[trigger] order[b]].created_at.millis
        }),
{
    let keys = created_keys(ts);
    lemma_by_creation(keys);
    let order = by_creation(keys);
    assert forall|a: int, b: int| 0 <= a < b < ts.len() implies ts[#[trigger] order[a]].created_at.millis
        <= ts[#[trigger] order[b]].created_at.millis by {
        assert(comes_before(keys, order[a], order[b]));
    }
}

/// No two tasks share a name.
pub open spec fn names_unique(ts: Seq<TaskModel>) -> bool {
    forall|i: int, j: int| 0 <= i < j < ts.len() ==> ts[i].name != ts[j].name
}

/// Some task is named `n`.
pub open spec fn has_name(ts: Seq<TaskModel>, n: Seq<char>) -> bool {
    exists|i: int| 0 <= i < ts.len() && ts[i].name == n
}

/// Names are unique and every task is well formed.
pub open spec fn store_wf(ts: Seq<TaskModel>) -> bool {
    &&& names_unique(ts)
    &&& forall|i: int| 0 <= i < ts.len() ==> (#[trigger] ts[i]).wf()
}

/// What `add` does to `ts` for the trimmed name `n` created at `created`.
pub open spec fn add_outcome(ts: Seq<TaskModel>, n: Seq<char>, created: Stamp) -> (
    Result<(), StoreError>,
    Seq<TaskModel>,
) {
    if n.len() == 0 {
        (Err(StoreError::EmptyName), ts)
    } else if has_name(ts, n) {
        (Err(StoreError::DuplicateTask), ts)
    } else {
        (
            Ok(()),
            ts.push(
                TaskModel {
                    name: n,
                    total_millis: 0,
                    start_timestamp: None,
                    is_running: false,
                    created_at: created,
                },
            ),
        )
    }
}

/// The position of the task named `n`, when there is one.
pub open spec fn named_index(ts: Seq<TaskModel>, n: Seq<char>) -> int {
    choose|i: int| 0 <= i < ts.len() && ts[i].name == n
}

/// What `start` at `now` does to `ts` for the name `n`.
pub open spec fn start_outcome(ts: Seq<TaskModel>, n: Seq<char>, now: i64) -> (
    Result<(), StoreError>,
    Seq<TaskModel>,
) {
    if has_name(ts, n) {
        let i = named_index(ts, n);
        (Ok(()), ts.update(i, started(ts[i], now)))
    } else {
        (Err(StoreError::NotFound), ts)
    }
}

/// What `stop` at `now` does to `ts` for the name `n`.
pub open spec fn stop_outcome(ts: Seq<TaskModel>, n: Seq<char>, now: i64) -> (
    Result<(), StoreError>,
    Seq<TaskModel>,
) {
    if has_name(ts, n) {
        let i = named_index(ts, n);
        (Ok(()), ts.update(i, stopped(ts[i], now)))
    } else {
        (Err(StoreError::NotFound), ts)
    }
}

/// What `reset` does to `ts` for the name `n`.
pub open spec fn reset_outcome(ts: Seq<TaskModel>, n: Seq<char>) -> (
    Result<(), StoreError>,
    Seq<TaskModel>,
) {
    if has_name(ts, n) {
        let i = named_index(ts, n);
        (Ok(()), ts.update(i, reset_model(ts[i])))
    } else {
        (Err(StoreError::NotFound), ts)
    }
}

/// What `delete` does to `ts` for the name `n`.
pub open spec fn delete_outcome(ts: Seq<TaskModel>, n: Seq<char>) -> (
    Result<(), StoreError>,
    Seq<TaskModel>,
) {
    if has_name(ts, n) {
        (Ok(()), ts.remove(named_index(ts, n)))
    } else {
        (Err(StoreError::NotFound), ts)
    }
}

/// The text of `s` with leading and trailing whitespace removed, as
/// `str::trim` computes it.
pub uninterp spec fn trimmed(s: Seq<char>) -> Seq<char>;

/// Relies on `str::trim`: the name without surrounding whitespace. Trimming
/// an empty string leaves it empty.
#[verifier::external_body]
fn trim_name(s: &str) -> (r: String)
    ensures
        r@ == trimmed(s@),
        s@.len() == 0 ==> r@.len() == 0,
{
    s.trim().to_string()
}

/// With unique names, the task named `ts[i].name` is the one at `i`.
pub proof fn lemma_named_index(ts: Seq<TaskModel>, n: Seq<char>, i: int)
    requires
        names_unique(ts),
        0 <= i < ts.len(),
        ts[i].name == n,
    ensures
        has_name(ts, n),
        named_index(ts, n) == i,
{
    assert(has_name(ts, n));
}

/// Adding the same name twice fails the second time, and an empty name is
/// refused.
pub proof fn lemma_add_twice(ts: Seq<TaskModel>, n: Seq<char>, c1: Stamp, c2: Stamp)
    ensures
        n.len() > 0 && !has_name(ts, n) ==> add_outcome(ts, n, c1).0 == Ok::<(), StoreError>(()),
        n.len() > 0 && !has_name(ts, n) ==> add_outcome(add_outcome(ts, n, c1).1, n, c2)
            == (Err::<(), StoreError>(StoreError::DuplicateTask), add_outcome(ts, n, c1).1),
        add_outcome(ts, Seq::empty(), c1) == (Err::<(), StoreError>(StoreError::EmptyName), ts),
{
    if n.len() > 0 && !has_name(ts, n) {
        let s1 = add_outcome(ts, n, c1).1;
        assert(s1[ts.len() as int].name == n);
    }
}

/// Every operation on a name that no task has fails with `NotFound` and
/// leaves the store as it was.
pub proof fn lemma_absent_not_found(ts: Seq<TaskModel>, n: Seq<char>, now: i64)
    requires
        !has_name(ts, n),
    ensures
        start_outcome(ts, n, now) == (Err::<(), StoreError>(StoreError::NotFound), ts),
        stop_outcome(ts, n, now) == (Err::<(), StoreError>(StoreError::NotFound), ts),
        reset_outcome(ts, n) == (Err::<(), StoreError>(StoreError::NotFound), ts),
        delete_outcome(ts, n) == (Err::<(), StoreError>(StoreError::NotFound), ts),
{
}

/// Adding a task, starting it, stopping it and resetting it all succeed, and
/// leave the task with a current time of zero and no session.
pub proof fn lemma_add_start_stop_reset(
    ts: Seq<TaskModel>,
    n: Seq<char>,
    created: Stamp,
    t0: i64,
    t1: i64,
    now: i64,
)
    requires
        store_wf(ts),
        created.wf(),
        n.len() > 0,
        !has_name(ts, n),
    ensures
        ({
            let (r1, s1) = add_outcome(ts, n, created);
            let (r2, s2) = start_outcome(s1, n, t0);
            let (r3, s3) = stop_outcome(s2, n, t1);
            let (r4, s4) = reset_outcome(s3, n);
            &&& r1 is Ok && r2 is Ok && r3 is Ok && r4 is Ok
            &&& s4.len() == ts.len() + 1
            &&& s4[ts.len() as int].name == n
            &&& current_millis(s4[ts.len() as int], now) == 0
            &&& !s4[ts.len() as int].is_running
            &&& store_wf(s4)
        }),
{
    let i = ts.len() as int;
    let s1 = add_outcome(ts, n, created).1;
    assert(store_wf(s1)) by {
        assert(forall|j: int| 0 <= j < ts.len() ==> s1[j] == ts[j]);
    }
    lemma_named_index(s1, n, i);
    let s2 = start_outcome(s1, n, t0).1;
    assert(names_unique(s2)) by {
        assert(forall|j: int| 0 <= j < s2.len() ==> s2[j].name == s1[j].name);
    }
    lemma_named_index(s2, n, i);
    let s3 = stop_outcome(s2, n, t1).1;
    assert(names_unique(s3)) by {
        assert(forall|j: int| 0 <= j < s3.len() ==> s3[j].name == s1[j].name);
    }
    lemma_named_index(s3, n, i);
    let s4 = reset_outcome(s3, n).1;
    assert(store_wf(s4)) by {
        assert(forall|j: int| 0 <= j < s4.len() ==> s4[j].name == s1[j].name);
        assert(forall|j: int| 0 <= j < s4.len() && j != i ==> s4[j] == ts[j]);
    }
}

/// All tasks, kept in the order in which they were added.
pub struct AppState {
    tasks: Vec<Task>,
}

impl View for AppState {
    type V = Seq<TaskModel>;

    closed spec fn view(&self) -> Seq<TaskModel> {
        self.tasks@.map_values(|t: Task| t@)
    }
}

impl AppState {
    /// Names are unique and every task is well formed.
    pub open spec fn wf(&self) -> bool {
        store_wf(self@)
    }

    /// An empty store.
    pub fn new() -> (r: AppState)
        ensures
            r@ == Seq::<TaskModel>::empty(),
            r.wf(),
    {
        let r = AppState { tasks: Vec::new() };
        assert(r@ =~= Seq::<TaskModel>::empty());
        r
    }

    /// Number of tasks.
    pub fn len(&self) -> (r: usize)
        ensures
            r == self@.len(),
    {
        self.tasks.len()
    }

    /// The task at position `i`, in the order of addition.
    pub fn task_at(&self, i: usize) -> (r: &Task)
        requires
            i < self@.len(),
        ensures
            r@ == self@[i as int],
    {
        &self.tasks[i]
    }

    /// Appends a task; the caller has checked that its name is new.
    pub(crate) fn push_task(&mut self, t: Task)
        requires
            old(self).wf(),
            t@.wf(),
            !has_name(old(self)@, t@.name),
        ensures
            final(self)@ == old(self)@.push(t@),
            final(self).wf(),
    {
        let ghost before = self@;
        self.tasks.push(t);
        assert(self@ =~= before.push(t@));
    }

    /// The position of the task named `name`, if any.
    pub fn find(&self, name: &str) -> (r: Option<usize>)
        ensures
            match r {
                Some(i) => i < self@.len() && self@[i as int].name == name@,
                None => !has_name(self@, name@),
            },
    {
        let key = String::from_str(name);
        let mut i: usize = 0;
        while i < self.tasks.len()
            invariant
                0 <= i <= self.tasks.len(),
                key@ == name@,
                forall|j: int| 0 <= j < i ==> self@[j].name != name@,
            decreases self.tasks.len() - i,
        {
            if self.tasks[i].name == key {
                return Some(i);
            }
            i = i + 1;
        }
        None
    }

    /// Adds a task named `name`, which is already trimmed, created at
    /// `created`.
    pub fn add_trimmed_at(&mut self, name: String, created: Stamp) -> (r: Result<(), StoreError>)
        requires
            old(self).wf(),
            created.wf(),
        ensures
            (r, final(self)@) == add_outcome(old(self)@, name@, created),
            final(self).wf(),
    {
        if name.as_str().is_empty() {
            return Err(StoreError::EmptyName);
        }
        match self.find(name.as_str()) {
            Some(_) => Err(StoreError::DuplicateTask),
            None => {
                let t = Task::new_at(name, created);
                self.push_task(t);
                Ok(())
            },
        }
    }

    /// Adds a task named `name` without its surrounding whitespace, created
    /// now.
    pub fn add_task(&mut self, name: String) -> (r: Result<(), StoreError>)
        requires
            old(self).wf(),
        ensures
            exists|created: Stamp|
                created.wf() && (r, final(self)@) == add_outcome(old(self)@, trimmed(name@), created),
            final(self).wf(),
    {
        let key = trim_name(name.as_str());
        let created = now_stamp();
        self.add_trimmed_at(key, created)
    }

    /// Starts the task named `name` at `now`.
    pub fn start_task_at(&mut self, name: &str, now: i64) -> (r: Result<(), StoreError>)
        requires
            old(self).wf(),
        ensures
            (r, final(self)@) == start_outcome(old(self)@, name@, now),
            final(self).wf(),
    {
        let ghost before = self@;
        match self.find(name) {
            None => Err(StoreError::NotFound),
            Some(i) => {
                self.tasks[i].start_at(now);
                proof { self.lemma_updated(before, name@, i as int, started(before[i as int], now)); }
                Ok(())
            },
        }
    }

    /// Stops the task named `name` at `now`, banking its session.
    pub fn stop_task_at(&mut self, name: &str, now: i64) -> (r: Result<(), StoreError>)
        requires
            old(self).wf(),
        ensures
            (r, final(self)@) == stop_outcome(old(self)@, name@, now),
            final(self).wf(),
    {
        let ghost before = self@;
        match self.find(name) {
            None => Err(StoreError::NotFound),
            Some(i) => {
                self.tasks[i].stop_at(now);
                proof { self.lemma_updated(before, name@, i as int, stopped(before[i as int], now)); }
                Ok(())
            },
        }
    }

    /// Resets the task named `name`: no session and nothing banked.
    pub fn reset_task(&mut self, name: &str) -> (r: Result<(), StoreError>)
        requires
            old(self).wf(),
        ensures
            (r, final(self)@) == reset_outcome(old(self)@, name@),
            final(self).wf(),
    {
        let ghost before = self@;
        match self.find(name) {
            None => Err(StoreError::NotFound),
            Some(i) => {
                self.tasks[i].reset();
                proof { self.lemma_updated(before, name@, i as int, reset_model(before[i as int])); }
                Ok(())
            },
        }
    }

    /// Starts the task named `name` at the current time.
    pub fn start_task(&mut self, name: &str) -> (r: Result<(), StoreError>)
        requires
            old(self).wf(),
        ensures
            exists|now: i64|
                (r, final(self)@) == #[trigger] start_outcome(old(self)@, name@, now),
            final(self).wf(),
    {
        let now = now_millis();
        self.start_task_at(name, now)
    }

    /// Stops the task named `name` at the current time.
    pub fn stop_task(&mut self, name: &str) -> (r: Result<(), StoreError>)
        requires
            old(self).wf(),
        ensures
            exists|now: i64|
                (r, final(self)@) == #[trigger] stop_outcome(old(self)@, name@, now),
            final(self).wf(),
    {
        let now = now_millis();
        self.stop_task_at(name, now)
    }

    /// Removes the task named `name`.
    pub fn delete_task(&mut self, name: &str) -> (r: Result<(), StoreError>)
        requires
            old(self).wf(),
        ensures
            (r, final(self)@) == delete_outcome(old(self)@, name@),
            final(self).wf(),
    {
        let ghost before = self@;
        match self.find(name) {
            None => Err(StoreError::NotFound),
            Some(i) => {
                self.tasks.remove(i);
                proof {
                    lemma_named_index(before, name@, i as int);
                    assert(self@ =~= before.remove(i as int));
                }
                Ok(())
            },
        }
    }

    proof fn lemma_updated(&self, before: Seq<TaskModel>, n: Seq<char>, i: int, x: TaskModel)
        requires
            store_wf(before),
            0 <= i < before.len(),
            before[i].name == n,
            self.tasks@.len() == before.len(),
            forall|j: int| 0 <= j < before.len() && j != i ==> #[trigger] self.tasks@[j]@ == before[j],
            self.tasks@[i]@ == x,
            x.name == n,
            x.wf(),
        ensures
            has_name(before, n),
            named_index(before, n) == i,
            self@ == before.update(i, x),
            self.wf(),
    {
        lemma_named_index(before, n, i);
        assert(self@ =~= before.update(i, x));
    }

    /// Summaries of all tasks at `now`, in display order.
    pub fn get_tasks_at(&self, now: i64) -> (r: Vec<TaskDto>)
        requires
            self.wf(),
        ensures
            r@.map_values(|d: TaskDto| d@) == listing(self@, now),
    {
        let order = creation_order(&self.tasks);
        let ghost ts = self@;
        let ghost ord = by_creation(created_keys(ts));
        proof {
            lemma_by_creation(created_keys(ts));
            assert(self.tasks@.map_values(|t: Task| t@) == ts);
        }
        let mut out: Vec<TaskDto> = Vec::new();
        let mut k: usize = 0;
        while k < order.len()
            invariant
                0 <= k <= order.len(),
                order@.len() == ord.len(),
                ord.len() == ts.len(),
                out@.len() == k,
                ts == self@,
                store_wf(ts),
                forall|a: int| 0 <= a < ord.len() ==> 0 <= #[trigger] ord[a] < ts.len(),
                forall|a: int| 0 <= a < ord.len() ==> #[trigger] order@[a] as int == ord[a],
                out@.map_values(|d: TaskDto| d@) == ord.take(k as int).map_values(
                    |i: int| dto_of(ts[i], now),
                ),
            decreases order.len() - k,
        {
            let idx = order[k];
            assert(order@[k as int] as int == ord[k as int]);
            let t = &self.tasks[idx];
            assert(t@ == ts[idx as int]);
            assert(ts[idx as int].wf());
            let dto = TaskDto::from_task_at(t, now);
            assert(dto@ == dto_of(ts[ord[k as int]], now));
            let ghost old_out = out@;
            let ghost item = dto@;
            out.push(dto);
            proof {
                let lhs = out@.map_values(|d: TaskDto| d@);
                let rhs = ord.take(k as int + 1).map_values(|i: int| dto_of(ts[i], now));
                let pre = ord.take(k as int).map_values(|i: int| dto_of(ts[i], now));
                assert forall|j: int| 0 <= j < k + 1 implies lhs[j] == rhs[j] by {
                    if j < k {
                        assert(out@[j] == old_out[j]);
                        assert(lhs[j] == old_out.map_values(|d: TaskDto| d@)[j]);
                        assert(pre[j] == rhs[j]);
                    } else {
                        assert(out@[j]@ == item);
                    }
                }
                assert(lhs =~= rhs);
            }
            k = k + 1;
        }
        assert(ord.take(ord.len() as int) =~= ord);
        out
    }

    /// Summaries of all tasks at the current time, in display order.
    pub fn get_tasks(&self) -> (r: Vec<TaskDto>)
        requires
            self.wf(),
        ensures
            exists|now: i64| r@.map_values(|d: TaskDto| d@) == listing(self@, now),
    {
        let now = now_millis();
        self.get_tasks_at(now)
    }
}

} // verus!
