//! The persisted form of the store: one flat record per task, with whole
//! seconds of banked time and no session state.

use vstd::prelude::*;
use crate::clock::Stamp;
use crate::store::{AppState, store_wf};
use crate::task::{Task, TaskModel};

verus! {

/// One task as it is saved.
pub struct TaskRecord {
    pub name: String,
    /// Banked time in whole seconds.
    pub total_time: u64,
    pub created_at: Stamp,
}

/// The mathematical value of a [`TaskRecord`].
pub struct RecordModel {
    pub name: Seq<char>,
    pub total_time: u64,
    pub created_at: Stamp,
}

impl View for TaskRecord {
    type V = RecordModel;

    open spec fn view(&self) -> RecordModel {
        RecordModel { name: self.name@, total_time: self.total_time, created_at: self.created_at }
    }
}

/// The record saved for `t`: its banked time cut to whole seconds.
pub open spec fn record_of(t: TaskModel) -> RecordModel {
    RecordModel { name: t.name, total_time: t.total_millis / 1000, created_at: t.created_at }
}

/// The records saved for a store.
pub open spec fn records_of(ts: Seq<TaskModel>) -> Seq<RecordModel> {
    ts.map_values(|t: TaskModel| record_of(t))
}

/// The task loaded from `r`: not running.
pub open spec fn task_of_record(r: RecordModel) -> TaskModel {
    TaskModel {
        name: r.name,
        total_millis: (r.total_time * 1000) as u64,
        start_timestamp: None,
        is_running: false,
        created_at: r.created_at,
    }
}

/// The tasks loaded from a list of records.
pub open spec fn tasks_of(rs: Seq<RecordModel>) -> Seq<TaskModel> {
    rs.map_values(|r: RecordModel| task_of_record(r))
}

/// Records can be loaded: names are unique, each total fits in milliseconds,
/// and each creation stamp is in range.
pub open spec fn loadable(rs: Seq<RecordModel>) -> bool {
    &&& forall|i: int, j: int| 0 <= i < j < rs.len() ==> rs[i].name != rs[j].name
    &&& forall|i: int|
        0 <= i < rs.len() ==> (#[trigger] rs[i]).total_time <= u64::MAX / 1000
            && rs[i].created_at.wf()
}

/// `t` as it is after a save and a load: banked time in whole seconds and no
/// session.
pub open spec fn settled(t: TaskModel) -> TaskModel {
    TaskModel {
        total_millis: (t.total_millis / 1000 * 1000) as u64,
        start_timestamp: None,
        is_running: false,
        ..t
    }
}

/// Loading records and saving the store again gives back the same records,
/// and the loaded store is well formed.
pub proof fn lemma_load_then_save(rs: Seq<RecordModel>)
    requires
        loadable(rs),
    ensures
        store_wf(tasks_of(rs)),
        records_of(tasks_of(rs)) == rs,
{
    let ts = tasks_of(rs);
    assert forall|i: int| 0 <= i < ts.len() implies (#[trigger] ts[i]).wf() by {
        assert(rs[i].created_at.wf());
    }
    assert(records_of(ts) =~= rs);
}

/// Saving a store and loading it again keeps every name, creation stamp and
/// whole second of banked time, and leaves no task running.
pub proof fn lemma_save_then_load(ts: Seq<TaskModel>)
    requires
        store_wf(ts),
    ensures
        loadable(records_of(ts)),
        tasks_of(records_of(ts)) == ts.map_values(|t: TaskModel| settled(t)),
{
    let rs = records_of(ts);
    assert forall|i: int| 0 <= i < rs.len() implies (#[trigger] rs[i]).total_time <= u64::MAX
        / 1000 && rs[i].created_at.wf() by {
        assert(ts[i].wf());
    }
    assert(tasks_of(rs) =~= ts.map_values(|t: TaskModel| settled(t)));
}

/// Conversions between the store and what is saved of it, and the text of
/// the report.
pub struct Persistence;

impl Persistence {
    /// The records to save for `state`, in the order of addition.
    pub fn to_records(state: &AppState) -> (r: Vec<TaskRecord>)
        ensures
            r@.map_values(|x: TaskRecord| x@) == records_of(state@),
    {
        let mut out: Vec<TaskRecord> = Vec::new();
        let mut i: usize = 0;
        let n = state.len();
        while i < n
            invariant
                0 <= i <= n,
                n == state@.len(),
                out@.len() == i,
                forall|j: int| 0 <= j < i ==> (#[trigger] out@[j])@ == record_of(state@[j]),
            decreases n - i,
        {
            let t = state.task_at(i);
            out.push(TaskRecord {
                name: t.name.clone(),
                total_time: t.total_millis / 1000,
                created_at: t.created_at,
            });
            i = i + 1;
        }
        assert(out@.map_values(|x: TaskRecord| x@) =~= records_of(state@));
        out
    }

    /// The store described by `records`, with no task running, or `None`
    /// when the records cannot be loaded.
    pub fn from_records(records: &Vec<TaskRecord>) -> (r: Option<AppState>)
        ensures
            r is Some <==> loadable(records@.map_values(|x: TaskRecord| x@)),
            r matches Some(s) ==> s@ == tasks_of(records@.map_values(|x: TaskRecord| x@))
                && s.wf(),
    {
        let ghost rs = records@.map_values(|x: TaskRecord| x@);
        let mut s = AppState::new();
        let mut i: usize = 0;
        while i < records.len()
            invariant
                0 <= i <= records.len(),
                rs == records@.map_values(|x: TaskRecord| x@),
                loadable(rs.take(i as int)),
                s@ == tasks_of(rs.take(i as int)),
                s.wf(),
            decreases records.len() - i,
        {
            let rec = &records[i];
            assert(rs[i as int] == rec@);
            if rec.total_time > u64::MAX / 1000 {
                return None;
            }
            if Stamp::new(rec.created_at.millis, rec.created_at.offset_secs).is_none() {
                return None;
            }
            match s.find(rec.name.as_str()) {
                Some(j) => {
                    assert(rs[j as int].name == rs[i as int].name);
                    return None;
                },
                None => {},
            }
            let ghost before = s@;
            let t = Task::new_at(rec.name.clone(), rec.created_at);
            let total = rec.total_time * 1000;
            let t = Task { total_millis: total, ..t };
            assert(t@ == task_of_record(rs[i as int]));
            s.push_task(t);
            proof {
                assert(rs.take(i as int + 1) =~= rs.take(i as int).push(rs[i as int]));
                assert(tasks_of(rs.take(i as int + 1)) =~= before.push(t@));
                let nxt = rs.take(i as int + 1);
                assert forall|a: int, b: int| 0 <= a < b < i + 1 implies (#[trigger] nxt[a]).name
                    != (#[trigger] nxt[b]).name by {
                    if b == i {
                        assert(before[a].name == rs[a].name);
                    } else {
                        assert(rs.take(i as int)[a] == rs[a]);
                        assert(rs.take(i as int)[b] == rs[b]);
                    }
                }
                assert forall|a: int| 0 <= a < i + 1 implies (#[trigger] rs.take(
                    i as int + 1,
                )[a]).total_time <= u64::MAX / 1000 && rs.take(i as int + 1)[a].created_at.wf() by {
                    if a < i {
                        assert(rs.take(i as int)[a] == rs[a]);
                    }
                }
            }
            i = i + 1;
        }
        assert(rs.take(records.len() as int) =~= rs);
        Some(s)
    }
}

} // verus!
