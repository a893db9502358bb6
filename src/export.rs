//! The plain-text report of all tasks.

use vstd::prelude::*;
use crate::clock::{Stamp, local_text, now_millis, now_stamp, stamp_text};
use crate::records::Persistence;
use crate::store::{AppState, TaskDto, TaskDtoModel, listing};

verus! {

/// The report lines of one task, followed by a blank line.
pub open spec fn entry_text(d: TaskDtoModel) -> Seq<char> {
    "Task: "@ + d.name + "\nTotal Time: "@ + d.formatted_time + (if d.is_running {
        " (Running)"@
    } else {
        Seq::empty()
    }) + "\nCreated: "@ + d.created_at + "\n\n"@
}

/// The report lines of each task in turn.
pub open spec fn entries_text(ds: Seq<TaskDtoModel>) -> Seq<char>
    decreases ds.len(),
{
    if ds.len() == 0 {
        Seq::empty()
    } else {
        entries_text(ds.drop_last()) + entry_text(ds.last())
    }
}

/// The whole report: a title, the time it was generated, a blank line, then
/// each task.
pub open spec fn report_text(generated: Seq<char>, ds: Seq<TaskDtoModel>) -> Seq<char> {
    "Time Tracker Export\nGenerated on: "@ + generated + "\n\n"@ + entries_text(ds)
}

impl Persistence {
    /// The report for the summaries `dtos`, in their order, generated at the
    /// time whose text is `generated`.
    pub fn render_report(generated: &str, dtos: &Vec<TaskDto>) -> (r: String)
        ensures
            r@ == report_text(generated@, dtos@.map_values(|d: TaskDto| d@)),
    {
        let ghost ds = dtos@.map_values(|d: TaskDto| d@);
        let mut out = String::from_str("Time Tracker Export\nGenerated on: ");
        out.append(generated);
        out.append("\n\n");
        let ghost head = out@;
        assert(ds.take(0) =~= Seq::<TaskDtoModel>::empty());
        let mut k: usize = 0;
        while k < dtos.len()
            invariant
                0 <= k <= dtos.len(),
                ds == dtos@.map_values(|d: TaskDto| d@),
                out@ == head + entries_text(ds.take(k as int)),
            decreases dtos.len() - k,
        {
            let d = &dtos[k];
            out.append("Task: ");
            out.append(d.name.as_str());
            out.append("\nTotal Time: ");
            out.append(d.formatted_time.as_str());
            if d.is_running {
                out.append(" (Running)");
            }
            out.append("\nCreated: ");
            out.append(d.created_at.as_str());
            out.append("\n\n");
            assert(ds.take(k as int + 1).drop_last() =~= ds.take(k as int));
            assert(ds.take(k as int + 1).last() == d@);
            assert(out@ =~= head + entries_text(ds.take(k as int + 1)));
            k = k + 1;
        }
        assert(ds.take(dtos.len() as int) =~= ds);
        out
    }
}

impl AppState {
    /// The report of all tasks as seen at `now`, stamped `generated`, with
    /// the tasks in display order.
    pub fn export_text_at(&self, now: i64, generated: Stamp) -> (r: String)
        requires
            self.wf(),
            generated.wf(),
        ensures
            r@ == report_text(
                local_text(generated.millis as int, generated.offset_secs as int),
                listing(self@, now),
            ),
    {
        let dtos = self.get_tasks_at(now);
        let stamp = stamp_text(generated);
        Persistence::render_report(stamp.as_str(), &dtos)
    }

    /// The report of all tasks, generated now.
    pub fn export_text(&self) -> (r: String)
        requires
            self.wf(),
        ensures
            exists|now: i64, generated: Stamp|
                generated.wf() && r@ == #[trigger] report_text(
                    local_text(generated.millis as int, generated.offset_secs as int),
                    listing(self@, now),
                ),
    {
        let now = now_millis();
        let generated = now_stamp();
        self.export_text_at(now, generated)
    }
}

} // verus!
