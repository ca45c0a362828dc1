//! Rolling up the scheduler's per-task status records.

use crate::decimal::{decimal, push_decimal};
use crate::split::{lines, split_lines, split_words, views, words};
use crate::text::{from_chars, spells, to_chars};
use vstd::prelude::*;
use vstd::string::StringExecFns;

verus! {

/// Why a task ended with an error, as far as its exit code tells.
#[derive(Debug, Clone, Copy, PartialEq, Eq, Structural)]
pub enum FailureReason {
    /// Exit code 2.
    Killed,
    /// Exit code 130.
    MemoryError,
    /// Exit code 137.
    OutOfMemory,
    /// Exit code 143.
    Timeout,
    /// Any other exit code.
    Unknown,
}

/// One task that ended with an error.
#[derive(Debug, Clone, PartialEq, Eq)]
pub struct Failure {
    /// The name of the task.
    pub task_name: String,
    /// The exit code as the scheduler wrote it.
    pub exit_code: String,
    /// What the exit code stands for.
    pub reason: FailureReason,
}

/// A failure as plain text.
pub struct FailureText {
    pub task_name: Seq<char>,
    pub exit_code: Seq<char>,
    pub reason: FailureReason,
}

impl View for Failure {
    type V = FailureText;

    open spec fn view(&self) -> FailureText {
        FailureText {
            task_name: self.task_name@,
            exit_code: self.exit_code@,
            reason: self.reason,
        }
    }
}

impl DeepView for Failure {
    type V = FailureText;

    open spec fn deep_view(&self) -> FailureText {
        self@
    }
}

/// The state of the tasks of one array at one moment.
#[derive(Debug, Clone, PartialEq, Eq)]
pub struct StatusReport {
    /// The tasks that are done.
    pub done_count: usize,
    /// The tasks that are running.
    pub running_count: usize,
    /// The tasks that wait to run.
    pub pending_count: usize,
    /// The tasks in any other state but failure.
    pub other_count: usize,
    /// The tasks that ended with an error, in the order of their records.
    pub failures: Vec<Failure>,
}

/// A report as plain values.
pub struct ReportText {
    pub done_count: nat,
    pub running_count: nat,
    pub pending_count: nat,
    pub other_count: nat,
    pub failures: Seq<FailureText>,
}

impl View for StatusReport {
    type V = ReportText;

    open spec fn view(&self) -> ReportText {
        ReportText {
            done_count: self.done_count as nat,
            running_count: self.running_count as nat,
            pending_count: self.pending_count as nat,
            other_count: self.other_count as nat,
            failures: self.failures.deep_view(),
        }
    }
}

impl ReportText {
    /// Whether the array has come through: every task on record is done.
    pub open spec fn succeeded(self) -> bool {
        &&& self.running_count == 0
        &&& self.pending_count == 0
        &&& self.other_count == 0
        &&& self.failures.len() == 0
    }

    /// The number of tasks on record.
    pub open spec fn task_count(self) -> nat {
        self.done_count + self.running_count + self.pending_count + self.other_count
            + self.failures.len()
    }
}

/// The report of an array without a task on record.
pub open spec fn empty_report() -> ReportText {
    ReportText {
        done_count: 0,
        running_count: 0,
        pending_count: 0,
        other_count: 0,
        failures: Seq::empty(),
    }
}

/// What an exit code stands for.
pub open spec fn reason_of(exit_code: Seq<char>) -> FailureReason {
    if exit_code == "2"@ {
        FailureReason::Killed
    } else if exit_code == "130"@ {
        FailureReason::MemoryError
    } else if exit_code == "137"@ {
        FailureReason::OutOfMemory
    } else if exit_code == "143"@ {
        FailureReason::Timeout
    } else {
        FailureReason::Unknown
    }
}

/// Whether a record is taken into the report: it has a name, a state and an
/// exit code.
pub open spec fn on_record(fields: Seq<Seq<char>>) -> bool {
    fields.len() >= 3
}

/// `report` with the record `fields` taken in. A record of fewer than three
/// fields changes nothing. Otherwise the second field decides: `EXIT` adds a
/// failure with the name and the exit code of the record, `RUN`, `PEND` and
/// `DONE` count in their buckets, and any other state counts as unfinished.
pub open spec fn record(report: ReportText, fields: Seq<Seq<char>>) -> ReportText {
    if !on_record(fields) {
        report
    } else if fields[1] == "EXIT"@ {
        ReportText {
            failures: report.failures.push(
                FailureText {
                    task_name: fields[0],
                    exit_code: fields[2],
                    reason: reason_of(fields[2]),
                },
            ),
            ..report
        }
    } else if fields[1] == "RUN"@ {
        ReportText { running_count: report.running_count + 1, ..report }
    } else if fields[1] == "PEND"@ {
        ReportText { pending_count: report.pending_count + 1, ..report }
    } else if fields[1] == "DONE"@ {
        ReportText { done_count: report.done_count + 1, ..report }
    } else {
        ReportText { other_count: report.other_count + 1, ..report }
    }
}

/// The report of the records `records`, each a line of the scheduler's
/// answer, taken in from first to last.
pub open spec fn tally(records: Seq<Seq<char>>) -> ReportText
    decreases records.len(),
{
    if records.len() == 0 {
        empty_report()
    } else {
        record(tally(records.drop_last()), words(records.last()))
    }
}

/// The report that the scheduler's answer to a status query gives: one
/// record per line, its fields parted by whitespace.
pub open spec fn status_report(output: Seq<char>) -> ReportText {
    tally(lines(output))
}

/// Whether the record `line` tells of a task that is done, or of none.
pub open spec fn tells_done(line: Seq<char>) -> bool {
    on_record(words(line)) ==> words(line)[1] == "DONE"@
}

/// The report counts no more tasks than there are records.
pub proof fn lemma_tally_count(records: Seq<Seq<char>>)
    ensures
        tally(records).task_count() <= records.len(),
    decreases records.len(),
{
    if records.len() > 0 {
        lemma_tally_count(records.drop_last());
    }
}

/// The state `DONE` is none of the states `EXIT`, `RUN` and `PEND`.
pub proof fn lemma_done_is_no_other_state()
    ensures
        "DONE"@ != "EXIT"@,
        "DONE"@ != "RUN"@,
        "DONE"@ != "PEND"@,
{
    reveal_strlit("EXIT");
    reveal_strlit("RUN");
    reveal_strlit("PEND");
    reveal_strlit("DONE");
    assert("DONE"@[0] != "EXIT"@[0]);
    assert("DONE"@.len() != "RUN"@.len());
    assert("DONE"@[0] != "PEND"@[0]);
}

/// The array has come through exactly when every record that is taken in
/// tells of a task that is done.
pub proof fn lemma_success_is_all_done(records: Seq<Seq<char>>)
    ensures
        tally(records).succeeded() <==> forall|i: int|
            0 <= i < records.len() ==> tells_done(#[trigger] records[i]),
    decreases records.len(),
{
    if records.len() > 0 {
        let rest = records.drop_last();
        lemma_success_is_all_done(rest);
        lemma_done_is_no_other_state();
        let fields = words(records.last());
        assert(tally(records) == record(tally(rest), fields));
        if tally(records).succeeded() {
            assert(tally(rest).succeeded());
            assert(tells_done(records.last()));
            assert forall|i: int| 0 <= i < records.len() implies tells_done(
                #[trigger] records[i],
            ) by {
                if i < rest.len() {
                    assert(tells_done(rest[i]));
                }
            }
        }
        if forall|i: int| 0 <= i < records.len() ==> tells_done(#[trigger] records[i]) {
            assert forall|i: int| 0 <= i < rest.len() implies tells_done(#[trigger] rest[i]) by {
                assert(tells_done(records[i]));
            }
            assert(tells_done(records[records.len() - 1]));
        }
    }
}

impl StatusReport {
    /// Whether the array has come through: every task on record is done and
    /// none has failed.
    pub fn is_success(&self) -> (yes: bool)
        ensures
            yes == self@.succeeded(),
    {
        self.running_count == 0 && self.pending_count == 0 && self.other_count == 0
            && self.failures.len() == 0
    }
}

/// What an exit code stands for.
pub fn failure_reason(exit_code: &Vec<char>) -> (reason: FailureReason)
    ensures
        reason == reason_of(exit_code@),
{
    if spells(exit_code, "2") {
        FailureReason::Killed
    } else if spells(exit_code, "130") {
        FailureReason::MemoryError
    } else if spells(exit_code, "137") {
        FailureReason::OutOfMemory
    } else if spells(exit_code, "143") {
        FailureReason::Timeout
    } else {
        FailureReason::Unknown
    }
}

/// Rolls up the scheduler's answer to a status query: one record per line,
/// each with the name of a task, its state and its exit code.
pub fn check_jobs(output: &str) -> (report: StatusReport)
    ensures
        report@ == status_report(output@),
{
    let chars = to_chars(output);
    let records = split_lines(&chars);
    let ghost all = views(records@);
    let mut report = StatusReport {
        done_count: 0,
        running_count: 0,
        pending_count: 0,
        other_count: 0,
        failures: Vec::new(),
    };
    proof {
        assert(report@.failures =~= empty_report().failures);
        assert(all.take(0) =~= Seq::empty());
    }
    let mut i: usize = 0;
    while i < records.len()
        invariant
            i <= records.len(),
            all == views(records@),
            report@ == tally(all.take(i as int)),
        decreases records.len() - i,
    {
        proof {
            assert(all.take(i + 1).drop_last() == all.take(i as int));
            assert(all.take(i + 1).last() == records[i as int]@);
            lemma_tally_count(all.take(i as int));
        }
        let fields = split_words(&records[i]);
        let ghost before = report@;
        if fields.len() >= 3 {
            if spells(&fields[1], "EXIT") {
                let failure = Failure {
                    task_name: from_chars(&fields[0]),
                    exit_code: from_chars(&fields[2]),
                    reason: failure_reason(&fields[2]),
                };
                let ghost entry = failure@;
                report.failures.push(failure);
                proof {
                    assert(report.failures.deep_view() =~= before.failures.push(entry));
                }
            } else if spells(&fields[1], "RUN") {
                report.running_count = report.running_count + 1;
            } else if spells(&fields[1], "PEND") {
                report.pending_count = report.pending_count + 1;
            } else if spells(&fields[1], "DONE") {
                report.done_count = report.done_count + 1;
            } else {
                report.other_count = report.other_count + 1;
            }
        }
        proof {
            if fields.len() >= 3 {
                assert(views(fields@)[0] == fields[0]@);
            }
            assert(report@ == record(before, views(fields@)));
        }
        i = i + 1;
    }
    proof {
        assert(all.take(records.len() as int) == all);
    }
    report
}

/// The words for a reason.
pub open spec fn reason_label(reason: FailureReason) -> Seq<char> {
    match reason {
        FailureReason::Killed => "Killed"@,
        FailureReason::MemoryError => "Memory error"@,
        FailureReason::OutOfMemory => "Killed (OOM)"@,
        FailureReason::Timeout => "Timeout"@,
        FailureReason::Unknown => "Unknown error"@,
    }
}

/// The signs that go with a reason in a report.
pub open spec fn reason_signs(reason: FailureReason) -> Seq<char> {
    match reason {
        FailureReason::Killed => "💀"@,
        FailureReason::MemoryError => "🧠💾"@,
        FailureReason::OutOfMemory => "💀🛑💾"@,
        FailureReason::Timeout => "⏳"@,
        FailureReason::Unknown => "❓🚨"@,
    }
}

impl FailureReason {
    /// The words for this reason.
    pub fn label(&self) -> (words: String)
        ensures
            words@ == reason_label(*self),
    {
        match self {
            FailureReason::Killed => String::from_str("Killed"),
            FailureReason::MemoryError => String::from_str("Memory error"),
            FailureReason::OutOfMemory => String::from_str("Killed (OOM)"),
            FailureReason::Timeout => String::from_str("Timeout"),
            FailureReason::Unknown => String::from_str("Unknown error"),
        }
    }

    /// The signs that go with this reason in a report.
    pub fn signs(&self) -> (signs: String)
        ensures
            signs@ == reason_signs(*self),
    {
        match self {
            FailureReason::Killed => String::from_str("💀"),
            FailureReason::MemoryError => String::from_str("🧠💾"),
            FailureReason::OutOfMemory => String::from_str("💀🛑💾"),
            FailureReason::Timeout => String::from_str("⏳"),
            FailureReason::Unknown => String::from_str("❓🚨"),
        }
    }
}

/// The line of a report that tells of one failure.
pub open spec fn failure_line(failure: FailureText) -> Seq<char> {
    "  - "@ + failure.task_name + " Exit Code "@ + failure.exit_code + ": "@ + reason_label(
        failure.reason,
    ) + " "@ + reason_signs(failure.reason)
}

/// The lines of a report that tell of the failures, one each, in order.
pub open spec fn failure_lines(failures: Seq<FailureText>) -> Seq<Seq<char>> {
    Seq::new(failures.len(), |i: int| failure_line(failures[i]))
}

/// The line that tells that the array has come through.
pub open spec fn success_line(job_id: Seq<char>) -> Seq<char> {
    "✅ All jobs in array "@ + job_id + " completed successfully!"@
}

/// The line that tells how many tasks are running.
pub open spec fn running_line(count: nat) -> Seq<char> {
    "🚀 "@ + decimal(count) + " jobs are currently running!"@
}

/// The line that tells how many tasks wait to run.
pub open spec fn pending_line(count: nat) -> Seq<char> {
    "⏳ "@ + decimal(count) + " jobs are still pending!"@
}

/// The line that tells how many tasks are done.
pub open spec fn done_line(count: nat) -> Seq<char> {
    "✅ "@ + decimal(count) + " jobs have completed successfully!"@
}

/// The line that heads the failures.
pub open spec fn issues_line(job_id: Seq<char>) -> Seq<char> {
    "❌ Some jobs in array "@ + job_id + " had issues:"@
}

/// `line` alone where `shown` holds, else nothing.
pub open spec fn line_if(shown: bool, line: Seq<char>) -> Seq<Seq<char>> {
    if shown {
        seq![line]
    } else {
        Seq::empty()
    }
}

/// The lines that tell the operator of a report. An array that has come
/// through gets one line that says so. Any other gets a line for each of the
/// running, the pending and the done tasks where there are any, and then,
/// where tasks have failed, a heading and a line for each failure.
pub open spec fn rollup(report: ReportText, job_id: Seq<char>) -> Seq<Seq<char>> {
    if report.succeeded() {
        seq![success_line(job_id)]
    } else {
        line_if(report.running_count > 0, running_line(report.running_count)) + line_if(
            report.pending_count > 0,
            pending_line(report.pending_count),
        ) + line_if(report.done_count > 0, done_line(report.done_count)) + line_if(
            report.failures.len() > 0,
            issues_line(job_id),
        ) + failure_lines(report.failures)
    }
}

/// A line made of a count between two texts.
fn counted_line(before: &str, count: usize, after: &str) -> (line: String)
    ensures
        line@ == before@ + decimal(count as nat) + after@,
{
    let mut line = String::from_str(before);
    push_decimal(&mut line, count as u64);
    line.append(after);
    line
}

/// The line of a report that tells of `failure`.
fn render_failure(failure: &Failure) -> (line: String)
    ensures
        line@ == failure_line(failure@),
{
    let mut line = String::from_str("  - ");
    line.append(failure.task_name.as_str());
    line.append(" Exit Code ");
    line.append(failure.exit_code.as_str());
    line.append(": ");
    line.append(failure.reason.label().as_str());
    line.append(" ");
    line.append(failure.reason.signs().as_str());
    line
}

/// Puts `line` at the end of `out`.
fn push_line(out: &mut Vec<String>, line: String)
    ensures
        final(out).deep_view() == old(out).deep_view().push(line@),
{
    out.push(line);
    proof {
        assert(out.deep_view() =~= old(out).deep_view().push(line@));
    }
}

/// The lines that tell the operator of `report`, the report of the array
/// `job_id`.
pub fn report_lines(report: &StatusReport, job_id: &str) -> (out: Vec<String>)
    ensures
        out.deep_view() == rollup(report@, job_id@),
{
    let mut out: Vec<String> = Vec::new();
    proof {
        assert(out.deep_view() =~= Seq::empty());
    }
    if report.is_success() {
        let mut line = String::from_str("✅ All jobs in array ");
        line.append(job_id);
        line.append(" completed successfully!");
        push_line(&mut out, line);
        proof {
            assert(out.deep_view() =~= seq![success_line(job_id@)]);
        }
        return out;
    }
    let ghost view = report@;
    let ghost first = line_if(view.running_count > 0, running_line(view.running_count));
    let ghost second = first + line_if(view.pending_count > 0, pending_line(view.pending_count));
    let ghost third = second + line_if(view.done_count > 0, done_line(view.done_count));
    let ghost fourth = third + line_if(view.failures.len() > 0, issues_line(job_id@));
    if report.running_count > 0 {
        push_line(&mut out, counted_line("🚀 ", report.running_count, " jobs are currently running!"));
    }
    assert(out.deep_view() =~= first);
    if report.pending_count > 0 {
        push_line(&mut out, counted_line("⏳ ", report.pending_count, " jobs are still pending!"));
    }
    assert(out.deep_view() =~= second);
    if report.done_count > 0 {
        push_line(
            &mut out,
            counted_line("✅ ", report.done_count, " jobs have completed successfully!"),
        );
    }
    assert(out.deep_view() =~= third);
    if report.failures.len() > 0 {
        let mut line = String::from_str("❌ Some jobs in array ");
        line.append(job_id);
        line.append(" had issues:");
        push_line(&mut out, line);
    }
    assert(out.deep_view() =~= fourth);
    let mut i: usize = 0;
    while i < report.failures.len()
        invariant
            i <= report.failures.len(),
            view == report@,
            out.deep_view() == fourth + failure_lines(view.failures).take(i as int),
        decreases report.failures.len() - i,
    {
        let ghost before = out.deep_view();
        push_line(&mut out, render_failure(&report.failures[i]));
        proof {
            let all = failure_lines(view.failures);
            assert(all.take(i + 1) =~= all.take(i as int).push(all[i as int]));
            assert(out.deep_view() =~= fourth + all.take(i + 1));
        }
        i = i + 1;
    }
    proof {
        let all = failure_lines(view.failures);
        assert(all.take(report.failures.len() as int) =~= all);
    }
    out
}

/// The command that asks the scheduler for the state of the tasks of the
/// array `job_id`: the program first, then its arguments. It asks for one
/// line per task, without a heading, with the name, the state and the exit
/// code.
pub open spec fn status_query_text(job_id: Seq<char>) -> Seq<Seq<char>> {
    seq!["bjobs"@, "-noheader"@, "-o"@, "job_name stat exit_code"@, job_id]
}

/// The command that asks the scheduler for the state of the tasks of the
/// array `job_id`: the program first, then its arguments.
pub fn status_query(job_id: &str) -> (command: Vec<String>)
    ensures
        command.deep_view() == status_query_text(job_id@),
{
    let mut command: Vec<String> = Vec::new();
    command.push(String::from_str("bjobs"));
    command.push(String::from_str("-noheader"));
    command.push(String::from_str("-o"));
    command.push(String::from_str("job_name stat exit_code"));
    command.push(String::from_str(job_id));
    proof {
        assert(command.deep_view() =~= status_query_text(job_id@));
    }
    command
}

} // verus!
