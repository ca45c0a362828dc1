//! Planning and rendering of a job-array submission.

use crate::decimal::{decimal, parse_decimal, parsed, push_decimal};
use crate::error::{ArrayifyError, ErrorText};
use crate::joblog::{job_log, lemma_job_log_round_trip, single_lines};
use crate::jobs::{
    csv_commands,
    job_specs,
    numbered,
    pair_commands,
    read_jobs_from_csv,
    read_jobs_from_dir,
    JobSpec,
};
use crate::pairs::{FileEntry, FileText};
use crate::scheduler::{job_id_of, job_id_pattern, parse_job_id, regex_search};
use crate::split::lines;
use crate::text::{spells, to_chars};
use vstd::prelude::*;
use vstd::string::StringExecFns;

verus! {

/// Where the job descriptions come from.
#[derive(Debug, Clone, Copy, PartialEq, Eq, Structural)]
pub enum InputFormat {
    /// A delimited file: a header row, then one row per job.
    Csv,
    /// A flat directory of paired files.
    Directory,
}

/// One fifth of `n`, rounded up.
pub open spec fn fifth_rounded_up(n: nat) -> nat {
    (n + 4) / 5
}

/// The concurrency limit of an array of `n` tasks when the caller names none:
/// a fifth of the array, rounded up, raised to 1 and then capped at `n`.
pub open spec fn default_batch_size(n: nat) -> nat {
    let fifth = fifth_rounded_up(n);
    let raised = if fifth < 1 { 1 } else { fifth };
    if raised > n { n } else { raised }
}

/// The concurrency limit of an array of `n` tasks: the caller's value as it
/// stands, or the default.
pub open spec fn planned_batch_size(n: nat, requested: Option<usize>) -> nat {
    match requested {
        Some(limit) => limit as nat,
        None => default_batch_size(n),
    }
}

/// The default limit of a non-empty array lies between 1 and the number of
/// tasks, and is the least number whose fivefold reaches the number of tasks.
pub proof fn lemma_default_batch_size_bounds(n: nat)
    requires
        n >= 1,
    ensures
        1 <= default_batch_size(n) <= n,
        default_batch_size(n) == fifth_rounded_up(n),
        5 * (default_batch_size(n) - 1) < n <= 5 * default_batch_size(n),
{
}

/// What the text of a request for a concurrency limit asks for. The word
/// `auto` asks for the default. A number asks for itself. Any other text,
/// and a number too large for the machine, asks for the default as well.
pub open spec fn requested_batch_size(value: Seq<char>) -> Option<usize> {
    if value == "auto"@ {
        None
    } else {
        match parsed(value) {
            Some(n) => if n <= usize::MAX {
                Some(n as usize)
            } else {
                None
            },
            None => None,
        }
    }
}

/// Reads a request for a concurrency limit: `auto` or a number.
pub fn parse_batch_size(value: &str) -> (requested: Option<usize>)
    ensures
        requested == requested_batch_size(value@),
{
    if spells(&to_chars(value), "auto") {
        return None;
    }
    match parse_decimal(value) {
        Some(n) => if n <= usize::MAX as u64 {
            Some(n as usize)
        } else {
            None
        },
        None => None,
    }
}

/// The number of tasks of the array that may run at one time.
pub fn calculate_batch_size(num_jobs: usize, batch_size: Option<usize>) -> (limit: usize)
    ensures
        limit == planned_batch_size(num_jobs as nat, batch_size),
        batch_size matches Some(requested) ==> limit == requested,
        batch_size is None && num_jobs >= 1 ==> 1 <= limit <= num_jobs && 5 * (limit - 1)
            < num_jobs <= 5 * limit,
{
    match batch_size {
        Some(requested) => requested,
        None => {
            let whole: usize = num_jobs / 5;
            let fifth: usize = if num_jobs % 5 == 0 {
                whole
            } else {
                whole + 1
            };
            let raised: usize = if fifth < 1 {
                1
            } else {
                fifth
            };
            if raised > num_jobs {
                num_jobs
            } else {
                raised
            }
        },
    }
}

/// The text of the log of `jobs`: one command per line, in order.
pub fn write_job_log(jobs: &Vec<String>) -> (text: String)
    ensures
        text@ == job_log(jobs.deep_view()),
{
    let ghost all = jobs.deep_view();
    let mut text = String::new();
    let mut i: usize = 0;
    while i < jobs.len()
        invariant
            i <= jobs.len(),
            all == jobs.deep_view(),
            text@ == job_log(all.take(i as int)),
        decreases jobs.len() - i,
    {
        proof {
            assert(all.take(i + 1).drop_last() == all.take(i as int));
            assert(all.take(i + 1).last() == jobs[i as int]@);
        }
        let ghost before = text@;
        text.append(jobs[i].as_str());
        text.push('\n');
        proof {
            assert(text@ =~= before + jobs[i as int]@ + seq!['\n']);
        }
        i = i + 1;
    }
    proof {
        assert(all.take(jobs.len() as int) == all);
    }
    text
}

/// The input of a submission, already read: the bytes of a delimited file,
/// or the regular files of a directory.
#[derive(Debug, Clone, PartialEq, Eq)]
pub enum InputSource {
    /// The bytes of a delimited file.
    TabularFile(Vec<u8>),
    /// The regular files that lie directly in a directory.
    PairedDirectory(Vec<FileEntry>),
}

/// An input as plain values.
pub enum InputText {
    TabularFile(Seq<u8>),
    PairedDirectory(Seq<FileText>),
}

impl View for InputSource {
    type V = InputText;

    open spec fn view(&self) -> InputText {
        match self {
            InputSource::TabularFile(data) => InputText::TabularFile(data@),
            InputSource::PairedDirectory(files) => InputText::PairedDirectory(files.deep_view()),
        }
    }
}

impl InputSource {
    /// The format of this input.
    pub fn format(&self) -> (format: InputFormat)
        ensures
            format == match self {
                InputSource::TabularFile(_) => InputFormat::Csv,
                InputSource::PairedDirectory(_) => InputFormat::Directory,
            },
    {
        match self {
            InputSource::TabularFile(_) => InputFormat::Csv,
            InputSource::PairedDirectory(_) => InputFormat::Directory,
        }
    }
}

/// The commands that an input resolves to, or why it does not.
pub open spec fn resolved_commands(input: InputText, template: Seq<char>) -> Result<
    Seq<Seq<char>>,
    ErrorText,
> {
    match input {
        InputText::TabularFile(data) => csv_commands(data, template),
        InputText::PairedDirectory(files) => pair_commands(files, template),
    }
}

/// Resolves an input into its commands, in the order of the tasks.
pub fn resolve_jobs(input: &InputSource, command_template: &str) -> (resolved: Result<
    Vec<String>,
    ArrayifyError,
>)
    ensures
        crate::error::outcome_text(resolved) == resolved_commands(input@, command_template@),
{
    match input {
        InputSource::TabularFile(data) => read_jobs_from_csv(data.as_slice(), command_template),
        InputSource::PairedDirectory(files) => read_jobs_from_dir(files, command_template),
    }
}

/// The settings of one submission.
#[derive(Debug, Clone, PartialEq, Eq)]
pub struct SubmissionPlan {
    /// What the name of the array begins with.
    pub job_prefix: String,
    /// The directory of the log and of the tasks' output.
    pub log_directory: String,
    /// The memory of one task, in gigabytes.
    pub memory_limit: u32,
    /// The cores of one task.
    pub thread_count: u32,
    /// The queue of the scheduler.
    pub queue_name: String,
    /// How many tasks may run at one time.
    pub batch_size: usize,
}

/// The settings of a submission as plain values.
pub struct PlanText {
    pub job_prefix: Seq<char>,
    pub log_directory: Seq<char>,
    pub memory_limit: nat,
    pub thread_count: nat,
    pub queue_name: Seq<char>,
    pub batch_size: nat,
}

impl View for SubmissionPlan {
    type V = PlanText;

    open spec fn view(&self) -> PlanText {
        PlanText {
            job_prefix: self.job_prefix@,
            log_directory: self.log_directory@,
            memory_limit: self.memory_limit as nat,
            thread_count: self.thread_count as nat,
            queue_name: self.queue_name@,
            batch_size: self.batch_size as nat,
        }
    }
}

/// The path of the log of a submission made at the time `stamp`.
pub open spec fn log_path(log_directory: Seq<char>, stamp: Seq<char>) -> Seq<char> {
    log_directory + "/arrayify-"@ + stamp + ".log"@
}

/// The name of an array of `count` tasks of which `limit` may run at a time.
pub open spec fn array_name(prefix: Seq<char>, count: nat, limit: nat) -> Seq<char> {
    prefix + "_job_array[1-"@ + decimal(count) + "]%"@ + decimal(limit)
}

/// The memory of one task in the scheduler's unit: a thousand to the gigabyte.
pub open spec fn memory_units(gigabytes: nat) -> nat {
    gigabytes * 1000
}

/// The scheduler's submission command for an array of `count` tasks.
pub open spec fn scheduler_command(plan: PlanText, count: nat) -> Seq<char> {
    let memory = decimal(memory_units(plan.memory_limit));
    "bsub -J "@ + array_name(plan.job_prefix, count, plan.batch_size) + " -q "@ + plan.queue_name
        + " -n "@ + decimal(plan.thread_count) + " -M "@ + memory + " -R \"select[mem>"@ + memory
        + "] rusage[mem="@ + memory + "]\" -o "@ + plan.log_directory + "/job_%J_%I.out -e "@
        + plan.log_directory + "/job_%J_%I.err"@
}

/// The script that every task runs: it takes the line of the log whose number
/// is the task's index and runs it as a command.
pub open spec fn dispatch_script(log_file: Seq<char>) -> Seq<char> {
    "#!/bin/bash\n\nINDEX=$((LSB_JOBINDEX - 1))\nCOMMAND=$(sed -n \"$((INDEX + 1))p\" "@ + log_file
        + ")\n$COMMAND\n"@
}

/// The shell line of a submission: the script, handed to the scheduler's
/// command on its standard input.
pub open spec fn submission_line(plan: PlanText, log_file: Seq<char>, count: nat) -> Seq<char> {
    "echo '"@ + dispatch_script(log_file) + "' | "@ + scheduler_command(plan, count)
}

/// The path of the log of a submission made at the time `stamp`.
pub fn log_file_path(log_directory: &str, stamp: &str) -> (path: String)
    ensures
        path@ == log_path(log_directory@, stamp@),
{
    let mut path = String::from_str(log_directory);
    path.append("/arrayify-");
    path.append(stamp);
    path.append(".log");
    path
}

/// The name of an array of `count` tasks of which `limit` may run at a time.
pub fn render_array_name(prefix: &str, count: usize, limit: usize) -> (name: String)
    ensures
        name@ == array_name(prefix@, count as nat, limit as nat),
{
    let mut name = String::from_str(prefix);
    name.append("_job_array[1-");
    push_decimal(&mut name, count as u64);
    name.append("]%");
    push_decimal(&mut name, limit as u64);
    name
}

/// The shell line that submits an array of `count` tasks, which take their
/// commands from the log at `log_file`.
pub fn render_submission(plan: &SubmissionPlan, log_file: &str, count: usize) -> (line: String)
    ensures
        line@ == submission_line(plan@, log_file@, count as nat),
{
    let mut script = String::from_str(
        "#!/bin/bash\n\nINDEX=$((LSB_JOBINDEX - 1))\nCOMMAND=$(sed -n \"$((INDEX + 1))p\" ",
    );
    script.append(log_file);
    script.append(")\n$COMMAND\n");

    let units: u64 = (plan.memory_limit as u64) * 1000;
    let mut memory = String::new();
    push_decimal(&mut memory, units);
    proof {
        assert(memory@ =~= decimal(memory_units(plan@.memory_limit)));
    }
    let name = render_array_name(plan.job_prefix.as_str(), count, plan.batch_size);

    let mut command = String::from_str("bsub -J ");
    command.append(name.as_str());
    command.append(" -q ");
    command.append(plan.queue_name.as_str());
    command.append(" -n ");
    push_decimal(&mut command, plan.thread_count as u64);
    command.append(" -M ");
    command.append(memory.as_str());
    command.append(" -R \"select[mem>");
    command.append(memory.as_str());
    command.append("] rusage[mem=");
    command.append(memory.as_str());
    command.append("]\" -o ");
    command.append(plan.log_directory.as_str());
    command.append("/job_%J_%I.out -e ");
    command.append(plan.log_directory.as_str());
    command.append("/job_%J_%I.err");

    let mut line = String::from_str("echo '");
    line.append(script.as_str());
    line.append("' | ");
    line.append(command.as_str());
    line
}

/// A submission made ready: what is to be written and what is to be run.
#[derive(Debug, Clone, PartialEq, Eq)]
pub struct Submission {
    /// The settings, with the concurrency limit resolved.
    pub plan: SubmissionPlan,
    /// The tasks, in the order of their indices.
    pub jobs: Vec<JobSpec>,
    /// Where the log is to be written.
    pub log_file_path: String,
    /// What is to be written there.
    pub log_text: String,
    /// The number of tasks of the array: the number of commands.
    pub array_size: usize,
    /// The shell line that hands the array to the scheduler.
    pub command: String,
}

/// Whether `submission` is the submission of `jobs` under `plan`, made at the
/// time `stamp`.
pub open spec fn submission_of(
    submission: Submission,
    jobs: Seq<Seq<char>>,
    plan: PlanText,
    stamp: Seq<char>,
) -> bool {
    &&& submission.plan@ == plan
    &&& submission.jobs.deep_view() == numbered(jobs)
    &&& submission.log_file_path@ == log_path(plan.log_directory, stamp)
    &&& submission.log_text@ == job_log(jobs)
    &&& submission.array_size == jobs.len()
    &&& submission.command@ == submission_line(
        plan,
        log_path(plan.log_directory, stamp),
        jobs.len(),
    )
}

/// The settings of a submission of `job_count` tasks, as plain values.
pub open spec fn planned(
    job_count: nat,
    job_prefix: Seq<char>,
    log_dir: Seq<char>,
    memory_gb: u32,
    threads: u32,
    queue: Seq<char>,
    batch_size: Option<usize>,
) -> PlanText {
    PlanText {
        job_prefix,
        log_directory: log_dir,
        memory_limit: memory_gb as nat,
        thread_count: threads as nat,
        queue_name: queue,
        batch_size: planned_batch_size(job_count, batch_size),
    }
}

/// The settings of a submission of `job_count` tasks. The concurrency limit
/// is the caller's, or the default for that many tasks.
pub fn plan_submission(
    job_count: usize,
    job_prefix: &str,
    log_dir: &str,
    memory_gb: u32,
    threads: u32,
    queue: &str,
    batch_size: Option<usize>,
) -> (plan: SubmissionPlan)
    ensures
        plan@ == planned(
            job_count as nat,
            job_prefix@,
            log_dir@,
            memory_gb,
            threads,
            queue@,
            batch_size,
        ),
        batch_size is None && job_count >= 1 ==> 1 <= plan.batch_size <= job_count,
{
    SubmissionPlan {
        job_prefix: String::from_str(job_prefix),
        log_directory: String::from_str(log_dir),
        memory_limit: memory_gb,
        thread_count: threads,
        queue_name: String::from_str(queue),
        batch_size: calculate_batch_size(job_count, batch_size),
    }
}

/// Makes the submission of `jobs` ready: the tasks, the text of the log,
/// where it goes, and the shell line for the scheduler. The array has as many
/// tasks as there are commands, the number for which the concurrency limit
/// is planned. Where no command holds a line feed the log has that many
/// lines and reads back as the commands, and the line whose number is the
/// index of a task holds the command of that task.
pub fn prepare_submission(jobs: Vec<String>, plan: SubmissionPlan, stamp: &str) -> (submission:
    Submission)
    ensures
        submission_of(submission, jobs.deep_view(), plan@, stamp@),
        submission.array_size == jobs.len(),
        single_lines(jobs.deep_view()) ==> {
            &&& lines(submission.log_text@).len() == submission.array_size
            &&& lines(submission.log_text@) == jobs.deep_view()
            &&& forall|k: int|
                0 <= k < submission.jobs.len() ==> 1 <= (#[trigger] submission.jobs[k]).index
                    <= submission.array_size && lines(
                    submission.log_text@,
                )[submission.jobs[k].index - 1] == submission.jobs[k].command@
        },
{
    proof {
        if single_lines(jobs.deep_view()) {
            lemma_job_log_round_trip(jobs.deep_view());
        }
    }
    let log_text = write_job_log(&jobs);
    let log_file_path = log_file_path(plan.log_directory.as_str(), stamp);
    let array_size = jobs.len();
    let command = render_submission(&plan, log_file_path.as_str(), array_size);
    let tasks = job_specs(&jobs);
    proof {
        let commands = jobs.deep_view();
        assert(tasks.deep_view().len() == tasks.len());
        assert(numbered(commands).len() == jobs.len());
        assert forall|k: int| 0 <= k < tasks.len() implies (#[trigger] tasks[k]).index == k + 1
            && tasks[k].command@ == commands[k] by {
            assert(tasks.deep_view()[k] == tasks[k]@);
            assert(numbered(commands)[k].command == commands[k]);
        }
    }
    Submission { plan, jobs: tasks, log_file_path, log_text, array_size, command }
}

/// The pattern of the time in the name of a log: year, month, day, hour and
/// minute, parted by hyphens.
pub open spec fn stamp_pattern() -> Seq<char> {
    "%Y-%m-%d-%H-%M"@
}

/// The local time of this moment, written after `pattern`: the clock is read
/// by `std::time::SystemTime::now`, turned into a `chrono::DateTime` of the
/// local time zone by chrono's `From<SystemTime>`, and written by `format`.
/// Nothing is claimed of the text, which goes by the clock and the time zone
/// of the machine. The conversion takes a clock on either side of the year
/// 1970; it covers every year that chrono can hold, some 262,000 to either
/// side of the year 0. The pattern is held to the one pattern of the library,
/// which `format` takes.
#[verifier::external_body]
fn local_time(pattern: &str) -> (stamp: String)
    requires
        pattern@ == stamp_pattern(),
{
    let now = chrono::DateTime::<chrono::Local>::from(std::time::SystemTime::now());
    now.format(pattern).to_string()
}

/// What a submission of the input comes to when it is made at the time
/// `stamp`. An input that does not resolve gives its error. An input without
/// jobs gives nothing to submit, which is no error. Any other input gives the
/// submission of its commands, with the concurrency limit planned for their
/// number.
pub open spec fn submission_outcome(
    outcome: Result<Option<Submission>, ArrayifyError>,
    resolved: Result<Seq<Seq<char>>, ErrorText>,
    job_prefix: Seq<char>,
    log_dir: Seq<char>,
    memory_gb: u32,
    threads: u32,
    queue: Seq<char>,
    batch_size: Option<usize>,
    stamp: Seq<char>,
) -> bool {
    match resolved {
        Err(error) => outcome matches Err(given) && given@ == error,
        Ok(jobs) => if jobs.len() == 0 {
            outcome matches Ok(None)
        } else {
            outcome matches Ok(Some(submission)) && submission_of(
                submission,
                jobs,
                planned(jobs.len(), job_prefix, log_dir, memory_gb, threads, queue, batch_size),
                stamp,
            )
        },
    }
}

/// Resolves the input and makes the submission ready, as made at the time
/// `stamp`. Nothing is written and nothing is run: the submission says what
/// is to be.
pub fn submit_jobs_at(
    input: &InputSource,
    command_template: &str,
    job_prefix: &str,
    log_dir: &str,
    memory_gb: u32,
    threads: u32,
    queue: &str,
    batch_size: Option<usize>,
    stamp: &str,
) -> (outcome: Result<Option<Submission>, ArrayifyError>)
    ensures
        submission_outcome(
            outcome,
            resolved_commands(input@, command_template@),
            job_prefix@,
            log_dir@,
            memory_gb,
            threads,
            queue@,
            batch_size,
            stamp@,
        ),
{
    match resolve_jobs(input, command_template) {
        Err(error) => Err(error),
        Ok(jobs) => {
            if jobs.len() == 0 {
                return Ok(None);
            }
            let plan = plan_submission(
                jobs.len(),
                job_prefix,
                log_dir,
                memory_gb,
                threads,
                queue,
                batch_size,
            );
            Ok(Some(prepare_submission(jobs, plan, stamp)))
        },
    }
}

/// Resolves the input and makes the submission ready, as made now: the log
/// is named after the local time of this moment, which is read only where
/// there are jobs to submit. Nothing is written and nothing is run: the
/// submission says what is to be.
pub fn submit_jobs(
    input: &InputSource,
    command_template: &str,
    job_prefix: &str,
    log_dir: &str,
    memory_gb: u32,
    threads: u32,
    queue: &str,
    batch_size: Option<usize>,
) -> (outcome: Result<Option<Submission>, ArrayifyError>)
    ensures
        exists|stamp: Seq<char>|
            submission_outcome(
                outcome,
                resolved_commands(input@, command_template@),
                job_prefix@,
                log_dir@,
                memory_gb,
                threads,
                queue@,
                batch_size,
                stamp,
            ),
{
    match resolve_jobs(input, command_template) {
        Err(error) => {
            proof {
                assert(submission_outcome(
                    Err(error),
                    resolved_commands(input@, command_template@),
                    job_prefix@,
                    log_dir@,
                    memory_gb,
                    threads,
                    queue@,
                    batch_size,
                    Seq::empty(),
                ));
            }
            Err(error)
        },
        Ok(jobs) => {
            if jobs.len() == 0 {
                proof {
                    assert(submission_outcome(
                        Ok(None),
                        resolved_commands(input@, command_template@),
                        job_prefix@,
                        log_dir@,
                        memory_gb,
                        threads,
                        queue@,
                        batch_size,
                        Seq::empty(),
                    ));
                }
                return Ok(None);
            }
            let stamp = local_time("%Y-%m-%d-%H-%M");
            let plan = plan_submission(
                jobs.len(),
                job_prefix,
                log_dir,
                memory_gb,
                threads,
                queue,
                batch_size,
            );
            let submission = prepare_submission(jobs, plan, stamp.as_str());
            proof {
                assert(submission_outcome(
                    Ok(Some(submission)),
                    resolved_commands(input@, command_template@),
                    job_prefix@,
                    log_dir@,
                    memory_gb,
                    threads,
                    queue@,
                    batch_size,
                    stamp@,
                ));
            }
            Ok(Some(submission))
        },
    }
}

/// What a submission came to.
#[derive(Debug, Clone, PartialEq, Eq)]
pub struct SubmissionResult {
    /// The scheduler's identifier of the array, or `unknown`.
    pub job_id: String,
    /// Where the commands were logged.
    pub log_file_path: String,
    /// The number of commands submitted.
    pub job_count: usize,
}

/// The result of a submission whose shell line was run and answered with
/// `response`. The identifier is read from the answer; an answer without one
/// gives `unknown`.
pub fn conclude_submission(submission: &Submission, response: &str) -> (result: SubmissionResult)
    ensures
        result.job_id@ == job_id_of(regex_search(job_id_pattern(), response@)),
        result.log_file_path@ == submission.log_file_path@,
        result.job_count == submission.jobs.len(),
{
    SubmissionResult {
        job_id: parse_job_id(response),
        log_file_path: submission.log_file_path.clone(),
        job_count: submission.jobs.len(),
    }
}

/// What the operator is told after a submission.
pub open spec fn run_stats_text(
    job_id: Seq<char>,
    job_count: nat,
    log_file: Seq<char>,
    log_dir: Seq<char>,
) -> Seq<char> {
    "🚀 Job submission complete! ✅\n🔖 Job ID is: "@ + job_id + "\n📌 "@ + decimal(job_count)
        + " jobs submitted.\n📝 Job commands logged in: "@ + log_file
        + "\n📂 Logs can be found in: "@ + log_dir + "\n📡 Track with -\n   arrayify check "@
        + job_id
}

/// What the operator is told after a submission.
pub fn run_stats(result: &SubmissionResult, log_dir: &str) -> (message: String)
    ensures
        message@ == run_stats_text(
            result.job_id@,
            result.job_count as nat,
            result.log_file_path@,
            log_dir@,
        ),
{
    let mut message = String::from_str("🚀 Job submission complete! ✅\n🔖 Job ID is: ");
    message.append(result.job_id.as_str());
    message.append("\n📌 ");
    push_decimal(&mut message, result.job_count as u64);
    message.append(" jobs submitted.\n📝 Job commands logged in: ");
    message.append(result.log_file_path.as_str());
    message.append("\n📂 Logs can be found in: ");
    message.append(log_dir);
    message.append("\n📡 Track with -\n   arrayify check ");
    message.append(result.job_id.as_str());
    message
}

} // verus!
