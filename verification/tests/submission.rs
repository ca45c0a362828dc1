use arrayify::error::ArrayifyError;
use arrayify::jobs::{job_specs, JobSpec};
use arrayify::pairs::FileEntry;
use arrayify::scheduler::{job_id_from_captures, parse_job_id};
use arrayify::submission::{
    conclude_submission, log_file_path, plan_submission, prepare_submission, render_array_name,
    render_submission, resolve_jobs, run_stats, submit_jobs, submit_jobs_at, InputFormat,
    InputSource, SubmissionResult,
};

fn table(text: &str) -> InputSource {
    InputSource::TabularFile(text.as_bytes().to_vec())
}

fn directory(names: &[&str]) -> InputSource {
    InputSource::PairedDirectory(
        names
            .iter()
            .map(|name| FileEntry { name: name.to_string(), path: format!("in/{}", name) })
            .collect(),
    )
}

#[test]
fn main_test_submit_jobs_empty_csv() {
    let input = table("header1,header2\n"); // Empty CSV

    let result = submit_jobs(
        &input,
        "echo {header1}",
        "arrayify",
        "logs",
        1,
        1,
        "normal",
        None,
    );

    assert!(result.is_ok());
}

#[test]
fn submission_test_submit_jobs_empty_csv() {
    let input = table("header1,header2\n"); // Empty CSV

    let result = submit_jobs(
        &input,
        "echo {header1}",
        "arrayify",
        "logs",
        1,
        1,
        "normal",
        None,
    );

    assert!(result.is_ok());
}

#[test]
fn input_without_jobs_gives_nothing_to_submit() {
    let outcome =
        submit_jobs_at(&table("a,b\n"), "echo {a}", "p", "logs", 1, 1, "normal", None, "now");
    assert_eq!(outcome, Ok(None));
    let now = submit_jobs(&table("a,b\n"), "echo {a}", "p", "logs", 1, 1, "normal", None);
    assert_eq!(now, Ok(None));
}

#[test]
fn input_knows_its_format() {
    assert_eq!(table("a\n").format(), InputFormat::Csv);
    assert_eq!(directory(&[]).format(), InputFormat::Directory);
}

#[test]
fn resolve_reads_a_table() {
    let jobs = resolve_jobs(&table("a,b\nx,y\n"), "run {a} {b}").unwrap();
    assert_eq!(jobs, vec!["run x y"]);
}

#[test]
fn resolve_reads_a_directory() {
    let jobs = resolve_jobs(&directory(&["s_2.fq", "s_1.fq"]), "run {ID} {R1} {R2}").unwrap();
    assert_eq!(jobs, vec!["run s in/s_1.fq in/s_2.fq"]);
}

#[test]
fn submit_hands_on_the_error_of_the_input() {
    let malformed =
        submit_jobs_at(&table("a,b\nx\n"), "echo {a}", "p", "logs", 1, 1, "normal", None, "now");
    assert_eq!(malformed, Err(ArrayifyError::MalformedInput));
    let empty =
        submit_jobs_at(&directory(&[]), "echo {ID}", "p", "logs", 1, 1, "normal", None, "now");
    assert_eq!(empty, Err(ArrayifyError::EmptyInput));
    let incomplete = submit_jobs_at(
        &directory(&["s_1.fq"]),
        "echo {ID}",
        "p",
        "logs",
        1,
        1,
        "normal",
        None,
        "now",
    );
    assert_eq!(incomplete, Err(ArrayifyError::IncompletePair("s".to_string())));
    let now = submit_jobs(&directory(&["s_1.fq"]), "echo {ID}", "p", "logs", 1, 1, "normal", None);
    assert_eq!(now, Err(ArrayifyError::IncompletePair("s".to_string())));
}

#[test]
fn log_path_holds_directory_and_stamp() {
    assert_eq!(log_file_path("logs", "2024-03-05-14-07"), "logs/arrayify-2024-03-05-14-07.log");
    assert_eq!(log_file_path("", ""), "/arrayify-.log");
}

#[test]
fn array_name_holds_size_and_limit() {
    assert_eq!(render_array_name("arrayify", 10, 2), "arrayify_job_array[1-10]%2");
    assert_eq!(render_array_name("x", 1, 1), "x_job_array[1-1]%1");
    assert_eq!(render_array_name("", 1234, 0), "_job_array[1-1234]%0");
}

#[test]
fn submission_line_is_script_piped_to_the_scheduler() {
    let plan = plan_submission(10, "arrayify", "logs", 4, 2, "normal", None);
    let line = render_submission(&plan, "logs/arrayify-now.log", 10);
    let script = "#!/bin/bash\n\nINDEX=$((LSB_JOBINDEX - 1))\nCOMMAND=$(sed -n \"$((INDEX + 1))p\" logs/arrayify-now.log)\n$COMMAND\n";
    let command = "bsub -J arrayify_job_array[1-10]%2 -q normal -n 2 -M 4000 -R \"select[mem>4000] rusage[mem=4000]\" -o logs/job_%J_%I.out -e logs/job_%J_%I.err";
    assert_eq!(line, format!("echo '{}' | {}", script, command));
}

#[test]
fn memory_is_a_thousand_units_to_the_gigabyte() {
    let plan = plan_submission(1, "p", "l", 1, 1, "q", Some(1));
    let line = render_submission(&plan, "f", 1);
    assert!(line.contains(" -M 1000 -R \"select[mem>1000] rusage[mem=1000]\" "));
    let none = plan_submission(1, "p", "l", 0, 1, "q", Some(1));
    assert!(render_submission(&none, "f", 1).contains(" -M 0 -R \"select[mem>0] rusage[mem=0]\" "));
    let most = plan_submission(1, "p", "l", u32::MAX, 1, "q", Some(1));
    assert!(render_submission(&most, "f", 1)
        .contains(" -M 4294967295000 -R \"select[mem>4294967295000] rusage[mem=4294967295000]\" "));
}

#[test]
fn prepared_submission_holds_log_and_command() {
    let jobs = vec!["echo a".to_string(), "echo b".to_string(), "echo c".to_string()];
    let plan = plan_submission(jobs.len(), "arrayify", "logs", 1, 1, "normal", None);
    let submission = prepare_submission(jobs.clone(), plan.clone(), "stamp");
    assert_eq!(submission.plan, plan);
    assert_eq!(
        submission.jobs,
        vec![
            JobSpec { index: 1, command: "echo a".to_string() },
            JobSpec { index: 2, command: "echo b".to_string() },
            JobSpec { index: 3, command: "echo c".to_string() },
        ]
    );
    assert_eq!(submission.log_file_path, "logs/arrayify-stamp.log");
    assert_eq!(submission.log_text, "echo a\necho b\necho c\n");
    assert_eq!(submission.array_size, 3);
    assert_eq!(submission.command, render_submission(&plan, "logs/arrayify-stamp.log", 3));
    assert!(submission.command.contains("arrayify_job_array[1-3]%1 "));
}

#[test]
fn submit_plans_the_limit_for_the_number_of_jobs() {
    let mut text = String::from("n\n");
    for i in 0..12 {
        text.push_str(&format!("{}\n", i));
    }
    let submission =
        submit_jobs_at(&table(&text), "echo {n}", "pre", "out", 2, 8, "long", None, "t")
            .unwrap()
            .unwrap();
    assert_eq!(submission.jobs.len(), 12);
    assert_eq!(submission.array_size, 12);
    assert_eq!(submission.plan.batch_size, 3);
    assert_eq!(submission.log_file_path, "out/arrayify-t.log");
    assert!(submission.command.contains("bsub -J pre_job_array[1-12]%3 -q long -n 8 -M 2000 "));
    assert!(submission.command.contains("sed -n \"$((INDEX + 1))p\" out/arrayify-t.log)"));
    let forced =
        submit_jobs_at(&table(&text), "echo {n}", "pre", "out", 2, 8, "long", Some(40), "t")
            .unwrap()
            .unwrap();
    assert_eq!(forced.plan.batch_size, 40);
    assert!(forced.command.contains("pre_job_array[1-12]%40 "));
}

#[test]
fn job_id_is_read_from_the_answer() {
    assert_eq!(parse_job_id("Job <12345> is submitted to queue <normal>.\n"), "12345");
    assert_eq!(parse_job_id("Job <7>"), "7");
    assert_eq!(parse_job_id("noise Job <1> then Job <2>"), "1");
}

#[test]
fn answer_without_job_id_gives_unknown() {
    assert_eq!(parse_job_id(""), "unknown");
    assert_eq!(parse_job_id("Request aborted by esub."), "unknown");
    assert_eq!(parse_job_id("Job <> is submitted"), "unknown");
    assert_eq!(parse_job_id("Job <abc>"), "unknown");
    assert_eq!(parse_job_id("job <12>"), "unknown");
    assert_eq!(parse_job_id("Job  <12>"), "unknown");
    assert_eq!(parse_job_id("Job <12"), "unknown");
}

#[test]
fn job_id_is_the_first_group_of_the_match() {
    let groups = Some(vec![Some("Job <12>".to_string()), Some("12".to_string())]);
    assert_eq!(job_id_from_captures(&groups), "12");
    assert_eq!(job_id_from_captures(&None), "unknown");
    assert_eq!(job_id_from_captures(&Some(vec![Some("Job".to_string())])), "unknown");
    assert_eq!(job_id_from_captures(&Some(vec![Some("Job".to_string()), None])), "unknown");
    assert_eq!(job_id_from_captures(&Some(Vec::new())), "unknown");
}

#[test]
fn concluded_submission_holds_id_log_and_count() {
    let jobs = vec!["echo a".to_string(), "echo b".to_string()];
    let plan = plan_submission(jobs.len(), "arrayify", "logs", 1, 1, "normal", None);
    let submission = prepare_submission(jobs, plan, "stamp");
    let result = conclude_submission(&submission, "Job <991> is submitted to queue <normal>.");
    assert_eq!(
        result,
        SubmissionResult {
            job_id: "991".to_string(),
            log_file_path: "logs/arrayify-stamp.log".to_string(),
            job_count: 2,
        }
    );
    let unknown = conclude_submission(&submission, "");
    assert_eq!(unknown.job_id, "unknown");
    assert_eq!(unknown.job_count, 2);
}

#[test]
fn run_stats_tell_of_the_submission() {
    let result = SubmissionResult {
        job_id: "991".to_string(),
        log_file_path: "logs/arrayify-stamp.log".to_string(),
        job_count: 12,
    };
    let expected = "🚀 Job submission complete! ✅\n🔖 Job ID is: 991\n📌 12 jobs submitted.\n📝 Job commands logged in: logs/arrayify-stamp.log\n📂 Logs can be found in: logs\n📡 Track with -\n   arrayify check 991";
    assert_eq!(run_stats(&result, "logs"), expected);
}

#[test]
fn tasks_are_numbered_from_one() {
    let commands = vec!["x".to_string(), "y".to_string(), "x".to_string()];
    let jobs = job_specs(&commands);
    assert_eq!(
        jobs,
        vec![
            JobSpec { index: 1, command: "x".to_string() },
            JobSpec { index: 2, command: "y".to_string() },
            JobSpec { index: 3, command: "x".to_string() },
        ]
    );
    assert!(job_specs(&Vec::new()).is_empty());
}

#[test]
fn line_of_the_log_at_the_index_of_a_task_is_its_command() {
    let jobs = vec!["echo a".to_string(), "".to_string(), "echo c".to_string()];
    let plan = plan_submission(jobs.len(), "arrayify", "logs", 1, 1, "normal", None);
    let submission = prepare_submission(jobs, plan, "stamp");
    let lines: Vec<&str> = submission.log_text.split('\n').collect();
    for job in submission.jobs.iter() {
        assert_eq!(lines[job.index - 1], job.command);
    }
}

#[test]
fn submission_made_now_is_named_after_the_time() {
    let submission = submit_jobs(&table("a\nx\ny\n"), "echo {a}", "pre", "out", 1, 1, "q", None)
        .unwrap()
        .unwrap();
    let path = submission.log_file_path.clone();
    assert!(path.starts_with("out/arrayify-"));
    assert!(path.ends_with(".log"));
    let stamp = &path["out/arrayify-".len()..path.len() - ".log".len()];
    assert_ne!(stamp, "%Y-%m-%d-%H-%M");
    let parts: Vec<&str> = stamp.split('-').collect();
    assert_eq!(parts.len(), 5);
    for part in parts.iter() {
        assert!(!part.is_empty());
        assert!(part.chars().all(|c| c.is_ascii_digit()));
    }
    let same = submit_jobs_at(&table("a\nx\ny\n"), "echo {a}", "pre", "out", 1, 1, "q", None, stamp);
    assert_eq!(same, Ok(Some(submission)));
}

#[test]
fn array_has_as_many_tasks_as_there_are_commands() {
    let jobs = vec!["echo a\necho b".to_string(), "echo c".to_string()];
    let plan = plan_submission(jobs.len(), "arrayify", "logs", 1, 1, "normal", None);
    let submission = prepare_submission(jobs, plan, "stamp");
    assert_eq!(submission.array_size, 2);
    assert_eq!(submission.jobs.len(), 2);
    assert_eq!(submission.plan.batch_size, 1);
    assert!(submission.command.contains("arrayify_job_array[1-2]%1 "));
    assert_eq!(submission.log_text, "echo a\necho b\necho c\n");
}
