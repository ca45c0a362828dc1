use arrayify::joblog::{count_lines, read_job_log};
use arrayify::submission::write_job_log;

fn strings(items: &[&str]) -> Vec<String> {
    items.iter().map(|s| s.to_string()).collect()
}

#[test]
fn submission_test_write_job_log() {
    let jobs = vec!["job1".to_string(), "job2".to_string()];

    let contents = write_job_log(&jobs);

    assert!(contents.contains("job1"));
    assert!(contents.contains("job2"));
}

#[test]
fn log_has_one_command_per_line() {
    let jobs = strings(&["echo a", "echo b c", ""]);
    assert_eq!(write_job_log(&jobs), "echo a\necho b c\n\n");
}

#[test]
fn log_of_no_jobs_is_empty() {
    assert_eq!(write_job_log(&Vec::new()), "");
}

#[test]
fn log_reads_back_as_the_commands() {
    let jobs = strings(&["echo a", "", "run x | sort > out", "  spaced  ", "tab\there", "last"]);
    let text = write_job_log(&jobs);
    assert_eq!(read_job_log(&text), jobs);
    assert_eq!(count_lines(&text), jobs.len());
}

#[test]
fn log_of_empty_commands_reads_back() {
    let jobs = strings(&["", "", ""]);
    let text = write_job_log(&jobs);
    assert_eq!(text, "\n\n\n");
    assert_eq!(read_job_log(&text), jobs);
    assert_eq!(count_lines(&text), 3);
}

#[test]
fn command_with_a_line_feed_takes_two_lines() {
    let jobs = strings(&["echo a\necho b", "echo c"]);
    let text = write_job_log(&jobs);
    assert_eq!(count_lines(&text), 3);
    assert_eq!(read_job_log(&text), strings(&["echo a", "echo b", "echo c"]));
}

#[test]
fn line_of_the_log_is_the_command_of_its_task() {
    let jobs = strings(&["first", "second", "third"]);
    let lines = read_job_log(&write_job_log(&jobs));
    for index in 1..=jobs.len() {
        assert_eq!(lines[index - 1], jobs[index - 1]);
    }
}

#[test]
fn final_line_needs_no_line_feed() {
    assert_eq!(read_job_log("a\nb"), strings(&["a", "b"]));
    assert_eq!(read_job_log("a\nb\n"), strings(&["a", "b"]));
    assert_eq!(read_job_log("a\nb\n\n"), strings(&["a", "b", ""]));
    assert_eq!(read_job_log("\n"), strings(&[""]));
    assert_eq!(read_job_log(""), Vec::<String>::new());
}

#[test]
fn count_of_lines_agrees_with_the_lines_of_a_string() {
    let texts = ["", "\n", "a", "a\n", "a\n\n", "\n\na", "a\nb\nc", "a\nb\nc\n", " \n \n", "é\n日本\n"];
    for text in texts.iter() {
        assert_eq!(count_lines(text), text.lines().count());
        let expected: Vec<String> = text.lines().map(|line| line.to_string()).collect();
        assert_eq!(read_job_log(text), expected);
    }
}
