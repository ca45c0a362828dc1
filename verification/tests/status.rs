use arrayify::status::{
    check_jobs, report_lines, status_query, Failure, FailureReason, StatusReport,
};

fn failure(name: &str, code: &str, reason: FailureReason) -> Failure {
    Failure { task_name: name.to_string(), exit_code: code.to_string(), reason }
}

#[test]
fn running_done_and_failed_tasks_are_told_apart() {
    let report = check_jobs("taskA RUN -\ntaskB DONE 0\ntaskC EXIT 143\n");
    assert_eq!(report.running_count, 1);
    assert_eq!(report.done_count, 1);
    assert_eq!(report.pending_count, 0);
    assert_eq!(report.other_count, 0);
    assert_eq!(report.failures, vec![failure("taskC", "143", FailureReason::Timeout)]);
    assert_eq!(report.failures[0].reason.label(), "Timeout");
    assert!(!report.is_success());
}

#[test]
fn all_done_is_success() {
    let report = check_jobs("a DONE 0\nb DONE 0\nc DONE -\n");
    assert_eq!(report.done_count, 3);
    assert!(report.failures.is_empty());
    assert!(report.is_success());
}

#[test]
fn no_record_at_all_is_success() {
    let report = check_jobs("");
    assert_eq!(
        report,
        StatusReport {
            done_count: 0,
            running_count: 0,
            pending_count: 0,
            other_count: 0,
            failures: Vec::new(),
        }
    );
    assert!(report.is_success());
}

#[test]
fn record_with_fewer_than_three_fields_is_passed_over() {
    let report = check_jobs("a RUN\nb\n\n   \nc DONE 0\nEXIT 1\n");
    assert_eq!(report.running_count, 0);
    assert_eq!(report.done_count, 1);
    assert!(report.failures.is_empty());
    assert!(report.is_success());
}

#[test]
fn fields_beyond_the_third_are_passed_over() {
    let report = check_jobs("a EXIT 2 and more\n");
    assert_eq!(report.failures, vec![failure("a", "2", FailureReason::Killed)]);
}

#[test]
fn fields_are_parted_by_any_whitespace() {
    let report = check_jobs("  a\t\tPEND   -  \r\nb\u{a0}RUN\u{3000}-\r\n");
    assert_eq!(report.pending_count, 1);
    assert_eq!(report.running_count, 1);
    assert!(!report.is_success());
}

#[test]
fn last_record_needs_no_line_feed() {
    let report = check_jobs("a DONE 0\nb PEND -");
    assert_eq!(report.done_count, 1);
    assert_eq!(report.pending_count, 1);
}

#[test]
fn other_state_is_unfinished_and_in_no_named_bucket() {
    let report = check_jobs("a DONE 0\nb SSUSP -\nc done 0\n");
    assert_eq!(report.done_count, 1);
    assert_eq!(report.running_count, 0);
    assert_eq!(report.pending_count, 0);
    assert_eq!(report.other_count, 2);
    assert!(report.failures.is_empty());
    assert!(!report.is_success());
}

#[test]
fn pending_task_is_no_success() {
    let report = check_jobs("a DONE 0\nb PEND -\n");
    assert_eq!(report.pending_count, 1);
    assert!(!report.is_success());
}

#[test]
fn every_exit_code_has_its_reason() {
    let report = check_jobs("a EXIT 2\nb EXIT 130\nc EXIT 137\nd EXIT 143\ne EXIT 1\nf EXIT -\ng EXIT 02\n");
    assert_eq!(
        report.failures,
        vec![
            failure("a", "2", FailureReason::Killed),
            failure("b", "130", FailureReason::MemoryError),
            failure("c", "137", FailureReason::OutOfMemory),
            failure("d", "143", FailureReason::Timeout),
            failure("e", "1", FailureReason::Unknown),
            failure("f", "-", FailureReason::Unknown),
            failure("g", "02", FailureReason::Unknown),
        ]
    );
    assert_eq!(report.done_count, 0);
    assert!(!report.is_success());
}

#[test]
fn reasons_have_words_and_signs() {
    assert_eq!(FailureReason::Killed.label(), "Killed");
    assert_eq!(FailureReason::MemoryError.label(), "Memory error");
    assert_eq!(FailureReason::OutOfMemory.label(), "Killed (OOM)");
    assert_eq!(FailureReason::Timeout.label(), "Timeout");
    assert_eq!(FailureReason::Unknown.label(), "Unknown error");
    assert_eq!(FailureReason::Killed.signs(), "💀");
    assert_eq!(FailureReason::MemoryError.signs(), "🧠💾");
    assert_eq!(FailureReason::OutOfMemory.signs(), "💀🛑💾");
    assert_eq!(FailureReason::Timeout.signs(), "⏳");
    assert_eq!(FailureReason::Unknown.signs(), "❓🚨");
}

#[test]
fn success_is_told_in_one_line() {
    let report = check_jobs("a DONE 0\nb DONE 0\n");
    assert_eq!(
        report_lines(&report, "991"),
        vec!["✅ All jobs in array 991 completed successfully!"]
    );
}

#[test]
fn mixed_report_tells_of_every_bucket_and_failure() {
    let report = check_jobs(
        "a RUN -\nb RUN -\nc PEND -\nd DONE 0\ne DONE 0\nf DONE 0\ng EXIT 143\nh EXIT 137\ni EXIT 2\nj EXIT 130\nk EXIT 9\n",
    );
    assert_eq!(
        report_lines(&report, "42"),
        vec![
            "🚀 2 jobs are currently running!",
            "⏳ 1 jobs are still pending!",
            "✅ 3 jobs have completed successfully!",
            "❌ Some jobs in array 42 had issues:",
            "  - g Exit Code 143: Timeout ⏳",
            "  - h Exit Code 137: Killed (OOM) 💀🛑💾",
            "  - i Exit Code 2: Killed 💀",
            "  - j Exit Code 130: Memory error 🧠💾",
            "  - k Exit Code 9: Unknown error ❓🚨",
        ]
    );
}

#[test]
fn empty_buckets_get_no_line() {
    let report = check_jobs("a PEND -\n");
    assert_eq!(report_lines(&report, "1"), vec!["⏳ 1 jobs are still pending!"]);
    let other = check_jobs("a UNKWN -\n");
    assert_eq!(report_lines(&other, "1"), Vec::<String>::new());
    let failed = check_jobs("a EXIT 1\n");
    assert_eq!(
        report_lines(&failed, "1"),
        vec!["❌ Some jobs in array 1 had issues:", "  - a Exit Code 1: Unknown error ❓🚨"]
    );
}

#[test]
fn status_query_asks_for_name_state_and_exit_code() {
    assert_eq!(
        status_query("991"),
        vec!["bjobs", "-noheader", "-o", "job_name stat exit_code", "991"]
    );
}

#[test]
fn counts_agree_with_counting_by_hand() {
    let mut text = String::new();
    for i in 0..250 {
        let state = match i % 5 {
            0 => "RUN",
            1 => "PEND",
            2 => "DONE",
            3 => "EXIT",
            _ => "ZOMBI",
        };
        text.push_str(&format!("task[{}] {} {}\n", i, state, i));
    }
    let report = check_jobs(&text);
    assert_eq!(report.running_count, 50);
    assert_eq!(report.pending_count, 50);
    assert_eq!(report.done_count, 50);
    assert_eq!(report.other_count, 50);
    assert_eq!(report.failures.len(), 50);
    assert_eq!(report.failures[0], failure("task[3]", "3", FailureReason::Unknown));
    assert_eq!(report.failures[28], failure("task[143]", "143", FailureReason::Timeout));
}
