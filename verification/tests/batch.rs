use arrayify::decimal::parse_decimal;
use arrayify::submission::{calculate_batch_size, parse_batch_size, plan_submission};

#[test]
fn main_test_calculate_batch_size() {
    assert_eq!(calculate_batch_size(10, None), 2); // 20% of 10, rounded up
    assert_eq!(calculate_batch_size(10, Some(5)), 5); // Custom batch size
    assert_eq!(calculate_batch_size(1, None), 1); // Minimum batch size
}

#[test]
fn submission_test_calculate_batch_size() {
    assert_eq!(calculate_batch_size(10, None), 2); // 20% of 10, rounded up
    assert_eq!(calculate_batch_size(10, Some(5)), 5); // Custom batch size
    assert_eq!(calculate_batch_size(1, None), 1); // Minimum batch size
}

#[test]
fn default_batch_size_is_a_fifth_rounded_up() {
    assert_eq!(calculate_batch_size(3, None), 1);
    assert_eq!(calculate_batch_size(5, None), 1);
    assert_eq!(calculate_batch_size(6, None), 2);
    assert_eq!(calculate_batch_size(11, None), 3);
    assert_eq!(calculate_batch_size(15, None), 3);
    assert_eq!(calculate_batch_size(100, None), 20);
    assert_eq!(calculate_batch_size(101, None), 21);
    assert_eq!(calculate_batch_size(1000, None), 200);
}

#[test]
fn default_batch_size_stays_within_the_array() {
    for n in 1..=500usize {
        let limit = calculate_batch_size(n, None);
        assert!(1 <= limit && limit <= n);
        assert!(5 * (limit - 1) < n && n <= 5 * limit);
    }
}

#[test]
fn default_batch_size_of_the_largest_array() {
    let n = usize::MAX;
    let limit = calculate_batch_size(n, None);
    assert_eq!(limit, n / 5 + if n % 5 == 0 { 0 } else { 1 });
}

#[test]
fn default_batch_size_of_no_jobs_is_zero() {
    assert_eq!(calculate_batch_size(0, None), 0);
}

#[test]
fn requested_batch_size_is_not_clamped() {
    assert_eq!(calculate_batch_size(10, Some(50)), 50);
    assert_eq!(calculate_batch_size(10, Some(0)), 0);
    assert_eq!(calculate_batch_size(0, Some(7)), 7);
    assert_eq!(calculate_batch_size(3, Some(usize::MAX)), usize::MAX);
}

#[test]
fn plan_holds_the_settings_and_the_planned_limit() {
    let plan = plan_submission(10, "arrayify", "logs", 4, 2, "normal", None);
    assert_eq!(plan.job_prefix, "arrayify");
    assert_eq!(plan.log_directory, "logs");
    assert_eq!(plan.memory_limit, 4);
    assert_eq!(plan.thread_count, 2);
    assert_eq!(plan.queue_name, "normal");
    assert_eq!(plan.batch_size, 2);
    let forced = plan_submission(10, "arrayify", "logs", 4, 2, "normal", Some(30));
    assert_eq!(forced.batch_size, 30);
}

#[test]
fn request_for_a_limit_is_auto_or_a_number() {
    assert_eq!(parse_batch_size("auto"), None);
    assert_eq!(parse_batch_size("5"), Some(5));
    assert_eq!(parse_batch_size("0"), Some(0));
    assert_eq!(parse_batch_size("+12"), Some(12));
    assert_eq!(parse_batch_size("007"), Some(7));
    assert_eq!(parse_batch_size(&usize::MAX.to_string()), Some(usize::MAX));
}

#[test]
fn request_that_is_no_number_asks_for_the_default() {
    for value in ["", "+", "-1", "1.5", " 5", "5 ", "five", "Auto", "AUTO", "1_000", "0x10", "٥"].iter()
    {
        assert_eq!(parse_batch_size(value), None);
    }
    assert_eq!(parse_batch_size("340282366920938463463374607431768211456"), None);
    assert_eq!(parse_batch_size("18446744073709551616"), None);
}

#[test]
fn request_agrees_with_the_number_of_its_text() {
    let values = [
        "", "+", "-", "0", "+0", "-0", "1", "42", "0042", "+42", "++42", "4+2", "42+", "4 2",
        "18446744073709551615", "18446744073709551616", "18446744073709551620",
        "99999999999999999999", "1e3", "auto", "١٢",
    ];
    for value in values.iter() {
        assert_eq!(parse_decimal(value), value.parse::<u64>().ok());
        assert_eq!(parse_batch_size(value), value.parse::<usize>().ok());
    }
}

#[test]
fn number_written_in_decimal_reads_back() {
    for n in [0u64, 1, 9, 10, 99, 100, 12345, u64::MAX - 1, u64::MAX].iter() {
        assert_eq!(parse_decimal(&arrayify::decimal::decimal_string(*n)), Some(*n));
    }
}
