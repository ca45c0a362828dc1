use arrayify::error::ArrayifyError;
use arrayify::jobs::{expand, expand_rows, read_jobs_from_csv, Table};

fn strings(items: &[&str]) -> Vec<String> {
    items.iter().map(|s| s.to_string()).collect()
}

#[test]
fn main_test_read_jobs_from_csv() {
    let data = "header1,header2\nvalue1,value2\n";
    let jobs = read_jobs_from_csv(data.as_bytes(), "echo {header1} {header2}").unwrap();
    assert_eq!(jobs, vec!["echo value1 value2"]);
}

#[test]
fn submission_test_read_jobs_from_csv() {
    let data = "header1,header2\nvalue1,value2\n";
    let jobs = read_jobs_from_csv(data.as_bytes(), "echo {header1} {header2}").unwrap();
    assert_eq!(jobs, vec!["echo value1 value2"]);
}

#[test]
fn table_with_one_row_gives_one_command() {
    let jobs = read_jobs_from_csv("a,b\nx,y\n".as_bytes(), "run {a} {b}").unwrap();
    assert_eq!(jobs, vec!["run x y"]);
}

#[test]
fn resolving_a_table_twice_gives_the_same_commands() {
    let data = "a,b\nx,y\n1,2\n";
    let once = read_jobs_from_csv(data.as_bytes(), "run {a} {b}").unwrap();
    let again = read_jobs_from_csv(data.as_bytes(), "run {a} {b}").unwrap();
    assert_eq!(once, again);
    assert_eq!(once, vec!["run x y", "run 1 2"]);
}

#[test]
fn rows_keep_their_order() {
    let data = "n\n3\n1\n2\n";
    let jobs = read_jobs_from_csv(data.as_bytes(), "echo {n}").unwrap();
    assert_eq!(jobs, vec!["echo 3", "echo 1", "echo 2"]);
}

#[test]
fn column_without_placeholder_is_ignored() {
    let jobs = read_jobs_from_csv("a,b\nx,y\n".as_bytes(), "run {a}").unwrap();
    assert_eq!(jobs, vec!["run x"]);
}

#[test]
fn placeholder_without_column_is_left() {
    let jobs = read_jobs_from_csv("a\nx\n".as_bytes(), "run {a} {b}").unwrap();
    assert_eq!(jobs, vec!["run x {b}"]);
}

#[test]
fn every_occurrence_of_a_placeholder_is_replaced() {
    let jobs = read_jobs_from_csv("a\nx\n".as_bytes(), "{a}{a} and {a}").unwrap();
    assert_eq!(jobs, vec!["xx and x"]);
}

#[test]
fn header_only_table_has_no_jobs() {
    let jobs = read_jobs_from_csv("header1,header2\n".as_bytes(), "echo {header1}").unwrap();
    assert!(jobs.is_empty());
}

#[test]
fn empty_table_has_no_jobs() {
    let jobs = read_jobs_from_csv("".as_bytes(), "echo {header1}").unwrap();
    assert!(jobs.is_empty());
}

#[test]
fn quoted_field_keeps_its_comma() {
    let jobs = read_jobs_from_csv("a,b\n\"x,1\",y\n".as_bytes(), "run {a} {b}").unwrap();
    assert_eq!(jobs, vec!["run x,1 y"]);
}

#[test]
fn row_of_another_length_is_malformed() {
    let outcome = read_jobs_from_csv("a,b\nx,y\nz\n".as_bytes(), "run {a} {b}");
    assert_eq!(outcome, Err(ArrayifyError::MalformedInput));
}

#[test]
fn row_that_is_not_text_is_malformed() {
    let data: Vec<u8> = vec![b'a', b'\n', 0xff, 0xfe, b'\n'];
    let outcome = read_jobs_from_csv(&data, "run {a}");
    assert_eq!(outcome, Err(ArrayifyError::MalformedInput));
}

#[test]
fn header_that_is_not_text_is_malformed() {
    let data: Vec<u8> = vec![0xff, b'\n', b'x', b'\n'];
    let outcome = read_jobs_from_csv(&data, "run {a}");
    assert_eq!(outcome, Err(ArrayifyError::MalformedInput));
}

#[test]
fn value_that_holds_a_later_placeholder_is_expanded_again() {
    let jobs = read_jobs_from_csv("a,b\n{b},y\n".as_bytes(), "run {a}").unwrap();
    assert_eq!(jobs, vec!["run y"]);
}

#[test]
fn value_that_holds_an_earlier_placeholder_is_left() {
    let jobs = read_jobs_from_csv("a,b\nx,{a}\n".as_bytes(), "run {b}").unwrap();
    assert_eq!(jobs, vec!["run {a}"]);
}

#[test]
fn expand_passes_over_names_without_values() {
    let command = expand("{a} {b} {c}", &strings(&["a", "b", "c"]), &strings(&["1", "2"]));
    assert_eq!(command, "1 2 {c}");
}

#[test]
fn expand_passes_over_values_without_names() {
    let command = expand("{a} {b}", &strings(&["a"]), &strings(&["1", "2"]));
    assert_eq!(command, "1 {b}");
}

#[test]
fn expand_with_an_empty_name_replaces_empty_braces() {
    let command = expand("run {} now", &strings(&[""]), &strings(&["it"]));
    assert_eq!(command, "run it now");
}

#[test]
fn expand_agrees_with_replacing_name_by_name() {
    let names = strings(&["id", "r", "id2"]);
    let values = strings(&["s1", "{id2}", "z"]);
    let template = "x {id} {r} {id2} {id}{id} {";
    let mut expected = template.to_string();
    for (name, value) in names.iter().zip(values.iter()) {
        expected = expected.replace(&format!("{{{}}}", name), value);
    }
    assert_eq!(expand(template, &names, &values), expected);
}

#[test]
fn expand_rows_gives_one_command_per_row() {
    let table = Table {
        headers: strings(&["a", "b"]),
        rows: vec![strings(&["x", "y"]), strings(&["1", "2"]), strings(&["only"])],
    };
    let jobs = expand_rows(&table, "run {a} {b}");
    assert_eq!(jobs, vec!["run x y", "run 1 2", "run only {b}"]);
}
