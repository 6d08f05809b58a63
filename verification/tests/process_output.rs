use dev_dashboard::output::{ProcessOutput, MAX_OUTPUT_LINES};

#[test]
fn new_record_says_that_it_is_empty() {
    assert_eq!(ProcessOutput::new(3).get_all_output(), "No output yet...");
    assert_eq!(MAX_OUTPUT_LINES, 100);
}

#[test]
fn errors_come_first() {
    let mut output = ProcessOutput::new(10);
    output.add_stdout("one".to_string());
    output.add_stderr("bad".to_string());
    output.add_stdout("two".to_string());
    assert_eq!(
        output.get_all_output(),
        "=== STDERR ===\nbad\n\n=== STDOUT ===\none\ntwo\n"
    );
}

#[test]
fn stream_without_lines_has_no_heading() {
    let mut output = ProcessOutput::new(10);
    output.add_stderr("bad".to_string());
    assert_eq!(output.get_all_output(), "=== STDERR ===\nbad\n\n");
    let mut output = ProcessOutput::new(10);
    output.add_stdout("good".to_string());
    assert_eq!(output.get_all_output(), "=== STDOUT ===\ngood\n");
}

#[test]
fn only_the_last_lines_are_kept() {
    let mut output = ProcessOutput::new(2);
    for line in ["a", "b", "c", "d"] {
        output.add_stdout(line.to_string());
        output.add_stderr(line.to_uppercase());
    }
    assert_eq!(
        output.get_all_output(),
        "=== STDERR ===\nC\nD\n\n=== STDOUT ===\nc\nd\n"
    );
}

#[test]
fn record_for_no_lines_stays_empty() {
    let mut output = ProcessOutput::new(0);
    output.add_stdout("a".to_string());
    output.add_stderr("b".to_string());
    assert_eq!(output.get_all_output(), "No output yet...");
}

#[test]
fn empty_line_is_a_line() {
    let mut output = ProcessOutput::new(5);
    output.add_stdout(String::new());
    assert_eq!(output.get_all_output(), "=== STDOUT ===\n\n");
}

#[test]
fn interleaving_makes_no_difference() {
    let (mut a, mut b) = (ProcessOutput::new(2), ProcessOutput::new(2));
    for line in ["1", "2", "3"] {
        a.add_stdout(line.to_string());
        a.add_stderr(line.to_string());
        b.add_stderr(line.to_string());
    }
    for line in ["1", "2", "3"] {
        b.add_stdout(line.to_string());
    }
    assert_eq!(a.get_all_output(), "=== STDERR ===\n2\n3\n\n=== STDOUT ===\n2\n3\n");
    assert_eq!(a.get_all_output(), b.get_all_output());
}
