use minicli::failure::ErrorKind;
use minicli::failure::Failure;
use minicli::lines::complain_of_file;
use minicli::lines::complain_of_line;
use minicli::lines::show_file;
use minicli::lines::show_line;
use minicli::lines::FileRead;
use minicli::lines::LineRead;
use minicli::report::Line;
use minicli::report::Stream;

fn failure(kind: ErrorKind, path: &str, detail: &str) -> Failure {
    Failure::new(kind, path.to_string(), detail.to_string())
}

fn out(text: &str) -> Line {
    Line { stream: Stream::Stdout, text: text.to_string() }
}

fn err(text: &str) -> Line {
    Line { stream: Stream::Stderr, text: text.to_string() }
}

#[test]
fn failure_new_keeps_its_parts() {
    let f = failure(ErrorKind::Unreadable, "/p", "denied");
    assert_eq!(f.kind, ErrorKind::Unreadable);
    assert_eq!(f.path, "/p");
    assert_eq!(f.detail, "denied");
    assert_eq!(f.copy(), f);
}

#[test]
fn line_constructors_pick_the_stream() {
    assert_eq!(Line::stdout("a".to_string()), out("a"));
    assert_eq!(Line::stderr("a".to_string()), err("a"));
}

#[test]
fn show_line_prints_the_text_as_it_is() {
    assert_eq!(show_line(&LineRead::Text("hello".to_string())), out("hello"));
    assert_eq!(show_line(&LineRead::Text(String::new())), out(""));
}

#[test]
fn show_line_complains_of_a_line_that_failed() {
    let read = LineRead::Failed(failure(ErrorKind::DecodeError, "", "stream did not contain valid UTF-8"));
    assert_eq!(show_line(&read), err("Error reading line: stream did not contain valid UTF-8"));
}

#[test]
fn complain_of_line_names_the_reason() {
    let f = failure(ErrorKind::DecodeError, "", "bad bytes");
    assert_eq!(complain_of_line(&f), err("Error reading line: bad bytes"));
}

#[test]
fn complain_of_file_says_that_a_missing_file_does_not_exist() {
    let f = failure(ErrorKind::PathNotFound, "nope.txt", "");
    assert_eq!(complain_of_file("nope.txt", &f), err("Error: File 'nope.txt' does not exist."));
}

#[test]
fn complain_of_file_says_why_a_file_could_not_be_opened() {
    let f = failure(ErrorKind::Unreadable, "secret.txt", "Permission denied (os error 13)");
    assert_eq!(
        complain_of_file("secret.txt", &f),
        err("Error: Unable to open file 'secret.txt': Permission denied (os error 13)")
    );
}

#[test]
fn show_file_prints_every_line_in_order() {
    let read = FileRead::Opened(vec![
        LineRead::Text("hello".to_string()),
        LineRead::Text("world".to_string()),
    ]);
    assert_eq!(show_file("a.txt", &read), vec![out("hello"), out("world")]);
}

#[test]
fn show_file_of_an_empty_file_prints_nothing() {
    let read = FileRead::Opened(Vec::new());
    assert_eq!(show_file("empty.txt", &read), Vec::<Line>::new());
}

#[test]
fn show_file_goes_on_after_a_line_that_failed() {
    let read = FileRead::Opened(vec![
        LineRead::Text("one".to_string()),
        LineRead::Failed(failure(ErrorKind::DecodeError, "", "bad bytes")),
        LineRead::Text("three".to_string()),
    ]);
    assert_eq!(
        show_file("mixed.bin", &read),
        vec![out("one"), err("Error reading line: bad bytes"), out("three")]
    );
}

#[test]
fn cat_on_a_nonexistent_path_reports_an_error_and_no_content() {
    let read = FileRead::Failed(failure(ErrorKind::PathNotFound, "/no/such/file", ""));
    let lines = show_file("/no/such/file", &read);
    assert_eq!(lines, vec![err("Error: File '/no/such/file' does not exist.")]);
    assert!(lines.iter().all(|line| line.stream == Stream::Stderr));
}

#[test]
fn cat_on_an_unreadable_path_reports_an_error_and_no_content() {
    let read = FileRead::Failed(failure(ErrorKind::Unreadable, "/root/x", "Permission denied"));
    let lines = show_file("/root/x", &read);
    assert_eq!(lines, vec![err("Error: Unable to open file '/root/x': Permission denied")]);
}
