use minicli::command::dispatch;
use minicli::command::echo;
use minicli::command::Command;
use minicli::command::Operation;
use minicli::lines::FileRead;
use minicli::lines::LineRead;
use minicli::report::Line;
use minicli::report::Stream;
use minicli::search::search_file;
use minicli::walk::WalkRequest;

#[test]
fn echo_prints_the_text_on_standard_output() {
    assert_eq!(echo("hi there"), Line { stream: Stream::Stdout, text: "hi there".to_string() });
    assert_eq!(echo(""), Line { stream: Stream::Stdout, text: String::new() });
}

#[test]
fn list_defaults_to_the_current_directory() {
    assert_eq!(Command::list(None), Command::List { path: ".".to_string() });
}

#[test]
fn list_takes_the_path_given() {
    assert_eq!(
        Command::list(Some("/tmp".to_string())),
        Command::List { path: "/tmp".to_string() }
    );
}

#[test]
fn dispatch_maps_echo_to_echo() {
    match dispatch(&Command::Echo { text: "hi".to_string() }) {
        Operation::Echo { text } => assert_eq!(text, "hi"),
        _ => panic!("another operation"),
    }
}

#[test]
fn dispatch_maps_cat_to_show() {
    match dispatch(&Command::Cat { file: "a.txt".to_string() }) {
        Operation::Show { file } => assert_eq!(file, "a.txt"),
        _ => panic!("another operation"),
    }
}

#[test]
fn dispatch_maps_list_to_list() {
    match dispatch(&Command::list(None)) {
        Operation::List { path } => assert_eq!(path, "."),
        _ => panic!("another operation"),
    }
}

#[test]
fn dispatch_maps_find_to_a_finder_at_its_start() {
    let command = Command::Find { path: "/tmp/t".to_string(), filename: "b.txt".to_string() };
    match dispatch(&command) {
        Operation::Find { finder } => {
            assert_eq!(finder.request(), WalkRequest::Open("/tmp/t".to_string()));
            assert!(!finder.found());
            assert_eq!(finder.depth(), 0);
            assert_eq!(
                finder.closing(),
                vec![Line {
                    stream: Stream::Stdout,
                    text: "No file found matching 'b.txt'".to_string(),
                }]
            );
        },
        _ => panic!("another operation"),
    }
}

#[test]
fn dispatch_maps_grep_to_a_matcher_at_its_start() {
    let command = Command::Grep { pattern: "hello".to_string(), file: "a.txt".to_string() };
    match dispatch(&command) {
        Operation::Search { file, mut matcher } => {
            assert_eq!(file, "a.txt");
            assert_eq!(matcher.seen(), 0);
            assert_eq!(
                matcher.feed(&LineRead::Text("hello".to_string())),
                Some(Line { stream: Stream::Stdout, text: "1: hello".to_string() })
            );
        },
        _ => panic!("another operation"),
    }
}

#[test]
fn scenario_grep_prints_the_first_line() {
    let read = FileRead::Opened(vec![
        LineRead::Text("hello".to_string()),
        LineRead::Text("world".to_string()),
    ]);
    assert_eq!(
        search_file("hello", &read),
        vec![Line { stream: Stream::Stdout, text: "1: hello".to_string() }]
    );
}
