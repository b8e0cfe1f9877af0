use minicli::failure::ErrorKind;
use minicli::failure::Failure;
use minicli::listing::classify;
use minicli::listing::complain_of_dir;
use minicli::listing::complain_of_entry;
use minicli::listing::describe;
use minicli::listing::format_entry;
use minicli::listing::kind_word;
use minicli::listing::list_dir;
use minicli::listing::list_line;
use minicli::listing::records;
use minicli::listing::DirEntryInfo;
use minicli::listing::DirRead;
use minicli::listing::EntryKind;
use minicli::listing::EntryRead;
use minicli::listing::RawEntry;
use minicli::listing::KIND_WIDTH;
use minicli::listing::SIZE_WIDTH;
use minicli::report::Line;
use minicli::report::Stream;

fn raw(name: &str, is_dir: bool, is_file: bool, size: u64) -> RawEntry {
    RawEntry { name: name.to_string(), is_dir, is_file, size }
}

fn entry(name: &str, is_dir: bool, is_file: bool, size: u64) -> EntryRead {
    EntryRead::Entry(raw(name, is_dir, is_file, size))
}

fn info(name: &str, kind: EntryKind, size_bytes: u64) -> DirEntryInfo {
    DirEntryInfo { name: name.to_string(), kind, size_bytes }
}

fn no_metadata(path: &str, detail: &str) -> EntryRead {
    EntryRead::Failed(Failure::new(
        ErrorKind::MetadataUnavailable,
        path.to_string(),
        detail.to_string(),
    ))
}

fn unreadable(detail: &str) -> EntryRead {
    EntryRead::Failed(Failure::new(ErrorKind::Unreadable, String::new(), detail.to_string()))
}

fn sorted(mut infos: Vec<DirEntryInfo>) -> Vec<DirEntryInfo> {
    infos.sort_by(|a, b| (&a.name, a.size_bytes).cmp(&(&b.name, b.size_bytes)));
    infos
}

#[test]
fn classify_puts_a_directory_first() {
    assert_eq!(classify(true, false), EntryKind::Directory);
    assert_eq!(classify(true, true), EntryKind::Directory);
}

#[test]
fn classify_takes_a_regular_file_as_a_file() {
    assert_eq!(classify(false, true), EntryKind::File);
}

#[test]
fn classify_takes_the_rest_as_other() {
    assert_eq!(classify(false, false), EntryKind::Other);
}

#[test]
fn kind_word_names_each_kind() {
    assert_eq!(kind_word(EntryKind::File), "File");
    assert_eq!(kind_word(EntryKind::Directory), "Directory");
    assert_eq!(kind_word(EntryKind::Other), "Other");
}

#[test]
fn columns_have_their_widths() {
    assert_eq!(KIND_WIDTH, 10);
    assert_eq!(SIZE_WIDTH, 20);
}

#[test]
fn describe_keeps_name_and_size() {
    assert_eq!(describe(&raw("a.txt", false, true, 11)), info("a.txt", EntryKind::File, 11));
    assert_eq!(describe(&raw("sub", true, false, 4096)), info("sub", EntryKind::Directory, 4096));
    assert_eq!(describe(&raw("link", false, false, 5)), info("link", EntryKind::Other, 5));
}

#[test]
fn format_entry_aligns_kind_and_size_on_the_left() {
    assert_eq!(
        format_entry(&info("a.txt", EntryKind::File, 11)),
        "File       11                   a.txt"
    );
    assert_eq!(
        format_entry(&info("sub", EntryKind::Directory, 4096)),
        "Directory  4096                 sub"
    );
    assert_eq!(
        format_entry(&info("tty", EntryKind::Other, 0)),
        "Other      0                    tty"
    );
}

#[test]
fn format_entry_agrees_with_the_formatter() {
    let cases = [
        info("a.txt", EntryKind::File, 11),
        info("name with spaces", EntryKind::Directory, 0),
        info("", EntryKind::Other, 123456789),
        info("big", EntryKind::File, u64::MAX),
    ];
    for case in cases.iter() {
        let wanted =
            format!("{:<10} {:<20} {}", kind_word(case.kind), case.size_bytes, case.name);
        assert_eq!(format_entry(case), wanted);
    }
}

#[test]
fn format_entry_fills_the_size_column_with_the_largest_size() {
    assert_eq!(
        format_entry(&info("big", EntryKind::File, u64::MAX)),
        "File       18446744073709551615 big"
    );
}

#[test]
fn records_has_one_record_for_each_entry() {
    let reads = vec![
        entry("a.txt", false, true, 11),
        entry("sub", true, false, 4096),
        entry("sock", false, false, 0),
    ];
    assert_eq!(
        records(&reads),
        vec![
            info("a.txt", EntryKind::File, 11),
            info("sub", EntryKind::Directory, 4096),
            info("sock", EntryKind::Other, 0),
        ]
    );
}

#[test]
fn records_of_n_entries_are_n() {
    for n in 0..6usize {
        let mut reads = Vec::new();
        for i in 0..n {
            reads.push(entry(&format!("f{}", i), false, true, i as u64));
        }
        let infos = records(&reads);
        assert_eq!(infos.len(), n);
        for i in 0..n {
            assert_eq!(infos[i], info(&format!("f{}", i), EntryKind::File, i as u64));
        }
    }
}

#[test]
fn records_of_an_empty_directory_are_none() {
    assert_eq!(records(&Vec::new()), Vec::<DirEntryInfo>::new());
}

#[test]
fn records_leave_out_what_could_not_be_had() {
    let reads = vec![
        entry("a", false, true, 1),
        no_metadata("/d/b", "gone"),
        unreadable("io"),
        entry("c", true, false, 3),
    ];
    assert_eq!(
        records(&reads),
        vec![info("a", EntryKind::File, 1), info("c", EntryKind::Directory, 3)]
    );
}

#[test]
fn records_do_not_depend_on_the_order_of_the_listing() {
    let one = vec![
        entry("a.txt", false, true, 11),
        no_metadata("/d/x", "gone"),
        entry("sub", true, false, 4096),
        entry("z", false, false, 9),
    ];
    let other = vec![
        entry("z", false, false, 9),
        entry("sub", true, false, 4096),
        entry("a.txt", false, true, 11),
        no_metadata("/d/x", "gone"),
    ];
    assert_eq!(sorted(records(&one)), sorted(records(&other)));
}

#[test]
fn listing_twice_gives_the_same_records() {
    let reads = vec![entry("a.txt", false, true, 11), entry("sub", true, false, 4096)];
    assert_eq!(records(&reads), records(&reads));
    let read = DirRead::Opened(reads);
    assert_eq!(list_dir("/tmp/t", &read), list_dir("/tmp/t", &read));
}

#[test]
fn complain_of_entry_names_the_path_whose_metadata_is_missing() {
    let f = Failure::new(
        ErrorKind::MetadataUnavailable,
        "/d/b".to_string(),
        "No such file or directory (os error 2)".to_string(),
    );
    assert_eq!(
        complain_of_entry(&f),
        Line {
            stream: Stream::Stderr,
            text: "Error: Unable to get metadata for '/d/b': No such file or directory (os error 2)"
                .to_string(),
        }
    );
}

#[test]
fn complain_of_entry_reports_an_entry_that_could_not_be_read() {
    let f = Failure::new(ErrorKind::Unreadable, String::new(), "Input/output error".to_string());
    assert_eq!(
        complain_of_entry(&f),
        Line { stream: Stream::Stderr, text: "Error reading entry: Input/output error".to_string() }
    );
}

#[test]
fn complain_of_dir_names_the_directory() {
    let f = Failure::new(ErrorKind::PathNotFound, "/nope".to_string(), "not found".to_string());
    assert_eq!(
        complain_of_dir("/nope", &f),
        Line {
            stream: Stream::Stderr,
            text: "Error: Unable to read directory '/nope': not found".to_string(),
        }
    );
}

#[test]
fn list_line_prints_an_entry_on_standard_output() {
    assert_eq!(
        list_line(&entry("a.txt", false, true, 11)),
        Line { stream: Stream::Stdout, text: "File       11                   a.txt".to_string() }
    );
}

#[test]
fn list_line_prints_a_failure_on_standard_error() {
    assert_eq!(
        list_line(&no_metadata("/d/b", "gone")),
        Line {
            stream: Stream::Stderr,
            text: "Error: Unable to get metadata for '/d/b': gone".to_string(),
        }
    );
    assert_eq!(
        list_line(&unreadable("io")),
        Line { stream: Stream::Stderr, text: "Error reading entry: io".to_string() }
    );
}

#[test]
fn list_dir_goes_on_after_an_entry_that_failed() {
    let read = DirRead::Opened(vec![
        entry("a", false, true, 1),
        no_metadata("/d/b", "gone"),
        entry("c", true, false, 3),
    ]);
    assert_eq!(
        list_dir("/d", &read),
        vec![
            Line { stream: Stream::Stdout, text: "File       1                    a".to_string() },
            Line {
                stream: Stream::Stderr,
                text: "Error: Unable to get metadata for '/d/b': gone".to_string(),
            },
            Line { stream: Stream::Stdout, text: "Directory  3                    c".to_string() },
        ]
    );
}

#[test]
fn list_dir_of_an_unreadable_directory_is_one_complaint() {
    let read = DirRead::Failed(Failure::new(
        ErrorKind::Unreadable,
        "/root".to_string(),
        "Permission denied (os error 13)".to_string(),
    ));
    assert_eq!(
        list_dir("/root", &read),
        vec![Line {
            stream: Stream::Stderr,
            text: "Error: Unable to read directory '/root': Permission denied (os error 13)"
                .to_string(),
        }]
    );
}

#[test]
fn list_dir_output_is_the_records_in_printed_form() {
    let reads = vec![
        entry("a", false, true, 1),
        unreadable("io"),
        entry("c", true, false, 3),
    ];
    let wanted: Vec<String> = records(&reads).iter().map(|r| format_entry(r)).collect();
    let lines = list_dir("/d", &DirRead::Opened(reads));
    let on_stdout: Vec<String> =
        lines.iter().filter(|l| l.stream == Stream::Stdout).map(|l| l.text.clone()).collect();
    assert_eq!(on_stdout, wanted);
}

#[test]
fn scenario_listing_shows_a_file_and_a_directory() {
    let reads = vec![entry("a.txt", false, true, 11), entry("sub", true, false, 4096)];
    let infos = records(&reads);
    assert_eq!(infos.len(), 2);
    assert!(infos.contains(&info("a.txt", EntryKind::File, 11)));
    assert!(infos.contains(&info("sub", EntryKind::Directory, 4096)));
    let lines = list_dir("/tmp/t", &DirRead::Opened(reads));
    assert_eq!(lines.len(), 2);
    assert!(lines.iter().all(|l| l.stream == Stream::Stdout));
    assert!(lines.iter().any(|l| l.text.starts_with("File ") && l.text.ends_with(" a.txt")));
    assert!(lines.iter().any(|l| l.text.starts_with("Directory ") && l.text.ends_with(" sub")));
}
