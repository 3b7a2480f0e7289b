use etl_rust::extract::analysis::{count_events, print_stats};
use etl_rust::extract::filters::{
    event_type_to_str, is_valid_event_type, matches_actor_filter, save_events, should_include,
};
use etl_rust::extract::json_lines::{
    execute_dry_run, execute_normal_run, locate_files, print_summary_dry_run,
    print_summary_normal_run, receive_all, receive_lines, DecodedLine, FolderEntry, Message,
    Stream,
};
use etl_rust::model::github::{Actor, EventType, GitHubEvent, GitHubPayload, Repo};
use etl_rust::text::{count_lines, file_sort_key, is_blank_line, is_json_file_name, split_lines};
use std::path::Path;

const ALL_TYPES: [EventType; 16] = [
    EventType::PushEvent,
    EventType::PullRequestEvent,
    EventType::PullRequestReviewEvent,
    EventType::PullRequestReviewCommentEvent,
    EventType::CreateEvent,
    EventType::DeleteEvent,
    EventType::IssuesEvent,
    EventType::IssueCommentEvent,
    EventType::WatchEvent,
    EventType::ForkEvent,
    EventType::ReleaseEvent,
    EventType::GollumEvent,
    EventType::MemberEvent,
    EventType::PublicEvent,
    EventType::CommitCommentEvent,
    EventType::DiscussionEvent,
];

const ALL_NAMES: [&str; 16] = [
    "PushEvent",
    "PullRequestEvent",
    "PullRequestReviewEvent",
    "PullRequestReviewCommentEvent",
    "CreateEvent",
    "DeleteEvent",
    "IssuesEvent",
    "IssueCommentEvent",
    "WatchEvent",
    "ForkEvent",
    "ReleaseEvent",
    "GollumEvent",
    "MemberEvent",
    "PublicEvent",
    "CommitCommentEvent",
    "DiscussionEvent",
];

fn event(id: &str, event_type: EventType) -> GitHubEvent {
    GitHubEvent {
        id: id.to_string(),
        event_type,
        actor: Actor {
            id: 1,
            login: "user".to_string(),
            display_login: None,
            gravatar_id: String::new(),
            url: String::new(),
            avatar_url: String::new(),
        },
        repo: Repo { id: 1, name: "repo".to_string(), url: String::new() },
        payload: GitHubPayload {
            action: None,
            ref_type: None,
            git_ref: None,
            full_ref: None,
            pusher_type: None,
            master_branch: None,
            description: None,
            repository_id: None,
            push_id: None,
            head: None,
            before: None,
            number: None,
            pull_request: None,
            issue: None,
            comment: None,
            review: None,
            release: None,
            forkee: None,
            label: None,
            assignee: None,
            assignees: None,
            labels: None,
            member: None,
            pages: None,
            discussion: None,
        },
        public: true,
        created_at: "2021-01-01T00:00:00Z".to_string(),
        org: None,
    }
}

fn good(id: &str, event_type: EventType) -> DecodedLine {
    DecodedLine { text: format!("{{\"id\":\"{}\"}}", id), decoded: Ok(event(id, event_type)) }
}

fn bad(text: &str, reason: &str) -> DecodedLine {
    DecodedLine { text: text.to_string(), decoded: Err(reason.to_string()) }
}

fn ids(events: &[GitHubEvent]) -> Vec<String> {
    events.iter().map(|e| e.id.clone()).collect()
}

fn texts(messages: &[Message], stream: Stream) -> Vec<String> {
    messages.iter().filter(|m| m.stream == stream).map(|m| m.text.clone()).collect()
}

fn file(name: &str) -> Result<FolderEntry, String> {
    Ok(FolderEntry { file_name: name.to_string(), is_file: true })
}

#[test]
fn every_event_type_name_is_valid() {
    for name in ALL_NAMES {
        assert!(is_valid_event_type(name), "{}", name);
    }
}

#[test]
fn names_outside_the_closed_set_are_invalid() {
    for name in [
        "",
        "pushevent",
        "PUSHEVENT",
        "PushEvent ",
        " PushEvent",
        "Push",
        "PushEvents",
        "InvalidEventType",
        "UnknownEvent",
        "PullRequestReviewCommentEven",
    ] {
        assert!(!is_valid_event_type(name), "{:?}", name);
    }
}

#[test]
fn event_type_names_are_the_variant_names() {
    for (event_type, name) in ALL_TYPES.iter().zip(ALL_NAMES) {
        assert_eq!(event_type_to_str(event_type), name);
        assert_eq!(format!("{:?}", event_type), name);
    }
}

#[test]
fn actor_filter_ignores_ascii_case_only() {
    assert!(matches_actor_filter("Alice", "alice"));
    assert!(matches_actor_filter("alice", "ALICE"));
    assert!(matches_actor_filter("", ""));
    assert!(matches_actor_filter("bot[1]", "BOT[1]"));
    assert!(!matches_actor_filter("alice", "alice "));
    assert!(!matches_actor_filter("alice", "alic"));
    assert!(!matches_actor_filter("alice", "bob"));
    assert!(!matches_actor_filter("\u{e9}", "\u{c9}"));
    assert!(!matches_actor_filter("@", "`"));
    assert!(!matches_actor_filter("[", "{"));
}

#[test]
fn actor_filter_agrees_with_std() {
    let samples = ["", "a", "A", "z", "Z", "@", "`", "[", "{", "aB", "Ab", "ab ", "\u{e9}", "\u{c9}", "k", "\u{212a}"];
    for a in samples {
        for b in samples {
            assert_eq!(matches_actor_filter(a, b), a.eq_ignore_ascii_case(b), "{:?} {:?}", a, b);
        }
    }
}

#[test]
fn no_filter_includes_every_type() {
    for event_type in ALL_TYPES {
        assert!(should_include(&event("1", event_type), &None));
    }
}

#[test]
fn filter_includes_exactly_its_type() {
    for event_type in ALL_TYPES {
        for name in ALL_NAMES {
            assert_eq!(
                should_include(&event("1", event_type), &Some(name.to_string())),
                event_type_to_str(&event_type) == name
            );
        }
    }
    assert!(!should_include(&event("1", EventType::PushEvent), &Some("pushevent".to_string())));
}

#[test]
fn lines_are_split_as_std_splits_them() {
    for text in [
        "",
        "\n",
        "\r\n",
        "a",
        "a\n",
        "a\r\n",
        "a\r",
        "a\rb",
        "a\nb",
        "a\n\nb",
        "a\r\n\r\nb\r\n",
        "\n\na",
        "a\n\r",
        "a\r\r\n",
        "\n  \n\t\n",
        "one\ntwo\nthree",
        "\u{e9}\n\u{4e2d}\u{6587}\n",
    ] {
        let expected: Vec<String> = text.lines().map(|l| l.to_string()).collect();
        assert_eq!(split_lines(text), expected, "{:?}", text);
        assert_eq!(count_lines(text), expected.len(), "{:?}", text);
    }
}

#[test]
fn split_lines_exact_values() {
    assert_eq!(split_lines("a\r\nb\n\nc"), vec!["a", "b", "", "c"]);
    assert_eq!(split_lines("a\n"), vec!["a"]);
    assert_eq!(split_lines("\n"), vec![""]);
    assert!(split_lines("").is_empty());
    assert_eq!(split_lines("a\r"), vec!["a\r"]);
    assert_eq!(count_lines("a\n\n\nb"), 4);
}

#[test]
fn blank_lines_are_those_that_trim_to_nothing() {
    for code in 0..=0x10ffffu32 {
        if let Some(c) = char::from_u32(code) {
            let text = c.to_string();
            assert_eq!(is_blank_line(&text), text.trim().is_empty(), "{:x}", code);
        }
    }
    assert!(is_blank_line(""));
    assert!(is_blank_line("  \t \r"));
    assert!(is_blank_line("\u{a0}\u{3000}\u{2028}"));
    assert!(!is_blank_line("  x  "));
    assert!(!is_blank_line("\u{200b}"));
}

fn std_sort_key(name: &str) -> i32 {
    Path::new(name)
        .file_stem()
        .and_then(|s| s.to_str())
        .and_then(|s| s.split('-').next_back())
        .and_then(|s| s.parse::<i32>().ok())
        .unwrap_or(0)
}

fn std_is_json(name: &str) -> bool {
    Path::new(name).extension().and_then(|s| s.to_str()) == Some("json")
}

const FILE_NAMES: [&str; 44] = [
    "",
    ".",
    "..",
    "...",
    ".json",
    "..json",
    "a.json",
    "a.JSON",
    "a.jsonl",
    "a.json.gz",
    "a.b.json",
    "json",
    "a.",
    "a..json",
    "1.json",
    "file-1.json",
    "file-01.json",
    "file-10.json",
    "file--7.json",
    "file-+7.json",
    "file-7-.json",
    "file-.json",
    "-5.json",
    "+5.json",
    "2015-01-01-15.json",
    "2015-01-01-15",
    "2015-01-01-15.json.gz",
    "file-2147483647.json",
    "file-2147483648.json",
    "file-02147483647.json",
    "file-99999999999999999999999.json",
    "file-0.json",
    "file-00.json",
    "file-1a.json",
    "file-a1.json",
    "file- 1.json",
    "file-1 .json",
    "file-1_000.json",
    "file-\u{661}.json",
    "file_3.json",
    "3",
    "+",
    "-",
    "a-b.c-12.json",
];

#[test]
fn sort_key_agrees_with_std() {
    for name in FILE_NAMES {
        assert_eq!(file_sort_key(name), std_sort_key(name), "{:?}", name);
    }
}

#[test]
fn sort_key_exact_values() {
    assert_eq!(file_sort_key("file-12.json"), 12);
    assert_eq!(file_sort_key("2015-01-01-15.json"), 15);
    assert_eq!(file_sort_key("7.json"), 7);
    assert_eq!(file_sort_key("file-+7.json"), 7);
    assert_eq!(file_sort_key("file-007.json"), 7);
    assert_eq!(file_sort_key("events.json"), 0);
    assert_eq!(file_sort_key("file-.json"), 0);
    assert_eq!(file_sort_key("file-2147483647.json"), 2147483647);
    assert_eq!(file_sort_key("file-2147483648.json"), 0);
    assert_eq!(file_sort_key("a.json.gz"), 0);
    assert_eq!(file_sort_key("a-3.json.gz"), 0);
    assert_eq!(file_sort_key("a-3"), 3);
}

#[test]
fn json_extension_agrees_with_std() {
    for name in FILE_NAMES {
        assert_eq!(is_json_file_name(name), std_is_json(name), "{:?}", name);
    }
    assert!(is_json_file_name("a.json"));
    assert!(is_json_file_name("..json"));
    assert!(!is_json_file_name(".json"));
    assert!(!is_json_file_name("a.JSON"));
    assert!(!is_json_file_name("a.jsonl"));
    assert!(!is_json_file_name("json"));
}

#[test]
fn files_are_located_in_key_order() {
    let listing = vec![
        file("file-10.json"),
        file("file-2.json"),
        file("notes.txt"),
        file("b.json"),
        Ok(FolderEntry { file_name: "dir-1.json".to_string(), is_file: false }),
        file("file-1.json"),
        file("a.json"),
        file("other-2.json"),
    ];
    assert_eq!(
        locate_files(listing).unwrap(),
        vec!["b.json", "a.json", "file-1.json", "file-2.json", "other-2.json", "file-10.json"]
    );
}

#[test]
fn located_files_agree_with_a_stable_sort() {
    let names: Vec<&str> = FILE_NAMES.iter().copied().rev().collect();
    let mut expected: Vec<String> =
        names.iter().filter(|n| std_is_json(n)).map(|n| n.to_string()).collect();
    expected.sort_by_key(|n| std_sort_key(n));
    let listing = names.iter().map(|n| file(n)).collect();
    assert_eq!(locate_files(listing).unwrap(), expected);
}

#[test]
fn an_entry_that_cannot_be_read_fails_the_listing() {
    let listing = vec![
        file("1.json"),
        Err("Permission denied (os error 13)".to_string()),
        file("2.json"),
        Err("Input/output error (os error 5)".to_string()),
    ];
    assert_eq!(locate_files(listing).unwrap_err(), "Permission denied (os error 13)");
    assert!(locate_files(Vec::new()).unwrap().is_empty());
}

#[test]
fn well_formed_lines_are_all_kept_without_filter() {
    let lines = vec![
        good("1", EventType::PushEvent),
        bad("", "EOF while parsing a value at line 1 column 0"),
        good("2", EventType::WatchEvent),
        bad("   \t", "EOF while parsing a value at line 1 column 4"),
        good("3", EventType::PushEvent),
    ];
    let batch = receive_lines(lines, &None);
    assert_eq!(ids(&batch.events), vec!["1", "2", "3"]);
    assert!(batch.errors.is_empty());
}

#[test]
fn filter_keeps_the_lines_of_its_type() {
    let lines = || {
        vec![
            good("1", EventType::PushEvent),
            good("2", EventType::WatchEvent),
            good("3", EventType::PushEvent),
            bad("{\"type\":\"PushEvent\"}", "missing field `id` at line 1 column 20"),
            good("4", EventType::IssuesEvent),
        ]
    };
    let batch = receive_lines(lines(), &Some("PushEvent".to_string()));
    assert_eq!(ids(&batch.events), vec!["1", "3"]);
    assert_eq!(batch.errors.len(), 1);
    let batch = receive_lines(lines(), &Some("ForkEvent".to_string()));
    assert!(batch.events.is_empty());
    assert_eq!(batch.errors.len(), 1);
}

#[test]
fn blank_lines_count_for_nothing() {
    let without = receive_lines(
        vec![good("1", EventType::PushEvent), bad("{", "EOF"), good("2", EventType::PushEvent)],
        &None,
    );
    let with = receive_lines(
        vec![
            bad("", "EOF"),
            good("1", EventType::PushEvent),
            DecodedLine { text: " ".to_string(), decoded: Ok(event("9", EventType::PushEvent)) },
            bad("{", "EOF"),
            bad("\t\t", "EOF"),
            good("2", EventType::PushEvent),
            bad("\u{a0}", "EOF"),
        ],
        &None,
    );
    assert_eq!(ids(&with.events), ids(&without.events));
    assert_eq!(with.errors.len(), without.errors.len());
    assert_eq!(with.errors[0].line, 4);
    assert_eq!(without.errors[0].line, 2);
}

#[test]
fn one_malformed_line_costs_one_line() {
    let lines = vec![
        good("1", EventType::PushEvent),
        good("2", EventType::CreateEvent),
        bad("{\"invalid json\":", "EOF while parsing a value at line 1 column 16"),
        good("3", EventType::PushEvent),
    ];
    let batch = receive_all(Ok(lines), None).unwrap();
    assert_eq!(ids(&batch.events), vec!["1", "2", "3"]);
    assert_eq!(batch.errors.len(), 1);
    assert_eq!(batch.errors[0].line, 3);
    assert_eq!(batch.errors[0].message, "EOF while parsing a value at line 1 column 16");
    assert_eq!(
        batch.errors[0].warning(),
        "Warning at line 3: EOF while parsing a value at line 1 column 16"
    );
}

#[test]
fn a_file_that_cannot_be_read_is_an_error() {
    let result = receive_all(Err("Permission denied (os error 13)".to_string()), None);
    assert_eq!(result.err().unwrap(), "Permission denied (os error 13)");
}

#[test]
fn warning_numbers_lines_from_one() {
    let mut lines = vec![bad("x", "expected value at line 1 column 1")];
    for i in 0..11 {
        lines.push(good(&i.to_string(), EventType::PushEvent));
    }
    lines.push(bad("y", "expected value at line 1 column 1"));
    let batch = receive_lines(lines, &None);
    assert_eq!(batch.errors[0].warning(), "Warning at line 1: expected value at line 1 column 1");
    assert_eq!(batch.errors[1].warning(), "Warning at line 13: expected value at line 1 column 1");
}

fn report_row(name: &str, count: usize) -> String {
    format!("{:<30} | {:>7}", name, count)
}

#[test]
fn report_ranks_by_count_and_adds_up() {
    let a = EventType::PushEvent;
    let b = EventType::WatchEvent;
    let events =
        vec![event("1", a), event("2", a), event("3", a), event("4", b), event("5", a)];
    let counts = count_events(&events);
    assert_eq!(counts.len(), 2);
    assert_eq!(counts.get("PushEvent"), Some(4));
    assert_eq!(counts.get("WatchEvent"), Some(1));
    assert_eq!(counts.get("ForkEvent"), None);
    let lines = print_stats(&counts);
    assert_eq!(
        lines,
        vec![
            "".to_string(),
            format!("{:=^40}", " EVENT ANALYTICS "),
            report_row("PushEvent", 4),
            report_row("WatchEvent", 1),
            format!("{:-^40}", ""),
            report_row("TOTAL", 5),
            format!("{:=^40}", ""),
            "".to_string(),
        ]
    );
    assert_eq!(lines[2], "PushEvent                      |       4");
    assert_eq!(lines[5], "TOTAL                          |       5");
}

#[test]
fn report_puts_the_greater_count_first() {
    let events = vec![
        event("1", EventType::WatchEvent),
        event("2", EventType::PushEvent),
        event("3", EventType::ForkEvent),
        event("4", EventType::PushEvent),
        event("5", EventType::ForkEvent),
        event("6", EventType::PushEvent),
        event("7", EventType::IssuesEvent),
    ];
    let counts = count_events(&events);
    let rows: Vec<(EventType, usize)> =
        counts.rows().iter().map(|r| (r.event_type, r.count)).collect();
    assert_eq!(
        rows,
        vec![
            (EventType::WatchEvent, 1),
            (EventType::PushEvent, 3),
            (EventType::ForkEvent, 2),
            (EventType::IssuesEvent, 1),
        ]
    );
    let lines = print_stats(&counts);
    assert_eq!(
        &lines[2..6],
        &[
            report_row("PushEvent", 3),
            report_row("ForkEvent", 2),
            report_row("WatchEvent", 1),
            report_row("IssuesEvent", 1),
        ]
    );
    assert_eq!(lines[7], report_row("TOTAL", 7));
}

#[test]
fn report_rows_keep_long_names_whole() {
    let mut events = Vec::new();
    for _ in 0..21 {
        events.push(event("", EventType::PullRequestReviewCommentEvent));
        events.push(event("", EventType::PushEvent));
    }
    let lines = print_stats(&count_events(&events));
    assert_eq!(lines[2], report_row("PullRequestReviewCommentEvent", 21));
    assert_eq!(lines[2], "PullRequestReviewCommentEvent  |      21");
    assert_eq!(lines[3], report_row("PushEvent", 21));
}

#[test]
fn no_events_count_nothing() {
    let counts = count_events(&[]);
    assert_eq!(counts.len(), 0);
    assert!(counts.rows().is_empty());
    let lines = print_stats(&counts);
    assert_eq!(lines.len(), 6);
    assert_eq!(lines[3], report_row("TOTAL", 0));
}

#[test]
fn every_type_is_counted_under_its_name() {
    let mut events = Vec::new();
    for (i, event_type) in ALL_TYPES.iter().enumerate() {
        for _ in 0..=i {
            events.push(event("", *event_type));
        }
    }
    let counts = count_events(&events);
    assert_eq!(counts.len(), 16);
    for (i, name) in ALL_NAMES.iter().enumerate() {
        assert_eq!(counts.get(name), Some(i + 1));
    }
    let lines = print_stats(&counts);
    assert_eq!(lines[2], report_row("DiscussionEvent", 16));
    assert_eq!(lines[17], report_row("PushEvent", 1));
    assert_eq!(lines[19], report_row("TOTAL", 136));
}

#[test]
fn saved_events_are_framed_one_per_line() {
    let batch = save_events(vec![
        Ok("{\"id\":\"1\"}".to_string()),
        Ok("{\"id\":\"2\"}".to_string()),
    ]);
    assert_eq!(batch.lines, vec!["{\"id\":\"1\"}\n", "{\"id\":\"2\"}\n"]);
    assert!(batch.failures.is_empty());
    let batch = save_events(Vec::new());
    assert!(batch.lines.is_empty());
    assert!(batch.failures.is_empty());
}

#[test]
fn an_event_that_cannot_be_serialised_is_left_out() {
    let batch = save_events(vec![
        Ok("{\"id\":\"1\"}".to_string()),
        Err("key must be a string".to_string()),
        Ok("{\"id\":\"3\"}".to_string()),
    ]);
    assert_eq!(batch.lines, vec!["{\"id\":\"1\"}\n", "{\"id\":\"3\"}\n"]);
    assert_eq!(batch.failures, vec!["Failed to serialize event: key must be a string"]);
}

#[test]
fn summary_of_a_normal_run() {
    assert_eq!(
        print_summary_normal_run(
            3,
            120,
            &Some("PushEvent".to_string()),
            &Some("out.jsonl".to_string()),
            "1.25s",
            false
        ),
        vec![
            "-------------------------------------------------",
            "Summary:",
            "Total files: 3",
            "Total events processed: 120",
            "Filter applied: PushEvent",
            "Output saved to: out.jsonl",
            "Total time: 1.25s",
        ]
    );
    assert_eq!(
        print_summary_normal_run(0, 0, &None, &None, "2.00ms", false),
        vec![
            "-------------------------------------------------",
            "Summary:",
            "Total files: 0",
            "Total events processed: 0",
            "Total time: 2.00ms",
        ]
    );
    assert!(print_summary_normal_run(3, 120, &None, &None, "1.25s", true).is_empty());
}

#[test]
fn summary_of_a_dry_run() {
    assert_eq!(
        print_summary_dry_run(2, 18446744073709551616, &Some("ForkEvent".to_string()), "3.10s", false),
        vec![
            "-------------------------------------------------",
            "Summary (Dry-run):",
            "Total files: 2",
            "Total lines/events: 18446744073709551616",
            "Filter applied: ForkEvent",
            "Total time: 3.10s",
        ]
    );
    assert!(print_summary_dry_run(2, 7, &None, "3.10s", true).is_empty());
}

#[test]
fn dry_run_counts_every_line() {
    let files = vec!["a-1.json".to_string(), "b-2.json".to_string(), "it's.json".to_string()];
    let contents = vec![
        Ok("{}\n\nnot json\n   \n".to_string()),
        Err("Permission denied (os error 13)".to_string()),
        Ok("one".to_string()),
    ];
    let lines = execute_dry_run(&files, &contents, &None, "1.00s", false);
    assert_eq!(
        lines,
        vec![
            format!("[Dry-run]: Would process file: {:?}, 4 lines", Path::new("a-1.json")),
            format!("[Dry-run]: Would process file: {:?}, 0 lines", Path::new("b-2.json")),
            format!("[Dry-run]: Would process file: {:?}, 1 lines", Path::new("it's.json")),
            "-------------------------------------------------".to_string(),
            "Summary (Dry-run):".to_string(),
            "Total files: 3".to_string(),
            "Total lines/events: 5".to_string(),
            "Total time: 1.00s".to_string(),
        ]
    );
    assert_eq!(lines[0], "[Dry-run]: Would process file: \"a-1.json\", 4 lines");
    assert!(execute_dry_run(&files, &contents, &None, "1.00s", true).is_empty());
}

#[test]
fn normal_run_gathers_files_in_order() {
    let files = vec!["a-1.json".to_string(), "b-2.json".to_string(), "c-3.json".to_string()];
    let decoded = vec![
        Ok(vec![
            good("1", EventType::PushEvent),
            bad("{", "EOF while parsing an object at line 1 column 1"),
            good("2", EventType::WatchEvent),
        ]),
        Err("Permission denied (os error 13)".to_string()),
        Ok(vec![good("3", EventType::PushEvent), bad("", "EOF")]),
    ];
    let run = execute_normal_run(&files, decoded, &None, true, false);
    assert_eq!(ids(&run.events), vec!["1", "2", "3"]);
    assert_eq!(
        texts(&run.messages, Stream::Diagnostic),
        vec![
            "Warning at line 2: EOF while parsing an object at line 1 column 1",
            " -> Error in file \"b-2.json\": Permission denied (os error 13)",
        ]
    );
    let said = texts(&run.messages, Stream::Progress);
    assert_eq!(
        &said[..5],
        &[
            "File processing: \"a-1.json\"",
            " -> Success: 2 events",
            "File processing: \"b-2.json\"",
            "File processing: \"c-3.json\"",
            " -> Success: 1 events",
        ]
    );
    assert_eq!(said[7], report_row("PushEvent", 2));
    assert_eq!(said[8], report_row("WatchEvent", 1));
    assert_eq!(said[10], report_row("TOTAL", 3));
    assert_eq!(said.len(), 13);
    let all: Vec<&str> = run.messages.iter().map(|m| m.text.as_str()).collect();
    assert_eq!(all[1], "Warning at line 2: EOF while parsing an object at line 1 column 1");
    assert_eq!(all[2], " -> Success: 2 events");
}

#[test]
fn quiet_run_still_warns() {
    let files = vec!["a-1.json".to_string(), "b-2.json".to_string()];
    let decoded = || {
        vec![
            Ok(vec![good("1", EventType::PushEvent), bad("{", "EOF")]),
            Err("Permission denied (os error 13)".to_string()),
        ]
    };
    let quiet = execute_normal_run(&files, decoded(), &None, false, true);
    let loud = execute_normal_run(&files, decoded(), &None, false, false);
    assert!(texts(&quiet.messages, Stream::Progress).is_empty());
    assert_eq!(texts(&quiet.messages, Stream::Diagnostic), texts(&loud.messages, Stream::Diagnostic));
    assert_eq!(texts(&quiet.messages, Stream::Diagnostic).len(), 2);
    assert_eq!(ids(&quiet.events), ids(&loud.events));
}

#[test]
fn statistics_are_skipped_without_events() {
    let files = vec!["a.json".to_string()];
    let run = execute_normal_run(&files, vec![Ok(vec![bad("{", "EOF")])], &None, true, false);
    assert!(run.events.is_empty());
    assert_eq!(
        texts(&run.messages, Stream::Progress),
        vec!["File processing: \"a.json\"", " -> Success: 0 events"]
    );
}
