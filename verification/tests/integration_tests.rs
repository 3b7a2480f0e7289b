#![allow(dead_code)]

use etl_rust::extract::filters::event_type_to_str;
use etl_rust::extract::json_lines::{receive_all, DecodedLine, FolderEntry, Message, Stream};
use etl_rust::extract::pipeline::{Reply, Request, Turn};
use etl_rust::model::github::{Actor, EventType, GitHubEvent, GitHubPayload, Repo};
use etl_rust::text::split_lines;
use etl_rust::{run, Config};
use serde_json::Value;

/// A folder and what lies in it, held in memory: the tests drive a run
/// against it as a program would against a disk.
struct Disk {
    root: String,
    files: Vec<(String, String)>,
    said: Vec<String>,
    warned: Vec<String>,
}

impl Disk {
    fn new() -> Disk {
        Disk { root: "/data".to_string(), files: Vec::new(), said: Vec::new(), warned: Vec::new() }
    }

    fn root(&self) -> String {
        self.root.clone()
    }

    fn join(&self, name: &str) -> String {
        format!("{}/{}", self.root, name)
    }

    fn put(&mut self, name: &str, content: impl AsRef<str>) {
        let path = self.join(name);
        self.write(&path, content);
    }

    fn write(&mut self, path: &str, content: impl AsRef<str>) {
        let content = content.as_ref().to_string();
        match self.files.iter_mut().find(|(p, _)| p == path) {
            Some(file) => file.1 = content,
            None => self.files.push((path.to_string(), content)),
        }
    }

    fn holds(&self, path: &str) -> bool {
        self.files.iter().any(|(p, _)| p == path)
    }

    fn read(&self, path: &str) -> String {
        self.try_read(path).unwrap()
    }

    fn try_read(&self, path: &str) -> Result<String, String> {
        match self.files.iter().find(|(p, _)| p == path) {
            Some((_, content)) => Ok(content.clone()),
            None => Err("No such file or directory (os error 2)".to_string()),
        }
    }

    fn writable(&self, path: &str) -> bool {
        match path.rfind('/') {
            Some(at) => path[..at] == self.root,
            None => false,
        }
    }

    fn list(&self, path: &str) -> Result<Vec<Result<FolderEntry, String>>, String> {
        if path != self.root {
            return Err("No such file or directory (os error 2)".to_string());
        }
        let prefix = format!("{}/", self.root);
        Ok(self
            .files
            .iter()
            .map(|(p, _)| Ok(FolderEntry { file_name: p[prefix.len()..].to_string(), is_file: true }))
            .collect())
    }
}

fn text_of(value: &Value, key: &str) -> Result<String, String> {
    match value.get(key) {
        Some(Value::String(text)) => Ok(text.clone()),
        Some(_) => Err(format!("invalid type for `{}`", key)),
        None => Err(format!("missing field `{}`", key)),
    }
}

fn number_of(value: &Value, key: &str) -> Result<u64, String> {
    match value.get(key) {
        Some(number) => number.as_u64().ok_or(format!("invalid type for `{}`", key)),
        None => Err(format!("missing field `{}`", key)),
    }
}

fn part_of<'a>(value: &'a Value, key: &str) -> Result<&'a Value, String> {
    match value.get(key) {
        Some(part) if part.is_object() => Ok(part),
        Some(_) => Err(format!("invalid type for `{}`", key)),
        None => Err(format!("missing field `{}`", key)),
    }
}

fn event_type_of(name: &str) -> Result<EventType, String> {
    let all = [
        EventType::PushEvent,
        EventType::PullRequestEvent,
        EventType::PullRequestReviewEvent,
        EventType::PullRequestReviewCommentEvent,
        EventType::CreateEvent,
        EventType::DeleteEvent,
        EventType::IssuesEvent,
        EventType::IssueCommentEvent,
        EventType::WatchEvent,
        EventType::ForkEvent,
        EventType::ReleaseEvent,
        EventType::GollumEvent,
        EventType::MemberEvent,
        EventType::PublicEvent,
        EventType::CommitCommentEvent,
        EventType::DiscussionEvent,
    ];
    all.iter()
        .copied()
        .find(|t| event_type_to_str(t) == name)
        .ok_or(format!("unknown variant `{}`", name))
}

fn empty_payload() -> GitHubPayload {
    GitHubPayload {
        action: None,
        ref_type: None,
        git_ref: None,
        full_ref: None,
        pusher_type: None,
        master_branch: None,
        description: None,
        repository_id: None,
        push_id: None,
        head: None,
        before: None,
        number: None,
        pull_request: None,
        issue: None,
        comment: None,
        review: None,
        release: None,
        forkee: None,
        label: None,
        assignee: None,
        assignees: None,
        labels: None,
        member: None,
        pages: None,
        discussion: None,
    }
}

/// Decodes one line as the driver of a run would: the line has to be a JSON
/// object with the members that an event must have.
fn decode(line: &str) -> Result<GitHubEvent, String> {
    let value: Value = serde_json::from_str(line).map_err(|e| e.to_string())?;
    let id = text_of(&value, "id")?;
    let event_type = event_type_of(&text_of(&value, "type")?)?;
    let actor = part_of(&value, "actor")?;
    let actor = Actor {
        id: number_of(actor, "id")?,
        login: text_of(actor, "login")?,
        display_login: text_of(actor, "display_login").ok(),
        gravatar_id: text_of(actor, "gravatar_id")?,
        url: text_of(actor, "url")?,
        avatar_url: text_of(actor, "avatar_url")?,
    };
    let repo = part_of(&value, "repo")?;
    let repo = Repo {
        id: number_of(repo, "id")?,
        name: text_of(repo, "name")?,
        url: text_of(repo, "url")?,
    };
    let payload = part_of(&value, "payload")?;
    let mut decoded_payload = empty_payload();
    decoded_payload.action = text_of(payload, "action").ok();
    let public = match value.get("public") {
        Some(Value::Bool(public)) => *public,
        Some(_) => return Err("invalid type for `public`".to_string()),
        None => return Err("missing field `public`".to_string()),
    };
    let created_at = text_of(&value, "created_at")?;
    Ok(GitHubEvent {
        id,
        event_type,
        actor,
        repo,
        payload: decoded_payload,
        public,
        created_at,
        org: None,
    })
}

/// Serialises an event as the driver of a run would.
fn encode(event: &GitHubEvent) -> Result<String, String> {
    let mut actor = serde_json::Map::new();
    actor.insert("id".to_string(), Value::from(event.actor.id));
    actor.insert("login".to_string(), Value::from(event.actor.login.clone()));
    let mut repo = serde_json::Map::new();
    repo.insert("id".to_string(), Value::from(event.repo.id));
    repo.insert("name".to_string(), Value::from(event.repo.name.clone()));
    let mut object = serde_json::Map::new();
    object.insert("id".to_string(), Value::from(event.id.clone()));
    object.insert("type".to_string(), Value::from(event_type_to_str(&event.event_type)));
    object.insert("actor".to_string(), Value::Object(actor));
    object.insert("repo".to_string(), Value::Object(repo));
    object.insert("public".to_string(), Value::from(event.public));
    object.insert("created_at".to_string(), Value::from(event.created_at.clone()));
    serde_json::to_string(&Value::Object(object)).map_err(|e| e.to_string())
}

fn decode_file(disk: &Disk, path: &str) -> Result<Vec<DecodedLine>, String> {
    let content = disk.try_read(path)?;
    Ok(split_lines(&content)
        .into_iter()
        .map(|text| {
            let decoded = decode(&text);
            DecodedLine { text, decoded }
        })
        .collect())
}

/// Carries out what a turn asks for against the disk, and says how it went.
fn answer(request: Request, disk: &mut Disk) -> Result<Reply, Result<(), String>> {
    let elapsed = "0.00ns".to_string();
    Ok(match request {
        Request::ListFolder { path } => Reply::FolderListed { listing: disk.list(&path) },
        Request::ResetOutput { path } => {
            if disk.writable(&path) {
                disk.write(&path, "");
                Reply::OutputReset { result: Ok(()) }
            } else {
                Reply::OutputReset {
                    result: Err("No such file or directory (os error 2)".to_string()),
                }
            }
        }
        Request::ReadFiles { files } => Reply::FilesRead {
            contents: files.iter().map(|name| disk.try_read(&disk.join(name))).collect(),
            elapsed,
        },
        Request::DecodeFiles { files } => Reply::FilesDecoded {
            files: files.iter().map(|name| decode_file(disk, &disk.join(name))).collect(),
            elapsed,
        },
        Request::SerializeEvents { events } => {
            Reply::EventsSerialized { lines: events.iter().map(encode).collect() }
        }
        Request::AppendOutput { path, lines } => {
            let result = match disk.try_read(&path) {
                Ok(before) => {
                    disk.write(&path, format!("{}{}", before, lines.concat()));
                    Ok(Vec::new())
                }
                Err(reason) => Err(reason),
            };
            Reply::OutputAppended { result, elapsed }
        }
        Request::Finish { result } => return Err(result),
    })
}

/// Runs the turns of a run to its end.
fn drive(first: Turn, disk: &mut Disk) -> Result<(), String> {
    let mut turn = first;
    loop {
        let Turn { pipeline, messages, request } = turn;
        for Message { stream, text } in messages {
            match stream {
                Stream::Progress => disk.said.push(text),
                Stream::Diagnostic => disk.warned.push(text),
            }
        }
        match answer(request, disk) {
            Ok(reply) => turn = pipeline.step(reply),
            Err(result) => return result,
        }
    }
}

/// The events of one file of the disk.
fn receive(disk: &Disk, path: &str, filter: Option<String>) -> Result<Vec<GitHubEvent>, String> {
    receive_all(decode_file(disk, path), filter).map(|batch| batch.events)
}

#[test]
fn run_with_invalid_path() {
    let mut disk = Disk::new();
    let config = Config {
        path_to_data: "/non/existent/path".into(),
        dry_run: false,
        event_type_filter: None,
        output_file: None,
        show_stats: false,
        quiet_mode: false,
    };
    let err = drive(run(config), &mut disk).unwrap_err();
    assert!(err.contains("Unable to read folder"));
}

#[test]
fn run_with_empty_folder() {
    let mut disk = Disk::new();
    let config = Config {
        path_to_data: disk.root(),
        dry_run: false,
        event_type_filter: None,
        output_file: None,
        show_stats: false,
        quiet_mode: false,
    };
    assert!(drive(run(config), &mut disk).is_ok());
}

#[test]
fn run_with_single_json_file() {
    let mut disk = Disk::new();
    disk.put("1.json", r#"{"type":"PushEvent","actor":{"login":"user"},"repo":{"name":"repo"},"created_at":"2024-01-01T00:00:00Z"}"#);

    let config = Config {
        path_to_data: disk.root(),
        dry_run: false,
        event_type_filter: None,
        output_file: None,
        show_stats: false,
        quiet_mode: false,
    };
    assert!(drive(run(config), &mut disk).is_ok());
}

#[test]
fn run_with_multiple_json_files() {
    let mut disk = Disk::new();
    let event = r#"{"type":"PushEvent","actor":{"login":"user"},"repo":{"name":"repo"},"created_at":"2024-01-01T00:00:00Z"}"#;

    for i in 1..=4 {
        disk.put(&format!("file-{}.json", i), event);
    }

    let config = Config {
        path_to_data: disk.root(),
        dry_run: false,
        event_type_filter: None,
        output_file: None,
        show_stats: false,
        quiet_mode: false,
    };
    assert!(drive(run(config), &mut disk).is_ok());
}

#[test]
fn run_with_multiple_events_per_file() {
    let mut disk = Disk::new();
    let events = r#"{"type":"PushEvent","actor":{"login":"user"},"repo":{"name":"repo"},"created_at":"2024-01-01T00:00:00Z"}
{"type":"PullRequestEvent","actor":{"login":"user2"},"repo":{"name":"repo2"},"created_at":"2024-01-02T00:00:00Z"}
{"type":"IssuesEvent","actor":{"login":"user3"},"repo":{"name":"repo3"},"created_at":"2024-01-03T00:00:00Z"}"#;

    disk.put("events.json", events);

    let config = Config {
        path_to_data: disk.root(),
        dry_run: false,
        event_type_filter: None,
        output_file: None,
        show_stats: false,
        quiet_mode: false,
    };
    assert!(drive(run(config), &mut disk).is_ok());
}

#[test]
fn run_with_invalid_json() {
    let mut disk = Disk::new();
    disk.put("bad.json", r#"{"type": }"#);

    let config = Config {
        path_to_data: disk.root(),
        dry_run: false,
        event_type_filter: None,
        output_file: None,
        show_stats: false,
        quiet_mode: false,
    };
    assert!(drive(run(config), &mut disk).is_ok());
}

#[test]
fn run_with_mixed_valid_invalid_json() {
    let mut disk = Disk::new();
    let valid_event = r#"{"type":"PushEvent","actor":{"login":"user"},"repo":{"name":"repo"},"created_at":"2024-01-01T00:00:00Z"}"#;
    let invalid_json = r#"{"incomplete": "#;

    let content = format!("{}\n{}\n{}", valid_event, invalid_json, valid_event);
    disk.put("mixed.json", content);

    let config = Config {
        path_to_data: disk.root(),
        dry_run: false,
        event_type_filter: None,
        output_file: None,
        show_stats: false,
        quiet_mode: false,
    };
    assert!(drive(run(config), &mut disk).is_ok());
}

#[test]
fn run_dry_run_mode() {
    let mut disk = Disk::new();
    let event = r#"{"type":"PushEvent","actor":{"login":"user"},"repo":{"name":"repo"},"created_at":"2024-01-01T00:00:00Z"}"#;

    for i in 1..=2 {
        disk.put(&format!("dry-{}.json", i), event);
    }

    let config = Config {
        path_to_data: disk.root(),
        dry_run: true,
        event_type_filter: None,
        output_file: None,
        show_stats: false,
        quiet_mode: false,
    };
    assert!(drive(run(config), &mut disk).is_ok());
}

#[test]
fn dry_run_does_not_create_output_file() {
    let mut disk = Disk::new();
    let event = r#"{"type":"PushEvent","actor":{"login":"user"},"repo":{"name":"repo"},"created_at":"2024-01-01T00:00:00Z"}"#;
    disk.put("1.json", event);

    let output_file = disk.join("output.json");
    let config = Config {
        path_to_data: disk.root(),
        dry_run: true,
        event_type_filter: None,
        output_file: Some(output_file.clone()),
        show_stats: false,
        quiet_mode: false,
    };

    drive(run(config), &mut disk).unwrap();

    assert!(disk.holds(&output_file));
}

#[test]
fn run_with_valid_event_type_filter() {
    let mut disk = Disk::new();
    let event = r#"{"type":"PushEvent","actor":{"login":"user"},"repo":{"name":"repo"},"created_at":"2024-01-01T00:00:00Z"}"#;
    disk.put("1.json", event);

    let config = Config {
        path_to_data: disk.root(),
        dry_run: false,
        event_type_filter: Some("PushEvent".to_string()),
        output_file: None,
        show_stats: false,
        quiet_mode: false,
    };
    assert!(drive(run(config), &mut disk).is_ok());
}

#[test]
fn run_with_invalid_event_type_filter() {
    let mut disk = Disk::new();
    let event = r#"{"type":"PushEvent","actor":{"login":"user"},"repo":{"name":"repo"},"created_at":"2024-01-01T00:00:00Z"}"#;
    disk.put("1.json", event);

    let config = Config {
        path_to_data: disk.root(),
        dry_run: false,
        event_type_filter: Some("InvalidEventType".to_string()),
        output_file: None,
        show_stats: false,
        quiet_mode: false,
    };
    let err = drive(run(config), &mut disk).unwrap_err();
    assert!(err.contains("Invalid event type"));
}

#[test]
fn run_with_multiple_event_types_filters() {
    let mut disk = Disk::new();
    let events = vec![
        r#"{"type":"PushEvent","actor":{"login":"user"},"repo":{"name":"repo"},"created_at":"2024-01-01T00:00:00Z"}"#,
        r#"{"type":"PullRequestEvent","actor":{"login":"user2"},"repo":{"name":"repo2"},"created_at":"2024-01-02T00:00:00Z"}"#,
        r#"{"type":"IssuesEvent","actor":{"login":"user3"},"repo":{"name":"repo3"},"created_at":"2024-01-03T00:00:00Z"}"#,
    ];

    let content = events.join("\n");
    disk.put("events.json", content);

    let config = Config {
        path_to_data: disk.root(),
        dry_run: false,
        event_type_filter: Some("PushEvent".to_string()),
        output_file: None,
        show_stats: false,
        quiet_mode: false,
    };
    assert!(drive(run(config), &mut disk).is_ok());
}

#[test]
fn run_with_output_file() {
    let mut disk = Disk::new();
    let event = r#"{"type":"PushEvent","actor":{"login":"user"},"repo":{"name":"repo"},"created_at":"2024-01-01T00:00:00Z"}"#;
    disk.put("1.json", event);

    let output_file = disk.join("output.json");
    let config = Config {
        path_to_data: disk.root(),
        dry_run: false,
        event_type_filter: None,
        output_file: Some(output_file.clone()),
        show_stats: false,
        quiet_mode: false,
    };

    assert!(drive(run(config), &mut disk).is_ok());
    assert!(disk.holds(&output_file));
}

#[test]
fn run_with_output_file_invalid_path() {
    let mut disk = Disk::new();
    let event = r#"{"type":"PushEvent","actor":{"login":"user"},"repo":{"name":"repo"},"created_at":"2024-01-01T00:00:00Z"}"#;
    disk.put("1.json", event);

    let output_file = "/invalid/path/output.json";
    let config = Config {
        path_to_data: disk.root(),
        dry_run: false,
        event_type_filter: None,
        output_file: Some(output_file.to_string()),
        show_stats: false,
        quiet_mode: false,
    };

    let result = drive(run(config), &mut disk);
    assert!(result.is_err());
}

#[test]
fn run_with_show_stats() {
    let mut disk = Disk::new();
    let events = vec![
        r#"{"type":"PushEvent","actor":{"login":"user"},"repo":{"name":"repo"},"created_at":"2024-01-01T00:00:00Z"}"#,
        r#"{"type":"PushEvent","actor":{"login":"user2"},"repo":{"name":"repo2"},"created_at":"2024-01-02T00:00:00Z"}"#,
    ];

    let content = events.join("\n");
    disk.put("events.json", content);

    let config = Config {
        path_to_data: disk.root(),
        dry_run: false,
        event_type_filter: None,
        output_file: None,
        show_stats: true,
        quiet_mode: false,
    };
    assert!(drive(run(config), &mut disk).is_ok());
}

#[test]
fn run_with_show_stats_empty_events() {
    let mut disk = Disk::new();
    disk.put("bad.json", r#"{"invalid": "event"}"#);

    let config = Config {
        path_to_data: disk.root(),
        dry_run: false,
        event_type_filter: None,
        output_file: None,
        show_stats: true,
        quiet_mode: false,
    };
    assert!(drive(run(config), &mut disk).is_ok());
}

#[test]
fn run_with_quiet_mode() {
    let mut disk = Disk::new();
    let event = r#"{"type":"PushEvent","actor":{"login":"user"},"repo":{"name":"repo"},"created_at":"2024-01-01T00:00:00Z"}"#;
    disk.put("1.json", event);

    let config = Config {
        path_to_data: disk.root(),
        dry_run: false,
        event_type_filter: None,
        output_file: None,
        show_stats: false,
        quiet_mode: true,
    };
    assert!(drive(run(config), &mut disk).is_ok());
}

#[test]
fn run_dry_run_with_quiet_mode() {
    let mut disk = Disk::new();
    let event = r#"{"type":"PushEvent","actor":{"login":"user"},"repo":{"name":"repo"},"created_at":"2024-01-01T00:00:00Z"}"#;
    disk.put("1.json", event);

    let config = Config {
        path_to_data: disk.root(),
        dry_run: true,
        event_type_filter: None,
        output_file: None,
        show_stats: false,
        quiet_mode: true,
    };
    assert!(drive(run(config), &mut disk).is_ok());
}

#[test]
fn run_with_all_options_combined() {
    let mut disk = Disk::new();
    let events = vec![
        r#"{"type":"PushEvent","actor":{"login":"user"},"repo":{"name":"repo"},"created_at":"2024-01-01T00:00:00Z"}"#,
        r#"{"type":"PullRequestEvent","actor":{"login":"user2"},"repo":{"name":"repo2"},"created_at":"2024-01-02T00:00:00Z"}"#,
    ];

    let content = events.join("\n");
    disk.put("events.json", content);

    let output_file = disk.join("output.json");
    let config = Config {
        path_to_data: disk.root(),
        dry_run: false,
        event_type_filter: Some("PushEvent".to_string()),
        output_file: Some(output_file.clone()),
        show_stats: true,
        quiet_mode: false,
    };

    assert!(drive(run(config), &mut disk).is_ok());
    assert!(disk.holds(&output_file));
}

#[test]
fn run_with_empty_lines_in_json_file() {
    let mut disk = Disk::new();
    let content = r#"{"type":"PushEvent","actor":{"login":"user"},"repo":{"name":"repo"},"created_at":"2024-01-01T00:00:00Z"}

{"type":"PullRequestEvent","actor":{"login":"user2"},"repo":{"name":"repo2"},"created_at":"2024-01-02T00:00:00Z"}

"#;
    disk.put("events.json", content);

    let config = Config {
        path_to_data: disk.root(),
        dry_run: false,
        event_type_filter: None,
        output_file: None,
        show_stats: false,
        quiet_mode: false,
    };
    assert!(drive(run(config), &mut disk).is_ok());
}

#[test]
fn run_with_many_files() {
    let mut disk = Disk::new();
    let event = r#"{"type":"PushEvent","actor":{"login":"user"},"repo":{"name":"repo"},"created_at":"2024-01-01T00:00:00Z"}"#;

    for i in 1..=10 {
        disk.put(&format!("file-{:02}.json", i), event);
    }

    let config = Config {
        path_to_data: disk.root(),
        dry_run: false,
        event_type_filter: None,
        output_file: None,
        show_stats: false,
        quiet_mode: false,
    };
    assert!(drive(run(config), &mut disk).is_ok());
}

#[test]
fn run_with_non_json_files_in_folder() {
    let mut disk = Disk::new();
    disk.put("readme.txt", "This is not JSON");
    disk.put("data.csv", "col1,col2\n1,2");
    let event = r#"{"type":"PushEvent","actor":{"login":"user"},"repo":{"name":"repo"},"created_at":"2024-01-01T00:00:00Z"}"#;
    disk.put("1.json", event);

    let config = Config {
        path_to_data: disk.root(),
        dry_run: false,
        event_type_filter: None,
        output_file: None,
        show_stats: false,
        quiet_mode: false,
    };
    assert!(drive(run(config), &mut disk).is_ok());
}

#[test]
fn run_with_very_large_event() {
    let mut disk = Disk::new();
    let large_payload = "x".repeat(10000);
    let event = format!(
        r#"{{"type":"PushEvent","actor":{{"login":"user"}},"repo":{{"name":"repo"}},"created_at":"2024-01-01T00:00:00Z","payload":"{}"}}"#,
        large_payload
    );
    disk.put("large.json", event);

    let config = Config {
        path_to_data: disk.root(),
        dry_run: false,
        event_type_filter: None,
        output_file: None,
        show_stats: false,
        quiet_mode: false,
    };
    assert!(drive(run(config), &mut disk).is_ok());
}
