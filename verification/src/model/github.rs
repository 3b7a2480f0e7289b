//! GitHub activity events as they appear in an archive of the public
//! timeline: one event per line, each a JSON object.
//!
//! The pipeline reads the type of an event and nothing else of it; the rest
//! is carried from the input to the output unchanged.

use vstd::prelude::*;

verus! {

/// `serde_json::Value`: a JSON document of any shape. The pipeline never
/// looks inside one.
#[verifier::external_type_specification]
#[verifier::external_body]
pub struct ExJsonValue(serde_json::Value);

/// The account that triggered an event.
#[derive(Debug, Clone)]
pub struct Actor {
    pub id: u64,
    pub login: String,
    pub display_login: Option<String>,
    pub gravatar_id: String,
    pub url: String,
    pub avatar_url: String,
}

/// The repository an event happened in.
#[derive(Debug, Clone)]
pub struct Repo {
    pub id: u64,
    pub name: String,
    pub url: String,
}

/// The organisation that owns the repository, where there is one.
#[derive(Debug, Clone)]
pub struct Org {
    pub id: u64,
    pub login: String,
    pub gravatar_id: String,
    pub url: String,
    pub avatar_url: String,
}

/// The kinds of event the pipeline accepts. The set is closed: a line whose
/// type is none of these is not an event.
#[derive(Debug, Clone, Copy, PartialEq, Eq, Structural)]
pub enum EventType {
    PushEvent,
    PullRequestEvent,
    PullRequestReviewEvent,
    PullRequestReviewCommentEvent,
    CreateEvent,
    DeleteEvent,
    IssuesEvent,
    IssueCommentEvent,
    WatchEvent,
    ForkEvent,
    ReleaseEvent,
    GollumEvent,
    MemberEvent,
    PublicEvent,
    CommitCommentEvent,
    DiscussionEvent,
}

impl EventType {
    /// The name under which the type appears in an event's `type` field.
    pub open spec fn name(self) -> Seq<char> {
        match self {
            EventType::PushEvent => "PushEvent"@,
            EventType::PullRequestEvent => "PullRequestEvent"@,
            EventType::PullRequestReviewEvent => "PullRequestReviewEvent"@,
            EventType::PullRequestReviewCommentEvent => "PullRequestReviewCommentEvent"@,
            EventType::CreateEvent => "CreateEvent"@,
            EventType::DeleteEvent => "DeleteEvent"@,
            EventType::IssuesEvent => "IssuesEvent"@,
            EventType::IssueCommentEvent => "IssueCommentEvent"@,
            EventType::WatchEvent => "WatchEvent"@,
            EventType::ForkEvent => "ForkEvent"@,
            EventType::ReleaseEvent => "ReleaseEvent"@,
            EventType::GollumEvent => "GollumEvent"@,
            EventType::MemberEvent => "MemberEvent"@,
            EventType::PublicEvent => "PublicEvent"@,
            EventType::CommitCommentEvent => "CommitCommentEvent"@,
            EventType::DiscussionEvent => "DiscussionEvent"@,
        }
    }

    /// The position of the type in the declaration above, from 0.
    pub open spec fn ordinal(self) -> nat {
        match self {
            EventType::PushEvent => 0,
            EventType::PullRequestEvent => 1,
            EventType::PullRequestReviewEvent => 2,
            EventType::PullRequestReviewCommentEvent => 3,
            EventType::CreateEvent => 4,
            EventType::DeleteEvent => 5,
            EventType::IssuesEvent => 6,
            EventType::IssueCommentEvent => 7,
            EventType::WatchEvent => 8,
            EventType::ForkEvent => 9,
            EventType::ReleaseEvent => 10,
            EventType::GollumEvent => 11,
            EventType::MemberEvent => 12,
            EventType::PublicEvent => 13,
            EventType::CommitCommentEvent => 14,
            EventType::DiscussionEvent => 15,
        }
    }
}

/// Whether `s` is the name of one of the accepted event types.
pub open spec fn is_event_type_name(s: Seq<char>) -> bool {
    exists|t: EventType| t.name() == s
}

/// The length and the first character of each name; no two names agree in
/// both.
proof fn lemma_name_shape(t: EventType)
    ensures
        t.name().len() == match t {
            EventType::PushEvent => 9nat,
            EventType::PullRequestEvent => 16,
            EventType::PullRequestReviewEvent => 22,
            EventType::PullRequestReviewCommentEvent => 29,
            EventType::CreateEvent => 11,
            EventType::DeleteEvent => 11,
            EventType::IssuesEvent => 11,
            EventType::IssueCommentEvent => 17,
            EventType::WatchEvent => 10,
            EventType::ForkEvent => 9,
            EventType::ReleaseEvent => 12,
            EventType::GollumEvent => 11,
            EventType::MemberEvent => 11,
            EventType::PublicEvent => 11,
            EventType::CommitCommentEvent => 18,
            EventType::DiscussionEvent => 15,
        },
        t.name()[0] == match t {
            EventType::PushEvent | EventType::PullRequestEvent | EventType::PullRequestReviewEvent
            | EventType::PullRequestReviewCommentEvent | EventType::PublicEvent => 'P',
            EventType::CreateEvent | EventType::CommitCommentEvent => 'C',
            EventType::DeleteEvent | EventType::DiscussionEvent => 'D',
            EventType::IssuesEvent | EventType::IssueCommentEvent => 'I',
            EventType::WatchEvent => 'W',
            EventType::ForkEvent => 'F',
            EventType::ReleaseEvent => 'R',
            EventType::GollumEvent => 'G',
            EventType::MemberEvent => 'M',
        },
{
    reveal_strlit("PushEvent");
    reveal_strlit("PullRequestEvent");
    reveal_strlit("PullRequestReviewEvent");
    reveal_strlit("PullRequestReviewCommentEvent");
    reveal_strlit("CreateEvent");
    reveal_strlit("DeleteEvent");
    reveal_strlit("IssuesEvent");
    reveal_strlit("IssueCommentEvent");
    reveal_strlit("WatchEvent");
    reveal_strlit("ForkEvent");
    reveal_strlit("ReleaseEvent");
    reveal_strlit("GollumEvent");
    reveal_strlit("MemberEvent");
    reveal_strlit("PublicEvent");
    reveal_strlit("CommitCommentEvent");
    reveal_strlit("DiscussionEvent");
}

/// Two event types with the same name are the same type.
pub proof fn lemma_event_type_names_differ(a: EventType, b: EventType)
    requires
        a.name() == b.name(),
    ensures
        a == b,
{
    lemma_name_shape(a);
    lemma_name_shape(b);
}

#[derive(Debug, Clone)]
pub struct PullRequest {
    pub url: Option<String>,
    pub id: Option<u64>,
    pub number: Option<u32>,
    pub head: Option<serde_json::Value>,
    pub base: Option<serde_json::Value>,
}

#[derive(Debug, Clone)]
pub struct Issue {
    pub url: Option<String>,
    pub id: Option<u64>,
    pub number: Option<u32>,
    pub title: Option<String>,
    pub body: Option<String>,
    pub user: Option<serde_json::Value>,
    pub state: Option<String>,
    pub assignee: Option<serde_json::Value>,
    pub assignees: Option<Vec<serde_json::Value>>,
    pub labels: Option<Vec<serde_json::Value>>,
}

#[derive(Debug, Clone)]
pub struct Comment {
    pub url: Option<String>,
    pub id: Option<u64>,
    pub body: Option<String>,
    pub user: Option<serde_json::Value>,
    pub created_at: Option<String>,
    pub updated_at: Option<String>,
}

#[derive(Debug, Clone)]
pub struct Review {
    pub id: Option<u64>,
    pub user: Option<serde_json::Value>,
    pub body: Option<String>,
    pub state: Option<String>,
    pub submitted_at: Option<String>,
}

#[derive(Debug, Clone)]
pub struct Release {
    pub id: Option<u64>,
    pub tag_name: Option<String>,
    pub name: Option<String>,
    pub body: Option<String>,
    pub draft: Option<bool>,
    pub prerelease: Option<bool>,
    pub created_at: Option<String>,
}

#[derive(Debug, Clone)]
pub struct Forkee {
    pub id: Option<u64>,
    pub name: Option<String>,
    pub full_name: Option<String>,
    pub owner: Option<serde_json::Value>,
    pub description: Option<String>,
    pub url: Option<String>,
}

#[derive(Debug, Clone)]
pub struct Label {
    pub id: Option<u64>,
    pub name: Option<String>,
    pub color: Option<String>,
    pub default: Option<bool>,
}

/// What an event carries besides its envelope. Which parts are present
/// depends on the type of the event; every part is optional.
#[derive(Debug, Clone)]
pub struct GitHubPayload {
    pub action: Option<String>,
    pub ref_type: Option<String>,
    /// The `ref` member of the payload.
    pub git_ref: Option<String>,
    pub full_ref: Option<String>,
    pub pusher_type: Option<String>,
    pub master_branch: Option<String>,
    pub description: Option<String>,
    pub repository_id: Option<u64>,
    pub push_id: Option<u64>,
    pub head: Option<String>,
    pub before: Option<String>,
    pub number: Option<u32>,
    pub pull_request: Option<PullRequest>,
    pub issue: Option<Issue>,
    pub comment: Option<Comment>,
    pub review: Option<Review>,
    pub release: Option<Release>,
    pub forkee: Option<Forkee>,
    pub label: Option<Label>,
    pub assignee: Option<serde_json::Value>,
    pub assignees: Option<Vec<serde_json::Value>>,
    pub labels: Option<Vec<serde_json::Value>>,
    pub member: Option<serde_json::Value>,
    pub pages: Option<Vec<serde_json::Value>>,
    pub discussion: Option<serde_json::Value>,
}

/// One event of the timeline. A value of this type is never changed after
/// it has been decoded.
#[derive(Debug, Clone)]
pub struct GitHubEvent {
    pub id: String,
    pub event_type: EventType,
    pub actor: Actor,
    pub repo: Repo,
    pub payload: GitHubPayload,
    pub public: bool,
    /// ISO-8601 text, kept as it was read.
    pub created_at: String,
    pub org: Option<Org>,
}

} // verus!
