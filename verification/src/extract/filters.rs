//! Which events are kept, and how kept events are framed for the output.

use vstd::prelude::*;
use vstd::string::*;
use crate::model::github::{is_event_type_name, EventType, GitHubEvent};
use crate::text::{chars_of, str_eq};

verus! {

/// Whether `event_type_str` names one of the accepted event types. The match
/// is exact: case matters, and nothing may stand before or after the name.
pub fn is_valid_event_type(event_type_str: &str) -> (r: bool)
    ensures
        r == is_event_type_name(event_type_str@),
{
    let s = event_type_str;
    let r = str_eq(s, "PushEvent") || str_eq(s, "PullRequestEvent") || str_eq(
        s,
        "PullRequestReviewEvent",
    ) || str_eq(s, "PullRequestReviewCommentEvent") || str_eq(s, "CreateEvent") || str_eq(
        s,
        "DeleteEvent",
    ) || str_eq(s, "IssuesEvent") || str_eq(s, "IssueCommentEvent") || str_eq(s, "WatchEvent")
        || str_eq(s, "ForkEvent") || str_eq(s, "ReleaseEvent") || str_eq(s, "GollumEvent")
        || str_eq(s, "MemberEvent") || str_eq(s, "PublicEvent") || str_eq(
        s,
        "CommitCommentEvent",
    ) || str_eq(s, "DiscussionEvent");
    proof {
        if r {
            let t = if s@ == "PushEvent"@ {
                EventType::PushEvent
            } else if s@ == "PullRequestEvent"@ {
                EventType::PullRequestEvent
            } else if s@ == "PullRequestReviewEvent"@ {
                EventType::PullRequestReviewEvent
            } else if s@ == "PullRequestReviewCommentEvent"@ {
                EventType::PullRequestReviewCommentEvent
            } else if s@ == "CreateEvent"@ {
                EventType::CreateEvent
            } else if s@ == "DeleteEvent"@ {
                EventType::DeleteEvent
            } else if s@ == "IssuesEvent"@ {
                EventType::IssuesEvent
            } else if s@ == "IssueCommentEvent"@ {
                EventType::IssueCommentEvent
            } else if s@ == "WatchEvent"@ {
                EventType::WatchEvent
            } else if s@ == "ForkEvent"@ {
                EventType::ForkEvent
            } else if s@ == "ReleaseEvent"@ {
                EventType::ReleaseEvent
            } else if s@ == "GollumEvent"@ {
                EventType::GollumEvent
            } else if s@ == "MemberEvent"@ {
                EventType::MemberEvent
            } else if s@ == "PublicEvent"@ {
                EventType::PublicEvent
            } else if s@ == "CommitCommentEvent"@ {
                EventType::CommitCommentEvent
            } else {
                EventType::DiscussionEvent
            };
            assert(t.name() == s@);
        }
    }
    r
}

/// The name of an event type, as it is written in an event's `type` field.
pub fn event_type_to_str(event_type: &EventType) -> (r: &'static str)
    ensures
        r@ == event_type.name(),
{
    match event_type {
        EventType::PushEvent => "PushEvent",
        EventType::PullRequestEvent => "PullRequestEvent",
        EventType::PullRequestReviewEvent => "PullRequestReviewEvent",
        EventType::PullRequestReviewCommentEvent => "PullRequestReviewCommentEvent",
        EventType::CreateEvent => "CreateEvent",
        EventType::DeleteEvent => "DeleteEvent",
        EventType::IssuesEvent => "IssuesEvent",
        EventType::IssueCommentEvent => "IssueCommentEvent",
        EventType::WatchEvent => "WatchEvent",
        EventType::ForkEvent => "ForkEvent",
        EventType::ReleaseEvent => "ReleaseEvent",
        EventType::GollumEvent => "GollumEvent",
        EventType::MemberEvent => "MemberEvent",
        EventType::PublicEvent => "PublicEvent",
        EventType::CommitCommentEvent => "CommitCommentEvent",
        EventType::DiscussionEvent => "DiscussionEvent",
    }
}

/// The code of `c`, with the upper-case letters `A` to `Z` taken to their
/// lower-case forms. No other character is changed.
pub open spec fn ascii_folded(c: char) -> u32 {
    if 'A' <= c <= 'Z' {
        (c as u32 + 32) as u32
    } else {
        c as u32
    }
}

/// Whether two texts are equal when the case of ASCII letters is ignored.
pub open spec fn eq_ignoring_ascii_case(a: Seq<char>, b: Seq<char>) -> bool {
    &&& a.len() == b.len()
    &&& forall|i: int| 0 <= i < a.len() ==> ascii_folded(a[i]) == ascii_folded(b[i])
}

fn fold_ascii(c: char) -> (r: u32)
    ensures
        r == ascii_folded(c),
{
    if 'A' <= c && c <= 'Z' {
        c as u32 + 32
    } else {
        c as u32
    }
}

/// Whether the login of an actor is the one asked for. ASCII letters match
/// whatever their case; every other character must match exactly.
pub fn matches_actor_filter(actor_login: &str, filter: &str) -> (r: bool)
    ensures
        r == eq_ignoring_ascii_case(actor_login@, filter@),
{
    let a = chars_of(actor_login);
    let b = chars_of(filter);
    if a.len() != b.len() {
        return false;
    }
    let n = a.len();
    let mut i: usize = 0;
    while i < n
        invariant
            i <= n,
            n == a@.len(),
            n == b@.len(),
            a@ == actor_login@,
            b@ == filter@,
            forall|j: int| 0 <= j < i ==> ascii_folded(a@[j]) == ascii_folded(b@[j]),
        decreases n - i,
    {
        if fold_ascii(a[i]) != fold_ascii(b[i]) {
            return false;
        }
        i += 1;
    }
    true
}

/// Whether an event passes the type filter: every event does where there is
/// none, and otherwise only those whose type has exactly the name given.
pub open spec fn included(event: GitHubEvent, filter: Option<String>) -> bool {
    match filter {
        None => true,
        Some(name) => event.event_type.name() == name@,
    }
}

/// Whether `event` passes the type filter.
pub fn should_include(event: &GitHubEvent, filter: &Option<String>) -> (r: bool)
    ensures
        r == included(*event, *filter),
{
    match filter {
        None => true,
        Some(filter_str) => str_eq(event_type_to_str(&event.event_type), filter_str.as_str()),
    }
}

/// What is to be written for a list of kept events.
#[derive(Debug)]
pub struct SinkBatch {
    /// One line for each event that could be serialised, in the order of the
    /// events; each ends in a line feed.
    pub lines: Vec<String>,
    /// One reason for each event that could not, in the order of the events.
    pub failures: Vec<String>,
}

/// The lines of the output: each serialised event with a line feed behind it,
/// in order. An event that could not be serialised has no line.
pub open spec fn framed(serialized: Seq<Result<String, String>>) -> Seq<Seq<char>>
    decreases serialized.len(),
{
    if serialized.len() == 0 {
        Seq::empty()
    } else if serialized.last() is Ok {
        framed(serialized.drop_last()).push(serialized.last()->Ok_0@.push('\n'))
    } else {
        framed(serialized.drop_last())
    }
}

/// Why an event is missing from the output.
pub open spec fn serialize_failure(reason: Seq<char>) -> Seq<char> {
    "Failed to serialize event: "@ + reason
}

/// The failures among a list of serialised events, in order.
pub open spec fn serialize_failures(serialized: Seq<Result<String, String>>) -> Seq<Seq<char>>
    decreases serialized.len(),
{
    if serialized.len() == 0 {
        Seq::empty()
    } else if serialized.last() is Err {
        serialize_failures(serialized.drop_last()).push(
            serialize_failure(serialized.last()->Err_0@),
        )
    } else {
        serialize_failures(serialized.drop_last())
    }
}

/// Frames the kept events for the output. `serialized` holds, for each event
/// in order, its JSON text or the reason why it has none. An event without
/// text is reported and left out; the events behind it are still written.
pub fn save_events(serialized: Vec<Result<String, String>>) -> (r: SinkBatch)
    ensures
        r.lines.deep_view() == framed(serialized@),
        r.failures.deep_view() == serialize_failures(serialized@),
{
    let ghost all = serialized@;
    let mut lines: Vec<String> = Vec::new();
    let mut failures: Vec<String> = Vec::new();
    assert(lines.deep_view() =~= framed(all.take(0)));
    assert(failures.deep_view() =~= serialize_failures(all.take(0)));
    for item in it: serialized
        invariant
            it.seq() == all,
            lines.deep_view() == framed(all.take(it.index())),
            failures.deep_view() == serialize_failures(all.take(it.index())),
    {
        proof {
            assert(all.take(it.index() + 1).drop_last() =~= all.take(it.index()));
            assert(all.take(it.index() + 1).last() == item);
        }
        match item {
            Ok(text) => {
                let mut line = text;
                line.push('\n');
                let ghost before = lines.deep_view();
                lines.push(line);
                assert(lines.deep_view() =~= before.push(line@));
            },
            Err(reason) => {
                let mut failure = String::from_str("Failed to serialize event: ");
                failure.append(reason.as_str());
                let ghost before = failures.deep_view();
                failures.push(failure);
                assert(failures.deep_view() =~= before.push(failure@));
            },
        }
    }
    assert(all.take(all.len() as int) =~= all);
    SinkBatch { lines, failures }
}

} // verus!
