//! A run as a sequence of turns. The pipeline reads no file and writes none:
//! at each turn it says what is to be done next, is told how that went, and
//! decides from there. Whoever drives it does the work and prints the
//! messages.

use vstd::prelude::*;
use vstd::string::*;
use crate::extract::filters::{framed, is_valid_event_type, save_events, serialize_failures};
use crate::extract::json_lines::{
    diagnostics, dry_run_output, execute_dry_run, execute_normal_run, first_failure, gathered,
    lemma_diagnostics_of_both, lemma_diagnostics_on_stream, lemma_progress_diagnostics,
    locate_files, located, normal_summary, on_stream, print_summary_normal_run, progress,
    push_lines, statistics, DecodedLine, FolderEntry, Message, NormalRun, Stream,
};
use crate::model::github::{is_event_type_name, GitHubEvent};
use crate::Config;

verus! {

/// What the driver is to do next.
#[derive(Debug)]
pub enum Request {
    /// List the entries of the input folder.
    ListFolder { path: String },
    /// Create the output file, or empty it if it exists.
    ResetOutput { path: String },
    /// Read the text of each file, in order.
    ReadFiles { files: Vec<String> },
    /// Read each file and decode each of its lines, in order. The files do
    /// not depend on each other and may be taken in parallel.
    DecodeFiles { files: Vec<String> },
    /// Serialise each event to one line of JSON, in order.
    SerializeEvents { events: Vec<GitHubEvent> },
    /// Append the lines to the output file, in order.
    AppendOutput { path: String, lines: Vec<String> },
    /// Nothing: the run is over, with this result.
    Finish { result: Result<(), String> },
}

/// How what was asked for went.
#[derive(Debug)]
pub enum Reply {
    /// The entries of the folder, each with its name or the reason why it
    /// could not be read; or the reason why the folder could not be listed.
    FolderListed { listing: Result<Vec<Result<FolderEntry, String>>, String> },
    /// Whether the output file was created or emptied.
    OutputReset { result: Result<(), String> },
    /// For each file the text read from it, or the reason why it could not be
    /// read; and the time taken since the run began.
    FilesRead { contents: Vec<Result<String, String>>, elapsed: String },
    /// For each file its lines with what decoding each gave, or the reason
    /// why the file could not be read; and the time taken since the run
    /// began.
    FilesDecoded { files: Vec<Result<Vec<DecodedLine>, String>>, elapsed: String },
    /// For each event its line of JSON, or the reason why it has none.
    EventsSerialized { lines: Vec<Result<String, String>> },
    /// The reason for each line that could not be written, or the reason why
    /// the output file could not be opened; and the time taken since the run
    /// began.
    OutputAppended { result: Result<Vec<String>, String>, elapsed: String },
}

/// Where a run stands: what it is waiting for.
#[derive(Debug)]
pub enum Stage {
    /// For the listing of the input folder.
    Listing,
    /// For the output file to be reset; `files` are the input files in order.
    Resetting { files: Vec<String> },
    /// For the texts of the files of a dry run.
    Counting { files: Vec<String> },
    /// For the decoded lines of the files.
    Decoding { files: Vec<String> },
    /// For the kept events to be serialised.
    Serializing { total_files: usize, total_events: usize },
    /// For the lines to be appended to the output file.
    Appending { total_files: usize, total_events: usize },
    /// For nothing: the run is over.
    Done,
}

/// A run in progress.
#[derive(Debug)]
pub struct Pipeline {
    pub config: Config,
    pub stage: Stage,
    /// Whether this run has created or emptied its output file.
    pub output_reset: bool,
}

/// One turn of a run: the messages to print, the request to carry out, and
/// the pipeline to hand the reply to.
#[derive(Debug)]
pub struct Turn {
    pub pipeline: Pipeline,
    pub messages: Vec<Message>,
    pub request: Request,
}

/// A request by the texts it holds.
pub enum RequestView {
    ListFolder { path: Seq<char> },
    ResetOutput { path: Seq<char> },
    ReadFiles { files: Seq<Seq<char>> },
    DecodeFiles { files: Seq<Seq<char>> },
    SerializeEvents { events: Seq<GitHubEvent> },
    AppendOutput { path: Seq<char>, lines: Seq<Seq<char>> },
    Finish { result: Result<(), Seq<char>> },
}

/// A stage by the texts it holds.
pub enum StageView {
    Listing,
    Resetting { files: Seq<Seq<char>> },
    Counting { files: Seq<Seq<char>> },
    Decoding { files: Seq<Seq<char>> },
    Serializing { total_files: nat, total_events: nat },
    Appending { total_files: nat, total_events: nat },
    Done,
}

/// A turn by the texts it holds, without the configuration, which no turn
/// changes.
pub struct TurnView {
    pub stage: StageView,
    pub output_reset: bool,
    pub messages: Seq<(Stream, Seq<char>)>,
    pub request: RequestView,
}

impl DeepView for Request {
    type V = RequestView;

    open spec fn deep_view(&self) -> RequestView {
        match *self {
            Request::ListFolder { path } => RequestView::ListFolder { path: path@ },
            Request::ResetOutput { path } => RequestView::ResetOutput { path: path@ },
            Request::ReadFiles { files } => RequestView::ReadFiles { files: files.deep_view() },
            Request::DecodeFiles { files } => RequestView::DecodeFiles {
                files: files.deep_view(),
            },
            Request::SerializeEvents { events } => RequestView::SerializeEvents {
                events: events@,
            },
            Request::AppendOutput { path, lines } => RequestView::AppendOutput {
                path: path@,
                lines: lines.deep_view(),
            },
            Request::Finish { result } => RequestView::Finish {
                result: match result {
                    Ok(_) => Ok(()),
                    Err(reason) => Err(reason@),
                },
            },
        }
    }
}

impl DeepView for Stage {
    type V = StageView;

    open spec fn deep_view(&self) -> StageView {
        match *self {
            Stage::Listing => StageView::Listing,
            Stage::Resetting { files } => StageView::Resetting { files: files.deep_view() },
            Stage::Counting { files } => StageView::Counting { files: files.deep_view() },
            Stage::Decoding { files } => StageView::Decoding { files: files.deep_view() },
            Stage::Serializing { total_files, total_events } => StageView::Serializing {
                total_files: total_files as nat,
                total_events: total_events as nat,
            },
            Stage::Appending { total_files, total_events } => StageView::Appending {
                total_files: total_files as nat,
                total_events: total_events as nat,
            },
            Stage::Done => StageView::Done,
        }
    }
}

impl DeepView for Turn {
    type V = TurnView;

    open spec fn deep_view(&self) -> TurnView {
        TurnView {
            stage: self.pipeline.stage.deep_view(),
            output_reset: self.pipeline.output_reset,
            messages: self.messages.deep_view(),
            request: self.request.deep_view(),
        }
    }
}

/// Why a run with a filter that names no event type fails.
pub open spec fn invalid_filter_message(filter: Seq<char>) -> Seq<char> {
    "Invalid event type: '"@ + filter
        + "'. Valid types are: PushEvent, PullRequestEvent, PullRequestReviewEvent, PullRequestReviewCommentEvent, CreateEvent, DeleteEvent, IssuesEvent, IssueCommentEvent, WatchEvent, ForkEvent, ReleaseEvent, GollumEvent, MemberEvent, PublicEvent, CommitCommentEvent, DiscussionEvent"@
}

/// Why a run whose input folder cannot be listed fails.
pub open spec fn unreadable_folder_message(path: Seq<char>, reason: Seq<char>) -> Seq<char> {
    "Unable to read folder "@ + path + ": "@ + reason
}

/// Why a run whose output file cannot be created fails.
pub open spec fn output_not_created_message(reason: Seq<char>) -> Seq<char> {
    "Failed to create output file: "@ + reason
}

/// Why a run that was told something it had not asked for fails.
pub open spec fn unexpected_reply_message() -> Seq<char> {
    "Unexpected reply: it does not answer the pending request"@
}

/// The warning that something could not be saved.
pub open spec fn save_warning(output: Seq<char>, cause: Seq<char>) -> Seq<char> {
    "Warning: Failed to save events to "@ + output + ": "@ + cause
}

/// Why nothing was written.
pub open spec fn open_failure(reason: Seq<char>) -> Seq<char> {
    "Failed to open output file: "@ + reason
}

/// Why a line was not written.
pub open spec fn write_failure(reason: Seq<char>) -> Seq<char> {
    "Failed to write to file: "@ + reason
}

/// One warning for each cause, on the diagnostic stream.
pub open spec fn save_warnings(output: Seq<char>, causes: Seq<Seq<char>>) -> Seq<
    (Stream, Seq<char>),
> {
    causes.map_values(|cause: Seq<char>| (Stream::Diagnostic, save_warning(output, cause)))
}

/// The turn that ends a run.
pub open spec fn finished(
    result: Result<(), Seq<char>>,
    messages: Seq<(Stream, Seq<char>)>,
    output_reset: bool,
) -> TurnView {
    TurnView {
        stage: StageView::Done,
        output_reset,
        messages,
        request: RequestView::Finish { result },
    }
}

/// The turn that takes up the input files: it has them read where the run
/// is a dry run, and decoded where it is not.
pub open spec fn taking_up(config: Config, files: Seq<Seq<char>>, output_reset: bool) -> TurnView {
    if config.dry_run {
        TurnView {
            stage: StageView::Counting { files },
            output_reset,
            messages: Seq::empty(),
            request: RequestView::ReadFiles { files },
        }
    } else {
        TurnView {
            stage: StageView::Decoding { files },
            output_reset,
            messages: Seq::empty(),
            request: RequestView::DecodeFiles { files },
        }
    }
}

/// The first turn of a run. A filter that names no event type ends the run
/// at once; nothing is read for it. Otherwise the run begins by listing its
/// input folder.
pub open spec fn first_turn(config: Config) -> TurnView {
    match config.event_type_filter {
        Some(filter) if !is_event_type_name(filter@) => finished(
            Err(invalid_filter_message(filter@)),
            Seq::empty(),
            false,
        ),
        _ => TurnView {
            stage: StageView::Listing,
            output_reset: false,
            messages: Seq::empty(),
            request: RequestView::ListFolder { path: config.path_to_data@ },
        },
    }
}

/// The turn that follows a reply.
///
/// - When the folder has been listed: a folder or an entry that could not be
///   read ends the run with an error. Otherwise the input files are located
///   and put in order; the output file, where one is configured, is reset
///   before any input file is taken up.
/// - When the output file has been reset: a failure ends the run with an
///   error.
/// - A dry run ends when the files have been read.
/// - Another run gathers the kept events when the files have been decoded.
///   With an output file it has them serialised and then appended; a failure
///   to serialise or to write is a warning and does not end the run.
/// - A reply that does not answer the pending request ends the run with an
///   error.
pub open spec fn next_turn(pre: Pipeline, reply: Reply) -> TurnView {
    let config = pre.config;
    let unexpected = finished(Err(unexpected_reply_message()), Seq::empty(), pre.output_reset);
    match (pre.stage, reply) {
        (Stage::Listing, Reply::FolderListed { listing }) => match listing {
            Err(reason) => finished(
                Err(unreadable_folder_message(config.path_to_data@, reason@)),
                Seq::empty(),
                pre.output_reset,
            ),
            Ok(entries) => match first_failure(entries@) {
                Some(reason) => finished(Err(reason@), Seq::empty(), pre.output_reset),
                None => match config.output_file {
                    Some(path) => TurnView {
                        stage: StageView::Resetting { files: located(entries@) },
                        output_reset: pre.output_reset,
                        messages: Seq::empty(),
                        request: RequestView::ResetOutput { path: path@ },
                    },
                    None => taking_up(config, located(entries@), pre.output_reset),
                },
            },
        },
        (Stage::Resetting { files }, Reply::OutputReset { result }) => match result {
            Err(reason) => finished(
                Err(output_not_created_message(reason@)),
                Seq::empty(),
                pre.output_reset,
            ),
            Ok(_) => taking_up(config, files.deep_view(), true),
        },
        (Stage::Counting { files }, Reply::FilesRead { contents, elapsed }) => if files@.len()
            == contents@.len() {
            finished(
                Ok(()),
                on_stream(
                    Stream::Progress,
                    dry_run_output(
                        files.deep_view(),
                        contents@,
                        config.event_type_filter,
                        elapsed@,
                        config.quiet_mode,
                    ),
                ),
                pre.output_reset,
            )
        } else {
            unexpected
        },
        (Stage::Decoding { files }, Reply::FilesDecoded { files: decoded, elapsed }) => if files@.len()
            == decoded@.len() {
            let events = gathered(decoded@, config.event_type_filter);
            let said = progress(
                files.deep_view(),
                decoded@,
                config.event_type_filter,
                config.quiet_mode,
                decoded@.len(),
            ) + statistics(events, config.show_stats);
            match config.output_file {
                Some(_) => TurnView {
                    stage: StageView::Serializing {
                        total_files: files@.len(),
                        total_events: events.len(),
                    },
                    output_reset: pre.output_reset,
                    messages: said,
                    request: RequestView::SerializeEvents { events },
                },
                None => finished(
                    Ok(()),
                    said + on_stream(
                        Stream::Progress,
                        normal_summary(
                            files@.len(),
                            events.len(),
                            config.event_type_filter,
                            config.output_file,
                            elapsed@,
                            config.quiet_mode,
                        ),
                    ),
                    pre.output_reset,
                ),
            }
        } else {
            unexpected
        },
        (
            Stage::Serializing { total_files, total_events },
            Reply::EventsSerialized { lines },
        ) => match config.output_file {
            Some(path) if lines@.len() == total_events => TurnView {
                stage: StageView::Appending {
                    total_files: total_files as nat,
                    total_events: total_events as nat,
                },
                output_reset: pre.output_reset,
                messages: save_warnings(path@, serialize_failures(lines@)),
                request: RequestView::AppendOutput { path: path@, lines: framed(lines@) },
            },
            _ => unexpected,
        },
        (
            Stage::Appending { total_files, total_events },
            Reply::OutputAppended { result, elapsed },
        ) => match config.output_file {
            Some(path) => finished(
                Ok(()),
                save_warnings(
                    path@,
                    match result {
                        Ok(reasons) => reasons.deep_view().map_values(
                            |reason: Seq<char>| write_failure(reason),
                        ),
                        Err(reason) => seq![open_failure(reason@)],
                    },
                ) + on_stream(
                    Stream::Progress,
                    normal_summary(
                        total_files as nat,
                        total_events as nat,
                        config.event_type_filter,
                        config.output_file,
                        elapsed@,
                        config.quiet_mode,
                    ),
                ),
                pre.output_reset,
            ),
            None => unexpected,
        },
        _ => unexpected,
    }
}

impl Pipeline {
    /// What holds of every run at every turn: only a dry run counts lines,
    /// only another run decodes, serialises or appends, and nothing is
    /// appended to an output file that this run has not reset.
    pub open spec fn wf(self) -> bool {
        &&& self.stage is Resetting ==> self.config.output_file is Some && !self.output_reset
        &&& self.stage is Listing ==> !self.output_reset
        &&& self.stage is Counting ==> self.config.dry_run
        &&& self.stage is Decoding ==> !self.config.dry_run
        &&& self.stage is Counting || self.stage is Decoding ==> (self.output_reset
            <==> self.config.output_file is Some)
        &&& self.stage is Serializing || self.stage is Appending ==> !self.config.dry_run
            && self.config.output_file is Some && self.output_reset
    }
}

fn copy_names(files: &Vec<String>) -> (r: Vec<String>)
    ensures
        r.deep_view() == files.deep_view(),
{
    let mut out: Vec<String> = Vec::new();
    let mut i: usize = 0;
    while i < files.len()
        invariant
            i <= files@.len(),
            out@.len() == i,
            forall|j: int| 0 <= j < i ==> out@[j]@ == files@[j]@,
        decreases files@.len() - i,
    {
        out.push(files[i].clone());
        i += 1;
    }
    assert(out.deep_view() =~= files.deep_view());
    out
}

fn end_run(
    config: Config,
    output_reset: bool,
    messages: Vec<Message>,
    result: Result<(), String>,
) -> (turn: Turn)
    ensures
        turn.pipeline.config == config,
        turn.messages == messages,
        turn.deep_view() == finished(
            match result {
                Ok(_) => Ok(()),
                Err(reason) => Err(reason@),
            },
            messages.deep_view(),
            output_reset,
        ),
{
    Turn {
        pipeline: Pipeline { config, stage: Stage::Done, output_reset },
        messages,
        request: Request::Finish { result },
    }
}

fn end_unexpected(config: Config, output_reset: bool) -> (turn: Turn)
    ensures
        turn.pipeline.config == config,
        turn.deep_view() == finished(
            Err(unexpected_reply_message()),
            Seq::empty(),
            output_reset,
        ),
{
    let messages: Vec<Message> = Vec::new();
    assert(messages.deep_view() =~= Seq::<(Stream, Seq<char>)>::empty());
    end_run(
        config,
        output_reset,
        messages,
        Err(String::from_str("Unexpected reply: it does not answer the pending request")),
    )
}

fn take_up(config: Config, files: Vec<String>, output_reset: bool) -> (turn: Turn)
    ensures
        turn.pipeline.config == config,
        turn.deep_view() == taking_up(config, files.deep_view(), output_reset),
{
    let asked = copy_names(&files);
    let messages: Vec<Message> = Vec::new();
    assert(messages.deep_view() =~= Seq::<(Stream, Seq<char>)>::empty());
    if config.dry_run {
        Turn {
            pipeline: Pipeline { config, stage: Stage::Counting { files }, output_reset },
            messages,
            request: Request::ReadFiles { files: asked },
        }
    } else {
        Turn {
            pipeline: Pipeline { config, stage: Stage::Decoding { files }, output_reset },
            messages,
            request: Request::DecodeFiles { files: asked },
        }
    }
}

fn push_save_warnings(messages: &mut Vec<Message>, output: &str, causes: Vec<String>)
    ensures
        final(messages).deep_view() == old(messages).deep_view() + save_warnings(
            output@,
            causes.deep_view(),
        ),
{
    let ghost all = causes@;
    let ghost texts = causes.deep_view();
    assert(messages.deep_view() =~= old(messages).deep_view() + save_warnings(
        output@,
        texts.take(0),
    ));
    for cause in it: causes
        invariant
            it.seq() == all,
            texts.len() == all.len(),
            forall|i: int| 0 <= i < all.len() ==> texts[i] == all[i]@,
            messages.deep_view() == old(messages).deep_view() + save_warnings(
                output@,
                texts.take(it.index()),
            ),
    {
        let mut text = String::from_str("Warning: Failed to save events to ");
        text.append(output);
        text.append(": ");
        text.append(cause.as_str());
        let ghost before = messages.deep_view();
        messages.push(Message { stream: Stream::Diagnostic, text });
        proof {
            assert(messages.deep_view() =~= before.push((Stream::Diagnostic, text@)));
            assert(save_warnings(output@, texts.take(it.index() + 1)) =~= save_warnings(
                output@,
                texts.take(it.index()),
            ).push((Stream::Diagnostic, save_warning(output@, cause@))));
        }
    }
    assert(texts.take(all.len() as int) =~= texts);
}

fn write_failures(reasons: Vec<String>) -> (r: Vec<String>)
    ensures
        r.deep_view() == reasons.deep_view().map_values(
            |reason: Seq<char>| write_failure(reason),
        ),
{
    let ghost all = reasons@;
    let mut out: Vec<String> = Vec::new();
    for reason in it: reasons
        invariant
            it.seq() == all,
            out@.len() == it.index(),
            forall|i: int| 0 <= i < it.index() ==> out@[i]@ == write_failure(all[i]@),
    {
        let mut text = String::from_str("Failed to write to file: ");
        text.append(reason.as_str());
        out.push(text);
    }
    assert(out.deep_view() =~= reasons.deep_view().map_values(
        |reason: Seq<char>| write_failure(reason),
    ));
    out
}

impl Pipeline {
    /// Begins a run.
    pub fn start(config: Config) -> (turn: Turn)
        ensures
            turn.pipeline.config == config,
            turn.deep_view() == first_turn(config),
            turn.pipeline.wf(),
    {
        let valid = match &config.event_type_filter {
            Some(filter) => is_valid_event_type(filter.as_str()),
            None => true,
        };
        let messages: Vec<Message> = Vec::new();
        assert(messages.deep_view() =~= Seq::<(Stream, Seq<char>)>::empty());
        if !valid {
            let mut reason = String::from_str("Invalid event type: '");
            match &config.event_type_filter {
                Some(filter) => {
                    reason.append(filter.as_str());
                },
                None => {},
            }
            reason.append(
                "'. Valid types are: PushEvent, PullRequestEvent, PullRequestReviewEvent, PullRequestReviewCommentEvent, CreateEvent, DeleteEvent, IssuesEvent, IssueCommentEvent, WatchEvent, ForkEvent, ReleaseEvent, GollumEvent, MemberEvent, PublicEvent, CommitCommentEvent, DiscussionEvent",
            );
            end_run(config, false, messages, Err(reason))
        } else {
            let path = config.path_to_data.clone();
            Turn {
                pipeline: Pipeline { config, stage: Stage::Listing, output_reset: false },
                messages,
                request: Request::ListFolder { path },
            }
        }
    }

    /// Takes the reply to the pending request and decides what comes next.
    pub fn step(self, reply: Reply) -> (turn: Turn)
        ensures
            turn.pipeline.config == self.config,
            turn.deep_view() == next_turn(self, reply),
            self.wf() ==> turn.pipeline.wf(),
    {
        let Pipeline { config, stage, output_reset } = self;
        match (stage, reply) {
            (Stage::Listing, Reply::FolderListed { listing }) => {
                let messages: Vec<Message> = Vec::new();
                assert(messages.deep_view() =~= Seq::<(Stream, Seq<char>)>::empty());
                match listing {
                    Err(reason) => {
                        let mut text = String::from_str("Unable to read folder ");
                        text.append(config.path_to_data.as_str());
                        text.append(": ");
                        text.append(reason.as_str());
                        end_run(config, output_reset, messages, Err(text))
                    },
                    Ok(entries) => match locate_files(entries) {
                        Err(reason) => end_run(config, output_reset, messages, Err(reason)),
                        Ok(files) => {
                            let path = match &config.output_file {
                                Some(path) => Some(path.clone()),
                                None => None,
                            };
                            match path {
                                Some(path) => Turn {
                                    pipeline: Pipeline {
                                        config,
                                        stage: Stage::Resetting { files },
                                        output_reset,
                                    },
                                    messages,
                                    request: Request::ResetOutput { path },
                                },
                                None => take_up(config, files, output_reset),
                            }
                        },
                    },
                }
            },
            (Stage::Resetting { files }, Reply::OutputReset { result }) => match result {
                Err(reason) => {
                    let messages: Vec<Message> = Vec::new();
                    assert(messages.deep_view() =~= Seq::<(Stream, Seq<char>)>::empty());
                    let mut text = String::from_str("Failed to create output file: ");
                    text.append(reason.as_str());
                    end_run(config, output_reset, messages, Err(text))
                },
                Ok(_) => take_up(config, files, true),
            },
            (Stage::Counting { files }, Reply::FilesRead { contents, elapsed }) => {
                if files.len() == contents.len() {
                    let lines = execute_dry_run(
                        &files,
                        &contents,
                        &config.event_type_filter,
                        elapsed.as_str(),
                        config.quiet_mode,
                    );
                    let mut messages: Vec<Message> = Vec::new();
                    push_lines(&mut messages, Stream::Progress, lines);
                    assert(messages.deep_view() =~= on_stream(
                        Stream::Progress,
                        lines.deep_view(),
                    ));
                    end_run(config, output_reset, messages, Ok(()))
                } else {
                    end_unexpected(config, output_reset)
                }
            },
            (Stage::Decoding { files }, Reply::FilesDecoded { files: decoded, elapsed }) => {
                if files.len() == decoded.len() {
                    let total_files = files.len();
                    let run = execute_normal_run(
                        &files,
                        decoded,
                        &config.event_type_filter,
                        config.show_stats,
                        config.quiet_mode,
                    );
                    let NormalRun { events, messages } = run;
                    let mut messages = messages;
                    let total_events = events.len();
                    if config.output_file.is_some() {
                        Turn {
                            pipeline: Pipeline {
                                config,
                                stage: Stage::Serializing { total_files, total_events },
                                output_reset,
                            },
                            messages,
                            request: Request::SerializeEvents { events },
                        }
                    } else {
                        let summary = print_summary_normal_run(
                            total_files,
                            total_events,
                            &config.event_type_filter,
                            &config.output_file,
                            elapsed.as_str(),
                            config.quiet_mode,
                        );
                        push_lines(&mut messages, Stream::Progress, summary);
                        end_run(config, output_reset, messages, Ok(()))
                    }
                } else {
                    end_unexpected(config, output_reset)
                }
            },
            (
                Stage::Serializing { total_files, total_events },
                Reply::EventsSerialized { lines },
            ) => {
                let path = match &config.output_file {
                    Some(path) => Some(path.clone()),
                    None => None,
                };
                match path {
                    Some(path) => {
                        if lines.len() == total_events {
                            let batch = save_events(lines);
                            let mut messages: Vec<Message> = Vec::new();
                            push_save_warnings(&mut messages, path.as_str(), batch.failures);
                            assert(messages.deep_view() =~= save_warnings(
                                path@,
                                serialize_failures(lines@),
                            ));
                            Turn {
                                pipeline: Pipeline {
                                    config,
                                    stage: Stage::Appending { total_files, total_events },
                                    output_reset,
                                },
                                messages,
                                request: Request::AppendOutput { path, lines: batch.lines },
                            }
                        } else {
                            end_unexpected(config, output_reset)
                        }
                    },
                    None => end_unexpected(config, output_reset),
                }
            },
            (
                Stage::Appending { total_files, total_events },
                Reply::OutputAppended { result, elapsed },
            ) => {
                let path = match &config.output_file {
                    Some(path) => Some(path.clone()),
                    None => None,
                };
                match path {
                    Some(path) => {
                        let causes = match result {
                            Ok(reasons) => write_failures(reasons),
                            Err(reason) => {
                                let mut text = String::from_str("Failed to open output file: ");
                                text.append(reason.as_str());
                                let mut causes: Vec<String> = Vec::new();
                                causes.push(text);
                                assert(causes.deep_view() =~= seq![open_failure(reason@)]);
                                causes
                            },
                        };
                        let mut messages: Vec<Message> = Vec::new();
                        push_save_warnings(&mut messages, path.as_str(), causes);
                        assert(messages.deep_view() =~= save_warnings(path@, causes.deep_view()));
                        let summary = print_summary_normal_run(
                            total_files,
                            total_events,
                            &config.event_type_filter,
                            &config.output_file,
                            elapsed.as_str(),
                            config.quiet_mode,
                        );
                        push_lines(&mut messages, Stream::Progress, summary);
                        end_run(config, output_reset, messages, Ok(()))
                    },
                    None => end_unexpected(config, output_reset),
                }
            },
            (_, _) => end_unexpected(config, output_reset),
        }
    }
}

/// A filter that names no event type fails the run before anything is read:
/// the first turn ends the run with the error, and asks for no folder and no
/// file. This holds whatever the input folder is, so the error of the filter
/// comes before that of a folder that cannot be read.
pub proof fn lemma_invalid_filter_reads_nothing(config: Config)
    requires
        config.event_type_filter is Some,
        !is_event_type_name(config.event_type_filter->0@),
    ensures
        first_turn(config).stage is Done,
        first_turn(config).messages.len() == 0,
        first_turn(config).request == (RequestView::Finish {
            result: Err(invalid_filter_message(config.event_type_filter->0@)),
        }),
{
}

/// A run that is over stays over: whatever it is told, it asks for nothing
/// more.
pub proof fn lemma_done_stays_done(pre: Pipeline, reply: Reply)
    requires
        pre.stage is Done,
    ensures
        next_turn(pre, reply).stage is Done,
        next_turn(pre, reply).request is Finish,
{
}

/// The output file is reset before any input file is taken up, in a dry run
/// as in any other: once the folder has been listed, a run with an output
/// file asks for the reset and for nothing else.
pub proof fn lemma_output_is_reset_first(pre: Pipeline, reply: Reply)
    requires
        pre.stage is Listing,
        reply is FolderListed,
        reply->listing is Ok,
        first_failure(reply->listing->Ok_0@) is None,
        pre.config.output_file is Some,
    ensures
        next_turn(pre, reply).request == (RequestView::ResetOutput {
            path: pre.config.output_file->0@,
        }),
{
}

/// A dry run decodes nothing and writes nothing: it never asks for files to
/// be decoded, for events to be serialised, or for lines to be appended to
/// the output file, which therefore stays as the reset left it.
pub proof fn lemma_dry_run_writes_nothing(pre: Pipeline, reply: Reply)
    requires
        pre.wf(),
        pre.config.dry_run,
    ensures
        !(next_turn(pre, reply).request is DecodeFiles),
        !(next_turn(pre, reply).request is SerializeEvents),
        !(next_turn(pre, reply).request is AppendOutput),
{
}

/// Nothing is appended to an output file that the same run has not reset
/// before, and no run asks for the reset twice: a run never goes back to
/// listing its folder, and only from there the reset is asked for. What a
/// run appends is therefore all that its output file holds at its end.
pub proof fn lemma_append_follows_reset(pre: Pipeline, reply: Reply)
    requires
        pre.wf(),
    ensures
        !(next_turn(pre, reply).stage is Listing),
        next_turn(pre, reply).request is ResetOutput ==> pre.stage is Listing,
        next_turn(pre, reply).request is AppendOutput ==> pre.output_reset
            && pre.config.output_file is Some && next_turn(pre, reply).request->AppendOutput_path
            == pre.config.output_file->0@,
{
}

/// How far a run has come: each stage counts for more than those before it.
pub open spec fn progress_of(stage: StageView) -> nat {
    match stage {
        StageView::Listing => 0,
        StageView::Resetting { .. } => 1,
        StageView::Counting { .. } => 2,
        StageView::Decoding { .. } => 2,
        StageView::Serializing { .. } => 3,
        StageView::Appending { .. } => 4,
        StageView::Done => 5,
    }
}

/// Every turn takes a run further, and the last one ends it: a run is over
/// after six turns at most, whatever it is told. A turn asks to finish
/// exactly when the run is over.
pub proof fn lemma_run_comes_to_an_end(pre: Pipeline, reply: Reply)
    ensures
        progress_of(next_turn(pre, reply).stage) > progress_of(pre.stage.deep_view())
            || next_turn(pre, reply).stage is Done,
        next_turn(pre, reply).request is Finish <==> next_turn(pre, reply).stage is Done,
        first_turn(pre.config).request is Finish <==> first_turn(pre.config).stage is Done,
{
}

/// A run as it would stand with quiet mode switched on or off.
pub open spec fn with_quiet_mode(pre: Pipeline, quiet_mode: bool) -> Pipeline {
    Pipeline { config: Config { quiet_mode, ..pre.config }, ..pre }
}

/// Quiet mode silences progress and nothing else: a run asks for the same
/// things, comes to the same result, and gives the same warnings and errors
/// with it as without it.
pub proof fn lemma_quiet_mode_keeps_diagnostics(pre: Pipeline, reply: Reply)
    ensures
        next_turn(with_quiet_mode(pre, true), reply).request == next_turn(
            with_quiet_mode(pre, false),
            reply,
        ).request,
        next_turn(with_quiet_mode(pre, true), reply).stage == next_turn(
            with_quiet_mode(pre, false),
            reply,
        ).stage,
        diagnostics(next_turn(with_quiet_mode(pre, true), reply).messages) == diagnostics(
            next_turn(with_quiet_mode(pre, false), reply).messages,
        ),
{
    let config = pre.config;
    let quiet = next_turn(with_quiet_mode(pre, true), reply).messages;
    let loud = next_turn(with_quiet_mode(pre, false), reply).messages;
    match (pre.stage, reply) {
        (Stage::Counting { files }, Reply::FilesRead { contents, elapsed }) => {
            if files@.len() == contents@.len() {
                lemma_diagnostics_on_stream(
                    Stream::Progress,
                    dry_run_output(
                        files.deep_view(),
                        contents@,
                        config.event_type_filter,
                        elapsed@,
                        true,
                    ),
                );
                lemma_diagnostics_on_stream(
                    Stream::Progress,
                    dry_run_output(
                        files.deep_view(),
                        contents@,
                        config.event_type_filter,
                        elapsed@,
                        false,
                    ),
                );
            }
        },
        (Stage::Decoding { files }, Reply::FilesDecoded { files: decoded, elapsed }) => {
            if files@.len() == decoded@.len() {
                let events = gathered(decoded@, config.event_type_filter);
                let counted = statistics(events, config.show_stats);
                let said = |quiet_mode: bool|
                    progress(
                        files.deep_view(),
                        decoded@,
                        config.event_type_filter,
                        quiet_mode,
                        decoded@.len(),
                    );
                let summary = |quiet_mode: bool|
                    on_stream(
                        Stream::Progress,
                        normal_summary(
                            files@.len(),
                            events.len(),
                            config.event_type_filter,
                            config.output_file,
                            elapsed@,
                            quiet_mode,
                        ),
                    );
                lemma_progress_diagnostics(
                    files.deep_view(),
                    decoded@,
                    config.event_type_filter,
                    decoded@.len(),
                );
                lemma_diagnostics_of_both(said(true), counted);
                lemma_diagnostics_of_both(said(false), counted);
                if config.output_file is None {
                    lemma_diagnostics_on_stream(
                        Stream::Progress,
                        normal_summary(
                            files@.len(),
                            events.len(),
                            config.event_type_filter,
                            config.output_file,
                            elapsed@,
                            true,
                        ),
                    );
                    lemma_diagnostics_on_stream(
                        Stream::Progress,
                        normal_summary(
                            files@.len(),
                            events.len(),
                            config.event_type_filter,
                            config.output_file,
                            elapsed@,
                            false,
                        ),
                    );
                    lemma_diagnostics_of_both(said(true) + counted, summary(true));
                    lemma_diagnostics_of_both(said(false) + counted, summary(false));
                }
            }
        },
        (
            Stage::Appending { total_files, total_events },
            Reply::OutputAppended { result, elapsed },
        ) => {
            if let Some(path) = config.output_file {
                let warned = save_warnings(
                    path@,
                    match result {
                        Ok(reasons) => reasons.deep_view().map_values(
                            |reason: Seq<char>| write_failure(reason),
                        ),
                        Err(reason) => seq![open_failure(reason@)],
                    },
                );
                let summary = |quiet_mode: bool|
                    normal_summary(
                        total_files as nat,
                        total_events as nat,
                        config.event_type_filter,
                        config.output_file,
                        elapsed@,
                        quiet_mode,
                    );
                lemma_diagnostics_on_stream(Stream::Progress, summary(true));
                lemma_diagnostics_on_stream(Stream::Progress, summary(false));
                lemma_diagnostics_of_both(warned, on_stream(Stream::Progress, summary(true)));
                lemma_diagnostics_of_both(warned, on_stream(Stream::Progress, summary(false)));
            }
        },
        _ => {},
    }
}

} // verus!
