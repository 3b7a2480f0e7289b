//! The work on the input files: locating them in their folder, collecting
//! the events of each, and what a run says of it.

use vstd::prelude::*;
use vstd::string::*;
use crate::extract::analysis::{count_events, print_stats, report, tally};
use crate::extract::filters::{included, should_include};
use crate::extract::pipeline::{first_turn, Pipeline, Turn};
use crate::model::github::GitHubEvent;
use crate::stable_sort::{
    insert_by_key, insertion_point, key_values, lemma_insertion_point,
    lemma_stable_sorted_ascends, lemma_stable_sorted_keeps_order, lemma_stable_sorted_permutes,
    stable_sorted, with_key,
};
use crate::Config;
use crate::text::{
    count_lines, debug_text, decimal, file_extension, file_sort_key, is_blank, is_blank_line,
    is_json_file_name, lines_of, push_decimal, quoted, sort_key,
};

verus! {

/// One line of an input file, with what decoding it as an event gave: the
/// event, or the reason why the line is none.
#[derive(Debug)]
pub struct DecodedLine {
    pub text: String,
    pub decoded: Result<GitHubEvent, String>,
}

/// Why a line is no event: the number of the line in its file, from 1, and
/// what decoding it said.
#[derive(Debug, Clone)]
pub struct DecodeError {
    pub line: usize,
    pub message: String,
}

impl DeepView for DecodeError {
    type V = (nat, Seq<char>);

    open spec fn deep_view(&self) -> (nat, Seq<char>) {
        (self.line as nat, self.message@)
    }
}

/// What one file contributes to a run.
#[derive(Debug)]
pub struct FileBatch {
    /// The events that were kept, in the order of their lines.
    pub events: Vec<GitHubEvent>,
    /// One error for each malformed line, in the order of the lines.
    pub errors: Vec<DecodeError>,
}

impl DecodedLine {
    /// A line yields an event when it is not blank, decodes, and passes the
    /// filter.
    pub open spec fn kept(self, filter: Option<String>) -> bool {
        &&& !is_blank(self.text@)
        &&& self.decoded is Ok
        &&& included(self.decoded->Ok_0, filter)
    }

    /// A line is malformed when it is not blank and does not decode.
    pub open spec fn malformed(self) -> bool {
        !is_blank(self.text@) && self.decoded is Err
    }
}

/// The events that a file's lines yield under a filter, in line order.
pub open spec fn retained(lines: Seq<DecodedLine>, filter: Option<String>) -> Seq<GitHubEvent>
    decreases lines.len(),
{
    if lines.len() == 0 {
        Seq::empty()
    } else if lines.last().kept(filter) {
        retained(lines.drop_last(), filter).push(lines.last().decoded->Ok_0)
    } else {
        retained(lines.drop_last(), filter)
    }
}

/// The errors that a file's lines give rise to, in line order: for each
/// malformed line its number, from 1, and what decoding it said.
pub open spec fn decode_errors(lines: Seq<DecodedLine>) -> Seq<(nat, Seq<char>)>
    decreases lines.len(),
{
    if lines.len() == 0 {
        Seq::empty()
    } else if lines.last().malformed() {
        decode_errors(lines.drop_last()).push((lines.len(), lines.last().decoded->Err_0@))
    } else {
        decode_errors(lines.drop_last())
    }
}

/// The warning that a run gives for a malformed line.
pub open spec fn line_warning(error: (nat, Seq<char>)) -> Seq<char> {
    "Warning at line "@ + decimal(error.0) + ": "@ + error.1
}

/// The warning for each of `errors`, in order.
pub open spec fn line_warnings(errors: Seq<(nat, Seq<char>)>) -> Seq<Seq<char>> {
    errors.map_values(|error: (nat, Seq<char>)| line_warning(error))
}

impl DecodeError {
    /// The warning that a run gives for this error.
    pub fn warning(&self) -> (r: String)
        ensures
            r@ == line_warning(self.deep_view()),
    {
        let mut warning = String::from_str("Warning at line ");
        push_decimal(&mut warning, self.line as u128);
        warning.append(": ");
        warning.append(self.message.as_str());
        warning
    }
}

/// Collects the events among the lines of one file. A blank line is passed
/// over; a malformed line gives an error and is passed over; neither ends
/// the file.
pub fn receive_lines(lines: Vec<DecodedLine>, event_filter: &Option<String>) -> (r: FileBatch)
    ensures
        r.events@ == retained(lines@, *event_filter),
        r.errors.deep_view() == decode_errors(lines@),
{
    let ghost all = lines@;
    let count = lines.len();
    let mut events: Vec<GitHubEvent> = Vec::new();
    let mut errors: Vec<DecodeError> = Vec::new();
    let mut number: usize = 0;
    assert(errors.deep_view() =~= Seq::<(nat, Seq<char>)>::empty());
    for line in it: lines
        invariant
            it.seq() == all,
            all.len() == count,
            number == it.index(),
            events@ == retained(all.take(it.index()), *event_filter),
            errors.deep_view() == decode_errors(all.take(it.index())),
    {
        proof {
            assert(all.take(it.index() + 1).drop_last() =~= all.take(it.index()));
            assert(all.take(it.index() + 1).last() == line);
        }
        number += 1;
        if !is_blank_line(line.text.as_str()) {
            match line.decoded {
                Ok(event) => {
                    if should_include(&event, event_filter) {
                        events.push(event);
                    }
                },
                Err(message) => {
                    let ghost before = errors.deep_view();
                    errors.push(DecodeError { line: number, message });
                    assert(errors.deep_view() =~= before.push((number as nat, message@)));
                },
            }
        }
    }
    assert(all.take(all.len() as int) =~= all);
    FileBatch { events, errors }
}

/// Collects the events of one file. `file` is what reading the file gave:
/// its lines, or the reason why it could not be read, which is handed back.
pub fn receive_all(file: Result<Vec<DecodedLine>, String>, event_filter: Option<String>) -> (r:
    Result<FileBatch, String>)
    ensures
        match file {
            Ok(lines) => r is Ok && r->Ok_0.events@ == retained(lines@, event_filter)
                && r->Ok_0.errors.deep_view() == decode_errors(lines@),
            Err(reason) => r == Err::<FileBatch, String>(reason),
        },
{
    match file {
        Ok(lines) => Ok(receive_lines(lines, &event_filter)),
        Err(reason) => Err(reason),
    }
}

/// One entry of a folder: its name, and whether it is a regular file.
#[derive(Debug)]
pub struct FolderEntry {
    pub file_name: String,
    pub is_file: bool,
}

impl FolderEntry {
    /// The input files of a folder are its regular files with the extension
    /// `json`.
    pub open spec fn is_input(self) -> bool {
        self.is_file && file_extension(self.file_name@) == Some("json"@)
    }
}

/// The first entry of a listing that could not be read, if there is one.
pub open spec fn first_failure(listing: Seq<Result<FolderEntry, String>>) -> Option<String>
    decreases listing.len(),
{
    if listing.len() == 0 {
        None
    } else if first_failure(listing.drop_last()) is Some {
        first_failure(listing.drop_last())
    } else if listing.last() is Err {
        Some(listing.last()->Err_0)
    } else {
        None
    }
}

/// The names of the input files in a listing, in the order of the listing.
pub open spec fn input_names(listing: Seq<Result<FolderEntry, String>>) -> Seq<Seq<char>>
    decreases listing.len(),
{
    if listing.len() == 0 {
        Seq::empty()
    } else if listing.last() is Ok && listing.last()->Ok_0.is_input() {
        input_names(listing.drop_last()).push(listing.last()->Ok_0.file_name@)
    } else {
        input_names(listing.drop_last())
    }
}

/// The key by which input files are put in order.
pub open spec fn by_sort_key() -> spec_fn(Seq<char>) -> int {
    |name: Seq<char>| sort_key(name)
}

/// The input files of a listing in the order in which a run takes them: by
/// ascending key, and files with the same key in the order of the listing.
pub open spec fn located(listing: Seq<Result<FolderEntry, String>>) -> Seq<Seq<char>> {
    stable_sorted(input_names(listing), by_sort_key())
}

/// Picks the input files out of the listing of a folder and puts them in
/// order. Fails with the reason of the first entry that could not be read.
pub fn locate_files(listing: Vec<Result<FolderEntry, String>>) -> (r: Result<Vec<String>, String>)
    ensures
        match first_failure(listing@) {
            Some(reason) => r == Err::<Vec<String>, String>(reason),
            None => r is Ok && r->Ok_0.deep_view() == located(listing@),
        },
{
    let ghost all = listing@;
    let mut keys: Vec<i128> = Vec::new();
    let mut files: Vec<String> = Vec::new();
    assert(files.deep_view() =~= Seq::<Seq<char>>::empty());
    assert(key_values(keys@) =~= files.deep_view().map_values(by_sort_key()));
    for entry in it: listing
        invariant
            it.seq() == all,
            first_failure(all.take(it.index())) is None,
            keys@.len() == files@.len(),
            files.deep_view() == located(all.take(it.index())),
            key_values(keys@) == files.deep_view().map_values(by_sort_key()),
    {
        proof {
            assert(all.take(it.index() + 1).drop_last() =~= all.take(it.index()));
            assert(all.take(it.index() + 1).last() == entry);
        }
        match entry {
            Err(reason) => {
                proof {
                    lemma_first_failure_stays(all, it.index() + 1);
                }
                return Err(reason);
            },
            Ok(entry) => {
                if entry.is_file && is_json_file_name(entry.file_name.as_str()) {
                    let key = file_sort_key(entry.file_name.as_str());
                    let ghost before = files.deep_view();
                    let ghost at = insertion_point(key_values(keys@), key as int);
                    proof {
                        lemma_insertion_point(key_values(keys@), key as int);
                    }
                    let ghost keys_before = keys@;
                    insert_by_key(&mut keys, &mut files, key as i128, entry.file_name);
                    proof {
                        let names = input_names(all.take(it.index()));
                        let name = entry.file_name@;
                        assert(names.push(name).drop_last() =~= names);
                        assert(files.deep_view() =~= before.insert(at, name));
                        assert forall|j: int| 0 <= j < keys@.len() implies key_values(keys@)[j]
                            == files.deep_view().map_values(by_sort_key())[j] by {
                            if j < at {
                                assert(key_values(keys_before)[j] == before.map_values(
                                    by_sort_key(),
                                )[j]);
                            } else if j > at {
                                assert(key_values(keys_before)[j - 1] == before.map_values(
                                    by_sort_key(),
                                )[j - 1]);
                            }
                        }
                        assert(key_values(keys@) =~= files.deep_view().map_values(by_sort_key()));
                    }
                }
            },
        }
    }
    assert(all.take(all.len() as int) =~= all);
    Ok(files)
}

/// A failure among the first entries of a listing is the first failure of
/// the whole listing.
proof fn lemma_first_failure_stays(listing: Seq<Result<FolderEntry, String>>, k: int)
    requires
        0 <= k <= listing.len(),
        first_failure(listing.take(k)) is Some,
    ensures
        first_failure(listing) == first_failure(listing.take(k)),
    decreases listing.len() - k,
{
    if k < listing.len() {
        assert(listing.take(k + 1).drop_last() =~= listing.take(k));
        lemma_first_failure_stays(listing, k + 1);
    } else {
        assert(listing.take(k) =~= listing);
    }
}

/// Where a message of a run goes.
#[derive(Debug, Clone, Copy, PartialEq, Eq, Structural)]
pub enum Stream {
    /// Progress and summaries: the primary output.
    Progress,
    /// Warnings and errors: the diagnostic stream.
    Diagnostic,
}

/// One line of text that a run has to say.
#[derive(Debug)]
pub struct Message {
    pub stream: Stream,
    pub text: String,
}

impl DeepView for Message {
    type V = (Stream, Seq<char>);

    open spec fn deep_view(&self) -> (Stream, Seq<char>) {
        (self.stream, self.text@)
    }
}

/// Each of `lines` as a message on `stream`.
pub open spec fn on_stream(stream: Stream, lines: Seq<Seq<char>>) -> Seq<(Stream, Seq<char>)> {
    lines.map_values(|line: Seq<char>| (stream, line))
}

/// Appends `lines` to `messages`, each as a message on `stream`.
pub fn push_lines(messages: &mut Vec<Message>, stream: Stream, lines: Vec<String>)
    ensures
        final(messages).deep_view() == old(messages).deep_view() + on_stream(
            stream,
            lines.deep_view(),
        ),
{
    let ghost all = lines@;
    let ghost texts = lines.deep_view();
    assert(messages.deep_view() =~= old(messages).deep_view() + on_stream(stream, texts.take(0)));
    for line in it: lines
        invariant
            it.seq() == all,
            texts.len() == all.len(),
            forall|i: int| 0 <= i < all.len() ==> texts[i] == all[i]@,
            messages.deep_view() == old(messages).deep_view() + on_stream(
                stream,
                texts.take(it.index()),
            ),
    {
        let ghost before = messages.deep_view();
        messages.push(Message { stream, text: line });
        proof {
            assert(messages.deep_view() =~= before.push((stream, line@)));
            assert(on_stream(stream, texts.take(it.index() + 1)) =~= on_stream(
                stream,
                texts.take(it.index()),
            ).push((stream, line@)));
        }
    }
    assert(texts.take(all.len() as int) =~= texts);
}

/// The line that says which filter a run applied.
pub open spec fn filter_line(filter: Seq<char>) -> Seq<char> {
    "Filter applied: "@ + filter
}

/// The line that closes a summary.
pub open spec fn time_line(elapsed: Seq<char>) -> Seq<char> {
    "Total time: "@ + elapsed
}

/// The summary of a run that decoded its files: nothing in quiet mode, and
/// otherwise a rule, a heading, the number of files and of kept events, the
/// filter and the output file where there is one, and the time taken.
pub open spec fn normal_summary(
    total_files: nat,
    total_lines: nat,
    event_filter: Option<String>,
    output_file: Option<String>,
    elapsed: Seq<char>,
    quiet_mode: bool,
) -> Seq<Seq<char>> {
    if quiet_mode {
        Seq::empty()
    } else {
        seq![
            "-------------------------------------------------"@,
            "Summary:"@,
            "Total files: "@ + decimal(total_files),
            "Total events processed: "@ + decimal(total_lines),
        ] + (match event_filter {
            Some(filter) => seq![filter_line(filter@)],
            None => Seq::empty(),
        }) + (match output_file {
            Some(output) => seq!["Output saved to: "@ + output@],
            None => Seq::empty(),
        }) + seq![time_line(elapsed)]
    }
}

/// The summary of a dry run: nothing in quiet mode, and otherwise a rule, a
/// heading, the number of files and of lines, the filter where there is one,
/// and the time taken.
pub open spec fn dry_run_summary(
    total_files: nat,
    total_lines: nat,
    event_filter: Option<String>,
    elapsed: Seq<char>,
    quiet_mode: bool,
) -> Seq<Seq<char>> {
    if quiet_mode {
        Seq::empty()
    } else {
        seq![
            "-------------------------------------------------"@,
            "Summary (Dry-run):"@,
            "Total files: "@ + decimal(total_files),
            "Total lines/events: "@ + decimal(total_lines),
        ] + (match event_filter {
            Some(filter) => seq![filter_line(filter@)],
            None => Seq::empty(),
        }) + seq![time_line(elapsed)]
    }
}

fn warnings_of(errors: &Vec<DecodeError>) -> (r: Vec<String>)
    ensures
        r.deep_view() == line_warnings(errors.deep_view()),
{
    let mut out: Vec<String> = Vec::new();
    let mut i: usize = 0;
    while i < errors.len()
        invariant
            i <= errors@.len(),
            out@.len() == i,
            forall|j: int| 0 <= j < i ==> out@[j]@ == line_warning(errors@[j].deep_view()),
        decreases errors@.len() - i,
    {
        out.push(errors[i].warning());
        i += 1;
    }
    assert(out.deep_view() =~= line_warnings(errors.deep_view()));
    out
}

fn labelled(label: &str, text: &str) -> (r: String)
    ensures
        r@ == label@ + text@,
{
    let mut line = String::from_str(label);
    line.append(text);
    line
}

fn numbered(label: &str, n: u128) -> (r: String)
    ensures
        r@ == label@ + decimal(n as nat),
{
    let mut line = String::from_str(label);
    push_decimal(&mut line, n);
    line
}

/// The lines of the summary of a run that decoded its files. `elapsed` is
/// the time the run took, as it is to be shown.
pub fn print_summary_normal_run(
    total_files: usize,
    total_lines: usize,
    event_filter: &Option<String>,
    output_file: &Option<String>,
    elapsed: &str,
    quiet_mode: bool,
) -> (r: Vec<String>)
    ensures
        r.deep_view() == normal_summary(
            total_files as nat,
            total_lines as nat,
            *event_filter,
            *output_file,
            elapsed@,
            quiet_mode,
        ),
{
    let mut lines: Vec<String> = Vec::new();
    if quiet_mode {
        assert(lines.deep_view() =~= Seq::<Seq<char>>::empty());
        return lines;
    }
    lines.push(String::from_str("-------------------------------------------------"));
    lines.push(String::from_str("Summary:"));
    lines.push(numbered("Total files: ", total_files as u128));
    lines.push(numbered("Total events processed: ", total_lines as u128));
    if let Some(filter) = event_filter {
        lines.push(labelled("Filter applied: ", filter.as_str()));
    }
    if let Some(output) = output_file {
        lines.push(labelled("Output saved to: ", output.as_str()));
    }
    lines.push(labelled("Total time: ", elapsed));
    assert(lines.deep_view() =~= normal_summary(
        total_files as nat,
        total_lines as nat,
        *event_filter,
        *output_file,
        elapsed@,
        quiet_mode,
    ));
    lines
}

/// The lines of the summary of a dry run. `elapsed` is the time the run
/// took, as it is to be shown.
pub fn print_summary_dry_run(
    total_files: usize,
    total_lines: u128,
    event_filter: &Option<String>,
    elapsed: &str,
    quiet_mode: bool,
) -> (r: Vec<String>)
    ensures
        r.deep_view() == dry_run_summary(
            total_files as nat,
            total_lines as nat,
            *event_filter,
            elapsed@,
            quiet_mode,
        ),
{
    let mut lines: Vec<String> = Vec::new();
    if quiet_mode {
        assert(lines.deep_view() =~= Seq::<Seq<char>>::empty());
        return lines;
    }
    lines.push(String::from_str("-------------------------------------------------"));
    lines.push(String::from_str("Summary (Dry-run):"));
    lines.push(numbered("Total files: ", total_files as u128));
    lines.push(numbered("Total lines/events: ", total_lines));
    if let Some(filter) = event_filter {
        lines.push(labelled("Filter applied: ", filter.as_str()));
    }
    lines.push(labelled("Total time: ", elapsed));
    assert(lines.deep_view() =~= dry_run_summary(
        total_files as nat,
        total_lines as nat,
        *event_filter,
        elapsed@,
        quiet_mode,
    ));
    lines
}

/// The number of lines of a file in a dry run; a file that could not be
/// read counts as having none.
pub open spec fn line_count(content: Result<String, String>) -> nat {
    match content {
        Ok(text) => lines_of(text@).len(),
        Err(_) => 0,
    }
}

/// The number of lines of all files together.
pub open spec fn total_line_count(contents: Seq<Result<String, String>>) -> nat
    decreases contents.len(),
{
    if contents.len() == 0 {
        0
    } else {
        total_line_count(contents.drop_last()) + line_count(contents.last())
    }
}

/// What a dry run says of one file.
pub open spec fn dry_run_line(name: Seq<char>, lines: nat) -> Seq<char> {
    "[Dry-run]: Would process file: "@ + debug_text(name) + ", "@ + decimal(lines) + " lines"@
}

/// What a dry run says: of each file in order its name and the number of its
/// lines, and then the summary; nothing in quiet mode.
pub open spec fn dry_run_output(
    files: Seq<Seq<char>>,
    contents: Seq<Result<String, String>>,
    event_filter: Option<String>,
    elapsed: Seq<char>,
    quiet_mode: bool,
) -> Seq<Seq<char>> {
    (if quiet_mode {
        Seq::empty()
    } else {
        Seq::new(contents.len(), |i: int| dry_run_line(files[i], line_count(contents[i])))
    }) + dry_run_summary(
        files.len(),
        total_line_count(contents),
        event_filter,
        elapsed,
        quiet_mode,
    )
}

/// A dry run: counts the lines of each file, blank or not and event or not,
/// and decodes nothing. `contents` holds for each of `files`, in order, what
/// reading it gave: its text, or the reason why it could not be read.
pub fn execute_dry_run(
    files: &Vec<String>,
    contents: &Vec<Result<String, String>>,
    event_filter: &Option<String>,
    elapsed: &str,
    quiet_mode: bool,
) -> (r: Vec<String>)
    requires
        files@.len() == contents@.len(),
    ensures
        r.deep_view() == dry_run_output(
            files.deep_view(),
            contents@,
            *event_filter,
            elapsed@,
            quiet_mode,
        ),
{
    let n = files.len();
    let mut lines: Vec<String> = Vec::new();
    let mut total: u128 = 0;
    let mut i: usize = 0;
    let ghost names = files.deep_view();
    let ghost line_of = |i: int| dry_run_line(names[i], line_count(contents@[i]));
    assert(lines.deep_view() =~= Seq::<Seq<char>>::empty());
    while i < n
        invariant
            i <= n,
            n == files@.len(),
            n == contents@.len(),
            names == files.deep_view(),
            line_of == |i: int| dry_run_line(names[i], line_count(contents@[i])),
            total == total_line_count(contents@.take(i as int)),
            total <= i * 0xffff_ffff_ffff_ffff,
            lines.deep_view() == if quiet_mode {
                Seq::<Seq<char>>::empty()
            } else {
                Seq::new(i as nat, line_of)
            },
        decreases n - i,
    {
        let count: usize = match &contents[i] {
            Ok(text) => count_lines(text.as_str()),
            Err(_) => 0,
        };
        proof {
            assert(contents@.take(i + 1).drop_last() =~= contents@.take(i as int));
            assert(contents@.take(i + 1).last() == contents@[i as int]);
        }
        total = total + count as u128;
        if !quiet_mode {
            let name = quoted(files[i].as_str());
            let mut line = String::from_str("[Dry-run]: Would process file: ");
            line.append(name.as_str());
            line.append(", ");
            push_decimal(&mut line, count as u128);
            line.append(" lines");
            let ghost before = lines.deep_view();
            lines.push(line);
            proof {
                assert(names[i as int] == files@[i as int]@);
                assert(lines.deep_view() =~= before.push(line@));
                assert(Seq::new((i + 1) as nat, line_of) =~= Seq::new(i as nat, line_of).push(
                    line@,
                ));
            }
        }
        i += 1;
    }
    assert(contents@.take(n as int) =~= contents@);
    let ghost progress = lines.deep_view();
    let mut summary = print_summary_dry_run(n, total, event_filter, elapsed, quiet_mode);
    let ghost summary_view = summary.deep_view();
    lines.append(&mut summary);
    assert(lines.deep_view() =~= progress + summary_view);
    lines
}

/// What a run that decodes its files has in hand when all of them are done.
#[derive(Debug)]
pub struct NormalRun {
    /// The kept events of all files: file after file in the order of the
    /// files, and within a file in the order of its lines.
    pub events: Vec<GitHubEvent>,
    /// What the run has to say so far.
    pub messages: Vec<Message>,
}

/// What a run says of one file: that it takes it up; a warning for each
/// malformed line; and how many events it kept or why the file could not be
/// read. In quiet mode only the warnings and the failure are said.
pub open spec fn file_report(
    name: Seq<char>,
    file: Result<Vec<DecodedLine>, String>,
    event_filter: Option<String>,
    quiet_mode: bool,
) -> Seq<(Stream, Seq<char>)> {
    (if quiet_mode {
        Seq::empty()
    } else {
        seq![(Stream::Progress, "File processing: "@ + debug_text(name))]
    }) + (match file {
        Ok(lines) => on_stream(Stream::Diagnostic, line_warnings(decode_errors(lines@))) + (
        if quiet_mode {
            Seq::empty()
        } else {
            seq![
                (
                    Stream::Progress,
                    " -> Success: "@ + decimal(retained(lines@, event_filter).len())
                        + " events"@,
                ),
            ]
        }),
        Err(reason) => seq![
            (Stream::Diagnostic, " -> Error in file "@ + debug_text(name) + ": "@ + reason@),
        ],
    })
}

/// The kept events of a list of files. A file that could not be read
/// contributes none.
pub open spec fn gathered(
    decoded: Seq<Result<Vec<DecodedLine>, String>>,
    event_filter: Option<String>,
) -> Seq<GitHubEvent>
    decreases decoded.len(),
{
    if decoded.len() == 0 {
        Seq::empty()
    } else {
        gathered(decoded.drop_last(), event_filter) + (match decoded.last() {
            Ok(lines) => retained(lines@, event_filter),
            Err(_) => Seq::empty(),
        })
    }
}

/// What a run says of its first `n` files, file after file.
pub open spec fn progress(
    files: Seq<Seq<char>>,
    decoded: Seq<Result<Vec<DecodedLine>, String>>,
    event_filter: Option<String>,
    quiet_mode: bool,
    n: nat,
) -> Seq<(Stream, Seq<char>)>
    decreases n,
{
    if n == 0 {
        Seq::empty()
    } else {
        progress(files, decoded, event_filter, quiet_mode, (n - 1) as nat) + file_report(
            files[n - 1],
            decoded[n - 1],
            event_filter,
            quiet_mode,
        )
    }
}

/// The report on the counts by type. It is shown where it was asked for and
/// at least one event was kept.
pub open spec fn statistics(events: Seq<GitHubEvent>, show_stats: bool) -> Seq<
    (Stream, Seq<char>),
> {
    if show_stats && events.len() > 0 {
        on_stream(Stream::Progress, report(tally(events)))
    } else {
        Seq::empty()
    }
}

/// Gathers the kept events of all files and, where asked for, counts them by
/// type. `decoded` holds for each of `files`, in order, what reading and
/// decoding it gave: its lines, or the reason why it could not be read. A
/// file that could not be read is reported and contributes no event; it ends
/// neither the run nor the work on the other files.
pub fn execute_normal_run(
    files: &Vec<String>,
    decoded: Vec<Result<Vec<DecodedLine>, String>>,
    event_filter: &Option<String>,
    show_stats: bool,
    quiet_mode: bool,
) -> (r: NormalRun)
    requires
        files@.len() == decoded@.len(),
    ensures
        r.events@ == gathered(decoded@, *event_filter),
        r.messages.deep_view() == progress(
            files.deep_view(),
            decoded@,
            *event_filter,
            quiet_mode,
            decoded@.len(),
        ) + statistics(r.events@, show_stats),
{
    let ghost all = decoded@;
    let ghost names = files.deep_view();
    let mut events: Vec<GitHubEvent> = Vec::new();
    let mut messages: Vec<Message> = Vec::new();
    let mut i: usize = 0;
    let n = files.len();
    assert(messages.deep_view() =~= progress(names, all, *event_filter, quiet_mode, 0));
    assert(all.take(0) =~= Seq::empty());
    for file in it: decoded
        invariant
            it.seq() == all,
            all.len() == n,
            n == files@.len(),
            names == files.deep_view(),
            i == it.index(),
            events@ == gathered(all.take(it.index()), *event_filter),
            messages.deep_view() == progress(
                names,
                all,
                *event_filter,
                quiet_mode,
                it.index() as nat,
            ),
    {
        proof {
            assert(all.take(i + 1).drop_last() =~= all.take(i as int));
            assert(all.take(i + 1).last() == file);
            assert(names[i as int] == files@[i as int]@);
        }
        let ghost said = messages.deep_view();
        let ghost opening: Seq<(Stream, Seq<char>)> = if quiet_mode {
            Seq::empty()
        } else {
            seq![(Stream::Progress, "File processing: "@ + debug_text(names[i as int]))]
        };
        let name = quoted(files[i].as_str());
        if !quiet_mode {
            messages.push(
                Message { stream: Stream::Progress, text: labelled("File processing: ", name.as_str()) },
            );
        }
        assert(messages.deep_view() =~= said + opening);
        match file {
            Ok(lines) => {
                let batch = receive_lines(lines, event_filter);
                let mut kept = batch.events;
                let count = kept.len();
                events.append(&mut kept);
                push_lines(&mut messages, Stream::Diagnostic, warnings_of(&batch.errors));
                let ghost warned = messages.deep_view();
                assert(warned == said + opening + on_stream(
                    Stream::Diagnostic,
                    line_warnings(decode_errors(lines@)),
                ));
                let ghost closing: Seq<(Stream, Seq<char>)> = if quiet_mode {
                    Seq::empty()
                } else {
                    seq![
                        (
                            Stream::Progress,
                            " -> Success: "@ + decimal(count as nat) + " events"@,
                        ),
                    ]
                };
                if !quiet_mode {
                    let mut line = numbered(" -> Success: ", count as u128);
                    line.append(" events");
                    messages.push(Message { stream: Stream::Progress, text: line });
                }
                assert(messages.deep_view() =~= warned + closing);
                assert(messages.deep_view() =~= said + (opening + (on_stream(
                    Stream::Diagnostic,
                    line_warnings(decode_errors(lines@)),
                ) + closing)));
            },
            Err(reason) => {
                let mut line = labelled(" -> Error in file ", name.as_str());
                line.append(": ");
                line.append(reason.as_str());
                messages.push(Message { stream: Stream::Diagnostic, text: line });
                assert(messages.deep_view() =~= said + (opening + seq![
                    (Stream::Diagnostic, line@),
                ]));
                assert(events@ + Seq::<GitHubEvent>::empty() =~= events@);
            },
        }
        i += 1;
    }
    assert(all.take(all.len() as int) =~= all);
    if show_stats && events.len() > 0 {
        let counts = count_events(events.as_slice());
        push_lines(&mut messages, Stream::Progress, print_stats(&counts));
    } else {
        assert(messages.deep_view() + Seq::<(Stream, Seq<char>)>::empty()
            =~= messages.deep_view());
    }
    NormalRun { events, messages }
}

/// Begins a run over the folder at `folder_path`. The filter is checked
/// before anything else: a filter that names no event type ends the run at
/// once, and no folder and no file is read for it. Otherwise the first thing
/// asked for is the listing of the folder.
pub fn check_folder(
    folder_path: &str,
    dry_run: bool,
    show_stats: bool,
    event_filter: Option<String>,
    output_file: Option<String>,
    quiet_mode: bool,
) -> (turn: Turn)
    ensures
        turn.pipeline.config.path_to_data@ == folder_path@,
        turn.pipeline.config.dry_run == dry_run,
        turn.pipeline.config.show_stats == show_stats,
        turn.pipeline.config.event_type_filter == event_filter,
        turn.pipeline.config.output_file == output_file,
        turn.pipeline.config.quiet_mode == quiet_mode,
        turn.deep_view() == first_turn(turn.pipeline.config),
        turn.pipeline.wf(),
{
    Pipeline::start(
        Config {
            path_to_data: String::from_str(folder_path),
            dry_run,
            show_stats,
            event_type_filter: event_filter,
            output_file,
            quiet_mode,
        },
    )
}

/// The number of lines that are not blank.
pub open spec fn non_blank_count(lines: Seq<DecodedLine>) -> nat
    decreases lines.len(),
{
    if lines.len() == 0 {
        0
    } else if is_blank(lines.last().text@) {
        non_blank_count(lines.drop_last())
    } else {
        non_blank_count(lines.drop_last()) + 1
    }
}

/// The number of lines that decode to an event of the type called `name`.
pub open spec fn typed_count(lines: Seq<DecodedLine>, name: Seq<char>) -> nat
    decreases lines.len(),
{
    if lines.len() == 0 {
        0
    } else if !is_blank(lines.last().text@) && lines.last().decoded is Ok
        && lines.last().decoded->Ok_0.event_type.name() == name {
        typed_count(lines.drop_last(), name) + 1
    } else {
        typed_count(lines.drop_last(), name)
    }
}

/// Whether every line that is not blank decodes to an event.
pub open spec fn all_decode(lines: Seq<DecodedLine>) -> bool {
    forall|i: int| 0 <= i < lines.len() ==> !(#[trigger] lines[i]).malformed()
}

/// Where every line of a file that is not blank is an event and no filter is
/// set, the file yields as many events as it has lines that are not blank,
/// and no error.
pub proof fn lemma_well_formed_file(lines: Seq<DecodedLine>)
    requires
        all_decode(lines),
    ensures
        retained(lines, None).len() == non_blank_count(lines),
        decode_errors(lines).len() == 0,
    decreases lines.len(),
{
    if lines.len() > 0 {
        assert(!lines[lines.len() - 1].malformed());
        assert forall|i: int| 0 <= i < lines.drop_last().len() implies !(
        #[trigger] lines.drop_last()[i]).malformed() by {
            assert(!lines[i].malformed());
        }
        lemma_well_formed_file(lines.drop_last());
    }
}

/// The number of lines that are not blank in all files together; a file that
/// could not be read has none.
pub open spec fn total_non_blank(decoded: Seq<Result<Vec<DecodedLine>, String>>) -> nat
    decreases decoded.len(),
{
    if decoded.len() == 0 {
        0
    } else {
        total_non_blank(decoded.drop_last()) + (match decoded.last() {
            Ok(lines) => non_blank_count(lines@),
            Err(_) => 0,
        })
    }
}

/// Where every line of every file that is not blank is an event and no
/// filter is set, a run keeps as many events as the files together have
/// lines that are not blank.
pub proof fn lemma_well_formed_folder(decoded: Seq<Result<Vec<DecodedLine>, String>>)
    requires
        forall|f: int|
            0 <= f < decoded.len() ==> (#[trigger] decoded[f]) is Ok && all_decode(
                decoded[f]->Ok_0@,
            ),
    ensures
        gathered(decoded, None).len() == total_non_blank(decoded),
    decreases decoded.len(),
{
    if decoded.len() > 0 {
        assert(decoded[decoded.len() - 1] is Ok);
        assert forall|f: int| 0 <= f < decoded.drop_last().len() implies (
        #[trigger] decoded.drop_last()[f]) is Ok && all_decode(decoded.drop_last()[f]->Ok_0@) by {
            assert(decoded[f] is Ok);
        }
        lemma_well_formed_folder(decoded.drop_last());
        lemma_well_formed_file(decoded.last()->Ok_0@);
    }
}

/// With a filter on the type called `name`, a file yields as many events as
/// it has lines that decode to an event of that type.
pub proof fn lemma_filtered_file(lines: Seq<DecodedLine>, filter: String)
    ensures
        retained(lines, Some(filter)).len() == typed_count(lines, filter@),
    decreases lines.len(),
{
    if lines.len() > 0 {
        lemma_filtered_file(lines.drop_last(), filter);
    }
}

/// The number of lines in all files together that decode to an event of the
/// type called `name`.
pub open spec fn total_typed(decoded: Seq<Result<Vec<DecodedLine>, String>>, name: Seq<char>) -> nat
    decreases decoded.len(),
{
    if decoded.len() == 0 {
        0
    } else {
        total_typed(decoded.drop_last(), name) + (match decoded.last() {
            Ok(lines) => typed_count(lines@, name),
            Err(_) => 0,
        })
    }
}

/// With a filter on the type called `name`, a run keeps as many events as
/// the files together have lines that decode to an event of that type.
pub proof fn lemma_filtered_folder(
    decoded: Seq<Result<Vec<DecodedLine>, String>>,
    filter: String,
)
    ensures
        gathered(decoded, Some(filter)).len() == total_typed(decoded, filter@),
    decreases decoded.len(),
{
    if decoded.len() > 0 {
        lemma_filtered_folder(decoded.drop_last(), filter);
        if decoded.last() is Ok {
            lemma_filtered_file(decoded.last()->Ok_0@, filter);
        }
    }
}

/// A blank line counts for nothing: with one more blank line at any place, a
/// file yields the same events and as many errors as without it, whatever
/// decoding the blank line may have given.
pub proof fn lemma_blank_line_counts_for_nothing(
    lines: Seq<DecodedLine>,
    at: int,
    blank: DecodedLine,
    filter: Option<String>,
)
    requires
        0 <= at <= lines.len(),
        is_blank(blank.text@),
    ensures
        retained(lines.insert(at, blank), filter) == retained(lines, filter),
        decode_errors(lines.insert(at, blank)).len() == decode_errors(lines).len(),
    decreases lines.len(),
{
    let more = lines.insert(at, blank);
    if at == lines.len() {
        assert(more.drop_last() =~= lines);
    } else {
        assert(more.drop_last() =~= lines.drop_last().insert(at, blank));
        assert(more.last() == lines.last());
        lemma_blank_line_counts_for_nothing(lines.drop_last(), at, blank, filter);
    }
}

/// One malformed line among lines that are events costs that line and
/// nothing else: with no filter set the file yields an event for every other
/// line, and one error, which names the line and gives the reason.
pub proof fn lemma_single_malformed_line(lines: Seq<DecodedLine>, at: int)
    requires
        0 <= at < lines.len(),
        lines[at].malformed(),
        forall|i: int|
            0 <= i < lines.len() && i != at ==> !is_blank((#[trigger] lines[i]).text@)
                && lines[i].decoded is Ok,
    ensures
        retained(lines, None).len() == lines.len() - 1,
        decode_errors(lines) == seq![((at + 1) as nat, lines[at].decoded->Err_0@)],
    decreases lines.len(),
{
    let rest = lines.drop_last();
    if at == lines.len() - 1 {
        assert forall|i: int| 0 <= i < rest.len() implies !(#[trigger] rest[i]).malformed() by {
            assert(!is_blank(lines[i].text@) && lines[i].decoded is Ok);
        }
        lemma_well_formed_file(rest);
        lemma_non_blank_file(rest);
        assert(decode_errors(rest) =~= Seq::<(nat, Seq<char>)>::empty());
        assert(decode_errors(lines) =~= seq![((at + 1) as nat, lines[at].decoded->Err_0@)]);
    } else {
        assert(!is_blank(lines[lines.len() - 1].text@) && lines[lines.len() - 1].decoded is Ok);
        assert forall|i: int| 0 <= i < rest.len() && i != at implies !is_blank(
            (#[trigger] rest[i]).text@,
        ) && rest[i].decoded is Ok by {
            assert(!is_blank(lines[i].text@) && lines[i].decoded is Ok);
        }
        assert(rest[at] == lines[at]);
        lemma_single_malformed_line(rest, at);
    }
}

/// A file without blank lines has as many lines that are not blank as it has
/// lines.
proof fn lemma_non_blank_file(lines: Seq<DecodedLine>)
    requires
        forall|i: int| 0 <= i < lines.len() ==> !is_blank((#[trigger] lines[i]).text@),
    ensures
        non_blank_count(lines) == lines.len(),
    decreases lines.len(),
{
    if lines.len() > 0 {
        assert(!is_blank(lines[lines.len() - 1].text@));
        assert forall|i: int| 0 <= i < lines.drop_last().len() implies !is_blank(
            (#[trigger] lines.drop_last()[i]).text@,
        ) by {
            assert(!is_blank(lines[i].text@));
        }
        lemma_non_blank_file(lines.drop_last());
    }
}

/// The files of a run come in ascending order of key, files with the same
/// key in the order of the listing; each input file of the listing is among
/// them as often as it is listed, and nothing else is.
pub proof fn lemma_located(listing: Seq<Result<FolderEntry, String>>)
    ensures
        forall|i: int, j: int|
            0 <= i <= j < located(listing).len() ==> sort_key(located(listing)[i]) <= sort_key(
                located(listing)[j],
            ),
        forall|key: int|
            with_key(located(listing), by_sort_key(), key) == #[trigger] with_key(
                input_names(listing),
                by_sort_key(),
                key,
            ),
        located(listing).to_multiset() == input_names(listing).to_multiset(),
{
    let names = input_names(listing);
    lemma_stable_sorted_ascends(names, by_sort_key());
    lemma_stable_sorted_permutes(names, by_sort_key());
    assert forall|i: int, j: int| 0 <= i <= j < located(listing).len() implies sort_key(
        located(listing)[i],
    ) <= sort_key(located(listing)[j]) by {
        assert(by_sort_key()(located(listing)[i]) <= by_sort_key()(located(listing)[j]));
    }
    assert forall|key: int|
        with_key(located(listing), by_sort_key(), key) == #[trigger] with_key(
            names,
            by_sort_key(),
            key,
        ) by {
        lemma_stable_sorted_keeps_order(names, by_sort_key(), key);
    }
}

/// A file that could not be read counts for nothing: with one more such file
/// at any place, a run keeps the same events in the same order.
pub proof fn lemma_unreadable_file_counts_for_nothing(
    decoded: Seq<Result<Vec<DecodedLine>, String>>,
    at: int,
    reason: String,
    filter: Option<String>,
)
    requires
        0 <= at <= decoded.len(),
    ensures
        gathered(decoded.insert(at, Err(reason)), filter) == gathered(decoded, filter),
    decreases decoded.len(),
{
    let more = decoded.insert(at, Err(reason));
    if at == decoded.len() {
        assert(more.drop_last() =~= decoded);
        assert(gathered(decoded, filter) + Seq::<GitHubEvent>::empty() =~= gathered(
            decoded,
            filter,
        ));
    } else {
        assert(more.drop_last() =~= decoded.drop_last().insert(at, Err(reason)));
        assert(more.last() == decoded.last());
        lemma_unreadable_file_counts_for_nothing(decoded.drop_last(), at, reason, filter);
    }
}

/// The texts of the messages that go to the diagnostic stream, in order.
pub open spec fn diagnostics(messages: Seq<(Stream, Seq<char>)>) -> Seq<Seq<char>>
    decreases messages.len(),
{
    if messages.len() == 0 {
        Seq::empty()
    } else if messages.last().0 == Stream::Diagnostic {
        diagnostics(messages.drop_last()).push(messages.last().1)
    } else {
        diagnostics(messages.drop_last())
    }
}

/// The diagnostics of two lists of messages, one behind the other, are those
/// of the first and then those of the second.
pub proof fn lemma_diagnostics_of_both(
    first: Seq<(Stream, Seq<char>)>,
    second: Seq<(Stream, Seq<char>)>,
)
    ensures
        diagnostics(first + second) == diagnostics(first) + diagnostics(second),
    decreases second.len(),
{
    if second.len() == 0 {
        assert(first + second =~= first);
        assert(diagnostics(first) + diagnostics(second) =~= diagnostics(first));
    } else {
        lemma_diagnostics_of_both(first, second.drop_last());
        assert((first + second).drop_last() =~= first + second.drop_last());
        assert((first + second).last() == second.last());
        assert(diagnostics(first + second) =~= diagnostics(first) + diagnostics(second));
    }
}

/// Lines sent to the diagnostic stream are all diagnostics; lines sent to the
/// other stream are none.
pub proof fn lemma_diagnostics_on_stream(stream: Stream, lines: Seq<Seq<char>>)
    ensures
        diagnostics(on_stream(stream, lines)) == if stream == Stream::Diagnostic {
            lines
        } else {
            Seq::empty()
        },
    decreases lines.len(),
{
    if lines.len() > 0 {
        lemma_diagnostics_on_stream(stream, lines.drop_last());
        assert(on_stream(stream, lines).drop_last() =~= on_stream(stream, lines.drop_last()));
        assert(on_stream(stream, lines).last() == (stream, lines.last()));
        assert(lines.drop_last().push(lines.last()) =~= lines);
    } else {
        assert(lines =~= Seq::<Seq<char>>::empty());
    }
}

/// One message is a diagnostic or it is not.
proof fn lemma_diagnostics_of_one(stream: Stream, text: Seq<char>)
    ensures
        diagnostics(seq![(stream, text)]) == if stream == Stream::Diagnostic {
            seq![text]
        } else {
            Seq::empty()
        },
{
    let one = seq![(stream, text)];
    assert(one.drop_last() =~= Seq::<(Stream, Seq<char>)>::empty());
    assert(diagnostics(one.drop_last()) =~= Seq::<Seq<char>>::empty());
    assert(Seq::<Seq<char>>::empty().push(text) =~= seq![text]);
}

/// What went wrong with a file: the warnings for its malformed lines, or the
/// reason why it could not be read.
pub open spec fn file_diagnostics(name: Seq<char>, file: Result<Vec<DecodedLine>, String>) -> Seq<
    Seq<char>,
> {
    match file {
        Ok(lines) => line_warnings(decode_errors(lines@)),
        Err(reason) => seq![" -> Error in file "@ + debug_text(name) + ": "@ + reason@],
    }
}

/// What went wrong with a file is said in quiet mode as it is said
/// otherwise, and whatever the filter.
pub proof fn lemma_file_report_diagnostics(
    name: Seq<char>,
    file: Result<Vec<DecodedLine>, String>,
    event_filter: Option<String>,
    quiet_mode: bool,
)
    ensures
        diagnostics(file_report(name, file, event_filter, quiet_mode)) == file_diagnostics(
            name,
            file,
        ),
{
    let opening: Seq<(Stream, Seq<char>)> = if quiet_mode {
        Seq::empty()
    } else {
        seq![(Stream::Progress, "File processing: "@ + debug_text(name))]
    };
    assert(diagnostics(opening) =~= Seq::<Seq<char>>::empty()) by {
        if !quiet_mode {
            lemma_diagnostics_of_one(Stream::Progress, "File processing: "@ + debug_text(name));
        }
    }
    match file {
        Ok(lines) => {
            let warnings = on_stream(Stream::Diagnostic, line_warnings(decode_errors(lines@)));
            let closing: Seq<(Stream, Seq<char>)> = if quiet_mode {
                Seq::empty()
            } else {
                seq![
                    (
                        Stream::Progress,
                        " -> Success: "@ + decimal(retained(lines@, event_filter).len())
                            + " events"@,
                    ),
                ]
            };
            assert(diagnostics(closing) =~= Seq::<Seq<char>>::empty()) by {
                if !quiet_mode {
                    lemma_diagnostics_of_one(
                        Stream::Progress,
                        " -> Success: "@ + decimal(retained(lines@, event_filter).len())
                            + " events"@,
                    );
                }
            }
            lemma_diagnostics_on_stream(
                Stream::Diagnostic,
                line_warnings(decode_errors(lines@)),
            );
            lemma_diagnostics_of_both(warnings, closing);
            lemma_diagnostics_of_both(opening, warnings + closing);
            assert(diagnostics(file_report(name, file, event_filter, quiet_mode))
                =~= line_warnings(decode_errors(lines@)));
        },
        Err(reason) => {
            let failure = seq![
                (Stream::Diagnostic, " -> Error in file "@ + debug_text(name) + ": "@ + reason@),
            ];
            lemma_diagnostics_of_one(
                Stream::Diagnostic,
                " -> Error in file "@ + debug_text(name) + ": "@ + reason@,
            );
            lemma_diagnostics_of_both(opening, failure);
            assert(diagnostics(file_report(name, file, event_filter, quiet_mode))
                =~= file_diagnostics(name, file));
        },
    }
}

/// What went wrong with the files of a run is said in quiet mode as it is
/// said otherwise.
pub proof fn lemma_progress_diagnostics(
    files: Seq<Seq<char>>,
    decoded: Seq<Result<Vec<DecodedLine>, String>>,
    event_filter: Option<String>,
    n: nat,
)
    ensures
        diagnostics(progress(files, decoded, event_filter, true, n)) == diagnostics(
            progress(files, decoded, event_filter, false, n),
        ),
    decreases n,
{
    if n > 0 {
        let before = (n - 1) as nat;
        lemma_progress_diagnostics(files, decoded, event_filter, before);
        lemma_file_report_diagnostics(files[n - 1], decoded[n - 1], event_filter, true);
        lemma_file_report_diagnostics(files[n - 1], decoded[n - 1], event_filter, false);
        lemma_diagnostics_of_both(
            progress(files, decoded, event_filter, true, before),
            file_report(files[n - 1], decoded[n - 1], event_filter, true),
        );
        lemma_diagnostics_of_both(
            progress(files, decoded, event_filter, false, before),
            file_report(files[n - 1], decoded[n - 1], event_filter, false),
        );
    }
}

} // verus!
