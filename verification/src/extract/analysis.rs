//! Counting the kept events by type, and the report of the counts.

use vstd::prelude::*;
use vstd::string::*;
use crate::extract::filters::event_type_to_str;
use crate::model::github::{EventType, GitHubEvent};
use crate::stable_sort::{
    insert_by_key, insertion_point, key_values, lemma_insertion_point,
    lemma_stable_sorted_ascends, lemma_stable_sorted_keeps_order, lemma_stable_sorted_permutes,
    stable_sorted, with_key,
};
use crate::text::{
    decimal, pad_left, pad_right, push_decimal, push_padded_left, push_padded_right, str_eq,
};

verus! {

/// How often events of one type occurred.
#[derive(Debug, Clone, Copy)]
pub struct TypeCount {
    pub event_type: EventType,
    pub count: usize,
}

/// The number of events of each type that occurred at least once, the types
/// in the order in which each was first met.
#[derive(Debug)]
pub struct EventTypeCount {
    rows: Vec<TypeCount>,
}

/// How many of `events` are of type `t`.
pub open spec fn occurrences(events: Seq<GitHubEvent>, t: EventType) -> nat
    decreases events.len(),
{
    if events.len() == 0 {
        0
    } else if events.last().event_type == t {
        occurrences(events.drop_last(), t) + 1
    } else {
        occurrences(events.drop_last(), t)
    }
}

/// The types that occur among `events`, each once, in the order of their
/// first occurrence.
pub open spec fn first_seen(events: Seq<GitHubEvent>) -> Seq<EventType>
    decreases events.len(),
{
    if events.len() == 0 {
        Seq::empty()
    } else if first_seen(events.drop_last()).contains(events.last().event_type) {
        first_seen(events.drop_last())
    } else {
        first_seen(events.drop_last()).push(events.last().event_type)
    }
}

/// Each of `types` with the number of its occurrences among `events`.
pub open spec fn counted(types: Seq<EventType>, events: Seq<GitHubEvent>) -> Seq<
    (EventType, nat),
> {
    types.map_values(|t: EventType| (t, occurrences(events, t)))
}

/// The count of `events` by type.
pub open spec fn tally(events: Seq<GitHubEvent>) -> Seq<(EventType, nat)> {
    counted(first_seen(events), events)
}

/// The sum of the counts of `rows`.
pub open spec fn total(rows: Seq<(EventType, nat)>) -> nat
    decreases rows.len(),
{
    if rows.len() == 0 {
        0
    } else {
        total(rows.drop_last()) + rows.last().1
    }
}

/// The count that `rows` holds for the type called `name`, if it holds one.
pub open spec fn lookup(rows: Seq<(EventType, nat)>, name: Seq<char>) -> Option<nat>
    decreases rows.len(),
{
    if rows.len() == 0 {
        None
    } else if rows.last().0.name() == name {
        Some(rows.last().1)
    } else {
        lookup(rows.drop_last(), name)
    }
}

/// No type is counted more often than there are events.
pub proof fn lemma_occurrences_bounded(events: Seq<GitHubEvent>, t: EventType)
    ensures
        occurrences(events, t) <= events.len(),
    decreases events.len(),
{
    if events.len() > 0 {
        lemma_occurrences_bounded(events.drop_last(), t);
    }
}

/// `first_seen` lists each type once, and lists exactly the types that
/// occur.
pub proof fn lemma_first_seen(events: Seq<GitHubEvent>)
    ensures
        first_seen(events).no_duplicates(),
        forall|t: EventType| first_seen(events).contains(t) <==> occurrences(events, t) > 0,
    decreases events.len(),
{
    if events.len() > 0 {
        let before = first_seen(events.drop_last());
        let last = events.last().event_type;
        lemma_first_seen(events.drop_last());
        assert forall|t: EventType| first_seen(events).contains(t) <==> occurrences(events, t)
            > 0 by {
            if !before.contains(last) {
                if t == last {
                    assert(before.push(last)[before.len() as int] == last);
                } else if before.contains(t) {
                    let i = choose|i: int| 0 <= i < before.len() && before[i] == t;
                    assert(before.push(last)[i] == t);
                }
            }
        }
    }
}

/// One more event adds one to the sum over a list of distinct types if its
/// type is among them, and nothing otherwise.
proof fn lemma_total_grows(types: Seq<EventType>, events: Seq<GitHubEvent>, event: GitHubEvent)
    requires
        types.no_duplicates(),
    ensures
        total(counted(types, events.push(event))) == total(counted(types, events)) + if types.contains(
            event.event_type,
        ) {
            1nat
        } else {
            0
        },
    decreases types.len(),
{
    let more = events.push(event);
    assert(more.drop_last() =~= events);
    if types.len() > 0 {
        let rest = types.drop_last();
        lemma_total_grows(rest, events, event);
        assert(counted(types, more).drop_last() =~= counted(rest, more));
        assert(counted(types, events).drop_last() =~= counted(rest, events));
        if types.last() == event.event_type {
            assert(!rest.contains(event.event_type)) by {
                if rest.contains(event.event_type) {
                    let i = choose|i: int| 0 <= i < rest.len() && rest[i] == event.event_type;
                    assert(types[i] == types[types.len() - 1]);
                }
            }
        } else if rest.contains(event.event_type) {
            let i = choose|i: int| 0 <= i < rest.len() && rest[i] == event.event_type;
            assert(types[i] == event.event_type);
        } else if types.contains(event.event_type) {
            let i = choose|i: int| 0 <= i < types.len() && types[i] == event.event_type;
            assert(rest[i] == event.event_type);
        }
    }
}

/// Every event is counted once: the counts add up to the number of events.
pub proof fn lemma_tally_total(events: Seq<GitHubEvent>)
    ensures
        total(tally(events)) == events.len(),
    decreases events.len(),
{
    if events.len() > 0 {
        let before = events.drop_last();
        let types = first_seen(before);
        let last = events.last();
        assert(before.push(last) =~= events);
        lemma_tally_total(before);
        lemma_first_seen(before);
        lemma_total_grows(types, before, last);
        if !types.contains(last.event_type) {
            assert(counted(types.push(last.event_type), events).drop_last() =~= counted(
                types,
                events,
            ));
        }
    }
}

impl View for EventTypeCount {
    type V = Seq<(EventType, nat)>;

    /// The counted types with their counts, in the order in which each type
    /// was first met.
    closed spec fn view(&self) -> Seq<(EventType, nat)> {
        self.rows@.map_values(|row: TypeCount| (row.event_type, row.count as nat))
    }
}

impl EventTypeCount {
    /// No type has two rows, no row counts nothing, and the sum of the counts
    /// is a machine number.
    pub open spec fn wf(self) -> bool {
        &&& forall|i: int, j: int| 0 <= i < j < self@.len() ==> self@[i].0 != self@[j].0
        &&& forall|i: int| 0 <= i < self@.len() ==> self@[i].1 > 0
        &&& total(self@) <= usize::MAX
    }

    /// The number of types counted.
    pub fn len(&self) -> (r: usize)
        ensures
            r == self@.len(),
    {
        self.rows.len()
    }

    /// The rows of the count, in the order in which each type was first met.
    pub fn rows(&self) -> (r: Vec<TypeCount>)
        ensures
            r@.len() == self@.len(),
            forall|i: int|
                0 <= i < r@.len() ==> self@[i] == (r@[i].event_type, r@[i].count as nat),
    {
        let mut out: Vec<TypeCount> = Vec::new();
        let mut i: usize = 0;
        while i < self.rows.len()
            invariant
                i <= self.rows@.len(),
                out@ == self.rows@.take(i as int),
            decreases self.rows@.len() - i,
        {
            out.push(self.rows[i]);
            assert(self.rows@.take(i + 1) =~= self.rows@.take(i as int).push(self.rows@[i as int]));
            i += 1;
        }
        assert(self.rows@.take(i as int) =~= self.rows@);
        out
    }

    /// The count of the type called `event_type`, if events of it were
    /// counted.
    pub fn get(&self, event_type: &str) -> (r: Option<usize>)
        ensures
            match lookup(self@, event_type@) {
                Some(count) => r == Some(count as usize) && count <= usize::MAX,
                None => r is None,
            },
    {
        let mut i: usize = self.rows.len();
        assert(self@.take(i as int) =~= self@);
        while i > 0
            invariant
                i <= self.rows@.len(),
                lookup(self@, event_type@) == lookup(self@.take(i as int), event_type@),
            decreases i,
        {
            let row = self.rows[i - 1];
            proof {
                assert(self@.take(i as int).last() == (row.event_type, row.count as nat));
                assert(self@.take(i as int).drop_last() =~= self@.take(i - 1));
            }
            if str_eq(event_type_to_str(&row.event_type), event_type) {
                return Some(row.count);
            }
            i -= 1;
        }
        None
    }
}

/// Counts events by type.
pub fn count_events(events: &[GitHubEvent]) -> (r: EventTypeCount)
    ensures
        r@ == tally(events@),
        r.wf(),
{
    let mut rows: Vec<TypeCount> = Vec::new();
    let ghost view_of = |row: TypeCount| (row.event_type, row.count as nat);
    let n = events.len();
    let mut i: usize = 0;
    assert(rows@.map_values(view_of) =~= tally(events@.take(0)));
    while i < n
        invariant
            i <= n,
            n == events@.len(),
            view_of == |row: TypeCount| (row.event_type, row.count as nat),
            rows@.map_values(view_of) == tally(events@.take(i as int)),
        decreases n - i,
    {
        let t = events[i].event_type;
        let ghost seen = events@.take(i as int);
        let ghost next = events@.take(i + 1);
        proof {
            assert(next.drop_last() =~= seen);
            assert(next.last() == events@[i as int]);
            lemma_first_seen(seen);
            lemma_occurrences_bounded(seen, t);
            assert(tally(seen).len() == first_seen(seen).len());
            assert(rows@.map_values(view_of).len() == rows@.len());
        }
        let mut j: usize = 0;
        while j < rows.len() && rows[j].event_type != t
            invariant
                j <= rows@.len(),
                forall|k: int| 0 <= k < j ==> rows@[k].event_type != t,
            decreases rows@.len() - j,
        {
            j += 1;
        }
        if j < rows.len() {
            let row = rows[j];
            proof {
                assert(rows@.map_values(view_of)[j as int] == view_of(row));
                assert(tally(seen)[j as int] == (
                    first_seen(seen)[j as int],
                    occurrences(seen, first_seen(seen)[j as int]),
                ));
                assert(first_seen(seen)[j as int] == t);
                assert(row.count == occurrences(seen, t));
            }
            let ghost before = rows@;
            rows.set(j, TypeCount { event_type: t, count: row.count + 1 });
            proof {
                assert(first_seen(next) == first_seen(seen));
                assert forall|k: int| 0 <= k < rows@.len() implies rows@.map_values(view_of)[k]
                    == tally(next)[k] by {
                    assert(before.map_values(view_of)[k] == tally(seen)[k]);
                    if k != j {
                        assert(first_seen(seen)[k] != first_seen(seen)[j as int]);
                    }
                }
                assert(rows@.map_values(view_of) =~= tally(next));
            }
        } else {
            let ghost before = rows@;
            proof {
                assert(!first_seen(seen).contains(t)) by {
                    if first_seen(seen).contains(t) {
                        let k = choose|k: int|
                            0 <= k < first_seen(seen).len() && first_seen(seen)[k] == t;
                        assert(before.map_values(view_of)[k] == tally(seen)[k]);
                    }
                }
            }
            rows.push(TypeCount { event_type: t, count: 1 });
            proof {
                assert forall|k: int| 0 <= k < rows@.len() implies rows@.map_values(view_of)[k]
                    == tally(next)[k] by {
                    if k < before.len() {
                        assert(before.map_values(view_of)[k] == tally(seen)[k]);
                        assert(first_seen(seen).contains(first_seen(seen)[k]));
                    }
                }
                assert(rows@.map_values(view_of) =~= tally(next));
            }
        }
        i += 1;
    }
    let r = EventTypeCount { rows };
    proof {
        assert(events@.take(n as int) =~= events@);
        assert(r@ =~= rows@.map_values(view_of));
        lemma_first_seen(events@);
        lemma_tally_total(events@);
        assert forall|a: int| 0 <= a < r@.len() implies r@[a].1 > 0 by {
            assert(first_seen(events@).contains(first_seen(events@)[a]));
        }
    }
    r
}

/// One row of the report: the name in a column of 30 characters, a bar, and
/// the count at the right of a column of 7.
pub open spec fn report_row(name: Seq<char>, count: nat) -> Seq<char> {
    pad_right(name, 30) + " | "@ + pad_left(decimal(count), 7)
}

/// The key that puts the rows of the report in order: a greater count comes
/// first.
pub open spec fn by_count_descending() -> spec_fn((EventType, nat)) -> int {
    |row: (EventType, nat)| -(row.1 as int)
}

/// The rows of a count in the order of the report: by descending count, and
/// types with the same count in the order in which each was first met.
pub open spec fn ranked(rows: Seq<(EventType, nat)>) -> Seq<(EventType, nat)> {
    stable_sorted(rows, by_count_descending())
}

/// The lines of the report on a count: a heading, one row for each type in
/// ranked order, a rule, the row of the total, and a closing rule; an empty
/// line before and behind.
pub open spec fn report(rows: Seq<(EventType, nat)>) -> Seq<Seq<char>> {
    seq![""@, "=========== EVENT ANALYTICS ============"@] + ranked(rows).map_values(
        |row: (EventType, nat)| report_row(row.0.name(), row.1),
    ) + seq![
        "----------------------------------------"@,
        report_row("TOTAL"@, total(rows)),
        "========================================"@,
        ""@,
    ]
}

/// The sum of the first rows is at most the sum of all.
proof fn lemma_total_of_prefix(rows: Seq<(EventType, nat)>, k: int)
    requires
        0 <= k <= rows.len(),
    ensures
        total(rows.take(k)) <= total(rows),
    decreases rows.len() - k,
{
    if k < rows.len() {
        lemma_total_of_prefix(rows, k + 1);
        assert(rows.take(k + 1).drop_last() =~= rows.take(k));
    } else {
        assert(rows.take(k) =~= rows);
    }
}

fn row_text(name: &str, count: usize) -> (r: String)
    ensures
        r@ == report_row(name@, count as nat),
{
    let mut number = String::new();
    push_decimal(&mut number, count as u128);
    assert(number@ =~= decimal(count as nat));
    let mut line = String::new();
    push_padded_right(&mut line, name, 30);
    line.append(" | ");
    push_padded_left(&mut line, number.as_str(), 7);
    assert(line@ =~= report_row(name@, count as nat));
    line
}

/// The report on a count, line by line.
pub fn print_stats(counts: &EventTypeCount) -> (r: Vec<String>)
    requires
        counts.wf(),
    ensures
        r.deep_view() == report(counts@),
{
    let ghost view_of = |row: TypeCount| (row.event_type, row.count as nat);
    let n = counts.rows.len();
    let mut keys: Vec<i128> = Vec::new();
    let mut sorted: Vec<TypeCount> = Vec::new();
    let mut sum: usize = 0;
    let mut i: usize = 0;
    assert(sorted@.map_values(view_of) =~= ranked(counts@.take(0)));
    assert(key_values(keys@) =~= ranked(counts@.take(0)).map_values(by_count_descending()));
    while i < n
        invariant
            i <= n,
            n == counts.rows@.len(),
            counts@ == counts.rows@.map_values(view_of),
            total(counts@) <= usize::MAX,
            keys@.len() == sorted@.len(),
            sorted@.map_values(view_of) == ranked(counts@.take(i as int)),
            key_values(keys@) == ranked(counts@.take(i as int)).map_values(
                by_count_descending(),
            ),
            sum == total(counts@.take(i as int)),
        decreases n - i,
    {
        let row = counts.rows[i];
        let ghost before = sorted@;
        let ghost keys_before = keys@;
        let ghost at = insertion_point(
            key_values(keys@),
            -(row.count as int),
        );
        proof {
            lemma_insertion_point(key_values(keys@), -(row.count as int));
            assert(counts@.take(i + 1).drop_last() =~= counts@.take(i as int));
            assert(counts@.take(i + 1).last() == view_of(row));
            lemma_total_of_prefix(counts@, i + 1);
        }
        insert_by_key(&mut keys, &mut sorted, -(row.count as i128), row);
        sum = sum + row.count;
        proof {
            let ranked_before = ranked(counts@.take(i as int));
            assert(sorted@.map_values(view_of) =~= ranked_before.insert(at, view_of(row)));
            assert forall|j: int| 0 <= j < keys@.len() implies key_values(keys@)[j] == sorted@.map_values(
                view_of,
            ).map_values(by_count_descending())[j] by {
                if j < at {
                    assert(key_values(keys_before)[j] == ranked_before.map_values(
                        by_count_descending(),
                    )[j]);
                } else if j > at {
                    assert(key_values(keys_before)[j - 1] == ranked_before.map_values(
                        by_count_descending(),
                    )[j - 1]);
                }
            }
            assert(key_values(keys@) =~= sorted@.map_values(view_of).map_values(
                by_count_descending(),
            ));
        }
        i += 1;
    }
    assert(counts@.take(n as int) =~= counts@);
    let mut lines: Vec<String> = Vec::new();
    lines.push(String::from_str(""));
    lines.push(String::from_str("=========== EVENT ANALYTICS ============"));
    let ghost head = lines.deep_view();
    assert(head =~= seq![""@, "=========== EVENT ANALYTICS ============"@]);
    let ghost row_line = |row: (EventType, nat)| report_row(row.0.name(), row.1);
    let mut k: usize = 0;
    assert(lines.deep_view() =~= head + ranked(counts@).take(0).map_values(row_line));
    while k < sorted.len()
        invariant
            k <= sorted@.len(),
            sorted@.map_values(view_of) == ranked(counts@),
            view_of == |row: TypeCount| (row.event_type, row.count as nat),
            row_line == |row: (EventType, nat)| report_row(row.0.name(), row.1),
            lines.deep_view() == head + ranked(counts@).take(k as int).map_values(row_line),
        decreases sorted@.len() - k,
    {
        let row = sorted[k];
        let line = row_text(event_type_to_str(&row.event_type), row.count);
        let ghost before = lines.deep_view();
        lines.push(line);
        proof {
            assert(sorted@.map_values(view_of)[k as int] == view_of(row));
            assert(lines.deep_view() =~= before.push(line@));
            assert(ranked(counts@).take(k + 1).map_values(row_line) =~= ranked(counts@).take(
                k as int,
            ).map_values(row_line).push(line@));
        }
        k += 1;
    }
    assert(ranked(counts@).take(k as int) =~= ranked(counts@));
    let ghost body = lines.deep_view();
    lines.push(String::from_str("----------------------------------------"));
    lines.push(row_text("TOTAL", sum));
    lines.push(String::from_str("========================================"));
    lines.push(String::from_str(""));
    assert(lines.deep_view() =~= body + seq![
        "----------------------------------------"@,
        report_row("TOTAL"@, total(counts@)),
        "========================================"@,
        ""@,
    ]);
    lines
}

/// The rows that hold the count `count`, in their order.
pub open spec fn with_count(rows: Seq<(EventType, nat)>, count: nat) -> Seq<(EventType, nat)> {
    with_key(rows, by_count_descending(), -(count as int))
}

/// In the report no row stands before a row with a greater count, rows with
/// the same count stand in the order in which their types were first met,
/// and every counted type has its row.
pub proof fn lemma_ranked(rows: Seq<(EventType, nat)>)
    ensures
        forall|i: int, j: int| 0 <= i <= j < ranked(rows).len() ==> ranked(rows)[i].1 >= ranked(rows)[j].1,
        forall|count: nat| with_count(ranked(rows), count) == #[trigger] with_count(rows, count),
        ranked(rows).to_multiset() == rows.to_multiset(),
{
    lemma_stable_sorted_ascends(rows, by_count_descending());
    lemma_stable_sorted_permutes(rows, by_count_descending());
    assert forall|i: int, j: int| 0 <= i <= j < ranked(rows).len() implies ranked(rows)[i].1
        >= ranked(rows)[j].1 by {
        assert(by_count_descending()(ranked(rows)[i]) <= by_count_descending()(ranked(rows)[j]));
    }
    assert forall|count: nat| with_count(ranked(rows), count) == #[trigger] with_count(
        rows,
        count,
    ) by {
        lemma_stable_sorted_keeps_order(
            rows,
            by_count_descending(),
            -(count as int),
        );
    }
}

} // verus!
