//! Text primitives shared by the pipeline: comparison, line framing,
//! whitespace, decimal numbers, padding and file names.
//!
//! Every function works on the sequence of characters of its argument, which
//! is what the contracts speak of.

use vstd::prelude::*;
use vstd::string::*;
use vstd::utf8::*;

verus! {

/// `String::push`: appends one character to the end of the string.
pub assume_specification[ String::push ](s: &mut String, c: char)
    ensures
        final(s)@ == old(s)@.push(c),
;

/// Whether two strings hold the same characters.
pub fn str_eq(a: &str, b: &str) -> (r: bool)
    ensures
        r == (a@ == b@),
{
    let x = a.as_bytes();
    let y = b.as_bytes();
    proof {
        encode_utf8_decode_utf8(a@);
        encode_utf8_decode_utf8(b@);
    }
    if x.len() != y.len() {
        return false;
    }
    let n = x.len();
    let mut i: usize = 0;
    while i < n
        invariant
            i <= n,
            n == x@.len(),
            n == y@.len(),
            x@ == encode_utf8(a@),
            y@ == encode_utf8(b@),
            forall|j: int| 0 <= j < i ==> x@[j] == y@[j],
        decreases n - i,
    {
        if x[i] != y[i] {
            return false;
        }
        i += 1;
    }
    assert(x@ =~= y@);
    true
}

/// The characters of `s`, in order.
pub fn chars_of(s: &str) -> (r: Vec<char>)
    ensures
        r@ == s@,
{
    let mut out: Vec<char> = Vec::new();
    for c in it: s.chars()
        invariant
            it.seq() == s@,
            out@ == s@.take(it.index()),
    {
        assert(s@.take(it.index() + 1) =~= s@.take(it.index()).push(c));
        out.push(c);
    }
    assert(s@.take(s@.len() as int) =~= s@);
    out
}

/// The string made of the characters `cs[from..to]`.
pub fn string_of(cs: &Vec<char>, from: usize, to: usize) -> (r: String)
    requires
        from <= to <= cs@.len(),
    ensures
        r@ == cs@.subrange(from as int, to as int),
{
    let mut out = String::new();
    let mut i: usize = from;
    while i < to
        invariant
            from <= i <= to <= cs@.len(),
            out@ == cs@.subrange(from as int, i as int),
        decreases to - i,
    {
        out.push(cs[i]);
        assert(cs@.subrange(from as int, i + 1) =~= cs@.subrange(from as int, i as int).push(
            cs@[i as int],
        ));
        i += 1;
    }
    out
}

/// The characters that count as white space: the Unicode property
/// `White_Space`.
pub open spec fn is_white_space(c: char) -> bool {
    ||| '\u{9}' <= c <= '\u{d}'
    ||| c == ' '
    ||| c == '\u{85}'
    ||| c == '\u{a0}'
    ||| c == '\u{1680}'
    ||| '\u{2000}' <= c <= '\u{200a}'
    ||| c == '\u{2028}'
    ||| c == '\u{2029}'
    ||| c == '\u{202f}'
    ||| c == '\u{205f}'
    ||| c == '\u{3000}'
}

/// A text is blank when it holds nothing but white space; the empty text is
/// blank.
pub open spec fn is_blank(s: Seq<char>) -> bool {
    forall|i: int| 0 <= i < s.len() ==> is_white_space(#[trigger] s[i])
}

fn white_space(c: char) -> (r: bool)
    ensures
        r == is_white_space(c),
{
    ('\u{9}' <= c && c <= '\u{d}') || c == ' ' || c == '\u{85}' || c == '\u{a0}' || c
        == '\u{1680}' || ('\u{2000}' <= c && c <= '\u{200a}') || c == '\u{2028}' || c
        == '\u{2029}' || c == '\u{202f}' || c == '\u{205f}' || c == '\u{3000}'
}

/// Whether a line is blank.
pub fn is_blank_line(line: &str) -> (r: bool)
    ensures
        r == is_blank(line@),
{
    for c in it: line.chars()
        invariant
            it.seq() == line@,
            forall|j: int| 0 <= j < it.index() ==> is_white_space(#[trigger] line@[j]),
    {
        if !white_space(c) {
            return false;
        }
    }
    true
}

/// The position of the first line feed in `s`, or the length of `s` where it
/// holds none.
pub open spec fn first_newline(s: Seq<char>) -> nat
    decreases s.len(),
{
    if s.len() == 0 || s[0] == '\n' {
        0
    } else {
        1 + first_newline(s.drop_first())
    }
}

/// A line without the carriage return that stood before its line feed.
pub open spec fn without_cr(line: Seq<char>) -> Seq<char> {
    if line.len() > 0 && line.last() == '\r' {
        line.drop_last()
    } else {
        line
    }
}

/// The lines of a text. A line ends at a line feed, or at a carriage return
/// directly followed by one; neither is part of the line. What follows the
/// last line feed is a line of its own unless it is empty, and is kept whole.
pub open spec fn lines_of(s: Seq<char>) -> Seq<Seq<char>>
    decreases s.len(),
{
    if s.len() == 0 {
        Seq::empty()
    } else {
        let k = first_newline(s);
        if k >= s.len() {
            seq![s]
        } else {
            seq![without_cr(s.take(k as int))] + lines_of(s.skip(k as int + 1))
        }
    }
}

/// `first_newline` is the least position of a line feed.
pub proof fn lemma_first_newline(s: Seq<char>, k: int)
    requires
        0 <= k <= s.len(),
        k < s.len() ==> s[k] == '\n',
        forall|j: int| 0 <= j < k ==> s[j] != '\n',
    ensures
        first_newline(s) == k,
    decreases k,
{
    if k > 0 {
        lemma_first_newline(s.drop_first(), k - 1);
    }
}

/// Splits a text into its lines.
pub fn split_lines(content: &str) -> (r: Vec<String>)
    ensures
        r.deep_view() == lines_of(content@),
{
    let cs = chars_of(content);
    let n = cs.len();
    let mut out: Vec<String> = Vec::new();
    let mut start: usize = 0;
    let mut i: usize = 0;
    assert(cs@.skip(0) =~= cs@);
    assert(out.deep_view() =~= Seq::<Seq<char>>::empty());
    while i < n
        invariant
            start <= i <= n,
            n == cs@.len(),
            forall|j: int| start <= j < i ==> cs@[j] != '\n',
            lines_of(cs@) == out.deep_view() + lines_of(cs@.skip(start as int)),
        decreases n - i,
    {
        if cs[i] == '\n' {
            let end = if i > start && cs[i - 1] == '\r' {
                i - 1
            } else {
                i
            };
            let line = string_of(&cs, start, end);
            proof {
                let rest = cs@.skip(start as int);
                lemma_first_newline(rest, i - start);
                assert(rest.take(i - start) =~= cs@.subrange(start as int, i as int));
                assert(without_cr(cs@.subrange(start as int, i as int)) =~= line@);
                assert(rest.skip(i - start + 1) =~= cs@.skip(i + 1));
                assert(out.deep_view().push(line@) + lines_of(cs@.skip(i + 1))
                    =~= out.deep_view() + lines_of(rest));
            }
            let ghost before = out.deep_view();
            out.push(line);
            assert(out.deep_view() =~= before.push(line@));
            start = i + 1;
        }
        i += 1;
    }
    if start < n {
        let line = string_of(&cs, start, n);
        proof {
            let rest = cs@.skip(start as int);
            lemma_first_newline(rest, n - start);
            assert(rest =~= cs@.subrange(start as int, n as int));
        }
        let ghost before = out.deep_view();
        out.push(line);
        assert(out.deep_view() =~= before.push(line@));
    } else {
        assert(out.deep_view() + Seq::<Seq<char>>::empty() =~= out.deep_view());
    }
    out
}

/// The number of lines of a text.
pub fn count_lines(content: &str) -> (r: usize)
    ensures
        r == lines_of(content@).len(),
{
    let cs = chars_of(content);
    let n = cs.len();
    let mut count: usize = 0;
    let mut start: usize = 0;
    let mut i: usize = 0;
    assert(cs@.skip(0) =~= cs@);
    while i < n
        invariant
            start <= i <= n,
            n == cs@.len(),
            count <= start,
            forall|j: int| start <= j < i ==> cs@[j] != '\n',
            lines_of(cs@).len() == count + lines_of(cs@.skip(start as int)).len(),
        decreases n - i,
    {
        if cs[i] == '\n' {
            proof {
                let rest = cs@.skip(start as int);
                lemma_first_newline(rest, i - start);
                assert(rest.skip(i - start + 1) =~= cs@.skip(i + 1));
            }
            count += 1;
            start = i + 1;
        }
        i += 1;
    }
    if start < n {
        proof {
            lemma_first_newline(cs@.skip(start as int), n - start);
        }
        count += 1;
    }
    count
}

/// The character that stands for a digit.
pub open spec fn digit_char(d: nat) -> char {
    if d == 0 {
        '0'
    } else if d == 1 {
        '1'
    } else if d == 2 {
        '2'
    } else if d == 3 {
        '3'
    } else if d == 4 {
        '4'
    } else if d == 5 {
        '5'
    } else if d == 6 {
        '6'
    } else if d == 7 {
        '7'
    } else if d == 8 {
        '8'
    } else {
        '9'
    }
}

/// A number in decimal notation, without sign or leading zeros.
pub open spec fn decimal(n: nat) -> Seq<char>
    decreases n,
{
    if n < 10 {
        seq![digit_char(n)]
    } else {
        decimal(n / 10).push(digit_char(n % 10))
    }
}

fn digit(d: u128) -> (r: char)
    requires
        d < 10,
    ensures
        r == digit_char(d as nat),
{
    if d == 0 {
        '0'
    } else if d == 1 {
        '1'
    } else if d == 2 {
        '2'
    } else if d == 3 {
        '3'
    } else if d == 4 {
        '4'
    } else if d == 5 {
        '5'
    } else if d == 6 {
        '6'
    } else if d == 7 {
        '7'
    } else if d == 8 {
        '8'
    } else {
        '9'
    }
}

/// Appends `n` in decimal notation to `out`.
pub fn push_decimal(out: &mut String, n: u128)
    ensures
        final(out)@ == old(out)@ + decimal(n as nat),
    decreases n,
{
    if n >= 10 {
        push_decimal(out, n / 10);
    }
    out.push(digit(n % 10));
    assert(old(out)@ + decimal(n as nat) =~= if n >= 10 {
        (old(out)@ + decimal((n / 10) as nat)).push(digit_char((n % 10) as nat))
    } else {
        old(out)@.push(digit_char(n as nat))
    });
}

/// The position of the last `c` in `s`, or -1 where `s` holds none.
pub open spec fn last_index_of(s: Seq<char>, c: char) -> int
    decreases s.len(),
{
    if s.len() == 0 {
        -1
    } else if s.last() == c {
        s.len() - 1
    } else {
        last_index_of(s.drop_last(), c)
    }
}

/// A file name has an extension when a dot stands in it behind its first
/// character. The name `..` has none.
pub open spec fn has_extension(name: Seq<char>) -> bool {
    last_index_of(name, '.') > 0 && name != seq!['.', '.']
}

/// The extension of a file name: what follows its last dot.
pub open spec fn file_extension(name: Seq<char>) -> Option<Seq<char>> {
    if has_extension(name) {
        Some(name.skip(last_index_of(name, '.') + 1))
    } else {
        None
    }
}

/// The stem of a file name: the name without its extension and the dot
/// before it.
pub open spec fn file_stem(name: Seq<char>) -> Seq<char> {
    if has_extension(name) {
        name.take(last_index_of(name, '.'))
    } else {
        name
    }
}

/// Whether every character is one of the digits `0` to `9`.
pub open spec fn all_digits(s: Seq<char>) -> bool {
    forall|i: int| 0 <= i < s.len() ==> '0' <= #[trigger] s[i] <= '9'
}

/// The number that a text of digits denotes; 0 for the empty text.
pub open spec fn digits_value(s: Seq<char>) -> nat
    decreases s.len(),
{
    if s.len() == 0 {
        0
    } else {
        (10 * digits_value(s.drop_last()) + (s.last() as u32 - '0' as u32)) as nat
    }
}

/// The 32-bit signed integer that a text denotes: an optional sign, `+` or
/// `-`, and then one digit or more, nothing before, between or after. There
/// is none where the text has another form or the number is out of range.
pub open spec fn parse_i32(s: Seq<char>) -> Option<int> {
    let signed = s.len() > 0 && (s[0] == '-' || s[0] == '+');
    let digits = if signed {
        s.skip(1)
    } else {
        s
    };
    let value = if signed && s[0] == '-' {
        -(digits_value(digits) as int)
    } else {
        digits_value(digits) as int
    };
    if digits.len() > 0 && all_digits(digits) && -0x8000_0000 <= value <= 0x7fff_ffff {
        Some(value)
    } else {
        None
    }
}

/// The key by which input files are put in order: the integer that ends the
/// stem of the file name, behind its last hyphen or, where it has none, the
/// whole stem. A stem that ends in no such integer has the key 0.
pub open spec fn sort_key(name: Seq<char>) -> int {
    let stem = file_stem(name);
    match parse_i32(stem.skip(last_index_of(stem, '-') + 1)) {
        Some(value) => value,
        None => 0,
    }
}

/// The last `c` of a text stands in it, and no `c` stands behind it.
pub proof fn lemma_last_index_of(s: Seq<char>, c: char)
    ensures
        -1 <= last_index_of(s, c) < s.len(),
        last_index_of(s, c) >= 0 ==> s[last_index_of(s, c)] == c,
        forall|j: int| last_index_of(s, c) < j < s.len() ==> s[j] != c,
    decreases s.len(),
{
    if s.len() > 0 && s.last() != c {
        lemma_last_index_of(s.drop_last(), c);
        assert forall|j: int| last_index_of(s, c) < j < s.len() implies s[j] != c by {
            if j < s.len() - 1 {
                assert(s.drop_last()[j] != c);
            }
        }
    }
}

/// A number only grows as digits are added to it.
proof fn lemma_digits_value_grows(s: Seq<char>, k: int)
    requires
        0 <= k <= s.len(),
        all_digits(s),
    ensures
        digits_value(s.take(k)) <= digits_value(s),
    decreases s.len() - k,
{
    if k < s.len() {
        lemma_digits_value_grows(s.drop_last(), k);
        assert(s.drop_last().take(k) =~= s.take(k));
        assert('0' <= s[s.len() - 1] <= '9');
    } else {
        assert(s.take(k) =~= s);
    }
}

/// One past the last `c` in `cs[..end]`, or 0 where there is none.
fn after_last(cs: &Vec<char>, end: usize, c: char) -> (r: usize)
    requires
        end <= cs@.len(),
    ensures
        r == last_index_of(cs@.take(end as int), c) + 1,
        r <= end,
{
    let mut i: usize = end;
    while i > 0
        invariant
            i <= end <= cs@.len(),
            last_index_of(cs@.take(end as int), c) == last_index_of(cs@.take(i as int), c),
        decreases i,
    {
        if cs[i - 1] == c {
            assert(cs@.take(i as int).last() == c);
            return i;
        }
        assert(cs@.take(i as int).drop_last() =~= cs@.take(i - 1));
        i -= 1;
    }
    0
}

/// Reads `cs[from..to]` as a 32-bit signed integer.
#[verifier::loop_isolation(false)]
fn parse_i32_in(cs: &Vec<char>, from: usize, to: usize) -> (r: Option<i32>)
    requires
        from <= to <= cs@.len(),
    ensures
        r is Some == parse_i32(cs@.subrange(from as int, to as int)) is Some,
        r is Some ==> parse_i32(cs@.subrange(from as int, to as int)) == Some(r->0 as int),
{
    let ghost s = cs@.subrange(from as int, to as int);
    if from == to {
        return None;
    }
    assert(s[0] == cs@[from as int]);
    let negative = cs[from] == '-';
    let start = if cs[from] == '-' || cs[from] == '+' {
        from + 1
    } else {
        from
    };
    let ghost digits = cs@.subrange(start as int, to as int);
    assert(digits =~= if start > from {
        s.skip(1)
    } else {
        s
    });
    if start == to {
        return None;
    }
    let limit: i64 = if negative {
        0x8000_0000
    } else {
        0x7fff_ffff
    };
    let mut value: i64 = 0;
    let mut i: usize = start;
    while i < to
        invariant
            start <= i <= to <= cs@.len(),
            digits == cs@.subrange(start as int, to as int),
            all_digits(digits.take(i - start)),
            value == digits_value(digits.take(i - start)),
            0 <= value <= limit <= 0x8000_0000,
        decreases to - i,
    {
        let c = cs[i];
        assert(digits[i - start] == c);
        if !('0' <= c && c <= '9') {
            return None;
        }
        value = value * 10 + (c as u32 - '0' as u32) as i64;
        proof {
            let next = digits.take(i - start + 1);
            assert(next.drop_last() =~= digits.take(i - start));
            assert(next.last() == c);
            assert forall|j: int| 0 <= j < next.len() implies '0' <= #[trigger] next[j]
                <= '9' by {
                if j < i - start {
                    assert(digits.take(i - start)[j] == next[j]);
                }
            }
        }
        if value > limit {
            proof {
                if all_digits(digits) {
                    lemma_digits_value_grows(digits, i - start + 1);
                }
            }
            return None;
        }
        i += 1;
    }
    assert(digits.take(to - start) =~= digits);
    if negative {
        Some((-value) as i32)
    } else {
        Some(value as i32)
    }
}

/// The key by which the file called `name` is put in order.
pub fn file_sort_key(name: &str) -> (r: i32)
    ensures
        r == sort_key(name@),
{
    let cs = chars_of(name);
    let end = stem_end(&cs);
    let from = after_last(&cs, end, '-');
    proof {
        let stem = file_stem(cs@);
        assert(stem =~= cs@.take(end as int));
        assert(stem.skip(from as int) =~= cs@.subrange(from as int, end as int));
    }
    match parse_i32_in(&cs, from, end) {
        Some(value) => value,
        None => 0,
    }
}

/// Where the stem of a file name ends.
fn stem_end(cs: &Vec<char>) -> (r: usize)
    ensures
        r <= cs@.len(),
        cs@.take(r as int) == file_stem(cs@),
        has_extension(cs@) <==> r < cs@.len(),
        has_extension(cs@) ==> r == last_index_of(cs@, '.'),
{
    let n = cs.len();
    assert(cs@.take(n as int) =~= cs@);
    let after = after_last(cs, n, '.');
    if after <= 1 || (n == 2 && cs[0] == '.' && cs[1] == '.') {
        assert(n == 2 && cs@[0] == '.' && cs@[1] == '.' ==> cs@ =~= seq!['.', '.']);
        n
    } else {
        assert(cs@ != seq!['.', '.']) by {
            if cs@ == seq!['.', '.'] {
                assert(cs@.len() == 2);
                assert(seq!['.', '.'][0] == '.');
                assert(seq!['.', '.'][1] == '.');
            }
        }
        after - 1
    }
}

/// Whether the file called `name` has the extension `json`, in lower case.
pub fn is_json_file_name(name: &str) -> (r: bool)
    ensures
        r == (file_extension(name@) == Some("json"@)),
{
    let cs = chars_of(name);
    let end = stem_end(&cs);
    let n = cs.len();
    proof {
        reveal_strlit("json");
    }
    if end < n && n - end == 5 {
        let r = cs[end + 1] == 'j' && cs[end + 2] == 's' && cs[end + 3] == 'o' && cs[end + 4]
            == 'n';
        proof {
            let ext = cs@.skip(end + 1);
            assert(ext.len() == 4);
            assert(ext[0] == cs@[end + 1]);
            assert(ext[1] == cs@[end + 2]);
            assert(ext[2] == cs@[end + 3]);
            assert(ext[3] == cs@[end + 4]);
            if r {
                assert(ext =~= "json"@);
            }
        }
        r
    } else {
        proof {
            if end < n {
                assert(cs@.skip(end + 1).len() != 4);
            }
        }
        false
    }
}

/// `n` spaces.
pub open spec fn spaces(n: nat) -> Seq<char> {
    Seq::new(n, |i: int| ' ')
}

/// `s` with spaces behind it up to `width` characters; `s` itself where it is
/// that long or longer.
pub open spec fn pad_right(s: Seq<char>, width: nat) -> Seq<char> {
    if s.len() >= width {
        s
    } else {
        s + spaces((width - s.len()) as nat)
    }
}

/// `s` with spaces before it up to `width` characters; `s` itself where it
/// is that long or longer.
pub open spec fn pad_left(s: Seq<char>, width: nat) -> Seq<char> {
    if s.len() >= width {
        s
    } else {
        spaces((width - s.len()) as nat) + s
    }
}

/// Appends `n` spaces to `out`.
pub fn push_spaces(out: &mut String, n: usize)
    ensures
        final(out)@ == old(out)@ + spaces(n as nat),
{
    let mut i: usize = 0;
    assert(out@ =~= old(out)@ + spaces(0));
    while i < n
        invariant
            i <= n,
            out@ == old(out)@ + spaces(i as nat),
        decreases n - i,
    {
        out.push(' ');
        assert(old(out)@ + spaces((i + 1) as nat) =~= (old(out)@ + spaces(i as nat)).push(' '));
        i += 1;
    }
}

/// Appends `s` to `out`, left-aligned in a column of `width` characters.
pub fn push_padded_right(out: &mut String, s: &str, width: usize)
    ensures
        final(out)@ == old(out)@ + pad_right(s@, width as nat),
{
    let len = s.unicode_len();
    out.append(s);
    if len < width {
        push_spaces(out, width - len);
        assert(old(out)@ + s@ + spaces((width - len) as nat) =~= old(out)@ + (s@ + spaces(
            (width - len) as nat,
        )));
    }
}

/// Appends `s` to `out`, right-aligned in a column of `width` characters.
pub fn push_padded_left(out: &mut String, s: &str, width: usize)
    ensures
        final(out)@ == old(out)@ + pad_left(s@, width as nat),
{
    let len = s.unicode_len();
    if len < width {
        push_spaces(out, width - len);
    }
    out.append(s);
    assert(old(out)@ + spaces((width - len) as nat) + s@ =~= old(out)@ + (spaces(
        (width - len) as nat,
    ) + s@));
}

/// A file name as the messages of a run show it: what formatting it as a
/// path with `{:?}` gives.
pub uninterp spec fn debug_text(name: Seq<char>) -> Seq<char>;

/// `<std::path::Path as std::fmt::Debug>::fmt`, through `format!`: the name
/// in double quotes, with the characters that need it escaped. The contract
/// gives the result its name and claims nothing else of it.
#[verifier::external_body]
pub(crate) fn quoted(name: &str) -> (r: String)
    ensures
        r@ == debug_text(name@),
{
    format!("{:?}", std::path::Path::new(name))
}

} // verus!
