//! Lines of a log file.

use crate::logs::entry::texts;
use crate::outside::{lossy, lossy_text};
use crate::text::{blank, chars_of, drop_line_ends, is_blank, text_of, without_line_ends};
use vstd::prelude::*;

verus! {

/// The position of the first line end at or behind `from`, or -1 without one.
pub open spec fn newline_from(data: Seq<u8>, from: int) -> int
    decreases data.len() - from,
{
    if from < 0 || from >= data.len() {
        -1
    } else if data[from] == 10 {
        from
    } else {
        newline_from(data, from + 1)
    }
}

/// The text of the line that the bytes `from..=to` make up.
pub open spec fn line_text(data: Seq<u8>, from: int, to: int) -> Seq<char> {
    without_line_ends(lossy_text(data.subrange(from, to + 1)))
}

/// The first `max` lines at or behind `from` that are complete and not blank,
/// and the position behind the last complete line that was looked at. A line
/// without its line end is not complete.
pub open spec fn lines_from(data: Seq<u8>, from: int, max: nat) -> (Seq<Seq<char>>, int)
    decreases data.len() - from,
{
    let end = newline_from(data, from);
    if max == 0 || !(0 <= from <= end < data.len()) {
        (Seq::empty(), from)
    } else if is_blank(line_text(data, from, end)) {
        lines_from(data, end + 1, max)
    } else {
        let rest = lines_from(data, end + 1, (max - 1) as nat);
        (seq![line_text(data, from, end)] + rest.0, rest.1)
    }
}

proof fn lemma_newline(data: Seq<u8>, from: int, at: int)
    requires
        0 <= from <= at <= data.len(),
        forall|j: int| from <= j < at ==> data[j] != 10,
    ensures
        at < data.len() && data[at] == 10 ==> newline_from(data, from) == at,
        at == data.len() ==> newline_from(data, from) == -1,
    decreases at - from,
{
    if from < at {
        lemma_newline(data, from + 1, at);
    }
}

proof fn lemma_newline_range(data: Seq<u8>, from: int)
    ensures
        newline_from(data, from) == -1 || from <= newline_from(data, from) < data.len(),
    decreases data.len() - from,
{
    if 0 <= from < data.len() && data[from] != 10 {
        lemma_newline_range(data, from + 1);
    }
}

/// The position behind what was read never lies before the start, and lies
/// within the file wherever the start did.
pub proof fn law_position_moves_forward(data: Seq<u8>, from: int, max: nat)
    ensures
        from <= lines_from(data, from, max).1,
        from <= data.len() ==> lines_from(data, from, max).1 <= data.len(),
        lines_from(data, from, max).0.len() <= max,
        lines_from(data, from, max).0.len() > 0 ==> from < lines_from(data, from, max).1,
    decreases data.len() - from,
{
    lemma_newline_range(data, from);
    let end = newline_from(data, from);
    if max != 0 && 0 <= from <= end {
        law_position_moves_forward(data, end + 1, max);
        law_position_moves_forward(data, end + 1, (max - 1) as nat);
    }
}

/// Reading a page and then the page behind it gives the lines of both, in order
/// and each once, and ends where reading them at one go ends.
pub proof fn law_pages_join(data: Seq<u8>, from: int, first: nat, second: nat)
    requires
        lines_from(data, from, first).0.len() == first,
    ensures
        ({
            let a = lines_from(data, from, first);
            let b = lines_from(data, a.1, second);
            let both = lines_from(data, from, first + second);
            both.0 == a.0 + b.0 && (second > 0 ==> both.1 == b.1)
        }),
    decreases data.len() - from,
{
    lemma_newline_range(data, from);
    let end = newline_from(data, from);
    let a = lines_from(data, from, first);
    let b = lines_from(data, a.1, second);
    let both = lines_from(data, from, first + second);
    if first == 0 {
        assert(both.0 =~= a.0 + b.0);
    } else if !(0 <= from <= end) {
        assert(false);
    } else if is_blank(line_text(data, from, end)) {
        law_pages_join(data, end + 1, first, second);
    } else {
        let rest = lines_from(data, end + 1, (first - 1) as nat);
        assert(a.0 =~= seq![line_text(data, from, end)] + rest.0);
        assert(rest.0.len() == first - 1);
        law_pages_join(data, end + 1, (first - 1) as nat, second);
        assert((first - 1) as nat + second == (first + second - 1) as nat);
        assert(both.0 =~= a.0 + b.0);
    }
}

/// A page that was not filled left nothing to read: what lies behind it holds no
/// complete line.
pub proof fn law_short_page_is_the_last(data: Seq<u8>, from: int, max: nat, more: nat)
    requires
        lines_from(data, from, max).0.len() < max,
    ensures
        lines_from(data, lines_from(data, from, max).1, more) == (
            Seq::<Seq<char>>::empty(),
            lines_from(data, from, max).1,
        ),
    decreases data.len() - from,
{
    lemma_newline_range(data, from);
    let end = newline_from(data, from);
    if 0 <= from <= end {
        if is_blank(line_text(data, from, end)) {
            law_short_page_is_the_last(data, end + 1, max, more);
        } else {
            let rest = lines_from(data, end + 1, (max - 1) as nat);
            assert(lines_from(data, from, max).0.len() == rest.0.len() + 1);
            law_short_page_is_the_last(data, end + 1, (max - 1) as nat, more);
        }
    }
}

/// All lines at or behind `from` that are complete and not blank.
pub open spec fn all_lines_from(data: Seq<u8>, from: int) -> Seq<Seq<char>> {
    lines_from(data, from, data.len() + 1).0
}

/// A line takes at least one byte.
proof fn lemma_fewer_lines_than_bytes(data: Seq<u8>, from: int, max: nat)
    requires
        0 <= from <= data.len(),
    ensures
        lines_from(data, from, max).0.len() <= data.len() - from,
    decreases data.len() - from,
{
    lemma_newline_range(data, from);
    let end = newline_from(data, from);
    if max != 0 && 0 <= from <= end {
        lemma_fewer_lines_than_bytes(data, end + 1, max);
        lemma_fewer_lines_than_bytes(data, end + 1, (max - 1) as nat);
    }
}

/// Two pages from the same place that were both not filled are the same.
proof fn lemma_short_pages_agree(data: Seq<u8>, from: int, a: nat, b: nat)
    requires
        lines_from(data, from, a).0.len() < a,
        lines_from(data, from, b).0.len() < b,
    ensures
        lines_from(data, from, a) == lines_from(data, from, b),
    decreases data.len() - from,
{
    lemma_newline_range(data, from);
    let end = newline_from(data, from);
    if 0 <= from <= end {
        if is_blank(line_text(data, from, end)) {
            lemma_short_pages_agree(data, end + 1, a, b);
        } else {
            let x = lines_from(data, end + 1, (a - 1) as nat);
            let y = lines_from(data, end + 1, (b - 1) as nat);
            assert(lines_from(data, from, a).0.len() == x.0.len() + 1);
            assert(lines_from(data, from, b).0.len() == y.0.len() + 1);
            lemma_short_pages_agree(data, end + 1, (a - 1) as nat, (b - 1) as nat);
        }
    }
}

/// All lines of a file are those of a page and those behind it, in order and each
/// once. Where the page was not filled there are none behind it, and where nothing was
/// passed there are none at all.
pub proof fn law_a_page_and_the_rest(data: Seq<u8>, from: int, max: nat)
    requires
        0 <= from <= data.len(),
    ensures
        ({
            let page = lines_from(data, from, max);
            let rest = all_lines_from(data, page.1);
            &&& from <= page.1 <= data.len()
            &&& all_lines_from(data, from) == page.0 + rest
            &&& page.0.len() < max ==> rest.len() == 0
            &&& max > 0 && page.1 == from ==> all_lines_from(data, from).len() == 0
        }),
{
    let n = data.len() + 1;
    let page = lines_from(data, from, max);
    law_position_moves_forward(data, from, max);
    lemma_fewer_lines_than_bytes(data, from, n);
    lemma_fewer_lines_than_bytes(data, page.1, n);
    if page.0.len() < max {
        lemma_short_pages_agree(data, from, max, n);
        law_short_page_is_the_last(data, from, max, n);
        assert(all_lines_from(data, from) =~= page.0 + all_lines_from(data, page.1));
    } else {
        law_pages_join(data, from, max, n);
        lemma_fewer_lines_than_bytes(data, from, max + n);
        lemma_short_pages_agree(data, from, max + n, n);
    }
}

/// Reads up to `max` complete lines of a file from a byte position on, and says
/// where the next read resumes. A line that is still being written, without its
/// line end, is left for that read; a blank line is skipped but passed.
pub fn read_lines_from(data: &[u8], start: u64, max: usize) -> (r: (Vec<String>, u64))
    ensures
        texts(r.0@) == lines_from(data@, start as int, max as nat).0,
        r.1 == lines_from(data@, start as int, max as nat).1,
{
    let mut found: Vec<String> = Vec::new();
    assert(texts(found@) =~= Seq::empty());
    if start > data.len() as u64 {
        proof {
            lemma_newline_range(data@, start as int);
        }
        return (found, start);
    }
    let mut at: usize = start as usize;
    while found.len() < max
        invariant_except_break
            at <= data@.len(),
            found@.len() <= max,
            start as int <= data@.len(),
        invariant
            at <= data@.len(),
            ({
                let all = lines_from(data@, start as int, max as nat);
                let rest = lines_from(data@, at as int, (max - found@.len()) as nat);
                found@.len() <= max && all.0 == texts(found@) + rest.0 && all.1 == rest.1
            }),
        ensures
            lines_from(data@, at as int, (max - found@.len()) as nat) == (
                Seq::<Seq<char>>::empty(),
                at as int,
            ),
        decreases data@.len() - at,
    {
        let end = next_newline(data, at);
        if end == data.len() {
            break;
        }
        let raw: Vec<u8> = vstd::slice::slice_to_vec(vstd::slice::slice_subrange(data, at, end + 1));
        let line = drop_line_ends(chars_of(lossy(raw.as_slice()).as_str()));
        assert(line@ == line_text(data@, at as int, end as int));
        if !blank(&line) {
            let text = text_of(line.as_slice());
            let ghost before = found@;
            found.push(text);
            proof {
                let rest = lines_from(data@, end + 1, (max - found@.len()) as nat);
                assert(texts(found@) =~= texts(before).push(line@));
                assert(texts(before) + (seq![line@] + rest.0) =~= texts(found@) + rest.0);
            }
        }
        at = end + 1;
    }
    proof {
        let all = lines_from(data@, start as int, max as nat);
        assert(all.0 =~= texts(found@));
    }
    (found, at as u64)
}

/// All complete lines of a file that are not blank.
pub fn all_complete_lines(data: &[u8]) -> (r: Vec<String>)
    ensures
        texts(r@) == all_lines_from(data@, 0),
{
    let (found, _) = read_lines_from(data, 0, data.len());
    proof {
        law_a_page_and_the_rest(data@, 0, data@.len());
        lemma_fewer_lines_than_bytes(data@, 0, data@.len() + 1);
        let page = lines_from(data@, 0, data@.len());
        assert(page.0 + all_lines_from(data@, page.1) =~= page.0);
    }
    found
}

/// A line without the carriage return at its end.
pub open spec fn without_return(s: Seq<char>) -> Seq<char> {
    if s.len() > 0 && s.last() == '\r' {
        s.drop_last()
    } else {
        s
    }
}

/// The lines of a file from a position on, the last one whether or not it has its
/// line end: a line ends with a line feed, and a carriage return just before it
/// belongs to the line end. No other character has a line feed among its bytes, so the
/// bytes of each line make up its text by themselves.
pub open spec fn byte_lines(data: Seq<u8>, from: int) -> Seq<Seq<char>>
    decreases data.len() - from,
{
    let end = newline_from(data, from);
    if from < 0 || from >= data.len() {
        Seq::empty()
    } else if !(from <= end < data.len()) {
        seq![lossy_text(data.skip(from))]
    } else {
        seq![without_return(lossy_text(data.subrange(from, end)))] + byte_lines(data, end + 1)
    }
}

/// The lines that are not blank.
pub open spec fn not_blank(lines: Seq<Seq<char>>) -> Seq<Seq<char>>
    decreases lines.len(),
{
    if lines.len() == 0 {
        Seq::empty()
    } else if is_blank(lines[0]) {
        not_blank(lines.skip(1))
    } else {
        seq![lines[0]] + not_blank(lines.skip(1))
    }
}

/// A line of a file starts at a position: at the start of the file and behind each
/// line feed.
pub open spec fn starts_line(data: Seq<u8>, at: int) -> bool {
    at == 0 || (0 < at <= data.len() && data[at - 1] == 10)
}

/// Where the first line starts that lies wholly within the last `cap` bytes of a file.
/// A line into which those bytes cut is torn and left out; one that starts just there
/// is whole.
pub open spec fn tail_start(data: Seq<u8>, cap: nat) -> int {
    if data.len() <= cap {
        0
    } else if starts_line(data, data.len() - cap) {
        data.len() - cap
    } else {
        let end = newline_from(data, data.len() - cap);
        if end < 0 {
            data.len() as int
        } else {
            end + 1
        }
    }
}

/// The lines that lie wholly within the last `cap` bytes of a file and are not blank.
pub open spec fn tail_lines(data: Seq<u8>, cap: nat) -> Seq<Seq<char>> {
    not_blank(byte_lines(data, tail_start(data, cap)))
}

proof fn lemma_not_blank_first(line: Seq<char>, rest: Seq<Seq<char>>)
    ensures
        not_blank(seq![line] + rest) == if is_blank(line) {
            not_blank(rest)
        } else {
            seq![line] + not_blank(rest)
        },
{
    let all = seq![line] + rest;
    assert(all.skip(1) =~= rest);
    assert(all[0] == line);
}

fn next_newline(data: &[u8], from: usize) -> (r: usize)
    requires
        from <= data@.len(),
    ensures
        from <= r <= data@.len(),
        r < data@.len() ==> newline_from(data@, from as int) == r,
        r == data@.len() ==> newline_from(data@, from as int) == -1,
{
    let mut end: usize = from;
    while end < data.len() && data[end] != 10
        invariant
            from <= end <= data@.len(),
            forall|j: int| from <= j < end ==> data@[j] != 10,
        decreases data@.len() - end,
    {
        end += 1;
    }
    proof {
        lemma_newline(data@, from as int, end as int);
    }
    end
}

/// The lines at the end of a file: those that lie wholly within its last `cap` bytes
/// and are not blank.
pub fn tail_file_lines(data: &[u8], cap: usize) -> (r: Vec<String>)
    ensures
        texts(r@) == tail_lines(data@, cap as nat),
{
    let mut at: usize = 0;
    if data.len() > cap {
        at = data.len() - cap;
        if at > 0 && data[at - 1] != 10 {
            let end = next_newline(data, at);
            at = if end < data.len() {
                end + 1
            } else {
                end
            };
        }
    }
    assert(at == tail_start(data@, cap as nat));
    let mut found: Vec<String> = Vec::new();
    let ghost all = tail_lines(data@, cap as nat);
    assert(texts(found@) + not_blank(byte_lines(data@, at as int)) =~= all);
    while at < data.len()
        invariant
            at <= data@.len(),
            all == texts(found@) + not_blank(byte_lines(data@, at as int)),
        decreases data@.len() - at,
    {
        let end = next_newline(data, at);
        let whole = end < data.len();
        let raw = vstd::slice::slice_subrange(data, at, end);
        let mut line = chars_of(lossy(raw).as_str());
        if whole && line.len() > 0 && line[line.len() - 1] == '\r' {
            let ghost full = line@;
            let _ = line.pop();
            assert(line@ =~= full.drop_last());
        }
        let ghost behind = if whole {
            byte_lines(data@, end + 1)
        } else {
            Seq::empty()
        };
        proof {
            if !whole {
                assert(raw@ =~= data@.skip(at as int));
                assert(seq![line@] =~= seq![line@] + behind);
            }
            assert(byte_lines(data@, at as int) == seq![line@] + behind);
            lemma_not_blank_first(line@, behind);
        }
        let ghost before = found@;
        if !blank(&line) {
            found.push(text_of(line.as_slice()));
            assert(texts(found@) =~= texts(before).push(line@));
            assert(texts(before) + (seq![line@] + not_blank(behind)) =~= texts(found@) + not_blank(
                behind,
            ));
        }
        at = if whole {
            end + 1
        } else {
            end
        };
        assert(byte_lines(data@, at as int) =~= behind);
    }
    assert(byte_lines(data@, data@.len() as int) =~= Seq::empty());
    assert(texts(found@) =~= all);
    found
}

/// All lines of a file as the listing of its end reads them, however long the file is.
pub fn all_file_lines(data: &[u8]) -> (r: Vec<String>)
    ensures
        texts(r@) == not_blank(byte_lines(data@, 0)),
{
    tail_file_lines(data, data.len())
}

proof fn lemma_newline_is_first(data: Seq<u8>, from: int, at: int)
    requires
        0 <= from <= at < data.len(),
        data[at] == 10,
    ensures
        from <= newline_from(data, from) <= at,
        data[newline_from(data, from)] == 10,
    decreases at - from,
{
    if data[from] != 10 {
        lemma_newline_is_first(data, from + 1, at);
    }
}

/// What is not blank of some lines is each of them that is not blank.
proof fn lemma_not_blank_keeps(lines: Seq<Seq<char>>, x: Seq<char>)
    ensures
        not_blank(lines).contains(x) <==> lines.contains(x) && !is_blank(x),
    decreases lines.len(),
{
    if lines.len() > 0 {
        let rest = lines.skip(1);
        lemma_not_blank_keeps(rest, x);
        assert(lines =~= seq![lines[0]] + rest);
        assert(lines.contains(x) <==> lines[0] == x || rest.contains(x)) by {
            if rest.contains(x) {
                let i = choose|i: int| 0 <= i < rest.len() && rest[i] == x;
                assert(lines[i + 1] == x);
            }
            if lines.contains(x) && lines[0] != x {
                let i = choose|i: int| 0 <= i < lines.len() && lines[i] == x;
                assert(rest[i - 1] == x);
            }
        }
        let kept = seq![lines[0]] + not_blank(rest);
        assert(kept.contains(x) <==> lines[0] == x || not_blank(rest).contains(x)) by {
            assert(kept[0] == lines[0]);
            if not_blank(rest).contains(x) {
                let i = choose|i: int| 0 <= i < not_blank(rest).len() && not_blank(rest)[i] == x;
                assert(kept[i + 1] == x);
            }
            if kept.contains(x) && lines[0] != x {
                let i = choose|i: int| 0 <= i < kept.len() && kept[i] == x;
                assert(not_blank(rest)[i - 1] == x);
            }
        }
    }
}

proof fn lemma_lines_behind(data: Seq<u8>, from: int, at: int, x: Seq<char>)
    requires
        0 <= from <= at <= data.len(),
        starts_line(data, at) || at == data.len(),
        byte_lines(data, at).contains(x),
    ensures
        byte_lines(data, from).contains(x),
    decreases at - from,
{
    if from < at && at < data.len() {
        lemma_newline_is_first(data, from, at - 1);
        let end = newline_from(data, from);
        lemma_lines_behind(data, end + 1, at, x);
        let rest = byte_lines(data, end + 1);
        let i = choose|i: int| 0 <= i < rest.len() && rest[i] == x;
        assert(byte_lines(data, from)[i + 1] == x);
    }
}

/// Every line that the end of a file holds is a line of the whole file.
pub proof fn law_tail_lines_are_file_lines(data: Seq<u8>, cap: nat, x: Seq<char>)
    requires
        tail_lines(data, cap).contains(x),
    ensures
        not_blank(byte_lines(data, 0)).contains(x),
{
    let start = tail_start(data, cap);
    lemma_not_blank_keeps(byte_lines(data, start), x);
    lemma_not_blank_keeps(byte_lines(data, 0), x);
    if data.len() > cap {
        lemma_newline_range(data, data.len() - cap);
        lemma_newline_found(data, data.len() - cap);
    }
    lemma_lines_behind(data, 0, start, x);
}

proof fn lemma_newline_found(data: Seq<u8>, from: int)
    ensures
        newline_from(data, from) >= 0 ==> data[newline_from(data, from)] == 10,
    decreases data.len() - from,
{
    if 0 <= from < data.len() && data[from] != 10 {
        lemma_newline_found(data, from + 1);
    }
}

/// Reading on from the start of a line ends at the start of a line.
pub proof fn law_pages_end_at_line_starts(data: Seq<u8>, from: int, max: nat)
    requires
        starts_line(data, from),
    ensures
        starts_line(data, lines_from(data, from, max).1),
    decreases data.len() - from,
{
    lemma_newline_range(data, from);
    lemma_newline_found(data, from);
    let end = newline_from(data, from);
    if max != 0 && 0 <= from <= end {
        law_pages_end_at_line_starts(data, end + 1, max);
        law_pages_end_at_line_starts(data, end + 1, (max - 1) as nat);
    }
}

proof fn lemma_complete_lines_behind(data: Seq<u8>, from: int, at: int, x: Seq<char>)
    requires
        0 <= from <= at,
        starts_line(data, at),
        all_lines_from(data, at).contains(x),
    ensures
        all_lines_from(data, from).contains(x),
    decreases at - from,
{
    if from < at {
        lemma_newline_is_first(data, from, at - 1);
        let end = newline_from(data, from);
        let n = data.len() + 1;
        lemma_complete_lines_behind(data, end + 1, at, x);
        if !is_blank(line_text(data, from, end)) {
            let rest = lines_from(data, end + 1, (n - 1) as nat);
            lemma_fewer_lines_than_bytes(data, end + 1, (n - 1) as nat);
            lemma_fewer_lines_than_bytes(data, end + 1, n);
            lemma_short_pages_agree(data, end + 1, (n - 1) as nat, n);
            let i = choose|i: int| 0 <= i < rest.0.len() && rest.0[i] == x;
            assert(all_lines_from(data, from)[i + 1] == x);
        }
    }
}

/// Every line of a page that was read on from the start of a line is a complete line
/// of the file.
pub proof fn law_page_lines_are_file_lines(data: Seq<u8>, from: int, max: nat, x: Seq<char>)
    requires
        starts_line(data, from),
        lines_from(data, from, max).0.contains(x),
    ensures
        all_lines_from(data, 0).contains(x),
{
    let page = lines_from(data, from, max);
    law_a_page_and_the_rest(data, from, max);
    let i = choose|i: int| 0 <= i < page.0.len() && page.0[i] == x;
    assert(all_lines_from(data, from)[i] == x);
    lemma_complete_lines_behind(data, 0, from, x);
}

/// What is listed of a file's end starts at the start of a line, fits into the bytes that
/// are looked at, and leaves out no line that would fit.
pub proof fn law_the_tail_is_all_that_fits(data: Seq<u8>, cap: nat, at: int)
    requires
        cap > 0,
    ensures
        0 <= tail_start(data, cap) <= data.len(),
        data.len() - tail_start(data, cap) <= cap,
        starts_line(data, tail_start(data, cap)) || tail_start(data, cap) == data.len(),
        starts_line(data, at) && 0 <= at && data.len() - cap <= at ==> tail_start(data, cap) <= at,
{
    if data.len() > cap && !starts_line(data, data.len() - cap) {
        let from = data.len() - cap;
        lemma_newline_range(data, from);
        let end = newline_from(data, from);
        if end >= 0 {
            lemma_newline_byte(data, from);
        }
        if starts_line(data, at) && from <= at {
            assert(from < at);
            lemma_newline_is_first(data, from, at - 1);
        }
    }
}

proof fn lemma_newline_byte(data: Seq<u8>, from: int)
    requires
        0 <= from,
        newline_from(data, from) >= 0,
    ensures
        data[newline_from(data, from)] == 10,
    decreases data.len() - from,
{
    if from < data.len() && data[from] != 10 {
        lemma_newline_byte(data, from + 1);
    }
}

/// A line ends at the first line feed behind its start; blank lines are passed over and
/// every other complete line is read.
pub proof fn law_a_line_ends_at_its_line_feed(data: Seq<u8>, from: int, at: int, max: nat)
    requires
        0 <= from <= at < data.len(),
        data[at] == 10,
        forall|j: int| from <= j < at ==> data[j] != 10,
        max > 0,
    ensures
        newline_from(data, from) == at,
        is_blank(line_text(data, from, at)) ==> lines_from(data, from, max) == lines_from(
            data,
            at + 1,
            max,
        ),
        !is_blank(line_text(data, from, at)) ==> lines_from(data, from, max).0[0] == line_text(
            data,
            from,
            at,
        ) && lines_from(data, from, max).1 == lines_from(data, at + 1, (max - 1) as nat).1,
{
    lemma_newline(data, from, at);
}

/// A line that has no line feed yet is not read, and reading stays before it.
pub proof fn law_an_unfinished_line_waits(data: Seq<u8>, from: int, max: nat)
    requires
        0 <= from <= data.len(),
        forall|j: int| from <= j < data.len() ==> data[j] != 10,
    ensures
        lines_from(data, from, max).0.len() == 0,
        lines_from(data, from, max).1 == from,
{
    lemma_newline(data, from, data.len() as int);
}

/// Of a list of lines those stay that are not blank.
pub proof fn law_blank_lines_are_left_out(lines: Seq<Seq<char>>, x: Seq<char>)
    ensures
        not_blank(lines).contains(x) <==> lines.contains(x) && !is_blank(x),
{
    lemma_not_blank_keeps(lines, x);
}

} // verus!
