//! Character sequences: lines, the tail of a text, and occurrences of a pattern.

use vstd::prelude::*;
use vstd::utf8::decode_utf8;
use vstd::utf8::valid_utf8;

verus! {

/// The position of the first line feed in `s`, or the length of `s` where it holds none.
pub open spec fn first_newline(s: Seq<char>) -> nat
    decreases s.len(),
{
    if s.len() == 0 || s[0] == '\n' {
        0
    } else {
        1 + first_newline(s.drop_first())
    }
}

/// `line` without the carriage return that it ends in, if it ends in one.
pub open spec fn strip_cr(line: Seq<char>) -> Seq<char> {
    if line.len() > 0 && line.last() == '\r' {
        line.drop_last()
    } else {
        line
    }
}

/// The lines of `s`. A line ends at a line feed, or at a carriage return directly
/// followed by one; neither belongs to the line. What follows the last line feed is a
/// line only if it is not empty, and it keeps a carriage return that it ends in.
pub open spec fn lines_of(s: Seq<char>) -> Seq<Seq<char>>
    decreases s.len(),
{
    if s.len() == 0 {
        Seq::empty()
    } else {
        let k = first_newline(s) as int;
        if k >= s.len() {
            seq![s]
        } else {
            seq![strip_cr(s.subrange(0, k))] + lines_of(s.subrange(k + 1, s.len() as int))
        }
    }
}

/// The lines joined by single line feeds, with none after the last.
pub open spec fn join_lines(lines: Seq<Seq<char>>) -> Seq<char>
    decreases lines.len(),
{
    if lines.len() == 0 {
        Seq::empty()
    } else if lines.len() == 1 {
        lines[0]
    } else {
        join_lines(lines.drop_last()) + seq!['\n'] + lines.last()
    }
}

/// The last `count` lines of `s`, or all of them where there are fewer, first line first.
pub open spec fn last_lines(s: Seq<char>, count: nat) -> Seq<Seq<char>> {
    let all = lines_of(s);
    if all.len() <= count {
        all
    } else {
        all.subrange(all.len() - count, all.len() as int)
    }
}

/// `pat` stands in `text` at position `i`.
pub open spec fn occurs_at(text: Seq<char>, pat: Seq<char>, i: int) -> bool {
    0 <= i && i + pat.len() <= text.len() && text.subrange(i, i + pat.len()) == pat
}

/// `pat` stands somewhere in `text`.
pub open spec fn occurs(text: Seq<char>, pat: Seq<char>) -> bool {
    exists|i: int| occurs_at(text, pat, i)
}

/// `pat` stands in `text` at `i` and nowhere further right.
pub open spec fn is_last_occurrence(text: Seq<char>, pat: Seq<char>, i: int) -> bool {
    occurs_at(text, pat, i) && forall|j: int| i < j ==> !occurs_at(text, pat, j)
}

/// The rightmost position at which `pat` stands in `text`; meaningful where it occurs.
pub open spec fn last_occurrence(text: Seq<char>, pat: Seq<char>) -> int {
    choose|i: int| is_last_occurrence(text, pat, i)
}

/// `first_newline` is within the sequence, has no line feed before it and one at it.
pub proof fn lemma_first_newline(s: Seq<char>)
    ensures
        first_newline(s) <= s.len(),
        forall|j: int| 0 <= j < first_newline(s) ==> s[j] != '\n',
        first_newline(s) < s.len() ==> s[first_newline(s) as int] == '\n',
    decreases s.len(),
{
    if s.len() == 0 || s[0] == '\n' {
    } else {
        let t = s.drop_first();
        lemma_first_newline(t);
        assert forall|j: int| 0 <= j < first_newline(s) implies s[j] != '\n' by {
            if j > 0 {
                assert(s[j] == t[j - 1]);
            }
        }
        if first_newline(s) < s.len() {
            assert(s[first_newline(s) as int] == t[first_newline(t) as int]);
        }
    }
}

/// A position with no line feed before it, and one at it unless it is the end, is
/// `first_newline`.
pub proof fn lemma_first_newline_unique(s: Seq<char>, k: int)
    requires
        0 <= k <= s.len(),
        forall|j: int| 0 <= j < k ==> s[j] != '\n',
        k < s.len() ==> s[k] == '\n',
    ensures
        first_newline(s) == k,
{
    lemma_first_newline(s);
    let f = first_newline(s) as int;
    if f < k {
        assert(s[f] == '\n');
    } else if k < f {
        assert(s[k] == '\n');
    }
}

/// Only one position is the last occurrence.
pub proof fn lemma_last_occurrence_unique(text: Seq<char>, pat: Seq<char>, i: int)
    requires
        is_last_occurrence(text, pat, i),
    ensures
        occurs(text, pat),
        last_occurrence(text, pat) == i,
{
    let c = last_occurrence(text, pat);
    assert(is_last_occurrence(text, pat, c));
    if c < i {
        assert(!occurs_at(text, pat, i));
    } else if i < c {
        assert(!occurs_at(text, pat, c));
    }
}

/// The pieces of `text` that the spans mark out, span by span.
pub open spec fn span_lines(text: Seq<char>, spans: Seq<(usize, usize)>) -> Seq<Seq<char>> {
    Seq::new(spans.len(), |i: int| text.subrange(spans[i].0 as int, spans[i].1 as int))
}

/// Each span lies within a text of length `len`.
pub open spec fn spans_within(spans: Seq<(usize, usize)>, len: nat) -> bool {
    forall|i: int| 0 <= i < spans.len() ==> (#[trigger] spans[i]).0 <= spans[i].1 <= len
}

/// A text that begins with a line of length `k` ended by a line feed splits into that
/// line and the lines of the rest.
proof fn lemma_lines_step(s: Seq<char>, k: int)
    requires
        0 <= k < s.len(),
        forall|j: int| 0 <= j < k ==> s[j] != '\n',
        s[k] == '\n',
    ensures
        lines_of(s) == seq![strip_cr(s.subrange(0, k))] + lines_of(
            s.subrange(k + 1, s.len() as int),
        ),
{
    lemma_first_newline_unique(s, k);
}

/// A text without a line feed is one line, or none where it is empty.
proof fn lemma_lines_last(s: Seq<char>)
    requires
        forall|j: int| 0 <= j < s.len() ==> s[j] != '\n',
    ensures
        lines_of(s) == if s.len() == 0 {
            Seq::<Seq<char>>::empty()
        } else {
            seq![s]
        },
{
    lemma_first_newline_unique(s, s.len() as int);
}

/// Among the occurrences up to `bound`, where none lies beyond it, one is the last.
proof fn lemma_last_occurrence_below(text: Seq<char>, pat: Seq<char>, bound: int)
    requires
        exists|i: int| occurs_at(text, pat, i) && i <= bound,
        forall|j: int| bound < j ==> !occurs_at(text, pat, j),
    ensures
        exists|i: int| is_last_occurrence(text, pat, i),
    decreases bound + 1,
{
    let some = choose|i: int| occurs_at(text, pat, i) && i <= bound;
    if occurs_at(text, pat, bound) {
        assert(is_last_occurrence(text, pat, bound));
    } else {
        assert(occurs_at(text, pat, some) && some <= bound - 1);
        lemma_last_occurrence_below(text, pat, bound - 1);
    }
}

/// A pattern that occurs in a text has a last occurrence, which `last_occurrence` is.
pub proof fn lemma_last_occurrence_exists(text: Seq<char>, pat: Seq<char>)
    requires
        occurs(text, pat),
    ensures
        is_last_occurrence(text, pat, last_occurrence(text, pat)),
{
    let some = choose|i: int| occurs_at(text, pat, i);
    lemma_last_occurrence_below(text, pat, text.len() as int);
}

/// The last lines are no more than were asked for, and they are the end of the lines.
pub proof fn lemma_last_lines(s: Seq<char>, count: nat)
    ensures
        last_lines(s, count).len() <= count,
        last_lines(s, count).len() <= lines_of(s).len(),
        forall|i: int|
            0 <= i < last_lines(s, count).len() ==> #[trigger] last_lines(s, count)[i] == lines_of(
                s,
            )[lines_of(s).len() - last_lines(s, count).len() + i],
{
}

/// Calls `String::from_utf8`, which gives the text that the bytes encode where they
/// are valid UTF-8 and fails on all other bytes.
#[verifier::external_body]
fn string_from_utf8(bytes: Vec<u8>) -> (r: Option<String>)
    ensures
        r is Some <==> valid_utf8(bytes@),
        r is Some ==> r->0@ == decode_utf8(bytes@),
{
    match String::from_utf8(bytes) {
        Ok(text) => Some(text),
        Err(_) => None,
    }
}

/// The text that `bytes` encode, or `None` where they are not valid UTF-8.
pub fn decode_text(bytes: Vec<u8>) -> (r: Option<String>)
    ensures
        r is Some <==> valid_utf8(bytes@),
        r is Some ==> r->0@ == decode_utf8(bytes@),
{
    string_from_utf8(bytes)
}

/// The characters of `s`, in order.
pub fn chars_of(s: &str) -> (v: Vec<char>)
    ensures
        v@ == s@,
{
    let mut v: Vec<char> = Vec::new();
    for c in it: s.chars()
        invariant
            it.seq() == s@,
            v@ == it.seq().take(it.index()),
    {
        v.push(c);
    }
    v
}

/// Where each line of `text` begins and ends, line by line.
pub fn line_spans(text: &Vec<char>) -> (spans: Vec<(usize, usize)>)
    ensures
        spans_within(spans@, text@.len()),
        span_lines(text@, spans@) == lines_of(text@),
{
    let n: usize = text.len();
    let mut spans: Vec<(usize, usize)> = Vec::new();
    let mut start: usize = 0;
    let mut i: usize = 0;
    proof {
        assert(text@.subrange(0, n as int) =~= text@);
        assert(span_lines(text@, spans@) + lines_of(text@) =~= lines_of(text@));
    }
    while i < n
        invariant
            n == text@.len(),
            start <= i <= n,
            forall|j: int| start <= j < i ==> text@[j] != '\n',
            spans_within(spans@, text@.len()),
            lines_of(text@) == span_lines(text@, spans@) + lines_of(
                text@.subrange(start as int, n as int),
            ),
        decreases n - i,
    {
        if text[i] == '\n' {
            let end: usize = if i > start && text[i - 1] == '\r' {
                i - 1
            } else {
                i
            };
            proof {
                let rest = text@.subrange(start as int, n as int);
                let k = i - start;
                assert forall|j: int| 0 <= j < k implies rest[j] != '\n' by {
                    assert(rest[j] == text@[start + j]);
                }
                assert(rest[k] == text@[i as int]);
                lemma_lines_step(rest, k);
                assert(rest.subrange(0, k) =~= text@.subrange(start as int, i as int));
                assert(rest.subrange(k + 1, rest.len() as int) =~= text@.subrange(
                    i + 1,
                    n as int,
                ));
                let line = text@.subrange(start as int, i as int);
                if i > start {
                    assert(line.last() == text@[i - 1]);
                }
                assert(strip_cr(line) =~= text@.subrange(start as int, end as int));
                assert(span_lines(text@, spans@.push((start, end))) =~= span_lines(
                    text@,
                    spans@,
                ) + seq![strip_cr(line)]);
            }
            spans.push((start, end));
            start = i + 1;
        }
        i += 1;
    }
    proof {
        let rest = text@.subrange(start as int, n as int);
        assert forall|j: int| 0 <= j < rest.len() implies rest[j] != '\n' by {
            assert(rest[j] == text@[start + j]);
        }
        lemma_lines_last(rest);
    }
    if start < n {
        proof {
            assert(span_lines(text@, spans@.push((start, n))) =~= span_lines(text@, spans@)
                + seq![text@.subrange(start as int, n as int)]);
        }
        spans.push((start, n));
    }
    spans
}

/// Whether `pat` stands in `text` at position `i`.
pub fn matches_at(text: &Vec<char>, pat: &Vec<char>, i: usize) -> (b: bool)
    ensures
        b == occurs_at(text@, pat@, i as int),
{
    let m: usize = pat.len();
    if m > text.len() || i > text.len() - m {
        return false;
    }
    let mut k: usize = 0;
    while k < m
        invariant
            m == pat.len(),
            i + m <= text.len(),
            k <= m,
            forall|j: int| 0 <= j < k ==> text@[i + j] == pat@[j],
        decreases m - k,
    {
        if text[i + k] != pat[k] {
            proof {
                assert(text@.subrange(i as int, i + m)[k as int] == text@[i + k]);
            }
            return false;
        }
        k += 1;
    }
    proof {
        assert(text@.subrange(i as int, i + m) =~= pat@);
    }
    true
}

/// The rightmost position at which `pat` stands in `text`, if it stands in it at all.
pub fn find_last(text: &Vec<char>, pat: &Vec<char>) -> (r: Option<usize>)
    ensures
        match r {
            Some(i) => is_last_occurrence(text@, pat@, i as int),
            None => !occurs(text@, pat@),
        },
{
    if pat.len() > text.len() {
        return None;
    }
    let mut i: usize = text.len() - pat.len();
    loop
        invariant
            i + pat@.len() <= text@.len(),
            forall|j: int| i < j ==> !occurs_at(text@, pat@, j),
        decreases i,
    {
        if matches_at(text, pat, i) {
            return Some(i);
        }
        if i == 0 {
            return None;
        }
        i -= 1;
    }
}

/// Whether `text` begins with `pat`.
pub fn starts_with(text: &Vec<char>, pat: &Vec<char>) -> (b: bool)
    ensures
        b == occurs_at(text@, pat@, 0),
{
    matches_at(text, pat, 0)
}

/// The last `count` lines of `text`, joined by line feeds.
pub fn tail_of_lines(text: &str, count: usize) -> (out: String)
    ensures
        out@ == join_lines(last_lines(text@, count as nat)),
{
    let chars = chars_of(text);
    let spans = line_spans(&chars);
    let total: usize = spans.len();
    let from: usize = if total > count {
        total - count
    } else {
        0
    };
    let ghost all = lines_of(text@);
    let mut out = String::new();
    let mut k: usize = from;
    proof {
        assert(all.subrange(from as int, total as int) =~= last_lines(text@, count as nat));
    }
    while k < total
        invariant
            chars@ == text@,
            total == spans@.len(),
            all == lines_of(text@),
            spans_within(spans@, text@.len()),
            span_lines(text@, spans@) == all,
            from <= k <= total,
            out@ == join_lines(all.subrange(from as int, k as int)),
        decreases total - k,
    {
        let (a, b) = spans[k];
        proof {
            let upto = all.subrange(from as int, k + 1);
            assert(upto.drop_last() =~= all.subrange(from as int, k as int));
            assert(upto.last() == all[k as int]);
            assert(all[k as int] == text@.subrange(a as int, b as int));
            reveal_strlit("\n");
            assert("\n"@ =~= seq!['\n']);
            if k == from {
                assert(all.subrange(from as int, k as int) =~= Seq::<Seq<char>>::empty());
                assert(Seq::<char>::empty() + all[k as int] =~= all[k as int]);
            }
        }
        if k > from {
            out.append("\n");
        }
        out.append(text.substring_char(a, b));
        k += 1;
    }
    out
}

/// The lines of `text`, each as a text of its own.
pub fn lines(text: &str) -> (out: Vec<String>)
    ensures
        out.deep_view() == lines_of(text@),
{
    let chars = chars_of(text);
    let spans = line_spans(&chars);
    let mut out: Vec<String> = Vec::new();
    let mut k: usize = 0;
    while k < spans.len()
        invariant
            chars@ == text@,
            spans_within(spans@, text@.len()),
            span_lines(text@, spans@) == lines_of(text@),
            k <= spans@.len(),
            out.deep_view() == lines_of(text@).take(k as int),
        decreases spans@.len() - k,
    {
        let (a, b) = spans[k];
        let line = text.substring_char(a, b).to_owned();
        let ghost before = out.deep_view();
        let ghost added = line@;
        out.push(line);
        proof {
            let all = lines_of(text@);
            assert(all[k as int] == text@.subrange(a as int, b as int));
            assert(out.deep_view() =~= before.push(added));
            assert(before.push(added) =~= all.take(k + 1));
        }
        k += 1;
    }
    proof {
        assert(lines_of(text@).take(k as int) =~= lines_of(text@));
    }
    out
}

} // verus!
