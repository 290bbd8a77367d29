//! Text-level framing: how a journal is cut into lines, and which lines are
//! blank.

use vstd::prelude::*;

verus! {

/// `String::push` appends one character.
pub assume_specification[ String::push ](s: &mut String, ch: char)
    ensures
        final(s)@ == old(s)@.push(ch),
;

/// The characters with the Unicode property `White_Space`.
pub open spec fn is_whitespace_char(c: char) -> bool {
    ||| '\u{9}' <= c <= '\u{D}'
    ||| c == ' '
    ||| c == '\u{85}'
    ||| c == '\u{A0}'
    ||| c == '\u{1680}'
    ||| '\u{2000}' <= c <= '\u{200A}'
    ||| c == '\u{2028}'
    ||| c == '\u{2029}'
    ||| c == '\u{202F}'
    ||| c == '\u{205F}'
    ||| c == '\u{3000}'
}

/// A line is blank when it holds nothing but white space.
pub open spec fn blank(line: Seq<char>) -> bool {
    forall|i: int| 0 <= i < line.len() ==> is_whitespace_char(#[trigger] line[i])
}

/// A text fits on one line when it holds no line feed and no carriage
/// return.
pub open spec fn single_line(text: Seq<char>) -> bool {
    !text.contains('\n') && !text.contains('\r')
}

/// Index of the first line feed in `text`, or its length where there is none.
pub open spec fn line_end(text: Seq<char>) -> nat
    decreases text.len(),
{
    if text.len() == 0 || text[0] == '\n' {
        0
    } else {
        1 + line_end(text.skip(1))
    }
}

/// A line without the carriage return that may close it.
pub open spec fn chomp(line: Seq<char>) -> Seq<char> {
    if line.len() > 0 && line.last() == '\r' {
        line.drop_last()
    } else {
        line
    }
}

/// The lines of a text. A line ends at a line feed, or at a carriage return
/// directly followed by one; the terminator is not part of the line. The last
/// line need not be terminated, and an empty rest after the last terminator
/// is no line.
pub open spec fn lines_of(text: Seq<char>) -> Seq<Seq<char>>
    decreases text.len(),
{
    if text.len() == 0 {
        Seq::empty()
    } else {
        let end = line_end(text);
        if end >= text.len() {
            seq![text]
        } else {
            seq![chomp(text.take(end as int))] + lines_of(text.skip(end as int + 1))
        }
    }
}

/// The text of a file that holds `lines`, each closed by a line feed.
pub open spec fn file_text(lines: Seq<Seq<char>>) -> Seq<char>
    decreases lines.len(),
{
    if lines.len() == 0 {
        Seq::empty()
    } else {
        file_text(lines.drop_last()) + lines.last() + seq!['\n']
    }
}

/// A line ends at the first line feed, and not before.
proof fn lemma_line_end_bounds(text: Seq<char>)
    ensures
        line_end(text) <= text.len(),
        line_end(text) < text.len() ==> text[line_end(text) as int] == '\n',
        forall|i: int| 0 <= i < line_end(text) ==> text[i] != '\n',
    decreases text.len(),
{
    if text.len() == 0 || text[0] == '\n' {
    } else {
        let rest = text.skip(1);
        lemma_line_end_bounds(rest);
        assert forall|i: int| 0 <= i < line_end(text) implies text[i] != '\n' by {
            if i > 0 {
                assert(text[i] == rest[i - 1]);
            }
        }
        if line_end(text) < text.len() {
            assert(text[line_end(text) as int] == rest[line_end(rest) as int]);
        }
    }
}

/// The first line feed of `head + tail` is that of `tail` where `head` holds
/// none.
proof fn lemma_line_end_after(head: Seq<char>, tail: Seq<char>)
    requires
        !head.contains('\n'),
    ensures
        line_end(head + tail) == head.len() + line_end(tail),
    decreases head.len(),
{
    if head.len() == 0 {
        assert(head + tail =~= tail);
    } else {
        let whole = head + tail;
        assert(whole[0] == head[0]);
        assert(head.contains(head[0]));
        assert(whole.skip(1) =~= head.skip(1) + tail);
        assert(!head.skip(1).contains('\n')) by {
            if head.skip(1).contains('\n') {
                let i = choose|i: int| 0 <= i < head.skip(1).len() && head.skip(1)[i] == '\n';
                assert(head[i + 1] == '\n');
                assert(head.contains('\n'));
            }
        }
        lemma_line_end_after(head.skip(1), tail);
    }
}

/// A terminated first line is split off.
pub(crate) proof fn lemma_lines_of_terminated(head: Seq<char>, tail: Seq<char>)
    requires
        !head.contains('\n'),
    ensures
        lines_of(head + seq!['\n'] + tail) == seq![chomp(head)] + lines_of(tail),
{
    let rest = seq!['\n'] + tail;
    let whole = head + seq!['\n'] + tail;
    assert(whole =~= head + rest);
    lemma_line_end_after(head, rest);
    assert(line_end(rest) == 0);
    assert(whole.take(head.len() as int) =~= head);
    assert(whole.skip(head.len() as int + 1) =~= tail);
}

/// A text without a line feed is one line, or none where it is empty.
pub(crate) proof fn lemma_lines_of_unterminated(text: Seq<char>)
    requires
        !text.contains('\n'),
    ensures
        lines_of(text) == if text.len() == 0 {
            Seq::<Seq<char>>::empty()
        } else {
            seq![text]
        },
{
    lemma_line_end_after(text, Seq::empty());
    assert(text + Seq::<char>::empty() =~= text);
}

/// A carriage return that was read and is not yet known to belong to its
/// line.
spec fn carried(held: bool) -> Seq<char> {
    if held {
        seq!['\r']
    } else {
        Seq::empty()
    }
}

/// Appending anything but a line feed adds no line feed.
proof fn lemma_no_line_feed_push(text: Seq<char>, c: char)
    requires
        !text.contains('\n'),
        c != '\n',
    ensures
        !text.push(c).contains('\n'),
{
    if text.push(c).contains('\n') {
        let k = choose|k: int| 0 <= k < text.push(c).len() && text.push(c)[k] == '\n';
        assert(text[k] == '\n');
        assert(text.contains('\n'));
    }
}

/// Whether `c` is white space.
pub fn is_whitespace(c: char) -> (b: bool)
    ensures
        b == is_whitespace_char(c),
{
    (c >= '\u{9}' && c <= '\u{D}') || c == ' ' || c == '\u{85}' || c == '\u{A0}' || c == '\u{1680}'
        || (c >= '\u{2000}' && c <= '\u{200A}') || c == '\u{2028}' || c == '\u{2029}' || c
        == '\u{202F}' || c == '\u{205F}' || c == '\u{3000}'
}

/// Whether `line` holds nothing but white space.
pub fn is_blank(line: &str) -> (b: bool)
    ensures
        b == blank(line@),
{
    let mut all: bool = true;
    for c in it: line.chars()
        invariant
            it.seq() == line@,
            all == blank(line@.take(it.index() as int)),
    {
        proof {
            let before = line@.take(it.index() as int);
            let after = line@.take(it.index() + 1);
            assert(after =~= before.push(c));
            if blank(after) {
                assert forall|i: int| 0 <= i < before.len() implies is_whitespace_char(
                    #[trigger] before[i],
                ) by {
                    assert(before[i] == after[i]);
                }
                assert(after[before.len() as int] == c);
            }
            if blank(before) && is_whitespace_char(c) {
                assert forall|i: int| 0 <= i < after.len() implies is_whitespace_char(
                    #[trigger] after[i],
                ) by {
                    if i < before.len() {
                        assert(after[i] == before[i]);
                    }
                }
            }
        }
        all = all && is_whitespace(c);
    }
    proof {
        assert(line@.take(line@.len() as int) =~= line@);
    }
    all
}

/// Whether two texts hold the same characters.
pub fn same_text(a: &str, b: &str) -> (same: bool)
    ensures
        same == (a@ == b@),
{
    let left = a.to_owned();
    let right = b.to_owned();
    left == right
}

/// Cuts `text` into its lines.
pub fn split_lines(text: &str) -> (lines: Vec<String>)
    ensures
        lines.deep_view() == lines_of(text@),
{
    let mut lines: Vec<String> = Vec::new();
    let mut cur = String::new();
    // A carriage return that was read and not yet given to `cur`: it is
    // dropped where a line feed follows.
    let mut held: bool = false;
    proof {
        assert(lines.deep_view() =~= Seq::<Seq<char>>::empty());
        assert(cur@ + Seq::<char>::empty() + text@.skip(0) =~= text@);
    }
    for c in it: text.chars()
        invariant
            it.seq() == text@,
            !cur@.contains('\n'),
            !held ==> cur@.len() == 0 || cur@.last() != '\r',
            lines_of(text@) == lines.deep_view() + lines_of(
                cur@ + carried(held) + text@.skip(it.index() as int),
            ),
    {
        let ghost i = it.index() as int;
        let ghost tail = text@.skip(i + 1);
        let ghost done = lines.deep_view();
        let ghost line = cur@;
        let ghost was_held = held;
        proof {
            assert(text@.skip(i) =~= seq![c] + tail);
        }
        if c == '\n' {
            proof {
                let head = line + carried(held);
                lemma_no_line_feed_push(line, '\r');
                assert(line + Seq::<char>::empty() =~= line);
                assert(line + seq!['\r'] =~= line.push('\r'));
                assert(line + carried(held) + text@.skip(i) =~= head + seq!['\n'] + tail);
                lemma_lines_of_terminated(head, tail);
                assert(chomp(head) =~= line);
            }
            lines.push(cur);
            cur = String::new();
            held = false;
            proof {
                assert(lines.deep_view() =~= done.push(line));
                assert(cur@ + carried(held) + tail =~= tail);
                assert(done + (seq![line] + lines_of(tail)) =~= done.push(line) + lines_of(tail));
            }
        } else {
            if held {
                cur.push('\r');
                proof {
                    lemma_no_line_feed_push(line, '\r');
                }
            }
            let ghost mid = cur@;
            if c == '\r' {
                held = true;
            } else {
                cur.push(c);
                held = false;
                proof {
                    lemma_no_line_feed_push(mid, c);
                }
            }
            proof {
                assert(line + carried(was_held) + text@.skip(i) =~= cur@ + carried(held) + tail);
            }
        }
    }
    let ghost rest = cur@ + carried(held);
    proof {
        assert(text@.skip(text@.len() as int) =~= Seq::<char>::empty());
        assert(rest + text@.skip(text@.len() as int) =~= rest);
        lemma_no_line_feed_push(cur@, '\r');
        assert(cur@ + seq!['\r'] =~= cur@.push('\r'));
        assert(cur@ + Seq::<char>::empty() =~= cur@);
        lemma_lines_of_unterminated(rest);
    }
    if held {
        cur.push('\r');
    }
    let ghost done = lines.deep_view();
    if cur.as_str().is_empty() {
        proof {
            assert(done + Seq::<Seq<char>>::empty() =~= done);
        }
    } else {
        lines.push(cur);
        proof {
            assert(lines.deep_view() =~= done + seq![rest]);
        }
    }
    lines
}

/// Two texts fit on one line together exactly when each does.
pub(crate) proof fn lemma_single_line_concat(a: Seq<char>, b: Seq<char>)
    ensures
        single_line(a + b) <==> single_line(a) && single_line(b),
{
    if single_line(a) && single_line(b) {
        if (a + b).contains('\n') || (a + b).contains('\r') {
            let k = choose|k: int|
                0 <= k < (a + b).len() && ((a + b)[k] == '\n' || (a + b)[k] == '\r');
            if k < a.len() {
                assert(a.contains(a[k]));
            } else {
                assert(b.contains(b[k - a.len()]));
            }
        }
    }
    if single_line(a + b) {
        assert forall|k: int| 0 <= k < a.len() implies a[k] != '\n' && a[k] != '\r' by {
            assert((a + b)[k] == a[k]);
            assert((a + b).contains(a[k]));
        }
        assert forall|k: int| 0 <= k < b.len() implies b[k] != '\n' && b[k] != '\r' by {
            assert((a + b)[k + a.len()] == b[k]);
            assert((a + b).contains(b[k]));
        }
    }
}

/// Whether `text` fits on one line.
pub fn fits_one_line(text: &str) -> (fits: bool)
    ensures
        fits == single_line(text@),
{
    let mut fits: bool = true;
    for c in it: text.chars()
        invariant
            it.seq() == text@,
            fits == single_line(text@.take(it.index() as int)),
    {
        proof {
            let before = text@.take(it.index() as int);
            assert(text@.take(it.index() + 1) =~= before + seq![c]);
            lemma_single_line_concat(before, seq![c]);
            if c != '\n' && c != '\r' {
                assert forall|k: int| 0 <= k < seq![c].len() implies seq![c][k] != '\n' && seq![
                    c,
                ][k] != '\r' by {}
            } else {
                assert(seq![c][0] == c);
                assert(seq![c].contains(c));
            }
        }
        fits = fits && c != '\n' && c != '\r';
    }
    proof {
        assert(text@.take(text@.len() as int) =~= text@);
    }
    fits
}

/// Appends `piece` to a line that stays on one line.
pub(crate) fn push_piece(line: &mut String, piece: &str)
    requires
        single_line(old(line)@),
        single_line(piece@),
    ensures
        final(line)@ == old(line)@ + piece@,
        single_line(final(line)@),
{
    proof {
        lemma_single_line_concat(line@, piece@);
    }
    line.append(piece);
}

/// Where a text ends with a line, the lines of what follows come after its
/// own.
pub proof fn lemma_lines_of_concat(head: Seq<char>, tail: Seq<char>)
    requires
        head.len() == 0 || head.last() == '\n',
    ensures
        lines_of(head + tail) == lines_of(head) + lines_of(tail),
    decreases head.len(),
{
    if head.len() == 0 {
        assert(head + tail =~= tail);
        assert(lines_of(head) + lines_of(tail) =~= lines_of(tail));
    } else {
        lemma_line_end_bounds(head);
        let end = line_end(head) as int;
        let first = head.take(end);
        let rest = head.skip(end + 1);
        assert(!first.contains('\n')) by {
            if first.contains('\n') {
                let k = choose|k: int| 0 <= k < first.len() && first[k] == '\n';
                assert(head[k] == '\n');
            }
        }
        assert(head =~= first + seq!['\n'] + rest);
        assert(head + tail =~= first + seq!['\n'] + (rest + tail));
        lemma_lines_of_terminated(first, rest + tail);
        lemma_lines_of_terminated(first, rest);
        if rest.len() > 0 {
            assert(rest.last() == head.last());
        }
        lemma_lines_of_concat(rest, tail);
        assert(seq![chomp(first)] + (lines_of(rest) + lines_of(tail)) =~= (seq![chomp(first)]
            + lines_of(rest)) + lines_of(tail));
    }
}

/// Framing: lines that each fit on one line, written one after the other and
/// each closed by a line feed, are read back as they were written, whatever
/// follows them.
pub proof fn lemma_lines_of_file_text(lines: Seq<Seq<char>>, tail: Seq<char>)
    requires
        forall|i: int| 0 <= i < lines.len() ==> single_line(#[trigger] lines[i]),
    ensures
        lines_of(file_text(lines) + tail) == lines + lines_of(tail),
    decreases lines.len(),
{
    if lines.len() == 0 {
        assert(file_text(lines) + tail =~= tail);
        assert(lines + lines_of(tail) =~= lines_of(tail));
    } else {
        let init = lines.drop_last();
        let last = lines.last();
        assert forall|i: int| 0 <= i < init.len() implies single_line(#[trigger] init[i]) by {
            assert(init[i] == lines[i]);
        }
        assert(single_line(last));
        assert(file_text(lines) + tail =~= file_text(init) + (last + seq!['\n'] + tail));
        lemma_lines_of_file_text(init, last + seq!['\n'] + tail);
        lemma_lines_of_terminated(last, tail);
        assert(chomp(last) == last) by {
            if last.len() > 0 && last.last() == '\r' {
                assert(last.contains('\r'));
            }
        }
        assert(init + (seq![last] + lines_of(tail)) =~= lines + lines_of(tail));
    }
}

/// The texts of `pieces`, one after the other.
pub open spec fn appended(pieces: Seq<Seq<char>>) -> Seq<char>
    decreases pieces.len(),
{
    if pieces.len() == 0 {
        Seq::empty()
    } else {
        appended(pieces.drop_last()) + pieces.last()
    }
}

/// Each line with the line feed that closes it.
pub open spec fn terminated(lines: Seq<Seq<char>>) -> Seq<Seq<char>> {
    lines.map_values(|line: Seq<char>| line.push('\n'))
}

/// Appending lines, each with its line feed, gives the text of the file that
/// holds them.
pub proof fn lemma_appended_lines(lines: Seq<Seq<char>>)
    ensures
        appended(terminated(lines)) == file_text(lines),
    decreases lines.len(),
{
    if lines.len() > 0 {
        lemma_appended_lines(lines.drop_last());
        assert(terminated(lines).drop_last() =~= terminated(lines.drop_last()));
        assert(lines.last().push('\n') =~= lines.last() + seq!['\n']);
        assert(file_text(lines.drop_last()) + (lines.last() + seq!['\n']) =~= file_text(
            lines.drop_last(),
        ) + lines.last() + seq!['\n']);
    }
}

/// Append-only: the text of a file that holds more lines begins with the text
/// of the file that held the first of them.
pub proof fn lemma_file_text_concat(first: Seq<Seq<char>>, second: Seq<Seq<char>>)
    ensures
        file_text(first + second) == file_text(first) + file_text(second),
    decreases second.len(),
{
    if second.len() == 0 {
        assert(first + second =~= first);
        assert(file_text(first) + file_text(second) =~= file_text(first));
    } else {
        assert((first + second).drop_last() =~= first + second.drop_last());
        assert((first + second).last() == second.last());
        lemma_file_text_concat(first, second.drop_last());
        assert(file_text(first) + file_text(second.drop_last()) + second.last() + seq!['\n']
            =~= file_text(first) + (file_text(second.drop_last()) + second.last() + seq!['\n']));
    }
}

/// The white space of JSON: space, tab, line feed and carriage return.
pub open spec fn is_json_space(c: char) -> bool {
    c == ' ' || c == '\t' || c == '\n' || c == '\r'
}

/// Whether a text holds nothing but the white space of JSON.
pub open spec fn json_blank(text: Seq<char>) -> bool {
    forall|i: int| 0 <= i < text.len() ==> is_json_space(#[trigger] text[i])
}

/// How many characters of JSON white space a text begins with.
pub open spec fn leading_space(text: Seq<char>) -> nat
    decreases text.len(),
{
    if text.len() > 0 && is_json_space(text[0]) {
        1 + leading_space(text.skip(1))
    } else {
        0
    }
}

/// How many characters of JSON white space a text ends with.
pub open spec fn trailing_space(text: Seq<char>) -> nat
    decreases text.len(),
{
    if text.len() > 0 && is_json_space(text.last()) {
        1 + trailing_space(text.drop_last())
    } else {
        0
    }
}

/// A text without the JSON white space around it.
pub open spec fn json_trimmed(text: Seq<char>) -> Seq<char> {
    let from = leading_space(text) as int;
    let to = text.len() - trailing_space(text);
    if from >= to {
        Seq::empty()
    } else {
        text.subrange(from, to)
    }
}

/// The white space that a text begins with ends where the first other
/// character stands.
proof fn lemma_leading_space(text: Seq<char>, n: int)
    requires
        0 <= n <= text.len(),
        forall|k: int| 0 <= k < n ==> is_json_space(#[trigger] text[k]),
        n == text.len() || !is_json_space(text[n]),
    ensures
        leading_space(text) == n,
    decreases n,
{
    if n > 0 {
        let rest = text.skip(1);
        assert(is_json_space(text[0]));
        assert forall|k: int| 0 <= k < n - 1 implies is_json_space(#[trigger] rest[k]) by {
            assert(rest[k] == text[k + 1]);
        }
        if n < text.len() {
            assert(rest[n - 1] == text[n]);
        }
        lemma_leading_space(rest, n - 1);
    }
}

/// The white space that a text ends with begins behind the last other
/// character.
proof fn lemma_trailing_space(text: Seq<char>, end: int)
    requires
        0 <= end <= text.len(),
        forall|k: int| end <= k < text.len() ==> is_json_space(#[trigger] text[k]),
        end == 0 || !is_json_space(text[end - 1]),
    ensures
        trailing_space(text) == text.len() - end,
    decreases text.len() - end,
{
    if end < text.len() {
        let rest = text.drop_last();
        assert(is_json_space(text[text.len() - 1]));
        assert forall|k: int| end <= k < rest.len() implies is_json_space(#[trigger] rest[k]) by {
            assert(rest[k] == text[k]);
        }
        if end > 0 {
            assert(rest[end - 1] == text[end - 1]);
        }
        lemma_trailing_space(rest, end);
    }
}

/// A part of a text that fits on one line fits on one line.
pub(crate) proof fn lemma_single_line_part(text: Seq<char>, from: int, to: int)
    requires
        single_line(text),
        0 <= from <= to <= text.len(),
    ensures
        single_line(text.subrange(from, to)),
{
    let part = text.subrange(from, to);
    if part.contains('\n') || part.contains('\r') {
        let k = choose|k: int| 0 <= k < part.len() && (part[k] == '\n' || part[k] == '\r');
        assert(text[from + k] == part[k]);
        assert(text.contains(text[from + k]));
    }
}

/// Whether `c` is white space in JSON.
pub fn is_json_space_char(c: char) -> (b: bool)
    ensures
        b == is_json_space(c),
{
    c == ' ' || c == '\t' || c == '\n' || c == '\r'
}

/// Whether `text` holds nothing but the white space of JSON.
pub fn is_json_blank(text: &str) -> (b: bool)
    ensures
        b == json_blank(text@),
{
    let mut all: bool = true;
    for c in it: text.chars()
        invariant
            it.seq() == text@,
            all == json_blank(text@.take(it.index() as int)),
    {
        proof {
            let before = text@.take(it.index() as int);
            let after = text@.take(it.index() + 1);
            assert(after =~= before.push(c));
            if json_blank(after) {
                assert forall|i: int| 0 <= i < before.len() implies is_json_space(
                    #[trigger] before[i],
                ) by {
                    assert(before[i] == after[i]);
                }
                assert(after[before.len() as int] == c);
            }
            if json_blank(before) && is_json_space(c) {
                assert forall|i: int| 0 <= i < after.len() implies is_json_space(
                    #[trigger] after[i],
                ) by {
                    if i < before.len() {
                        assert(after[i] == before[i]);
                    }
                }
            }
        }
        all = all && is_json_space_char(c);
    }
    proof {
        assert(text@.take(text@.len() as int) =~= text@);
    }
    all
}

/// Where `text` stands without the JSON white space around it: how many
/// characters of white space it begins with, and where the white space that
/// it ends with begins.
pub fn json_span(text: &str) -> (span: (usize, usize))
    ensures
        span.0 == leading_space(text@),
        span.1 == text@.len() - trailing_space(text@),
        span.0 <= text@.len(),
        span.1 <= text@.len(),
{
    let len = text.unicode_len();
    let mut at: usize = 0;
    let mut seen: bool = false;
    let mut from: usize = 0;
    let mut to: usize = 0;
    for c in it: text.chars()
        invariant
            it.seq() == text@,
            len == text@.len(),
            at == it.index(),
            at <= len,
            !seen ==> from == at && to == 0 && forall|k: int|
                0 <= k < at ==> is_json_space(#[trigger] text@[k]),
            seen ==> {
                &&& from < to <= at
                &&& !is_json_space(text@[from as int])
                &&& forall|k: int| 0 <= k < from ==> is_json_space(#[trigger] text@[k])
                &&& !is_json_space(text@[to - 1])
                &&& forall|k: int| to <= k < at ==> is_json_space(#[trigger] text@[k])
            },
    {
        if is_json_space_char(c) {
            if !seen {
                from = at + 1;
            }
        } else {
            if !seen {
                seen = true;
                from = at;
            }
            to = at + 1;
        }
        at = at + 1;
    }
    proof {
        if seen {
            lemma_leading_space(text@, from as int);
            lemma_trailing_space(text@, to as int);
        } else {
            lemma_leading_space(text@, len as int);
            lemma_trailing_space(text@, 0);
        }
    }
    (from, to)
}

} // verus!
