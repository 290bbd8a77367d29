//! Replay: the history that a journal holds. Lines that are blank, broken,
//! reserved or of an unknown kind are passed over; the rest come back in the
//! order of the file.

use vstd::prelude::*;
use crate::json::json_parse;
use crate::model::{views};
use crate::record::{
    decode_line, record_of, Event, LineRecord, LineRecordView, PayloadView, ResponseItem,
    RolloutItem, RolloutItemView,
};
use crate::text::{
    chomp, file_text, lemma_lines_of_concat, lemma_lines_of_file_text,
    lemma_lines_of_terminated, lemma_lines_of_unterminated, lines_of, single_line, split_lines,
};

verus! {

/// What replay found: nothing, or the records of an earlier session.
#[derive(Debug, PartialEq, Eq)]
pub enum InitialHistory {
    New,
    Resumed(Vec<RolloutItem>),
}

impl View for InitialHistory {
    type V = Seq<RolloutItemView>;

    open spec fn view(&self) -> Seq<RolloutItemView> {
        match self {
            InitialHistory::New => Seq::empty(),
            InitialHistory::Resumed(items) => views(items@),
        }
    }
}

/// The items that are there, in order.
pub open spec fn compact<T>(items: Seq<Option<T>>) -> Seq<T>
    decreases items.len(),
{
    if items.len() == 0 {
        Seq::empty()
    } else {
        compact(items.drop_last()) + match items.last() {
            Some(item) => seq![item],
            None => Seq::empty(),
        }
    }
}

/// The record that a line gives to the history. A response item or an event
/// is kept where the caller could read it and, for a response item, the
/// persistence policy still wants it: that is `keep`. A session header is
/// always kept. Everything else is passed over. On a response item in the
/// history `persisted` repeats the policy's word; on an event, of which the
/// policy is not asked at replay, it says no more than that the event was
/// kept.
pub open spec fn item_of(record: LineRecordView, keep: bool) -> Option<RolloutItemView> {
    match record {
        LineRecordView::Response(body) => if keep {
            Some(RolloutItemView::ResponseItem(PayloadView { body, persisted: true }))
        } else {
            None
        },
        LineRecordView::Event(body) => if keep {
            Some(RolloutItemView::Event(PayloadView { body, persisted: true }))
        } else {
            None
        },
        LineRecordView::SessionMeta { prior, header } => Some(
            RolloutItemView::SessionMeta(header),
        ),
        _ => None,
    }
}

/// The caller's word on line `i`; a line it says nothing of is not kept.
pub open spec fn kept(keep: Seq<bool>, i: int) -> bool {
    0 <= i < keep.len() && keep[i]
}

/// What each line gives to the history.
pub open spec fn candidates(records: Seq<LineRecordView>, keep: Seq<bool>) -> Seq<
    Option<RolloutItemView>,
> {
    Seq::new(records.len(), |i: int| item_of(records[i], kept(keep, i)))
}

/// The history that a journal's lines hold.
pub open spec fn history_of(records: Seq<LineRecordView>, keep: Seq<bool>) -> Seq<
    RolloutItemView,
> {
    compact(candidates(records, keep))
}

/// What the lines of a journal hold, line by line.
pub open spec fn records_of(text: Seq<char>) -> Seq<LineRecordView> {
    lines_of(text).map_values(|line: Seq<char>| record_of(line))
}

/// The history that the text of a journal holds.
pub open spec fn replay(text: Seq<char>, keep: Seq<bool>) -> Seq<RolloutItemView> {
    history_of(records_of(text), keep)
}

/// Reads a journal line by line. The result has one entry for each line of
/// `text`, blank and broken ones too.
pub fn read_records(text: &str) -> (records: Vec<LineRecord>)
    ensures
        views(records@) == records_of(text@),
{
    let lines = split_lines(text);
    let mut records: Vec<LineRecord> = Vec::new();
    let mut i: usize = 0;
    while i < lines.len()
        invariant
            i <= lines.len(),
            lines.deep_view() == lines_of(text@),
            views(records@) == records_of(text@).take(i as int),
        decreases lines.len() - i,
    {
        let ghost before = views(records@);
        let record = decode_line(lines[i].as_str());
        proof {
            assert(lines.deep_view()[i as int] == lines[i as int]@);
        }
        records.push(record);
        proof {
            assert(views(records@) =~= before.push(record@));
            assert(records_of(text@).take(i + 1) =~= records_of(text@).take(i as int).push(
                record@,
            ));
        }
        i = i + 1;
    }
    proof {
        assert(records_of(text@).take(i as int) =~= records_of(text@));
    }
    records
}

/// Builds the history from the lines of a journal. `keep[i]` is the caller's
/// word on line `i`, where that line is a response item or an event: whether
/// its document read as one and, for a response item, whether the
/// persistence policy wants it. In the history every response item
/// and event is marked `persisted`: for a response item that repeats the
/// policy's word, for an event it says only that the event was kept.
pub fn resume(records: &Vec<LineRecord>, keep: &Vec<bool>) -> (history: InitialHistory)
    ensures
        history@ == history_of(views(records@), keep@),
        history is New <==> history@.len() == 0,
{
    let mut items: Vec<RolloutItem> = Vec::new();
    let ghost all = candidates(views(records@), keep@);
    let mut i: usize = 0;
    proof {
        assert(all.take(0) =~= Seq::empty());
        assert(views(items@) =~= Seq::empty());
    }
    while i < records.len()
        invariant
            i <= records.len(),
            all == candidates(views(records@), keep@),
            views(items@) == compact(all.take(i as int)),
        decreases records.len() - i,
    {
        let ghost before = views(items@);
        let wanted = i < keep.len() && keep[i];
        proof {
            assert(all.take(i + 1).drop_last() =~= all.take(i as int));
            assert(all.take(i + 1).last() == item_of(records[i as int]@, wanted));
            assert(before + Seq::<RolloutItemView>::empty() =~= before);
        }
        match &records[i] {
            LineRecord::Response(doc) => {
                if wanted {
                    let item = RolloutItem::ResponseItem(
                        ResponseItem { body: doc.clone(), persisted: true },
                    );
                    proof {
                        assert(views(items@.push(item)) =~= before + seq![item@]);
                    }
                    items.push(item);
                }
            },
            LineRecord::Event(doc) => {
                if wanted {
                    let item = RolloutItem::Event(Event { body: doc.clone(), persisted: true });
                    proof {
                        assert(views(items@.push(item)) =~= before + seq![item@]);
                    }
                    items.push(item);
                }
            },
            LineRecord::SessionMeta { prior, header } => {
                let item = RolloutItem::SessionMeta(header.clone());
                proof {
                    assert(views(items@.push(item)) =~= before + seq![item@]);
                }
                items.push(item);
            },
            _ => {},
        }
        i = i + 1;
    }
    proof {
        assert(all.take(i as int) =~= all);
    }
    if items.len() == 0 {
        InitialHistory::New
    } else {
        InitialHistory::Resumed(items)
    }
}

/// Order is kept: the items of two runs, one after the other, are the items
/// of the first and then those of the second.
pub proof fn lemma_compact_concat<T>(a: Seq<Option<T>>, b: Seq<Option<T>>)
    ensures
        compact(a + b) == compact(a) + compact(b),
    decreases b.len(),
{
    if b.len() == 0 {
        assert(a + b =~= a);
        assert(compact(a) + compact(b) =~= compact(a));
    } else {
        assert((a + b).drop_last() =~= a + b.drop_last());
        assert((a + b).last() == b.last());
        lemma_compact_concat(a, b.drop_last());
        let tail = match b.last() {
            Some(item) => seq![item],
            None => Seq::empty(),
        };
        assert(compact(a) + compact(b.drop_last()) + tail =~= compact(a) + (compact(
            b.drop_last(),
        ) + tail));
    }
}

/// The history of two runs of lines, one after the other, is the history of
/// the first and then that of the second, where the caller's words are split
/// as the lines are.
pub proof fn lemma_history_concat(
    first: Seq<LineRecordView>,
    keep_first: Seq<bool>,
    second: Seq<LineRecordView>,
    keep_second: Seq<bool>,
)
    requires
        keep_first.len() == first.len(),
    ensures
        history_of(first + second, keep_first + keep_second) == history_of(first, keep_first)
            + history_of(second, keep_second),
{
    let keep = keep_first + keep_second;
    assert(candidates(first + second, keep) =~= candidates(first, keep_first) + candidates(
        second,
        keep_second,
    )) by {
        assert forall|i: int| 0 <= i < first.len() + second.len() implies candidates(
            first + second,
            keep,
        )[i] == (candidates(first, keep_first) + candidates(second, keep_second))[i] by {
            if i < first.len() {
                assert(kept(keep, i) == kept(keep_first, i));
            } else {
                assert(kept(keep, i) == kept(keep_second, i - first.len()));
            }
        }
    }
    lemma_compact_concat(candidates(first, keep_first), candidates(second, keep_second));
}

/// Where a text ends with a line, what follows is read after it, line by
/// line.
pub proof fn lemma_records_concat(head: Seq<char>, tail: Seq<char>)
    requires
        head.len() == 0 || head.last() == '\n',
    ensures
        records_of(head + tail) == records_of(head) + records_of(tail),
{
    lemma_lines_of_concat(head, tail);
    assert(records_of(head + tail) =~= records_of(head) + records_of(tail));
}

/// A journal is read back line by line, in the order in which its lines were
/// written: where each written line fits on one line, the records that the
/// file holds are the records of those lines, one for one.
pub proof fn lemma_journal_is_read_in_order(lines: Seq<Seq<char>>)
    requires
        forall|i: int| 0 <= i < lines.len() ==> single_line(#[trigger] lines[i]),
    ensures
        records_of(file_text(lines)) == lines.map_values(|line: Seq<char>| record_of(line)),
{
    lemma_lines_of_file_text(lines, Seq::empty());
    assert(file_text(lines) + Seq::<char>::empty() =~= file_text(lines));
    assert(lines_of(Seq::<char>::empty()) =~= Seq::<Seq<char>>::empty());
    assert(lines + Seq::<Seq<char>>::empty() =~= lines);
}

/// Tolerant replay: a line that is not JSON, put between the lines of a
/// journal, is passed over, and the history is that of the journal without
/// it. `head` is the text before the line and ends with a line, `bad` is the
/// line up to its line feed, `tail` the text after it; the caller's words
/// are split as the text is.
pub proof fn lemma_invalid_line_is_skipped(
    head: Seq<char>,
    keep_head: Seq<bool>,
    bad: Seq<char>,
    keep_bad: bool,
    tail: Seq<char>,
    keep_tail: Seq<bool>,
)
    requires
        head.len() == 0 || head.last() == '\n',
        keep_head.len() == lines_of(head).len(),
        !bad.contains('\n'),
        json_parse(chomp(bad)) is None,
    ensures
        replay(head + bad + seq!['\n'] + tail, keep_head + seq![keep_bad] + keep_tail) == replay(
            head + tail,
            keep_head + keep_tail,
        ),
{
    let line = bad + seq!['\n'];
    assert(head + bad + seq!['\n'] + tail =~= head + (line + tail));
    lemma_records_concat(head, line + tail);
    lemma_records_concat(line, tail);
    lemma_records_concat(head, tail);
    lemma_lines_of_terminated(bad, Seq::empty());
    assert(bad + seq!['\n'] + Seq::<char>::empty() =~= line);
    assert(lines_of(Seq::<char>::empty()) =~= Seq::<Seq<char>>::empty());
    assert(lines_of(line) =~= seq![chomp(bad)]);
    assert(records_of(line) =~= seq![record_of(chomp(bad))]);
    let one = seq![record_of(chomp(bad))];
    assert(passed_over(one[0]));
    lemma_passed_over_lines_hold_nothing(one, seq![keep_bad]);
    let rest = records_of(tail);
    assert(keep_head + seq![keep_bad] + keep_tail =~= keep_head + (seq![keep_bad] + keep_tail));
    lemma_history_concat(records_of(head), keep_head, one + rest, seq![keep_bad] + keep_tail);
    lemma_history_concat(one, seq![keep_bad], rest, keep_tail);
    lemma_history_concat(records_of(head), keep_head, rest, keep_tail);
    assert(Seq::<RolloutItemView>::empty() + history_of(rest, keep_tail) =~= history_of(
        rest,
        keep_tail,
    ));
}

/// Tolerant replay, at the end of the file: a last line that was not
/// written to its end, and is not JSON as far as it was written, is passed
/// over, and the history is that of the lines before it.
pub proof fn lemma_broken_last_line_is_skipped(
    head: Seq<char>,
    keep_head: Seq<bool>,
    bad: Seq<char>,
    keep_bad: Seq<bool>,
)
    requires
        head.len() == 0 || head.last() == '\n',
        keep_head.len() == lines_of(head).len(),
        !bad.contains('\n'),
        json_parse(bad) is None,
    ensures
        replay(head + bad, keep_head + keep_bad) == replay(head, keep_head),
{
    lemma_records_concat(head, bad);
    lemma_lines_of_unterminated(bad);
    let last = records_of(bad);
    assert forall|i: int| 0 <= i < last.len() implies passed_over(#[trigger] last[i]) by {
        assert(last[i] == record_of(bad));
    }
    lemma_passed_over_lines_hold_nothing(last, keep_bad);
    lemma_history_concat(records_of(head), keep_head, last, keep_bad);
    assert(history_of(records_of(head), keep_head) + Seq::<RolloutItemView>::empty()
        =~= history_of(records_of(head), keep_head));
}

/// A record that gives nothing to the history, whatever the caller says of
/// it.
pub open spec fn passed_over(record: LineRecordView) -> bool {
    record is Blank || record is Malformed || record is State || record is Unknown
        || record is InvalidMeta
}

/// Where no item is there, none comes out.
proof fn lemma_compact_of_nothing<T>(items: Seq<Option<T>>)
    requires
        forall|i: int| 0 <= i < items.len() ==> (#[trigger] items[i]) is None,
    ensures
        compact(items) == Seq::<T>::empty(),
    decreases items.len(),
{
    if items.len() > 0 {
        let init = items.drop_last();
        assert forall|i: int| 0 <= i < init.len() implies (#[trigger] init[i]) is None by {
            assert(init[i] == items[i]);
        }
        lemma_compact_of_nothing(init);
        assert(items.last() == items[items.len() - 1]);
        assert(compact(init) + Seq::<T>::empty() =~= Seq::<T>::empty());
    }
}

/// Lines that are all passed over hold no history.
proof fn lemma_passed_over_lines_hold_nothing(records: Seq<LineRecordView>, keep: Seq<bool>)
    requires
        forall|i: int| 0 <= i < records.len() ==> passed_over(#[trigger] records[i]),
    ensures
        history_of(records, keep) == Seq::<RolloutItemView>::empty(),
{
    let all = candidates(records, keep);
    assert forall|i: int| 0 <= i < all.len() implies (#[trigger] all[i]) is None by {
        assert(passed_over(records[i]));
    }
    lemma_compact_of_nothing(all);
}

/// The boundary of "no history": a journal whose lines are all blank,
/// broken, state snapshots, of an unknown record type or spoilt headers
/// replays to nothing, whatever the caller says of its lines.
pub proof fn lemma_no_history(text: Seq<char>, keep: Seq<bool>)
    requires
        forall|i: int|
            0 <= i < lines_of(text).len() ==> passed_over(record_of(#[trigger] lines_of(text)[i])),
    ensures
        replay(text, keep) == Seq::<RolloutItemView>::empty(),
{
    let records = records_of(text);
    assert forall|i: int| 0 <= i < records.len() implies passed_over(#[trigger] records[i]) by {
        assert(records[i] == record_of(lines_of(text)[i]));
    }
    lemma_passed_over_lines_hold_nothing(records, keep);
}

/// An empty journal replays to nothing.
pub proof fn lemma_empty_journal_has_no_history(keep: Seq<bool>)
    ensures
        replay(Seq::<char>::empty(), keep) == Seq::<RolloutItemView>::empty(),
{
    lemma_no_history(Seq::empty(), keep);
}

} // verus!
