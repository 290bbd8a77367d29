//! What a session leaves in its journal, from the records that producers
//! hand to the recorder to the lines that replay reads back. The laws here
//! tie the recorder, the writer and replay together.

use vstd::prelude::*;
use crate::record::{
    canonical, canonical_header, event_line, header_line, record_of, response_line,
    LineRecordView, PayloadView, RolloutItemView,
};
use crate::recorder::command_for;
use crate::replay::{
    candidates, compact, item_of, kept, lemma_compact_concat, lemma_journal_is_read_in_order,
    records_of, replay,
};
use crate::session::{meta_line, SessionMetaView, SessionMetaWithGitView};
use crate::text::file_text;
use crate::writer::{
    all_lines, cmd_lines, cmd_stops, header_fails, header_lines, journal_lines,
    lemma_journal_lines_fit, lemma_shutdown_is_final, run_acks, runs_on, RolloutCmdView,
};

verus! {

/// The lines that a record leaves in the journal: one, or none where the
/// persistence policy does not want the record or it cannot be written.
pub open spec fn item_lines(item: RolloutItemView) -> Seq<Seq<char>> {
    match item {
        RolloutItemView::ResponseItem(item) => if item.persisted {
            match response_line(item.body) {
                Some(line) => seq![line],
                None => Seq::empty(),
            }
        } else {
            Seq::empty()
        },
        RolloutItemView::Event(event) => if event.persisted {
            match event_line(event.body) {
                Some(line) => seq![line],
                None => Seq::empty(),
            }
        } else {
            Seq::empty()
        },
        RolloutItemView::SessionMeta(header) => match header_line("prior_session_meta"@, header) {
            Some(line) => seq![line],
            None => Seq::empty(),
        },
    }
}

/// Whether a record can be written where the persistence policy wants it:
/// its line has to be JSON on one line and to be read back as the record,
/// and an event has to be written as an object to take its record type.
pub open spec fn writable(item: RolloutItemView) -> bool {
    match item {
        RolloutItemView::ResponseItem(item) => item.persisted ==> response_line(item.body)
            is Some,
        RolloutItemView::Event(event) => event.persisted ==> event_line(event.body) is Some,
        RolloutItemView::SessionMeta(header) => header_line("prior_session_meta"@, header)
            is Some,
    }
}

/// The commands that the recorder queues for records handed to it in this
/// order.
pub open spec fn recorded(items: Seq<RolloutItemView>) -> Seq<RolloutCmdView> {
    compact(items.map_values(|item: RolloutItemView| command_for(item)))
}

/// The lines that records leave in the journal, in the order in which they
/// were handed to the recorder.
pub open spec fn written(items: Seq<RolloutItemView>) -> Seq<Seq<char>>
    decreases items.len(),
{
    if items.len() == 0 {
        Seq::empty()
    } else {
        written(items.drop_last()) + item_lines(items.last())
    }
}

/// The lines of commands queued one run after the other are those of the
/// first run and then those of the second.
proof fn lemma_all_lines_concat(first: Seq<RolloutCmdView>, second: Seq<RolloutCmdView>)
    ensures
        all_lines(first + second) == all_lines(first) + all_lines(second),
    decreases first.len(),
{
    if first.len() == 0 {
        assert(first + second =~= second);
        assert(all_lines(first) + all_lines(second) =~= all_lines(second));
    } else {
        assert((first + second)[0] == first[0]);
        assert((first + second).skip(1) =~= first.skip(1) + second);
        lemma_all_lines_concat(first.skip(1), second);
        assert(cmd_lines(first[0]) + (all_lines(first.skip(1)) + all_lines(second)) =~= (
        cmd_lines(first[0]) + all_lines(first.skip(1))) + all_lines(second));
    }
}

/// What the recorder queues for a record is written as that record's lines,
/// and ends the writer only where the record cannot be written.
proof fn lemma_command_lines(item: RolloutItemView)
    ensures
        match command_for(item) {
            Some(cmd) => cmd_lines(cmd) == item_lines(item) && (cmd_stops(cmd) <==> !writable(
                item,
            )),
            None => item_lines(item) == Seq::<Seq<char>>::empty() && writable(item),
        },
{
    match item {
        RolloutItemView::ResponseItem(payload) => {
            if payload.persisted {
                let batch = seq![payload];
                assert(batch.skip(1) =~= Seq::empty());
                reveal_with_fuel(crate::writer::response_lines, 2);
                reveal_with_fuel(crate::writer::responses_fail, 2);
                assert(crate::writer::response_lines(batch) =~= item_lines(item));
            }
        },
        RolloutItemView::Event(payload) => {
            if payload.persisted {
                let batch = seq![payload];
                assert(batch.skip(1) =~= Seq::empty());
                reveal_with_fuel(crate::writer::event_lines, 2);
                reveal_with_fuel(crate::writer::events_fail, 2);
                assert(crate::writer::event_lines(batch) =~= item_lines(item));
            }
        },
        RolloutItemView::SessionMeta(header) => {},
    }
}

/// The commands queued for writable records are written in full, and their
/// lines are the records' lines, in order.
proof fn lemma_recorded_lines(items: Seq<RolloutItemView>)
    requires
        forall|i: int| 0 <= i < items.len() ==> writable(#[trigger] items[i]),
    ensures
        runs_on(recorded(items)),
        all_lines(recorded(items)) == written(items),
    decreases items.len(),
{
    let commands = items.map_values(|item: RolloutItemView| command_for(item));
    if items.len() == 0 {
        assert(recorded(items) =~= Seq::empty());
    } else {
        let init = items.drop_last();
        let last = items.last();
        assert forall|i: int| 0 <= i < init.len() implies writable(#[trigger] init[i]) by {
            assert(init[i] == items[i]);
        }
        lemma_recorded_lines(init);
        assert(writable(items[items.len() - 1]));
        lemma_command_lines(last);
        assert(commands.drop_last() =~= init.map_values(|item: RolloutItemView| command_for(item)));
        assert(commands.last() == command_for(last));
        match command_for(last) {
            Some(cmd) => {
                let one = seq![cmd];
                assert(recorded(items) =~= recorded(init) + one);
                lemma_all_lines_concat(recorded(init), one);
                assert(one.skip(1) =~= Seq::empty());
                assert(all_lines(one) =~= cmd_lines(cmd)) by {
                    reveal_with_fuel(all_lines, 2);
                }
                assert forall|i: int| 0 <= i < recorded(items).len() implies !cmd_stops(
                    #[trigger] recorded(items)[i],
                ) by {
                    if i < recorded(init).len() {
                        assert(recorded(items)[i] == recorded(init)[i]);
                    }
                }
            },
            None => {
                assert(recorded(items) =~= recorded(init));
                assert(written(init) + Seq::<Seq<char>>::empty() =~= written(init));
            },
        }
    }
}

/// Commands that are no shutdown, and before which no writer has ended if a
/// shutdown behind them is acknowledged.
proof fn lemma_acknowledged_run(before: Seq<RolloutCmdView>, rest: Seq<RolloutCmdView>)
    requires
        forall|i: int| 0 <= i < before.len() ==> !((#[trigger] before[i]) is Shutdown),
        run_acks(before + rest),
    ensures
        runs_on(before),
    decreases before.len(),
{
    if before.len() > 0 {
        assert((before + rest)[0] == before[0]);
        assert(!(before[0] is Shutdown));
        assert((before + rest).skip(1) =~= before.skip(1) + rest);
        assert forall|i: int| 0 <= i < before.skip(1).len() implies !((
        #[trigger] before.skip(1)[i]) is Shutdown) by {
            assert(before.skip(1)[i] == before[i + 1]);
        }
        lemma_acknowledged_run(before.skip(1), rest);
        assert forall|i: int| 0 <= i < before.len() implies !cmd_stops(#[trigger] before[i]) by {
            if i > 0 {
                assert(before[i] == before.skip(1)[i - 1]);
            }
        }
    }
}

/// What the recorder queues for records is never a shutdown, and ends the
/// writer only where a record cannot be written.
proof fn lemma_recorded_commands(items: Seq<RolloutItemView>)
    ensures
        forall|i: int|
            0 <= i < recorded(items).len() ==> !((#[trigger] recorded(items)[i]) is Shutdown),
        runs_on(recorded(items)) ==> forall|i: int|
            0 <= i < items.len() ==> writable(#[trigger] items[i]),
    decreases items.len(),
{
    let commands = items.map_values(|item: RolloutItemView| command_for(item));
    if items.len() == 0 {
        assert(recorded(items) =~= Seq::empty());
    } else {
        let init = items.drop_last();
        let last = items.last();
        lemma_recorded_commands(init);
        lemma_command_lines(last);
        assert(commands.drop_last() =~= init.map_values(|item: RolloutItemView| command_for(item)));
        assert(commands.last() == command_for(last));
        match command_for(last) {
            Some(cmd) => {
                assert(recorded(items) =~= recorded(init).push(cmd));
                if runs_on(recorded(items)) {
                    assert(recorded(items)[recorded(init).len() as int] == cmd);
                    assert forall|i: int| 0 <= i < recorded(init).len() implies !cmd_stops(
                        #[trigger] recorded(init)[i],
                    ) by {
                        assert(recorded(init)[i] == recorded(items)[i]);
                    }
                }
            },
            None => {
                assert(recorded(items) =~= recorded(init));
            },
        }
        if runs_on(recorded(items)) {
            assert forall|i: int| 0 <= i < items.len() implies writable(#[trigger] items[i]) by {
                if i < init.len() {
                    assert(items[i] == init[i]);
                }
            }
        }
    }
}

/// Durable shutdown, read from its end: where the shutdown of a session is
/// acknowledged, every record that was handed to the recorder before it
/// could be written.
pub proof fn lemma_acknowledged_session_wrote_every_record(
    items: Seq<RolloutItemView>,
    after: Seq<RolloutCmdView>,
)
    requires
        run_acks(recorded(items) + seq![RolloutCmdView::Shutdown] + after),
    ensures
        forall|i: int| 0 <= i < items.len() ==> writable(#[trigger] items[i]),
{
    lemma_recorded_commands(items);
    assert(recorded(items) + seq![RolloutCmdView::Shutdown] + after =~= recorded(items) + (
    seq![RolloutCmdView::Shutdown] + after));
    lemma_acknowledged_run(recorded(items), seq![RolloutCmdView::Shutdown] + after);
}

/// Order preservation and durable shutdown, on the side of the file: where
/// records were handed to the recorder and then the session was shut down,
/// the journal holds the session's header and then one line for each record
/// that the persistence policy wants, in the order in which the records were
/// handed over; a record that it does not want leaves no line; the shutdown
/// is acknowledged; and whatever is queued after the shutdown leaves no
/// line.
pub proof fn lemma_session_lines(
    meta: Option<SessionMetaView>,
    git: Option<Seq<char>>,
    items: Seq<RolloutItemView>,
    after: Seq<RolloutCmdView>,
)
    requires
        !header_fails(meta, git),
        forall|i: int| 0 <= i < items.len() ==> writable(#[trigger] items[i]),
    ensures
        journal_lines(meta, git, recorded(items) + seq![RolloutCmdView::Shutdown] + after)
            == header_lines(meta, git) + written(items),
        run_acks(recorded(items) + seq![RolloutCmdView::Shutdown] + after),
{
    lemma_recorded_lines(items);
    lemma_shutdown_is_final(recorded(items), after);
}

/// Replay reads what the session wrote, line by line: the records that the
/// file of a shut-down session holds are those of its header and of the
/// lines of its records, one for one and in order.
pub proof fn lemma_session_is_read_in_order(
    meta: Option<SessionMetaView>,
    git: Option<Seq<char>>,
    items: Seq<RolloutItemView>,
    after: Seq<RolloutCmdView>,
)
    requires
        !header_fails(meta, git),
        forall|i: int| 0 <= i < items.len() ==> writable(#[trigger] items[i]),
    ensures
        records_of(
            file_text(
                journal_lines(meta, git, recorded(items) + seq![RolloutCmdView::Shutdown] + after),
            ),
        ) == (header_lines(meta, git) + written(items)).map_values(
            |line: Seq<char>| record_of(line),
        ),
{
    let cmds = recorded(items) + seq![RolloutCmdView::Shutdown] + after;
    lemma_session_lines(meta, git, items, after);
    lemma_journal_lines_fit(meta, git, cmds);
    lemma_journal_is_read_in_order(journal_lines(meta, git, cmds));
}

/// Header first, through to replay: where the header of a fresh journal
/// could be written, the first record that the file holds is the session's
/// own header, the one that the writer was begun with, and it is read as that
/// of this session, not of an earlier one.
pub proof fn lemma_first_record_is_the_header(
    meta: SessionMetaView,
    git: Option<Seq<char>>,
    cmds: Seq<RolloutCmdView>,
)
    requires
        !header_fails(Some(meta), git),
    ensures
        canonical_header(SessionMetaWithGitView { meta, git }) is Some,
        records_of(file_text(journal_lines(Some(meta), git, cmds))).len() > 0,
        records_of(file_text(journal_lines(Some(meta), git, cmds)))[0]
            == (LineRecordView::SessionMeta {
            prior: false,
            header: canonical_header(SessionMetaWithGitView { meta, git }).unwrap(),
        }),
{
    lemma_journal_lines_fit(Some(meta), git, cmds);
    lemma_journal_is_read_in_order(journal_lines(Some(meta), git, cmds));
    assert("session_meta"@ != "prior_session_meta"@) by {
        reveal_strlit("session_meta");
        reveal_strlit("prior_session_meta");
    }
}

/// Filtering on replay: a response item or an event that the caller does not
/// keep gives nothing to the history, and every response item and event in a
/// history is marked as wanted.
pub proof fn lemma_unkept_lines_stay_out(records: Seq<LineRecordView>, keep: Seq<bool>, i: int)
    requires
        0 <= i < records.len(),
    ensures
        (records[i] is Response || records[i] is Event) && !kept(keep, i) ==> candidates(
            records,
            keep,
        )[i] is None,
        candidates(records, keep)[i] matches Some(RolloutItemView::ResponseItem(item))
            ==> item.persisted && kept(keep, i),
        candidates(records, keep)[i] matches Some(RolloutItemView::Event(event))
            ==> event.persisted && kept(keep, i),
{
}

/// Whether a record is written at all: a response item or an event where
/// the persistence policy wants it, a session header always.
pub open spec fn wanted(item: RolloutItemView) -> bool {
    match item {
        RolloutItemView::ResponseItem(item) => item.persisted,
        RolloutItemView::Event(event) => event.persisted,
        RolloutItemView::SessionMeta(header) => true,
    }
}

/// A record as replay gives it back: its document in compact text, and
/// marked as kept.
pub open spec fn as_replayed(item: RolloutItemView) -> RolloutItemView {
    match item {
        RolloutItemView::ResponseItem(item) => RolloutItemView::ResponseItem(
            PayloadView { body: canonical(item.body), persisted: true },
        ),
        RolloutItemView::Event(event) => RolloutItemView::Event(
            PayloadView { body: canonical(event.body), persisted: true },
        ),
        RolloutItemView::SessionMeta(header) => RolloutItemView::SessionMeta(
            canonical_header(header).unwrap(),
        ),
    }
}

/// What each of these lines gives to the history where the caller keeps all
/// of them.
pub open spec fn kept_all(lines: Seq<Seq<char>>) -> Seq<Option<RolloutItemView>> {
    lines.map_values(|line: Seq<char>| item_of(record_of(line), true))
}

/// What two runs of lines give to the history, one after the other.
proof fn lemma_kept_all_concat(first: Seq<Seq<char>>, second: Seq<Seq<char>>)
    ensures
        compact(kept_all(first + second)) == compact(kept_all(first)) + compact(kept_all(second)),
{
    assert(kept_all(first + second) =~= kept_all(first) + kept_all(second));
    lemma_compact_concat(kept_all(first), kept_all(second));
}

/// What one line gives to the history.
proof fn lemma_kept_one(line: Seq<char>)
    ensures
        compact(kept_all(seq![line])) == match item_of(record_of(line), true) {
            Some(item) => seq![item],
            None => Seq::empty(),
        },
{
    let one = kept_all(seq![line]);
    assert(one.drop_last() =~= Seq::empty());
    assert(one.last() == item_of(record_of(line), true));
    assert(compact(one.drop_last()) =~= Seq::<RolloutItemView>::empty());
    match item_of(record_of(line), true) {
        Some(item) => {
            assert(Seq::<RolloutItemView>::empty() + seq![item] =~= seq![item]);
        },
        None => {
            assert(Seq::<RolloutItemView>::empty() + Seq::<RolloutItemView>::empty()
                =~= Seq::<RolloutItemView>::empty());
        },
    }
}

/// The lines of records give the wanted records back to the history, in
/// order.
proof fn lemma_written_reads_back(items: Seq<RolloutItemView>)
    requires
        forall|i: int| 0 <= i < items.len() ==> writable(#[trigger] items[i]),
    ensures
        compact(kept_all(written(items))) == items.filter(
            |item: RolloutItemView| wanted(item),
        ).map_values(|item: RolloutItemView| as_replayed(item)),
    decreases items.len(),
{
    let is_wanted = |item: RolloutItemView| wanted(item);
    let back = |item: RolloutItemView| as_replayed(item);
    reveal(Seq::filter);
    if items.len() == 0 {
        assert(kept_all(written(items)) =~= Seq::empty());
        assert(items.filter(is_wanted).map_values(back) =~= Seq::empty());
    } else {
        let init = items.drop_last();
        let last = items.last();
        assert forall|i: int| 0 <= i < init.len() implies writable(#[trigger] init[i]) by {
            assert(init[i] == items[i]);
        }
        lemma_written_reads_back(init);
        lemma_kept_all_concat(written(init), item_lines(last));
        assert(writable(items[items.len() - 1]));
        if wanted(last) {
            let line = item_lines(last)[0];
            assert(item_lines(last) =~= seq![line]);
            lemma_kept_one(line);
            assert(item_of(record_of(line), true) == Some(as_replayed(last)));
            assert(items.filter(is_wanted) =~= init.filter(is_wanted).push(last));
            assert(init.filter(is_wanted).push(last).map_values(back) =~= init.filter(
                is_wanted,
            ).map_values(back) + seq![as_replayed(last)]);
        } else {
            assert(item_lines(last) =~= Seq::empty());
            assert(kept_all(Seq::empty()) =~= Seq::empty());
            assert(items.filter(is_wanted) =~= init.filter(is_wanted));
            assert(compact(kept_all(written(init))) + Seq::<RolloutItemView>::empty()
                =~= compact(kept_all(written(init))));
        }
    }
}

/// Header first and order preservation, through to replay. Where a session
/// was begun with metadata, records were handed to the recorder, the
/// shutdown of the session was acknowledged, and the caller keeps every line
/// on replay, the history of the session's file is the session's header and
/// then the records that the persistence policy wanted, in the order in
/// which they were handed over, each once; a record that it did not want is
/// not in the history, and neither is anything queued after the shutdown.
/// The documents come back in the compact text of what they hold.
pub proof fn lemma_session_replays_to_what_was_recorded(
    meta: SessionMetaView,
    git: Option<Seq<char>>,
    items: Seq<RolloutItemView>,
    after: Seq<RolloutCmdView>,
    keep: Seq<bool>,
)
    requires
        !header_fails(Some(meta), git),
        run_acks(recorded(items) + seq![RolloutCmdView::Shutdown] + after),
        forall|k: int|
            0 <= k < (header_lines(Some(meta), git) + written(items)).len() ==> kept(keep, k),
    ensures
        replay(
            file_text(
                journal_lines(
                    Some(meta),
                    git,
                    recorded(items) + seq![RolloutCmdView::Shutdown] + after,
                ),
            ),
            keep,
        ) == seq![
            RolloutItemView::SessionMeta(
                canonical_header(SessionMetaWithGitView { meta, git }).unwrap(),
            ),
        ] + items.filter(|item: RolloutItemView| wanted(item)).map_values(
            |item: RolloutItemView| as_replayed(item),
        ),
{
    let header = SessionMetaWithGitView { meta, git };
    let first = meta_line("session_meta"@, header);
    let lines = header_lines(Some(meta), git) + written(items);
    let text = file_text(
        journal_lines(Some(meta), git, recorded(items) + seq![RolloutCmdView::Shutdown] + after),
    );
    lemma_acknowledged_session_wrote_every_record(items, after);
    lemma_session_is_read_in_order(Some(meta), git, items, after);
    assert(candidates(records_of(text), keep) =~= kept_all(lines)) by {
        assert forall|k: int| 0 <= k < lines.len() implies candidates(records_of(text), keep)[k]
            == kept_all(lines)[k] by {
            assert(kept(keep, k));
        }
    }
    assert(lines =~= seq![first] + written(items));
    lemma_kept_all_concat(seq![first], written(items));
    lemma_kept_one(first);
    lemma_written_reads_back(items);
}

} // verus!
