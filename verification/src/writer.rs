//! The writer's decisions. One writer owns the journal's file; it takes the
//! queued commands one by one and says, for each, which lines to append and
//! flush, whether to acknowledge a shutdown, and whether it goes on. The
//! caller does the waiting and the writing. Every line that the writer
//! hands out has been read back, so that it is JSON on one line and replay
//! finds in it the record it was written for; a record of which that cannot
//! be had ends the writer.

use vstd::prelude::*;
use crate::json::Json;
use crate::model::{view_of, views};
use crate::record::{
    encode_event, encode_meta, encode_response, event_line, header_line, journal_line,
    response_line, Event, PayloadView, ResponseItem,
};
use crate::session::{SessionMeta, SessionMetaView, SessionMetaWithGit, SessionMetaWithGitView};
use crate::text::terminated;

verus! {

/// What is queued for the writer.
#[derive(Debug, PartialEq, Eq)]
pub enum RolloutCmd {
    AddResponseItems(Vec<ResponseItem>),
    AddEvents(Vec<Event>),
    AddSessionMeta(SessionMetaWithGit),
    Shutdown,
}

/// A `RolloutCmd` as contracts see it.
pub enum RolloutCmdView {
    AddResponseItems(Seq<PayloadView>),
    AddEvents(Seq<PayloadView>),
    AddSessionMeta(SessionMetaWithGitView),
    Shutdown,
}

impl View for RolloutCmd {
    type V = RolloutCmdView;

    open spec fn view(&self) -> RolloutCmdView {
        match self {
            RolloutCmd::AddResponseItems(items) => RolloutCmdView::AddResponseItems(views(items@)),
            RolloutCmd::AddEvents(events) => RolloutCmdView::AddEvents(views(events@)),
            RolloutCmd::AddSessionMeta(header) => RolloutCmdView::AddSessionMeta(header@),
            RolloutCmd::Shutdown => RolloutCmdView::Shutdown,
        }
    }
}

/// The lines of a batch of response items: one for each item that the
/// persistence policy wants, in the order of the batch, up to the first that
/// cannot be written.
pub open spec fn response_lines(items: Seq<PayloadView>) -> Seq<Seq<char>>
    decreases items.len(),
{
    if items.len() == 0 {
        Seq::empty()
    } else if items[0].persisted {
        match response_line(items[0].body) {
            Some(line) => seq![line] + response_lines(items.skip(1)),
            None => Seq::empty(),
        }
    } else {
        response_lines(items.skip(1))
    }
}

/// Whether a batch holds a response item that the persistence policy wants
/// and that cannot be written.
pub open spec fn responses_fail(items: Seq<PayloadView>) -> bool
    decreases items.len(),
{
    if items.len() == 0 {
        false
    } else if items[0].persisted {
        match response_line(items[0].body) {
            Some(line) => responses_fail(items.skip(1)),
            None => true,
        }
    } else {
        responses_fail(items.skip(1))
    }
}

/// The lines of a batch of events: one for each event that the persistence
/// policy wants, in the order of the batch, up to the first that cannot be
/// written.
pub open spec fn event_lines(events: Seq<PayloadView>) -> Seq<Seq<char>>
    decreases events.len(),
{
    if events.len() == 0 {
        Seq::empty()
    } else if events[0].persisted {
        match event_line(events[0].body) {
            Some(line) => seq![line] + event_lines(events.skip(1)),
            None => Seq::empty(),
        }
    } else {
        event_lines(events.skip(1))
    }
}

/// Whether a batch holds an event that the persistence policy wants and that
/// cannot be written.
pub open spec fn events_fail(events: Seq<PayloadView>) -> bool
    decreases events.len(),
{
    if events.len() == 0 {
        false
    } else if events[0].persisted {
        match event_line(events[0].body) {
            Some(line) => events_fail(events.skip(1)),
            None => true,
        }
    } else {
        events_fail(events.skip(1))
    }
}

/// The lines that a running writer appends for a command.
pub open spec fn cmd_lines(cmd: RolloutCmdView) -> Seq<Seq<char>> {
    match cmd {
        RolloutCmdView::AddResponseItems(items) => response_lines(items),
        RolloutCmdView::AddEvents(events) => event_lines(events),
        RolloutCmdView::AddSessionMeta(header) => match header_line(
            "prior_session_meta"@,
            header,
        ) {
            Some(line) => seq![line],
            None => Seq::empty(),
        },
        RolloutCmdView::Shutdown => Seq::empty(),
    }
}

/// Whether a command cannot be written in full.
pub open spec fn cmd_fails(cmd: RolloutCmdView) -> bool {
    match cmd {
        RolloutCmdView::AddResponseItems(items) => responses_fail(items),
        RolloutCmdView::AddEvents(events) => events_fail(events),
        RolloutCmdView::AddSessionMeta(header) => header_line("prior_session_meta"@, header)
            is None,
        RolloutCmdView::Shutdown => false,
    }
}

/// Whether a running writer ends with a command: at a shutdown, and where a
/// record cannot be written.
pub open spec fn cmd_stops(cmd: RolloutCmdView) -> bool {
    cmd is Shutdown || cmd_fails(cmd)
}

/// The line that a writer begins a fresh journal with, where it was given
/// metadata and the header can be written: the session's own header.
pub open spec fn header_lines(meta: Option<SessionMetaView>, git: Option<Seq<char>>) -> Seq<
    Seq<char>,
> {
    match meta {
        Some(meta) => match header_line("session_meta"@, SessionMetaWithGitView { meta, git }) {
            Some(line) => seq![line],
            None => Seq::empty(),
        },
        None => Seq::empty(),
    }
}

/// Whether a writer was given metadata and cannot write the header, which
/// ends it before it takes a command.
pub open spec fn header_fails(meta: Option<SessionMetaView>, git: Option<Seq<char>>) -> bool {
    match meta {
        Some(meta) => header_line("session_meta"@, SessionMetaWithGitView { meta, git }) is None,
        None => false,
    }
}

/// The lines that a running writer appends for the commands of a queue, taken
/// in order: those of each command up to and with the first that ends it.
pub open spec fn run_lines(cmds: Seq<RolloutCmdView>) -> Seq<Seq<char>>
    decreases cmds.len(),
{
    if cmds.len() == 0 {
        Seq::empty()
    } else if cmd_stops(cmds[0]) {
        cmd_lines(cmds[0])
    } else {
        cmd_lines(cmds[0]) + run_lines(cmds.skip(1))
    }
}

/// The commands that a running writer takes from a queue: each in order, up
/// to and with the first that ends it.
pub open spec fn run_taken(cmds: Seq<RolloutCmdView>) -> Seq<RolloutCmdView>
    decreases cmds.len(),
{
    if cmds.len() == 0 {
        Seq::empty()
    } else if cmd_stops(cmds[0]) {
        seq![cmds[0]]
    } else {
        seq![cmds[0]] + run_taken(cmds.skip(1))
    }
}

/// Whether a running writer, given the commands of a queue in order,
/// acknowledges a shutdown.
pub open spec fn run_acks(cmds: Seq<RolloutCmdView>) -> bool
    decreases cmds.len(),
{
    if cmds.len() == 0 {
        false
    } else if cmd_stops(cmds[0]) {
        cmds[0] is Shutdown
    } else {
        run_acks(cmds.skip(1))
    }
}

/// Whether a running writer, given the commands of a queue in order, ends
/// on a record that cannot be written.
pub open spec fn run_fails(cmds: Seq<RolloutCmdView>) -> bool
    decreases cmds.len(),
{
    if cmds.len() == 0 {
        false
    } else if cmd_stops(cmds[0]) {
        cmd_fails(cmds[0])
    } else {
        run_fails(cmds.skip(1))
    }
}

/// Whether none of the commands ends the writer.
pub open spec fn runs_on(cmds: Seq<RolloutCmdView>) -> bool {
    forall|i: int| 0 <= i < cmds.len() ==> !cmd_stops(#[trigger] cmds[i])
}

/// The lines of every command, in order.
pub open spec fn all_lines(cmds: Seq<RolloutCmdView>) -> Seq<Seq<char>>
    decreases cmds.len(),
{
    if cmds.len() == 0 {
        Seq::empty()
    } else {
        cmd_lines(cmds[0]) + all_lines(cmds.skip(1))
    }
}

/// The lines of a fresh journal whose writer was begun with `meta` and `git`
/// and then took the commands `cmds` from its queue. Where the header cannot
/// be written, nothing is.
pub open spec fn journal_lines(
    meta: Option<SessionMetaView>,
    git: Option<Seq<char>>,
    cmds: Seq<RolloutCmdView>,
) -> Seq<Seq<char>> {
    if header_fails(meta, git) {
        Seq::empty()
    } else {
        header_lines(meta, git) + run_lines(cmds)
    }
}

/// What the writer decided for one command.
#[derive(Debug, PartialEq, Eq)]
pub struct WriterStep {
    /// The lines to append, each with its line feed; each is to be written
    /// and flushed before the next.
    pub writes: Vec<String>,
    /// Whether to signal that the shutdown is complete.
    pub ack: bool,
    /// Whether a record could not be written, which ends the writer.
    pub failed: bool,
}

/// The single writer of a journal. Besides whether it still runs, it keeps
/// account, for proofs only, of what it took and what it handed out.
pub struct RolloutWriter {
    running: bool,
    first: Ghost<Seq<Seq<char>>>,
    taken: Ghost<Seq<RolloutCmdView>>,
    written: Ghost<Seq<Seq<char>>>,
}

/// Closes a line with its line feed.
fn terminate(line: String) -> (write: String)
    ensures
        write@ == line@.push('\n'),
{
    let mut write = line;
    write.push('\n');
    write
}

/// Writes a batch of response items, as far as they can be written.
fn write_responses(items: &Vec<ResponseItem>) -> (r: (Vec<String>, bool))
    ensures
        r.0.deep_view() == terminated(response_lines(views(items@))),
        r.1 == responses_fail(views(items@)),
        forall|i: int|
            0 <= i < response_lines(views(items@)).len() ==> journal_line(
                #[trigger] response_lines(views(items@))[i],
            ),
{
    let ghost all = views(items@);
    let mut writes: Vec<String> = Vec::new();
    let mut i: usize = 0;
    let ghost mut done: Seq<Seq<char>> = Seq::empty();
    proof {
        assert(all.skip(0) =~= all);
        assert(done + response_lines(all) =~= response_lines(all));
        assert(writes.deep_view() =~= terminated(done));
    }
    while i < items.len()
        invariant
            i <= items.len(),
            all == views(items@),
            response_lines(all) == done + response_lines(all.skip(i as int)),
            responses_fail(all) == responses_fail(all.skip(i as int)),
            writes.deep_view() == terminated(done),
            forall|k: int| 0 <= k < done.len() ==> journal_line(#[trigger] done[k]),
        decreases items.len() - i,
    {
        let ghost rest = all.skip(i as int);
        proof {
            assert(rest[0] == items[i as int]@);
            assert(rest.skip(1) =~= all.skip(i + 1));
        }
        if items[i].persisted {
            match encode_response(&items[i]) {
                Some(line) => {
                    let ghost before = writes.deep_view();
                    proof {
                        assert(done + (seq![line@] + response_lines(all.skip(i + 1)))
                            =~= done.push(line@) + response_lines(all.skip(i + 1)));
                    }
                    writes.push(terminate(line));
                    proof {
                        assert(writes.deep_view() =~= before.push(line@.push('\n')));
                        done = done.push(line@);
                        assert(writes.deep_view() =~= terminated(done));
                    }
                },
                None => {
                    proof {
                        assert(done + Seq::<Seq<char>>::empty() =~= done);
                    }
                    return (writes, true);
                },
            }
        }
        i = i + 1;
    }
    proof {
        assert(all.skip(i as int) =~= Seq::empty());
        assert(done + Seq::<Seq<char>>::empty() =~= done);
    }
    (writes, false)
}

/// Writes a batch of events, as far as they can be written.
fn write_events(events: &Vec<Event>) -> (r: (Vec<String>, bool))
    ensures
        r.0.deep_view() == terminated(event_lines(views(events@))),
        r.1 == events_fail(views(events@)),
        forall|i: int|
            0 <= i < event_lines(views(events@)).len() ==> journal_line(
                #[trigger] event_lines(views(events@))[i],
            ),
{
    let ghost all = views(events@);
    let mut writes: Vec<String> = Vec::new();
    let mut i: usize = 0;
    let ghost mut done: Seq<Seq<char>> = Seq::empty();
    proof {
        assert(all.skip(0) =~= all);
        assert(done + event_lines(all) =~= event_lines(all));
        assert(writes.deep_view() =~= terminated(done));
    }
    while i < events.len()
        invariant
            i <= events.len(),
            all == views(events@),
            event_lines(all) == done + event_lines(all.skip(i as int)),
            events_fail(all) == events_fail(all.skip(i as int)),
            writes.deep_view() == terminated(done),
            forall|k: int| 0 <= k < done.len() ==> journal_line(#[trigger] done[k]),
        decreases events.len() - i,
    {
        let ghost rest = all.skip(i as int);
        proof {
            assert(rest[0] == events[i as int]@);
            assert(rest.skip(1) =~= all.skip(i + 1));
        }
        if events[i].persisted {
            match encode_event(&events[i]) {
                Some(line) => {
                    let ghost before = writes.deep_view();
                    proof {
                        assert(done + (seq![line@] + event_lines(all.skip(i + 1))) =~= done.push(
                            line@,
                        ) + event_lines(all.skip(i + 1)));
                    }
                    writes.push(terminate(line));
                    proof {
                        assert(writes.deep_view() =~= before.push(line@.push('\n')));
                        done = done.push(line@);
                        assert(writes.deep_view() =~= terminated(done));
                    }
                },
                None => {
                    proof {
                        assert(done + Seq::<Seq<char>>::empty() =~= done);
                    }
                    return (writes, true);
                },
            }
        }
        i = i + 1;
    }
    proof {
        assert(all.skip(i as int) =~= Seq::empty());
        assert(done + Seq::<Seq<char>>::empty() =~= done);
    }
    (writes, false)
}

impl RolloutWriter {
    /// What always holds of a writer: the lines it has handed out are the
    /// journal's first lines and then the lines of the commands it took, in
    /// the order in which it took them; each fits on one line and is a JSON
    /// document; and it runs only while no command has ended it.
    #[verifier::type_invariant]
    spec fn inv(&self) -> bool {
        &&& self.written@ == self.first@ + run_lines(self.taken@)
        &&& self.running ==> runs_on(self.taken@)
        &&& forall|i: int| 0 <= i < self.written@.len() ==> journal_line(#[trigger] self.written@[i])
    }

    /// Whether the writer still takes commands.
    pub closed spec fn is_running(&self) -> bool {
        self.running
    }

    /// The lines that the journal began with: the session's header, or none.
    pub closed spec fn first_lines(&self) -> Seq<Seq<char>> {
        self.first@
    }

    /// The commands that the writer took from the queue while it ran, in
    /// order.
    pub closed spec fn taken(&self) -> Seq<RolloutCmdView> {
        self.taken@
    }

    /// Every line that the writer has handed out, in order: what the file
    /// holds once the caller has written them all.
    pub closed spec fn written(&self) -> Seq<Seq<char>> {
        self.written@
    }

    /// Begins a journal. Where `meta` is given, the session's header, with
    /// the repository snapshot `git` if there is one, is the first line to
    /// write; a writer that cannot write it has failed and takes no command.
    pub fn start(meta: Option<SessionMeta>, git: Option<Json>) -> (r: (RolloutWriter, WriterStep))
        ensures
            r.0.is_running() == !header_fails(view_of(meta), view_of(git)),
            r.0.first_lines() == header_lines(view_of(meta), view_of(git)),
            r.0.taken() == Seq::<RolloutCmdView>::empty(),
            r.0.written() == r.0.first_lines(),
            r.1.writes.deep_view() == terminated(r.0.first_lines()),
            !r.1.ack,
            r.1.failed == header_fails(view_of(meta), view_of(git)),
            forall|i: int|
                0 <= i < r.0.written().len() ==> journal_line(#[trigger] r.0.written()[i]),
    {
        let mut writes: Vec<String> = Vec::new();
        let ghost first = header_lines(view_of(meta), view_of(git));
        let mut failed = false;
        match meta {
            Some(meta) => {
                let header = SessionMetaWithGit { meta, git };
                match encode_meta("session_meta", &header) {
                    Some(line) => {
                        writes.push(terminate(line));
                        proof {
                            assert(writes.deep_view() =~= terminated(seq![line@]));
                        }
                    },
                    None => {
                        failed = true;
                        proof {
                            assert(writes.deep_view() =~= terminated(Seq::empty()));
                        }
                    },
                }
            },
            None => {
                proof {
                    assert(writes.deep_view() =~= terminated(Seq::empty()));
                }
            },
        }
        proof {
            assert(first + run_lines(Seq::empty()) =~= first);
        }
        let writer = RolloutWriter {
            running: !failed,
            first: Ghost(first),
            taken: Ghost(Seq::empty()),
            written: Ghost(first),
        };
        (writer, WriterStep { writes, ack: false, failed })
    }

    /// Whether the writer still takes commands.
    pub fn running(&self) -> (running: bool)
        ensures
            running == self.is_running(),
    {
        self.running
    }

    /// Takes the next command from the queue. A running writer appends the
    /// command's lines; it ends at a shutdown, which it acknowledges, and
    /// where a record cannot be written. A writer that has ended does
    /// nothing with a command. At every step, the lines handed out so far
    /// are the journal's first lines and then those of the commands taken.
    pub fn handle(&mut self, cmd: &RolloutCmd) -> (step: WriterStep)
        ensures
            old(self).is_running() ==> {
                &&& step.writes.deep_view() == terminated(cmd_lines(cmd@))
                &&& step.ack == (cmd@ is Shutdown)
                &&& step.failed == cmd_fails(cmd@)
                &&& final(self).is_running() == !cmd_stops(cmd@)
                &&& final(self).taken() == old(self).taken().push(cmd@)
                &&& final(self).written() == old(self).written() + cmd_lines(cmd@)
            },
            !old(self).is_running() ==> {
                &&& step.writes@.len() == 0
                &&& !step.ack
                &&& !step.failed
                &&& !final(self).is_running()
                &&& final(self).taken() == old(self).taken()
                &&& final(self).written() == old(self).written()
            },
            final(self).first_lines() == old(self).first_lines(),
            final(self).written() == final(self).first_lines() + run_lines(final(self).taken()),
            final(self).is_running() ==> runs_on(final(self).taken()),
            forall|i: int|
                0 <= i < final(self).written().len() ==> journal_line(
                    #[trigger] final(self).written()[i],
                ),
    {
        proof {
            use_type_invariant(&*self);
        }
        if !self.running {
            return WriterStep { writes: Vec::new(), ack: false, failed: false };
        }
        let step = match cmd {
            RolloutCmd::AddResponseItems(items) => {
                let (writes, failed) = write_responses(items);
                WriterStep { writes, ack: false, failed }
            },
            RolloutCmd::AddEvents(events) => {
                let (writes, failed) = write_events(events);
                WriterStep { writes, ack: false, failed }
            },
            RolloutCmd::AddSessionMeta(header) => {
                let mut writes: Vec<String> = Vec::new();
                match encode_meta("prior_session_meta", header) {
                    Some(line) => {
                        writes.push(terminate(line));
                        proof {
                            assert(writes.deep_view() =~= terminated(seq![line@]));
                        }
                        WriterStep { writes, ack: false, failed: false }
                    },
                    None => {
                        proof {
                            assert(writes.deep_view() =~= terminated(Seq::empty()));
                        }
                        WriterStep { writes, ack: false, failed: true }
                    },
                }
            },
            RolloutCmd::Shutdown => {
                let writes: Vec<String> = Vec::new();
                proof {
                    assert(writes.deep_view() =~= terminated(Seq::empty()));
                }
                WriterStep { writes, ack: true, failed: false }
            },
        };
        let ghost taken = self.taken@.push(cmd@);
        let ghost written = self.written@ + cmd_lines(cmd@);
        proof {
            let one = seq![cmd@];
            assert(self.taken@ + one =~= taken);
            lemma_run_concat(self.taken@, one);
            assert(one.skip(1) =~= Seq::empty());
            assert(run_lines(one.skip(1)) =~= Seq::<Seq<char>>::empty());
            assert(run_lines(one) =~= cmd_lines(cmd@));
            assert(self.first@ + (run_lines(self.taken@) + cmd_lines(cmd@)) =~= written);
            if !cmd_stops(cmd@) {
                assert forall|i: int| 0 <= i < taken.len() implies !cmd_stops(
                    #[trigger] taken[i],
                ) by {
                    if i < self.taken@.len() {
                        assert(taken[i] == self.taken@[i]);
                    }
                }
            }
        }
        *self = RolloutWriter {
            running: !(step.ack || step.failed),
            first: self.first,
            taken: Ghost(taken),
            written: Ghost(written),
        };
        step
    }

    /// Takes the commands of a queue in order, as far as the writer runs.
    pub fn drain(&mut self, cmds: &Vec<RolloutCmd>) -> (step: WriterStep)
        ensures
            old(self).is_running() ==> {
                &&& step.writes.deep_view() == terminated(run_lines(views(cmds@)))
                &&& step.ack == run_acks(views(cmds@))
                &&& step.failed == run_fails(views(cmds@))
                &&& final(self).is_running() == runs_on(views(cmds@))
                &&& final(self).taken() == old(self).taken() + run_taken(views(cmds@))
                &&& final(self).written() == old(self).written() + run_lines(views(cmds@))
            },
            !old(self).is_running() ==> {
                &&& step.writes@.len() == 0
                &&& !step.ack
                &&& !step.failed
                &&& !final(self).is_running()
                &&& final(self).taken() == old(self).taken()
                &&& final(self).written() == old(self).written()
            },
            final(self).first_lines() == old(self).first_lines(),
            final(self).written() == final(self).first_lines() + run_lines(final(self).taken()),
            final(self).is_running() ==> runs_on(final(self).taken()),
            forall|i: int|
                0 <= i < final(self).written().len() ==> journal_line(
                    #[trigger] final(self).written()[i],
                ),
    {
        let ghost all = views(cmds@);
        let ghost began = self.running;
        let mut writes: Vec<String> = Vec::new();
        let mut ack = false;
        let mut failed = false;
        let mut i: usize = 0;
        let ghost mut done: Seq<Seq<char>> = Seq::empty();
        let ghost mut got: Seq<RolloutCmdView> = Seq::empty();
        proof {
            use_type_invariant(&*self);
            assert(all.skip(0) =~= all);
            assert(done + run_lines(all) =~= run_lines(all));
            assert(got + run_taken(all) =~= run_taken(all));
            assert(writes.deep_view() =~= terminated(done));
            assert(self.written() + done =~= self.written());
            assert(self.taken() + got =~= self.taken());
        }
        while i < cmds.len() && self.running
            invariant
                i <= cmds.len(),
                all == views(cmds@),
                began == old(self).is_running(),
                self.first_lines() == old(self).first_lines(),
                self.written() == self.first_lines() + run_lines(self.taken()),
                self.is_running() ==> runs_on(self.taken()),
                forall|k: int|
                    0 <= k < self.written().len() ==> journal_line(#[trigger] self.written()[k]),
                !began ==> {
                    &&& !self.is_running()
                    &&& writes@.len() == 0
                    &&& !ack
                    &&& !failed
                    &&& self.taken() == old(self).taken()
                    &&& self.written() == old(self).written()
                },
                began && self.is_running() ==> {
                    &&& run_lines(all) == done + run_lines(all.skip(i as int))
                    &&& run_taken(all) == got + run_taken(all.skip(i as int))
                    &&& run_acks(all) == run_acks(all.skip(i as int))
                    &&& run_fails(all) == run_fails(all.skip(i as int))
                    &&& forall|k: int| 0 <= k < i ==> !cmd_stops(#[trigger] all[k])
                    &&& !ack
                    &&& !failed
                },
                began && !self.is_running() ==> {
                    &&& run_lines(all) == done
                    &&& run_taken(all) == got
                    &&& run_acks(all) == ack
                    &&& run_fails(all) == failed
                    &&& !runs_on(all)
                },
                began ==> writes.deep_view() == terminated(done),
                began ==> self.written() == old(self).written() + done,
                began ==> self.taken() == old(self).taken() + got,
            decreases cmds.len() - i,
        {
            let ghost rest = all.skip(i as int);
            let ghost before_written = self.written();
            proof {
                assert(rest[0] == cmds[i as int]@);
                assert(rest[0] == all[i as int]);
                assert(rest.skip(1) =~= all.skip(i + 1));
            }
            let mut step = self.handle(&cmds[i]);
            let ghost before = writes.deep_view();
            let ghost added = step.writes.deep_view();
            let ghost lines = cmd_lines(cmds[i as int]@);
            writes.append(&mut step.writes);
            proof {
                assert(writes.deep_view() =~= before + added);
                assert(terminated(done + lines) =~= terminated(done) + terminated(lines));
                assert(done + (lines + run_lines(all.skip(i + 1))) =~= (done + lines) + run_lines(
                    all.skip(i + 1),
                ));
                assert(old(self).written() + done + lines =~= old(self).written() + (done
                    + lines));
                done = done + lines;
                let one = seq![cmds[i as int]@];
                assert(got + (one + run_taken(all.skip(i + 1))) =~= got.push(cmds[i as int]@)
                    + run_taken(all.skip(i + 1)));
                assert(got + one =~= got.push(cmds[i as int]@));
                assert((old(self).taken() + got).push(cmds[i as int]@) =~= old(self).taken()
                    + got.push(cmds[i as int]@));
                got = got.push(cmds[i as int]@);
            }
            ack = step.ack;
            failed = step.failed;
            i = i + 1;
        }
        proof {
            if began && self.is_running() {
                assert(all.skip(i as int) =~= Seq::empty());
                assert(done + Seq::<Seq<char>>::empty() =~= done);
                assert(got + Seq::<RolloutCmdView>::empty() =~= got);
            }
        }
        WriterStep { writes, ack, failed }
    }

    /// Ends the writer: the queue was closed, or a write to the file failed.
    /// What it has handed out stays as it is.
    pub fn stop(&mut self)
        ensures
            !final(self).is_running(),
            final(self).first_lines() == old(self).first_lines(),
            final(self).taken() == old(self).taken(),
            final(self).written() == old(self).written(),
    {
        proof {
            use_type_invariant(&*self);
        }
        *self = RolloutWriter {
            running: false,
            first: self.first,
            taken: self.taken,
            written: self.written,
        };
    }
}

/// Header first: the first line of a fresh journal that was begun with
/// metadata, if it has a line at all, is the session's own header, whatever
/// was queued; where the header cannot be written, nothing is.
pub proof fn lemma_header_is_first(
    meta: SessionMetaView,
    git: Option<Seq<char>>,
    cmds: Seq<RolloutCmdView>,
)
    ensures
        match header_line("session_meta"@, SessionMetaWithGitView { meta, git }) {
            Some(line) => journal_lines(Some(meta), git, cmds).len() > 0 && journal_lines(
                Some(meta),
                git,
                cmds,
            )[0] == line,
            None => journal_lines(Some(meta), git, cmds).len() == 0,
        },
{
}

/// Nothing is written after the command that ends the writer: what is
/// queued behind it leaves no line.
pub proof fn lemma_run_ends_at_stop(before: Seq<RolloutCmdView>, after: Seq<RolloutCmdView>)
    requires
        !runs_on(before),
    ensures
        run_lines(before + after) == run_lines(before),
        run_acks(before + after) == run_acks(before),
        run_fails(before + after) == run_fails(before),
    decreases before.len(),
{
    let k = choose|k: int| 0 <= k < before.len() && cmd_stops(before[k]);
    assert((before + after)[0] == before[0]);
    if !cmd_stops(before[0]) {
        assert(before.skip(1)[k - 1] == before[k]);
        assert((before + after).skip(1) =~= before.skip(1) + after);
        lemma_run_ends_at_stop(before.skip(1), after);
    }
}

/// Order preservation: while no command ends the writer, the lines of two
/// runs of commands, one queued after the other, are the lines of the first
/// and then those of the second.
pub proof fn lemma_run_concat(first: Seq<RolloutCmdView>, second: Seq<RolloutCmdView>)
    requires
        runs_on(first),
    ensures
        run_lines(first + second) == run_lines(first) + run_lines(second),
        run_acks(first + second) == run_acks(second),
        run_fails(first + second) == run_fails(second),
        run_lines(first) == all_lines(first),
    decreases first.len(),
{
    if first.len() == 0 {
        assert(first + second =~= second);
        assert(run_lines(first) + run_lines(second) =~= run_lines(second));
    } else {
        assert(!cmd_stops(first[0]));
        assert((first + second)[0] == first[0]);
        assert((first + second).skip(1) =~= first.skip(1) + second);
        assert forall|i: int| 0 <= i < first.skip(1).len() implies !cmd_stops(
            #[trigger] first.skip(1)[i],
        ) by {
            assert(first.skip(1)[i] == first[i + 1]);
        }
        lemma_run_concat(first.skip(1), second);
        assert(cmd_lines(first[0]) + (run_lines(first.skip(1)) + run_lines(second)) =~= (
        cmd_lines(first[0]) + run_lines(first.skip(1))) + run_lines(second));
    }
}

/// Durable shutdown: where the commands queued before a shutdown are all
/// written in full, the journal holds the lines of every one of them, in
/// order, the shutdown is acknowledged, and nothing that is queued after it
/// is written.
pub proof fn lemma_shutdown_is_final(before: Seq<RolloutCmdView>, after: Seq<RolloutCmdView>)
    requires
        runs_on(before),
    ensures
        run_lines(before + seq![RolloutCmdView::Shutdown] + after) == all_lines(before),
        run_acks(before + seq![RolloutCmdView::Shutdown] + after),
        !run_fails(before + seq![RolloutCmdView::Shutdown] + after),
{
    let stop = seq![RolloutCmdView::Shutdown];
    assert(cmd_stops(stop[0]));
    assert(!runs_on(before + stop)) by {
        assert((before + stop)[before.len() as int] == stop[0]);
    }
    lemma_run_ends_at_stop(before + stop, after);
    lemma_run_concat(before, stop);
    assert(run_lines(stop) =~= Seq::<Seq<char>>::empty());
    assert(run_lines(before) + Seq::<Seq<char>>::empty() =~= run_lines(before));
}

/// Filtering on write: where a batch of response items can be written in
/// full, its lines are the documents of the items that the persistence
/// policy wants, in the order of the batch; an item that it does not want
/// leaves no line.
pub proof fn lemma_only_wanted_items_are_written(items: Seq<PayloadView>)
    requires
        !responses_fail(items),
    ensures
        response_lines(items) == items.filter(|item: PayloadView| item.persisted).map_values(
            |item: PayloadView| item.body,
        ),
    decreases items.len(),
{
    let wanted = |item: PayloadView| item.persisted;
    let line = |item: PayloadView| item.body;
    if items.len() == 0 {
        assert(items.filter(wanted) =~= Seq::empty()) by {
            reveal(Seq::filter);
        }
        assert(items.filter(wanted).map_values(line) =~= Seq::empty());
    } else {
        let head = seq![items[0]];
        let rest = items.skip(1);
        assert(items =~= head + rest);
        Seq::filter_distributes_over_add(head, rest, wanted);
        lemma_only_wanted_items_are_written(rest);
        assert(head.filter(wanted) =~= if items[0].persisted {
            head
        } else {
            Seq::empty()
        }) by {
            reveal(Seq::filter);
            assert(head.drop_last() =~= Seq::empty());
            assert(head.drop_last().filter(wanted) =~= Seq::empty());
        }
        assert((head.filter(wanted) + rest.filter(wanted)).map_values(line) =~= head.filter(
            wanted,
        ).map_values(line) + rest.filter(wanted).map_values(line));
        if items[0].persisted {
            assert(head.map_values(line) =~= seq![items[0].body]);
        } else {
            assert(Seq::<PayloadView>::empty().map_values(line) =~= Seq::<Seq<char>>::empty());
            assert(Seq::<Seq<char>>::empty() + response_lines(rest) =~= response_lines(rest));
        }
    }
}

/// Filtering on write: a batch in which the persistence policy wants no
/// response item leaves no line, and does not end the writer.
pub proof fn lemma_unwanted_items_leave_no_line(items: Seq<PayloadView>)
    requires
        forall|i: int| 0 <= i < items.len() ==> !(#[trigger] items[i]).persisted,
    ensures
        response_lines(items) == Seq::<Seq<char>>::empty(),
        !responses_fail(items),
    decreases items.len(),
{
    if items.len() > 0 {
        assert forall|i: int| 0 <= i < items.skip(1).len() implies !(
        #[trigger] items.skip(1)[i]).persisted by {
            assert(items.skip(1)[i] == items[i + 1]);
        }
        lemma_unwanted_items_leave_no_line(items.skip(1));
    }
}

/// Filtering on write, for events: a batch in which the persistence policy
/// wants no event leaves no line, and does not end the writer.
pub proof fn lemma_unwanted_events_leave_no_line(events: Seq<PayloadView>)
    requires
        forall|i: int| 0 <= i < events.len() ==> !(#[trigger] events[i]).persisted,
    ensures
        event_lines(events) == Seq::<Seq<char>>::empty(),
        !events_fail(events),
    decreases events.len(),
{
    if events.len() > 0 {
        assert forall|i: int| 0 <= i < events.skip(1).len() implies !(
        #[trigger] events.skip(1)[i]).persisted by {
            assert(events.skip(1)[i] == events[i + 1]);
        }
        lemma_unwanted_events_leave_no_line(events.skip(1));
    }
}

/// Whether each of these lines is fit for the journal.
pub open spec fn all_fit(lines: Seq<Seq<char>>) -> bool {
    forall|i: int| 0 <= i < lines.len() ==> journal_line(#[trigger] lines[i])
}

/// Lines that are fit, one run after the other, are fit.
pub proof fn lemma_fit_concat(first: Seq<Seq<char>>, second: Seq<Seq<char>>)
    requires
        all_fit(first),
        all_fit(second),
    ensures
        all_fit(first + second),
{
    assert forall|i: int| 0 <= i < (first + second).len() implies journal_line(
        #[trigger] (first + second)[i],
    ) by {
        if i < first.len() {
            assert((first + second)[i] == first[i]);
        } else {
            assert((first + second)[i] == second[i - first.len()]);
        }
    }
}

/// The lines of a batch of response items are fit for the journal.
proof fn lemma_response_lines_fit(items: Seq<PayloadView>)
    ensures
        all_fit(response_lines(items)),
    decreases items.len(),
{
    if items.len() > 0 {
        lemma_response_lines_fit(items.skip(1));
        if items[0].persisted {
            match response_line(items[0].body) {
                Some(line) => {
                    assert(all_fit(seq![line]));
                    lemma_fit_concat(seq![line], response_lines(items.skip(1)));
                },
                None => {},
            }
        }
    }
}

/// The lines of a batch of events are fit for the journal.
proof fn lemma_event_lines_fit(events: Seq<PayloadView>)
    ensures
        all_fit(event_lines(events)),
    decreases events.len(),
{
    if events.len() > 0 {
        lemma_event_lines_fit(events.skip(1));
        if events[0].persisted {
            match event_line(events[0].body) {
                Some(line) => {
                    assert(all_fit(seq![line]));
                    lemma_fit_concat(seq![line], event_lines(events.skip(1)));
                },
                None => {},
            }
        }
    }
}

/// The lines of a command are fit for the journal.
pub proof fn lemma_cmd_lines_fit(cmd: RolloutCmdView)
    ensures
        all_fit(cmd_lines(cmd)),
{
    match cmd {
        RolloutCmdView::AddResponseItems(items) => {
            lemma_response_lines_fit(items);
        },
        RolloutCmdView::AddEvents(events) => {
            lemma_event_lines_fit(events);
        },
        _ => {},
    }
}

/// The lines of the commands of a queue are fit for the journal.
pub proof fn lemma_run_lines_fit(cmds: Seq<RolloutCmdView>)
    ensures
        all_fit(run_lines(cmds)),
    decreases cmds.len(),
{
    if cmds.len() > 0 {
        lemma_cmd_lines_fit(cmds[0]);
        lemma_run_lines_fit(cmds.skip(1));
        if !cmd_stops(cmds[0]) {
            lemma_fit_concat(cmd_lines(cmds[0]), run_lines(cmds.skip(1)));
        }
    }
}

/// Every line of a journal is a JSON document of its own, on one line,
/// whatever the journal was begun with and whatever was queued.
pub proof fn lemma_journal_lines_fit(
    meta: Option<SessionMetaView>,
    git: Option<Seq<char>>,
    cmds: Seq<RolloutCmdView>,
)
    ensures
        all_fit(journal_lines(meta, git, cmds)),
{
    lemma_run_lines_fit(cmds);
    if !header_fails(meta, git) {
        assert(all_fit(header_lines(meta, git)));
        lemma_fit_concat(header_lines(meta, git), run_lines(cmds));
    }
}

} // verus!
