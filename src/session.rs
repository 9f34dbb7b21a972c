use vstd::prelude::*;

use crate::logline::{parse, parse_line, EntryView, ParsedLogEntry};
use crate::process_table::snapshot_of;
use crate::resolver::{resolved_name, PackageResolver, Resolution};

verus! {

/// Where a device's log session stands.
#[derive(Clone, Copy, Debug, PartialEq, Eq, Structural)]
pub enum Phase {
    /// Nothing asked for yet.
    Idle,
    /// The log stream is being started.
    Spawning,
    /// Lines are being read.
    Streaming,
    /// A line waits for a fresh process listing to name its package.
    AwaitingSnapshot,
    /// The stream ended or was cancelled.
    Closed,
    /// The stream could not be started, or the process listing failed.
    Failed,
}

/// A log entry with the name of the package that wrote it (empty where the
/// process could not be resolved).
pub struct EnrichedRecord {
    pub entry: ParsedLogEntry,
    pub package: String,
}

/// An enriched record as character sequences.
pub struct RecordView {
    pub entry: EntryView,
    pub package: Seq<char>,
}

impl View for EnrichedRecord {
    type V = RecordView;

    open spec fn view(&self) -> RecordView {
        RecordView { entry: self.entry@, package: self.package@ }
    }
}

/// Joins a log entry with the package name resolved for its process.
pub fn enrich(entry: ParsedLogEntry, package: String) -> (r: EnrichedRecord)
    ensures
        r@ == (RecordView { entry: entry@, package: package@ }),
{
    EnrichedRecord { entry, package }
}

/// What happened outside the session.
pub enum SessionEvent {
    /// Streaming was asked for.
    Start,
    /// The log stream was started and its output opened.
    Spawned,
    /// The log stream could not be started.
    SpawnFailed,
    /// A line was read from the log stream.
    Line(String),
    /// The process listing that the session asked for printed this.
    Snapshot(String),
    /// The process listing could not be taken.
    SnapshotFailed,
    /// The log stream reached its end.
    EndOfStream,
    /// The consumer cancelled the session.
    Cancel,
}

/// An event as plain values.
pub enum EventView {
    Start,
    Spawned,
    SpawnFailed,
    Line(Seq<char>),
    Snapshot(Seq<char>),
    SnapshotFailed,
    EndOfStream,
    Cancel,
}

impl View for SessionEvent {
    type V = EventView;

    open spec fn view(&self) -> EventView {
        match self {
            SessionEvent::Start => EventView::Start,
            SessionEvent::Spawned => EventView::Spawned,
            SessionEvent::SpawnFailed => EventView::SpawnFailed,
            SessionEvent::Line(l) => EventView::Line(l@),
            SessionEvent::Snapshot(o) => EventView::Snapshot(o@),
            SessionEvent::SnapshotFailed => EventView::SnapshotFailed,
            SessionEvent::EndOfStream => EventView::EndOfStream,
            SessionEvent::Cancel => EventView::Cancel,
        }
    }
}

/// What the session asks to be done outside.
pub enum SessionAction {
    /// Nothing.
    Nothing,
    /// Start the log stream.
    Spawn,
    /// Take a fresh process listing and hand it back.
    TakeSnapshot,
    /// Deliver this record to the consumer.
    Emit(EnrichedRecord),
    /// Tell the consumer that the stream could not be started.
    ReportError,
    /// Stop reading, end the log stream's process and release it.
    Terminate,
}

/// An action as plain values.
pub enum ActionView {
    Nothing,
    Spawn,
    TakeSnapshot,
    Emit(RecordView),
    ReportError,
    Terminate,
}

impl View for SessionAction {
    type V = ActionView;

    open spec fn view(&self) -> ActionView {
        match self {
            SessionAction::Nothing => ActionView::Nothing,
            SessionAction::Spawn => ActionView::Spawn,
            SessionAction::TakeSnapshot => ActionView::TakeSnapshot,
            SessionAction::Emit(r) => ActionView::Emit(r@),
            SessionAction::ReportError => ActionView::ReportError,
            SessionAction::Terminate => ActionView::Terminate,
        }
    }
}

/// A session as plain values: its phase, the cached process table, and the
/// entry that waits for a process listing.
pub struct SessionView {
    pub phase: Phase,
    pub table: Map<Seq<char>, Seq<char>>,
    pub pending: Option<EntryView>,
}

/// The session `s` with phase `p`.
pub open spec fn in_phase(s: SessionView, p: Phase) -> SessionView {
    SessionView { phase: p, table: s.table, pending: s.pending }
}

/// How a session answers one event: its next state, and what it asks to be
/// done. A closed or failed session ignores everything; an event that does
/// not fit the phase changes nothing.
pub open spec fn next(s: SessionView, ev: EventView) -> (SessionView, ActionView) {
    if s.phase == Phase::Closed || s.phase == Phase::Failed {
        (s, ActionView::Nothing)
    } else {
        match ev {
            EventView::Cancel => (
                SessionView { phase: Phase::Closed, table: s.table, pending: None },
                ActionView::Terminate,
            ),
            EventView::Start => if s.phase == Phase::Idle {
                (in_phase(s, Phase::Spawning), ActionView::Spawn)
            } else {
                (s, ActionView::Nothing)
            },
            EventView::Spawned => if s.phase == Phase::Spawning {
                (in_phase(s, Phase::Streaming), ActionView::Nothing)
            } else {
                (s, ActionView::Nothing)
            },
            EventView::SpawnFailed => if s.phase == Phase::Spawning {
                (in_phase(s, Phase::Failed), ActionView::ReportError)
            } else {
                (s, ActionView::Nothing)
            },
            EventView::Line(l) => if s.phase == Phase::Streaming {
                match parse_line(l) {
                    None => (s, ActionView::Nothing),
                    Some(e) => if s.table.contains_key(e.pid) {
                        (s, ActionView::Emit(RecordView { entry: e, package: s.table[e.pid] }))
                    } else {
                        (
                            SessionView {
                                phase: Phase::AwaitingSnapshot,
                                table: s.table,
                                pending: Some(e),
                            },
                            ActionView::TakeSnapshot,
                        )
                    },
                }
            } else {
                (s, ActionView::Nothing)
            },
            EventView::Snapshot(out) => if s.phase == Phase::AwaitingSnapshot && s.pending is Some {
                let e = s.pending->Some_0;
                let m = snapshot_of(out);
                (
                    SessionView { phase: Phase::Streaming, table: m, pending: None },
                    ActionView::Emit(RecordView { entry: e, package: resolved_name(m, e.pid) }),
                )
            } else {
                (s, ActionView::Nothing)
            },
            EventView::SnapshotFailed => if s.phase == Phase::AwaitingSnapshot {
                (
                    SessionView { phase: Phase::Failed, table: s.table, pending: None },
                    ActionView::Terminate,
                )
            } else {
                (s, ActionView::Nothing)
            },
            EventView::EndOfStream => if s.phase == Phase::Streaming {
                (in_phase(s, Phase::Closed), ActionView::Terminate)
            } else {
                (s, ActionView::Nothing)
            },
        }
    }
}

/// The final state, and the actions in order, of a session that starts in
/// `s` and answers the events `evs` one after another.
pub open spec fn run(s: SessionView, evs: Seq<EventView>) -> (SessionView, Seq<ActionView>)
    decreases evs.len(),
{
    if evs.len() == 0 {
        (s, Seq::empty())
    } else {
        let (s1, a) = next(s, evs[0]);
        let (s2, acts) = run(s1, evs.drop_first());
        (s2, seq![a] + acts)
    }
}

/// A closed or failed session stays as it is and asks for nothing, whatever
/// events follow.
pub proof fn lemma_finished_session_is_inert(s: SessionView, evs: Seq<EventView>)
    requires
        s.phase == Phase::Closed || s.phase == Phase::Failed,
    ensures
        run(s, evs).0 == s,
        run(s, evs).1.len() == evs.len(),
        forall|k: int| 0 <= k < evs.len() ==> #[trigger] run(s, evs).1[k] == ActionView::Nothing,
    decreases evs.len(),
{
    if evs.len() > 0 {
        lemma_finished_session_is_inert(s, evs.drop_first());
        let acts = run(s, evs.drop_first()).1;
        assert forall|k: int| 0 <= k < evs.len() implies #[trigger] run(s, evs).1[k]
            == ActionView::Nothing by {
            if k > 0 {
                assert(run(s, evs).1[k] == acts[k - 1]);
            }
        }
    }
}

/// Cancelling a live session asks for its stream's process to be ended, and
/// after that the session delivers no record, whatever events follow.
pub proof fn lemma_cancel_stops_emission(s: SessionView, later: Seq<EventView>)
    ensures
        s.phase != Phase::Closed && s.phase != Phase::Failed ==> next(s, EventView::Cancel).1
            == ActionView::Terminate,
        next(s, EventView::Cancel).0.phase == Phase::Closed || next(s, EventView::Cancel).0.phase
            == Phase::Failed,
        forall|k: int|
            0 <= k < later.len() ==> #[trigger] run(next(s, EventView::Cancel).0, later).1[k]
                == ActionView::Nothing,
{
    lemma_finished_session_is_inert(next(s, EventView::Cancel).0, later);
}

/// A line that does not follow the log layout changes nothing and delivers
/// no record.
pub proof fn lemma_malformed_line_emits_nothing(s: SessionView, l: Seq<char>)
    requires
        parse_line(l) is None,
    ensures
        next(s, EventView::Line(l)) == (s, ActionView::Nothing),
{
}

/// While the cached table knows a line's process, the line is delivered with
/// its package name from the table, and the same line read twice asks for no
/// process listing either time.
pub proof fn lemma_known_process_needs_no_snapshot(s: SessionView, l: Seq<char>)
    requires
        s.phase == Phase::Streaming,
        parse_line(l) is Some,
        s.table.contains_key(parse_line(l)->Some_0.pid),
    ensures
        ({
            let e = parse_line(l)->Some_0;
            let rec = ActionView::Emit(RecordView { entry: e, package: s.table[e.pid] });
            run(s, seq![EventView::Line(l), EventView::Line(l)]) == (s, seq![rec, rec])
        }),
{
    let evs = seq![EventView::Line(l), EventView::Line(l)];
    let e = parse_line(l)->Some_0;
    let rec = ActionView::Emit(RecordView { entry: e, package: s.table[e.pid] });
    let one = seq![EventView::Line(l)];
    let none = Seq::<EventView>::empty();
    assert(next(s, EventView::Line(l)) == (s, rec));
    assert(one[0] == EventView::Line(l));
    assert(one.drop_first() =~= none);
    assert(run(s, none) == (s, Seq::<ActionView>::empty()));
    assert(run(s, one).1 =~= seq![rec]);
    assert(evs[0] == EventView::Line(l));
    assert(evs.drop_first() =~= one);
    assert(run(s, evs).1 =~= seq![rec, rec]);
}

/// A line whose process the cached table does not know asks for exactly one
/// process listing; the listing replaces the whole table, and the line is
/// delivered with the package name that the fresh table gives (empty where
/// it does not know the process either).
pub proof fn lemma_unknown_process_refreshes_once(s: SessionView, l: Seq<char>, listing: Seq<char>)
    requires
        s.phase == Phase::Streaming,
        parse_line(l) is Some,
        !s.table.contains_key(parse_line(l)->Some_0.pid),
    ensures
        ({
            let e = parse_line(l)->Some_0;
            let fresh = snapshot_of(listing);
            run(s, seq![EventView::Line(l), EventView::Snapshot(listing)]) == (
                SessionView { phase: Phase::Streaming, table: fresh, pending: None },
                seq![
                    ActionView::TakeSnapshot,
                    ActionView::Emit(RecordView { entry: e, package: resolved_name(fresh, e.pid) }),
                ],
            )
        }),
{
    let evs = seq![EventView::Line(l), EventView::Snapshot(listing)];
    let e = parse_line(l)->Some_0;
    let fresh = snapshot_of(listing);
    let rec = ActionView::Emit(RecordView { entry: e, package: resolved_name(fresh, e.pid) });
    let s1 = SessionView { phase: Phase::AwaitingSnapshot, table: s.table, pending: Some(e) };
    let s2 = SessionView { phase: Phase::Streaming, table: fresh, pending: None };
    let one = seq![EventView::Snapshot(listing)];
    let none = Seq::<EventView>::empty();
    assert(next(s, EventView::Line(l)) == (s1, ActionView::TakeSnapshot));
    assert(next(s1, EventView::Snapshot(listing)) == (s2, rec));
    assert(one[0] == EventView::Snapshot(listing));
    assert(one.drop_first() =~= none);
    assert(run(s2, none) == (s2, Seq::<ActionView>::empty()));
    assert(run(s1, one).1 =~= seq![rec]);
    assert(evs[0] == EventView::Line(l));
    assert(evs.drop_first() =~= one);
    assert(run(s, evs).1 =~= seq![ActionView::TakeSnapshot, rec]);
}

/// The live state of one device's log stream.
pub struct Session {
    phase: Phase,
    resolver: PackageResolver,
    pending: Option<ParsedLogEntry>,
}

impl View for Session {
    type V = SessionView;

    closed spec fn view(&self) -> SessionView {
        SessionView {
            phase: self.phase,
            table: self.resolver@,
            pending: match self.pending {
                Some(e) => Some(e@),
                None => None,
            },
        }
    }
}

impl Session {
    pub closed spec fn wf(&self) -> bool {
        self.resolver.wf()
    }

    /// A session that has not started, with no process table yet.
    pub fn new() -> (r: Session)
        ensures
            r.wf(),
            r@ == (SessionView {
                phase: Phase::Idle,
                table: Map::empty(),
                pending: None,
            }),
    {
        Session { phase: Phase::Idle, resolver: PackageResolver::new(), pending: None }
    }

    /// Where the session stands.
    pub fn phase(&self) -> (r: Phase)
        ensures
            r == self@.phase,
    {
        self.phase
    }

    /// Answers one event, as `next` says.
    pub fn step(&mut self, ev: SessionEvent) -> (r: SessionAction)
        requires
            old(self).wf(),
        ensures
            final(self).wf(),
            (final(self)@, r@) == next(old(self)@, ev@),
    {
        if self.phase == Phase::Closed || self.phase == Phase::Failed {
            return SessionAction::Nothing;
        }
        match ev {
            SessionEvent::Cancel => {
                self.phase = Phase::Closed;
                self.pending = None;
                SessionAction::Terminate
            },
            SessionEvent::Start => {
                if self.phase == Phase::Idle {
                    self.phase = Phase::Spawning;
                    SessionAction::Spawn
                } else {
                    SessionAction::Nothing
                }
            },
            SessionEvent::Spawned => {
                if self.phase == Phase::Spawning {
                    self.phase = Phase::Streaming;
                }
                SessionAction::Nothing
            },
            SessionEvent::SpawnFailed => {
                if self.phase == Phase::Spawning {
                    self.phase = Phase::Failed;
                    SessionAction::ReportError
                } else {
                    SessionAction::Nothing
                }
            },
            SessionEvent::Line(l) => {
                if self.phase != Phase::Streaming {
                    return SessionAction::Nothing;
                }
                match parse(l.as_str()) {
                    None => SessionAction::Nothing,
                    Some(entry) => match self.resolver.resolve(entry.pid.as_str()) {
                        Resolution::Known(name) => SessionAction::Emit(enrich(entry, name)),
                        Resolution::NeedsSnapshot => {
                            self.phase = Phase::AwaitingSnapshot;
                            self.pending = Some(entry);
                            SessionAction::TakeSnapshot
                        },
                    },
                }
            },
            SessionEvent::Snapshot(out) => {
                if self.phase != Phase::AwaitingSnapshot {
                    return SessionAction::Nothing;
                }
                match self.pending.take() {
                    None => SessionAction::Nothing,
                    Some(entry) => {
                        let name = self.resolver.refresh(out.as_str(), entry.pid.as_str());
                        self.phase = Phase::Streaming;
                        SessionAction::Emit(enrich(entry, name))
                    },
                }
            },
            SessionEvent::SnapshotFailed => {
                if self.phase == Phase::AwaitingSnapshot {
                    self.phase = Phase::Failed;
                    self.pending = None;
                    SessionAction::Terminate
                } else {
                    SessionAction::Nothing
                }
            },
            SessionEvent::EndOfStream => {
                if self.phase == Phase::Streaming {
                    self.phase = Phase::Closed;
                    SessionAction::Terminate
                } else {
                    SessionAction::Nothing
                }
            },
        }
    }
}

} // verus!
