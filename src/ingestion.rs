//! Decisions of the ingestion worker: a state machine over the link to the
//! device that frames newline-terminated lines out of the bytes it reads.
//! The worker's loop performs each action and hands back the next event.
use vstd::prelude::*;

verus! {

pub const NEWLINE: u8 = 10;

pub open spec fn no_newline(s: Seq<u8>) -> bool {
    forall|j: int| 0 <= j < s.len() ==> s[j] != NEWLINE
}

/// The lines written out one after another, each followed by a newline.
pub open spec fn join_lines(lines: Seq<Seq<u8>>) -> Seq<u8>
    decreases lines.len(),
{
    if lines.len() == 0 {
        Seq::empty()
    } else {
        join_lines(lines.drop_last()) + lines.last() + seq![NEWLINE]
    }
}

/// `lines` are the complete lines of `input` (without their newlines), in
/// order, and `rest` is the unterminated tail that follows the last newline.
pub open spec fn frames(input: Seq<u8>, lines: Seq<Seq<u8>>, rest: Seq<u8>) -> bool {
    &&& forall|i: int| 0 <= i < lines.len() ==> no_newline(#[trigger] lines[i])
    &&& no_newline(rest)
    &&& join_lines(lines) + rest == input
}

/// Splits `pending + bytes` into its complete lines and the unterminated
/// rest.
pub fn frame_lines(pending: Vec<u8>, bytes: &Vec<u8>) -> (r: (Vec<Vec<u8>>, Vec<u8>))
    requires
        no_newline(pending@),
    ensures
        frames(pending@ + bytes@, r.0@.map_values(|l: Vec<u8>| l@), r.1@),
{
    let mut lines: Vec<Vec<u8>> = Vec::new();
    let mut current = pending;
    let mut i: usize = 0;
    proof {
        assert(join_lines(lines@.map_values(|l: Vec<u8>| l@)) + current@ =~= pending@
            + bytes@.take(0));
    }
    while i < bytes.len()
        invariant
            i <= bytes@.len(),
            no_newline(current@),
            forall|k: int| 0 <= k < lines@.len() ==> no_newline(#[trigger] lines@[k]@),
            join_lines(lines@.map_values(|l: Vec<u8>| l@)) + current@ == pending@ + bytes@.take(
                i as int,
            ),
        decreases bytes@.len() - i,
    {
        let b = bytes[i];
        let ghost before = lines@;
        let ghost cur_before = current@;
        let ghost joined = join_lines(before.map_values(|l: Vec<u8>| l@));
        if b == NEWLINE {
            let mut done: Vec<u8> = Vec::new();
            std::mem::swap(&mut done, &mut current);
            let ghost line = done@;
            lines.push(done);
            proof {
                let views = lines@.map_values(|l: Vec<u8>| l@);
                assert(views.drop_last() =~= before.map_values(|l: Vec<u8>| l@));
                assert(views.last() == line);
                assert(join_lines(views) == joined + line + seq![NEWLINE]);
                assert(current@ =~= Seq::<u8>::empty());
                assert(join_lines(views) + current@ =~= joined + line + seq![NEWLINE]);
                assert(joined + line + seq![NEWLINE] =~= (joined + cur_before).push(b));
            }
        } else {
            current.push(b);
            assert(joined + current@ =~= (joined + cur_before).push(b));
        }
        proof {
            assert(bytes@.take(i + 1) =~= bytes@.take(i as int).push(b));
            assert(join_lines(lines@.map_values(|l: Vec<u8>| l@)) + current@ =~= pending@
                + bytes@.take(i + 1));
        }
        i += 1;
    }
    proof {
        assert(bytes@.take(bytes@.len() as int) =~= bytes@);
    }
    (lines, current)
}

/// Where the link to the device stands. `Disconnected` and `Failed` are
/// terminal: the worker ends there and nothing reconnects it.
#[derive(Clone, Copy, PartialEq, Eq, Structural, Debug)]
pub enum LinkState {
    Connecting,
    Connected,
    Disconnected,
    Failed,
}

/// What the worker's loop observed, or what became of a line it was handed.
pub enum LinkEvent {
    /// The device opened.
    Opened,
    /// The device could not be opened.
    OpenFailed,
    /// A read timed out with nothing to read: the idle case.
    TimedOut,
    /// A read returned these bytes.
    Received(Vec<u8>),
    /// The line handed out last parsed as a number.
    LineAccepted,
    /// The line handed out last did not parse.
    LineRejected,
    /// A read failed otherwise than by timing out.
    ReadFailed,
    /// The receiver of the sample channel is gone.
    ChannelClosed,
}

/// The condition that a status message reports.
#[derive(Clone, Copy, PartialEq, Eq, Structural, Debug)]
pub enum StatusKind {
    Connected,
    OpenFailed,
    ValueReceived,
    ParseError,
    ReadError,
    ChannelClosed,
}

/// What the worker's loop is to do next, in order.
pub enum WorkerAction {
    /// Publish a status message.
    Report(StatusKind),
    /// Trim this complete line, try to parse it as a number, and hand back
    /// `LineAccepted` or `LineRejected`.
    Parse(Vec<u8>),
    /// Forward the number parsed last as a sample.
    Forward,
}

pub open spec fn next_state(s: LinkState, e: LinkEvent) -> LinkState {
    match s {
        LinkState::Connecting => match e {
            LinkEvent::Opened => LinkState::Connected,
            LinkEvent::OpenFailed => LinkState::Failed,
            LinkEvent::ChannelClosed => LinkState::Failed,
            _ => LinkState::Connecting,
        },
        LinkState::Connected => match e {
            LinkEvent::ReadFailed => LinkState::Disconnected,
            LinkEvent::ChannelClosed => LinkState::Disconnected,
            _ => LinkState::Connected,
        },
        _ => s,
    }
}

/// The actions for an event other than received bytes.
pub open spec fn reactions(s: LinkState, e: LinkEvent) -> Seq<WorkerAction> {
    match s {
        LinkState::Connecting => match e {
            LinkEvent::Opened => seq![WorkerAction::Report(StatusKind::Connected)],
            LinkEvent::OpenFailed => seq![WorkerAction::Report(StatusKind::OpenFailed)],
            _ => seq![],
        },
        LinkState::Connected => match e {
            LinkEvent::LineAccepted => seq![
                WorkerAction::Report(StatusKind::ValueReceived),
                WorkerAction::Forward,
            ],
            LinkEvent::LineRejected => seq![WorkerAction::Report(StatusKind::ParseError)],
            LinkEvent::ReadFailed => seq![WorkerAction::Report(StatusKind::ReadError)],
            LinkEvent::ChannelClosed => seq![WorkerAction::Report(StatusKind::ChannelClosed)],
            _ => seq![],
        },
        _ => seq![],
    }
}

pub open spec fn parse_line_of(a: WorkerAction) -> Seq<u8> {
    match a {
        WorkerAction::Parse(line) => line@,
        _ => Seq::empty(),
    }
}

/// The ingestion worker's state: the link, and the bytes read since the
/// last newline.
pub struct IngestionWorker {
    pub state: LinkState,
    pub pending: Vec<u8>,
}

impl IngestionWorker {
    /// The unterminated tail holds no newline.
    pub open spec fn wf(&self) -> bool {
        no_newline(self.pending@)
    }

    pub fn new() -> (r: Self)
        ensures
            r.state == LinkState::Connecting,
            r.pending@ == Seq::<u8>::empty(),
            r.wf(),
    {
        IngestionWorker { state: LinkState::Connecting, pending: Vec::new() }
    }

    /// Whether the worker's loop goes on.
    pub fn is_running(&self) -> (r: bool)
        ensures
            r == (self.state == LinkState::Connecting || self.state == LinkState::Connected),
    {
        match self.state {
            LinkState::Connecting | LinkState::Connected => true,
            _ => false,
        }
    }

    /// Takes the next event and returns the actions it calls for. Bytes
    /// received while connected are added to the pending tail, and each
    /// line that they complete is handed out for parsing, in order.
    pub fn on_event(&mut self, event: LinkEvent) -> (actions: Vec<WorkerAction>)
        requires
            old(self).wf(),
        ensures
            final(self).wf(),
            final(self).state == next_state(old(self).state, event),
            match event {
                LinkEvent::Received(bytes) => if old(self).state == LinkState::Connected {
                    &&& forall|i: int|
                        0 <= i < actions@.len() ==> #[trigger] actions@[i] is Parse
                    &&& frames(
                        old(self).pending@ + bytes@,
                        actions@.map_values(|a: WorkerAction| parse_line_of(a)),
                        final(self).pending@,
                    )
                } else {
                    actions@.len() == 0 && final(self).pending@ == old(self).pending@
                },
                _ => actions@ == reactions(old(self).state, event) && final(self).pending@ == old(
                    self,
                ).pending@,
            },
    {
        let mut actions: Vec<WorkerAction> = Vec::new();
        match event {
            LinkEvent::Received(bytes) => {
                if self.state == LinkState::Connected {
                    let mut pending: Vec<u8> = Vec::new();
                    std::mem::swap(&mut pending, &mut self.pending);
                    let (lines, rest) = frame_lines(pending, &bytes);
                    self.pending = rest;
                    actions = parse_actions(lines);
                }
            },
            LinkEvent::Opened => {
                if self.state == LinkState::Connecting {
                    self.state = LinkState::Connected;
                    actions.push(WorkerAction::Report(StatusKind::Connected));
                }
            },
            LinkEvent::OpenFailed => {
                if self.state == LinkState::Connecting {
                    self.state = LinkState::Failed;
                    actions.push(WorkerAction::Report(StatusKind::OpenFailed));
                }
            },
            LinkEvent::TimedOut => {},
            LinkEvent::LineAccepted => {
                if self.state == LinkState::Connected {
                    actions.push(WorkerAction::Report(StatusKind::ValueReceived));
                    actions.push(WorkerAction::Forward);
                }
            },
            LinkEvent::LineRejected => {
                if self.state == LinkState::Connected {
                    actions.push(WorkerAction::Report(StatusKind::ParseError));
                }
            },
            LinkEvent::ReadFailed => {
                if self.state == LinkState::Connected {
                    self.state = LinkState::Disconnected;
                    actions.push(WorkerAction::Report(StatusKind::ReadError));
                }
            },
            LinkEvent::ChannelClosed => {
                if self.state == LinkState::Connecting {
                    self.state = LinkState::Failed;
                } else if self.state == LinkState::Connected {
                    self.state = LinkState::Disconnected;
                    actions.push(WorkerAction::Report(StatusKind::ChannelClosed));
                }
            },
        }
        actions
    }
}

/// One `Parse` action per line, in order.
fn parse_actions(lines: Vec<Vec<u8>>) -> (actions: Vec<WorkerAction>)
    ensures
        forall|i: int| 0 <= i < actions@.len() ==> #[trigger] actions@[i] is Parse,
        actions@.map_values(|a: WorkerAction| parse_line_of(a)) == lines@.map_values(
            |l: Vec<u8>| l@,
        ),
{
    let mut actions: Vec<WorkerAction> = Vec::new();
    let mut rest = lines;
    let ghost all = rest@.map_values(|l: Vec<u8>| l@);
    proof {
        assert(actions@.map_values(|a: WorkerAction| parse_line_of(a)) + rest@.map_values(
            |l: Vec<u8>| l@,
        ) =~= all);
    }
    while rest.len() > 0
        invariant
            forall|i: int| 0 <= i < actions@.len() ==> #[trigger] actions@[i] is Parse,
            actions@.map_values(|a: WorkerAction| parse_line_of(a)) + rest@.map_values(
                |l: Vec<u8>| l@,
            ) == all,
        decreases rest@.len(),
    {
        let ghost done_before = actions@.map_values(|a: WorkerAction| parse_line_of(a));
        let ghost rest_before = rest@.map_values(|l: Vec<u8>| l@);
        let line = rest.remove(0);
        let ghost line_view = line@;
        actions.push(WorkerAction::Parse(line));
        proof {
            assert(rest@.map_values(|l: Vec<u8>| l@) =~= rest_before.drop_first());
            assert(actions@.map_values(|a: WorkerAction| parse_line_of(a)) =~= done_before.push(
                line_view,
            ));
            assert(done_before.push(line_view) + rest_before.drop_first() =~= done_before
                + rest_before);
        }
    }
    proof {
        assert(rest@.map_values(|l: Vec<u8>| l@) =~= Seq::<Seq<u8>>::empty());
        assert(actions@.map_values(|a: WorkerAction| parse_line_of(a)) =~= all);
    }
    actions
}

} // verus!
