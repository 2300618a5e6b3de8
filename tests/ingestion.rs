use light_monitor::ingestion::{
    frame_lines, IngestionWorker, LinkEvent, LinkState, StatusKind, WorkerAction,
};

fn connected() -> IngestionWorker {
    let mut w = IngestionWorker::new();
    let actions = w.on_event(LinkEvent::Opened);
    assert!(matches!(actions.as_slice(), [WorkerAction::Report(StatusKind::Connected)]));
    w
}

fn lines_of(actions: &[WorkerAction]) -> Vec<Vec<u8>> {
    actions
        .iter()
        .map(|a| match a {
            WorkerAction::Parse(line) => line.clone(),
            _ => panic!("expected a line"),
        })
        .collect()
}

#[test]
fn frames_complete_lines_and_keeps_the_tail() {
    let (lines, rest) = frame_lines(b"12".to_vec(), &b"3.5\r\n7\n8".to_vec());
    assert_eq!(lines, vec![b"123.5\r".to_vec(), b"7".to_vec()]);
    assert_eq!(rest, b"8".to_vec());
}

#[test]
fn partial_reads_accumulate_into_one_line() {
    let mut w = connected();
    assert!(w.on_event(LinkEvent::Received(b"10".to_vec())).is_empty());
    assert!(w.on_event(LinkEvent::TimedOut).is_empty());
    let actions = w.on_event(LinkEvent::Received(b"0.5\n".to_vec()));
    assert_eq!(lines_of(&actions), vec![b"100.5".to_vec()]);
    assert!(w.pending.is_empty());
}

#[test]
fn accepted_line_is_reported_and_forwarded() {
    let mut w = connected();
    let actions = w.on_event(LinkEvent::LineAccepted);
    assert!(matches!(
        actions.as_slice(),
        [WorkerAction::Report(StatusKind::ValueReceived), WorkerAction::Forward]
    ));
}

#[test]
fn rejected_line_is_reported_not_forwarded() {
    let mut w = connected();
    let actions = w.on_event(LinkEvent::LineRejected);
    assert!(matches!(actions.as_slice(), [WorkerAction::Report(StatusKind::ParseError)]));
    assert_eq!(w.state, LinkState::Connected);
}

#[test]
fn open_failure_is_terminal() {
    let mut w = IngestionWorker::new();
    assert!(w.is_running());
    let actions = w.on_event(LinkEvent::OpenFailed);
    assert!(matches!(actions.as_slice(), [WorkerAction::Report(StatusKind::OpenFailed)]));
    assert_eq!(w.state, LinkState::Failed);
    assert!(!w.is_running());
    assert!(w.on_event(LinkEvent::Opened).is_empty());
    assert_eq!(w.state, LinkState::Failed);
}

#[test]
fn read_error_disconnects() {
    let mut w = connected();
    let actions = w.on_event(LinkEvent::ReadFailed);
    assert!(matches!(actions.as_slice(), [WorkerAction::Report(StatusKind::ReadError)]));
    assert_eq!(w.state, LinkState::Disconnected);
    assert!(!w.is_running());
    assert!(w.on_event(LinkEvent::Received(b"1\n".to_vec())).is_empty());
}

#[test]
fn closed_channel_stops_the_worker() {
    let mut w = connected();
    let actions = w.on_event(LinkEvent::ChannelClosed);
    assert!(matches!(actions.as_slice(), [WorkerAction::Report(StatusKind::ChannelClosed)]));
    assert!(!w.is_running());
}

#[test]
fn bytes_before_connecting_are_ignored() {
    let mut w = IngestionWorker::new();
    assert!(w.on_event(LinkEvent::Received(b"5\n".to_vec())).is_empty());
    assert!(w.pending.is_empty());
    assert_eq!(w.state, LinkState::Connecting);
}
