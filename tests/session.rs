use droid_devkit::session::{enrich, Phase, Session, SessionAction, SessionEvent};
use droid_devkit::logline::parse;

const LISTING: &str = "USER PID PPID VSZ RSS WCHAN ADDR S NAME\nu0_a1 1234 1 0 0 w 0 S com.example.app\n";
const LINE: &str = "06-01 12:00:01.123  1234  5678 I MyTag: hello world";

fn streaming() -> Session {
    let mut s = Session::new();
    assert!(matches!(s.step(SessionEvent::Start), SessionAction::Spawn));
    assert_eq!(s.phase(), Phase::Spawning);
    assert!(matches!(s.step(SessionEvent::Spawned), SessionAction::Nothing));
    assert_eq!(s.phase(), Phase::Streaming);
    s
}

#[test]
fn first_line_takes_one_snapshot_then_hits() {
    let mut s = streaming();
    assert!(matches!(s.step(SessionEvent::Line(LINE.to_string())), SessionAction::TakeSnapshot));
    assert_eq!(s.phase(), Phase::AwaitingSnapshot);
    match s.step(SessionEvent::Snapshot(LISTING.to_string())) {
        SessionAction::Emit(r) => {
            assert_eq!(r.package, "com.example.app");
            assert_eq!(r.entry.pid, "1234");
            assert_eq!(r.entry.message, "hello world");
        }
        _ => panic!("no record"),
    }
    assert_eq!(s.phase(), Phase::Streaming);
    match s.step(SessionEvent::Line(LINE.to_string())) {
        SessionAction::Emit(r) => assert_eq!(r.package, "com.example.app"),
        _ => panic!("a known process asked for a snapshot"),
    }
}

#[test]
fn unresolved_process_gets_empty_package() {
    let mut s = streaming();
    let line = "06-01 12:00:01.123  77  78 W Other: x";
    assert!(matches!(s.step(SessionEvent::Line(line.to_string())), SessionAction::TakeSnapshot));
    match s.step(SessionEvent::Snapshot(LISTING.to_string())) {
        SessionAction::Emit(r) => assert_eq!(r.package, ""),
        _ => panic!("no record"),
    }
}

#[test]
fn malformed_line_emits_nothing() {
    let mut s = streaming();
    assert!(matches!(
        s.step(SessionEvent::Line("--------- beginning of main".to_string())),
        SessionAction::Nothing
    ));
    assert_eq!(s.phase(), Phase::Streaming);
}

#[test]
fn cancel_stops_emission() {
    let mut s = streaming();
    assert!(matches!(s.step(SessionEvent::Cancel), SessionAction::Terminate));
    assert_eq!(s.phase(), Phase::Closed);
    assert!(matches!(s.step(SessionEvent::Line(LINE.to_string())), SessionAction::Nothing));
    assert!(matches!(s.step(SessionEvent::Snapshot(LISTING.to_string())), SessionAction::Nothing));
    assert!(matches!(s.step(SessionEvent::Start), SessionAction::Nothing));
    assert_eq!(s.phase(), Phase::Closed);
}

#[test]
fn cancel_while_waiting_for_snapshot() {
    let mut s = streaming();
    assert!(matches!(s.step(SessionEvent::Line(LINE.to_string())), SessionAction::TakeSnapshot));
    assert!(matches!(s.step(SessionEvent::Cancel), SessionAction::Terminate));
    assert!(matches!(s.step(SessionEvent::Snapshot(LISTING.to_string())), SessionAction::Nothing));
}

#[test]
fn spawn_failure_reports_error() {
    let mut s = Session::new();
    s.step(SessionEvent::Start);
    assert!(matches!(s.step(SessionEvent::SpawnFailed), SessionAction::ReportError));
    assert_eq!(s.phase(), Phase::Failed);
    assert!(matches!(s.step(SessionEvent::Line(LINE.to_string())), SessionAction::Nothing));
}

#[test]
fn end_of_stream_closes() {
    let mut s = streaming();
    assert!(matches!(s.step(SessionEvent::EndOfStream), SessionAction::Terminate));
    assert_eq!(s.phase(), Phase::Closed);
}

#[test]
fn snapshot_failure_ends_session() {
    let mut s = streaming();
    s.step(SessionEvent::Line(LINE.to_string()));
    assert!(matches!(s.step(SessionEvent::SnapshotFailed), SessionAction::Terminate));
    assert_eq!(s.phase(), Phase::Failed);
}

#[test]
fn lines_before_spawn_are_ignored() {
    let mut s = Session::new();
    assert!(matches!(s.step(SessionEvent::Line(LINE.to_string())), SessionAction::Nothing));
    assert_eq!(s.phase(), Phase::Idle);
}

#[test]
fn enrich_joins_entry_and_package() {
    let r = enrich(parse(LINE).unwrap(), "pkg".to_string());
    assert_eq!(r.package, "pkg");
    assert_eq!(r.entry.tag, "MyTag");
}
