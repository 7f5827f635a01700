use http_server::server::{next_step, LoopAction, LoopEvent, LoopState, Server, BUFFER_SIZE};

#[test]
fn server_keeps_its_address() {
    let s = Server::new(String::from("127.0.0.1:8080"));
    assert_eq!(s.addr(), "127.0.0.1:8080");
}

#[test]
fn buffer_is_one_kibibyte() {
    assert_eq!(BUFFER_SIZE, 1024);
}

#[test]
fn loop_runs_accept_read_accept() {
    let (s, a) = next_step(LoopState::Bound, LoopEvent::Started);
    assert_eq!((s, a), (LoopState::Accepting, LoopAction::Accept));
    let (s, a) = next_step(s, LoopEvent::Accepted);
    assert_eq!((s, a), (LoopState::Reading, LoopAction::Read));
    let (s, a) = next_step(s, LoopEvent::ReadDone);
    assert_eq!((s, a), (LoopState::Accepting, LoopAction::ParseAndReport));
}

#[test]
fn loop_survives_failures() {
    let (s, a) = next_step(LoopState::Accepting, LoopEvent::AcceptFailed);
    assert_eq!((s, a), (LoopState::IdleAfterError, LoopAction::ReportAcceptError));
    let (s, a) = next_step(s, LoopEvent::Started);
    assert_eq!((s, a), (LoopState::Accepting, LoopAction::Accept));
    let (s, a) = next_step(LoopState::Reading, LoopEvent::ReadFailed);
    assert_eq!((s, a), (LoopState::Accepting, LoopAction::ReportReadError));
}
