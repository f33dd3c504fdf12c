use peer_session::accepter::{
    AccepterTask, SessionAccepter, TaskAction, TaskEvent, TaskPhase, ACCEPT_DELAY_SECS,
};
use peer_session::handshake::{HandshakeAction, HandshakeEvent, HandshakeRole, Phase};
use peer_session::version::SessionVersion;

#[test]
fn accepter_has_three_idle_workers() {
    let accepter: SessionAccepter<u8> = SessionAccepter::new();
    let workers = accepter.create_accept_task();
    assert_eq!(workers.len(), 3);
    for worker in &workers {
        assert_eq!(worker.phase(), TaskPhase::Idle);
    }
}

#[test]
fn worker_waits_then_accepts_then_serves() {
    let mut worker = AccepterTask::new();
    assert!(matches!(worker.run(TaskEvent::Started, false), TaskAction::Sleep(1)));
    assert_eq!(ACCEPT_DELAY_SECS, 1);
    assert_eq!(worker.phase(), TaskPhase::Sleeping);
    assert!(matches!(worker.run(TaskEvent::Slept, false), TaskAction::Accept));
    assert_eq!(worker.phase(), TaskPhase::Accepting);
    match worker.run(TaskEvent::Accepted("192.0.2.1:7000".to_string()), false) {
        TaskAction::Serve(mut handshake) => {
            assert_eq!(handshake.role(), HandshakeRole::Responder);
            assert_eq!(handshake.phase(), Phase::Ready);
            match handshake.step(HandshakeEvent::Begin) {
                HandshakeAction::ExchangeHello(hello) => assert_eq!(hello.version, SessionVersion::v1()),
                other => panic!("unexpected action {:?}", other),
            }
            // The peer's address is in the session once there is one; here
            // the handshake stops short of it.
            assert!(handshake.into_session(0u8).is_err());
        },
        _ => panic!("the connection is not served"),
    }
    assert_eq!(worker.phase(), TaskPhase::Serving);
    assert!(matches!(worker.run(TaskEvent::Served, false), TaskAction::Sleep(1)));
    assert_eq!(worker.phase(), TaskPhase::Sleeping);
}

#[test]
fn worker_goes_on_after_a_failed_accept() {
    let mut worker = AccepterTask::new();
    worker.run(TaskEvent::Started, false);
    worker.run(TaskEvent::Slept, false);
    assert!(matches!(worker.run(TaskEvent::AcceptFailed, false), TaskAction::Sleep(1)));
    assert!(matches!(worker.run(TaskEvent::Slept, false), TaskAction::Accept));
}

#[test]
fn worker_stops_when_asked() {
    let mut idle = AccepterTask::new();
    assert!(matches!(idle.run(TaskEvent::Started, true), TaskAction::Stop));
    assert_eq!(idle.phase(), TaskPhase::Stopped);

    let mut sleeping = AccepterTask::new();
    sleeping.run(TaskEvent::Started, false);
    assert!(matches!(sleeping.run(TaskEvent::Slept, true), TaskAction::Stop));

    let mut serving = AccepterTask::new();
    serving.run(TaskEvent::Started, false);
    serving.run(TaskEvent::Slept, false);
    serving.run(TaskEvent::Accepted("a:1".to_string()), false);
    assert!(matches!(serving.run(TaskEvent::Served, true), TaskAction::Stop));
    // Stopped for good.
    assert!(matches!(serving.run(TaskEvent::Started, false), TaskAction::Stop));
    assert!(matches!(serving.run(TaskEvent::Slept, false), TaskAction::Stop));
    assert_eq!(serving.phase(), TaskPhase::Stopped);
}

#[test]
fn connection_in_hand_is_served_even_when_asked_to_stop() {
    let mut worker = AccepterTask::new();
    worker.run(TaskEvent::Started, false);
    worker.run(TaskEvent::Slept, false);
    assert!(matches!(worker.run(TaskEvent::Accepted("a:1".to_string()), true), TaskAction::Serve(_)));
    assert!(matches!(worker.run(TaskEvent::Served, true), TaskAction::Stop));
}

#[test]
fn report_out_of_turn_sends_the_worker_to_the_head_of_its_loop() {
    let mut worker = AccepterTask::new();
    assert!(matches!(worker.run(TaskEvent::Slept, false), TaskAction::Sleep(1)));
    assert!(matches!(worker.run(TaskEvent::Accepted("a:1".to_string()), false), TaskAction::Sleep(1)));
    assert!(matches!(worker.run(TaskEvent::Served, false), TaskAction::Sleep(1)));
    assert_eq!(worker.phase(), TaskPhase::Sleeping);
}
