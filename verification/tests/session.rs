use topic_broker::session::Inbound;
use topic_broker::session::Phase;
use topic_broker::session::ReaderStep;
use topic_broker::session::Session;
use topic_broker::session::WriterStep;

fn active() -> Session {
    let mut session = Session::new();
    assert!(session.activate());
    session
}

#[test]
fn session_starts_connecting_and_activates_once() {
    let mut session = Session::new();
    assert_eq!(session, Session::Connecting);
    assert_eq!(session.phase(), Phase::Connecting);
    assert!(session.activate());
    assert_eq!(session.phase(), Phase::Active);
    assert!(!session.activate());
    assert_eq!(session.phase(), Phase::Active);
}

#[test]
fn connecting_session_runs_no_half() {
    let mut session = Session::new();
    assert_eq!(session.on_inbound(Inbound::Message), ReaderStep::Stop);
    assert_eq!(session.on_queued(Some("e".to_string())), WriterStep::Stop);
    assert_eq!(session.on_written(true), WriterStep::Stop);
    assert_eq!(session.on_inbound(Inbound::Ended), ReaderStep::Stop);
    assert_eq!(session.on_queued(None), WriterStep::Stop);
    assert_eq!(session.on_written(false), WriterStep::Stop);
    assert_eq!(session, Session::Connecting);
}

#[test]
fn inbound_messages_are_discarded() {
    let mut session = active();
    for _ in 0..5 {
        assert_eq!(session.on_inbound(Inbound::Message), ReaderStep::Discard);
        assert_eq!(session.phase(), Phase::Active);
    }
}

#[test]
fn queued_events_are_written_as_they_are() {
    let mut session = active();
    assert_eq!(session.on_queued(Some("fire".to_string())), WriterStep::Write("fire".to_string()));
    assert_eq!(session.on_written(true), WriterStep::Wait);
    assert_eq!(session.on_queued(Some(String::new())), WriterStep::Write(String::new()));
    assert_eq!(session.on_written(true), WriterStep::Wait);
    assert_eq!(session.phase(), Phase::Active);
}

#[test]
fn reader_end_leaves_writer_running() {
    let mut session = active();
    assert_eq!(session.on_inbound(Inbound::Ended), ReaderStep::Stop);
    assert_eq!(session, Session::ReaderEnded);
    assert_eq!(session.phase(), Phase::Closing);
    assert_eq!(session.on_queued(Some("e".to_string())), WriterStep::Write("e".to_string()));
    assert_eq!(session.on_written(true), WriterStep::Wait);
    assert_eq!(session.on_inbound(Inbound::Message), ReaderStep::Stop);
    assert_eq!(session.phase(), Phase::Closing);
    assert_eq!(session.on_queued(None), WriterStep::Stop);
    assert_eq!(session.phase(), Phase::Closed);
}

#[test]
fn reader_error_ends_the_reader() {
    let mut session = active();
    assert_eq!(session.on_inbound(Inbound::Failed), ReaderStep::Stop);
    assert_eq!(session, Session::ReaderEnded);
}

#[test]
fn failed_write_ends_the_writer_only() {
    let mut session = active();
    assert_eq!(session.on_queued(Some("e".to_string())), WriterStep::Write("e".to_string()));
    assert_eq!(session.on_written(false), WriterStep::Stop);
    assert_eq!(session, Session::WriterEnded);
    assert_eq!(session.phase(), Phase::Closing);
    assert_eq!(session.on_inbound(Inbound::Message), ReaderStep::Discard);
    assert_eq!(session.on_queued(Some("late".to_string())), WriterStep::Stop);
    assert_eq!(session.on_written(true), WriterStep::Stop);
    assert_eq!(session.on_inbound(Inbound::Ended), ReaderStep::Stop);
    assert_eq!(session.phase(), Phase::Closed);
}

#[test]
fn closed_session_stays_closed() {
    let mut session = active();
    session.on_queued(None);
    session.on_inbound(Inbound::Ended);
    assert_eq!(session, Session::Closed);
    assert!(!session.activate());
    assert_eq!(session.on_inbound(Inbound::Message), ReaderStep::Stop);
    assert_eq!(session.on_inbound(Inbound::Failed), ReaderStep::Stop);
    assert_eq!(session.on_queued(Some("e".to_string())), WriterStep::Stop);
    assert_eq!(session.on_queued(None), WriterStep::Stop);
    assert_eq!(session.on_written(true), WriterStep::Stop);
    assert_eq!(session.on_written(false), WriterStep::Stop);
    assert_eq!(session, Session::Closed);
}
