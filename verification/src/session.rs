//! The life of one subscriber connection.
//!
//! A session has two halves that run side by side: a reader that takes what
//! the subscriber sends and discards it, and a writer that takes events off
//! the subscriber's channel and writes each to the connection as a text
//! frame. The session decides; whoever owns the connection does the waiting,
//! reading and writing, and tells the session what it saw.

use vstd::prelude::*;

verus! {

/// Where a session stands, as seen from outside.
#[derive(Clone, Copy, Debug, PartialEq, Eq, Structural)]
pub enum Phase {
    /// The connection is not registered yet; no half runs.
    Connecting,
    /// Registered; both halves run.
    Active,
    /// One half has ended, the other still runs.
    Closing,
    /// Both halves have ended.
    Closed,
}

/// The state of a session. The two closing states tell which half is left.
#[derive(Clone, Copy, Debug, PartialEq, Eq, Structural)]
pub enum Session {
    Connecting,
    Active,
    /// The reader has ended; the writer still runs.
    ReaderEnded,
    /// The writer has ended; the reader still runs.
    WriterEnded,
    Closed,
}

/// What the reader found on the inbound side of the connection.
#[derive(Clone, Copy, Debug, PartialEq, Eq, Structural)]
pub enum Inbound {
    /// A message from the subscriber, of any kind.
    Message,
    /// The stream reported an error.
    Failed,
    /// The stream is at its end.
    Ended,
}

/// What the reader does next.
#[derive(Clone, Copy, Debug, PartialEq, Eq, Structural)]
pub enum ReaderStep {
    /// Drop the message and read on.
    Discard,
    /// Stop reading for good.
    Stop,
}

/// What the writer does next.
#[derive(Debug, PartialEq, Eq)]
pub enum WriterStep {
    /// Write this event to the connection as one text frame, then report how
    /// the write went.
    Write(String),
    /// Wait for the next event on the channel.
    Wait,
    /// Stop writing for good.
    Stop,
}

impl Session {
    /// The phase that this state belongs to.
    pub open spec fn phase_of(self) -> Phase {
        match self {
            Session::Connecting => Phase::Connecting,
            Session::Active => Phase::Active,
            Session::ReaderEnded => Phase::Closing,
            Session::WriterEnded => Phase::Closing,
            Session::Closed => Phase::Closed,
        }
    }

    /// The reader runs from registration until it ends.
    pub open spec fn reader_runs(self) -> bool {
        self == Session::Active || self == Session::WriterEnded
    }

    /// The writer runs from registration until it ends.
    pub open spec fn writer_runs(self) -> bool {
        self == Session::Active || self == Session::ReaderEnded
    }

    /// The state once the reader has ended. The writer is left as it is.
    pub open spec fn without_reader(self) -> Session {
        match self {
            Session::Active => Session::ReaderEnded,
            Session::WriterEnded => Session::Closed,
            other => other,
        }
    }

    /// The state once the writer has ended. The reader is left as it is.
    pub open spec fn without_writer(self) -> Session {
        match self {
            Session::Active => Session::WriterEnded,
            Session::ReaderEnded => Session::Closed,
            other => other,
        }
    }

    /// A session for a connection that is not registered yet.
    pub fn new() -> (session: Session)
        ensures
            session == Session::Connecting,
    {
        Session::Connecting
    }

    /// The session's phase.
    pub fn phase(&self) -> (phase: Phase)
        ensures
            phase == self.phase_of(),
    {
        match self {
            Session::Connecting => Phase::Connecting,
            Session::Active => Phase::Active,
            Session::ReaderEnded => Phase::Closing,
            Session::WriterEnded => Phase::Closing,
            Session::Closed => Phase::Closed,
        }
    }

    /// Marks the connection as registered: a connecting session becomes
    /// active and both halves may start. Any other session stays as it is.
    /// Returns whether the session became active by this call.
    pub fn activate(&mut self) -> (started: bool)
        ensures
            started == (*old(self) == Session::Connecting),
            *final(self) == if started {
                Session::Active
            } else {
                *old(self)
            },
    {
        match self {
            Session::Connecting => {
                *self = Session::Active;
                true
            },
            _ => false,
        }
    }

    /// The reader reports what it found. A message is discarded and the
    /// session stays as it is; an error or the end of the stream ends the
    /// reader, and only the reader. A reader that does not run is told to
    /// stop.
    pub fn on_inbound(&mut self, seen: Inbound) -> (step: ReaderStep)
        ensures
            step == if old(self).reader_runs() && seen == Inbound::Message {
                ReaderStep::Discard
            } else {
                ReaderStep::Stop
            },
            *final(self) == if seen == Inbound::Message {
                *old(self)
            } else {
                old(self).without_reader()
            },
    {
        match seen {
            Inbound::Message => match self {
                Session::Active => ReaderStep::Discard,
                Session::WriterEnded => ReaderStep::Discard,
                _ => ReaderStep::Stop,
            },
            _ => {
                self.end_reader();
                ReaderStep::Stop
            },
        }
    }

    /// The writer reports what the channel gave it. An event is to be
    /// written as it is; a closed channel ends the writer, and only the
    /// writer. A writer that does not run is told to stop, and the event, if
    /// any, is dropped.
    pub fn on_queued(&mut self, next: Option<String>) -> (step: WriterStep)
        ensures
            step == match next {
                Some(event) => if old(self).writer_runs() {
                    WriterStep::Write(event)
                } else {
                    WriterStep::Stop
                },
                None => WriterStep::Stop,
            },
            *final(self) == if next is Some {
                *old(self)
            } else {
                old(self).without_writer()
            },
    {
        match next {
            Some(event) => match self {
                Session::Active => WriterStep::Write(event),
                Session::ReaderEnded => WriterStep::Write(event),
                _ => WriterStep::Stop,
            },
            None => {
                self.end_writer();
                WriterStep::Stop
            },
        }
    }

    /// The writer reports how a write went. After a good write it waits for
    /// the next event; a failed write ends the writer, and only the writer. A
    /// writer that does not run is told to stop.
    pub fn on_written(&mut self, done: bool) -> (step: WriterStep)
        ensures
            step == if done && old(self).writer_runs() {
                WriterStep::Wait
            } else {
                WriterStep::Stop
            },
            *final(self) == if done {
                *old(self)
            } else {
                old(self).without_writer()
            },
    {
        if done {
            match self {
                Session::Active => WriterStep::Wait,
                Session::ReaderEnded => WriterStep::Wait,
                _ => WriterStep::Stop,
            }
        } else {
            self.end_writer();
            WriterStep::Stop
        }
    }

    fn end_reader(&mut self)
        ensures
            *final(self) == old(self).without_reader(),
    {
        match self {
            Session::Active => {
                *self = Session::ReaderEnded;
            },
            Session::WriterEnded => {
                *self = Session::Closed;
            },
            _ => {},
        }
    }

    fn end_writer(&mut self)
        ensures
            *final(self) == old(self).without_writer(),
    {
        match self {
            Session::Active => {
                *self = Session::WriterEnded;
            },
            Session::ReaderEnded => {
                *self = Session::Closed;
            },
            _ => {},
        }
    }
}

/// The place of a phase in the order in which a session passes through them.
pub open spec fn rank(phase: Phase) -> nat {
    match phase {
        Phase::Connecting => 0,
        Phase::Active => 1,
        Phase::Closing => 2,
        Phase::Closed => 3,
    }
}

/// `next` is what some single report makes of `state`.
pub open spec fn steps_to(state: Session, next: Session) -> bool {
    ||| next == state
    ||| state == Session::Connecting && next == Session::Active
    ||| next == state.without_reader()
    ||| next == state.without_writer()
}

/// A session never goes back: no report takes it to an earlier phase, and
/// none moves it by more than one phase.
pub proof fn lemma_phase_advances(state: Session, next: Session)
    requires
        steps_to(state, next),
    ensures
        rank(state.phase_of()) <= rank(next.phase_of()) <= rank(state.phase_of()) + 1,
{
}

/// A half that has ended stays ended, and the end of one half does not end
/// the other.
pub proof fn lemma_halves_are_independent(state: Session)
    ensures
        state.without_reader().writer_runs() == state.writer_runs(),
        state.without_writer().reader_runs() == state.reader_runs(),
        !state.without_reader().reader_runs(),
        !state.without_writer().writer_runs(),
        !state.reader_runs() ==> state.without_reader() == state,
        !state.writer_runs() ==> state.without_writer() == state,
{
}

/// The phases say which halves run: both in an active session, exactly one
/// in a closing one, none before registration and none once closed.
pub proof fn lemma_phase_counts_halves(state: Session)
    ensures
        state.phase_of() == Phase::Active <==> state.reader_runs() && state.writer_runs(),
        state.phase_of() == Phase::Closing <==> state.reader_runs() != state.writer_runs(),
        state.phase_of() == Phase::Connecting || state.phase_of() == Phase::Closed
            <==> !state.reader_runs() && !state.writer_runs(),
        state.without_reader().without_writer().phase_of() == if state == Session::Connecting {
            Phase::Connecting
        } else {
            Phase::Closed
        },
{
}

} // verus!
