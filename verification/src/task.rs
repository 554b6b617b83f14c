//! The decisions of the task that drives a multiplexor over a WebSocket.
//!
//! The task runs three loops side by side: one looks at dropped ids, one
//! sends what is queued, one receives. The first to end ends the task, and
//! the connection winds down. Reading, sending and waiting are the
//! caller's; what is here says what each result means.

use vstd::prelude::*;
use crate::frame::{FinalizedFrame, FrameError, OpCode, HEADER_LEN};
use crate::model::MuxError;
use crate::mux::{Dispatched, Message, MultiplexorInner};

verus! {

/// How the three loops stand: for each, how it ended, if it has.
#[derive(Clone, Copy, Debug, PartialEq, Eq)]
pub struct Polled {
    pub dropped_ports: Option<Result<(), MuxError>>,
    pub ws_next: Option<Result<(), MuxError>>,
    pub frame_recv: Option<Result<(), MuxError>>,
}

/// How the task ended, before winding down.
#[derive(Clone, Copy, Debug, PartialEq, Eq)]
pub struct Finished {
    /// What the loop that ended first ended with.
    pub result: Result<(), MuxError>,
    /// Whether the frames still queued are to be sent while winding down:
    /// only where the loop over the dropped ids ended, and in peace.
    pub should_drain: bool,
}

/// Which loop ended the task: the first that has ended, looking at the
/// dropped ids first, then at the receiver, then at the sender.
pub open spec fn first_finished(polled: Polled) -> Option<Finished> {
    match polled.dropped_ports {
        Some(result) => Some(Finished { result, should_drain: result is Ok }),
        None => match polled.ws_next {
            Some(result) => Some(Finished { result, should_drain: false }),
            None => match polled.frame_recv {
                Some(result) => Some(Finished { result, should_drain: false }),
                None => None,
            },
        },
    }
}

/// Looks whether one of the three loops has ended, and which one ends the
/// task: see [`first_finished`].
pub fn task(polled: Polled) -> (finished: Option<Finished>)
    ensures
        finished == first_finished(polled),
{
    match polled.dropped_ports {
        Some(result) => Some(Finished { result, should_drain: result.is_ok() }),
        None => match polled.ws_next {
            Some(result) => Some(Finished { result, should_drain: false }),
            None => match polled.frame_recv {
                Some(result) => Some(Finished { result, should_drain: false }),
                None => None,
            },
        },
    }
}

/// What the task returns: the failure of winding down where it failed, and
/// else what the loop that ended first ended with.
pub fn task_result(wind_down: Result<(), MuxError>, first: Result<(), MuxError>) -> (result:
    Result<(), MuxError>)
    ensures
        result == if wind_down is Err {
            wind_down
        } else {
            first
        },
{
    match wind_down {
        Err(e) => Err(e),
        Ok(()) => first,
    }
}

/// How a queued frame goes out.
#[derive(Clone, Copy, Debug, PartialEq, Eq, Structural)]
pub enum Transmit {
    /// It is the flush marker: flush, and send nothing.
    Flush,
    /// It is a `Push`: hand it to the sink without flushing.
    Feed,
    /// It is anything else: send it and flush.
    Send,
}

/// Decides how a queued frame goes out. Pushes are buffered, everything
/// else is flushed at once, and the empty marker forces a flush. A frame
/// without a known opcode cannot go out.
pub fn process_frame_recv_task(frame: &FinalizedFrame) -> (r: Result<Transmit, FrameError>)
    ensures
        r == if frame@.len() == 0 {
            Ok::<Transmit, FrameError>(Transmit::Flush)
        } else if frame@.len() < HEADER_LEN {
            Err(FrameError::TooShort)
        } else {
            match OpCode::of_wire(frame@[4]) {
                Some(OpCode::Push) => Ok(Transmit::Feed),
                Some(_) => Ok(Transmit::Send),
                None => Err(FrameError::UnknownOpcode(frame@[4])),
            }
        },
{
    if frame.is_empty() {
        return Ok(Transmit::Flush);
    }
    match frame.opcode() {
        Ok(OpCode::Push) => Ok(Transmit::Feed),
        Ok(_) => Ok(Transmit::Send),
        Err(e) => Err(e),
    }
}

/// What the WebSocket gave when it was asked for the next message.
#[derive(Clone, Debug, PartialEq, Eq)]
pub enum WsNext {
    /// A message.
    Message(Message),
    /// A failure of the transport.
    Failed,
    /// The end: the peer closed the connection.
    End,
}

/// What the receive loop does after it asked for the next message.
#[derive(Debug)]
pub enum WsStep {
    /// Carry on, after doing what the message asks for.
    Continue(Dispatched),
    /// End the loop with this result.
    Done(Result<(), MuxError>),
}

/// Processes what the WebSocket gave. A message is dispatched; the loop
/// ends in peace when the peer closes, by message or by ending the
/// connection, and with a failure when the transport fails or the
/// message breaks the protocol.
pub fn process_ws_next(mux: &mut MultiplexorInner, next: WsNext) -> (step: WsStep)
    requires
        old(mux).wf(),
        old(mux).has_room(),
    ensures
        final(mux).wf(),
        match next {
            WsNext::Failed => step matches WsStep::Done(Err(MuxError::WebSocket)) && final(mux)@
                == old(mux)@,
            WsNext::End => step matches WsStep::Done(Ok(())) && final(mux)@ == old(mux)@,
            WsNext::Message(Message::Binary(bytes)) => match crate::frame::parse_frame(bytes@) {
                Ok(frame) => step matches WsStep::Continue(d) && (final(mux)@, d@)
                    == old(mux)@.process_frame(frame),
                Err(e) => step matches WsStep::Done(Err(MuxError::Frame(f))) && f == e
                    && final(mux)@ == old(mux)@,
            },
            WsNext::Message(Message::Text) => step matches WsStep::Done(
                Err(MuxError::TextMessage),
            ) && final(mux)@ == old(mux)@,
            WsNext::Message(Message::Close) => step matches WsStep::Done(Ok(())) && final(mux)@
                == old(mux)@,
            WsNext::Message(_) => step matches WsStep::Continue(d) && d is Nothing && final(mux)@
                == old(mux)@,
        },
{
    match next {
        WsNext::Failed => WsStep::Done(Err(MuxError::WebSocket)),
        WsNext::End => WsStep::Done(Ok(())),
        WsNext::Message(message) => match mux.process_message(message) {
            Ok(processed) => {
                if processed.closing {
                    WsStep::Done(Ok(()))
                } else {
                    WsStep::Continue(processed.dispatched)
                }
            },
            Err(e) => WsStep::Done(Err(e)),
        },
    }
}

/// How handing something to the user over a bounded queue ended.
#[derive(Clone, Copy, Debug, PartialEq, Eq, Structural)]
pub enum Delivery {
    /// It was taken.
    Delivered,
    /// The queue is full.
    Full,
    /// Nobody is left to take it.
    Closed,
}

/// What a datagram's delivery means for the task: a datagram that finds
/// the queue full is dropped, and one that finds nobody ends the task,
/// because the multiplexor is gone.
pub fn after_datagram(delivery: Delivery) -> (r: Result<(), MuxError>)
    ensures
        r == if delivery is Closed {
            Err::<(), MuxError>(MuxError::Closed)
        } else {
            Ok(())
        },
{
    match delivery {
        Delivery::Closed => Err(MuxError::Closed),
        _ => Ok(()),
    }
}

/// What the delivery of an accepted stream means for the task: it ends
/// the task when nobody is left to take the stream.
pub fn after_accept(delivered: bool) -> (r: Result<(), MuxError>)
    ensures
        r == if delivered {
            Ok::<(), MuxError>(())
        } else {
            Err(MuxError::SendStreamToClient)
        },
{
    if delivered {
        Ok(())
    } else {
        Err(MuxError::SendStreamToClient)
    }
}

/// How a request for a stream was answered.
#[derive(Clone, Copy, Debug, PartialEq, Eq, Structural)]
pub enum OpenReply {
    /// The peer accepted: the stream is there.
    Opened,
    /// The peer reset the request: the flow id was taken on its side.
    Reset,
    /// The answer will never come: the multiplexor is gone.
    Gone,
}

/// What the one who asked for a stream does with the answer.
#[derive(Clone, Copy, Debug, PartialEq, Eq, Structural)]
pub enum OpenNext {
    /// Hand the stream to the user.
    Deliver,
    /// Ask again, under a flow id drawn anew.
    Retry,
    /// Give up: the multiplexor is closed.
    Fail(MuxError),
}

/// What the one who asked for a stream does with the answer: a request
/// that was reset is made again under another flow id, and one that will
/// never be answered fails as closed.
pub fn after_open_reply(reply: OpenReply) -> (next: OpenNext)
    ensures
        next == match reply {
            OpenReply::Opened => OpenNext::Deliver,
            OpenReply::Reset => OpenNext::Retry,
            OpenReply::Gone => OpenNext::Fail(MuxError::Closed),
        },
{
    match reply {
        OpenReply::Opened => OpenNext::Deliver,
        OpenReply::Reset => OpenNext::Retry,
        OpenReply::Gone => OpenNext::Fail(MuxError::Closed),
    }
}

/// How flushing the sink ended.
#[derive(Clone, Copy, Debug, PartialEq, Eq, Structural)]
pub enum Flushed {
    /// Everything went out.
    Done,
    /// The connection is closed.
    Closed,
    /// The transport failed in another way.
    Failed,
}

/// What a flush comes to for someone who does not mind a closed
/// connection: only a failure of another kind is one.
pub fn flush_ignore_closed(flushed: Flushed) -> (r: Result<(), MuxError>)
    ensures
        r == if flushed is Failed {
            Err::<(), MuxError>(MuxError::WebSocket)
        } else {
            Ok(())
        },
{
    match flushed {
        Flushed::Failed => Err(MuxError::WebSocket),
        _ => Ok(()),
    }
}

/// How much the program says.
#[derive(Clone, Copy, Debug, PartialEq, Eq, Structural)]
pub enum LogLevel {
    Error,
    Warn,
    Info,
    Debug,
    Trace,
}

/// The log level for so many `verbose` and `quiet` flags. Without flags
/// it is `Info`; one `verbose` gives `Debug`, more give `Trace`; one
/// `quiet` gives `Warn`, more give `Error`; and `quiet` wins over
/// `verbose`.
pub fn log_level(verbose: u8, quiet: u8) -> (level: LogLevel)
    ensures
        level == if quiet >= 2 {
            LogLevel::Error
        } else if quiet == 1 {
            LogLevel::Warn
        } else if verbose >= 2 {
            LogLevel::Trace
        } else if verbose == 1 {
            LogLevel::Debug
        } else {
            LogLevel::Info
        },
{
    let mut level = LogLevel::Info;
    if verbose == 1 {
        level = LogLevel::Debug;
    } else if verbose >= 2 {
        level = LogLevel::Trace;
    }
    if quiet == 1 {
        level = LogLevel::Warn;
    } else if quiet >= 2 {
        level = LogLevel::Error;
    }
    level
}

} // verus!
