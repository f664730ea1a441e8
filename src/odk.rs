use vstd::prelude::*;

use crate::frame::{encode_frame, crlf, parse_frame, Frame, FrameError};
use crate::message::{frame_of_message, message_of_frame, Message, MessageView};
use crate::sign_bus::{BusError, SignBus};

verus! {

/// The kind of error raised while standing in for signs in front of a real controller.
#[derive(Debug, Copy, Clone, PartialEq, Eq, Structural)]
#[non_exhaustive]
pub enum ErrorKind {
    /// Failed to configure the serial port.
    Configuration,
    /// The sign bus failed to process a message.
    Bus,
    /// Failed reading or writing data.
    Communication,
}

/// Errors while answering a real controller on behalf of the signs on a bus.
#[derive(Debug, Clone, PartialEq, Eq)]
#[non_exhaustive]
pub enum OdkError {
    /// The sign bus failed to process a message.
    Bus { source: BusError },
    /// A frame could not be read or written.
    Communication { source: FrameError },
}

impl OdkError {
    /// The kind of this error.
    pub fn kind(&self) -> (r: ErrorKind)
        ensures
            r == match self {
                OdkError::Bus { .. } => ErrorKind::Bus,
                OdkError::Communication { .. } => ErrorKind::Communication,
            },
    {
        match self {
            OdkError::Bus { .. } => ErrorKind::Bus,
            OdkError::Communication { .. } => ErrorKind::Communication,
        }
    }
}

/// Decodes a line received from a controller into a message.
pub fn decode_request(bytes: &[u8]) -> (r: Result<Message, FrameError>)
    ensures
        (r is Ok) <==> parse_frame(bytes@) is Some,
        r matches Ok(m) ==> m@ == message_of_frame(parse_frame(bytes@)->Some_0),
{
    let frame = Frame::from_bytes(bytes)?;
    Ok(Message::from_frame(frame))
}

/// Encodes a reply, if there is one, as a line to send back to the controller.
pub fn encode_reply(reply: Option<Message>) -> (r: Option<Vec<u8>>)
    ensures
        match reply {
            Some(m) => r matches Some(out) && out@ == encode_frame(frame_of_message(m@)) + crlf(),
            None => r is None,
        },
{
    match reply {
        Some(m) => Some(m.into_frame().to_bytes_with_newline()),
        None => None,
    }
}

/// Answers one line from a controller: decodes it, hands the message to the bus, and encodes
/// the reply, if any. A line that is not a valid frame is a `Communication` error; the bus's
/// own failures are `Bus` errors.
pub fn respond_to_frame<B: SignBus>(bus: &mut B, bytes: &[u8]) -> (r: Result<
    Option<Vec<u8>>,
    OdkError,
>)
    ensures
        parse_frame(bytes@) is None ==> r matches Err(OdkError::Communication { .. }),
        r matches Err(OdkError::Communication { .. }) ==> parse_frame(bytes@) is None,
        r matches Ok(Some(out)) ==> exists|m: MessageView|
            out@ == encode_frame(#[trigger] frame_of_message(m)) + crlf(),
{
    let message = match decode_request(bytes) {
        Ok(m) => m,
        Err(e) => {
            return Err(OdkError::Communication { source: e });
        },
    };
    match bus.process_message(message) {
        Ok(reply) => Ok(encode_reply(reply)),
        Err(e) => Err(OdkError::Bus { source: e }),
    }
}

} // verus!
