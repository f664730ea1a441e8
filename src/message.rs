use vstd::prelude::*;

use crate::frame::{Address, Data, Frame, FrameView, MsgType};

verus! {

/// The memory offset of a chunk of data sent with [`Message::SendData`].
#[derive(Debug, Copy, Clone, PartialEq, Eq, Hash, Structural)]
pub struct Offset(pub u16);

/// The number of chunks sent in `SendData` messages, reported by [`Message::DataChunksSent`].
#[derive(Debug, Copy, Clone, PartialEq, Eq, Hash, Structural)]
pub struct ChunkCount(pub u16);

/// Possible states that a sign can be in during operation.
#[derive(Debug, Copy, Clone, PartialEq, Eq, Hash, Structural)]
pub enum State {
    /// The initial state upon power on or after a reset.
    Unconfigured,
    /// Waiting for the 16-byte configuration data.
    ConfigInProgress,
    /// The configuration data was received.
    ConfigReceived,
    /// Reading the configuration data failed.
    ConfigFailed,
    /// Waiting for pixel data.
    PixelsInProgress,
    /// Pixel data was received.
    PixelsReceived,
    /// Reading the pixel data failed.
    PixelsFailed,
    /// A page is loaded and ready to be shown.
    PageLoaded,
    /// A page is being loaded.
    PageLoadInProgress,
    /// The loaded page is shown.
    PageShown,
    /// The loaded page is being shown.
    PageShowInProgress,
    /// Ready to reset back to `Unconfigured`.
    ReadyToReset,
    /// The sign flips its pages itself.
    ShowingPages,
}

/// Operations that a controller can request of a sign.
#[derive(Debug, Copy, Clone, PartialEq, Eq, Hash, Structural)]
pub enum Operation {
    /// Receive the 16-byte configuration data.
    ReceiveConfig,
    /// Receive one or more pages of pixel data.
    ReceivePixels,
    /// Show the page that is loaded.
    ShowLoadedPage,
    /// Load the next stored page.
    LoadNextPage,
    /// Begin resetting back to `Unconfigured`.
    StartReset,
    /// Finish resetting back to `Unconfigured`.
    FinishReset,
}

/// A protocol message: the meaning of a [`Frame`].
#[derive(Debug, PartialEq, Eq, Hash)]
pub enum Message {
    /// A chunk of data at an offset; no reply expected.
    SendData(Offset, Data),
    /// Done sending data, with the number of chunks sent; no reply expected.
    DataChunksSent(ChunkCount),
    /// Discovers the sign with the given address; a `ReportState` reply is expected.
    Hello(Address),
    /// Queries the sign's state; a `ReportState` reply is expected.
    QueryState(Address),
    /// The state of the sign with the given address.
    ReportState(Address, State),
    /// Requests an operation; an `AckOperation` reply is expected.
    RequestOperation(Address, Operation),
    /// The sign acknowledges an operation.
    AckOperation(Address, Operation),
    /// The pixel data has been fully transferred; no reply expected.
    PixelsComplete(Address),
    /// The sign should blank its display and shut down; no reply expected.
    Goodbye(Address),
    /// A frame that corresponds to no known message.
    Unknown(Frame),
}

/// The abstract content of a [`Message`].
pub enum MessageView {
    SendData(u16, Seq<u8>),
    DataChunksSent(u16),
    Hello(u16),
    QueryState(u16),
    ReportState(u16, State),
    RequestOperation(u16, Operation),
    AckOperation(u16, Operation),
    PixelsComplete(u16),
    Goodbye(u16),
    Unknown(FrameView),
}

impl View for Message {
    type V = MessageView;

    open spec fn view(&self) -> MessageView {
        match self {
            Message::SendData(o, d) => MessageView::SendData(o.0, d@),
            Message::DataChunksSent(c) => MessageView::DataChunksSent(c.0),
            Message::Hello(a) => MessageView::Hello(a.0),
            Message::QueryState(a) => MessageView::QueryState(a.0),
            Message::ReportState(a, s) => MessageView::ReportState(a.0, *s),
            Message::RequestOperation(a, op) => MessageView::RequestOperation(a.0, *op),
            Message::AckOperation(a, op) => MessageView::AckOperation(a.0, *op),
            Message::PixelsComplete(a) => MessageView::PixelsComplete(a.0),
            Message::Goodbye(a) => MessageView::Goodbye(a.0),
            Message::Unknown(f) => MessageView::Unknown(f@),
        }
    }
}

impl Clone for Message {
    fn clone(&self) -> (r: Message)
        ensures
            r@ == self@,
    {
        match self {
            Message::SendData(o, d) => Message::SendData(*o, d.clone()),
            Message::DataChunksSent(c) => Message::DataChunksSent(*c),
            Message::Hello(a) => Message::Hello(*a),
            Message::QueryState(a) => Message::QueryState(*a),
            Message::ReportState(a, s) => Message::ReportState(*a, *s),
            Message::RequestOperation(a, op) => Message::RequestOperation(*a, *op),
            Message::AckOperation(a, op) => Message::AckOperation(*a, *op),
            Message::PixelsComplete(a) => Message::PixelsComplete(*a),
            Message::Goodbye(a) => Message::Goodbye(*a),
            Message::Unknown(f) => Message::Unknown(f.clone()),
        }
    }
}

/// The byte that reports a state (message type 4).
///
/// `ShowingPages` has no byte documented for real signs; this library uses `0x1F` for it,
/// on both the encoding and the decoding side.
pub open spec fn state_byte(s: State) -> u8 {
    match s {
        State::Unconfigured => 0x0F,
        State::ConfigInProgress => 0x0D,
        State::ConfigReceived => 0x07,
        State::ConfigFailed => 0x0C,
        State::PixelsInProgress => 0x03,
        State::PixelsReceived => 0x01,
        State::PixelsFailed => 0x0B,
        State::PageLoaded => 0x10,
        State::PageLoadInProgress => 0x13,
        State::PageShown => 0x12,
        State::PageShowInProgress => 0x11,
        State::ReadyToReset => 0x08,
        State::ShowingPages => 0x1F,
    }
}

/// The state that a byte reports, if any.
pub open spec fn state_of_byte(b: u8) -> Option<State> {
    if b == 0x0F {
        Some(State::Unconfigured)
    } else if b == 0x0D {
        Some(State::ConfigInProgress)
    } else if b == 0x07 {
        Some(State::ConfigReceived)
    } else if b == 0x0C {
        Some(State::ConfigFailed)
    } else if b == 0x03 {
        Some(State::PixelsInProgress)
    } else if b == 0x01 {
        Some(State::PixelsReceived)
    } else if b == 0x0B {
        Some(State::PixelsFailed)
    } else if b == 0x10 {
        Some(State::PageLoaded)
    } else if b == 0x13 {
        Some(State::PageLoadInProgress)
    } else if b == 0x12 {
        Some(State::PageShown)
    } else if b == 0x11 {
        Some(State::PageShowInProgress)
    } else if b == 0x08 {
        Some(State::ReadyToReset)
    } else if b == 0x1F {
        Some(State::ShowingPages)
    } else {
        None
    }
}

/// The byte that requests an operation (message type 3).
pub open spec fn request_byte(op: Operation) -> u8 {
    match op {
        Operation::ReceiveConfig => 0xA1,
        Operation::ReceivePixels => 0xA2,
        Operation::ShowLoadedPage => 0xA9,
        Operation::LoadNextPage => 0xAA,
        Operation::StartReset => 0xA6,
        Operation::FinishReset => 0xA7,
    }
}

/// The operation that a request byte names, if any.
pub open spec fn request_of_byte(b: u8) -> Option<Operation> {
    if b == 0xA1 {
        Some(Operation::ReceiveConfig)
    } else if b == 0xA2 {
        Some(Operation::ReceivePixels)
    } else if b == 0xA9 {
        Some(Operation::ShowLoadedPage)
    } else if b == 0xAA {
        Some(Operation::LoadNextPage)
    } else if b == 0xA6 {
        Some(Operation::StartReset)
    } else if b == 0xA7 {
        Some(Operation::FinishReset)
    } else {
        None
    }
}

/// The byte that acknowledges an operation (message type 5).
pub open spec fn ack_byte(op: Operation) -> u8 {
    match op {
        Operation::ReceiveConfig => 0x95,
        Operation::ReceivePixels => 0x91,
        Operation::ShowLoadedPage => 0x96,
        Operation::LoadNextPage => 0x97,
        Operation::StartReset => 0x93,
        Operation::FinishReset => 0x94,
    }
}

/// The operation that an acknowledgement byte names, if any.
pub open spec fn ack_of_byte(b: u8) -> Option<Operation> {
    if b == 0x95 {
        Some(Operation::ReceiveConfig)
    } else if b == 0x91 {
        Some(Operation::ReceivePixels)
    } else if b == 0x96 {
        Some(Operation::ShowLoadedPage)
    } else if b == 0x97 {
        Some(Operation::LoadNextPage)
    } else if b == 0x93 {
        Some(Operation::StartReset)
    } else if b == 0x94 {
        Some(Operation::FinishReset)
    } else {
        None
    }
}

/// The message that a frame represents, dispatched on data length, message type and first
/// data byte.
pub open spec fn message_of_frame(f: FrameView) -> MessageView {
    let (a, t, d) = f;
    if d.len() == 0 {
        if t == 1 {
            MessageView::DataChunksSent(a)
        } else {
            MessageView::Unknown(f)
        }
    } else if d.len() == 1 {
        let b = d[0];
        if t == 2 && b == 0xFF {
            MessageView::Hello(a)
        } else if t == 2 && b == 0x00 {
            MessageView::QueryState(a)
        } else if t == 2 && b == 0x55 {
            MessageView::Goodbye(a)
        } else if t == 4 && state_of_byte(b) is Some {
            MessageView::ReportState(a, state_of_byte(b)->Some_0)
        } else if t == 3 && request_of_byte(b) is Some {
            MessageView::RequestOperation(a, request_of_byte(b)->Some_0)
        } else if t == 5 && ack_of_byte(b) is Some {
            MessageView::AckOperation(a, ack_of_byte(b)->Some_0)
        } else if t == 6 && b == 0x00 {
            MessageView::PixelsComplete(a)
        } else {
            MessageView::Unknown(f)
        }
    } else {
        if t == 0 {
            MessageView::SendData(a, d)
        } else {
            MessageView::Unknown(f)
        }
    }
}

/// The frame that carries a message.
pub open spec fn frame_of_message(m: MessageView) -> FrameView {
    match m {
        MessageView::SendData(o, d) => (o, 0u8, d),
        MessageView::DataChunksSent(c) => (c, 1u8, Seq::empty()),
        MessageView::Hello(a) => (a, 2u8, seq![0xFFu8]),
        MessageView::QueryState(a) => (a, 2u8, seq![0x00u8]),
        MessageView::Goodbye(a) => (a, 2u8, seq![0x55u8]),
        MessageView::ReportState(a, s) => (a, 4u8, seq![state_byte(s)]),
        MessageView::RequestOperation(a, op) => (a, 3u8, seq![request_byte(op)]),
        MessageView::AckOperation(a, op) => (a, 5u8, seq![ack_byte(op)]),
        MessageView::PixelsComplete(a) => (a, 6u8, seq![0x00u8]),
        MessageView::Unknown(f) => f,
    }
}

/// Converting any frame to a message and back gives the same frame.
pub proof fn lemma_frame_message_round_trip(f: FrameView)
    ensures
        frame_of_message(message_of_frame(f)) == f,
{
    let (a, t, d) = f;
    if d.len() == 0 {
        assert(d =~= Seq::<u8>::empty());
    } else if d.len() == 1 {
        assert(d =~= seq![d[0]]);
    }
}

fn state_to_byte(s: State) -> (r: u8)
    ensures
        r == state_byte(s),
{
    match s {
        State::Unconfigured => 0x0F,
        State::ConfigInProgress => 0x0D,
        State::ConfigReceived => 0x07,
        State::ConfigFailed => 0x0C,
        State::PixelsInProgress => 0x03,
        State::PixelsReceived => 0x01,
        State::PixelsFailed => 0x0B,
        State::PageLoaded => 0x10,
        State::PageLoadInProgress => 0x13,
        State::PageShown => 0x12,
        State::PageShowInProgress => 0x11,
        State::ReadyToReset => 0x08,
        State::ShowingPages => 0x1F,
    }
}

fn byte_to_state(b: u8) -> (r: Option<State>)
    ensures
        r == state_of_byte(b),
{
    match b {
        0x0F => Some(State::Unconfigured),
        0x0D => Some(State::ConfigInProgress),
        0x07 => Some(State::ConfigReceived),
        0x0C => Some(State::ConfigFailed),
        0x03 => Some(State::PixelsInProgress),
        0x01 => Some(State::PixelsReceived),
        0x0B => Some(State::PixelsFailed),
        0x10 => Some(State::PageLoaded),
        0x13 => Some(State::PageLoadInProgress),
        0x12 => Some(State::PageShown),
        0x11 => Some(State::PageShowInProgress),
        0x08 => Some(State::ReadyToReset),
        0x1F => Some(State::ShowingPages),
        _ => None,
    }
}

fn request_to_byte(op: Operation) -> (r: u8)
    ensures
        r == request_byte(op),
{
    match op {
        Operation::ReceiveConfig => 0xA1,
        Operation::ReceivePixels => 0xA2,
        Operation::ShowLoadedPage => 0xA9,
        Operation::LoadNextPage => 0xAA,
        Operation::StartReset => 0xA6,
        Operation::FinishReset => 0xA7,
    }
}

fn byte_to_request(b: u8) -> (r: Option<Operation>)
    ensures
        r == request_of_byte(b),
{
    match b {
        0xA1 => Some(Operation::ReceiveConfig),
        0xA2 => Some(Operation::ReceivePixels),
        0xA9 => Some(Operation::ShowLoadedPage),
        0xAA => Some(Operation::LoadNextPage),
        0xA6 => Some(Operation::StartReset),
        0xA7 => Some(Operation::FinishReset),
        _ => None,
    }
}

fn ack_to_byte(op: Operation) -> (r: u8)
    ensures
        r == ack_byte(op),
{
    match op {
        Operation::ReceiveConfig => 0x95,
        Operation::ReceivePixels => 0x91,
        Operation::ShowLoadedPage => 0x96,
        Operation::LoadNextPage => 0x97,
        Operation::StartReset => 0x93,
        Operation::FinishReset => 0x94,
    }
}

fn byte_to_ack(b: u8) -> (r: Option<Operation>)
    ensures
        r == ack_of_byte(b),
{
    match b {
        0x95 => Some(Operation::ReceiveConfig),
        0x91 => Some(Operation::ReceivePixels),
        0x96 => Some(Operation::ShowLoadedPage),
        0x97 => Some(Operation::LoadNextPage),
        0x93 => Some(Operation::StartReset),
        0x94 => Some(Operation::FinishReset),
        _ => None,
    }
}

/// A frame with one data byte.
fn single_byte_frame(address: Address, msg_type: u8, byte: u8) -> (r: Frame)
    ensures
        r@ == (address.0, msg_type, seq![byte]),
{
    let mut v: Vec<u8> = Vec::new();
    v.push(byte);
    proof {
        assert(v@ =~= seq![byte]);
    }
    Frame::new(address, MsgType(msg_type), Data::from_vec(v))
}

impl Message {
    /// Interprets a frame as a message; frames that match no known message become `Unknown`.
    pub fn from_frame(frame: Frame) -> (r: Message)
        ensures
            r@ == message_of_frame(frame@),
    {
        let len = frame.data().len();
        let t = frame.message_type().0;
        let a = frame.address();
        if len == 0 {
            if t == 1 {
                Message::DataChunksSent(ChunkCount(a.0))
            } else {
                Message::Unknown(frame)
            }
        } else if len == 1 {
            let b = frame.data()[0];
            if t == 2 && b == 0xFF {
                Message::Hello(a)
            } else if t == 2 && b == 0x00 {
                Message::QueryState(a)
            } else if t == 2 && b == 0x55 {
                Message::Goodbye(a)
            } else if t == 4 && byte_to_state(b).is_some() {
                match byte_to_state(b) {
                    Some(s) => Message::ReportState(a, s),
                    None => Message::Unknown(frame),
                }
            } else if t == 3 && byte_to_request(b).is_some() {
                match byte_to_request(b) {
                    Some(op) => Message::RequestOperation(a, op),
                    None => Message::Unknown(frame),
                }
            } else if t == 5 && byte_to_ack(b).is_some() {
                match byte_to_ack(b) {
                    Some(op) => Message::AckOperation(a, op),
                    None => Message::Unknown(frame),
                }
            } else if t == 6 && b == 0x00 {
                Message::PixelsComplete(a)
            } else {
                Message::Unknown(frame)
            }
        } else if t == 0 {
            Message::SendData(Offset(a.0), frame.into_data())
        } else {
            Message::Unknown(frame)
        }
    }

    /// Converts the message into the frame that carries it.
    pub fn into_frame(self) -> (r: Frame)
        ensures
            r@ == frame_of_message(self@),
    {
        match self {
            Message::SendData(offset, data) => Frame::new(Address(offset.0), MsgType(0), data),
            Message::DataChunksSent(chunks) => {
                let v: Vec<u8> = Vec::new();
                Frame::new(Address(chunks.0), MsgType(1), Data::from_vec(v))
            },
            Message::Hello(a) => single_byte_frame(a, 2, 0xFF),
            Message::QueryState(a) => single_byte_frame(a, 2, 0x00),
            Message::Goodbye(a) => single_byte_frame(a, 2, 0x55),
            Message::ReportState(a, s) => single_byte_frame(a, 4, state_to_byte(s)),
            Message::RequestOperation(a, op) => single_byte_frame(a, 3, request_to_byte(op)),
            Message::AckOperation(a, op) => single_byte_frame(a, 5, ack_to_byte(op)),
            Message::PixelsComplete(a) => single_byte_frame(a, 6, 0x00),
            Message::Unknown(frame) => frame,
        }
    }
}

} // verus!
