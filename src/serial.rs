use vstd::prelude::*;

use crate::message::{Message, MessageView, State};

verus! {

/// Whether a sign replies to a message: only to those that query its state or request an
/// operation.
pub open spec fn expects_reply(m: MessageView) -> bool {
    m is Hello || m is QueryState || m is RequestOperation
}

/// Whether a sign replies to a message, so that a transport must read a reply after sending it.
pub fn response_expected(message: &Message) -> (r: bool)
    ensures
        r == expects_reply(message@),
{
    match message {
        Message::Hello(_) | Message::QueryState(_) | Message::RequestOperation(_, _) => true,
        _ => false,
    }
}

/// Milliseconds a transport waits after sending data, so as not to overrun the sign.
pub const SEND_DATA_DELAY_MS: u64 = 30;

/// Milliseconds a transport waits after a sign reports a page load or show in progress.
pub const IN_PROGRESS_DELAY_MS: u64 = 100;

/// How long a transport pauses after sending a message: only after `SendData`.
pub fn delay_after_send(message: &Message) -> (r: Option<u64>)
    ensures
        r == (if message@ is SendData {
            Some(SEND_DATA_DELAY_MS)
        } else {
            None::<u64>
        }),
{
    match message {
        Message::SendData(_, _) => Some(SEND_DATA_DELAY_MS),
        _ => None,
    }
}

/// How long a transport pauses after receiving a reply: only when the sign reports that it
/// is loading or showing a page, to avoid polling it too fast.
pub fn delay_after_receive(message: &Message) -> (r: Option<u64>)
    ensures
        r == (match message@ {
            MessageView::ReportState(_, State::PageLoadInProgress) => Some(IN_PROGRESS_DELAY_MS),
            MessageView::ReportState(_, State::PageShowInProgress) => Some(IN_PROGRESS_DELAY_MS),
            _ => None::<u64>,
        }),
{
    match message {
        Message::ReportState(_, State::PageLoadInProgress) => Some(IN_PROGRESS_DELAY_MS),
        Message::ReportState(_, State::PageShowInProgress) => Some(IN_PROGRESS_DELAY_MS),
        _ => None,
    }
}

} // verus!
