use vstd::prelude::*;

use crate::frame::{bytes_equal, Address, Data, Frame};
use crate::message::{ChunkCount, Message, MessageView, Offset, Operation, State};
use crate::page::{blank_page_bytes, total_len, Page, PageFlipStyle, PageId};
use crate::sign_bus::{BusError, SignBus};
use crate::sign_type::{config_bytes, sign_dimensions, SignType};
use crate::text::{chars_of, describe_page_states, describe_reply, reply_text};
use crate::virtual_sign_bus::reply_view;

verus! {

/// Errors related to [`Sign`]s.
#[derive(Debug, Clone, PartialEq, Eq)]
#[non_exhaustive]
pub enum SignError {
    /// The bus failed to process a message.
    Bus { source: BusError },
    /// The sign did not respond as the protocol requires; both replies are rendered as text.
    UnexpectedResponse { expected: String, actual: String },
}

/// The kind of a [`SignError`].
#[derive(Debug, Copy, Clone, PartialEq, Eq, Structural)]
pub enum ErrorKind {
    /// The bus failed to process a message.
    Bus,
    /// The sign did not respond as the protocol requires.
    UnexpectedResponse,
}

impl SignError {
    /// The kind of this error.
    pub fn kind(&self) -> (r: ErrorKind)
        ensures
            (r == ErrorKind::Bus) <==> (self is Bus),
    {
        match self {
            SignError::Bus { .. } => ErrorKind::Bus,
            SignError::UnexpectedResponse { .. } => ErrorKind::UnexpectedResponse,
        }
    }
}

/// How many times data is sent before the controller gives up on a sign that reports failure.
pub const MAX_ATTEMPTS: u32 = 3;

/// Number of 16-byte chunks (the last one possibly shorter) needed for `n` bytes.
pub open spec fn chunk_count(n: nat) -> nat {
    (n + 15) / 16
}

/// The `SendData` message for chunk `i` of an item: offset `16 * i` (as a 16-bit value) and
/// up to 16 bytes from there.
pub open spec fn chunk_at(item: Seq<u8>, i: int) -> MessageView {
    let start = 16 * i;
    let end = if start + 16 <= item.len() {
        start + 16
    } else {
        item.len() as int
    };
    MessageView::SendData(((16 * i) % 65536) as u16, item.subrange(start, end))
}

/// The `SendData` messages for one item, each item starting again at offset 0.
pub open spec fn item_chunks(item: Seq<u8>) -> Seq<MessageView> {
    Seq::new(chunk_count(item.len()), |i: int| chunk_at(item, i))
}

/// The `SendData` messages for a sequence of items, in order.
pub open spec fn all_chunks(items: Seq<Seq<u8>>) -> Seq<MessageView>
    decreases items.len(),
{
    if items.len() == 0 {
        Seq::empty()
    } else {
        all_chunks(items.drop_last()) + item_chunks(items.last())
    }
}

/// The abstract content of a list of byte vectors.
pub open spec fn items_view(items: Seq<Vec<u8>>) -> Seq<Seq<u8>> {
    items.map_values(|v: Vec<u8>| v@)
}

/// The abstract content of a list of messages.
pub open spec fn messages_view(ms: Seq<Message>) -> Seq<MessageView> {
    ms.map_values(|m: Message| m@)
}

/// What the controller does after a `Hello` while driving a sign to `Unconfigured`.
#[derive(Debug, Copy, Clone, PartialEq, Eq, Structural)]
pub enum ResetPlan {
    /// The sign is already unconfigured.
    AlreadyUnconfigured,
    /// The sign is ready to reset: finish the reset.
    FinishReset,
    /// Start a reset, then finish it.
    FullReset,
}

/// The reset plan for the reply to a `Hello`.
pub open spec fn reset_plan_spec(address: u16, reply: Option<MessageView>) -> ResetPlan {
    if reply == Some(MessageView::ReportState(address, State::Unconfigured)) {
        ResetPlan::AlreadyUnconfigured
    } else if reply == Some(MessageView::ReportState(address, State::ReadyToReset)) {
        ResetPlan::FinishReset
    } else {
        ResetPlan::FullReset
    }
}

/// What the controller does after querying the state at the end of one attempt to send data.
#[derive(Debug, Copy, Clone, PartialEq, Eq, Structural)]
pub enum DataOutcome {
    /// The sign received the data.
    Done,
    /// The sign reported failure and attempts remain: send again.
    Retry,
    /// Anything else: the protocol was not followed.
    Unexpected,
}

/// The outcome of attempt number `attempt` (counting from 1) given the reply to `QueryState`.
pub open spec fn data_outcome_spec(
    address: u16,
    success: State,
    failure: State,
    attempt: u32,
    reply: Option<MessageView>,
) -> DataOutcome {
    if reply == Some(MessageView::ReportState(address, failure)) && attempt < MAX_ATTEMPTS {
        DataOutcome::Retry
    } else if reply == Some(MessageView::ReportState(address, success)) {
        DataOutcome::Done
    } else {
        DataOutcome::Unexpected
    }
}

/// What the controller does with one reply while waiting for a page to load or show.
#[derive(Debug, Copy, Clone, PartialEq, Eq, Structural)]
pub enum PollStep {
    /// The sign reached the target state, or flips pages itself.
    Finished,
    /// The sign is in the trigger state: request the operation.
    Request,
    /// The sign is loading or showing a page: query again.
    Wait,
    /// Anything else: the protocol was not followed.
    Unexpected,
}

/// The step for a reply to `QueryState` while switching pages.
pub open spec fn poll_step_spec(
    address: u16,
    target: State,
    trigger: State,
    reply: Option<MessageView>,
) -> PollStep {
    match reply {
        Some(MessageView::ReportState(a, s)) => if a != address {
            PollStep::Unexpected
        } else if s == State::ShowingPages || s == target {
            PollStep::Finished
        } else if s == trigger {
            PollStep::Request
        } else if s == State::PageLoadInProgress || s == State::PageShowInProgress {
            PollStep::Wait
        } else {
            PollStep::Unexpected
        },
        _ => PollStep::Unexpected,
    }
}

/// The flip style that the reply to the final `QueryState` of `send_pages` reveals.
pub open spec fn flip_style_spec(address: u16, reply: Option<MessageView>) -> PageFlipStyle {
    if reply == Some(MessageView::ReportState(address, State::ShowingPages)) {
        PageFlipStyle::Automatic
    } else {
        PageFlipStyle::Manual
    }
}

/// One exchange the controller makes: a message and the reply the protocol expects to it.
#[derive(Debug)]
pub struct Step {
    /// The message to send.
    pub message: Message,
    /// The reply the protocol expects; `None` where none is expected.
    pub expected: Option<Message>,
}

/// The abstract content of a step: the message and the expected reply.
pub type StepView = (MessageView, Option<MessageView>);

impl View for Step {
    type V = StepView;

    open spec fn view(&self) -> StepView {
        (self.message@, reply_view(self.expected))
    }
}

/// The abstract content of a list of steps.
pub open spec fn steps_view(steps: Seq<Step>) -> Seq<StepView> {
    steps.map_values(|s: Step| s@)
}

/// Request an operation, expecting it to be acknowledged.
pub open spec fn request_step(address: u16, op: Operation) -> StepView {
    (
        MessageView::RequestOperation(address, op),
        Some(MessageView::AckOperation(address, op)),
    )
}

/// Say `Hello`, expecting the sign to report the given state.
pub open spec fn hello_step(address: u16, state: State) -> StepView {
    (MessageView::Hello(address), Some(MessageView::ReportState(address, state)))
}

/// The exchanges that bring a sign to `Unconfigured` under a reset plan: nothing if it is
/// already there; `FinishReset` then `Hello` if it is ready to reset; otherwise `StartReset`,
/// `Hello` (ready to reset), `FinishReset`, `Hello` (unconfigured).
pub open spec fn reset_steps_spec(address: u16, plan: ResetPlan) -> Seq<StepView> {
    match plan {
        ResetPlan::AlreadyUnconfigured => Seq::empty(),
        ResetPlan::FinishReset => seq![
            request_step(address, Operation::FinishReset),
            hello_step(address, State::Unconfigured),
        ],
        ResetPlan::FullReset => seq![
            request_step(address, Operation::StartReset),
            hello_step(address, State::ReadyToReset),
            request_step(address, Operation::FinishReset),
            hello_step(address, State::Unconfigured),
        ],
    }
}

/// The exchanges of one attempt to send data: request the operation, send every chunk with no
/// reply expected, then report how many chunks were sent.
pub open spec fn attempt_steps_spec(address: u16, op: Operation, chunks: Seq<MessageView>) -> Seq<
    StepView,
> {
    seq![request_step(address, op)] + Seq::new(
        chunks.len(),
        |i: int| (chunks[i], None::<MessageView>),
    ) + seq![(MessageView::DataChunksSent(chunks.len() as u16), None::<MessageView>)]
}

/// Whether two frames are equal.
fn frames_equal(a: &Frame, b: &Frame) -> (r: bool)
    ensures
        r == (a@ == b@),
{
    a.address().0 == b.address().0 && a.message_type().0 == b.message_type().0 && bytes_equal(
        a.data(),
        b.data(),
    )
}

/// Whether two messages are equal.
pub fn messages_equal(a: &Message, b: &Message) -> (r: bool)
    ensures
        r == (a@ == b@),
{
    match (a, b) {
        (Message::SendData(o1, d1), Message::SendData(o2, d2)) => o1.0 == o2.0 && bytes_equal(
            d1.get(),
            d2.get(),
        ),
        (Message::DataChunksSent(c1), Message::DataChunksSent(c2)) => c1.0 == c2.0,
        (Message::Hello(a1), Message::Hello(a2)) => a1.0 == a2.0,
        (Message::QueryState(a1), Message::QueryState(a2)) => a1.0 == a2.0,
        (Message::ReportState(a1, s1), Message::ReportState(a2, s2)) => a1.0 == a2.0 && *s1
            == *s2,
        (Message::RequestOperation(a1, p1), Message::RequestOperation(a2, p2)) => a1.0 == a2.0
            && *p1 == *p2,
        (Message::AckOperation(a1, p1), Message::AckOperation(a2, p2)) => a1.0 == a2.0 && *p1
            == *p2,
        (Message::PixelsComplete(a1), Message::PixelsComplete(a2)) => a1.0 == a2.0,
        (Message::Goodbye(a1), Message::Goodbye(a2)) => a1.0 == a2.0,
        (Message::Unknown(f1), Message::Unknown(f2)) => frames_equal(f1, f2),
        _ => false,
    }
}

/// Whether two optional replies are equal.
pub fn replies_equal(a: &Option<Message>, b: &Option<Message>) -> (r: bool)
    ensures
        r == (reply_view(*a) == reply_view(*b)),
{
    match (a, b) {
        (Some(x), Some(y)) => messages_equal(x, y),
        (None, None) => true,
        _ => false,
    }
}

/// Checks a reply against the one the protocol expects, failing with `UnexpectedResponse`
/// when they differ.
pub fn verify_response(expected: &Option<Message>, response: &Option<Message>) -> (r: Result<
    (),
    SignError,
>)
    ensures
        (r is Ok) <==> reply_view(*expected) == reply_view(*response),
        r matches Err(e) ==> e is UnexpectedResponse,
        r matches Err(SignError::UnexpectedResponse { expected: e, actual: a }) ==> e@ == chars_of(
            reply_text(reply_view(*expected)),
        ) && a@ == chars_of(reply_text(reply_view(*response))),
{
    if replies_equal(response, expected) {
        Ok(())
    } else {
        Err(
            SignError::UnexpectedResponse {
                expected: describe_reply(expected),
                actual: describe_reply(response),
            },
        )
    }
}

/// Decides how to drive a sign to `Unconfigured` from its reply to `Hello`.
pub fn reset_plan(address: Address, reply: &Option<Message>) -> (r: ResetPlan)
    ensures
        r == reset_plan_spec(address.0, reply_view(*reply)),
{
    match reply {
        Some(Message::ReportState(a, State::Unconfigured)) if a.0 == address.0 => {
            ResetPlan::AlreadyUnconfigured
        },
        Some(Message::ReportState(a, State::ReadyToReset)) if a.0 == address.0 => {
            ResetPlan::FinishReset
        },
        _ => ResetPlan::FullReset,
    }
}

/// Decides, from the reply to `QueryState`, whether an attempt to send data succeeded,
/// should be repeated, or broke the protocol.
pub fn data_outcome(
    address: Address,
    success: State,
    failure: State,
    attempt: u32,
    reply: &Option<Message>,
) -> (r: DataOutcome)
    ensures
        r == data_outcome_spec(address.0, success, failure, attempt, reply_view(*reply)),
{
    match reply {
        Some(Message::ReportState(a, s)) if a.0 == address.0 => {
            if *s == failure && attempt < MAX_ATTEMPTS {
                DataOutcome::Retry
            } else if *s == success {
                DataOutcome::Done
            } else {
                DataOutcome::Unexpected
            }
        },
        _ => DataOutcome::Unexpected,
    }
}

/// Decides what to do with a reply to `QueryState` while switching pages.
pub fn poll_step(address: Address, target: State, trigger: State, reply: &Option<Message>) -> (r:
    PollStep)
    ensures
        r == poll_step_spec(address.0, target, trigger, reply_view(*reply)),
{
    match reply {
        Some(Message::ReportState(a, s)) => {
            if a.0 != address.0 {
                PollStep::Unexpected
            } else if *s == State::ShowingPages || *s == target {
                PollStep::Finished
            } else if *s == trigger {
                PollStep::Request
            } else if *s == State::PageLoadInProgress || *s == State::PageShowInProgress {
                PollStep::Wait
            } else {
                PollStep::Unexpected
            }
        },
        _ => PollStep::Unexpected,
    }
}

/// The flip style revealed by the reply to the `QueryState` that ends `send_pages`.
pub fn flip_style_of(address: Address, reply: &Option<Message>) -> (r: PageFlipStyle)
    ensures
        r == flip_style_spec(address.0, reply_view(*reply)),
{
    match reply {
        Some(Message::ReportState(a, State::ShowingPages)) if a.0 == address.0 => {
            PageFlipStyle::Automatic
        },
        _ => PageFlipStyle::Manual,
    }
}

fn make_step(message: Message, expected: Option<Message>) -> (r: Step)
    ensures
        r@ == (message@, reply_view(expected)),
{
    Step { message, expected }
}

/// The exchanges that bring a sign to `Unconfigured` under a reset plan.
pub fn reset_steps(address: Address, plan: ResetPlan) -> (r: Vec<Step>)
    ensures
        steps_view(r@) == reset_steps_spec(address.0, plan),
{
    let mut steps: Vec<Step> = Vec::new();
    match plan {
        ResetPlan::AlreadyUnconfigured => {},
        ResetPlan::FinishReset => {
            steps.push(make_request_step(address, Operation::FinishReset));
            steps.push(make_hello_step(address, State::Unconfigured));
        },
        ResetPlan::FullReset => {
            steps.push(make_request_step(address, Operation::StartReset));
            steps.push(make_hello_step(address, State::ReadyToReset));
            steps.push(make_request_step(address, Operation::FinishReset));
            steps.push(make_hello_step(address, State::Unconfigured));
        },
    }
    proof {
        assert(steps_view(steps@) =~= reset_steps_spec(address.0, plan));
    }
    steps
}

fn make_request_step(address: Address, op: Operation) -> (r: Step)
    ensures
        r@ == request_step(address.0, op),
{
    make_step(Message::RequestOperation(address, op), Some(Message::AckOperation(address, op)))
}

fn make_hello_step(address: Address, state: State) -> (r: Step)
    ensures
        r@ == hello_step(address.0, state),
{
    make_step(Message::Hello(address), Some(Message::ReportState(address, state)))
}

/// The exchanges of one attempt to send the given chunks under an operation.
pub fn attempt_steps(address: Address, op: Operation, chunks: &Vec<Message>) -> (r: Vec<Step>)
    requires
        chunks@.len() <= 0xFFFF,
    ensures
        steps_view(r@) == attempt_steps_spec(address.0, op, messages_view(chunks@)),
{
    let ghost cv = messages_view(chunks@);
    let mut steps: Vec<Step> = Vec::new();
    steps.push(make_request_step(address, op));
    let mut i: usize = 0;
    while i < chunks.len()
        invariant
            i <= chunks@.len(),
            cv == messages_view(chunks@),
            steps_view(steps@) == seq![request_step(address.0, op)] + Seq::new(
                i as nat,
                |k: int| (cv[k], None::<MessageView>),
            ),
        decreases chunks.len() - i,
    {
        let ghost before = steps_view(steps@);
        let chunk = chunks[i].clone();
        assert(chunk@ == cv[i as int]);
        steps.push(make_step(chunk, None));
        i += 1;
        proof {
            assert(steps_view(steps@) =~= before.push((cv[i - 1], None::<MessageView>)));
            assert(steps_view(steps@) =~= seq![request_step(address.0, op)] + Seq::new(
                i as nat,
                |k: int| (cv[k], None::<MessageView>),
            ));
        }
    }
    steps.push(make_step(Message::DataChunksSent(ChunkCount(chunks.len() as u16)), None));
    proof {
        assert(steps_view(steps@) =~= attempt_steps_spec(address.0, op, cv));
    }
    steps
}

/// Copies `bytes[start..end]` into a new vector.
fn copy_range(bytes: &[u8], start: usize, end: usize) -> (r: Vec<u8>)
    requires
        start <= end <= bytes@.len(),
    ensures
        r@ == bytes@.subrange(start as int, end as int),
{
    let mut out: Vec<u8> = Vec::new();
    let mut i: usize = start;
    while i < end
        invariant
            start <= i <= end,
            end <= bytes@.len(),
            out@ == bytes@.subrange(start as int, i as int),
        decreases end - i,
    {
        out.push(bytes[i]);
        i += 1;
        proof {
            assert(bytes@.subrange(start as int, i as int) =~= bytes@.subrange(
                start as int,
                i - 1,
            ).push(bytes@[i - 1]));
        }
    }
    out
}

/// Splits one item into its `SendData` messages and appends them.
fn push_item_chunks(out: &mut Vec<Message>, item: &[u8])
    ensures
        messages_view(final(out)@) == messages_view(old(out)@) + item_chunks(item@),
{
    let len = item.len();
    let n: usize = len / 16 + if len % 16 != 0 {
        1usize
    } else {
        0usize
    };
    assert(n == chunk_count(len as nat));
    let ghost before = messages_view(out@);
    let mut i: usize = 0;
    while i < n
        invariant
            n == chunk_count(len as nat),
            len == item@.len(),
            i <= n,
            messages_view(out@) == before + item_chunks(item@).subrange(0, i as int),
        decreases n - i,
    {
        assert(16 * i < len) by (nonlinear_arith)
            requires
                i < n,
                n == (len + 15) / 16,
        ;
        let start: usize = 16 * i;
        let end: usize = if len - start > 16 {
            start + 16
        } else {
            len
        };
        let chunk = copy_range(item, start, end);
        let m = Message::SendData(Offset((start % 65536) as u16), Data::from_vec(chunk));
        assert(m@ == chunk_at(item@, i as int));
        let ghost old_out = out@;
        out.push(m);
        i += 1;
        proof {
            assert(messages_view(out@) =~= messages_view(old_out).push(m@));
            assert(item_chunks(item@).subrange(0, i as int) =~= item_chunks(item@).subrange(
                0,
                i - 1,
            ).push(chunk_at(item@, i - 1)));
        }
    }
    proof {
        assert(item_chunks(item@).subrange(0, i as int) =~= item_chunks(item@));
    }
}

/// Splits each item into 16-byte `SendData` messages, offsets counted from the item's start.
pub fn chunk_messages(items: &Vec<Vec<u8>>) -> (r: Vec<Message>)
    ensures
        messages_view(r@) == all_chunks(items_view(items@)),
{
    let mut out: Vec<Message> = Vec::new();
    let mut j: usize = 0;
    proof {
        assert(messages_view(out@) =~= all_chunks(items_view(items@.subrange(0, 0))));
    }
    while j < items.len()
        invariant
            j <= items@.len(),
            messages_view(out@) == all_chunks(items_view(items@.subrange(0, j as int))),
        decreases items.len() - j,
    {
        push_item_chunks(&mut out, items[j].as_slice());
        j += 1;
        proof {
            let s = items_view(items@.subrange(0, j as int));
            assert(s.drop_last() =~= items_view(items@.subrange(0, j - 1)));
            assert(s.last() == items@[j - 1]@);
        }
    }
    proof {
        assert(items@.subrange(0, j as int) =~= items@);
    }
    out
}

/// Every known sign type has pages that fit in memory.
proof fn lemma_sign_page_fits(s: SignType)
    ensures
        total_len(sign_dimensions(s).0, sign_dimensions(s).1) <= 4096,
{
    let (w, h) = sign_dimensions(s);
    assert(w <= 160 && h <= 16);
    let c = (h as nat + 7) / 8;
    assert(c <= 2);
    assert(w as nat * c <= 320) by (nonlinear_arith)
        requires
            w <= 160,
            c <= 2,
    ;
}

/// What came back from the bus for one message: the reply, or the text of the bus's error.
pub type Outcome = Result<Option<MessageView>, Seq<char>>;

/// One message sent to the bus, and what came back.
pub type ExchangeView = (MessageView, Outcome);

/// The exchanges of a list of steps in which every step got exactly its expected reply.
pub open spec fn exchanges_with(steps: Seq<StepView>) -> Seq<ExchangeView> {
    Seq::new(steps.len(), |i: int| (steps[i].0, Ok::<Option<MessageView>, Seq<char>>(steps[i].1)))
}

/// Whether a log of exchanges is an earlier log with more exchanges after it.
pub open spec fn extends(before: Seq<ExchangeView>, after: Seq<ExchangeView>) -> bool {
    before.len() <= after.len() && after.subrange(0, before.len() as int) == before
}

/// The exchanges of `after` that come after those of `before`.
pub open spec fn added(before: Seq<ExchangeView>, after: Seq<ExchangeView>) -> Seq<ExchangeView> {
    after.subrange(before.len() as int, after.len() as int)
}

/// Whether an error fits the last exchange of a log: a bus error carries the bus's error from
/// that exchange unchanged, and an unexpected response follows a reply that did come back.
pub open spec fn error_fits(e: SignError, t: Seq<ExchangeView>) -> bool {
    &&& t.len() >= 1
    &&& match e {
        SignError::Bus { source } => t.last().1 == Err::<Option<MessageView>, Seq<char>>(source@),
        SignError::UnexpectedResponse { .. } => t.last().1 is Ok,
    }
}

/// Whether a log is a list of steps that stopped at the first reply that was not the expected
/// one: every earlier step got its expected reply, and the last exchange sent the step's
/// message and got something else back.
pub open spec fn steps_failed(steps: Seq<StepView>, t: Seq<ExchangeView>) -> bool {
    &&& 1 <= t.len() <= steps.len()
    &&& t.drop_last() == exchanges_with(steps.subrange(0, t.len() - 1))
    &&& t.last().0 == steps[t.len() - 1].0
    &&& t.last().1 != Ok::<Option<MessageView>, Seq<char>>(steps[t.len() - 1].1)
}

/// Whether a log is the run of a list of steps: all of them answered as expected when `ok`,
/// otherwise stopped at the first reply that was not the expected one.
pub open spec fn steps_run(steps: Seq<StepView>, t: Seq<ExchangeView>, ok: bool) -> bool {
    if ok {
        t == exchanges_with(steps)
    } else {
        steps_failed(steps, t)
    }
}

/// Whether a log is a drive to `Unconfigured`: `Hello`, then the run of the reset steps that
/// its reply calls for; it succeeds exactly when all of them were answered as expected.
pub open spec fn unconfigure_run(a: u16, t: Seq<ExchangeView>, ok: bool) -> bool {
    &&& t.len() >= 1
    &&& t[0].0 == MessageView::Hello(a)
    &&& match t[0].1 {
        Ok(rep) => steps_run(reset_steps_spec(a, reset_plan_spec(a, rep)), t.drop_first(), ok),
        Err(_) => t.len() == 1 && !ok,
    }
}

/// One attempt to send data that the sign answers as expected, ending with `QueryState` and the
/// sign reporting the given state.
pub open spec fn attempt_log(a: u16, op: Operation, chunks: Seq<MessageView>, reported: State) -> Seq<
    ExchangeView,
> {
    exchanges_with(attempt_steps_spec(a, op, chunks)).push(
        (
            MessageView::QueryState(a),
            Ok::<Option<MessageView>, Seq<char>>(Some(MessageView::ReportState(a, reported))),
        ),
    )
}

/// `n` attempts that each end with the sign reporting `failure`.
pub open spec fn failed_attempts(
    a: u16,
    op: Operation,
    chunks: Seq<MessageView>,
    failure: State,
    n: nat,
) -> Seq<ExchangeView>
    decreases n,
{
    if n == 0 {
        Seq::empty()
    } else {
        failed_attempts(a, op, chunks, failure, (n - 1) as nat) + attempt_log(a, op, chunks, failure)
    }
}

/// Whether a log is the last attempt of a data send, attempt number `attempt`: it succeeds when
/// every step is answered and the sign reports `success`; it fails when a step gets a wrong
/// reply, or the `QueryState` that ends it fails or gets a reply that calls for neither success
/// nor another attempt.
pub open spec fn last_attempt(
    a: u16,
    op: Operation,
    chunks: Seq<MessageView>,
    success: State,
    failure: State,
    attempt: u32,
    s: Seq<ExchangeView>,
    ok: bool,
) -> bool {
    let steps = attempt_steps_spec(a, op, chunks);
    if ok {
        s == attempt_log(a, op, chunks, success)
    } else {
        ||| steps_failed(steps, s)
        ||| {
            &&& s.len() == steps.len() + 1
            &&& s.drop_last() == exchanges_with(steps)
            &&& s.last().0 == MessageView::QueryState(a)
            &&& match s.last().1 {
                Ok(rep) => data_outcome_spec(a, success, failure, attempt, rep)
                    == DataOutcome::Unexpected,
                Err(_) => true,
            }
        }
    }
}

/// Whether a log is a data send from attempt number `attempt` on: while attempts remain, an
/// attempt that ends with the sign reporting `failure` is followed by another; the send ends
/// with its last attempt.
pub open spec fn data_run(
    a: u16,
    op: Operation,
    chunks: Seq<MessageView>,
    success: State,
    failure: State,
    attempt: u32,
    t: Seq<ExchangeView>,
    ok: bool,
) -> bool
    decreases MAX_ATTEMPTS - attempt,
{
    let unit: int = chunks.len() + 3int;
    if 1 <= attempt < MAX_ATTEMPTS && t.len() >= unit && t.subrange(0, unit) == attempt_log(
        a,
        op,
        chunks,
        failure,
    ) {
        data_run(
            a,
            op,
            chunks,
            success,
            failure,
            (attempt + 1) as u32,
            t.subrange(unit, t.len() as int),
            ok,
        )
    } else {
        last_attempt(a, op, chunks, success, failure, attempt, t, ok)
    }
}

/// The `SendData` messages of a sign type's configuration block.
pub open spec fn config_chunks(st: SignType) -> Seq<MessageView> {
    all_chunks(seq![config_bytes(st)])
}

/// Whether a log is a configuration: a drive to `Unconfigured` that fails, or one that succeeds
/// followed by the data send of the configuration block.
pub open spec fn configure_run(a: u16, st: SignType, t: Seq<ExchangeView>, ok: bool) -> bool {
    ||| unconfigure_run(a, t, false) && !ok
    ||| exists|n: int|
        1 <= n <= t.len() && unconfigure_run(a, #[trigger] t.subrange(0, n), true) && data_run(
            a,
            Operation::ReceiveConfig,
            config_chunks(st),
            State::ConfigReceived,
            State::ConfigFailed,
            1,
            t.subrange(n, t.len() as int),
            ok,
        )
}

/// Whether a log is a configuration made only if needed: `Hello`, then a configuration when
/// the sign reports itself unconfigured, and nothing more otherwise.
pub open spec fn configure_if_needed_run(a: u16, st: SignType, t: Seq<ExchangeView>, ok: bool) -> bool {
    &&& t.len() >= 1
    &&& t[0].0 == MessageView::Hello(a)
    &&& match t[0].1 {
        Ok(rep) => if reset_plan_spec(a, rep) == ResetPlan::AlreadyUnconfigured {
            configure_run(a, st, t.drop_first(), ok)
        } else {
            t.len() == 1 && ok
        },
        Err(_) => t.len() == 1 && !ok,
    }
}

/// Whether a log is what follows a successful pixel upload: `PixelsComplete`, which must get
/// no reply, then `QueryState`, whose reply gives the flip style. `style` is the result:
/// `None` for an error.
pub open spec fn pixels_tail(a: u16, s: Seq<ExchangeView>, style: Option<PageFlipStyle>) -> bool {
    &&& s.len() >= 1
    &&& s[0].0 == MessageView::PixelsComplete(a)
    &&& if s[0].1 != Ok::<Option<MessageView>, Seq<char>>(None) {
        s.len() == 1 && style is None
    } else {
        &&& s.len() == 2
        &&& s[1].0 == MessageView::QueryState(a)
        &&& match s[1].1 {
            Ok(rep) => style == Some(flip_style_spec(a, rep)),
            Err(_) => style is None,
        }
    }
}

/// Whether a log is a page upload: a data send of the pixels that fails, or one that succeeds
/// followed by `PixelsComplete` and `QueryState`. `style` is the result: `None` for an error.
pub open spec fn pages_run(
    a: u16,
    chunks: Seq<MessageView>,
    t: Seq<ExchangeView>,
    style: Option<PageFlipStyle>,
) -> bool {
    ||| data_run(
        a,
        Operation::ReceivePixels,
        chunks,
        State::PixelsReceived,
        State::PixelsFailed,
        1,
        t,
        false,
    ) && style is None
    ||| exists|n: int|
        0 <= n < t.len() && data_run(
            a,
            Operation::ReceivePixels,
            chunks,
            State::PixelsReceived,
            State::PixelsFailed,
            1,
            #[trigger] t.subrange(0, n),
            true,
        ) && pixels_tail(a, t.subrange(n, t.len() as int), style)
}

/// The result of a page upload as in `pages_run`: the flip style, or `None` for an error.
pub open spec fn style_of(r: Result<PageFlipStyle, SignError>) -> Option<PageFlipStyle> {
    match r {
        Ok(s) => Some(s),
        Err(_) => None,
    }
}

/// Whether a log is a run of page-switch polls that have not finished: each `QueryState` got a
/// reply that means wait, or one that means request, followed by the acknowledged request.
pub open spec fn polls_continuing(
    a: u16,
    target: State,
    trigger: State,
    op: Operation,
    t: Seq<ExchangeView>,
) -> bool
    decreases t.len(),
{
    if t.len() == 0 {
        true
    } else if t.last().0 == MessageView::QueryState(a) && t.last().1 is Ok && poll_step_spec(
        a,
        target,
        trigger,
        t.last().1->Ok_0,
    ) == PollStep::Wait {
        polls_continuing(a, target, trigger, op, t.drop_last())
    } else if t.len() >= 2 && t.last() == (
        request_step(a, op).0,
        Ok::<Option<MessageView>, Seq<char>>(request_step(a, op).1),
    ) && t[t.len() - 2].0 == MessageView::QueryState(a) && t[t.len() - 2].1 is Ok
        && poll_step_spec(a, target, trigger, t[t.len() - 2].1->Ok_0) == PollStep::Request {
        polls_continuing(a, target, trigger, op, t.subrange(0, t.len() - 2))
    } else {
        false
    }
}

/// A successful page switch: polls that have not finished, then a `QueryState` whose reply
/// finishes the switch.
pub open spec fn switch_log(
    a: u16,
    target: State,
    trigger: State,
    op: Operation,
    t: Seq<ExchangeView>,
) -> bool {
    &&& t.len() >= 1
    &&& t.last().0 == MessageView::QueryState(a)
    &&& t.last().1 is Ok
    &&& poll_step_spec(a, target, trigger, t.last().1->Ok_0) == PollStep::Finished
    &&& polls_continuing(a, target, trigger, op, t.drop_last())
}

proof fn lemma_exchanges_with_push(steps: Seq<StepView>, i: int)
    requires
        0 <= i < steps.len(),
    ensures
        exchanges_with(steps.subrange(0, i + 1)) == exchanges_with(steps.subrange(0, i)).push(
            (steps[i].0, Ok::<Option<MessageView>, Seq<char>>(steps[i].1)),
        ),
{
    assert(exchanges_with(steps.subrange(0, i + 1)) =~= exchanges_with(steps.subrange(0, i)).push(
        (steps[i].0, Ok::<Option<MessageView>, Seq<char>>(steps[i].1)),
    ));
}

/// The number of `QueryState` messages in a log.
pub open spec fn query_count(a: u16, t: Seq<ExchangeView>) -> nat
    decreases t.len(),
{
    if t.len() == 0 {
        0
    } else {
        query_count(a, t.drop_last()) + if t.last().0 == MessageView::QueryState(a) {
            1nat
        } else {
            0nat
        }
    }
}

/// Whether a log is a page switch: it succeeds when a poll finishes it; it fails at a poll
/// that fails or gets a reply that calls for nothing, at a request that is not acknowledged,
/// or after `u64::MAX` polls that never finished.
pub open spec fn switch_run(
    a: u16,
    target: State,
    trigger: State,
    op: Operation,
    t: Seq<ExchangeView>,
    ok: bool,
) -> bool {
    if ok {
        switch_log(a, target, trigger, op, t)
    } else {
        ||| {
            &&& t.len() >= 1
            &&& t.last().0 == MessageView::QueryState(a)
            &&& polls_continuing(a, target, trigger, op, t.drop_last())
            &&& match t.last().1 {
                Ok(rep) => poll_step_spec(a, target, trigger, rep) == PollStep::Unexpected,
                Err(_) => true,
            }
        }
        ||| {
            &&& t.len() >= 2
            &&& t.last().0 == request_step(a, op).0
            &&& t.last().1 != Ok::<Option<MessageView>, Seq<char>>(request_step(a, op).1)
            &&& t[t.len() - 2].0 == MessageView::QueryState(a)
            &&& t[t.len() - 2].1 is Ok
            &&& poll_step_spec(a, target, trigger, t[t.len() - 2].1->Ok_0) == PollStep::Request
            &&& polls_continuing(a, target, trigger, op, t.subrange(0, t.len() - 2))
        }
        ||| polls_continuing(a, target, trigger, op, t) && query_count(a, t) >= u64::MAX
    }
}

proof fn lemma_data_run_after_failures(
    a: u16,
    op: Operation,
    chunks: Seq<MessageView>,
    success: State,
    failure: State,
    k: nat,
    s: Seq<ExchangeView>,
    ok: bool,
)
    requires
        k < MAX_ATTEMPTS,
    ensures
        data_run(a, op, chunks, success, failure, 1, failed_attempts(a, op, chunks, failure, k) + s, ok)
            == data_run(a, op, chunks, success, failure, (k + 1) as u32, s, ok),
    decreases k,
{
    let f = attempt_log(a, op, chunks, failure);
    assert(f.len() == chunks.len() + 3);
    if k == 0 {
        assert(failed_attempts(a, op, chunks, failure, k) + s =~= s);
    } else {
        let rest = f + s;
        assert(failed_attempts(a, op, chunks, failure, k) + s =~= failed_attempts(
            a,
            op,
            chunks,
            failure,
            (k - 1) as nat,
        ) + rest);
        lemma_data_run_after_failures(a, op, chunks, success, failure, (k - 1) as nat, rest, ok);
        assert(rest.subrange(0, f.len() as int) =~= f);
        assert(rest.subrange(f.len() as int, rest.len() as int) =~= s);
    }
}

proof fn lemma_error_fits_compose(e: SignError, x: Seq<ExchangeView>, y: Seq<ExchangeView>, z: Seq<ExchangeView>)
    requires
        extends(x, y),
        extends(y, z),
        error_fits(e, added(y, z)),
    ensures
        error_fits(e, added(x, z)),
{
    lemma_added_compose(x, y, z);
    assert(added(x, z).last() == added(y, z).last());
}

proof fn lemma_added_compose(x: Seq<ExchangeView>, y: Seq<ExchangeView>, z: Seq<ExchangeView>)
    requires
        extends(x, y),
        extends(y, z),
    ensures
        extends(x, z),
        added(x, z) == added(x, y) + added(y, z),
{
    assert(z.subrange(0, x.len() as int) =~= y.subrange(0, x.len() as int));
    assert(added(x, z) =~= added(x, y) + added(y, z));
}

/// A single sign on a bus, which the controller configures, sends pages to, and tells when
/// to flip pages. It keeps, as ghost state, the log of its exchanges with the bus.
pub struct Sign<B> {
    bus: B,
    address: Address,
    sign_type: SignType,
    exchanges: Ghost<Seq<ExchangeView>>,
}

impl<B: SignBus> Sign<B> {
    /// The sign's address.
    pub closed spec fn spec_address(&self) -> Address {
        self.address
    }

    /// The sign's type.
    pub closed spec fn spec_sign_type(&self) -> SignType {
        self.sign_type
    }

    /// The bus the sign is controlled over.
    pub closed spec fn spec_bus(&self) -> B {
        self.bus
    }

    /// Every message this sign has sent to the bus, in order, with what came back.
    pub closed spec fn spec_exchanges(&self) -> Seq<ExchangeView> {
        self.exchanges@
    }

    /// Creates a sign with the given address and type, controlled over the given bus.
    pub fn new(bus: B, address: Address, sign_type: SignType) -> (r: Sign<B>)
        ensures
            r.spec_address() == address,
            r.spec_sign_type() == sign_type,
            r.spec_bus() == bus,
            r.spec_exchanges() == Seq::<ExchangeView>::empty(),
    {
        Sign { bus, address, sign_type, exchanges: Ghost(Seq::empty()) }
    }

    /// Returns the sign's address.
    pub fn address(&self) -> (r: Address)
        ensures
            r == self.spec_address(),
    {
        self.address
    }

    /// Returns the sign's type.
    pub fn sign_type(&self) -> (r: SignType)
        ensures
            r == self.spec_sign_type(),
    {
        self.sign_type
    }

    /// Returns the sign's width in pixels.
    pub fn width(&self) -> (r: u32)
        ensures
            r == sign_dimensions(self.spec_sign_type()).0,
    {
        self.sign_type.dimensions().0
    }

    /// Returns the sign's height in pixels.
    pub fn height(&self) -> (r: u32)
        ensures
            r == sign_dimensions(self.spec_sign_type()).1,
    {
        self.sign_type.dimensions().1
    }

    /// Consumes the sign and returns its bus.
    pub fn into_bus(self) -> (r: B)
        ensures
            r == self.spec_bus(),
    {
        self.bus
    }

    /// Creates a blank page with the given id and the sign's dimensions.
    pub fn create_page(&self, id: PageId) -> (r: Page)
        ensures
            r@ == ({
                let (w, h) = sign_dimensions(self.spec_sign_type());
                (w, h, blank_page_bytes(id.0, w, h))
            }),
    {
        let (w, h) = self.sign_type.dimensions();
        proof {
            lemma_sign_page_fits(self.sign_type);
        }
        Page::new(id, w, h)
    }

    /// Sends a message to the bus and returns the reply; a bus failure is a `Bus` error that
    /// carries the bus's error unchanged.
    fn send_message(&mut self, message: Message) -> (r: Result<Option<Message>, SignError>)
        ensures
            final(self).spec_address() == old(self).spec_address(),
            final(self).spec_sign_type() == old(self).spec_sign_type(),
            r matches Ok(reply) ==> final(self).spec_exchanges() == old(self).spec_exchanges().push(
                (message@, Ok(reply_view(reply))),
            ),
            r matches Err(e) ==> e is Bus,
            extends(old(self).spec_exchanges(), final(self).spec_exchanges()),
            r matches Err(SignError::Bus { source }) ==> final(self).spec_exchanges() == old(
                self,
            ).spec_exchanges().push((message@, Err(source@))),
    {
        let ghost m = message@;
        match self.bus.process_message(message) {
            Ok(reply) => {
                let ghost prior = self.exchanges@;
                self.exchanges = Ghost(self.exchanges@.push((m, Ok(reply_view(reply)))));
                assert(self.exchanges@.subrange(0, prior.len() as int) =~= prior);
                Ok(reply)
            },
            Err(e) => {
                let ghost prior = self.exchanges@;
                self.exchanges = Ghost(self.exchanges@.push((m, Err(e@))));
                assert(self.exchanges@.subrange(0, prior.len() as int) =~= prior);
                Err(SignError::Bus { source: e })
            },
        }
    }

    /// Sends a message and checks the reply against the expected one.
    fn send_message_expect_response(&mut self, message: Message, expected: &Option<Message>) -> (r:
        Result<(), SignError>)
        ensures
            final(self).spec_address() == old(self).spec_address(),
            final(self).spec_sign_type() == old(self).spec_sign_type(),
            extends(old(self).spec_exchanges(), final(self).spec_exchanges()),
            final(self).spec_exchanges().len() == old(self).spec_exchanges().len() + 1,
            final(self).spec_exchanges().last().0 == message@,
            (r is Ok) <==> final(self).spec_exchanges().last().1 == Ok::<
                Option<MessageView>,
                Seq<char>,
            >(reply_view(*expected)),
            r matches Err(e) ==> error_fits(e, added(old(self).spec_exchanges(), final(self).spec_exchanges())),
    {
        let ghost before = self.exchanges@;
        let sent = self.send_message(message);
        proof {
            assert(added(before, self.exchanges@) =~= seq![self.exchanges@.last()]);
        }
        let response = sent?;
        verify_response(expected, &response)
    }

    /// Requests an operation and checks that the sign acknowledges it.
    fn request(&mut self, operation: Operation) -> (r: Result<(), SignError>)
        ensures
            final(self).spec_address() == old(self).spec_address(),
            final(self).spec_sign_type() == old(self).spec_sign_type(),
            extends(old(self).spec_exchanges(), final(self).spec_exchanges()),
            final(self).spec_exchanges().len() == old(self).spec_exchanges().len() + 1,
            final(self).spec_exchanges().last().0 == request_step(old(self).spec_address().0, operation).0,
            (r is Ok) <==> final(self).spec_exchanges().last().1 == Ok::<
                Option<MessageView>,
                Seq<char>,
            >(request_step(old(self).spec_address().0, operation).1),
            r matches Err(e) ==> error_fits(e, added(old(self).spec_exchanges(), final(self).spec_exchanges())),
    {
        let address = self.address;
        self.send_message_expect_response(
            Message::RequestOperation(address, operation),
            &Some(Message::AckOperation(address, operation)),
        )
    }

    /// Makes each exchange in turn, stopping at the first reply that differs from the
    /// expected one.
    fn run_steps(&mut self, steps: &Vec<Step>) -> (r: Result<(), SignError>)
        ensures
            final(self).spec_address() == old(self).spec_address(),
            final(self).spec_sign_type() == old(self).spec_sign_type(),
            extends(old(self).spec_exchanges(), final(self).spec_exchanges()),
            steps_run(steps_view(steps@), added(old(self).spec_exchanges(), final(self).spec_exchanges()), r is Ok),
            r matches Err(e) ==> error_fits(e, added(old(self).spec_exchanges(), final(self).spec_exchanges())),
    {
        let ghost sv = steps_view(steps@);
        let ghost before = self.exchanges@;
        let mut i: usize = 0;
        proof {
            assert(before + exchanges_with(sv.subrange(0, 0)) =~= before);
        }
        while i < steps.len()
            invariant
                i <= steps@.len(),
                sv == steps_view(steps@),
                before == old(self).exchanges@,
                self.address == old(self).address,
                self.sign_type == old(self).sign_type,
                self.exchanges@ == before + exchanges_with(sv.subrange(0, i as int)),
            decreases steps.len() - i,
        {
            let ghost mid = self.exchanges@;
            let message = steps[i].message.clone();
            assert(message@ == sv[i as int].0);
            assert(reply_view(steps@[i as int].expected) == sv[i as int].1);
            let result = self.send_message_expect_response(message, &steps[i].expected);
            proof {
                assert(mid.subrange(0, before.len() as int) =~= before);
                assert(self.exchanges@.subrange(0, mid.len() as int) =~= mid);
                lemma_added_compose(before, mid, self.exchanges@);
                assert(added(before, mid) =~= exchanges_with(sv.subrange(0, i as int)));
                assert(added(mid, self.exchanges@) =~= seq![self.exchanges@.last()]);
            }
            match result {
                Ok(()) => {},
                Err(e) => {
                    proof {
                        lemma_error_fits_compose(e, before, mid, self.exchanges@);
                        let t = added(before, self.exchanges@);
                        assert(t.drop_last() =~= exchanges_with(sv.subrange(0, i as int)));
                        assert(t.last() == self.exchanges@.last());
                    }
                    return Err(e);
                },
            }
            proof {
                lemma_exchanges_with_push(sv, i as int);
                assert(self.exchanges@ =~= before + exchanges_with(sv.subrange(0, i + 1)));
            }
            i += 1;
        }
        proof {
            assert(sv.subrange(0, i as int) =~= sv);
            assert(self.exchanges@.subrange(0, before.len() as int) =~= before);
            assert(added(before, self.exchanges@) =~= exchanges_with(sv));
        }
        Ok(())
    }

    /// Drives the sign to the `Unconfigured` state, resetting it if needed.
    fn ensure_unconfigured(&mut self) -> (r: Result<(), SignError>)
        ensures
            final(self).spec_address() == old(self).spec_address(),
            final(self).spec_sign_type() == old(self).spec_sign_type(),
            extends(old(self).spec_exchanges(), final(self).spec_exchanges()),
            unconfigure_run(old(self).spec_address().0, added(old(self).spec_exchanges(), final(self).spec_exchanges()), r is Ok),
            r matches Err(e) ==> error_fits(e, added(old(self).spec_exchanges(), final(self).spec_exchanges())),
    {
        let ghost before = self.exchanges@;
        let address = self.address;
        let hello = self.send_message(Message::Hello(address));
        proof {
            assert(self.exchanges@.subrange(0, before.len() as int) =~= before);
            assert(added(before, self.exchanges@) =~= seq![self.exchanges@.last()]);
        }
        let response = match hello {
            Ok(response) => response,
            Err(e) => {
                return Err(e);
            },
        };
        let ghost mid = self.exchanges@;
        let steps = reset_steps(address, reset_plan(address, &response));
        let result = self.run_steps(&steps);
        proof {
            lemma_added_compose(before, mid, self.exchanges@);
            let t = added(before, self.exchanges@);
            assert(t[0] == added(before, mid)[0]);
            assert(t.drop_first() =~= added(mid, self.exchanges@));
            if result is Err {
                lemma_error_fits_compose(result->Err_0, before, mid, self.exchanges@);
            }
        }
        result
    }

    /// Sends data in 16-byte chunks under the given operation, up to `MAX_ATTEMPTS` times
    /// while the sign reports `failure`; succeeds when it reports `success`.
    fn send_data(&mut self, items: &Vec<Vec<u8>>, operation: Operation, success: State, failure: State) -> (r:
        Result<(), SignError>)
        requires
            all_chunks(items_view(items@)).len() <= 0xFFFF,
            success != failure,
        ensures
            final(self).spec_address() == old(self).spec_address(),
            final(self).spec_sign_type() == old(self).spec_sign_type(),
            extends(old(self).spec_exchanges(), final(self).spec_exchanges()),
            data_run(
                old(self).spec_address().0,
                operation,
                all_chunks(items_view(items@)),
                success,
                failure,
                1,
                added(old(self).spec_exchanges(), final(self).spec_exchanges()),
                r is Ok,
            ),
            r matches Err(e) ==> error_fits(e, added(old(self).spec_exchanges(), final(self).spec_exchanges())),
    {
        let ghost before = self.exchanges@;
        let address = self.address;
        let chunks = chunk_messages(items);
        let ghost cv = all_chunks(items_view(items@));
        assert(chunks@.len() == messages_view(chunks@).len());
        let mut attempt: u32 = 1;
        proof {
            assert(before.subrange(0, before.len() as int) =~= before);
            assert(added(before, before) =~= failed_attempts(address.0, operation, cv, failure, 0));
        }
        loop
            invariant
                1 <= attempt <= MAX_ATTEMPTS,
                chunks@.len() <= 0xFFFF,
                messages_view(chunks@) == cv,
                cv == all_chunks(items_view(items@)),
                success != failure,
                self.address == address,
                address == old(self).address,
                self.sign_type == old(self).sign_type,
                before == old(self).exchanges@,
                extends(before, self.exchanges@),
                added(before, self.exchanges@) == failed_attempts(
                    address.0,
                    operation,
                    cv,
                    failure,
                    (attempt - 1) as nat,
                ),
            decreases MAX_ATTEMPTS - attempt,
        {
            let ghost start = self.exchanges@;
            let ghost unit: int = cv.len() + 3int;
            let ghost failed_one = attempt_log(address.0, operation, cv, failure);
            let steps = attempt_steps(address, operation, &chunks);
            let ghost sv = steps_view(steps@);
            assert(sv == attempt_steps_spec(address.0, operation, cv));
            assert(failed_one.len() == unit);
            let sent = self.run_steps(&steps);
            proof {
                lemma_added_compose(before, start, self.exchanges@);
            }
            match sent {
                Ok(()) => {},
                Err(e) => {
                    proof {
                        lemma_error_fits_compose(e, before, start, self.exchanges@);
                        let seg = added(start, self.exchanges@);
                        assert(seg.len() < unit);
                        assert(last_attempt(address.0, operation, cv, success, failure, attempt, seg, false));
                        lemma_data_run_after_failures(
                            address.0,
                            operation,
                            cv,
                            success,
                            failure,
                            (attempt - 1) as nat,
                            seg,
                            false,
                        );
                    }
                    return Err(e);
                },
            }
            let ghost mid = self.exchanges@;
            let queried = self.send_message(Message::QueryState(address));
            proof {
                assert(self.exchanges@.subrange(0, mid.len() as int) =~= mid);
                lemma_added_compose(start, mid, self.exchanges@);
                lemma_added_compose(before, start, self.exchanges@);
                assert(added(start, mid) =~= exchanges_with(sv));
                let seg = added(start, self.exchanges@);
                assert(seg =~= exchanges_with(sv).push(self.exchanges@.last()));
                assert(seg.len() == unit);
                assert(seg.subrange(0, unit) =~= seg);
                assert(seg.drop_last() =~= exchanges_with(sv));
                assert(seg.last() == self.exchanges@.last());
                assert(failed_one.last() == (
                    MessageView::QueryState(address.0),
                    Ok::<Option<MessageView>, Seq<char>>(
                        Some(MessageView::ReportState(address.0, failure)),
                    ),
                ));
            }
            let response = match queried {
                Ok(response) => response,
                Err(e) => {
                    proof {
                        let seg = added(start, self.exchanges@);
                        assert(seg.last() != failed_one.last());
                        assert(last_attempt(address.0, operation, cv, success, failure, attempt, seg, false));
                        lemma_data_run_after_failures(
                            address.0,
                            operation,
                            cv,
                            success,
                            failure,
                            (attempt - 1) as nat,
                            seg,
                            false,
                        );
                        assert(added(before, self.exchanges@).last() == self.exchanges@.last());
                    }
                    return Err(e);
                },
            };
            match data_outcome(address, success, failure, attempt, &response) {
                DataOutcome::Done => {
                    proof {
                        let seg = added(start, self.exchanges@);
                        let done_one = attempt_log(address.0, operation, cv, success);
                        assert(seg =~= done_one);
                        assert(seg.last() != failed_one.last());
                        assert(last_attempt(address.0, operation, cv, success, failure, attempt, seg, true));
                        lemma_data_run_after_failures(
                            address.0,
                            operation,
                            cv,
                            success,
                            failure,
                            (attempt - 1) as nat,
                            seg,
                            true,
                        );
                    }
                    return Ok(());
                },
                DataOutcome::Retry => {
                    proof {
                        let seg = added(start, self.exchanges@);
                        assert(seg =~= failed_one);
                        assert(added(before, self.exchanges@) == failed_attempts(
                            address.0,
                            operation,
                            cv,
                            failure,
                            attempt as nat,
                        ));
                    }
                    attempt += 1;
                },
                DataOutcome::Unexpected => {
                    let r = verify_response(&Some(Message::ReportState(address, success)), &response);
                    proof {
                        let seg = added(start, self.exchanges@);
                        if 1 <= attempt < MAX_ATTEMPTS && seg.subrange(0, unit) == failed_one {
                            assert(seg.last() == failed_one.last());
                            assert(false);
                        }
                        assert(last_attempt(address.0, operation, cv, success, failure, attempt, seg, false));
                        lemma_data_run_after_failures(
                            address.0,
                            operation,
                            cv,
                            success,
                            failure,
                            (attempt - 1) as nat,
                            seg,
                            false,
                        );
                        assert(added(before, self.exchanges@).last() == self.exchanges@.last());
                    }
                    return r;
                },
            }
        }
    }

    /// Configures the sign: drives it to `Unconfigured`, then sends its configuration block.
    pub fn configure(&mut self) -> (r: Result<(), SignError>)
        ensures
            final(self).spec_address() == old(self).spec_address(),
            final(self).spec_sign_type() == old(self).spec_sign_type(),
            extends(old(self).spec_exchanges(), final(self).spec_exchanges()),
            configure_run(old(self).spec_address().0, old(self).spec_sign_type(), added(old(self).spec_exchanges(), final(self).spec_exchanges()), r is Ok),
            r matches Err(e) ==> error_fits(e, added(old(self).spec_exchanges(), final(self).spec_exchanges())),
    {
        let ghost before = self.exchanges@;
        let unconfigured = self.ensure_unconfigured();
        match unconfigured {
            Ok(()) => {},
            Err(e) => {
                return Err(e);
            },
        }
        let ghost mid = self.exchanges@;
        let mut items: Vec<Vec<u8>> = Vec::new();
        items.push(self.sign_type.to_bytes());
        proof {
            let v = items_view(items@);
            assert(v =~= seq![config_bytes(self.sign_type)]);
            assert(v.drop_last() =~= Seq::<Seq<u8>>::empty());
            assert(all_chunks(v.drop_last()) =~= Seq::<MessageView>::empty());
        }
        let result = self.send_data(
            &items,
            Operation::ReceiveConfig,
            State::ConfigReceived,
            State::ConfigFailed,
        );
        proof {
            lemma_added_compose(before, mid, self.exchanges@);
            let t = added(before, self.exchanges@);
            let u = added(before, mid);
            let n = u.len() as int;
            assert(t.subrange(0, n) =~= u);
            assert(t.subrange(n, t.len() as int) =~= added(mid, self.exchanges@));
            assert(unconfigure_run(self.address.0, t.subrange(0, n), true));
            if result is Err {
                lemma_error_fits_compose(result->Err_0, before, mid, self.exchanges@);
            }
        }
        result
    }

    /// Configures the sign only if it reports that it is unconfigured.
    pub fn configure_if_needed(&mut self) -> (r: Result<(), SignError>)
        ensures
            final(self).spec_address() == old(self).spec_address(),
            final(self).spec_sign_type() == old(self).spec_sign_type(),
            extends(old(self).spec_exchanges(), final(self).spec_exchanges()),
            configure_if_needed_run(old(self).spec_address().0, old(self).spec_sign_type(), added(old(self).spec_exchanges(), final(self).spec_exchanges()), r is Ok),
            r matches Err(e) ==> error_fits(e, added(old(self).spec_exchanges(), final(self).spec_exchanges())),
    {
        let ghost before = self.exchanges@;
        let address = self.address;
        let hello = self.send_message(Message::Hello(address));
        proof {
            assert(self.exchanges@.subrange(0, before.len() as int) =~= before);
            assert(added(before, self.exchanges@) =~= seq![self.exchanges@.last()]);
        }
        let response = match hello {
            Ok(response) => response,
            Err(e) => {
                return Err(e);
            },
        };
        let ghost mid = self.exchanges@;
        match reset_plan(address, &response) {
            ResetPlan::AlreadyUnconfigured => {
                let result = self.configure();
                proof {
                    lemma_added_compose(before, mid, self.exchanges@);
                    let t = added(before, self.exchanges@);
                    assert(t[0] == added(before, mid)[0]);
                    assert(t.drop_first() =~= added(mid, self.exchanges@));
                    if result is Err {
                        lemma_error_fits_compose(result->Err_0, before, mid, self.exchanges@);
                    }
                }
                result
            },
            _ => Ok(()),
        }
    }

    /// Sends pages to the sign, each page's bytes chunked on their own, then tells the sign
    /// that the pixels are complete. Returns `Automatic` when the sign then reports that it
    /// flips pages itself, `Manual` otherwise.
    pub fn send_pages(&mut self, pages: &[Page]) -> (r: Result<PageFlipStyle, SignError>)
        requires
            all_chunks(pages@.map_values(|p: Page| p@.2)).len() <= 0xFFFF,
        ensures
            final(self).spec_address() == old(self).spec_address(),
            final(self).spec_sign_type() == old(self).spec_sign_type(),
            extends(old(self).spec_exchanges(), final(self).spec_exchanges()),
            pages_run(old(self).spec_address().0, all_chunks(pages@.map_values(|p: Page| p@.2)), added(old(self).spec_exchanges(), final(self).spec_exchanges()), style_of(r)),
            r matches Err(e) ==> error_fits(e, added(old(self).spec_exchanges(), final(self).spec_exchanges())),
    {
        let ghost before = self.exchanges@;
        let mut items: Vec<Vec<u8>> = Vec::new();
        let mut j: usize = 0;
        while j < pages.len()
            invariant
                j <= pages@.len(),
                items_view(items@) == pages@.subrange(0, j as int).map_values(|p: Page| p@.2),
            decreases pages.len() - j,
        {
            let ghost prior = items@;
            items.push(crate::frame::copy_bytes(pages[j].as_bytes()));
            j += 1;
            proof {
                assert(items_view(items@) =~= items_view(prior).push(pages@[j - 1]@.2));
                assert(pages@.subrange(0, j as int).map_values(|p: Page| p@.2) =~= pages@.subrange(
                    0,
                    j - 1,
                ).map_values(|p: Page| p@.2).push(pages@[j - 1]@.2));
            }
        }
        proof {
            assert(pages@.subrange(0, j as int) =~= pages@);
        }
        let ghost cv = all_chunks(items_view(items@));
        let sent = self.send_data(
            &items,
            Operation::ReceivePixels,
            State::PixelsReceived,
            State::PixelsFailed,
        );
        match sent {
            Ok(()) => {},
            Err(e) => {
                return Err(e);
            },
        }
        let ghost data_end = self.exchanges@;
        let address = self.address;
        let completed = self.send_message_expect_response(Message::PixelsComplete(address), &None);
        let ghost pc_end = self.exchanges@;
        proof {
            lemma_added_compose(before, data_end, pc_end);
            assert(added(data_end, pc_end) =~= seq![pc_end.last()]);
        }
        match completed {
            Ok(()) => {},
            Err(e) => {
                proof {
                    let t = added(before, pc_end);
                    let n = added(before, data_end).len() as int;
                    assert(t.subrange(0, n) =~= added(before, data_end));
                    assert(t.subrange(n, t.len() as int) =~= added(data_end, pc_end));
                    assert(pixels_tail(address.0, t.subrange(n, t.len() as int), None));
                    lemma_error_fits_compose(e, before, data_end, pc_end);
                }
                return Err(e);
            },
        }
        let queried = self.send_message(Message::QueryState(address));
        proof {
            assert(self.exchanges@.subrange(0, pc_end.len() as int) =~= pc_end);
            lemma_added_compose(data_end, pc_end, self.exchanges@);
            lemma_added_compose(before, data_end, self.exchanges@);
            let t = added(before, self.exchanges@);
            let n = added(before, data_end).len() as int;
            let tail = added(data_end, self.exchanges@);
            assert(t.subrange(0, n) =~= added(before, data_end));
            assert(t.subrange(n, t.len() as int) =~= tail);
            assert(tail =~= seq![pc_end.last(), self.exchanges@.last()]);
            assert(t.last() == self.exchanges@.last());
        }
        let response = match queried {
            Ok(response) => response,
            Err(e) => {
                return Err(e);
            },
        };
        Ok(flip_style_of(address, &response))
    }

    /// Polls the sign until it reaches `target`, requesting `operation` whenever it is in
    /// `trigger`. A sign that flips pages itself ends the wait at once. There is no timeout of
    /// its own beyond a count of polls that cannot be reached in practice.
    fn switch_page(&mut self, target: State, trigger: State, operation: Operation) -> (r: Result<
        (),
        SignError,
    >)
        ensures
            final(self).spec_address() == old(self).spec_address(),
            final(self).spec_sign_type() == old(self).spec_sign_type(),
            extends(old(self).spec_exchanges(), final(self).spec_exchanges()),
            switch_run(old(self).spec_address().0, target, trigger, operation, added(old(self).spec_exchanges(), final(self).spec_exchanges()), r is Ok),
            r matches Err(e) ==> error_fits(e, added(old(self).spec_exchanges(), final(self).spec_exchanges())),
    {
        let ghost before = self.exchanges@;
        let address = self.address;
        let mut polls: u64 = 0;
        proof {
            assert(before.subrange(0, before.len() as int) =~= before);
            assert(added(before, before) =~= Seq::<ExchangeView>::empty());
        }
        while polls < u64::MAX
            invariant
                self.address == address,
                address == old(self).address,
                self.sign_type == old(self).sign_type,
                before == old(self).exchanges@,
                extends(before, self.exchanges@),
                polls_continuing(address.0, target, trigger, operation, added(before, self.exchanges@)),
                query_count(address.0, added(before, self.exchanges@)) == polls,
                added(before, self.exchanges@).len() >= polls,
            decreases u64::MAX - polls,
        {
            let ghost start = self.exchanges@;
            let queried = self.send_message(Message::QueryState(address));
            let ghost polled = self.exchanges@;
            proof {
                assert(polled.subrange(0, start.len() as int) =~= start);
                lemma_added_compose(before, start, polled);
                let t = added(before, polled);
                assert(t.drop_last() =~= added(before, start));
                assert(t.last() == polled.last());
                assert(query_count(address.0, t) == polls + 1);
            }
            let response = match queried {
                Ok(response) => response,
                Err(e) => {
                    return Err(e);
                },
            };
            match poll_step(address, target, trigger, &response) {
                PollStep::Finished => {
                    return Ok(());
                },
                PollStep::Request => {
                    let requested = self.request(operation);
                    proof {
                        assert(self.exchanges@.subrange(0, polled.len() as int) =~= polled);
                        lemma_added_compose(before, polled, self.exchanges@);
                        let t = added(before, self.exchanges@);
                        assert(t.drop_last() =~= added(before, polled));
                        assert(t.last() == self.exchanges@.last());
                        assert(t.subrange(0, t.len() - 2) =~= added(before, start));
                        assert(t[t.len() - 2] == polled.last());
                        assert(query_count(address.0, t) == polls + 1);
                    }
                    match requested {
                        Ok(()) => {},
                        Err(e) => {
                            return Err(e);
                        },
                    }
                },
                PollStep::Wait => {},
                PollStep::Unexpected => {
                    return Err(
                        SignError::UnexpectedResponse {
                            expected: describe_page_states(address.0),
                            actual: describe_reply(&response),
                        },
                    );
                },
            }
            polls += 1;
        }
        proof {
            let t = added(before, self.exchanges@);
            assert(t.len() >= 1);
        }
        Err(
            SignError::UnexpectedResponse {
                expected: describe_page_states(address.0),
                actual: describe_reply(&None),
            },
        )
    }

    /// Loads the next page into memory, waiting until the sign reports it loaded.
    pub fn load_next_page(&mut self) -> (r: Result<(), SignError>)
        ensures
            final(self).spec_address() == old(self).spec_address(),
            final(self).spec_sign_type() == old(self).spec_sign_type(),
            extends(old(self).spec_exchanges(), final(self).spec_exchanges()),
            switch_run(
                old(self).spec_address().0,
                State::PageLoaded,
                State::PageShown,
                Operation::LoadNextPage,
                added(old(self).spec_exchanges(), final(self).spec_exchanges()),
                r is Ok,
            ),
            r matches Err(e) ==> error_fits(e, added(old(self).spec_exchanges(), final(self).spec_exchanges())),
    {
        self.switch_page(State::PageLoaded, State::PageShown, Operation::LoadNextPage)
    }

    /// Shows the loaded page, waiting until the sign reports it shown.
    pub fn show_loaded_page(&mut self) -> (r: Result<(), SignError>)
        ensures
            final(self).spec_address() == old(self).spec_address(),
            final(self).spec_sign_type() == old(self).spec_sign_type(),
            extends(old(self).spec_exchanges(), final(self).spec_exchanges()),
            switch_run(
                old(self).spec_address().0,
                State::PageShown,
                State::PageLoaded,
                Operation::ShowLoadedPage,
                added(old(self).spec_exchanges(), final(self).spec_exchanges()),
                r is Ok,
            ),
            r matches Err(e) ==> error_fits(e, added(old(self).spec_exchanges(), final(self).spec_exchanges())),
    {
        self.switch_page(State::PageShown, State::PageLoaded, Operation::ShowLoadedPage)
    }

    /// Tells the sign to blank its display and shut down; no reply is expected.
    pub fn shut_down(&mut self) -> (r: Result<(), SignError>)
        ensures
            final(self).spec_address() == old(self).spec_address(),
            final(self).spec_sign_type() == old(self).spec_sign_type(),
            extends(old(self).spec_exchanges(), final(self).spec_exchanges()),
            ({
                let t = added(old(self).spec_exchanges(), final(self).spec_exchanges());
                &&& t.len() == 1
                &&& t[0].0 == MessageView::Goodbye(old(self).spec_address().0)
                &&& (r is Ok <==> t[0].1 == Ok::<Option<MessageView>, Seq<char>>(None))
            }),
            r matches Err(e) ==> error_fits(e, added(old(self).spec_exchanges(), final(self).spec_exchanges())),
    {
        let ghost before = self.exchanges@;
        let address = self.address;
        let r = self.send_message_expect_response(Message::Goodbye(address), &None);
        proof {
            assert(added(before, self.exchanges@) =~= seq![self.exchanges@.last()]);
        }
        r
    }
}

} // verus!
