use vstd::prelude::*;

use crate::frame::Address;
use crate::message::{ChunkCount, Message, MessageView, Offset, Operation, State};
use crate::page::{page_len, total_len, Page, PageFlipStyle, PageView};
use crate::sign_bus::{BusError, SignBus};
use crate::frame::bytes_equal;
use crate::sign_type::{sign_type_of_block, SignType};

verus! {

/// A bus populated with one or more [`VirtualSign`]s, which implement the sign side of the
/// protocol in software. Each message is offered to the signs in turn until one replies.
#[derive(Debug)]
pub struct VirtualSignBus {
    signs: Vec<VirtualSign>,
}

/// A software model of a single sign on a [`VirtualSignBus`].
#[derive(Debug)]
pub struct VirtualSign {
    address: Address,
    state: State,
    pages: Vec<Page>,
    pending_data: Vec<u8>,
    data_chunks: u16,
    width: u32,
    height: u32,
    sign_type: Option<SignType>,
    flip_style: PageFlipStyle,
}

/// The abstract state of a virtual sign.
pub struct VirtualSignView {
    pub address: u16,
    pub state: State,
    pub pages: Seq<PageView>,
    pub pending: Seq<u8>,
    pub chunks: u16,
    pub width: u32,
    pub height: u32,
    pub sign_type: Option<SignType>,
    pub flip_style: PageFlipStyle,
}

impl View for VirtualSign {
    type V = VirtualSignView;

    closed spec fn view(&self) -> VirtualSignView {
        VirtualSignView {
            address: self.address.0,
            state: self.state,
            pages: self.pages@.map_values(|p: Page| p@),
            pending: self.pending_data@,
            chunks: self.data_chunks,
            width: self.width,
            height: self.height,
            sign_type: self.sign_type,
            flip_style: self.flip_style,
        }
    }
}

/// The abstract content of an optional reply.
pub open spec fn reply_view(r: Option<Message>) -> Option<MessageView> {
    match r {
        Some(m) => Some(m@),
        None => None,
    }
}

/// The largest width a configuration block can describe: four bytes summed.
pub open spec fn dimensions_fit(v: VirtualSignView) -> bool {
    v.width <= 1020 && v.height <= 255
}

/// Buffered pixel data can become a page: there is none, the size is not known yet, or it
/// has exactly the length of a page of the configured size.
pub open spec fn flush_ok(v: VirtualSignView) -> bool {
    v.pending.len() == 0 || v.width == 0 || v.height == 0 || v.pending.len() == total_len(
        v.width,
        v.height,
    )
}

/// Turns the buffered pixel data into a page, when there is any and the size is known;
/// the buffer is emptied either way.
pub open spec fn flushed(v: VirtualSignView) -> VirtualSignView {
    if v.pending.len() == 0 {
        v
    } else if v.width > 0 && v.height > 0 {
        VirtualSignView {
            pages: v.pages.push((v.width, v.height, v.pending)),
            pending: Seq::empty(),
            ..v
        }
    } else {
        VirtualSignView { pending: Seq::empty(), ..v }
    }
}

/// The sign back in its initial state, keeping its address and flip style.
pub open spec fn blank(v: VirtualSignView) -> VirtualSignView {
    VirtualSignView {
        state: State::Unconfigured,
        pages: Seq::empty(),
        pending: Seq::empty(),
        chunks: 0,
        width: 0,
        height: 0,
        sign_type: None,
        ..v
    }
}

/// `Hello` or `QueryState`: report the state, completing a page load or show in progress.
pub open spec fn on_query(v: VirtualSignView) -> (VirtualSignView, Option<MessageView>) {
    let next = match v.state {
        State::PageLoadInProgress => State::PageLoaded,
        State::PageShowInProgress => State::PageShown,
        _ => v.state,
    };
    (VirtualSignView { state: next, ..v }, Some(MessageView::ReportState(v.address, v.state)))
}

/// Whether the sign accepts a request for pixel data in a state.
pub open spec fn accepts_pixels_in(s: State) -> bool {
    s == State::ConfigReceived || s == State::PixelsFailed || s == State::PageLoaded || s
        == State::PageLoadInProgress || s == State::PageShown || s == State::PageShowInProgress
}

/// `RequestOperation` addressed to this sign.
pub open spec fn on_request(v: VirtualSignView, op: Operation) -> (
    VirtualSignView,
    Option<MessageView>,
) {
    let ack = Some(MessageView::AckOperation(v.address, op));
    match op {
        Operation::ReceiveConfig => if v.state == State::Unconfigured || v.state
            == State::ConfigFailed {
            (VirtualSignView { state: State::ConfigInProgress, ..v }, ack)
        } else {
            (v, None)
        },
        Operation::ReceivePixels => if accepts_pixels_in(v.state) {
            (VirtualSignView { state: State::PixelsInProgress, pages: Seq::empty(), ..v }, ack)
        } else {
            (v, None)
        },
        Operation::ShowLoadedPage => if v.state == State::PageLoaded {
            (VirtualSignView { state: State::PageShowInProgress, ..v }, ack)
        } else {
            (v, None)
        },
        Operation::LoadNextPage => if v.state == State::PageShown {
            (VirtualSignView { state: State::PageLoadInProgress, ..v }, ack)
        } else {
            (v, None)
        },
        Operation::StartReset => (VirtualSignView { state: State::ReadyToReset, ..v }, ack),
        Operation::FinishReset => if v.state == State::ReadyToReset {
            (blank(v), ack)
        } else {
            (v, None)
        },
    }
}

/// Whether a chunk of data is a configuration block that the sign reads.
pub open spec fn is_config_chunk(v: VirtualSignView, offset: u16, d: Seq<u8>) -> bool {
    v.state == State::ConfigInProgress && offset == 0 && d.len() == 16 && (d[0] == 0x04 || d[0]
        == 0x08)
}

/// `SendData`: read a configuration block, recording the sign type only when the whole block
/// is that type's; or buffer pixel data.
pub open spec fn on_send_data(v: VirtualSignView, offset: u16, d: Seq<u8>) -> VirtualSignView {
    if is_config_chunk(v, offset, d) {
        let (w, h) = if d[0] == 0x04 {
            ((d[5] as int + d[6] as int + d[7] as int + d[8] as int) as u32, d[4] as u32)
        } else {
            (d[7] as u32, d[5] as u32)
        };
        VirtualSignView {
            width: w,
            height: h,
            sign_type: sign_type_of_block(d),
            chunks: (v.chunks + 1) as u16,
            ..v
        }
    } else if v.state == State::PixelsInProgress {
        let f = if offset == 0 {
            flushed(v)
        } else {
            v
        };
        VirtualSignView { pending: f.pending + d, chunks: (v.chunks + 1) as u16, ..f }
    } else {
        v
    }
}

/// `DataChunksSent`: finish receiving, successfully if the count matches.
pub open spec fn on_chunks_sent(v: VirtualSignView, count: u16) -> VirtualSignView {
    let next = if count == v.chunks {
        match v.state {
            State::ConfigInProgress => State::ConfigReceived,
            State::PixelsInProgress => State::PixelsReceived,
            _ => v.state,
        }
    } else {
        match v.state {
            State::ConfigInProgress => State::ConfigFailed,
            State::PixelsInProgress => State::PixelsFailed,
            _ => v.state,
        }
    };
    VirtualSignView { chunks: 0, ..flushed(VirtualSignView { state: next, ..v }) }
}

/// `PixelsComplete`: the received pixels become the loaded page, or, on a sign that flips
/// pages itself, the pages it shows.
pub open spec fn on_pixels_complete(v: VirtualSignView) -> VirtualSignView {
    if v.state == State::PixelsReceived {
        let next = match v.flip_style {
            PageFlipStyle::Manual => State::PageLoaded,
            PageFlipStyle::Automatic => State::ShowingPages,
        };
        VirtualSignView { state: next, ..v }
    } else {
        v
    }
}

/// What a virtual sign does with a message: its next state and its reply.
pub open spec fn sign_step(v: VirtualSignView, m: MessageView) -> (
    VirtualSignView,
    Option<MessageView>,
) {
    match m {
        MessageView::Hello(a) => if a == v.address {
            on_query(v)
        } else {
            (v, None)
        },
        MessageView::QueryState(a) => if a == v.address {
            on_query(v)
        } else {
            (v, None)
        },
        MessageView::RequestOperation(a, op) => if a == v.address {
            on_request(v, op)
        } else {
            (v, None)
        },
        MessageView::SendData(o, d) => (on_send_data(v, o, d), None),
        MessageView::DataChunksSent(c) => (on_chunks_sent(v, c), None),
        MessageView::PixelsComplete(a) => if a == v.address {
            (on_pixels_complete(v), None)
        } else {
            (v, None)
        },
        MessageView::Goodbye(a) => if a == v.address {
            (blank(v), None)
        } else {
            (v, None)
        },
        _ => (v, None),
    }
}

/// Whether a sign can take a message: its chunk counter does not overflow, and any pixel
/// data it turns into a page has the length of a page.
pub open spec fn can_process(v: VirtualSignView, m: MessageView) -> bool {
    match m {
        MessageView::SendData(o, d) => if is_config_chunk(v, o, d) {
            v.chunks < 0xFFFF
        } else if v.state == State::PixelsInProgress {
            v.chunks < 0xFFFF && (o == 0 ==> flush_ok(v))
        } else {
            true
        },
        MessageView::DataChunksSent(_) => flush_ok(v),
        _ => true,
    }
}

/// The address a message is sent to, if it is addressed to one sign.
pub open spec fn addressee(m: MessageView) -> Option<u16> {
    match m {
        MessageView::Hello(a) => Some(a),
        MessageView::QueryState(a) => Some(a),
        MessageView::ReportState(a, _) => Some(a),
        MessageView::RequestOperation(a, _) => Some(a),
        MessageView::AckOperation(a, _) => Some(a),
        MessageView::PixelsComplete(a) => Some(a),
        MessageView::Goodbye(a) => Some(a),
        _ => None,
    }
}

/// A virtual sign ignores every message addressed to another sign: its state is unchanged and
/// it does not reply. Only unaddressed data messages can change it without naming it.
pub proof fn lemma_accept_rule(v: VirtualSignView, m: MessageView)
    ensures
        addressee(m) is Some && addressee(m) != Some(v.address) ==> sign_step(v, m) == (v, None::<
            MessageView,
        >),
        sign_step(v, m).1 is Some ==> addressee(m) == Some(v.address),
{
}

/// What a bus of virtual signs does with a message: each sign in turn handles it until one
/// replies; that reply is the bus's reply.
pub open spec fn bus_step(signs: Seq<VirtualSignView>, m: MessageView) -> (
    Seq<VirtualSignView>,
    Option<MessageView>,
)
    decreases signs.len(),
{
    if signs.len() == 0 {
        (signs, None)
    } else {
        let (first, reply) = sign_step(signs[0], m);
        if reply is Some {
            (signs.update(0, first), reply)
        } else {
            let (rest, r) = bus_step(signs.drop_first(), m);
            (seq![first] + rest, r)
        }
    }
}

impl View for VirtualSignBus {
    type V = Seq<VirtualSignView>;

    closed spec fn view(&self) -> Seq<VirtualSignView> {
        self.signs@.map_values(|s: VirtualSign| s@)
    }
}

impl VirtualSignBus {
    /// Internal consistency: every sign is consistent.
    pub closed spec fn wf(&self) -> bool {
        forall|i: int| 0 <= i < self.signs@.len() ==> (#[trigger] self.signs@[i]).wf()
    }

    /// Whether every sign on the bus can take a message.
    pub open spec fn all_can_process(&self, m: MessageView) -> bool {
        forall|i: int| 0 <= i < self@.len() ==> can_process(#[trigger] self@[i], m)
    }

    /// Creates a bus holding the given signs, in order.
    pub fn new(signs: Vec<VirtualSign>) -> (r: VirtualSignBus)
        requires
            forall|i: int| 0 <= i < signs@.len() ==> (#[trigger] signs@[i]).wf(),
        ensures
            r.wf(),
            r@ == signs@.map_values(|s: VirtualSign| s@),
    {
        VirtualSignBus { signs }
    }

    /// Returns the number of signs on the bus.
    pub fn len(&self) -> (r: usize)
        ensures
            r == self@.len(),
    {
        self.signs.len()
    }

    /// Returns the sign at a position, in the order given to `new`.
    pub fn sign(&self, index: usize) -> (r: &VirtualSign)
        requires
            index < self@.len(),
        ensures
            r@ == self@[index as int],
    {
        &self.signs[index]
    }

    /// Whether every sign on the bus can take a message.
    pub fn can_process(&self, message: &Message) -> (r: bool)
        ensures
            r == self.all_can_process(message@),
    {
        let mut i: usize = 0;
        while i < self.signs.len()
            invariant
                i <= self.signs@.len(),
                forall|j: int| 0 <= j < i ==> can_process(#[trigger] self@[j], message@),
                self@.len() == self.signs@.len(),
            decreases self.signs.len() - i,
        {
            if !self.signs[i].can_process(message) {
                assert(self@[i as int] == self.signs@[i as int]@);
                return false;
            }
            i += 1;
        }
        true
    }

    /// Offers a message to each sign in turn and returns the first reply.
    pub fn process_message(&mut self, message: &Message) -> (r: Option<Message>)
        requires
            old(self).wf(),
            old(self).all_can_process(message@),
        ensures
            final(self).wf(),
            (final(self)@, reply_view(r)) == bus_step(old(self)@, message@),
    {
        let ghost orig = self@;
        let ghost m = message@;
        let n = self.signs.len();
        let mut i: usize = 0;
        proof {
            assert(self@.subrange(0, 0) + bus_step(orig.subrange(0, n as int), m).0 =~= bus_step(
                orig,
                m,
            ).0) by {
                assert(orig.subrange(0, n as int) =~= orig);
            }
            assert(orig.subrange(0, n as int) =~= orig);
        }
        while i < n
            invariant
                n == self.signs@.len(),
                n == orig.len(),
                orig == old(self)@,
                i <= n,
                self.wf(),
                forall|j: int| i <= j < n ==> #[trigger] self@[j] == orig[j],
                forall|j: int| 0 <= j < n ==> can_process(#[trigger] orig[j], m),
                m == message@,
                bus_step(orig, m) == (
                    self@.subrange(0, i as int) + bus_step(orig.subrange(i as int, n as int), m).0,
                    bus_step(orig.subrange(i as int, n as int), m).1,
                ),
            decreases n - i,
        {
            let ghost before = self@;
            let ghost tail = orig.subrange(i as int, n as int);
            assert(tail[0] == orig[i as int]);
            assert(self.signs@[i as int].wf());
            assert(self@[i as int] == self.signs@[i as int]@);
            let r = self.signs[i].process_message(message);
            proof {
                assert(self@ =~= before.update(i as int, self@[i as int]));
            }
            proof {
                assert(sign_step(tail[0], m) == (self@[i as int], reply_view(r)));
                assert(tail.len() > 0);
            }
            if r.is_some() {
                proof {
                    assert(bus_step(tail, m) == (tail.update(0, self@[i as int]), reply_view(r)));
                    assert(self@ =~= before.subrange(0, i as int) + tail.update(0, self@[i as int]));
                }
                return r;
            }
            proof {
                assert(tail.drop_first() =~= orig.subrange(i + 1, n as int));
                assert(self@.subrange(0, i + 1) =~= before.subrange(0, i as int).push(self@[i as int]));
            }
            i += 1;
        }
        proof {
            assert(orig.subrange(n as int, n as int) =~= Seq::<VirtualSignView>::empty());
            assert(self@.subrange(0, n as int) =~= self@);
        }
        None
    }
}

impl VirtualSignBus {
    /// Whether every sign on the bus is internally consistent.
    fn is_consistent(&self) -> (r: bool)
        ensures
            r == self.wf(),
    {
        let mut i: usize = 0;
        while i < self.signs.len()
            invariant
                i <= self.signs@.len(),
                forall|j: int| 0 <= j < i ==> (#[trigger] self.signs@[j]).wf(),
            decreases self.signs.len() - i,
        {
            if !self.signs[i].is_consistent() {
                return false;
            }
            i += 1;
        }
        true
    }
}

impl SignBus for VirtualSignBus {
    /// Offers the message to each sign in turn and returns the first reply. Fails only when a
    /// sign could not take the message: its chunk counter would overflow, or buffered pixel
    /// data would not form a page of its size.
    fn process_message(&mut self, message: Message) -> Result<Option<Message>, BusError> {
        if self.is_consistent() && self.can_process(&message) {
            Ok(VirtualSignBus::process_message(self, &message))
        } else {
            Err(BusError::new("a virtual sign cannot take this message".to_owned()))
        }
    }
}

/// Appends bytes to a vector.
fn append_bytes(v: &mut Vec<u8>, data: &[u8])
    ensures
        final(v)@ == old(v)@ + data@,
{
    let ghost before = v@;
    let mut i: usize = 0;
    while i < data.len()
        invariant
            i <= data@.len(),
            v@ == before + data@.subrange(0, i as int),
        decreases data.len() - i,
    {
        v.push(data[i]);
        i += 1;
        proof {
            assert(data@.subrange(0, i as int) =~= data@.subrange(0, i - 1).push(data@[i - 1]));
        }
    }
    proof {
        assert(data@.subrange(0, i as int) =~= data@);
    }
}

impl VirtualSign {
    /// Internal consistency: the size fits what a configuration block can describe.
    pub closed spec fn wf(&self) -> bool {
        dimensions_fit(self@)
    }

    fn is_consistent(&self) -> (r: bool)
        ensures
            r == self.wf(),
    {
        self.width <= 1020 && self.height <= 255
    }

    /// Creates an unconfigured virtual sign with the given address and flip style.
    pub fn new(address: Address, flip_style: PageFlipStyle) -> (r: VirtualSign)
        ensures
            r.wf(),
            r@ == blank(r@),
            r@.address == address.0,
            r@.flip_style == flip_style,
    {
        let r = VirtualSign {
            address,
            state: State::Unconfigured,
            pages: Vec::new(),
            pending_data: Vec::new(),
            data_chunks: 0,
            width: 0,
            height: 0,
            sign_type: None,
            flip_style,
        };
        proof {
            assert(r@.pages =~= Seq::<PageView>::empty());
            assert(r@.pending =~= Seq::<u8>::empty());
        }
        r
    }

    /// Returns the sign's address.
    pub fn address(&self) -> (r: Address)
        ensures
            r.0 == self@.address,
    {
        self.address
    }

    /// Returns the sign's current state.
    pub fn state(&self) -> (r: State)
        ensures
            r == self@.state,
    {
        self.state
    }

    /// Returns the sign type matching the received configuration, if it was a known one.
    pub fn sign_type(&self) -> (r: Option<SignType>)
        ensures
            r == self@.sign_type,
    {
        self.sign_type
    }

    /// Returns the width read from the configuration, or 0 before configuration.
    pub fn width(&self) -> (r: u32)
        ensures
            r == self@.width,
    {
        self.width
    }

    /// Returns the height read from the configuration, or 0 before configuration.
    pub fn height(&self) -> (r: u32)
        ensures
            r == self@.height,
    {
        self.height
    }

    /// Returns whether the sign or the controller flips pages.
    pub fn flip_style(&self) -> (r: PageFlipStyle)
        ensures
            r == self@.flip_style,
    {
        self.flip_style
    }

    /// Returns the pages received so far.
    pub fn pages(&self) -> (r: &[Page])
        ensures
            r@.map_values(|p: Page| p@) == self@.pages,
    {
        self.pages.as_slice()
    }

    /// Whether this sign can take a message without its chunk counter overflowing or
    /// buffered pixel data failing to form a page.
    pub fn can_process(&self, message: &Message) -> (r: bool)
        ensures
            r == can_process(self@, message@),
    {
        match message {
            Message::SendData(offset, data) => {
                let d = data.get();
                let config = self.state == State::ConfigInProgress && offset.0 == 0 && d.len()
                    == 16 && (d[0] == 0x04 || d[0] == 0x08);
                if config {
                    self.data_chunks < 0xFFFF
                } else if self.state == State::PixelsInProgress {
                    self.data_chunks < 0xFFFF && (offset.0 != 0 || self.flush_ok())
                } else {
                    true
                }
            },
            Message::DataChunksSent(_) => self.flush_ok(),
            _ => true,
        }
    }

    fn flush_ok(&self) -> (r: bool)
        ensures
            r == flush_ok(self@),
    {
        if self.pending_data.len() == 0 || self.width == 0 || self.height == 0 {
            true
        } else {
            self.pending_data.len() as u64 == page_len(self.width, self.height)
        }
    }

    /// Handles a bus message, updating the sign's state, and returns its reply, if any.
    pub fn process_message(&mut self, message: &Message) -> (r: Option<Message>)
        requires
            old(self).wf(),
            can_process(old(self)@, message@),
        ensures
            final(self).wf(),
            (final(self)@, reply_view(r)) == sign_step(old(self)@, message@),
    {
        match message {
            Message::Hello(a) => if a.0 == self.address.0 {
                self.query_state()
            } else {
                None
            },
            Message::QueryState(a) => if a.0 == self.address.0 {
                self.query_state()
            } else {
                None
            },
            Message::RequestOperation(a, op) => if a.0 == self.address.0 {
                match op {
                    Operation::ReceiveConfig => self.receive_config(),
                    Operation::ReceivePixels => self.receive_pixels(),
                    Operation::ShowLoadedPage => self.show_loaded_page(),
                    Operation::LoadNextPage => self.load_next_page(),
                    Operation::StartReset => self.start_reset(),
                    Operation::FinishReset => self.finish_reset(),
                }
            } else {
                None
            },
            Message::SendData(offset, data) => self.send_data(*offset, data.get()),
            Message::DataChunksSent(chunks) => self.data_chunks_sent(*chunks),
            Message::PixelsComplete(a) => if a.0 == self.address.0 {
                self.pixels_complete()
            } else {
                None
            },
            Message::Goodbye(a) => if a.0 == self.address.0 {
                self.goodbye()
            } else {
                None
            },
            _ => None,
        }
    }

    /// Handles `Hello` and `QueryState`.
    fn query_state(&mut self) -> (r: Option<Message>)
        requires
            old(self).wf(),
        ensures
            final(self).wf(),
            (final(self)@, reply_view(r)) == on_query(old(self)@),
    {
        let state = self.state;
        match state {
            State::PageLoadInProgress => self.state = State::PageLoaded,
            State::PageShowInProgress => self.state = State::PageShown,
            _ => {},
        }
        Some(Message::ReportState(self.address, state))
    }

    /// Handles a request to receive the configuration.
    fn receive_config(&mut self) -> (r: Option<Message>)
        requires
            old(self).wf(),
        ensures
            final(self).wf(),
            (final(self)@, reply_view(r)) == on_request(old(self)@, Operation::ReceiveConfig),
    {
        match self.state {
            State::Unconfigured | State::ConfigFailed => {
                self.state = State::ConfigInProgress;
                Some(Message::AckOperation(self.address, Operation::ReceiveConfig))
            },
            _ => None,
        }
    }

    /// Handles `SendData`.
    fn send_data(&mut self, offset: Offset, data: &[u8]) -> (r: Option<Message>)
        requires
            old(self).wf(),
            can_process(old(self)@, MessageView::SendData(offset.0, data@)),
        ensures
            final(self).wf(),
            final(self)@ == on_send_data(old(self)@, offset.0, data@),
            r is None,
    {
        if self.state == State::ConfigInProgress && offset.0 == 0 && data.len() == 16 && (data[0]
            == 0x04 || data[0] == 0x08) {
            let (width, height): (u32, u32) = if data[0] == 0x04 {
                (data[5] as u32 + data[6] as u32 + data[7] as u32 + data[8] as u32, data[4] as u32)
            } else {
                (data[7] as u32, data[5] as u32)
            };
            self.sign_type =
            match SignType::from_bytes(data) {
                Ok(t) => {
                    let block = t.to_bytes();
                    if bytes_equal(block.as_slice(), data) {
                        Some(t)
                    } else {
                        None
                    }
                },
                Err(_) => None,
            };
            self.width = width;
            self.height = height;
            self.data_chunks = self.data_chunks + 1;
        } else if self.state == State::PixelsInProgress {
            if offset.0 == 0 {
                self.flush_pixels();
            }
            append_bytes(&mut self.pending_data, data);
            self.data_chunks = self.data_chunks + 1;
        }
        None
    }

    /// Handles `DataChunksSent`.
    fn data_chunks_sent(&mut self, chunks: ChunkCount) -> (r: Option<Message>)
        requires
            old(self).wf(),
            flush_ok(old(self)@),
        ensures
            final(self).wf(),
            final(self)@ == on_chunks_sent(old(self)@, chunks.0),
            r is None,
    {
        if self.data_chunks == chunks.0 {
            match self.state {
                State::ConfigInProgress => self.state = State::ConfigReceived,
                State::PixelsInProgress => self.state = State::PixelsReceived,
                _ => {},
            }
        } else {
            match self.state {
                State::ConfigInProgress => self.state = State::ConfigFailed,
                State::PixelsInProgress => self.state = State::PixelsFailed,
                _ => {},
            }
        }
        self.flush_pixels();
        self.data_chunks = 0;
        None
    }

    /// Handles a request to receive pixel data.
    fn receive_pixels(&mut self) -> (r: Option<Message>)
        requires
            old(self).wf(),
        ensures
            final(self).wf(),
            (final(self)@, reply_view(r)) == on_request(old(self)@, Operation::ReceivePixels),
    {
        match self.state {
            State::ConfigReceived
            | State::PixelsFailed
            | State::PageLoaded
            | State::PageLoadInProgress
            | State::PageShown
            | State::PageShowInProgress => {
                self.state = State::PixelsInProgress;
                self.pages = Vec::new();
                proof {
                    assert(self@.pages =~= Seq::<PageView>::empty());
                }
                Some(Message::AckOperation(self.address, Operation::ReceivePixels))
            },
            _ => None,
        }
    }

    /// Handles `PixelsComplete`.
    fn pixels_complete(&mut self) -> (r: Option<Message>)
        requires
            old(self).wf(),
        ensures
            final(self).wf(),
            final(self)@ == on_pixels_complete(old(self)@),
            r is None,
    {
        if self.state == State::PixelsReceived {
            self.state = match self.flip_style {
                PageFlipStyle::Manual => State::PageLoaded,
                PageFlipStyle::Automatic => State::ShowingPages,
            };
        }
        None
    }

    /// Handles a request to show the loaded page.
    fn show_loaded_page(&mut self) -> (r: Option<Message>)
        requires
            old(self).wf(),
        ensures
            final(self).wf(),
            (final(self)@, reply_view(r)) == on_request(old(self)@, Operation::ShowLoadedPage),
    {
        if self.state == State::PageLoaded {
            self.state = State::PageShowInProgress;
            Some(Message::AckOperation(self.address, Operation::ShowLoadedPage))
        } else {
            None
        }
    }

    /// Handles a request to load the next page.
    fn load_next_page(&mut self) -> (r: Option<Message>)
        requires
            old(self).wf(),
        ensures
            final(self).wf(),
            (final(self)@, reply_view(r)) == on_request(old(self)@, Operation::LoadNextPage),
    {
        if self.state == State::PageShown {
            self.state = State::PageLoadInProgress;
            Some(Message::AckOperation(self.address, Operation::LoadNextPage))
        } else {
            None
        }
    }

    /// Handles a request to start a reset.
    fn start_reset(&mut self) -> (r: Option<Message>)
        requires
            old(self).wf(),
        ensures
            final(self).wf(),
            (final(self)@, reply_view(r)) == on_request(old(self)@, Operation::StartReset),
    {
        self.state = State::ReadyToReset;
        Some(Message::AckOperation(self.address, Operation::StartReset))
    }

    /// Handles a request to finish a reset.
    fn finish_reset(&mut self) -> (r: Option<Message>)
        requires
            old(self).wf(),
        ensures
            final(self).wf(),
            (final(self)@, reply_view(r)) == on_request(old(self)@, Operation::FinishReset),
    {
        if self.state == State::ReadyToReset {
            self.reset();
            Some(Message::AckOperation(self.address, Operation::FinishReset))
        } else {
            None
        }
    }

    /// Handles `Goodbye`.
    fn goodbye(&mut self) -> (r: Option<Message>)
        requires
            old(self).wf(),
        ensures
            final(self).wf(),
            final(self)@ == blank(old(self)@),
            r is None,
    {
        self.reset();
        None
    }

    /// Turns the buffered pixel data into a page and appends it to the received pages.
    fn flush_pixels(&mut self)
        requires
            old(self).wf(),
            flush_ok(old(self)@),
        ensures
            final(self).wf(),
            final(self)@ == flushed(old(self)@),
    {
        if self.pending_data.len() > 0 {
            let mut data: Vec<u8> = Vec::new();
            core::mem::swap(&mut data, &mut self.pending_data);
            if self.width > 0 && self.height > 0 {
                match Page::from_bytes(self.width, self.height, data) {
                    Ok(page) => {
                        let ghost before = self.pages@;
                        self.pages.push(page);
                        proof {
                            assert(self.pages@.map_values(|p: Page| p@) =~= before.map_values(
                                |p: Page| p@,
                            ).push(page@));
                        }
                    },
                    Err(_) => {},
                }
            }
            proof {
                assert(self.pending_data@ =~= Seq::<u8>::empty());
            }
        }
    }

    /// Resets the sign back to its initial, unconfigured state.
    fn reset(&mut self)
        requires
            old(self).wf(),
        ensures
            final(self).wf(),
            final(self)@ == blank(old(self)@),
    {
        self.state = State::Unconfigured;
        self.pages = Vec::new();
        self.pending_data = Vec::new();
        self.data_chunks = 0;
        self.width = 0;
        self.height = 0;
        self.sign_type = None;
        proof {
            assert(self@.pages =~= Seq::<PageView>::empty());
            assert(self@.pending =~= Seq::<u8>::empty());
        }
    }
}

} // verus!
