use vstd::prelude::*;

use crate::frame::{hex_digit, hex_pair, Frame, FrameView};
use crate::message::{Message, MessageView, Operation, State};
use crate::page::{pixel_on, Page, PageView};

verus! {

/// The bytes of ASCII characters.
pub open spec fn ascii(cs: Seq<char>) -> Seq<u8> {
    Seq::new(cs.len(), |i: int| cs[i] as u8)
}

/// The characters of ASCII bytes.
pub open spec fn chars_of(bytes: Seq<u8>) -> Seq<char> {
    Seq::new(bytes.len(), |i: int| bytes[i] as char)
}

/// Whether every byte is ASCII.
pub open spec fn all_ascii(bytes: Seq<u8>) -> bool {
    forall|i: int| 0 <= i < bytes.len() ==> #[trigger] bytes[i] < 128
}

/// Four uppercase hex digits for a 16-bit value.
pub open spec fn hex_quad(v: u16) -> Seq<u8> {
    hex_pair((v / 256) as u8) + hex_pair((v % 256) as u8)
}

/// Each byte as two hex digits followed by a space.
pub open spec fn spaced_hex(bytes: Seq<u8>) -> Seq<u8>
    decreases bytes.len(),
{
    if bytes.len() == 0 {
        Seq::empty()
    } else {
        spaced_hex(bytes.drop_last()) + hex_pair(bytes.last()) + ascii(" "@)
    }
}

/// The text of a frame: message type, address and, if any, data, all in hex.
pub open spec fn frame_text(f: FrameView) -> Seq<u8> {
    ascii("Type "@) + hex_pair(f.1) + ascii(" | Addr "@) + hex_quad(f.0) + if f.2.len() > 0 {
        ascii(" | Data "@) + spaced_hex(f.2)
    } else {
        Seq::empty()
    }
}

/// The name of a state, as written in text.
pub open spec fn state_name(v: State) -> Seq<char> {
    match v {
        State::Unconfigured => "Unconfigured"@,
        State::ConfigInProgress => "ConfigInProgress"@,
        State::ConfigReceived => "ConfigReceived"@,
        State::ConfigFailed => "ConfigFailed"@,
        State::PixelsInProgress => "PixelsInProgress"@,
        State::PixelsReceived => "PixelsReceived"@,
        State::PixelsFailed => "PixelsFailed"@,
        State::PageLoaded => "PageLoaded"@,
        State::PageLoadInProgress => "PageLoadInProgress"@,
        State::PageShown => "PageShown"@,
        State::PageShowInProgress => "PageShowInProgress"@,
        State::ReadyToReset => "ReadyToReset"@,
        State::ShowingPages => "ShowingPages"@,
    }
}

/// The name of an operation, as written in text.
pub open spec fn operation_name(v: Operation) -> Seq<char> {
    match v {
        Operation::ReceiveConfig => "ReceiveConfig"@,
        Operation::ReceivePixels => "ReceivePixels"@,
        Operation::ShowLoadedPage => "ShowLoadedPage"@,
        Operation::LoadNextPage => "LoadNextPage"@,
        Operation::StartReset => "StartReset"@,
        Operation::FinishReset => "FinishReset"@,
    }
}

/// The text of a message, as seen on a bus: `<--` marks messages to a sign, `-->` replies.
pub open spec fn message_text(m: MessageView) -> Seq<u8> {
    match m {
        MessageView::SendData(o, d) => ascii("SendData [Offset "@) + hex_quad(o) + ascii("] "@)
            + spaced_hex(d),
        MessageView::DataChunksSent(c) => ascii("DataChunksSent ["@) + hex_quad(c) + ascii("]"@),
        MessageView::Hello(a) => addr_text(a) + ascii(" <-- Hello"@),
        MessageView::QueryState(a) => addr_text(a) + ascii(" <-- QueryState"@),
        MessageView::ReportState(a, s) => addr_text(a) + ascii(" --> ReportState ["@) + ascii(
            state_name(s),
        ) + ascii("]"@),
        MessageView::RequestOperation(a, op) => addr_text(a) + ascii(" <-- RequestOperation ["@)
            + ascii(operation_name(op)) + ascii("]"@),
        MessageView::AckOperation(a, op) => addr_text(a) + ascii(" --> AckOperation ["@) + ascii(
            operation_name(op),
        ) + ascii("]"@),
        MessageView::PixelsComplete(a) => addr_text(a) + ascii(" <-- PixelsComplete"@),
        MessageView::Goodbye(a) => addr_text(a) + ascii(" <-- Goodbye"@),
        MessageView::Unknown(f) => ascii("Unknown "@) + frame_text(f),
    }
}

/// The address prefix of a message's text.
pub open spec fn addr_text(a: u16) -> Seq<u8> {
    ascii("[Addr "@) + hex_quad(a) + ascii("]"@)
}

/// The border line of a page's text: `+`, a `-` per column, `+`.
pub open spec fn border_text(width: u32) -> Seq<u8> {
    ascii("+"@) + Seq::new(width as nat, |i: int| '-' as u8) + ascii("+"@)
}

/// One row of a page's text: `@` for a pixel that is on, a space for one that is off.
pub open spec fn row_text(p: PageView, y: u32) -> Seq<u8> {
    ascii("|"@) + Seq::new(
        p.0 as nat,
        |x: int|
            if pixel_on(p, x as u32, y) {
                '@' as u8
            } else {
                ' ' as u8
            },
    ) + ascii("|"@) + ascii("\n"@)
}

/// The first `n` rows of a page's text.
pub open spec fn rows_text(p: PageView, n: nat) -> Seq<u8>
    decreases n,
{
    if n == 0 {
        Seq::empty()
    } else {
        rows_text(p, (n - 1) as nat) + row_text(p, (n - 1) as u32)
    }
}

/// A page drawn as ASCII art inside a border, one character per pixel.
pub open spec fn page_text(p: PageView) -> Seq<u8> {
    border_text(p.0) + ascii("\n"@) + rows_text(p, p.1 as nat) + border_text(p.0)
}

fn state_str(v: State) -> (r: &'static str)
    ensures
        r@ == state_name(v),
        vstd::string::is_ascii(r),
{
    match v {
        State::Unconfigured => {
            proof {
                reveal_strlit("Unconfigured");
            }
            "Unconfigured"
        },
        State::ConfigInProgress => {
            proof {
                reveal_strlit("ConfigInProgress");
            }
            "ConfigInProgress"
        },
        State::ConfigReceived => {
            proof {
                reveal_strlit("ConfigReceived");
            }
            "ConfigReceived"
        },
        State::ConfigFailed => {
            proof {
                reveal_strlit("ConfigFailed");
            }
            "ConfigFailed"
        },
        State::PixelsInProgress => {
            proof {
                reveal_strlit("PixelsInProgress");
            }
            "PixelsInProgress"
        },
        State::PixelsReceived => {
            proof {
                reveal_strlit("PixelsReceived");
            }
            "PixelsReceived"
        },
        State::PixelsFailed => {
            proof {
                reveal_strlit("PixelsFailed");
            }
            "PixelsFailed"
        },
        State::PageLoaded => {
            proof {
                reveal_strlit("PageLoaded");
            }
            "PageLoaded"
        },
        State::PageLoadInProgress => {
            proof {
                reveal_strlit("PageLoadInProgress");
            }
            "PageLoadInProgress"
        },
        State::PageShown => {
            proof {
                reveal_strlit("PageShown");
            }
            "PageShown"
        },
        State::PageShowInProgress => {
            proof {
                reveal_strlit("PageShowInProgress");
            }
            "PageShowInProgress"
        },
        State::ReadyToReset => {
            proof {
                reveal_strlit("ReadyToReset");
            }
            "ReadyToReset"
        },
        State::ShowingPages => {
            proof {
                reveal_strlit("ShowingPages");
            }
            "ShowingPages"
        },
    }
}

fn operation_str(v: Operation) -> (r: &'static str)
    ensures
        r@ == operation_name(v),
        vstd::string::is_ascii(r),
{
    match v {
        Operation::ReceiveConfig => {
            proof {
                reveal_strlit("ReceiveConfig");
            }
            "ReceiveConfig"
        },
        Operation::ReceivePixels => {
            proof {
                reveal_strlit("ReceivePixels");
            }
            "ReceivePixels"
        },
        Operation::ShowLoadedPage => {
            proof {
                reveal_strlit("ShowLoadedPage");
            }
            "ShowLoadedPage"
        },
        Operation::LoadNextPage => {
            proof {
                reveal_strlit("LoadNextPage");
            }
            "LoadNextPage"
        },
        Operation::StartReset => {
            proof {
                reveal_strlit("StartReset");
            }
            "StartReset"
        },
        Operation::FinishReset => {
            proof {
                reveal_strlit("FinishReset");
            }
            "FinishReset"
        },
    }
}

proof fn lemma_ascii_all_ascii(cs: Seq<char>)
    requires
        vstd::utf8::is_ascii_chars(cs),
    ensures
        all_ascii(ascii(cs)),
{
    assert forall|i: int| 0 <= i < ascii(cs).len() implies #[trigger] ascii(cs)[i] < 128 by {
        assert(cs[i] < 128 as char);
    }
}

/// Appends the bytes of an ASCII string.
fn push_str(out: &mut Vec<u8>, s: &str)
    requires
        vstd::string::is_ascii(s),
        all_ascii(old(out)@),
    ensures
        final(out)@ == old(out)@ + ascii(s@),
        all_ascii(final(out)@),
{
    proof {
        vstd::string::is_ascii_spec_bytes(s);
        lemma_ascii_all_ascii(s@);
    }
    let bytes = s.as_bytes();
    let ghost before = out@;
    let mut i: usize = 0;
    while i < bytes.len()
        invariant
            i <= bytes@.len(),
            bytes@ == ascii(s@),
            all_ascii(ascii(s@)),
            all_ascii(before),
            out@ == before + bytes@.subrange(0, i as int),
        decreases bytes.len() - i,
    {
        out.push(bytes[i]);
        i += 1;
        proof {
            assert(bytes@.subrange(0, i as int) =~= bytes@.subrange(0, i - 1).push(bytes@[i - 1]));
        }
    }
    proof {
        assert(bytes@.subrange(0, i as int) =~= bytes@);
        assert(all_ascii(out@)) by {
            assert forall|k: int| 0 <= k < out@.len() implies #[trigger] out@[k] < 128 by {
                if k >= before.len() {
                    assert(out@[k] == bytes@[k - before.len()]);
                }
            }
        }
    }
}

/// Appends one ASCII byte.
fn push_byte(out: &mut Vec<u8>, b: u8)
    requires
        b < 128,
        all_ascii(old(out)@),
    ensures
        final(out)@ == old(out)@.push(b),
        all_ascii(final(out)@),
{
    out.push(b);
    proof {
        assert forall|k: int| 0 <= k < out@.len() implies #[trigger] out@[k] < 128 by {
            if k < out@.len() - 1 {
                assert(out@[k] == old(out)@[k]);
            }
        }
    }
}

/// Appends two uppercase hex digits.
fn push_hex_pair(out: &mut Vec<u8>, b: u8)
    requires
        all_ascii(old(out)@),
    ensures
        final(out)@ == old(out)@ + hex_pair(b),
        all_ascii(final(out)@),
{
    push_byte(out, hex_digit(b / 16));
    push_byte(out, hex_digit(b % 16));
    proof {
        assert(out@ =~= old(out)@ + hex_pair(b));
    }
}

/// Appends four uppercase hex digits.
fn push_hex_quad(out: &mut Vec<u8>, v: u16)
    requires
        all_ascii(old(out)@),
    ensures
        final(out)@ == old(out)@ + hex_quad(v),
        all_ascii(final(out)@),
{
    push_hex_pair(out, (v / 256) as u8);
    push_hex_pair(out, (v % 256) as u8);
    proof {
        assert(out@ =~= old(out)@ + hex_quad(v));
    }
}

/// Appends each byte as two hex digits and a space.
fn push_spaced_hex(out: &mut Vec<u8>, bytes: &[u8])
    requires
        all_ascii(old(out)@),
    ensures
        final(out)@ == old(out)@ + spaced_hex(bytes@),
        all_ascii(final(out)@),
{
    let ghost before = out@;
    let mut i: usize = 0;
    proof {
        assert(spaced_hex(bytes@.subrange(0, 0)) =~= Seq::<u8>::empty());
        assert(out@ =~= before + spaced_hex(bytes@.subrange(0, 0)));
    }
    while i < bytes.len()
        invariant
            i <= bytes@.len(),
            all_ascii(out@),
            out@ == before + spaced_hex(bytes@.subrange(0, i as int)),
        decreases bytes.len() - i,
    {
        push_hex_pair(out, bytes[i]);
        proof {
            reveal_strlit(" ");
        }
        push_str(out, " ");
        i += 1;
        proof {
            let s = bytes@.subrange(0, i as int);
            assert(s.drop_last() =~= bytes@.subrange(0, i - 1));
            assert(out@ =~= before + spaced_hex(s));
        }
    }
    proof {
        assert(bytes@.subrange(0, i as int) =~= bytes@);
    }
}

/// Relies on `String::from_utf8`: ASCII bytes form valid UTF-8, one character per byte.
#[verifier::external_body]
fn ascii_string(bytes: Vec<u8>) -> (r: String)
    requires
        all_ascii(bytes@),
    ensures
        r@ == chars_of(bytes@),
{
    String::from_utf8(bytes).unwrap_or_default()
}

/// Appends the text of a frame.
fn push_frame_text(out: &mut Vec<u8>, frame: &Frame)
    requires
        all_ascii(old(out)@),
    ensures
        final(out)@ == old(out)@ + frame_text(frame@),
        all_ascii(final(out)@),
{
    proof {
        reveal_strlit("Type ");
        reveal_strlit(" | Addr ");
        reveal_strlit(" | Data ");
    }
    let ghost before = out@;
    push_str(out, "Type ");
    push_hex_pair(out, frame.message_type().0);
    push_str(out, " | Addr ");
    push_hex_quad(out, frame.address().0);
    let data = frame.data();
    if data.len() > 0 {
        push_str(out, " | Data ");
        push_spaced_hex(out, data);
    }
    proof {
        assert(out@ =~= before + frame_text(frame@));
    }
}

/// Appends the address prefix of a message's text.
fn push_addr_text(out: &mut Vec<u8>, a: u16)
    requires
        all_ascii(old(out)@),
    ensures
        final(out)@ == old(out)@ + addr_text(a),
        all_ascii(final(out)@),
{
    proof {
        reveal_strlit("[Addr ");
        reveal_strlit("]");
    }
    push_str(out, "[Addr ");
    push_hex_quad(out, a);
    push_str(out, "]");
    proof {
        assert(out@ =~= old(out)@ + addr_text(a));
    }
}

impl Frame {
    /// The frame in human-readable form, all numbers in hex, e.g. `Type 02 | Addr 007F | Data FF `.
    pub fn describe(&self) -> (r: String)
        ensures
            r@ == chars_of(frame_text(self@)),
    {
        let mut out: Vec<u8> = Vec::new();
        push_frame_text(&mut out, self);
        proof {
            assert(out@ =~= frame_text(self@));
        }
        ascii_string(out)
    }
}

impl Message {
    /// The message in human-readable form, as seen on a bus.
    pub fn describe(&self) -> (r: String)
        ensures
            r@ == chars_of(message_text(self@)),
    {
        let mut out: Vec<u8> = Vec::new();
        proof {
            reveal_strlit("SendData [Offset ");
            reveal_strlit("] ");
            reveal_strlit("DataChunksSent [");
            reveal_strlit("]");
            reveal_strlit(" <-- Hello");
            reveal_strlit(" <-- QueryState");
            reveal_strlit(" --> ReportState [");
            reveal_strlit(" <-- RequestOperation [");
            reveal_strlit(" --> AckOperation [");
            reveal_strlit(" <-- PixelsComplete");
            reveal_strlit(" <-- Goodbye");
            reveal_strlit("Unknown ");
        }
        match self {
            Message::SendData(o, d) => {
                push_str(&mut out, "SendData [Offset ");
                push_hex_quad(&mut out, o.0);
                push_str(&mut out, "] ");
                push_spaced_hex(&mut out, d.get());
            },
            Message::DataChunksSent(c) => {
                push_str(&mut out, "DataChunksSent [");
                push_hex_quad(&mut out, c.0);
                push_str(&mut out, "]");
            },
            Message::Hello(a) => {
                push_addr_text(&mut out, a.0);
                push_str(&mut out, " <-- Hello");
            },
            Message::QueryState(a) => {
                push_addr_text(&mut out, a.0);
                push_str(&mut out, " <-- QueryState");
            },
            Message::ReportState(a, s) => {
                push_addr_text(&mut out, a.0);
                push_str(&mut out, " --> ReportState [");
                push_str(&mut out, state_str(*s));
                push_str(&mut out, "]");
            },
            Message::RequestOperation(a, op) => {
                push_addr_text(&mut out, a.0);
                push_str(&mut out, " <-- RequestOperation [");
                push_str(&mut out, operation_str(*op));
                push_str(&mut out, "]");
            },
            Message::AckOperation(a, op) => {
                push_addr_text(&mut out, a.0);
                push_str(&mut out, " --> AckOperation [");
                push_str(&mut out, operation_str(*op));
                push_str(&mut out, "]");
            },
            Message::PixelsComplete(a) => {
                push_addr_text(&mut out, a.0);
                push_str(&mut out, " <-- PixelsComplete");
            },
            Message::Goodbye(a) => {
                push_addr_text(&mut out, a.0);
                push_str(&mut out, " <-- Goodbye");
            },
            Message::Unknown(f) => {
                push_str(&mut out, "Unknown ");
                push_frame_text(&mut out, f);
            },
        }
        proof {
            assert(out@ =~= message_text(self@));
        }
        ascii_string(out)
    }
}

/// The text of an optional reply: the message's text, or `None`.
pub open spec fn reply_text(r: Option<MessageView>) -> Seq<u8> {
    match r {
        Some(m) => message_text(m),
        None => ascii("None"@),
    }
}

/// Renders an optional reply as text.
pub fn describe_reply(reply: &Option<Message>) -> (r: String)
    ensures
        r@ == chars_of(reply_text(crate::virtual_sign_bus::reply_view(*reply))),
{
    match reply {
        Some(m) => m.describe(),
        None => {
            proof {
                reveal_strlit("None");
                vstd::string::is_ascii_spec_bytes("None");
                assert(chars_of(ascii("None"@)) =~= "None"@);
            }
            "None".to_owned()
        },
    }
}

/// The text describing the replies expected while switching pages.
pub open spec fn page_states_text(address: u16) -> Seq<u8> {
    addr_text(address) + ascii(" --> ReportState [Page*]"@)
}

/// Renders the replies expected while switching pages as text.
pub fn describe_page_states(address: u16) -> (r: String)
    ensures
        r@ == chars_of(page_states_text(address)),
{
    let mut out: Vec<u8> = Vec::new();
    push_addr_text(&mut out, address);
    proof {
        reveal_strlit(" --> ReportState [Page*]");
    }
    push_str(&mut out, " --> ReportState [Page*]");
    proof {
        assert(out@ =~= page_states_text(address));
    }
    ascii_string(out)
}

/// Appends the border line of a page's text.
fn push_border(out: &mut Vec<u8>, width: u32)
    requires
        all_ascii(old(out)@),
    ensures
        final(out)@ == old(out)@ + border_text(width),
        all_ascii(final(out)@),
{
    proof {
        reveal_strlit("+");
    }
    let ghost before = out@;
    push_str(out, "+");
    let ghost start = out@;
    let mut x: u32 = 0;
    while x < width
        invariant
            x <= width,
            all_ascii(out@),
            out@ == start + Seq::new(x as nat, |i: int| '-' as u8),
        decreases width - x,
    {
        push_byte(out, '-' as u8);
        x += 1;
        proof {
            assert(out@ =~= start + Seq::new(x as nat, |i: int| '-' as u8));
        }
    }
    push_str(out, "+");
    proof {
        assert(out@ =~= before + border_text(width));
    }
}

impl Page {
    /// The page drawn as ASCII art inside a border, one character per pixel (`@` on, space
    /// off), rows separated by newlines.
    pub fn describe(&self) -> (r: String)
        ensures
            r@ == chars_of(page_text(self@)),
    {
        proof {
            reveal_strlit("\n");
            reveal_strlit("|");
        }
        let width = self.width();
        let height = self.height();
        let mut out: Vec<u8> = Vec::new();
        push_border(&mut out, width);
        push_str(&mut out, "\n");
        let ghost head = out@;
        let mut y: u32 = 0;
        while y < height
            invariant
                y <= height,
                width == self@.0,
                height == self@.1,
                all_ascii(out@),
                out@ == head + rows_text(self@, y as nat),
            decreases height - y,
        {
            let ghost row_start = out@;
            proof {
                reveal_strlit("\n");
                reveal_strlit("|");
            }
            push_str(&mut out, "|");
            let ghost cells_start = out@;
            let mut x: u32 = 0;
            while x < width
                invariant
                    x <= width,
                    y < height,
                    width == self@.0,
                    height == self@.1,
                    all_ascii(out@),
                    out@ == cells_start + Seq::new(
                        x as nat,
                        |i: int|
                            if pixel_on(self@, i as u32, y) {
                                '@' as u8
                            } else {
                                ' ' as u8
                            },
                    ),
                decreases width - x,
            {
                let on = self.get_pixel(x, y);
                push_byte(&mut out, if on { '@' as u8 } else { ' ' as u8 });
                x += 1;
                proof {
                    assert(out@ =~= cells_start + Seq::new(
                        x as nat,
                        |i: int|
                            if pixel_on(self@, i as u32, y) {
                                '@' as u8
                            } else {
                                ' ' as u8
                            },
                    ));
                }
            }
            push_str(&mut out, "|");
            push_str(&mut out, "\n");
            proof {
                assert(out@ =~= row_start + row_text(self@, y));
            }
            y += 1;
            proof {
                assert(out@ =~= head + rows_text(self@, y as nat));
            }
        }
        push_border(&mut out, width);
        proof {
            assert(out@ =~= page_text(self@));
        }
        ascii_string(out)
    }
}

} // verus!
