use vstd::prelude::*;

verus! {

/// Errors related to reading and writing [`Frame`]s of data.
#[derive(Debug, Clone, PartialEq, Eq)]
#[non_exhaustive]
#[allow(inconsistent_fields)]
pub enum FrameError {
    /// [`Data`] length exceeded the maximum of 255 bytes.
    DataTooLong { max: u8, actual: usize },
    /// Failed reading or writing a frame of data; holds the transport's description.
    Io { description: String },
    /// The bytes did not have the shape of an Intel HEX frame.
    InvalidFrame { data: Vec<u8> },
    /// The number of data bytes did not match the declared length.
    FrameDataMismatch { data: Vec<u8>, expected: usize, actual: usize },
    /// The declared checksum did not match the computed one.
    BadChecksum { data: Vec<u8>, expected: u8, actual: u8 },
}

/// A frame's message type.
#[derive(Debug, Copy, Clone, PartialEq, Eq, Hash, Structural)]
pub struct MsgType(pub u8);

/// The address of a sign on the bus.
#[derive(Debug, Copy, Clone, PartialEq, Eq, Hash, Structural)]
pub struct Address(pub u16);

/// Data carried by a [`Frame`]: at most 255 bytes, since its length travels as one byte.
#[derive(Debug, PartialEq, Eq, Hash)]
pub struct Data(Vec<u8>);

/// The largest number of bytes a [`Data`] can hold.
pub const MAX_DATA_LEN: usize = 255;

impl View for Data {
    type V = Seq<u8>;

    closed spec fn view(&self) -> Seq<u8> {
        self.0@
    }
}

impl Clone for Data {
    fn clone(&self) -> (r: Data)
        ensures
            r@ == self@,
    {
        proof {
            use_type_invariant(self);
        }
        Data(copy_bytes(self.0.as_slice()))
    }
}

impl Data {
    #[verifier::type_invariant]
    spec fn fits(&self) -> bool {
        self.0.len() <= MAX_DATA_LEN
    }

    /// Creates a new `Data`, failing with `DataTooLong` when there are more than 255 bytes.
    pub fn try_new(data: Vec<u8>) -> (r: Result<Data, FrameError>)
        ensures
            (r is Ok) <==> data@.len() <= MAX_DATA_LEN,
            r matches Ok(d) ==> d@ == data@,
            r matches Err(e) ==> e == (FrameError::DataTooLong { max: 255, actual: data.len() }),
    {
        if data.len() > MAX_DATA_LEN {
            return Err(FrameError::DataTooLong { max: 255, actual: data.len() });
        }
        Ok(Data(data))
    }

    /// Wraps bytes that are already known to fit.
    pub(crate) fn from_vec(data: Vec<u8>) -> (r: Data)
        requires
            data@.len() <= MAX_DATA_LEN,
        ensures
            r@ == data@,
    {
        Data(data)
    }

    /// Returns the bytes.
    pub fn get(&self) -> (r: &[u8])
        ensures
            r@ == self@,
            r@.len() <= MAX_DATA_LEN,
    {
        proof {
            use_type_invariant(self);
        }
        self.0.as_slice()
    }
}

/// A low-level representation of an Intel HEX data frame: an address, a message type and
/// up to 255 data bytes, with no meaning ascribed to them.
#[derive(Debug, PartialEq, Eq, Hash)]
pub struct Frame {
    address: Address,
    message_type: MsgType,
    data: Data,
}

/// The abstract content of a frame: address, message type and data.
pub type FrameView = (u16, u8, Seq<u8>);

impl View for Frame {
    type V = FrameView;

    closed spec fn view(&self) -> FrameView {
        (self.address.0, self.message_type.0, self.data@)
    }
}

impl Clone for Frame {
    fn clone(&self) -> (r: Frame)
        ensures
            r@ == self@,
    {
        Frame { address: self.address, message_type: self.message_type, data: self.data.clone() }
    }
}

// ----- Specification of the wire format -----

/// Sum of a byte sequence, as an unbounded integer.
pub open spec fn byte_sum(bytes: Seq<u8>) -> nat
    decreases bytes.len(),
{
    if bytes.len() == 0 {
        0
    } else {
        byte_sum(bytes.drop_last()) + bytes.last() as nat
    }
}

/// The longitudinal redundancy check of a byte sequence: the two's complement of its sum.
pub open spec fn lrc(bytes: Seq<u8>) -> u8 {
    ((256 - byte_sum(bytes) % 256) % 256) as u8
}

/// The numeric fields of a frame that the checksum covers: length, address (big-endian),
/// message type and data.
pub open spec fn frame_payload(f: FrameView) -> Seq<u8> {
    seq![f.2.len() as u8, (f.0 / 256) as u8, (f.0 % 256) as u8, f.1] + f.2
}

/// The uppercase ASCII hex digit for a value below 16.
pub open spec fn hex_char(n: u8) -> u8 {
    if n < 10 {
        (n + 48) as u8
    } else {
        (n + 55) as u8
    }
}

/// Two uppercase hex digits for a byte, high nibble first.
pub open spec fn hex_pair(b: u8) -> Seq<u8> {
    seq![hex_char(b / 16), hex_char(b % 16)]
}

/// Two uppercase hex digits per byte.
pub open spec fn hex_encode(bytes: Seq<u8>) -> Seq<u8>
    decreases bytes.len(),
{
    if bytes.len() == 0 {
        Seq::empty()
    } else {
        hex_encode(bytes.drop_last()) + hex_pair(bytes.last())
    }
}

/// The wire format of a frame without the trailing CRLF.
pub open spec fn encode_frame(f: FrameView) -> Seq<u8> {
    seq![58u8] + hex_encode(frame_payload(f).push(lrc(frame_payload(f))))
}

/// The two line-ending bytes, carriage return and linefeed.
pub open spec fn crlf() -> Seq<u8> {
    seq![13u8, 10u8]
}

/// Whether a byte is an ASCII hex digit, in either case.
pub open spec fn is_hex_char(c: u8) -> bool {
    (48 <= c && c <= 57) || (65 <= c && c <= 70) || (97 <= c && c <= 102)
}

/// The value of an ASCII hex digit.
pub open spec fn hex_value(c: u8) -> u8 {
    if 48 <= c && c <= 57 {
        (c - 48) as u8
    } else if 65 <= c && c <= 70 {
        (c - 55) as u8
    } else if 97 <= c && c <= 102 {
        (c - 87) as u8
    } else {
        0
    }
}

/// The byte written by two hex digits.
pub open spec fn pair_value(hi: u8, lo: u8) -> u8 {
    (hex_value(hi) * 16 + hex_value(lo)) as u8
}

/// Decodes consecutive pairs of hex digits into bytes.
pub open spec fn hex_decode(text: Seq<u8>) -> Seq<u8>
    decreases text.len(),
{
    if text.len() < 2 {
        Seq::empty()
    } else {
        hex_decode(text.subrange(0, text.len() - 2)).push(
            pair_value(text[text.len() - 2], text[text.len() - 1]),
        )
    }
}

/// The input without a trailing CRLF, if it has one.
pub open spec fn strip_crlf(bytes: Seq<u8>) -> Seq<u8> {
    if bytes.len() >= 2 && bytes[bytes.len() - 2] == 13 && bytes[bytes.len() - 1] == 10 {
        bytes.subrange(0, bytes.len() - 2)
    } else {
        bytes
    }
}

/// Whether the input matches `':' H{2} H{4} H{2} (H{2})* H{2} ("\r\n")?`.
pub open spec fn well_shaped(bytes: Seq<u8>) -> bool {
    let core = strip_crlf(bytes);
    &&& core.len() >= 11
    &&& core[0] == 58
    &&& (core.len() - 1) % 2 == 0
    &&& forall|i: int| 1 <= i < core.len() ==> is_hex_char(#[trigger] core[i])
}

/// The bytes of a well-shaped frame: every numeric field, checksum included.
pub open spec fn shaped_fields(bytes: Seq<u8>) -> Seq<u8> {
    let core = strip_crlf(bytes);
    hex_decode(core.subrange(1, core.len() as int))
}

/// The declared data length of a well-shaped frame.
pub open spec fn declared_len(bytes: Seq<u8>) -> u8 {
    shaped_fields(bytes)[0]
}

/// The data bytes present in a well-shaped frame.
pub open spec fn present_data(bytes: Seq<u8>) -> Seq<u8> {
    let fields = shaped_fields(bytes);
    fields.subrange(4, fields.len() - 1)
}

/// The declared checksum of a well-shaped frame.
pub open spec fn declared_checksum(bytes: Seq<u8>) -> u8 {
    shaped_fields(bytes).last()
}

/// The frame that a well-shaped input describes.
pub open spec fn decoded_frame(bytes: Seq<u8>) -> FrameView {
    let fields = shaped_fields(bytes);
    ((fields[1] as int * 256 + fields[2] as int) as u16, fields[3], present_data(bytes))
}

/// The frame that an input encodes, if it is a valid frame.
pub open spec fn parse_frame(bytes: Seq<u8>) -> Option<FrameView> {
    if well_shaped(bytes) && declared_len(bytes) as int == present_data(bytes).len()
        && declared_checksum(bytes) == lrc(frame_payload(decoded_frame(bytes))) {
        Some(decoded_frame(bytes))
    } else {
        None
    }
}

// ----- Lemmas -----

proof fn lemma_byte_sum_push(bytes: Seq<u8>, b: u8)
    ensures
        byte_sum(bytes.push(b)) == byte_sum(bytes) + b as nat,
{
    assert(bytes.push(b).drop_last() =~= bytes);
}

/// Appending a sequence's checksum makes the checksum of the whole zero.
pub proof fn lemma_checksum_appended(bytes: Seq<u8>)
    ensures
        lrc(bytes.push(lrc(bytes))) == 0,
{
    lemma_byte_sum_push(bytes, lrc(bytes));
    let s = byte_sum(bytes);
    let c = lrc(bytes) as nat;
    assert(c == (256 - s % 256) % 256);
    assert((s + c) % 256 == 0) by {
        vstd::arithmetic::div_mod::lemma_fundamental_div_mod(s as int, 256);
        if s % 256 == 0 {
            assert(c == 0);
        } else {
            assert(c == 256 - s % 256);
            assert(s + c == 256 * (s / 256) + 256);
            vstd::arithmetic::div_mod::lemma_mod_multiples_basic((s / 256) as int + 1, 256);
        }
    }
}

proof fn lemma_hex_char_value(n: u8)
    requires
        n < 16,
    ensures
        is_hex_char(hex_char(n)),
        hex_value(hex_char(n)) == n,
{
}

proof fn lemma_pair_round_trip(b: u8)
    ensures
        is_hex_char(hex_pair(b)[0]),
        is_hex_char(hex_pair(b)[1]),
        pair_value(hex_pair(b)[0], hex_pair(b)[1]) == b,
{
    lemma_hex_char_value(b / 16);
    lemma_hex_char_value(b % 16);
}

proof fn lemma_hex_encode_shape(bytes: Seq<u8>)
    ensures
        hex_encode(bytes).len() == 2 * bytes.len(),
        forall|i: int| 0 <= i < hex_encode(bytes).len() ==> is_hex_char(#[trigger] hex_encode(bytes)[i]),
        hex_decode(hex_encode(bytes)) == bytes,
    decreases bytes.len(),
{
    if bytes.len() > 0 {
        let init = bytes.drop_last();
        lemma_hex_encode_shape(init);
        lemma_pair_round_trip(bytes.last());
        let e = hex_encode(bytes);
        assert(e == hex_encode(init) + hex_pair(bytes.last()));
        assert(e.subrange(0, e.len() - 2) =~= hex_encode(init));
        assert(forall|i: int| 0 <= i < e.len() ==> is_hex_char(#[trigger] e[i])) by {
            assert forall|i: int| 0 <= i < e.len() implies is_hex_char(#[trigger] e[i]) by {
                if i < hex_encode(init).len() {
                    assert(e[i] == hex_encode(init)[i]);
                } else {
                    assert(e[i] == hex_pair(bytes.last())[i - hex_encode(init).len()]);
                }
            }
        }
        assert(bytes =~= init.push(bytes.last()));
    } else {
        assert(hex_decode(hex_encode(bytes)) =~= bytes);
    }
}

proof fn lemma_encoded_fields(f: FrameView)
    requires
        f.2.len() <= MAX_DATA_LEN,
    ensures
        ({
            let p = frame_payload(f);
            let fields = p.push(lrc(p));
            &&& hex_encode(fields).len() == 2 * fields.len()
            &&& forall|i: int| 0 <= i < hex_encode(fields).len() ==> is_hex_char(#[trigger] hex_encode(fields)[i])
            &&& hex_decode(hex_encode(fields)) == fields
            &&& fields.subrange(4, fields.len() - 1) == f.2
            &&& fields[0] == f.2.len() as u8
            &&& fields[1] as int * 256 + fields[2] as int == f.0 as int
            &&& fields[3] == f.1
            &&& fields.last() == lrc(p)
        }),
{
    let p = frame_payload(f);
    let fields = p.push(lrc(p));
    lemma_hex_encode_shape(fields);
    assert(fields.subrange(4, fields.len() - 1) =~= f.2);
}

proof fn lemma_parse_core(bytes: Seq<u8>, f: FrameView)
    requires
        f.2.len() <= MAX_DATA_LEN,
        strip_crlf(bytes) == encode_frame(f),
    ensures
        parse_frame(bytes) == Some(f),
{
    let p = frame_payload(f);
    let fields = p.push(lrc(p));
    let e = encode_frame(f);
    lemma_encoded_fields(f);
    assert(e.subrange(1, e.len() as int) =~= hex_encode(fields));
    assert forall|i: int| 1 <= i < e.len() implies is_hex_char(#[trigger] e[i]) by {
        assert(e[i] == hex_encode(fields)[i - 1]);
    }
    assert(well_shaped(bytes));
    assert(shaped_fields(bytes) == fields);
    assert(decoded_frame(bytes) == f);
}

/// Decoding the wire format of a frame, with or without the trailing CRLF, gives back the frame.
pub proof fn lemma_frame_round_trip(f: FrameView)
    requires
        f.2.len() <= MAX_DATA_LEN,
    ensures
        parse_frame(encode_frame(f)) == Some(f),
        parse_frame(encode_frame(f) + crlf()) == Some(f),
{
    let p = frame_payload(f);
    let fields = p.push(lrc(p));
    let e = encode_frame(f);
    lemma_encoded_fields(f);
    let last = hex_encode(fields).len() - 1;
    assert(e[e.len() - 1] == hex_encode(fields)[last]);
    assert(is_hex_char(hex_encode(fields)[last]));
    assert(strip_crlf(e) == e);
    lemma_parse_core(e, f);
    let en = e + crlf();
    assert(strip_crlf(en) =~= e);
    lemma_parse_core(en, f);
}

// ----- Executable code -----

/// The uppercase hex digit for a value below 16.
pub(crate) fn hex_digit(n: u8) -> (r: u8)
    requires
        n < 16,
    ensures
        r == hex_char(n),
{
    if n < 10 {
        n + 48
    } else {
        n + 55
    }
}

/// The value of an ASCII hex digit, or `None` for any other byte.
fn parse_hex_digit(c: u8) -> (r: Option<u8>)
    ensures
        r is Some <==> is_hex_char(c),
        r matches Some(v) ==> v == hex_value(c),
{
    if 48 <= c && c <= 57 {
        Some(c - 48)
    } else if 65 <= c && c <= 70 {
        Some(c - 55)
    } else if 97 <= c && c <= 102 {
        Some(c - 87)
    } else {
        None
    }
}

/// Relies on `std::io::Write::write_all` to write every byte; a failure comes back as the
/// error's description.
#[verifier::external_body]
fn write_all<W: std::io::Write>(writer: &mut W, bytes: &[u8]) -> Result<(), String> {
    writer.write_all(bytes).map_err(|e| e.to_string())
}

/// Whether two byte slices are equal.
pub(crate) fn bytes_equal(a: &[u8], b: &[u8]) -> (r: bool)
    ensures
        r == (a@ == b@),
{
    if a.len() != b.len() {
        return false;
    }
    let mut i: usize = 0;
    while i < a.len()
        invariant
            i <= a@.len(),
            a@.len() == b@.len(),
            a@.subrange(0, i as int) == b@.subrange(0, i as int),
        decreases a.len() - i,
    {
        if a[i] != b[i] {
            assert(a@[i as int] != b@[i as int]);
            return false;
        }
        i += 1;
        proof {
            assert(a@.subrange(0, i as int) =~= a@.subrange(0, i - 1).push(a@[i - 1]));
            assert(b@.subrange(0, i as int) =~= b@.subrange(0, i - 1).push(b@[i - 1]));
        }
    }
    proof {
        assert(a@.subrange(0, i as int) =~= a@);
        assert(b@.subrange(0, i as int) =~= b@);
    }
    true
}

/// Copies a byte slice into a new vector.
pub(crate) fn copy_bytes(bytes: &[u8]) -> (r: Vec<u8>)
    ensures
        r@ == bytes@,
{
    let mut out: Vec<u8> = Vec::new();
    let mut i: usize = 0;
    while i < bytes.len()
        invariant
            i <= bytes@.len(),
            out@ == bytes@.subrange(0, i as int),
        decreases bytes.len() - i,
    {
        out.push(bytes[i]);
        i += 1;
        proof {
            assert(bytes@.subrange(0, i as int) =~= bytes@.subrange(0, i - 1).push(bytes@[i - 1]));
        }
    }
    proof {
        assert(bytes@.subrange(0, i as int) =~= bytes@);
    }
    out
}

/// Computes the LRC of the given bytes.
pub fn checksum(bytes: &[u8]) -> (r: u8)
    ensures
        r == lrc(bytes@),
{
    let mut acc: u8 = 0;
    let mut i: usize = 0;
    while i < bytes.len()
        invariant
            i <= bytes@.len(),
            acc == lrc(bytes@.subrange(0, i as int)),
        decreases bytes.len() - i,
    {
        proof {
            let s = bytes@.subrange(0, i as int + 1);
            assert(s.drop_last() =~= bytes@.subrange(0, i as int));
            let t = byte_sum(bytes@.subrange(0, i as int));
            let b = bytes@[i as int];
            assert(byte_sum(s) == t + b as nat);
            assert((256 - (t + b as nat) % 256) % 256 == ((((256 - t % 256) % 256) as int - b as int)
                % 256)) by (nonlinear_arith);
        }
        acc = acc.wrapping_sub(bytes[i]);
        i += 1;
    }
    proof {
        assert(bytes@.subrange(0, i as int) =~= bytes@);
    }
    acc
}

impl Frame {
    /// Constructs a new `Frame` with the given address, message type and data.
    pub fn new(address: Address, message_type: MsgType, data: Data) -> (r: Frame)
        ensures
            r@ == (address.0, message_type.0, data@),
    {
        Frame { address, message_type, data }
    }

    /// Returns the message type of the frame.
    pub fn message_type(&self) -> (r: MsgType)
        ensures
            r.0 == self@.1,
    {
        self.message_type
    }

    /// Returns the address of the frame.
    pub fn address(&self) -> (r: Address)
        ensures
            r.0 == self@.0,
    {
        self.address
    }

    /// Returns the frame's data bytes.
    pub fn data(&self) -> (r: &[u8])
        ensures
            r@ == self@.2,
            r@.len() <= MAX_DATA_LEN,
    {
        self.data.get()
    }

    /// Consumes the frame and returns its data.
    pub fn into_data(self) -> (r: Data)
        ensures
            r@ == self@.2,
    {
        self.data
    }

    /// The numeric fields other than the checksum, upon which the checksum is computed.
    fn payload(&self) -> (r: Vec<u8>)
        ensures
            r@ == frame_payload(self@),
    {
        let bytes = self.data.get();
        let mut payload: Vec<u8> = Vec::new();
        payload.push(bytes.len() as u8);
        payload.push((self.address.0 / 256) as u8);
        payload.push((self.address.0 % 256) as u8);
        payload.push(self.message_type.0);
        let mut i: usize = 0;
        while i < bytes.len()
            invariant
                i <= bytes@.len(),
                bytes@ == self@.2,
                payload@ == seq![bytes@.len() as u8, (self@.0 / 256) as u8, (self@.0 % 256) as u8, self@.1]
                    + bytes@.subrange(0, i as int),
            decreases bytes.len() - i,
        {
            payload.push(bytes[i]);
            i += 1;
            proof {
                assert(bytes@.subrange(0, i as int) =~= bytes@.subrange(0, i - 1).push(bytes@[i - 1]));
            }
        }
        proof {
            assert(bytes@.subrange(0, i as int) =~= bytes@);
        }
        payload
    }

    /// Converts the frame to its wire format, without the trailing CRLF.
    pub fn to_bytes(&self) -> (r: Vec<u8>)
        ensures
            r@ == encode_frame(self@),
    {
        let mut fields = self.payload();
        let sum = checksum(fields.as_slice());
        fields.push(sum);
        let ghost target = fields@;
        let mut output: Vec<u8> = Vec::new();
        output.push(58u8);
        let mut i: usize = 0;
        while i < fields.len()
            invariant
                i <= fields@.len(),
                fields@ == target,
                output@ == seq![58u8] + hex_encode(target.subrange(0, i as int)),
            decreases fields.len() - i,
        {
            let byte = fields[i];
            output.push(hex_digit(byte / 16));
            output.push(hex_digit(byte % 16));
            proof {
                let s = target.subrange(0, i as int + 1);
                assert(s.drop_last() =~= target.subrange(0, i as int));
                assert(hex_encode(s) == hex_encode(target.subrange(0, i as int)) + hex_pair(byte));
                assert(output@ =~= seq![58u8] + hex_encode(s));
            }
            i += 1;
        }
        proof {
            assert(target.subrange(0, i as int) =~= target);
        }
        output
    }

    /// Converts the frame to its wire format, including the trailing CRLF.
    pub fn to_bytes_with_newline(&self) -> (r: Vec<u8>)
        ensures
            r@ == encode_frame(self@) + crlf(),
    {
        let mut output = self.to_bytes();
        output.push(13u8);
        output.push(10u8);
        proof {
            assert(output@ =~= encode_frame(self@) + crlf());
        }
        output
    }

    /// Writes the wire format of the frame, including the trailing CRLF, to a writer; a
    /// failed write is an `Io` error.
    pub fn write<W: std::io::Write>(&self, writer: &mut W) -> (r: Result<(), FrameError>)
        ensures
            r matches Err(e) ==> e is Io,
    {
        let bytes = self.to_bytes_with_newline();
        match write_all(writer, bytes.as_slice()) {
            Ok(()) => Ok(()),
            Err(description) => Err(FrameError::Io { description }),
        }
    }

    /// Parses the Intel HEX wire format into a new `Frame`.
    ///
    /// Fails with `InvalidFrame` when the input does not have the shape of a frame,
    /// `FrameDataMismatch` when the number of data bytes differs from the declared length,
    /// and `BadChecksum` when the declared checksum is wrong.
    pub fn from_bytes(bytes: &[u8]) -> (r: Result<Frame, FrameError>)
        ensures
            (r is Ok) <==> parse_frame(bytes@) is Some,
            r matches Ok(f) ==> Some(f@) == parse_frame(bytes@),
            r matches Err(e) ==> match e {
                FrameError::InvalidFrame { data } => !well_shaped(bytes@) && data@ == bytes@,
                FrameError::FrameDataMismatch { data, expected, actual } => {
                    &&& well_shaped(bytes@)
                    &&& expected == declared_len(bytes@) as usize
                    &&& actual == present_data(bytes@).len()
                    &&& expected != actual
                    &&& data@ == bytes@
                },
                FrameError::BadChecksum { data, expected, actual } => {
                    &&& well_shaped(bytes@)
                    &&& declared_len(bytes@) as int == present_data(bytes@).len()
                    &&& expected == declared_checksum(bytes@)
                    &&& actual == lrc(frame_payload(decoded_frame(bytes@)))
                    &&& expected != actual
                    &&& data@ == bytes@
                },
                _ => false,
            },
    {
        let n = bytes.len();
        let end: usize = if n >= 2 && bytes[n - 2] == 13 && bytes[n - 1] == 10 {
            n - 2
        } else {
            n
        };
        let ghost core = strip_crlf(bytes@);
        proof {
            assert(core =~= bytes@.subrange(0, end as int));
        }
        if end < 11 || bytes[0] != 58 || (end - 1) % 2 != 0 {
            return Err(FrameError::InvalidFrame { data: copy_bytes(bytes) });
        }
        // Decode every pair of hex digits after the colon.
        let mut fields: Vec<u8> = Vec::new();
        let mut i: usize = 1;
        while i < end
            invariant
                1 <= i <= end,
                end <= n,
                n == bytes@.len(),
                core == bytes@.subrange(0, end as int),
                core == strip_crlf(bytes@),
                (end - 1) % 2 == 0,
                (i - 1) % 2 == 0,
                forall|k: int| 1 <= k < i ==> is_hex_char(#[trigger] core[k]),
                fields@ == hex_decode(core.subrange(1, i as int)),
            decreases end - i,
        {
            let hi = parse_hex_digit(bytes[i]);
            let lo = parse_hex_digit(bytes[i + 1]);
            match (hi, lo) {
                (Some(h), Some(l)) => {
                    fields.push(h * 16 + l);
                    proof {
                        let s = core.subrange(1, i as int + 2);
                        assert(s.subrange(0, s.len() - 2) =~= core.subrange(1, i as int));
                        assert(s[s.len() - 2] == core[i as int]);
                        assert(s[s.len() - 1] == core[i + 1]);
                    }
                    i = i + 2;
                    proof {
                        assert forall|k: int| 1 <= k < i implies is_hex_char(#[trigger] core[k]) by {
                            if k == i - 2 {
                                assert(core[k] == bytes@[k]);
                            } else if k == i - 1 {
                                assert(core[k] == bytes@[k]);
                            }
                        }
                    }
                },
                _ => {
                    proof {
                        assert(i + 1 < end);
                        assert(core.len() == end);
                        assert(core[i as int] == bytes@[i as int]);
                        assert(core[i + 1] == bytes@[i + 1]);
                        let w: int = if hi is None { i as int } else { i + 1 };
                        assert(1 <= w < core.len() && !is_hex_char(core[w]));
                        assert(strip_crlf(bytes@) == core);
                        assert(!well_shaped(bytes@));
                    }
                    return Err(FrameError::InvalidFrame { data: copy_bytes(bytes) });
                },
            }
        }
        proof {
            assert(core.subrange(1, i as int) =~= core.subrange(1, core.len() as int));
            assert(well_shaped(bytes@));
            lemma_hex_decode_len(core.subrange(1, core.len() as int));
        }
        let ghost fs = fields@;
        assert(fs == shaped_fields(bytes@));
        let count = fields.len();
        let declared = fields[0];
        let provided = fields[count - 1];
        let actual = count - 5;
        proof {
            assert(present_data(bytes@).len() == actual);
        }
        if declared as usize != actual {
            return Err(
                FrameError::FrameDataMismatch {
                    data: copy_bytes(bytes),
                    expected: declared as usize,
                    actual: actual,
                },
            );
        }
        let address: u16 = (fields[1] as u16) * 256 + fields[2] as u16;
        let message_type = fields[3];
        let mut data: Vec<u8> = Vec::new();
        let mut j: usize = 4;
        while j < count - 1
            invariant
                4 <= j <= count - 1,
                count == fs.len(),
                fields@ == fs,
                data@ == fs.subrange(4, j as int),
            decreases count - 1 - j,
        {
            data.push(fields[j]);
            j += 1;
            proof {
                assert(fs.subrange(4, j as int) =~= fs.subrange(4, j - 1).push(fs[j - 1]));
            }
        }
        proof {
            assert(data@ == present_data(bytes@));
        }
        let frame = Frame::new(Address(address), MsgType(message_type), Data::from_vec(data));
        assert(frame@ == decoded_frame(bytes@));
        let payload = frame.payload();
        let computed = checksum(payload.as_slice());
        if computed != provided {
            return Err(
                FrameError::BadChecksum { data: copy_bytes(bytes), expected: provided, actual: computed },
            );
        }
        Ok(frame)
    }
}

proof fn lemma_hex_decode_len(text: Seq<u8>)
    requires
        text.len() % 2 == 0,
    ensures
        hex_decode(text).len() == text.len() / 2,
    decreases text.len(),
{
    if text.len() >= 2 {
        lemma_hex_decode_len(text.subrange(0, text.len() - 2));
    }
}

} // verus!
