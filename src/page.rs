use vstd::prelude::*;

use crate::frame::copy_bytes;

verus! {

/// Errors relating to [`Page`]s.
#[derive(Debug, Copy, Clone, PartialEq, Eq)]
#[non_exhaustive]
pub enum PageError {
    /// The data length did not match the width and height of the page.
    WrongPageLength { width: u32, height: u32, expected: usize, actual: usize },
}

/// The page number of a [`Page`], identifying it within a multi-page message.
#[derive(Debug, Copy, Clone, PartialEq, Eq, Hash, Structural)]
pub struct PageId(pub u8);

/// Whether the sign or the controller is in charge of flipping pages.
#[derive(Debug, Copy, Clone, PartialEq, Eq, Hash, Structural)]
pub enum PageFlipStyle {
    /// The sign flips pages itself.
    Automatic,
    /// The controller tells the sign when to load and show pages.
    Manual,
}

/// A page of a message for display on a sign, in the sign's native layout: a 4-byte header
/// `[id, 0x10, 0x00, 0x00]`, then the pixels column by column with `ceil(height / 8)` bytes
/// per column and bit 0 toward the top, then `0xFF` padding up to a multiple of 16 bytes.
#[derive(Debug, PartialEq, Eq, Hash)]
pub struct Page {
    width: u32,
    height: u32,
    bytes: Vec<u8>,
}

/// The abstract content of a page: width, height and raw bytes.
pub type PageView = (u32, u32, Seq<u8>);

impl View for Page {
    type V = PageView;

    closed spec fn view(&self) -> PageView {
        (self.width, self.height, self.bytes@)
    }
}

/// Bytes used to store one column: the height divided by 8, rounded up.
pub open spec fn column_bytes(height: u32) -> nat {
    ((height as nat + 7) / 8) as nat
}

/// Bytes of header and pixels, without padding.
pub open spec fn data_len(width: u32, height: u32) -> nat {
    4 + width as nat * column_bytes(height)
}

/// Bytes of a whole page: header and pixels rounded up to a multiple of 16.
pub open spec fn total_len(width: u32, height: u32) -> nat {
    ((data_len(width, height) + 15) / 16 * 16) as nat
}

/// The byte that holds pixel `(x, y)`.
pub open spec fn pixel_index(height: u32, x: u32, y: u32) -> int {
    4 + x as int * column_bytes(height) as int + y as int / 8
}

/// The mask of the bit that holds pixel `(x, y)` within its byte.
pub open spec fn pixel_mask(y: u32) -> u8 {
    (1u8 << ((y % 8) as u8)) as u8
}

/// Whether pixel `(x, y)` is on in a page's bytes.
pub open spec fn pixel_on(p: PageView, x: u32, y: u32) -> bool {
    p.2[pixel_index(p.1, x, y)] & pixel_mask(y) == pixel_mask(y)
}

/// Whether `(x, y)` lies on the page.
pub open spec fn in_bounds(p: PageView, x: u32, y: u32) -> bool {
    x < p.0 && y < p.1
}

/// A page's bytes with pixel `(x, y)` turned on or off.
pub open spec fn with_pixel(p: PageView, x: u32, y: u32, value: bool) -> PageView {
    let i = pixel_index(p.1, x, y);
    let b = p.2[i];
    let nb = if value {
        b | pixel_mask(y)
    } else {
        b & !pixel_mask(y)
    };
    (p.0, p.1, p.2.update(i, nb))
}

/// The bytes of a blank page with the given id.
pub open spec fn blank_page_bytes(id: u8, width: u32, height: u32) -> Seq<u8> {
    let d = data_len(width, height);
    let t = total_len(width, height);
    seq![id, 0x10u8, 0x00u8, 0x00u8] + Seq::new((d - 4) as nat, |i: int| 0u8) + Seq::new(
        (t - d) as nat,
        |i: int| 0xFFu8,
    )
}

proof fn lemma_layout(width: u32, height: u32, x: u32, y: u32)
    requires
        x < width,
        y < height,
    ensures
        4 <= pixel_index(height, x, y) < data_len(width, height),
        data_len(width, height) <= total_len(width, height),
        16 <= total_len(width, height),
{
    let c = column_bytes(height) as int;
    assert(y as int / 8 < c);
    assert(x as int * c + c <= width as int * c) by (nonlinear_arith)
        requires
            x < width,
            c >= 0,
    ;
    assert(x as int * c >= 0) by (nonlinear_arith)
        requires
            c >= 0,
    ;
    assert(width as int * c >= 0) by (nonlinear_arith)
        requires
            c >= 0,
    ;
}

proof fn lemma_total_bounds(width: u32, height: u32)
    ensures
        data_len(width, height) <= total_len(width, height),
        16 <= total_len(width, height),
        total_len(width, height) % 16 == 0,
{
    let c = column_bytes(height) as int;
    assert(width as int * c >= 0) by (nonlinear_arith)
        requires
            c >= 0,
    ;
}

proof fn lemma_mask_bits(b: u8, k: u8, j: u8)
    requires
        k < 8,
        j < 8,
    ensures
        (b | (1u8 << k)) & (1u8 << k) == (1u8 << k),
        (b & !(1u8 << k)) & (1u8 << k) != (1u8 << k),
        j != k ==> ((b | (1u8 << k)) & (1u8 << j) == b & (1u8 << j)),
        j != k ==> ((b & !(1u8 << k)) & (1u8 << j) == b & (1u8 << j)),
        (0u8 & (1u8 << k)) != (1u8 << k),
{
    assert((b | (1u8 << k)) & (1u8 << k) == (1u8 << k)) by (bit_vector)
        requires
            k < 8,
    ;
    assert((b & !(1u8 << k)) & (1u8 << k) != (1u8 << k)) by (bit_vector)
        requires
            k < 8,
    ;
    assert(j != k ==> ((b | (1u8 << k)) & (1u8 << j) == b & (1u8 << j))) by (bit_vector)
        requires
            k < 8,
            j < 8,
    ;
    assert(j != k ==> ((b & !(1u8 << k)) & (1u8 << j) == b & (1u8 << j))) by (bit_vector)
        requires
            k < 8,
            j < 8,
    ;
    assert((0u8 & (1u8 << k)) != (1u8 << k)) by (bit_vector)
        requires
            k < 8,
    ;
}

/// Two different pixels of a page live in different bytes or under different masks.
proof fn lemma_pixels_distinct(height: u32, x1: u32, y1: u32, x2: u32, y2: u32)
    requires
        y1 < height,
        y2 < height,
        x1 != x2 || y1 != y2,
    ensures
        pixel_index(height, x1, y1) != pixel_index(height, x2, y2) || y1 % 8 != y2 % 8,
{
    let c = column_bytes(height) as int;
    assert(y1 as int / 8 < c && y2 as int / 8 < c);
    if pixel_index(height, x1, y1) == pixel_index(height, x2, y2) && y1 % 8 == y2 % 8 {
        if x1 == x2 {
            assert(y1 as int / 8 == y2 as int / 8);
            assert(y1 == y2);
        } else if x1 < x2 {
            assert(x1 as int * c + c <= x2 as int * c) by (nonlinear_arith)
                requires
                    x1 < x2,
                    c >= 0,
            ;
        } else {
            assert(x2 as int * c + c <= x1 as int * c) by (nonlinear_arith)
                requires
                    x2 < x1,
                    c >= 0,
            ;
        }
    }
}

/// Every pixel of a newly created page is off.
pub proof fn lemma_blank_page_is_off(id: u8, width: u32, height: u32, x: u32, y: u32)
    requires
        x < width,
        y < height,
    ensures
        !pixel_on((width, height, blank_page_bytes(id, width, height)), x, y),
{
    lemma_layout(width, height, x, y);
    let bytes = blank_page_bytes(id, width, height);
    let i = pixel_index(height, x, y);
    assert(bytes[i] == 0u8);
    lemma_mask_bits(0, (y % 8) as u8, 0);
}

/// After setting a pixel, reading it back gives the value that was set, and every other
/// pixel keeps its value.
pub proof fn lemma_set_then_get(p: PageView, x: u32, y: u32, value: bool, x2: u32, y2: u32)
    requires
        p.2.len() == total_len(p.0, p.1),
        in_bounds(p, x, y),
        in_bounds(p, x2, y2),
    ensures
        pixel_on(with_pixel(p, x, y, value), x, y) == value,
        (x2 != x || y2 != y) ==> pixel_on(with_pixel(p, x, y, value), x2, y2) == pixel_on(
            p,
            x2,
            y2,
        ),
{
    lemma_layout(p.0, p.1, x, y);
    lemma_layout(p.0, p.1, x2, y2);
    let i = pixel_index(p.1, x, y);
    let i2 = pixel_index(p.1, x2, y2);
    lemma_mask_bits(p.2[i], (y % 8) as u8, (y2 % 8) as u8);
    if x2 != x || y2 != y {
        lemma_pixels_distinct(p.1, x, y, x2, y2);
    }
}

/// The number of bytes of a page of the given size, computed without overflow.
pub(crate) fn page_len(width: u32, height: u32) -> (r: u64)
    ensures
        r as nat == total_len(width, height),
        r as nat >= data_len(width, height),
{
    proof {
        lemma_total_bounds(width, height);
    }
    let c: u64 = (height as u64 + 7) / 8;
    assert(width as u64 * c <= 0xFFFF_FFFFu64 * 0x2000_0000u64) by (nonlinear_arith)
        requires
            c <= 0x2000_0000,
            width <= 0xFFFF_FFFFu32,
    ;
    let d: u64 = 4 + width as u64 * c;
    (d + 15) / 16 * 16
}

impl Page {
    #[verifier::type_invariant]
    spec fn laid_out(&self) -> bool {
        self.bytes@.len() == total_len(self.width, self.height)
    }

    /// Creates a blank page with the given id and size.
    pub fn new(id: PageId, width: u32, height: u32) -> (r: Page)
        requires
            total_len(width, height) <= usize::MAX,
        ensures
            r@ == (width, height, blank_page_bytes(id.0, width, height)),
            r@.2.len() == total_len(width, height),
    {
        let total = page_len(width, height) as usize;
        let data: usize = 4 + (width as u64 * ((height as u64 + 7) / 8)) as usize;
        let mut bytes: Vec<u8> = Vec::new();
        bytes.push(id.0);
        bytes.push(0x10);
        bytes.push(0x00);
        bytes.push(0x00);
        let ghost header = seq![id.0, 0x10u8, 0x00u8, 0x00u8];
        proof {
            assert(bytes@ =~= header + Seq::new(0, |i: int| 0u8));
        }
        while bytes.len() < data
            invariant
                data as nat == data_len(width, height),
                data <= total,
                4 <= bytes@.len() <= data,
                bytes@ =~= header + Seq::new((bytes@.len() - 4) as nat, |i: int| 0u8),
            decreases data - bytes@.len(),
        {
            bytes.push(0x00);
        }
        let ghost zeros = bytes@;
        proof {
            assert(bytes@ =~= zeros + Seq::new(0, |i: int| 0xFFu8));
        }
        while bytes.len() < total
            invariant
                total as nat == total_len(width, height),
                data <= total,
                zeros.len() == data,
                data <= bytes@.len() <= total,
                bytes@ =~= zeros + Seq::new((bytes@.len() - data) as nat, |i: int| 0xFFu8),
            decreases total - bytes@.len(),
        {
            bytes.push(0xFF);
        }
        Page { width, height, bytes }
    }

    /// Creates a page of the given size from its raw bytes, failing with `WrongPageLength`
    /// when their number does not match the size. Header and padding are not checked.
    pub fn from_bytes(width: u32, height: u32, bytes: Vec<u8>) -> (r: Result<Page, PageError>)
        requires
            total_len(width, height) <= usize::MAX,
        ensures
            (r is Ok) <==> bytes@.len() == total_len(width, height),
            r matches Ok(p) ==> p@ == (width, height, bytes@),
            r matches Err(e) ==> e == (PageError::WrongPageLength {
                width,
                height,
                expected: total_len(width, height) as usize,
                actual: bytes.len(),
            }),
    {
        let expected = page_len(width, height) as usize;
        if bytes.len() != expected {
            return Err(
                PageError::WrongPageLength { width, height, expected, actual: bytes.len() },
            );
        }
        Ok(Page { width, height, bytes })
    }

    /// The length of every page's bytes matches its size.
    pub fn len(&self) -> (r: usize)
        ensures
            r == self@.2.len(),
            r as nat == total_len(self@.0, self@.1),
    {
        proof {
            use_type_invariant(self);
        }
        self.bytes.len()
    }

    /// Returns the id (page number) of this page: its first byte.
    pub fn id(&self) -> (r: PageId)
        ensures
            self@.2.len() > 0,
            r.0 == self@.2[0],
    {
        proof {
            use_type_invariant(self);
            lemma_total_bounds(self.width, self.height);
        }
        PageId(self.bytes[0])
    }

    /// Returns the width of this page.
    pub fn width(&self) -> (r: u32)
        ensures
            r == self@.0,
    {
        self.width
    }

    /// Returns the height of this page.
    pub fn height(&self) -> (r: u32)
        ensures
            r == self@.1,
    {
        self.height
    }

    /// Returns the byte and bit mask at which pixel `(x, y)` is stored.
    fn byte_bit_indices(&self, x: u32, y: u32) -> (r: (usize, u8))
        requires
            x < self@.0,
            y < self@.1,
        ensures
            r.0 as int == pixel_index(self@.1, x, y),
            r.0 < self@.2.len(),
            r.1 == pixel_mask(y),
    {
        proof {
            use_type_invariant(self);
            lemma_layout(self.width, self.height, x, y);
        }
        let c: usize = ((self.height as u64 + 7) / 8) as usize;
        let n = self.bytes.len();
        proof {
            assert(c as nat == column_bytes(self.height));
            assert(x as int * c as int <= self.width as int * c as int) by (nonlinear_arith)
                requires
                    x < self.width,
            ;
            assert(n == self.bytes@.len());
            assert(4 + x as int * c as int + (y / 8) as int == pixel_index(self.height, x, y));
        }
        let index: usize = 4 + x as usize * c + (y / 8) as usize;
        let shift: u8 = (y % 8) as u8;
        (index, 1u8 << shift)
    }

    /// Returns whether the pixel at `(x, y)` is on. The coordinate must lie on the page.
    pub fn get_pixel(&self, x: u32, y: u32) -> (r: bool)
        requires
            in_bounds(self@, x, y),
        ensures
            r == pixel_on(self@, x, y),
    {
        let (index, mask) = self.byte_bit_indices(x, y);
        self.bytes[index] & mask == mask
    }

    /// Turns the pixel at `(x, y)` on or off. The coordinate must lie on the page.
    pub fn set_pixel(&mut self, x: u32, y: u32, value: bool)
        requires
            in_bounds(old(self)@, x, y),
        ensures
            final(self)@ == with_pixel(old(self)@, x, y, value),
    {
        let (index, mask) = self.byte_bit_indices(x, y);
        proof {
            use_type_invariant(&*self);
        }
        let b = self.bytes[index];
        let nb = if value {
            b | mask
        } else {
            b & !mask
        };
        let mut taken = Page::new(PageId(0), 0, 0);
        core::mem::swap(self, &mut taken);
        let Page { width, height, mut bytes } = taken;
        bytes.set(index, nb);
        *self = Page { width, height, bytes };
    }

    /// Returns the raw bytes of this page.
    pub fn as_bytes(&self) -> (r: &[u8])
        ensures
            r@ == self@.2,
    {
        self.bytes.as_slice()
    }
}

impl Clone for Page {
    fn clone(&self) -> (r: Page)
        ensures
            r@ == self@,
    {
        proof {
            use_type_invariant(self);
        }
        Page { width: self.width, height: self.height, bytes: copy_bytes(self.bytes.as_slice()) }
    }
}

} // verus!
