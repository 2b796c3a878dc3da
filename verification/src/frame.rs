//! RGB frame buffer of the headless reference renderer and its binary PPM
//! (`P6`) encoding.
//!
//! Pixels are stored row by row from the top-left corner, three bytes
//! (red, green, blue) each, so pixel (x, y) of a `width`-wide frame starts
//! at byte `(y * width + x) * 3`.

use vstd::prelude::*;

verus! {

/// ASCII `0`.
pub const DIGIT_ZERO: u8 = 48;
/// ASCII `P`.
pub const LETTER_P: u8 = 80;
/// ASCII `6`.
pub const DIGIT_SIX: u8 = 54;
/// ASCII `2`.
pub const DIGIT_TWO: u8 = 50;
/// ASCII `5`.
pub const DIGIT_FIVE: u8 = 53;
/// ASCII space.
pub const SPACE: u8 = 32;
/// ASCII line feed.
pub const NEWLINE: u8 = 10;

/// Byte offset of pixel (`x`, `y`) in a frame `width` pixels wide.
pub open spec fn pixel_offset(width: int, x: int, y: int) -> int {
    (y * width + x) * 3
}

/// Number of bytes of a `width` x `height` frame.
pub open spec fn frame_len(width: int, height: int) -> int {
    width * height * 3
}

/// The (red, green, blue) bytes of pixel (`x`, `y`).
pub open spec fn pixel_at(bytes: Seq<u8>, width: int, x: int, y: int) -> (u8, u8, u8) {
    let o = pixel_offset(width, x, y);
    (bytes[o], bytes[o + 1], bytes[o + 2])
}

/// `bytes` with pixel (`x`, `y`) of a `width`-wide frame set to `rgb`.
pub open spec fn with_pixel(bytes: Seq<u8>, width: int, x: int, y: int, rgb: (u8, u8, u8)) -> Seq<
    u8,
> {
    let o = pixel_offset(width, x, y);
    bytes.update(o, rgb.0).update(o + 1, rgb.1).update(o + 2, rgb.2)
}

/// ASCII decimal digits of `n`, most significant first, without leading zeros.
pub open spec fn decimal(n: nat) -> Seq<u8>
    decreases n,
{
    if n < 10 {
        seq![(DIGIT_ZERO + n) as u8]
    } else {
        decimal(n / 10).push((DIGIT_ZERO + n % 10) as u8)
    }
}

/// Binary PPM header of a `width` x `height` image with maximum value 255:
/// `P6\n<width> <height>\n255\n`.
pub open spec fn ppm_header(width: nat, height: nat) -> Seq<u8> {
    seq![LETTER_P, DIGIT_SIX, NEWLINE] + decimal(width) + seq![SPACE] + decimal(height) + seq![
        NEWLINE,
        DIGIT_TWO,
        DIGIT_FIVE,
        DIGIT_FIVE,
        NEWLINE,
    ]
}

/// Appends the ASCII decimal digits of `n` to `out`.
pub fn push_decimal(out: &mut Vec<u8>, n: usize)
    ensures
        final(out)@ == old(out)@ + decimal(n as nat),
    decreases n,
{
    if n >= 10 {
        push_decimal(out, n / 10);
    }
    let digit = (n % 10) as u8;
    out.push(DIGIT_ZERO + digit);
    assert(out@ =~= old(out)@ + decimal(n as nat));
}

/// A frame as a mathematical value: its size and its bytes.
pub struct FrameView {
    pub width: usize,
    pub height: usize,
    pub bytes: Seq<u8>,
}

/// Whether a frame's bytes are exactly its pixels: three per pixel.
pub open spec fn frame_wf(f: FrameView) -> bool {
    f.bytes.len() == frame_len(f.width as int, f.height as int)
}

/// An RGB frame of `width` x `height` pixels, three bytes per pixel.
pub struct Frame {
    width: usize,
    height: usize,
    data: Vec<u8>,
}

impl View for Frame {
    type V = FrameView;

    closed spec fn view(&self) -> FrameView {
        FrameView { width: self.width, height: self.height, bytes: self.data@ }
    }
}

/// Every pixel of a frame lies inside its bytes.
pub proof fn lemma_pixel_in_bounds(width: int, height: int, x: int, y: int)
    requires
        0 <= x < width,
        0 <= y < height,
    ensures
        0 <= pixel_offset(width, x, y),
        pixel_offset(width, x, y) + 3 <= frame_len(width, height),
{
    assert(0 <= y * width + x) by (nonlinear_arith)
        requires
            0 <= x < width,
            0 <= y < height,
    ;
    assert(y * width + x + 1 <= width * height) by (nonlinear_arith)
        requires
            0 <= x < width,
            0 <= y < height,
    ;
}

/// Distinct pixels of a frame occupy disjoint bytes.
pub proof fn lemma_pixels_disjoint(width: int, x1: int, y1: int, x2: int, y2: int)
    requires
        0 <= x1 < width,
        0 <= x2 < width,
        0 <= y1,
        0 <= y2,
        x1 != x2 || y1 != y2,
    ensures
        pixel_offset(width, x1, y1) + 3 <= pixel_offset(width, x2, y2) || pixel_offset(
            width,
            x2,
            y2,
        ) + 3 <= pixel_offset(width, x1, y1),
{
    assert(y1 * width + x1 != y2 * width + x2) by (nonlinear_arith)
        requires
            0 <= x1 < width,
            0 <= x2 < width,
            0 <= y1,
            0 <= y2,
            x1 != x2 || y1 != y2,
    {
        if y1 < y2 {
            assert(y1 * width + width <= y2 * width);
        } else if y2 < y1 {
            assert(y2 * width + width <= y1 * width);
        }
    }
}

/// The number that a string of ASCII decimal digits spells.
pub open spec fn decimal_value(digits: Seq<u8>) -> nat
    decreases digits.len(),
{
    if digits.len() == 0 {
        0
    } else {
        decimal_value(digits.drop_last()) * 10 + (digits.last() - DIGIT_ZERO) as nat
    }
}

/// Whether a byte is an ASCII decimal digit.
pub open spec fn is_digit(b: u8) -> bool {
    DIGIT_ZERO <= b < DIGIT_ZERO + 10
}

/// The decimal digits of `n` are ASCII digits without a leading zero (unless
/// `n` is zero) and spell `n` back, so a PPM header gives back the
/// dimensions it was written with.
pub proof fn lemma_decimal_spells_value(n: nat)
    ensures
        decimal(n).len() >= 1,
        forall|i: int| 0 <= i < decimal(n).len() ==> is_digit(#[trigger] decimal(n)[i]),
        n >= 10 ==> decimal(n)[0] != DIGIT_ZERO,
        decimal_value(decimal(n)) == n,
    decreases n,
{
    if n >= 10 {
        lemma_decimal_spells_value(n / 10);
        assert(decimal(n).drop_last() =~= decimal(n / 10));
        assert(decimal(n).last() - DIGIT_ZERO == n % 10);
        assert((n / 10) * 10 + n % 10 == n);
        assert(decimal_value(decimal(n)) == decimal_value(decimal(n).drop_last()) * 10 + (
        decimal(n).last() - DIGIT_ZERO) as nat);
    } else {
        assert(decimal(n).drop_last() =~= Seq::<u8>::empty());
        assert(decimal(n).last() - DIGIT_ZERO == n);
        assert(decimal_value(decimal(n)) == decimal_value(decimal(n).drop_last()) * 10 + (
        decimal(n).last() - DIGIT_ZERO) as nat);
        assert(decimal_value(Seq::<u8>::empty()) == 0);
    }
}

/// A pixel reads back as the colour last written to it.
pub proof fn lemma_pixel_reads_back(
    bytes: Seq<u8>,
    width: int,
    height: int,
    x: int,
    y: int,
    rgb: (u8, u8, u8),
)
    requires
        bytes.len() == frame_len(width, height),
        0 <= x < width,
        0 <= y < height,
    ensures
        pixel_at(with_pixel(bytes, width, x, y, rgb), width, x, y) == rgb,
        with_pixel(bytes, width, x, y, rgb).len() == bytes.len(),
{
    lemma_pixel_in_bounds(width, height, x, y);
}

/// Writing one pixel leaves every other pixel as it was.
pub proof fn lemma_other_pixels_unchanged(
    bytes: Seq<u8>,
    width: int,
    height: int,
    x: int,
    y: int,
    rgb: (u8, u8, u8),
    x2: int,
    y2: int,
)
    requires
        bytes.len() == frame_len(width, height),
        0 <= x < width,
        0 <= y < height,
        0 <= x2 < width,
        0 <= y2 < height,
        x2 != x || y2 != y,
    ensures
        pixel_at(with_pixel(bytes, width, x, y, rgb), width, x2, y2) == pixel_at(
            bytes,
            width,
            x2,
            y2,
        ),
{
    lemma_pixel_in_bounds(width, height, x, y);
    lemma_pixel_in_bounds(width, height, x2, y2);
    lemma_pixels_disjoint(width, x, y, x2, y2);
}

/// Writes to two different pixels commute.
pub proof fn lemma_pixel_writes_commute(
    bytes: Seq<u8>,
    width: int,
    height: int,
    x1: int,
    y1: int,
    rgb1: (u8, u8, u8),
    x2: int,
    y2: int,
    rgb2: (u8, u8, u8),
)
    requires
        bytes.len() == frame_len(width, height),
        0 <= x1 < width,
        0 <= y1 < height,
        0 <= x2 < width,
        0 <= y2 < height,
        x1 != x2 || y1 != y2,
    ensures
        with_pixel(with_pixel(bytes, width, x1, y1, rgb1), width, x2, y2, rgb2) == with_pixel(
            with_pixel(bytes, width, x2, y2, rgb2),
            width,
            x1,
            y1,
            rgb1,
        ),
{
    lemma_pixel_in_bounds(width, height, x1, y1);
    lemma_pixel_in_bounds(width, height, x2, y2);
    lemma_pixels_disjoint(width, x1, y1, x2, y2);
    assert(with_pixel(with_pixel(bytes, width, x1, y1, rgb1), width, x2, y2, rgb2) =~= with_pixel(
        with_pixel(bytes, width, x2, y2, rgb2),
        width,
        x1,
        y1,
        rgb1,
    ));
}

/// Writing a pixel twice keeps only the second colour.
pub proof fn lemma_pixel_overwrite(
    bytes: Seq<u8>,
    width: int,
    height: int,
    x: int,
    y: int,
    rgb1: (u8, u8, u8),
    rgb2: (u8, u8, u8),
)
    requires
        bytes.len() == frame_len(width, height),
        0 <= x < width,
        0 <= y < height,
    ensures
        with_pixel(with_pixel(bytes, width, x, y, rgb1), width, x, y, rgb2) == with_pixel(
            bytes,
            width,
            x,
            y,
            rgb2,
        ),
{
    lemma_pixel_in_bounds(width, height, x, y);
    assert(with_pixel(with_pixel(bytes, width, x, y, rgb1), width, x, y, rgb2) =~= with_pixel(
        bytes,
        width,
        x,
        y,
        rgb2,
    ));
}

/// The PPM header reads back as the frame's own size, width first: it starts
/// with `P6\n`; whenever bytes `i` and `j` are the first space and the next
/// line feed after it (only digits before each), the digits between `P6\n`
/// and the space spell `width` and those between the space and the line
/// feed spell `height`; such positions exist, and `\n255\n` closes the
/// header right after the height.
pub proof fn lemma_ppm_header_reads_back(width: nat, height: nat)
    ensures
        ({
            let hdr = ppm_header(width, height);
            &&& hdr.subrange(0, 3) == seq![LETTER_P, DIGIT_SIX, NEWLINE]
            &&& forall|i: int, j: int|
                #![trigger hdr[i], hdr[j]]
                3 < i < j < hdr.len() && hdr[i] == SPACE && hdr[j] == NEWLINE && (forall|k: int|
                    3 <= k < i ==> is_digit(#[trigger] hdr[k])) && (forall|k: int|
                    i < k < j ==> is_digit(#[trigger] hdr[k])) ==> {
                    &&& decimal_value(hdr.subrange(3, i)) == width
                    &&& decimal_value(hdr.subrange(i + 1, j)) == height
                    &&& hdr.subrange(j, hdr.len() as int) == seq![
                        NEWLINE,
                        DIGIT_TWO,
                        DIGIT_FIVE,
                        DIGIT_FIVE,
                        NEWLINE,
                    ]
                }
            &&& exists|i: int, j: int|
                #![trigger hdr[i], hdr[j]]
                3 < i < j < hdr.len() && hdr[i] == SPACE && hdr[j] == NEWLINE && (forall|k: int|
                    3 <= k < i ==> is_digit(#[trigger] hdr[k])) && (forall|k: int|
                    i < k < j ==> is_digit(#[trigger] hdr[k]))
        }),
{
    let hdr = ppm_header(width, height);
    let dw = decimal(width);
    let dh = decimal(height);
    lemma_decimal_spells_value(width);
    lemma_decimal_spells_value(height);
    let i0: int = 3 + dw.len() as int;
    let j0: int = i0 + 1 + dh.len() as int;
    assert(hdr.len() == j0 + 5);
    assert forall|k: int| 3 <= k < i0 implies hdr[k] == dw[k - 3] by {}
    assert forall|k: int| i0 < k < j0 implies hdr[k] == dh[k - i0 - 1] by {}
    assert(hdr[i0] == SPACE);
    assert(hdr[j0] == NEWLINE);
    assert(hdr.subrange(0, 3) =~= seq![LETTER_P, DIGIT_SIX, NEWLINE]);
    assert(hdr.subrange(3, i0) =~= dw);
    assert(hdr.subrange(i0 + 1, j0) =~= dh);
    assert(hdr.subrange(j0, hdr.len() as int) =~= seq![
        NEWLINE,
        DIGIT_TWO,
        DIGIT_FIVE,
        DIGIT_FIVE,
        NEWLINE,
    ]);
    assert forall|k: int| 3 <= k < i0 implies is_digit(#[trigger] hdr[k]) by {
        assert(is_digit(dw[k - 3]));
    }
    assert forall|k: int| i0 < k < j0 implies is_digit(#[trigger] hdr[k]) by {
        assert(is_digit(dh[k - i0 - 1]));
    }
    assert forall|i: int, j: int|
        #![trigger hdr[i], hdr[j]]
        3 < i < j < hdr.len() && hdr[i] == SPACE && hdr[j] == NEWLINE && (forall|k: int|
            3 <= k < i ==> is_digit(#[trigger] hdr[k])) && (forall|k: int|
            i < k < j ==> is_digit(#[trigger] hdr[k])) implies i == i0 && j == j0 by {
        if i < i0 {
            assert(is_digit(hdr[i]));
        }
        if i > i0 {
            assert(is_digit(hdr[i0]));
        }
        if j < j0 {
            assert(is_digit(hdr[j]));
        }
        if j > j0 {
            assert(is_digit(hdr[j0]));
        }
    }
    assert(hdr[i0] == SPACE && hdr[j0] == NEWLINE);
}

impl Frame {
    /// A black frame of `width` x `height` pixels.
    pub fn new(width: usize, height: usize) -> (f: Frame)
        requires
            frame_len(width as int, height as int) <= usize::MAX,
        ensures
            frame_wf(f@),
            f@.width == width,
            f@.height == height,
            f@.bytes == Seq::new(frame_len(width as int, height as int) as nat, |i: int| 0u8),
    {
        assert(0 <= width * height <= width * height * 3) by (nonlinear_arith);
        let len = width * height * 3;
        let mut data: Vec<u8> = Vec::with_capacity(len);
        while data.len() < len
            invariant
                data@.len() <= len,
                forall|i: int| 0 <= i < data@.len() ==> data@[i] == 0u8,
            decreases len - data@.len(),
        {
            data.push(0u8);
        }
        let f = Frame { width, height, data };
        assert(f@.bytes =~= Seq::new(frame_len(width as int, height as int) as nat, |i: int| 0u8));
        f
    }

    /// Width in pixels.
    pub fn width(&self) -> (w: usize)
        ensures
            w == self@.width,
    {
        self.width
    }

    /// Height in pixels.
    pub fn height(&self) -> (h: usize)
        ensures
            h == self@.height,
    {
        self.height
    }

    /// The frame's bytes, row by row from the top, red, green, blue per pixel.
    pub fn bytes(&self) -> (b: &[u8])
        ensures
            b@ == self@.bytes,
    {
        self.data.as_slice()
    }

    /// Sets pixel (`x`, `y`) to the colour `rgb`.
    pub fn set_rgb(&mut self, x: usize, y: usize, rgb: (u8, u8, u8))
        requires
            frame_wf(old(self)@),
            x < old(self)@.width,
            y < old(self)@.height,
        ensures
            frame_wf(final(self)@),
            final(self)@.width == old(self)@.width,
            final(self)@.height == old(self)@.height,
            final(self)@.bytes == with_pixel(
                old(self)@.bytes,
                old(self)@.width as int,
                x as int,
                y as int,
                rgb,
            ),
    {
        let len = self.data.len();
        proof {
            lemma_pixel_in_bounds(self.width as int, self.height as int, x as int, y as int);
        }
        let o = (y * self.width + x) * 3;
        self.data.set(o, rgb.0);
        self.data.set(o + 1, rgb.1);
        self.data.set(o + 2, rgb.2);
    }

    /// The frame encoded as a binary PPM file: the header
    /// `P6\n<width> <height>\n255\n` followed by the pixel bytes.
    pub fn encode_ppm(&self) -> (out: Vec<u8>)
        ensures
            out@ == ppm_header(self@.width as nat, self@.height as nat) + self@.bytes,
    {
        let mut out: Vec<u8> = Vec::new();
        out.push(LETTER_P);
        out.push(DIGIT_SIX);
        out.push(NEWLINE);
        push_decimal(&mut out, self.width);
        out.push(SPACE);
        push_decimal(&mut out, self.height);
        out.push(NEWLINE);
        out.push(DIGIT_TWO);
        out.push(DIGIT_FIVE);
        out.push(DIGIT_FIVE);
        out.push(NEWLINE);
        let ghost header = out@;
        assert(header =~= ppm_header(self.width as nat, self.height as nat));
        let n = self.data.len();
        for i in 0..n
            invariant
                n == self.data@.len(),
                out@ =~= header + self.data@.subrange(0, i as int),
        {
            out.push(self.data[i]);
        }
        assert(self.data@.subrange(0, n as int) =~= self.data@);
        out
    }
}

} // verus!
