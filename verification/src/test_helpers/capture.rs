//! The arithmetic of reading a texture back from the GPU: rows in a copy
//! buffer are padded to the copy alignment, and the padding is stripped to
//! get tightly packed RGBA pixels.
use vstd::prelude::*;
use image::{ImageBuffer, Rgba};

verus! {

/// Bytes per RGBA8 pixel.
pub const BYTES_PER_PIXEL: u32 = 4;

/// Reads wgpu's `COPY_BYTES_PER_ROW_ALIGNMENT`, the alignment that a
/// texture-to-buffer copy requires of each row; wgpu-types defines it as
/// the constant 256.
#[verifier::external_body]
fn copy_bytes_per_row_alignment() -> (r: u32)
    ensures
        r == 256,
{
    wgpu::COPY_BYTES_PER_ROW_ALIGNMENT
}

/// The length of an unpadded row of `width` pixels, rounded up to a
/// multiple of the copy alignment.
pub open spec fn padded_row_len(width: u32) -> int {
    let unpadded = width * BYTES_PER_PIXEL;
    (unpadded + 255) / 256 * 256
}

/// The pixel rows of a padded buffer laid end to end: `rows` rows of
/// `row_len` bytes, row `r` starting at byte `r * stride` of `d`.
pub open spec fn unpadded_rows(d: Seq<u8>, row_len: int, stride: int, rows: int) -> Seq<u8>
    decreases rows,
{
    if rows <= 0 {
        Seq::empty()
    } else {
        unpadded_rows(d, row_len, stride, rows - 1) + d.subrange(
            (rows - 1) * stride,
            (rows - 1) * stride + row_len,
        )
    }
}

/// Whether the padded row length of a `width`-pixel row fits in a `u32`.
pub fn padded_row_fits(width: u32) -> (r: bool)
    ensures
        r == (padded_row_len(width) <= u32::MAX),
{
    let unpadded = (width as u64) * 4;
    (unpadded + 255) / 256 * 256 <= u32::MAX as u64
}

/// Whether `height` rows of `padded_bytes_per_row` bytes fit in a `u32`.
pub fn row_padding_fits(padded_bytes_per_row: u32, height: u32) -> (r: bool)
    ensures
        r == (padded_bytes_per_row * height <= u32::MAX),
{
    let p = padded_bytes_per_row as u64;
    let h = height as u64;
    assert(p * h <= 0xffff_ffff_ffff_ffffu64) by (nonlinear_arith)
        requires
            p <= 0xffff_ffffu64,
            h <= 0xffff_ffffu64,
    ;
    p * h <= u32::MAX as u64
}

/// Whether a buffer of `len` bytes holds `height` rows of `width` pixels
/// that start every `padded_bytes_per_row` bytes.
pub fn rows_fit(len: usize, width: u32, height: u32, padded_bytes_per_row: u32) -> (r: bool)
    ensures
        r == (height > 0 ==> (height - 1) * padded_bytes_per_row + width * BYTES_PER_PIXEL <= len),
{
    if height == 0 {
        return true;
    }
    let p = padded_bytes_per_row as u128;
    let h = (height - 1) as u128;
    assert(h * p <= 0xffff_ffff_ffff_ffff_ffff_ffff_ffff_ffffu128 / 2) by (nonlinear_arith)
        requires
            p <= 0xffff_ffffu128,
            h <= 0xffff_ffffu128,
    ;
    h * p + (width as u128) * 4 <= len as u128
}

/// Bytes per row of the copy buffer for a texture `width` pixels wide: the
/// row's length rounded up to the copy alignment.
pub fn padded_bytes_per_row(width: u32) -> (r: u32)
    requires
        padded_row_len(width) <= u32::MAX,
    ensures
        r == padded_row_len(width),
{
    let align = copy_bytes_per_row_alignment();
    let unpadded = width * BYTES_PER_PIXEL;
    let blocks = unpadded / align + if unpadded % align != 0 {
        1u32
    } else {
        0u32
    };
    blocks * align
}

/// Size of the copy buffer for `height` rows of `padded_bytes_per_row`
/// bytes each.
pub fn staging_buffer_size(padded_bytes_per_row: u32, height: u32) -> (r: u64)
    requires
        padded_bytes_per_row * height <= u32::MAX,
    ensures
        r == padded_bytes_per_row * height,
{
    (padded_bytes_per_row * height) as u64
}

/// Removes the row padding from a copy buffer: keeps the first
/// `width * 4` bytes of each of the `height` rows, which start every
/// `padded_bytes_per_row` bytes.
pub fn remove_row_padding(data: &[u8], width: u32, height: u32, padded_bytes_per_row: u32) -> (r: Vec<u8>)
    requires
        width * BYTES_PER_PIXEL <= u32::MAX,
        padded_bytes_per_row * height <= u32::MAX,
        height > 0 ==> (height - 1) * padded_bytes_per_row + width * BYTES_PER_PIXEL <= data@.len(),
    ensures
        r@ == unpadded_rows(data@, width * BYTES_PER_PIXEL, padded_bytes_per_row as int, height as int),
{
    let row_len = width * BYTES_PER_PIXEL;
    let n = data.len();
    let mut out: Vec<u8> = Vec::new();
    let mut row: u32 = 0;
    while row < height
        invariant
            row <= height,
            n == data@.len(),
            row_len == width * BYTES_PER_PIXEL,
            padded_bytes_per_row * height <= u32::MAX,
            height > 0 ==> (height - 1) * padded_bytes_per_row + row_len <= data@.len(),
            out@ == unpadded_rows(data@, row_len as int, padded_bytes_per_row as int, row as int),
        decreases height - row,
    {
        proof {
            assert(row * padded_bytes_per_row <= (height - 1) * padded_bytes_per_row) by (nonlinear_arith)
                requires
                    row < height,
            ;
            assert((height - 1) * padded_bytes_per_row <= padded_bytes_per_row * height) by (nonlinear_arith)
                requires
                    height > 0,
            ;
        }
        let start = (row * padded_bytes_per_row) as usize;
        assert(start + row_len <= data@.len());
        let end = start + row_len as usize;
        let ghost before = out@;
        let mut k: usize = start;
        while k < end
            invariant
                start <= k <= end <= data@.len(),
                out@ == before + data@.subrange(start as int, k as int),
            decreases end - k,
        {
            out.push(data[k]);
            proof {
                assert(data@.subrange(start as int, k + 1) =~= data@.subrange(start as int, k as int).push(
                    data@[k as int],
                ));
            }
            k = k + 1;
        }
        row = row + 1;
    }
    out
}

/// The padded row is the shortest multiple of the copy alignment that holds
/// the row: at least the row's length and less than one alignment more.
pub proof fn law_padded_row_is_aligned(width: u32)
    ensures
        padded_row_len(width) % 256 == 0,
        width * BYTES_PER_PIXEL <= padded_row_len(width) < width * BYTES_PER_PIXEL + 256,
{
}

/// Stripping the padding leaves exactly `width * 4` bytes per row.
pub proof fn law_unpadded_length(d: Seq<u8>, row_len: int, stride: int, rows: int)
    requires
        0 <= row_len,
        0 <= stride,
        0 <= rows,
        rows > 0 ==> (rows - 1) * stride + row_len <= d.len(),
    ensures
        unpadded_rows(d, row_len, stride, rows).len() == rows * row_len,
    decreases rows,
{
    if rows > 0 {
        assert((rows - 2) * stride + row_len <= (rows - 1) * stride + row_len) by (nonlinear_arith)
            requires
                0 <= stride,
        ;
        law_unpadded_length(d, row_len, stride, rows - 1);
        assert(rows * row_len == (rows - 1) * row_len + row_len) by (nonlinear_arith);
    }
}

/// The `image` crate's RGBA8 image buffer, ready to be saved.
#[verifier::external_body]
pub struct RawRgbaImage {
    pub pixels: ImageBuffer<Rgba<u8>, Vec<u8>>,
}

/// An RGBA8 image together with the size and the pixel bytes it was made
/// from.
pub struct RgbaImage {
    pub raw: RawRgbaImage,
    width: u32,
    height: u32,
    data: Ghost<Seq<u8>>,
}

impl RgbaImage {
    /// The image's width in pixels.
    pub closed spec fn width(&self) -> u32 {
        self.width
    }

    /// The image's height in pixels.
    pub closed spec fn height(&self) -> u32 {
        self.height
    }

    /// The bytes the image holds: its pixels row by row, four bytes each.
    pub closed spec fn data(&self) -> Seq<u8> {
        self.data@
    }
}

/// Calls `image::ImageBuffer::from_raw` for RGBA8 pixels: an image of the
/// given size over `data`, which it keeps as its buffer. The crate returns
/// `None` exactly when `data` is shorter than `4 * width * height` bytes,
/// that product overflowing `usize` included, which no `Vec` can then be as
/// long as.
#[verifier::external_body]
fn rgba_image_from_raw(width: u32, height: u32, data: Vec<u8>) -> (r: Option<RgbaImage>)
    ensures
        r is Some <==> 4 * width * height <= data@.len(),
        r matches Some(img) ==> img.width() == width && img.height() == height && img.data() == data@,
{
    let bytes: Ghost<Seq<u8>> = Ghost(data@);
    match ImageBuffer::from_raw(width, height, data) {
        Some(pixels) => Some(RgbaImage { raw: RawRgbaImage { pixels }, width, height, data: bytes }),
        None => None,
    }
}

/// RGBA8 pixel data as an image of `width` by `height` pixels holding
/// exactly those bytes, ready to be saved. The data must hold at least
/// `4 * width * height` bytes; otherwise the error says that no image could
/// be made from it.
pub fn rgba_image(width: u32, height: u32, data: &[u8]) -> (r: Result<RgbaImage, String>)
    ensures
        r is Ok <==> 4 * width * height <= data@.len(),
        r matches Ok(img) ==> img.width() == width && img.height() == height && img.data() == data@,
        r matches Err(e) ==> e@ == "Failed to create image buffer from raw data"@,
{
    let mut owned: Vec<u8> = Vec::new();
    let mut i: usize = 0;
    while i < data.len()
        invariant
            i <= data@.len(),
            owned@ == data@.take(i as int),
        decreases data@.len() - i,
    {
        owned.push(data[i]);
        proof {
            assert(data@.take(i + 1) == data@.take(i as int).push(data@[i as int]));
        }
        i = i + 1;
    }
    proof {
        assert(data@.take(data@.len() as int) == data@);
    }
    match rgba_image_from_raw(width, height, owned) {
        Some(img) => Ok(img),
        None => Err("Failed to create image buffer from raw data".to_string()),
    }
}

} // verus!
