//! The uncompressed 24-bit bitmap encoding of a frame of packed `0xRRGGBB` pixels:
//! a 54-byte header followed by the rows from the bottom one up, each pixel as
//! blue, green, red. Rows are written without padding.

use crate::color::Color;
use crate::grid::{cell_index, lemma_cell_index};
use vstd::prelude::*;

verus! {

/// Length in bytes of the file header and the image header together.
pub const BMP_HEADER_SIZE: usize = 54;

/// Offset of the first pixel byte from the start of the file.
pub const BMP_PIXEL_OFFSET: usize = 54;

/// Bits stored for each pixel.
pub const BMP_BITS_PER_PIXEL: usize = 24;

/// The two bytes of `x`, least significant first.
pub open spec fn le_bytes_u16(x: u16) -> Seq<u8> {
    seq![(x % 0x100) as u8, (x / 0x100) as u8]
}

/// The four bytes of `x`, least significant first.
pub open spec fn le_bytes_u32(x: u32) -> Seq<u8> {
    seq![
        (x % 0x100) as u8,
        ((x / 0x100) % 0x100) as u8,
        ((x / 0x1_0000) % 0x100) as u8,
        (x / 0x100_0000) as u8,
    ]
}

/// The number that the two bytes from position `at` on spell, least significant first.
pub open spec fn le_value_u16(bytes: Seq<u8>, at: int) -> int {
    bytes[at] + bytes[at + 1] * 0x100
}

/// The number that the four bytes from position `at` on spell, least significant first.
pub open spec fn le_value_u32(bytes: Seq<u8>, at: int) -> int {
    bytes[at] + bytes[at + 1] * 0x100 + bytes[at + 2] * 0x1_0000 + bytes[at + 3] * 0x100_0000
}

/// Number of pixel bytes of a `width` by `height` image.
pub open spec fn pixel_data_size(width: int, height: int) -> int {
    width * height * 3
}

/// Whether the dimensions and the file size of a `width` by `height` image
/// fit the 32-bit fields of the header.
pub open spec fn fits_header(width: int, height: int) -> bool {
    &&& 0 <= width <= u32::MAX
    &&& 0 <= height <= u32::MAX
    &&& BMP_HEADER_SIZE + pixel_data_size(width, height) <= u32::MAX
}

/// The header of a `width` by `height` image: the signature `BM`, the file
/// size, four reserved bytes, the pixel offset, then the 40-byte image header
/// with the dimensions, one plane, 24 bits per pixel, no compression, the
/// pixel data size, and zero for both resolutions and both palette counts.
pub open spec fn bmp_header(width: int, height: int) -> Seq<u8>
    recommends
        fits_header(width, height),
{
    seq![0x42u8, 0x4Du8]
        + le_bytes_u32((BMP_HEADER_SIZE + pixel_data_size(width, height)) as u32)
        + le_bytes_u32(0)
        + le_bytes_u32(BMP_PIXEL_OFFSET as u32)
        + le_bytes_u32(40)
        + le_bytes_u32(width as u32)
        + le_bytes_u32(height as u32)
        + le_bytes_u16(1)
        + le_bytes_u16(BMP_BITS_PER_PIXEL as u16)
        + le_bytes_u32(0)
        + le_bytes_u32(pixel_data_size(width, height) as u32)
        + le_bytes_u32(0)
        + le_bytes_u32(0)
        + le_bytes_u32(0)
        + le_bytes_u32(0)
}

/// Byte `i` of the pixel data. Pixels are stored row by row starting with the
/// last row of `buffer`, left to right within a row, three bytes each in the
/// order blue, green, red.
pub open spec fn pixel_byte(buffer: Seq<u32>, width: int, height: int, i: int) -> u8 {
    let pixel = i / 3;
    let row = pixel / width;
    let column = pixel % width;
    let color = Color::spec_from_hex(buffer[cell_index(width, column, height - 1 - row)]);
    if i % 3 == 0 {
        color.b
    } else if i % 3 == 1 {
        color.g
    } else {
        color.r
    }
}

/// The pixel data of the `width` by `height` image held row-major in `buffer`.
pub open spec fn pixel_bytes(buffer: Seq<u32>, width: int, height: int) -> Seq<u8> {
    Seq::new(pixel_data_size(width, height) as nat, |i: int| pixel_byte(buffer, width, height, i))
}

/// What a header says about its image.
#[derive(Debug, Clone, Copy, PartialEq, Eq, Structural)]
pub struct BmpHeader {
    /// Length of the whole file in bytes.
    pub file_size: u32,
    /// Pixels per row.
    pub width: u32,
    /// Number of rows.
    pub height: u32,
    /// Length of the pixel data in bytes.
    pub image_size: u32,
}

/// Whether `bytes` starts with a header in the layout of `bmp_header`: long
/// enough, signed `BM`, pixel data right behind a 40-byte image header, one
/// plane, 24 bits per pixel, uncompressed.
pub open spec fn is_bmp_header(bytes: Seq<u8>) -> bool {
    &&& bytes.len() >= BMP_HEADER_SIZE
    &&& bytes[0] == 0x42
    &&& bytes[1] == 0x4D
    &&& le_value_u32(bytes, 10) == BMP_PIXEL_OFFSET
    &&& le_value_u32(bytes, 14) == 40
    &&& le_value_u16(bytes, 26) == 1
    &&& le_value_u16(bytes, 28) == BMP_BITS_PER_PIXEL
    &&& le_value_u32(bytes, 30) == 0
}

/// The fields read from `bytes`, or `None` where `bytes` does not start with
/// a header of this layout.
pub open spec fn spec_parse_bmp_header(bytes: Seq<u8>) -> Option<BmpHeader> {
    if is_bmp_header(bytes) {
        Some(
            BmpHeader {
                file_size: le_value_u32(bytes, 2) as u32,
                width: le_value_u32(bytes, 18) as u32,
                height: le_value_u32(bytes, 22) as u32,
                image_size: le_value_u32(bytes, 34) as u32,
            },
        )
    } else {
        None
    }
}

fn push_u16_le(out: &mut Vec<u8>, x: u16)
    ensures
        final(out)@ == old(out)@ + le_bytes_u16(x),
{
    let low: u16 = x & 0xFF;
    let high: u16 = x >> 8;
    assert(low == x % 0x100 && high == x / 0x100 && high < 0x100) by (bit_vector)
        requires
            low == x & 0xFF,
            high == x >> 8,
    ;
    out.push(low as u8);
    out.push(high as u8);
    assert(out@ =~= old(out)@ + le_bytes_u16(x));
}

fn push_u32_le(out: &mut Vec<u8>, x: u32)
    ensures
        final(out)@ == old(out)@ + le_bytes_u32(x),
{
    let b0: u32 = x & 0xFF;
    let b1: u32 = (x >> 8) & 0xFF;
    let b2: u32 = (x >> 16) & 0xFF;
    let b3: u32 = x >> 24;
    assert(b0 == x % 0x100 && b1 == (x / 0x100) % 0x100 && b2 == (x / 0x1_0000) % 0x100 && b3 == x
        / 0x100_0000 && b3 < 0x100) by (bit_vector)
        requires
            b0 == x & 0xFF,
            b1 == (x >> 8) & 0xFF,
            b2 == (x >> 16) & 0xFF,
            b3 == x >> 24,
    ;
    out.push(b0 as u8);
    out.push(b1 as u8);
    out.push(b2 as u8);
    out.push(b3 as u8);
    assert(out@ =~= old(out)@ + le_bytes_u32(x));
}

fn read_u16_le(bytes: &[u8], at: usize) -> (x: u16)
    requires
        at + 2 <= bytes@.len(),
    ensures
        x == le_value_u16(bytes@, at as int),
{
    let low: u16 = bytes[at] as u16;
    let high: u16 = bytes[at + 1] as u16;
    let x: u16 = low | (high << 8);
    assert(x == low + high * 0x100) by (bit_vector)
        requires
            low < 0x100,
            high < 0x100,
            x == low | (high << 8),
    ;
    x
}

fn read_u32_le(bytes: &[u8], at: usize) -> (x: u32)
    requires
        at + 4 <= bytes@.len(),
    ensures
        x == le_value_u32(bytes@, at as int),
{
    let b0: u32 = bytes[at] as u32;
    let b1: u32 = bytes[at + 1] as u32;
    let b2: u32 = bytes[at + 2] as u32;
    let b3: u32 = bytes[at + 3] as u32;
    let x: u32 = b0 | (b1 << 8) | (b2 << 16) | (b3 << 24);
    assert(x == b0 + b1 * 0x100 + b2 * 0x1_0000 + b3 * 0x100_0000) by (bit_vector)
        requires
            b0 < 0x100,
            b1 < 0x100,
            b2 < 0x100,
            b3 < 0x100,
            x == b0 | (b1 << 8) | (b2 << 16) | (b3 << 24),
    ;
    x
}

/// Appends the 54-byte header of a `width` by `height` image to `out`.
pub fn write_bmp_header(out: &mut Vec<u8>, width: usize, height: usize)
    requires
        fits_header(width as int, height as int),
    ensures
        final(out)@ == old(out)@ + bmp_header(width as int, height as int),
        final(out)@.len() == old(out)@.len() + BMP_HEADER_SIZE,
{
    assert(width * height * 3 == pixel_data_size(width as int, height as int));
    assert(0 <= width * height <= width * height * 3) by (nonlinear_arith);
    let image_size: u32 = (width * height * 3) as u32;
    let file_size: u32 = BMP_HEADER_SIZE as u32 + image_size;
    let reserved: u32 = 0;
    let offset: u32 = BMP_PIXEL_OFFSET as u32;
    let dib_header_size: u32 = 40;
    let planes: u16 = 1;
    let bits_per_pixel: u16 = BMP_BITS_PER_PIXEL as u16;
    let compression: u32 = 0;
    let x_ppm: u32 = 0;
    let y_ppm: u32 = 0;
    let total_colors: u32 = 0;
    let important_colors: u32 = 0;

    out.push(0x42);
    out.push(0x4D);
    assert(out@ =~= old(out)@ + seq![0x42u8, 0x4Du8]);

    push_u32_le(out, file_size);
    push_u32_le(out, reserved);
    push_u32_le(out, offset);

    push_u32_le(out, dib_header_size);
    push_u32_le(out, width as u32);
    push_u32_le(out, height as u32);

    push_u16_le(out, planes);
    push_u16_le(out, bits_per_pixel);

    push_u32_le(out, compression);
    push_u32_le(out, image_size);
    push_u32_le(out, x_ppm);
    push_u32_le(out, y_ppm);

    push_u32_le(out, total_colors);
    push_u32_le(out, important_colors);
    assert(out@ =~= old(out)@ + bmp_header(width as int, height as int));
}

/// Appends the pixel data of the `width` by `height` image in `buffer` to
/// `out`: bottom row first, each pixel as blue, green, red. Pixels of `buffer`
/// past the image are not read.
pub fn write_pixel_data(out: &mut Vec<u8>, buffer: &[u32], width: usize, height: usize)
    requires
        width * height <= buffer@.len(),
    ensures
        final(out)@ == old(out)@ + pixel_bytes(buffer@, width as int, height as int),
        final(out)@.len() == old(out)@.len() + pixel_data_size(width as int, height as int),
{
    let ghost data = pixel_bytes(buffer@, width as int, height as int);
    let mut row: usize = 0;
    assert(out@ =~= old(out)@ + data.take(0));
    assert(buffer@.len() == buffer.len());
    while row < height
        invariant
            row <= height,
            width * height <= buffer@.len() <= usize::MAX,
            data == pixel_bytes(buffer@, width as int, height as int),
            0 <= 3 * (row * width) <= data.len(),
            out@ == old(out)@ + data.take(3 * (row * width)),
        decreases height - row,
    {
        let y: usize = height - 1 - row;
        let mut x: usize = 0;
        while x < width
            invariant
                x <= width,
                row < height,
                y == height - 1 - row,
                width * height <= buffer@.len() <= usize::MAX,
                data == pixel_bytes(buffer@, width as int, height as int),
                0 <= 3 * (row * width + x) <= data.len(),
                out@ == old(out)@ + data.take(3 * (row * width + x)),
            decreases width - x,
        {
            proof {
                lemma_cell_index(width as int, height as int, x as int, y as int);
                lemma_cell_index(width as int, height as int, x as int, row as int);
            }
            let index: usize = y * width + x;
            let color: Color = Color::from_hex(buffer[index]);
            let ghost done = 3 * (row * width + x);
            out.push(color.b);
            out.push(color.g);
            out.push(color.r);
            proof {
                assert(done + 3 <= data.len());
                assert((done + 0) / 3 == row * width + x && (done + 0) % 3 == 0);
                assert((done + 1) / 3 == row * width + x && (done + 1) % 3 == 1);
                assert((done + 2) / 3 == row * width + x && (done + 2) % 3 == 2);
                assert(data[done] == color.b);
                assert(data[done + 1] == color.g);
                assert(data[done + 2] == color.r);
                assert(out@ =~= old(out)@ + data.take(done + 3));
                assert(done + 3 == 3 * (row * width + (x + 1))) by (nonlinear_arith)
                    requires
                        done == 3 * (row * width + x),
                ;
            }
            x += 1;
        }
        proof {
            assert(row * width + width == (row + 1) * width) by (nonlinear_arith);
        }
        row += 1;
    }
    proof {
        assert(3 * (height * width) == data.len()) by (nonlinear_arith)
            requires
                data.len() == width * height * 3,
        ;
        assert(data.take(data.len() as int) =~= data);
    }
}

/// The largest number of pixels whose data still fits the header's size fields.
pub const BMP_MAX_PIXELS: usize = 1_431_655_747;

/// The whole file for the `width` by `height` image in `buffer`: header, then
/// pixel data. `None` where `buffer` holds fewer than `width * height` pixels
/// or the image is too large for the header's 32-bit fields.
pub fn encode_bmp(buffer: &[u32], width: usize, height: usize) -> (file: Option<Vec<u8>>)
    ensures
        file is Some <==> width * height <= buffer@.len() && fits_header(
            width as int,
            height as int,
        ),
        file matches Some(bytes) ==> bytes@ == bmp_header(width as int, height as int)
            + pixel_bytes(buffer@, width as int, height as int),
{
    let available: usize = buffer.len();
    let pixels: usize = match width.checked_mul(height) {
        Some(pixels) => pixels,
        None => {
            return None;
        },
    };
    if pixels > available || pixels > BMP_MAX_PIXELS || width > 0xFFFF_FFFF || height
        > 0xFFFF_FFFF {
        return None;
    }
    let mut file: Vec<u8> = Vec::new();
    write_bmp_header(&mut file, width, height);
    assert(file@ =~= bmp_header(width as int, height as int));
    write_pixel_data(&mut file, buffer, width, height);
    Some(file)
}

/// Reads the header at the start of `bytes`. Succeeds exactly on input that
/// starts with a header of the layout written by `write_bmp_header`.
pub fn parse_bmp_header(bytes: &[u8]) -> (header: Option<BmpHeader>)
    ensures
        header == spec_parse_bmp_header(bytes@),
{
    if bytes.len() < BMP_HEADER_SIZE {
        return None;
    }
    if bytes[0] != 0x42 || bytes[1] != 0x4D {
        return None;
    }
    let offset: u32 = read_u32_le(bytes, 10);
    let dib_header_size: u32 = read_u32_le(bytes, 14);
    let planes: u16 = read_u16_le(bytes, 26);
    let bits_per_pixel: u16 = read_u16_le(bytes, 28);
    let compression: u32 = read_u32_le(bytes, 30);
    if offset != BMP_PIXEL_OFFSET as u32 || dib_header_size != 40 || planes != 1 || bits_per_pixel
        != BMP_BITS_PER_PIXEL as u16 || compression != 0 {
        return None;
    }
    Some(
        BmpHeader {
            file_size: read_u32_le(bytes, 2),
            width: read_u32_le(bytes, 18),
            height: read_u32_le(bytes, 22),
            image_size: read_u32_le(bytes, 34),
        },
    )
}

/// Reading back what `le_bytes_u32` and `le_bytes_u16` spell gives the number.
pub proof fn lemma_le_round_trip(x: u32, y: u16)
    ensures
        le_value_u32(le_bytes_u32(x), 0) == x,
        le_value_u16(le_bytes_u16(y), 0) == y,
{
}

/// A written header parses, and parsing recovers the width, the height, the
/// pixel data size and the file size that it was written for, whatever bytes
/// follow the header.
pub proof fn lemma_header_round_trip(width: int, height: int, rest: Seq<u8>)
    requires
        fits_header(width, height),
    ensures
        bmp_header(width, height).len() == BMP_HEADER_SIZE,
        spec_parse_bmp_header(bmp_header(width, height) + rest) == Some(
            BmpHeader {
                file_size: (BMP_HEADER_SIZE + pixel_data_size(width, height)) as u32,
                width: width as u32,
                height: height as u32,
                image_size: pixel_data_size(width, height) as u32,
            },
        ),
{
    let header = bmp_header(width, height);
    let bytes = header + rest;
    let size = pixel_data_size(width, height);
    assert(0 <= size) by (nonlinear_arith)
        requires
            size == width * height * 3,
            0 <= width,
            0 <= height,
    ;
    lemma_le_round_trip((BMP_HEADER_SIZE + size) as u32, 1);
    lemma_le_round_trip(BMP_PIXEL_OFFSET as u32, BMP_BITS_PER_PIXEL as u16);
    lemma_le_round_trip(40, 0);
    lemma_le_round_trip(0, 0);
    lemma_le_round_trip(width as u32, 0);
    lemma_le_round_trip(height as u32, 0);
    lemma_le_round_trip(size as u32, 0);
    assert(header.len() == 54);
    assert forall|i: int| 0 <= i < 54 implies bytes[i] == header[i] by {}
    assert(header.subrange(2, 6) =~= le_bytes_u32((BMP_HEADER_SIZE + size) as u32));
    assert(header.subrange(10, 14) =~= le_bytes_u32(BMP_PIXEL_OFFSET as u32));
    assert(header.subrange(14, 18) =~= le_bytes_u32(40));
    assert(header.subrange(18, 22) =~= le_bytes_u32(width as u32));
    assert(header.subrange(22, 26) =~= le_bytes_u32(height as u32));
    assert(header.subrange(26, 28) =~= le_bytes_u16(1));
    assert(header.subrange(28, 30) =~= le_bytes_u16(BMP_BITS_PER_PIXEL as u16));
    assert(header.subrange(30, 34) =~= le_bytes_u32(0));
    assert(header.subrange(34, 38) =~= le_bytes_u32(size as u32));
}

} // verus!
