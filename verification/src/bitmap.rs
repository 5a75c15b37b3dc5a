//! The packed one-bit bitmap file: layout, writer, and what a reader gets back.
//!
//! The file is a Windows bitmap with a 40-byte information header, one bit per
//! pixel, a palette of black and white, no compression, rows stored bottom-up and
//! padded to a multiple of four bytes.

use vstd::prelude::*;
use crate::raster::{GrayRaster, RasterView};

verus! {

/// Length of the information header.
pub const INFO_HEADER_LEN: u32 = 40;

/// Offset of the first row: both headers and the two palette entries.
pub const PIXEL_OFFSET: u32 = 62;

/// Bytes that one stored row takes.
pub open spec fn row_len(width: nat) -> nat {
    ((width + 31) / 32) * 4
}

/// Length of the whole file for a raster of the given dimensions.
pub open spec fn file_len(width: nat, height: nat) -> nat {
    62 + row_len(width) * height
}

/// Palette index of a pixel: 1 (white) for a luminance above 127, else 0 (black);
/// 0 as well for the padding to the right of the raster.
pub open spec fn ink(raster: RasterView, x: int, y: int) -> int {
    if 0 <= x < raster.width && raster.pixels[y * raster.width + x] > 127 {
        1
    } else {
        0
    }
}

/// The byte that holds pixels `8 * k` to `8 * k + 7` of row `y`, leftmost pixel in
/// the highest bit.
pub open spec fn packed_byte(raster: RasterView, y: int, k: int) -> int {
    128 * ink(raster, 8 * k, y) + 64 * ink(raster, 8 * k + 1, y) + 32 * ink(raster, 8 * k + 2, y)
        + 16 * ink(raster, 8 * k + 3, y) + 8 * ink(raster, 8 * k + 4, y) + 4 * ink(
        raster,
        8 * k + 5,
        y,
    ) + 2 * ink(raster, 8 * k + 6, y) + ink(raster, 8 * k + 7, y)
}

/// A number below 2^16 as two bytes, low byte first.
pub open spec fn le_u16(v: int) -> Seq<u8> {
    seq![(v % 256) as u8, (v / 256 % 256) as u8]
}

/// A number below 2^32 as four bytes, low byte first.
pub open spec fn le_u32(v: int) -> Seq<u8> {
    seq![
        (v % 256) as u8,
        (v / 256 % 256) as u8,
        (v / 65536 % 256) as u8,
        (v / 16777216 % 256) as u8,
    ]
}

/// The number that four bytes of `file` from `at` on spell, low byte first.
pub open spec fn read_le_u32(file: Seq<u8>, at: int) -> int {
    file[at] + 256 * file[at + 1] + 65536 * file[at + 2] + 16777216 * file[at + 3]
}

/// The file header: signature, file length, two reserved words, pixel offset.
pub open spec fn file_header(width: nat, height: nat) -> Seq<u8> {
    seq![0x42u8, 0x4du8] + le_u32(file_len(width, height) as int) + le_u32(0) + le_u32(62)
}

/// The information header: its own length, width, height, one plane, one bit per
/// pixel, no compression, length of the pixel data, no resolution, two colours.
pub open spec fn info_header(width: nat, height: nat) -> Seq<u8> {
    le_u32(40) + le_u32(width as int) + le_u32(height as int) + le_u16(1) + le_u16(1) + le_u32(0)
        + le_u32((row_len(width) * height) as int) + le_u32(0) + le_u32(0) + le_u32(2) + le_u32(
        2,
    )
}

/// The palette: black, then white, each as blue, green, red and a zero byte.
pub open spec fn palette() -> Seq<u8> {
    seq![0u8, 0u8, 0u8, 0u8, 255u8, 255u8, 255u8, 0u8]
}

/// The rows, last row of the raster first.
pub open spec fn pixel_data(raster: RasterView) -> Seq<u8> {
    Seq::new(
        row_len(raster.width) * raster.height,
        |i: int|
            packed_byte(
                raster,
                raster.height - 1 - i / (row_len(raster.width) as int),
                i % (row_len(raster.width) as int),
            ) as u8,
    )
}

/// The whole bitmap file of a raster.
pub open spec fn bitmap_file(raster: RasterView) -> Seq<u8> {
    file_header(raster.width, raster.height) + info_header(raster.width, raster.height) + palette()
        + pixel_data(raster)
}

/// A raster that a bitmap file can hold: the buffer matches the dimensions, each
/// dimension fits the signed field of the header, and the file length fits its
/// unsigned one.
pub open spec fn fits_bitmap(raster: RasterView) -> bool {
    &&& raster.pixels.len() == raster.width * raster.height
    &&& raster.width <= 0x7fff_ffff
    &&& raster.height <= 0x7fff_ffff
    &&& file_len(raster.width, raster.height) <= 0xffff_ffff
}

/// Width that the header of `file` states.
pub open spec fn bitmap_width(file: Seq<u8>) -> int {
    read_le_u32(file, 18)
}

/// Height that the header of `file` states.
pub open spec fn bitmap_height(file: Seq<u8>) -> int {
    read_le_u32(file, 22)
}

/// Bits per pixel that the header of `file` states.
pub open spec fn bitmap_depth(file: Seq<u8>) -> int {
    file[28] + 256 * file[29]
}

/// Two to the power `7 - n`, for a bit position `n` counted from the left.
pub open spec fn bit_weight(n: int) -> int {
    if n == 0 {
        128
    } else if n == 1 {
        64
    } else if n == 2 {
        32
    } else if n == 3 {
        16
    } else if n == 4 {
        8
    } else if n == 5 {
        4
    } else if n == 6 {
        2
    } else {
        1
    }
}

/// Palette index that `file` stores for the pixel in column `x` of row `y`, rows
/// counted from the top of the picture.
pub open spec fn bitmap_index(file: Seq<u8>, x: int, y: int) -> int {
    let stored_row = bitmap_height(file) - 1 - y;
    let at = read_le_u32(file, 10) + stored_row * row_len(bitmap_width(file) as nat) + x / 8;
    (file[at] as int) / bit_weight(x % 8) % 2
}

/// Luminance that a reader of `file` sees at column `x` of row `y`: the palette
/// entry of the stored index. Both entries of the palette are grey, so the blue
/// byte of the entry is the luminance.
pub open spec fn bitmap_luminance(file: Seq<u8>, x: int, y: int) -> int {
    file[54 + 4 * bitmap_index(file, x, y)] as int
}

proof fn lemma_pixel_index(width: int, height: int, x: int, y: int)
    requires
        0 <= x < width,
        0 <= y < height,
    ensures
        0 <= y * width + x < width * height,
{
    assert(y * width >= 0) by (nonlinear_arith)
        requires
            y >= 0,
            width > 0,
    ;
    assert((y + 1) * width <= height * width) by (nonlinear_arith)
        requires
            y + 1 <= height,
            width > 0,
    ;
    assert((y + 1) * width == y * width + width) by (nonlinear_arith);
    assert(height * width == width * height) by (nonlinear_arith);
}

fn push_le_u16(out: &mut Vec<u8>, v: u16)
    ensures
        final(out)@ == old(out)@ + le_u16(v as int),
{
    out.push((v % 256) as u8);
    out.push((v / 256 % 256) as u8);
    assert(out@ =~= old(out)@ + le_u16(v as int));
}

fn push_le_u32(out: &mut Vec<u8>, v: u32)
    ensures
        final(out)@ == old(out)@ + le_u32(v as int),
{
    out.push((v % 256) as u8);
    out.push((v / 256 % 256) as u8);
    out.push((v / 65536 % 256) as u8);
    out.push((v / 16777216 % 256) as u8);
    assert(out@ =~= old(out)@ + le_u32(v as int));
}

/// Palette index of the pixel in column `x` of row `y`.
fn pixel_ink(raster: &GrayRaster, x: u64, y: u32) -> (r: u8)
    requires
        raster.well_formed(),
        y < raster.height,
    ensures
        r as int == ink(raster@, x as int, y as int),
        r <= 1,
{
    if x < raster.width as u64 {
        proof {
            lemma_pixel_index(raster.width as int, raster.height as int, x as int, y as int);
            assert(y as int * raster.width as int <= 0xffff_ffff * 0xffff_ffff) by (nonlinear_arith)
                requires
                    0 <= y as int <= 0xffff_ffff,
                    0 <= raster.width as int <= 0xffff_ffff,
            ;
        }
        let at = y as u64 * raster.width as u64 + x;
        let len = raster.pixels.len();
        assert(at < len);
        if raster.pixels[at as usize] > 127 {
            1
        } else {
            0
        }
    } else {
        0
    }
}

/// The `k`-th byte of row `y`.
fn pack_byte(raster: &GrayRaster, y: u32, k: u32) -> (r: u8)
    requires
        raster.well_formed(),
        y < raster.height,
    ensures
        r as int == packed_byte(raster@, y as int, k as int),
{
    let x = 8 * (k as u64);
    let b0 = pixel_ink(raster, x, y);
    let b1 = pixel_ink(raster, x + 1, y);
    let b2 = pixel_ink(raster, x + 2, y);
    let b3 = pixel_ink(raster, x + 3, y);
    let b4 = pixel_ink(raster, x + 4, y);
    let b5 = pixel_ink(raster, x + 5, y);
    let b6 = pixel_ink(raster, x + 6, y);
    let b7 = pixel_ink(raster, x + 7, y);
    128 * b0 + 64 * b1 + 32 * b2 + 16 * b3 + 8 * b4 + 4 * b5 + 2 * b6 + b7
}

/// Bytes of one stored row, for a width that a bitmap file can state.
fn stored_row_len(width: u32) -> (r: u32)
    requires
        width <= 0x7fff_ffff,
    ensures
        r as nat == row_len(width as nat),
        r <= 0x1000_0000,
{
    (width + 31) / 32 * 4
}

/// Writes a raster as a packed one-bit bitmap file.
pub fn pack_bitmap(raster: &GrayRaster) -> (file: Vec<u8>)
    requires
        fits_bitmap(raster@),
    ensures
        file@ == bitmap_file(raster@),
{
    let width = raster.width;
    let height = raster.height;
    let row = stored_row_len(width);
    let ghost view = raster@;
    assert(row as nat * height as nat == row_len(view.width) * view.height);
    assert(row as nat * height as nat <= 0xffff_ffff);
    let data_len: u32 = ((row as u64) * (height as u64)) as u32;
    let mut file: Vec<u8> = Vec::new();
    file.push(0x42);
    file.push(0x4d);
    push_le_u32(&mut file, PIXEL_OFFSET + data_len);
    push_le_u32(&mut file, 0);
    push_le_u32(&mut file, PIXEL_OFFSET);
    assert(file@ =~= file_header(view.width, view.height));
    push_le_u32(&mut file, INFO_HEADER_LEN);
    push_le_u32(&mut file, width);
    push_le_u32(&mut file, height);
    push_le_u16(&mut file, 1);
    push_le_u16(&mut file, 1);
    push_le_u32(&mut file, 0);
    push_le_u32(&mut file, data_len);
    push_le_u32(&mut file, 0);
    push_le_u32(&mut file, 0);
    push_le_u32(&mut file, 2);
    push_le_u32(&mut file, 2);
    assert(file@ =~= file_header(view.width, view.height) + info_header(view.width, view.height));
    file.push(0);
    file.push(0);
    file.push(0);
    file.push(0);
    file.push(255);
    file.push(255);
    file.push(255);
    file.push(0);
    let ghost head = file_header(view.width, view.height) + info_header(view.width, view.height)
        + palette();
    assert(file@ =~= head);
    let mut stored: u32 = 0;
    while stored < height
        invariant
            stored <= height,
            height == raster.height,
            width == raster.width,
            view == raster@,
            raster.well_formed(),
            row as nat == row_len(view.width),
            row as nat * height as nat <= 0xffff_ffff,
            file@ =~= head + pixel_data(view).take(stored as int * row as int),
        decreases height - stored,
    {
        let y = height - 1 - stored;
        let mut k: u32 = 0;
        proof {
            lemma_row_bounds(stored as int, height as int, row as int);
        }
        while k < row
            invariant
                k <= row,
                stored < height,
                y == height - 1 - stored,
                height == raster.height,
                width == raster.width,
                view == raster@,
                raster.well_formed(),
                row as nat == row_len(view.width),
                (stored as int + 1) * row as int <= height as int * row as int,
                stored as int * row as int >= 0,
                file@ =~= head + pixel_data(view).take(stored as int * row as int + k as int),
            decreases row - k,
        {
            let byte = pack_byte(raster, y, k);
            file.push(byte);
            proof {
                let at = stored as int * row as int + k as int;
                lemma_row_position(stored as int, k as int, row as int);
                assert((stored as int + 1) * row as int == stored as int * row as int + row as int)
                    by (nonlinear_arith);
                assert(height as int * row as int == row_len(view.width) * view.height)
                    by (nonlinear_arith)
                    requires
                        height as int == view.height as int,
                        row as int == row_len(view.width) as int,
                ;
                assert(pixel_data(view)[at] == byte);
                assert(pixel_data(view).take(at + 1) =~= pixel_data(view).take(at).push(byte));
            }
            k = k + 1;
        }
        proof {
            assert((stored as int + 1) * row as int == stored as int * row as int + row as int)
                by (nonlinear_arith);
        }
        stored = stored + 1;
    }
    proof {
        assert(stored as int * row as int == row_len(view.width) * view.height) by (nonlinear_arith)
            requires
                stored as int == view.height as int,
                row as int == row_len(view.width) as int,
        ;
        assert(pixel_data(view).take(stored as int * row as int) =~= pixel_data(view));
    }
    file
}

proof fn lemma_row_bounds(stored: int, height: int, row: int)
    requires
        0 <= stored < height,
        0 <= row,
    ensures
        (stored + 1) * row <= height * row,
        stored * row >= 0,
{
    assert((stored + 1) * row <= height * row) by (nonlinear_arith)
        requires
            stored + 1 <= height,
            0 <= row,
    ;
    assert(stored * row >= 0) by (nonlinear_arith)
        requires
            0 <= stored,
            0 <= row,
    ;
}

proof fn lemma_row_position(stored: int, k: int, row: int)
    requires
        0 <= stored,
        0 <= k < row,
    ensures
        (stored * row + k) / row == stored,
        (stored * row + k) % row == k,
{
    vstd::arithmetic::div_mod::lemma_fundamental_div_mod_converse(stored * row + k, row, stored, k);
}

/// Four bytes written low byte first spell the number they were written for.
pub proof fn lemma_le_u32_reads_back(v: int)
    requires
        0 <= v <= 0xffff_ffff,
    ensures
        le_u32(v).len() == 4,
        read_le_u32(le_u32(v), 0) == v,
{
}

/// The headers of a bitmap file state the raster's dimensions, one bit per pixel,
/// the length of the file and the place of the first row.
pub proof fn lemma_bitmap_header(raster: RasterView)
    requires
        fits_bitmap(raster),
    ensures
        bitmap_file(raster).len() == file_len(raster.width, raster.height),
        bitmap_file(raster)[0] == 0x42 && bitmap_file(raster)[1] == 0x4d,
        read_le_u32(bitmap_file(raster), 2) == file_len(raster.width, raster.height),
        read_le_u32(bitmap_file(raster), 10) == 62,
        bitmap_width(bitmap_file(raster)) == raster.width,
        bitmap_height(bitmap_file(raster)) == raster.height,
        bitmap_depth(bitmap_file(raster)) == 1,
        bitmap_file(raster).subrange(54, 62) == palette(),
        bitmap_file(raster).subrange(62, bitmap_file(raster).len() as int) == pixel_data(raster),
{
    let file = bitmap_file(raster);
    let fh = file_header(raster.width, raster.height);
    let ih = info_header(raster.width, raster.height);
    let total = file_len(raster.width, raster.height) as int;
    lemma_le_u32_reads_back(total);
    lemma_le_u32_reads_back(62);
    lemma_le_u32_reads_back(raster.width as int);
    lemma_le_u32_reads_back(raster.height as int);
    assert(fh.len() == 14);
    assert(ih.len() == 40);
    assert(fh.subrange(2, 6) =~= le_u32(total));
    assert(fh.subrange(10, 14) =~= le_u32(62));
    assert(ih.subrange(4, 8) =~= le_u32(raster.width as int));
    assert(ih.subrange(8, 12) =~= le_u32(raster.height as int));
    assert(ih.subrange(12, 14) =~= le_u16(1));
    assert(ih.subrange(14, 16) =~= le_u16(1));
    assert(forall|i: int| 0 <= i < 14 ==> file[i] == fh[i]);
    assert(forall|i: int| 0 <= i < 40 ==> file[14 + i] == ih[i]);
    assert(file[2] == le_u32(total)[0] && file[3] == le_u32(total)[1] && file[4] == le_u32(total)[2]
        && file[5] == le_u32(total)[3]) by {
        assert(fh.subrange(2, 6)[0] == fh[2]);
        assert(fh.subrange(2, 6)[1] == fh[3]);
        assert(fh.subrange(2, 6)[2] == fh[4]);
        assert(fh.subrange(2, 6)[3] == fh[5]);
    }
    assert(file[10] == 62 && file[11] == 0 && file[12] == 0 && file[13] == 0) by {
        assert(fh.subrange(10, 14)[0] == fh[10]);
        assert(fh.subrange(10, 14)[1] == fh[11]);
        assert(fh.subrange(10, 14)[2] == fh[12]);
        assert(fh.subrange(10, 14)[3] == fh[13]);
    }
    let w = le_u32(raster.width as int);
    assert(file[18] == w[0] && file[19] == w[1] && file[20] == w[2] && file[21] == w[3]) by {
        assert(ih.subrange(4, 8)[0] == ih[4]);
        assert(ih.subrange(4, 8)[1] == ih[5]);
        assert(ih.subrange(4, 8)[2] == ih[6]);
        assert(ih.subrange(4, 8)[3] == ih[7]);
    }
    let h = le_u32(raster.height as int);
    assert(file[22] == h[0] && file[23] == h[1] && file[24] == h[2] && file[25] == h[3]) by {
        assert(ih.subrange(8, 12)[0] == ih[8]);
        assert(ih.subrange(8, 12)[1] == ih[9]);
        assert(ih.subrange(8, 12)[2] == ih[10]);
        assert(ih.subrange(8, 12)[3] == ih[11]);
    }
    assert(file[28] == 1 && file[29] == 0) by {
        assert(ih.subrange(14, 16)[0] == ih[14]);
        assert(ih.subrange(14, 16)[1] == ih[15]);
    }
    assert(file.subrange(54, 62) =~= palette());
    assert(file.subrange(62, file.len() as int) =~= pixel_data(raster));
}

/// The lowest bit of what stands to the left of a run of `weight` values.
proof fn lemma_digit(high: int, bit: int, low: int, weight: int)
    requires
        0 <= high,
        0 <= bit <= 1,
        0 <= low < weight,
    ensures
        ((2 * high + bit) * weight + low) / weight % 2 == bit,
{
    vstd::arithmetic::div_mod::lemma_fundamental_div_mod_converse(
        (2 * high + bit) * weight + low,
        weight,
        2 * high + bit,
        low,
    );
}

/// The bit at place `n` from the left of a byte made of eight bits.
proof fn lemma_bit_of_byte(b0: int, b1: int, b2: int, b3: int, b4: int, b5: int, b6: int, b7: int, n: int)
    requires
        0 <= b0 <= 1,
        0 <= b1 <= 1,
        0 <= b2 <= 1,
        0 <= b3 <= 1,
        0 <= b4 <= 1,
        0 <= b5 <= 1,
        0 <= b6 <= 1,
        0 <= b7 <= 1,
        0 <= n < 8,
    ensures
        (128 * b0 + 64 * b1 + 32 * b2 + 16 * b3 + 8 * b4 + 4 * b5 + 2 * b6 + b7) / bit_weight(n) % 2
            == (if n == 0 {
            b0
        } else if n == 1 {
            b1
        } else if n == 2 {
            b2
        } else if n == 3 {
            b3
        } else if n == 4 {
            b4
        } else if n == 5 {
            b5
        } else if n == 6 {
            b6
        } else {
            b7
        }),
{
    let v = 128 * b0 + 64 * b1 + 32 * b2 + 16 * b3 + 8 * b4 + 4 * b5 + 2 * b6 + b7;
    if n == 0 {
        lemma_digit(0, b0, 64 * b1 + 32 * b2 + 16 * b3 + 8 * b4 + 4 * b5 + 2 * b6 + b7, 128);
        assert(v == (2 * 0 + b0) * 128 + (64 * b1 + 32 * b2 + 16 * b3 + 8 * b4 + 4 * b5 + 2 * b6 + b7));
    } else if n == 1 {
        lemma_digit(b0, b1, 32 * b2 + 16 * b3 + 8 * b4 + 4 * b5 + 2 * b6 + b7, 64);
        assert(v == (2 * b0 + b1) * 64 + (32 * b2 + 16 * b3 + 8 * b4 + 4 * b5 + 2 * b6 + b7));
    } else if n == 2 {
        lemma_digit(2 * b0 + b1, b2, 16 * b3 + 8 * b4 + 4 * b5 + 2 * b6 + b7, 32);
        assert(v == (2 * (2 * b0 + b1) + b2) * 32 + (16 * b3 + 8 * b4 + 4 * b5 + 2 * b6 + b7));
    } else if n == 3 {
        lemma_digit(4 * b0 + 2 * b1 + b2, b3, 8 * b4 + 4 * b5 + 2 * b6 + b7, 16);
        assert(v == (2 * (4 * b0 + 2 * b1 + b2) + b3) * 16 + (8 * b4 + 4 * b5 + 2 * b6 + b7));
    } else if n == 4 {
        lemma_digit(8 * b0 + 4 * b1 + 2 * b2 + b3, b4, 4 * b5 + 2 * b6 + b7, 8);
        assert(v == (2 * (8 * b0 + 4 * b1 + 2 * b2 + b3) + b4) * 8 + (4 * b5 + 2 * b6 + b7));
    } else if n == 5 {
        lemma_digit(16 * b0 + 8 * b1 + 4 * b2 + 2 * b3 + b4, b5, 2 * b6 + b7, 4);
        assert(v == (2 * (16 * b0 + 8 * b1 + 4 * b2 + 2 * b3 + b4) + b5) * 4 + (2 * b6 + b7));
    } else if n == 6 {
        lemma_digit(32 * b0 + 16 * b1 + 8 * b2 + 4 * b3 + 2 * b4 + b5, b6, b7, 2);
        assert(v == (2 * (32 * b0 + 16 * b1 + 8 * b2 + 4 * b3 + 2 * b4 + b5) + b6) * 2 + b7);
    } else {
        lemma_digit(64 * b0 + 32 * b1 + 16 * b2 + 8 * b3 + 4 * b4 + 2 * b5 + b6, b7, 0, 1);
        assert(v == (2 * (64 * b0 + 32 * b1 + 16 * b2 + 8 * b3 + 4 * b4 + 2 * b5 + b6) + b7) * 1 + 0);
    }
}

/// A reader of the bitmap file finds, at every pixel of the raster, the palette
/// index that the writer chose for it, and sees black or white there and no other
/// luminance.
pub proof fn lemma_bitmap_pixel(raster: RasterView, x: int, y: int)
    requires
        fits_bitmap(raster),
        0 <= x < raster.width,
        0 <= y < raster.height,
    ensures
        bitmap_index(bitmap_file(raster), x, y) == ink(raster, x, y),
        bitmap_luminance(bitmap_file(raster), x, y) == 255 * ink(raster, x, y),
        bitmap_luminance(bitmap_file(raster), x, y) == 0 || bitmap_luminance(
            bitmap_file(raster),
            x,
            y,
        ) == 255,
{
    let file = bitmap_file(raster);
    let row = row_len(raster.width) as int;
    let stored_row = raster.height - 1 - y;
    let k = x / 8;
    let at = stored_row * row + k;
    lemma_bitmap_header(raster);
    assert(0 <= k < row);
    lemma_row_position(stored_row, k, row);
    lemma_row_bounds(stored_row, raster.height as int, row);
    assert((stored_row + 1) * row == stored_row * row + row) by (nonlinear_arith);
    assert(raster.height * row == row * raster.height) by (nonlinear_arith);
    assert(0 <= at < pixel_data(raster).len());
    assert(file[62 + at] == file.subrange(62, file.len() as int)[at]);
    assert(pixel_data(raster)[at] == packed_byte(raster, y, k) as u8);
    let byte = packed_byte(raster, y, k);
    assert(0 <= byte <= 255);
    assert(file[62 + at] as int == byte);
    let n = x % 8;
    assert(x == 8 * k + n);
    lemma_bit_of_byte(
        ink(raster, 8 * k, y),
        ink(raster, 8 * k + 1, y),
        ink(raster, 8 * k + 2, y),
        ink(raster, 8 * k + 3, y),
        ink(raster, 8 * k + 4, y),
        ink(raster, 8 * k + 5, y),
        ink(raster, 8 * k + 6, y),
        ink(raster, 8 * k + 7, y),
        n,
    );
    assert(byte / bit_weight(n) % 2 == ink(raster, x, y));
    assert(file.subrange(54, 62)[0] == file[54]);
    assert(file.subrange(54, 62)[4] == file[58]);
}

/// The bitmap file of a raster of black and white shows that raster unchanged.
pub proof fn lemma_bitmap_keeps_two_level(raster: RasterView, x: int, y: int)
    requires
        fits_bitmap(raster),
        crate::raster::is_two_level(raster.pixels),
        0 <= x < raster.width,
        0 <= y < raster.height,
    ensures
        bitmap_luminance(bitmap_file(raster), x, y) == raster.pixels[y * raster.width + x],
{
    lemma_bitmap_pixel(raster, x, y);
    lemma_pixel_index(raster.width as int, raster.height as int, x, y);
}

} // verus!
