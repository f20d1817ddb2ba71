//! In-game helpers: the bitmap file written for debug screenshots.
use vstd::prelude::*;
use vstd::string::*;

use crate::text::{decimal, push_decimal};

verus! {

/// The two little-endian bytes of a 16-bit value.
pub open spec fn le16(v: nat) -> Seq<u8> {
    seq![(v % 256) as u8, ((v / 256) % 256) as u8]
}

/// The four little-endian bytes of a 32-bit value.
pub open spec fn le32(v: nat) -> Seq<u8> {
    seq![
        (v % 256) as u8,
        ((v / 256) % 256) as u8,
        ((v / 65536) % 256) as u8,
        ((v / 16777216) % 256) as u8,
    ]
}

/// The four little-endian bytes of a signed 32-bit value (two's complement).
pub open spec fn le32_signed(v: int) -> Seq<u8> {
    le32(
        (if v >= 0 {
            v
        } else {
            v + 4294967296
        }) as nat,
    )
}

/// The value that four little-endian bytes encode.
pub open spec fn le32_value(b: Seq<u8>) -> nat {
    (b[0] + b[1] * 256 + b[2] * 65536 + b[3] * 16777216) as nat
}

/// Size of the BMP file header plus the BITMAPINFOHEADER.
pub const BMP_HEADER_SIZE: u32 = 54u32;

/// The 54 header bytes of a top-down 32-bit BMP of `w` by `h` pixels whose
/// pixel data has `pixel_size` bytes.
pub open spec fn bmp_header(w: i32, h: i32, pixel_size: nat) -> Seq<u8> {
    seq![66u8, 77u8] + le32(54 + pixel_size) + le16(0) + le16(0) + le32(54) + le32(40) + le32_signed(
        w as int,
    ) + le32_signed(-h) + le16(1) + le16(32) + le32(0) + le32(pixel_size) + le32_signed(0)
        + le32_signed(0) + le32(0) + le32(0)
}

/// Why a bitmap cannot be written.
#[derive(Debug, PartialEq, Eq)]
pub enum BmpError {
    /// The width is negative.
    NegativeWidth,
    /// The height is negative.
    NegativeHeight,
    /// `width * height * 4` does not fit in 32 bits.
    PixelSizeOverflow,
    /// The file size does not fit in 32 bits.
    FileSizeOverflow,
    /// The pixel buffer does not hold `width * height * 4` bytes: got, expected.
    PixelBufferSize(usize, u32),
}

/// The bytes of a 32-bit top-down BMP file, or why there are none.
pub open spec fn bmp_file(w: i32, h: i32, pixels: Seq<u8>) -> Result<Seq<u8>, BmpError> {
    if w < 0 {
        Err(BmpError::NegativeWidth)
    } else if h < 0 {
        Err(BmpError::NegativeHeight)
    } else if w * h * 4 > u32::MAX {
        Err(BmpError::PixelSizeOverflow)
    } else if 54 + w * h * 4 > u32::MAX {
        Err(BmpError::FileSizeOverflow)
    } else if pixels.len() != w * h * 4 {
        Err(BmpError::PixelBufferSize(pixels.len() as usize, (w * h * 4) as u32))
    } else {
        Ok(bmp_header(w, h, (w * h * 4) as nat) + pixels)
    }
}

fn push_le16(out: &mut Vec<u8>, v: u16)
    ensures
        final(out)@ == old(out)@ + le16(v as nat),
{
    out.push((v % 256) as u8);
    out.push(((v / 256) % 256) as u8);
    assert(final(out)@ =~= old(out)@ + le16(v as nat));
}

fn push_le32(out: &mut Vec<u8>, v: u32)
    ensures
        final(out)@ == old(out)@ + le32(v as nat),
{
    out.push((v % 256) as u8);
    out.push(((v / 256) % 256) as u8);
    out.push(((v / 65536) % 256) as u8);
    out.push(((v / 16777216) % 256) as u8);
    assert(final(out)@ =~= old(out)@ + le32(v as nat));
}

fn push_le32_signed(out: &mut Vec<u8>, v: i32)
    ensures
        final(out)@ == old(out)@ + le32_signed(v as int),
{
    let u: u32 = if v >= 0 {
        v as u32
    } else {
        ((v as i64) + 4294967296i64) as u32
    };
    push_le32(out, u);
}

/// The bytes of a 32-bit top-down BMP file of `width` by `height` pixels
/// whose BGRA pixel data is `pixels_bgra`: a 14-byte file header and a
/// 40-byte information header, then the pixels.
pub fn write_bmp_32bpp(width: i32, height: i32, pixels_bgra: &[u8]) -> (r: Result<Vec<u8>, BmpError>)
    ensures
        match bmp_file(width, height, pixels_bgra@) {
            Ok(b) => (r matches Ok(v) && v@ == b),
            Err(e) => (r matches Err(f) && f == e),
        },
{
    if width < 0 {
        return Err(BmpError::NegativeWidth);
    }
    if height < 0 {
        return Err(BmpError::NegativeHeight);
    }
    let width_u32 = width as u32;
    let height_u32 = height as u32;
    let area = match width_u32.checked_mul(height_u32) {
        Some(a) => a,
        None => {
            assert(width * height * 4 > u32::MAX) by (nonlinear_arith)
                requires
                    width * height > u32::MAX,
            ;
            return Err(BmpError::PixelSizeOverflow);
        },
    };
    let pixel_size = match area.checked_mul(4) {
        Some(p) => p,
        None => return Err(BmpError::PixelSizeOverflow),
    };
    let file_size = match BMP_HEADER_SIZE.checked_add(pixel_size) {
        Some(f) => f,
        None => return Err(BmpError::FileSizeOverflow),
    };
    if pixels_bgra.len() != pixel_size as usize {
        return Err(BmpError::PixelBufferSize(pixels_bgra.len(), pixel_size));
    }
    let mut out: Vec<u8> = Vec::new();
    out.push(66u8);
    out.push(77u8);
    push_le32(&mut out, file_size);
    push_le16(&mut out, 0);
    push_le16(&mut out, 0);
    push_le32(&mut out, BMP_HEADER_SIZE);
    push_le32(&mut out, 40);
    push_le32_signed(&mut out, width);
    push_le32_signed(&mut out, -height);
    push_le16(&mut out, 1);
    push_le16(&mut out, 32);
    push_le32(&mut out, 0);
    push_le32(&mut out, pixel_size);
    push_le32_signed(&mut out, 0);
    push_le32_signed(&mut out, 0);
    push_le32(&mut out, 0);
    push_le32(&mut out, 0);
    assert(out@ =~= bmp_header(width, height, pixel_size as nat));
    let ghost header = out@;
    let mut i: usize = 0;
    while i < pixels_bgra.len()
        invariant
            i <= pixels_bgra@.len(),
            out@ == header + pixels_bgra@.take(i as int),
        decreases pixels_bgra@.len() - i,
    {
        out.push(pixels_bgra[i]);
        i = i + 1;
        assert(out@ =~= header + pixels_bgra@.take(i as int));
    }
    assert(pixels_bgra@.take(pixels_bgra@.len() as int) =~= pixels_bgra@);
    Ok(out)
}


/// Four little-endian bytes decode back to the value they encode.
pub proof fn lemma_le32_roundtrip(v: nat)
    requires
        v <= u32::MAX,
    ensures
        le32(v).len() == 4,
        le32_value(le32(v)) == v,
{
    let b = le32(v);
    assert(b[0] == v % 256);
    assert(b[1] == (v / 256) % 256);
    assert(b[2] == (v / 65536) % 256);
    assert(b[3] == (v / 16777216) % 256);
    assert(v % 256 + ((v / 256) % 256) * 256 + ((v / 65536) % 256) * 65536 + ((v / 16777216) % 256)
        * 16777216 == v) by (nonlinear_arith)
        requires
            v <= u32::MAX,
    ;
}

/// A written bitmap is self-consistent: the size recorded in its file
/// header is its length, the pixel-data offset is 54, and the pixels follow
/// the header unchanged.
pub proof fn law_bmp_layout(w: i32, h: i32, pixels: Seq<u8>)
    requires
        bmp_file(w, h, pixels) is Ok,
    ensures
        ({
            let b = bmp_file(w, h, pixels)->Ok_0;
            &&& b.len() == 54 + pixels.len()
            &&& le32_value(b.subrange(2, 6)) == b.len()
            &&& le32_value(b.subrange(10, 14)) == 54
            &&& b.subrange(54, b.len() as int) == pixels
        }),
{
    let ps = (w * h * 4) as nat;
    let b = bmp_file(w, h, pixels)->Ok_0;
    lemma_le32_roundtrip(54 + ps);
    lemma_le32_roundtrip(54);
    assert(b.subrange(2, 6) =~= le32(54 + ps));
    assert(b.subrange(10, 14) =~= le32(54));
    assert(b.subrange(54, b.len() as int) =~= pixels);
}


/// `{prefix}_{ts_ms}.bmp`: the file name of a debug screenshot taken
/// `ts_ms` milliseconds after the Unix epoch.
pub fn screenshot_file_name(prefix: &str, ts_ms: u128) -> (r: String)
    ensures
        r@ == prefix@ + "_"@ + decimal(ts_ms as nat) + ".bmp"@,
{
    let mut r = prefix.to_owned();
    r.append("_");
    push_decimal(&mut r, ts_ms);
    r.append(".bmp");
    r
}

} // verus!
