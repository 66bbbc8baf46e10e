//! CPU-side repacking of mapped GPU texture rows (row pitch may exceed the pixel row), and the
//! compute-shader dispatch size of the colour converter.

use vstd::prelude::*;

verus! {

/// `DXGI_FORMAT` codes of the one- and two-channel 8-bit formats that can be read back.
pub const DXGI_FORMAT_R8G8_UNORM: i32 = 49;

pub const DXGI_FORMAT_R8G8_UINT: i32 = 50;

pub const DXGI_FORMAT_R8G8_SNORM: i32 = 51;

pub const DXGI_FORMAT_R8_UNORM: i32 = 61;

pub const DXGI_FORMAT_R8_UINT: i32 = 62;

pub const DXGI_FORMAT_R8_SNORM: i32 = 63;

/// The texture format cannot be read back to bytes.
#[derive(Clone, Copy, Debug, PartialEq, Eq, Structural)]
pub struct UnsupportedFormat(pub i32);

/// Bytes per pixel of a readable 8-bit format: 1 for R8, 2 for R8G8.
pub fn bytes_per_pixel(format: i32) -> (r: Result<u32, UnsupportedFormat>)
    ensures
        (format == DXGI_FORMAT_R8_UINT || format == DXGI_FORMAT_R8_UNORM || format
            == DXGI_FORMAT_R8_SNORM) ==> r == Ok::<u32, UnsupportedFormat>(1),
        (format == DXGI_FORMAT_R8G8_UINT || format == DXGI_FORMAT_R8G8_UNORM || format
            == DXGI_FORMAT_R8G8_SNORM) ==> r == Ok::<u32, UnsupportedFormat>(2),
        !(format == DXGI_FORMAT_R8_UINT || format == DXGI_FORMAT_R8_UNORM || format
            == DXGI_FORMAT_R8_SNORM || format == DXGI_FORMAT_R8G8_UINT || format
            == DXGI_FORMAT_R8G8_UNORM || format == DXGI_FORMAT_R8G8_SNORM) ==> r == Err::<
            u32,
            UnsupportedFormat,
        >(UnsupportedFormat(format)),
{
    if format == DXGI_FORMAT_R8_UINT || format == DXGI_FORMAT_R8_UNORM || format
        == DXGI_FORMAT_R8_SNORM {
        Ok(1)
    } else if format == DXGI_FORMAT_R8G8_UINT || format == DXGI_FORMAT_R8G8_UNORM || format
        == DXGI_FORMAT_R8G8_SNORM {
        Ok(2)
    } else {
        Err(UnsupportedFormat(format))
    }
}

/// Tight rows of `row_bytes` bytes each, read from `height` rows that start `row_pitch` apart.
pub open spec fn spec_tight_rows(mapped: Seq<u8>, row_pitch: int, row_bytes: int, height: int) -> Seq<u8> {
    Seq::new(
        (row_bytes * height) as nat,
        |k: int| mapped[(k / row_bytes) * row_pitch + k % row_bytes],
    )
}

/// The mapped rows cover every byte read.
pub open spec fn rows_fit(len: int, row_pitch: int, row_bytes: int, height: int) -> bool {
    height == 0 || (height - 1) * row_pitch + row_bytes <= len
}

proof fn lemma_row_index(r: int, c: int, pitch: int, row_bytes: int, height: int)
    by (nonlinear_arith)
    requires
        0 <= r < height,
        0 <= c < row_bytes,
        0 <= pitch,
    ensures
        0 <= r * pitch + c < (height - 1) * pitch + row_bytes,
        r * row_bytes + c < row_bytes * height,
        r * row_bytes <= r * row_bytes + c,
{
}

proof fn lemma_div_mod_row(r: int, c: int, w: int)
    requires
        0 <= r,
        0 <= c < w,
    ensures
        (r * w + c) / w == r,
        (r * w + c) % w == c,
{
    vstd::arithmetic::div_mod::lemma_fundamental_div_mod_converse(r * w + c, w, r, c);
}

/// Copy `height` rows of `row_bytes` bytes from a mapped buffer with `row_pitch` bytes per row
/// into a tightly packed buffer.
pub fn copy_rows_tight(mapped: &[u8], row_pitch: usize, row_bytes: usize, height: usize) -> (r:
    Vec<u8>)
    requires
        rows_fit(mapped.len() as int, row_pitch as int, row_bytes as int, height as int),
        row_bytes * height <= usize::MAX,
    ensures
        r@ == spec_tight_rows(mapped@, row_pitch as int, row_bytes as int, height as int),
{
    let ghost want = spec_tight_rows(mapped@, row_pitch as int, row_bytes as int, height as int);
    let mut out: Vec<u8> = Vec::new();
    let mut row: usize = 0;
    while row < height
        invariant
            row <= height,
            rows_fit(mapped.len() as int, row_pitch as int, row_bytes as int, height as int),
            row_bytes * height <= usize::MAX,
            want == spec_tight_rows(mapped@, row_pitch as int, row_bytes as int, height as int),
            out@ == want.subrange(0, row * row_bytes),
        decreases height - row,
    {
        let mut col: usize = 0;
        while col < row_bytes
            invariant
                row < height,
                col <= row_bytes,
                rows_fit(mapped.len() as int, row_pitch as int, row_bytes as int, height as int),
                row_bytes * height <= usize::MAX,
                want == spec_tight_rows(mapped@, row_pitch as int, row_bytes as int, height as int),
                out@ == want.subrange(0, row * row_bytes + col),
            decreases row_bytes - col,
        {
            proof {
                lemma_row_index(row as int, col as int, row_pitch as int, row_bytes as int, height as int);
                lemma_div_mod_row(row as int, col as int, row_bytes as int);
            }
            let b = mapped[row * row_pitch + col];
            assert(want[row * row_bytes + col] == b);
            out.push(b);
            col += 1;
            assert(out@ =~= want.subrange(0, row * row_bytes + col));
        }
        row += 1;
        assert((row - 1) * row_bytes + row_bytes == row * row_bytes) by (nonlinear_arith);
    }
    assert(height * row_bytes == row_bytes * height) by (nonlinear_arith);
    assert(out@ =~= want);
    out
}

/// Byte `k` of the RGBA image read from BGRA rows: channels 0 and 2 swap, 1 and 3 stay.
pub open spec fn spec_bgra_to_rgba(mapped: Seq<u8>, row_pitch: int, width: int, height: int) -> Seq<u8> {
    Seq::new(
        (width * 4 * height) as nat,
        |k: int| {
            let x = k % (width * 4);
            let src = (k / (width * 4)) * row_pitch + x - x % 4 + if x % 4 == 0 {
                2
            } else if x % 4 == 2 {
                0
            } else {
                x % 4
            };
            mapped[src]
        },
    )
}

/// Copy a mapped BGRA texture to tightly packed RGBA rows.
pub fn bgra_rows_to_rgba(mapped: &[u8], row_pitch: usize, width: usize, height: usize) -> (r: Vec<
    u8,
>)
    requires
        width * 4 <= usize::MAX,
        width * 4 * height <= usize::MAX,
        rows_fit(mapped.len() as int, row_pitch as int, width * 4, height as int),
    ensures
        r@ == spec_bgra_to_rgba(mapped@, row_pitch as int, width as int, height as int),
{
    let ghost want = spec_bgra_to_rgba(mapped@, row_pitch as int, width as int, height as int);
    let w4: usize = width * 4;
    let mut out: Vec<u8> = Vec::new();
    let mut row: usize = 0;
    while row < height
        invariant
            row <= height,
            w4 == width * 4,
            rows_fit(mapped.len() as int, row_pitch as int, w4 as int, height as int),
            w4 * height <= usize::MAX,
            want == spec_bgra_to_rgba(mapped@, row_pitch as int, width as int, height as int),
            out@ == want.subrange(0, row * w4),
        decreases height - row,
    {
        let mut col: usize = 0;
        while col < width
            invariant
                row < height,
                col <= width,
                w4 == width * 4,
                rows_fit(mapped.len() as int, row_pitch as int, w4 as int, height as int),
                w4 * height <= usize::MAX,
                want == spec_bgra_to_rgba(mapped@, row_pitch as int, width as int, height as int),
                out@ == want.subrange(0, row * w4 + col * 4),
            decreases width - col,
        {
            let o = col * 4;
            proof {
                lemma_row_index(row as int, o + 3, row_pitch as int, w4 as int, height as int);
                lemma_row_index(row as int, o as int, row_pitch as int, w4 as int, height as int);
                lemma_div_mod_row(row as int, o as int, w4 as int);
                lemma_div_mod_row(row as int, o + 1, w4 as int);
                lemma_div_mod_row(row as int, o + 2, w4 as int);
                lemma_div_mod_row(row as int, o + 3, w4 as int);
            }
            let base = row * row_pitch + o;
            let b = mapped[base];
            let g = mapped[base + 1];
            let r = mapped[base + 2];
            let a = mapped[base + 3];
            let ghost k = row * w4 + o;
            assert((o as int) % 4 == 0 && (o + 1) % 4 == 1 && (o + 2) % 4 == 2 && (o + 3) % 4 == 3);
            assert(want[k] == r);
            assert(want[k + 1] == g);
            assert(want[k + 2] == b);
            assert(want[k + 3] == a);
            out.push(r);
            out.push(g);
            out.push(b);
            out.push(a);
            col += 1;
            assert(out@ =~= want.subrange(0, row * w4 + col * 4));
        }
        row += 1;
        assert((row - 1) * w4 + width * 4 == row * w4) by (nonlinear_arith)
            requires
                w4 == width * 4,
        ;
    }
    assert(height * w4 == width * 4 * height) by (nonlinear_arith)
        requires
            w4 == width * 4,
    ;
    assert(out@ =~= want);
    out
}

/// Thread groups of the 16x16 colour-conversion compute shader covering a `width` x `height`
/// frame.
pub fn dispatch_groups(width: u32, height: u32) -> (r: (u32, u32))
    requires
        width + 15 <= u32::MAX,
        height + 15 <= u32::MAX,
    ensures
        r.0 == (width + 15) / 16,
        r.1 == (height + 15) / 16,
{
    ((width + 15) / 16, (height + 15) / 16)
}

} // verus!
