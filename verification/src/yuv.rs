//! Planar 4:2:0 layouts: I420 (`Y`, `U`, `V` planes) and NV12 (`Y`, interleaved `UV`), plus the
//! frame geometry they are sized from.

use vstd::prelude::*;
use vstd::arithmetic::div_mod::lemma_fundamental_div_mod_converse;

use crate::annexb::extend_bytes;

verus! {

/// Pixel dimensions of a full-resolution frame.
#[derive(Clone, Copy, Debug, PartialEq, Eq, Structural)]
pub struct FrameSize {
    pub width: u32,
    pub height: u32,
}

impl FrameSize {
    /// Chroma plane size for 4:2:0 subsampling (rounded up).
    pub fn chroma_size(&self) -> (r: (u32, u32))
        requires
            self.width < u32::MAX,
            self.height < u32::MAX,
        ensures
            r.0 == (self.width + 1) / 2,
            r.1 == (self.height + 1) / 2,
    {
        ((self.width + 1) / 2, (self.height + 1) / 2)
    }
}

/// Why a frame buffer could not be repacked.
#[derive(Clone, Copy, Debug, PartialEq, Eq, Structural)]
pub enum YuvError {
    /// The 4:2:0 repacking needs an even width and height.
    OddDimensions,
    /// The luma plane holds fewer than `width * height` bytes.
    LumaTooSmall,
    /// The interleaved chroma plane is shorter than its rows require.
    ChromaTooSmall,
    /// `width * height` (or the chroma size) does not fit in `usize`.
    SizeOverflow,
    /// The I420 buffer is shorter than `Y + U + V`.
    BufferTooSmall,
}

/// Byte `k` of the I420 frame assembled from a luma plane and an interleaved chroma readback
/// whose rows hold `(width + 1) / 2` Cb,Cr pairs.
pub open spec fn i420_from_readback_at(y: Seq<u8>, uv: Seq<u8>, w: int, h: int, k: int) -> u8 {
    let ys = w * h;
    let cw = w / 2;
    let ch = h / 2;
    let uw = (w + 1) / 2;
    if k < ys {
        y[k]
    } else if k < ys + cw * ch {
        let t = k - ys;
        uv[((t / cw) * uw + t % cw) * 2]
    } else {
        let t = k - ys - cw * ch;
        uv[((t / cw) * uw + t % cw) * 2 + 1]
    }
}

/// I420 frame (`Y`, then `U`, then `V`) from a luma plane and an interleaved chroma readback.
pub open spec fn spec_nv12_readback_to_i420(y: Seq<u8>, uv: Seq<u8>, w: int, h: int) -> Seq<u8> {
    Seq::new(
        (w * h + 2 * ((w / 2) * (h / 2))) as nat,
        |k: int| i420_from_readback_at(y, uv, w, h, k),
    )
}

/// Byte `k` of the NV12 frame built from an I420 frame: the luma plane, then Cb,Cr pairs.
pub open spec fn nv12_from_i420_at(i420: Seq<u8>, w: int, h: int, k: int) -> u8 {
    let ys = w * h;
    let c = (w / 2) * (h / 2);
    if k < ys {
        i420[k]
    } else if (k - ys) % 2 == 0 {
        i420[ys + (k - ys) / 2]
    } else {
        i420[ys + c + (k - ys) / 2]
    }
}

/// NV12 frame built from the first `Y + U + V` bytes of an I420 frame.
pub open spec fn spec_i420_to_nv12(i420: Seq<u8>, w: int, h: int) -> Seq<u8> {
    Seq::new(
        (w * h + 2 * ((w / 2) * (h / 2))) as nat,
        |k: int| nv12_from_i420_at(i420, w, h, k),
    )
}

proof fn lemma_grid(r: int, c: int, w: int, h: int)
    by (nonlinear_arith)
    requires
        0 <= r < h,
        0 <= c < w,
    ensures
        0 <= r * w <= r * w + c < w * h,
        r * w + w <= w * h,
{
}

proof fn lemma_mul_mono(a: int, b: int, c: int, d: int)
    by (nonlinear_arith)
    requires
        0 <= a <= c,
        0 <= b <= d,
    ensures
        0 <= a * b <= c * d,
{
}

proof fn lemma_row_col(r: int, c: int, w: int)
    requires
        0 <= r,
        0 <= c < w,
    ensures
        (r * w + c) / w == r,
        (r * w + c) % w == c,
{
    lemma_fundamental_div_mod_converse(r * w + c, w, r, c);
}

/// Converting an I420 frame to NV12 and reading the NV12 planes back as I420 restores the frame
/// (for even dimensions, where chroma rows hold exactly `width / 2` pairs).
pub proof fn law_i420_nv12_roundtrip(i420: Seq<u8>, w: int, h: int)
    requires
        w >= 0,
        h >= 0,
        w % 2 == 0,
        h % 2 == 0,
        i420.len() >= w * h + 2 * ((w / 2) * (h / 2)),
    ensures
        ({
            let nv12 = spec_i420_to_nv12(i420, w, h);
            let ys = w * h;
            spec_nv12_readback_to_i420(nv12.subrange(0, ys), nv12.subrange(ys, nv12.len() as int), w, h)
                == i420.subrange(0, ys + 2 * ((w / 2) * (h / 2)))
        }),
{
    let nv12 = spec_i420_to_nv12(i420, w, h);
    let ys = w * h;
    let cw = w / 2;
    let ch = h / 2;
    let c = cw * ch;
    lemma_mul_mono(cw, ch, w, h);
    let y = nv12.subrange(0, ys);
    let uv = nv12.subrange(ys, nv12.len() as int);
    let back = spec_nv12_readback_to_i420(y, uv, w, h);
    let orig = i420.subrange(0, ys + 2 * c);
    assert forall|k: int| 0 <= k < back.len() implies back[k] == orig[k] by {
        if k >= ys {
            let t = if k < ys + c { k - ys } else { k - ys - c };
            assert(cw > 0);
            vstd::arithmetic::div_mod::lemma_fundamental_div_mod(t, cw);
            assert((t / cw) * cw + t % cw == t) by (nonlinear_arith)
                requires t == cw * (t / cw) + t % cw;
            assert((w + 1) / 2 == cw);
        }
    }
    assert(back =~= orig);
}

/// Reading NV12 planes back as I420 and converting that frame to NV12 restores the planes
/// (for even dimensions and chroma rows of exactly `width / 2` pairs).
pub proof fn law_readback_nv12_roundtrip(y: Seq<u8>, uv: Seq<u8>, w: int, h: int)
    requires
        w >= 0,
        h >= 0,
        w % 2 == 0,
        h % 2 == 0,
        y.len() >= w * h,
        uv.len() >= 2 * ((w / 2) * (h / 2)),
    ensures
        spec_i420_to_nv12(spec_nv12_readback_to_i420(y, uv, w, h), w, h) == y.subrange(0, w * h)
            + uv.subrange(0, 2 * ((w / 2) * (h / 2))),
{
    let ys = w * h;
    let cw = w / 2;
    let ch = h / 2;
    let c = cw * ch;
    lemma_mul_mono(cw, ch, w, h);
    let i420 = spec_nv12_readback_to_i420(y, uv, w, h);
    let nv12 = spec_i420_to_nv12(i420, w, h);
    let orig = y.subrange(0, ys) + uv.subrange(0, 2 * c);
    assert forall|k: int| 0 <= k < nv12.len() implies nv12[k] == orig[k] by {
        if k >= ys {
            let t = (k - ys) / 2;
            assert(cw > 0);
            vstd::arithmetic::div_mod::lemma_fundamental_div_mod(t, cw);
            assert((t / cw) * cw + t % cw == t) by (nonlinear_arith)
                requires t == cw * (t / cw) + t % cw;
            assert((w + 1) / 2 == cw);
            if (k - ys) % 2 == 0 {
                assert(i420[ys + t] == uv[2 * t]);
            } else {
                assert(i420[ys + c + t] == uv[2 * t + 1]);
            }
        }
    }
    assert(nv12 =~= orig);
}

/// Pack separate full-res **Y** and half-res **UV** (interleaved Cb,Cr rows from the GPU readback)
/// into a single **I420** buffer (`Y`, then `U`, then `V` planes).
pub fn nv12_readback_to_i420(y: &[u8], uv: &[u8], width: u32, height: u32) -> (r: Result<
    Vec<u8>,
    YuvError,
>)
    requires
        width % 2 == 0 && height % 2 == 0 ==> width * height + 2 * ((width / 2) * (height / 2))
            <= usize::MAX && ((width + 1) / 2) * ((height + 1) / 2) * 2 <= usize::MAX,
    ensures
        width % 2 != 0 || height % 2 != 0 ==> r == Err::<Vec<u8>, YuvError>(
            YuvError::OddDimensions,
        ),
        width % 2 == 0 && height % 2 == 0 && y.len() < width * height ==> r == Err::<
            Vec<u8>,
            YuvError,
        >(YuvError::LumaTooSmall),
        width % 2 == 0 && height % 2 == 0 && y.len() >= width * height && uv.len() < ((width
            + 1) / 2) * ((height + 1) / 2) * 2 ==> r == Err::<Vec<u8>, YuvError>(
            YuvError::ChromaTooSmall,
        ),
        r is Ok <==> width % 2 == 0 && height % 2 == 0 && y.len() >= width * height && uv.len()
            >= ((width + 1) / 2) * ((height + 1) / 2) * 2,
        r matches Ok(out) ==> out@ == spec_nv12_readback_to_i420(
            y@,
            uv@,
            width as int,
            height as int,
        ),
{
    if !(width % 2 == 0 && height % 2 == 0) {
        return Err(YuvError::OddDimensions);
    }
    let w = width as usize;
    let h = height as usize;
    let uw = ((width + 1) / 2) as usize;
    let uh = ((height + 1) / 2) as usize;
    let cw = w / 2;
    let ch = h / 2;
    proof {
        lemma_mul_mono(cw as int, ch as int, w as int, h as int);
    }
    if y.len() < w * h {
        return Err(YuvError::LumaTooSmall);
    }
    if uv.len() < uw * uh * 2 {
        return Err(YuvError::ChromaTooSmall);
    }
    let ghost spec_out = spec_nv12_readback_to_i420(y@, uv@, w as int, h as int);
    let ghost ys = (w * h) as int;
    let mut out: Vec<u8> = Vec::new();
    extend_bytes(&mut out, &y[0..w * h]);
    assert(out@ =~= spec_out.subrange(0, ys));
    // Chroma: `U` plane from the even bytes of each pair, then `V` from the odd bytes.
    let mut plane: usize = 0;
    while plane < 2
        invariant
            plane <= 2,
            w == width,
            h == height,
            cw == w / 2,
            ch == h / 2,
            uw == (w + 1) / 2,
            uh == (h + 1) / 2,
            w % 2 == 0,
            h % 2 == 0,
            uv.len() >= uw * uh * 2,
            ys == w * h,
            spec_out == spec_nv12_readback_to_i420(y@, uv@, w as int, h as int),
            spec_out.len() == ys + 2 * (cw * ch),
            out@ == spec_out.subrange(0, ys + plane * (cw * ch)),
        decreases 2 - plane,
    {
        let mut row: usize = 0;
        while row < ch
            invariant
                plane < 2,
                row <= ch,
                w == width,
                h == height,
                cw == w / 2,
                ch == h / 2,
                uw == (w + 1) / 2,
                uh == (h + 1) / 2,
                w % 2 == 0,
                h % 2 == 0,
                uv.len() >= uw * uh * 2,
                ys == w * h,
                spec_out == spec_nv12_readback_to_i420(y@, uv@, w as int, h as int),
                spec_out.len() == ys + 2 * (cw * ch),
                out@ == spec_out.subrange(0, ys + plane * (cw * ch) + row * cw),
            decreases ch - row,
        {
            let mut col: usize = 0;
            while col < cw
                invariant
                    plane < 2,
                    row < ch,
                    col <= cw,
                    w == width,
                    h == height,
                    cw == w / 2,
                    ch == h / 2,
                    uw == (w + 1) / 2,
                    uh == (h + 1) / 2,
                    w % 2 == 0,
                    h % 2 == 0,
                    uv.len() >= uw * uh * 2,
                    ys == w * h,
                    spec_out == spec_nv12_readback_to_i420(y@, uv@, w as int, h as int),
                    spec_out.len() == ys + 2 * (cw * ch),
                    out@ == spec_out.subrange(0, ys + plane * (cw * ch) + row * cw + col),
                decreases cw - col,
            {
                proof {
                    lemma_grid(row as int, col as int, uw as int, uh as int);
                    lemma_grid(row as int, col as int, cw as int, ch as int);
                    lemma_row_col(row as int, col as int, cw as int);
                }
                let o = (row * uw + col) * 2;
                let b = uv[o + plane];
                let ghost k = ys + plane * (cw * ch) + row * cw + col;
                assert(spec_out[k] == b);
                out.push(b);
                col += 1;
                assert(out@ =~= spec_out.subrange(
                    0,
                    ys + plane * (cw * ch) + row * cw + col,
                ));
            }
            row += 1;
            assert(ys + plane * (cw * ch) + (row - 1) * cw + cw == ys + plane * (cw * ch) + row
                * cw) by (nonlinear_arith);
        }
        plane += 1;
        assert(ys + (plane - 1) * (cw * ch) + ch * cw == ys + plane * (cw * ch)) by (nonlinear_arith);
    }
    assert(out@ =~= spec_out);
    Ok(out)
}

/// Planar I420 → NV12 (same chroma subsampling).
pub fn i420_to_nv12(i420: &[u8], width: usize, height: usize) -> (r: Result<Vec<u8>, YuvError>)
    requires
        width * height <= usize::MAX && (width / 2) * (height / 2) <= usize::MAX ==> width
            * height + 2 * ((width / 2) * (height / 2)) <= usize::MAX,
    ensures
        width * height > usize::MAX || (width / 2) * (height / 2) > usize::MAX ==> r == Err::<
            Vec<u8>,
            YuvError,
        >(YuvError::SizeOverflow),
        width * height <= usize::MAX && (width / 2) * (height / 2) <= usize::MAX && i420.len()
            < width * height + 2 * ((width / 2) * (height / 2)) ==> r == Err::<Vec<u8>, YuvError>(
            YuvError::BufferTooSmall,
        ),
        r is Ok <==> width * height <= usize::MAX && (width / 2) * (height / 2) <= usize::MAX
            && i420.len() >= width * height + 2 * ((width / 2) * (height / 2)),
        r matches Ok(nv12) ==> nv12@ == spec_i420_to_nv12(i420@, width as int, height as int),
{
    let y_size = match width.checked_mul(height) {
        Some(v) => v,
        None => return Err(YuvError::SizeOverflow),
    };
    let c_sz = match (width / 2).checked_mul(height / 2) {
        Some(v) => v,
        None => return Err(YuvError::SizeOverflow),
    };
    if i420.len() < y_size + 2 * c_sz {
        return Err(YuvError::BufferTooSmall);
    }
    let ghost spec_out = spec_i420_to_nv12(i420@, width as int, height as int);
    let mut nv12: Vec<u8> = Vec::new();
    extend_bytes(&mut nv12, &i420[0..y_size]);
    assert(nv12@ =~= spec_out.subrange(0, y_size as int));
    let mut ix: usize = 0;
    while ix < c_sz
        invariant
            ix <= c_sz,
            y_size == width * height,
            c_sz == (width / 2) * (height / 2),
            i420.len() >= y_size + 2 * c_sz,
            spec_out == spec_i420_to_nv12(i420@, width as int, height as int),
            nv12@ == spec_out.subrange(0, y_size + 2 * ix),
        decreases c_sz - ix,
    {
        let u = i420[y_size + ix];
        let v = i420[y_size + c_sz + ix];
        assert(spec_out[y_size + 2 * ix] == u);
        assert(spec_out[y_size + 2 * ix + 1] == v);
        nv12.push(u);
        nv12.push(v);
        ix += 1;
        assert(nv12@ =~= spec_out.subrange(0, y_size + 2 * ix));
    }
    assert(nv12@ =~= spec_out);
    Ok(nv12)
}

} // verus!
