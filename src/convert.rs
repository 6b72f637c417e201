use vstd::arithmetic::div_mod::{
    lemma_div_is_ordered,
    lemma_div_multiples_vanish,
    lemma_fundamental_div_mod,
    lemma_fundamental_div_mod_converse,
    lemma_hoist_over_denominator,
    lemma_mod_pos_bound,
};
use vstd::arithmetic::mul::lemma_mul_inequality;
use vstd::prelude::*;

verus! {

/// A signed intermediate value clamped into the range of a byte.
pub open spec fn clamp_byte(x: int) -> int {
    if x < 0 {
        0
    } else if x > 255 {
        255
    } else {
        x
    }
}

/// BT.601 full-range luma of one pixel (`>> 8` is floor division by 256).
pub open spec fn luma(r: int, g: int, b: int) -> int {
    clamp_byte((66 * r + 129 * g + 25 * b + 128) / 256 + 16)
}

/// BT.601 full-range blue-difference chroma of one pixel.
pub open spec fn chroma_u(r: int, g: int, b: int) -> int {
    clamp_byte((-38 * r - 74 * g + 112 * b + 128) / 256 + 128)
}

/// BT.601 full-range red-difference chroma of one pixel.
pub open spec fn chroma_v(r: int, g: int, b: int) -> int {
    clamp_byte((112 * r - 94 * g - 18 * b + 128) / 256 + 128)
}

/// Byte offset of the pixel at `(row, col)` in a BGRA frame whose rows are `stride` bytes apart.
pub open spec fn pixel_offset(stride: int, row: int, col: int) -> int {
    row * stride + 4 * col
}

/// Row stride of a frame of `height` rows held in `src`.
pub open spec fn frame_stride(src: Seq<u8>, height: int) -> int {
    src.len() as int / height
}

/// Number of chroma samples along a dimension of `n` pixels (every second pixel, from the first).
pub open spec fn half_up(n: int) -> int {
    (n + 1) / 2
}

pub open spec fn luma_at(src: Seq<u8>, o: int) -> u8 {
    luma(src[o + 2] as int, src[o + 1] as int, src[o] as int) as u8
}

pub open spec fn chroma_u_at(src: Seq<u8>, o: int) -> u8 {
    chroma_u(src[o + 2] as int, src[o + 1] as int, src[o] as int) as u8
}

pub open spec fn chroma_v_at(src: Seq<u8>, o: int) -> u8 {
    chroma_v(src[o + 2] as int, src[o + 1] as int, src[o] as int) as u8
}

/// The Y plane: one luma byte per pixel, row-major.
pub open spec fn y_plane(width: int, height: int, src: Seq<u8>) -> Seq<u8> {
    let stride = frame_stride(src, height);
    Seq::new(
        (width * height) as nat,
        |k: int| luma_at(src, pixel_offset(stride, k / width, k % width)),
    )
}

/// The U plane: the top-left pixel of every 2x2 block, row-major.
pub open spec fn u_plane(width: int, height: int, src: Seq<u8>) -> Seq<u8> {
    let stride = frame_stride(src, height);
    let cw = half_up(width);
    Seq::new(
        (cw * half_up(height)) as nat,
        |k: int| chroma_u_at(src, pixel_offset(stride, 2 * (k / cw), 2 * (k % cw))),
    )
}

/// The V plane: the top-left pixel of every 2x2 block, row-major.
pub open spec fn v_plane(width: int, height: int, src: Seq<u8>) -> Seq<u8> {
    let stride = frame_stride(src, height);
    let cw = half_up(width);
    Seq::new(
        (cw * half_up(height)) as nat,
        |k: int| chroma_v_at(src, pixel_offset(stride, 2 * (k / cw), 2 * (k % cw))),
    )
}

/// The I420 image of a BGRA frame: the Y, U and V planes one after the other.
pub open spec fn i420_of(width: int, height: int, src: Seq<u8>) -> Seq<u8> {
    y_plane(width, height, src) + u_plane(width, height, src) + v_plane(width, height, src)
}

/// Clamps a signed intermediate colour value into a byte.
pub fn clamp(x: i32) -> (r: u8)
    ensures
        r as int == clamp_byte(x as int),
{
    if x < 0 {
        0
    } else if x > 255 {
        255
    } else {
        x as u8
    }
}

fn luma_pixel(src: &[u8], o: usize) -> (r: u8)
    requires
        o + 2 < src@.len(),
    ensures
        r == luma_at(src@, o as int),
{
    let b = src[o] as i32;
    let g = src[o + 1] as i32;
    let r = src[o + 2] as i32;
    clamp((66 * r + 129 * g + 25 * b + 128) / 256 + 16)
}

fn chroma_u_pixel(src: &[u8], o: usize) -> (r: u8)
    requires
        o + 2 < src@.len(),
    ensures
        r == chroma_u_at(src@, o as int),
{
    let b = src[o] as i32;
    let g = src[o + 1] as i32;
    let r = src[o + 2] as i32;
    let x = -38 * r - 74 * g + 112 * b + 128;
    // Shifting the numerator by 128 * 256 keeps it non-negative, so the division floors.
    proof {
        lemma_hoist_over_denominator(x as int, 128, 256);
    }
    clamp((x + 32768) / 256)
}

fn chroma_v_pixel(src: &[u8], o: usize) -> (r: u8)
    requires
        o + 2 < src@.len(),
    ensures
        r == chroma_v_at(src@, o as int),
{
    let b = src[o] as i32;
    let g = src[o + 1] as i32;
    let r = src[o + 2] as i32;
    let x = 112 * r - 94 * g - 18 * b + 128;
    proof {
        lemma_hoist_over_denominator(x as int, 128, 256);
    }
    clamp((x + 32768) / 256)
}

/// A frame of `height` rows that holds `4 * width * height` bytes has rows at least
/// `4 * width` bytes apart, and all of its rows fit in it.
proof fn lemma_frame_geometry(len: int, width: int, height: int)
    requires
        0 < height,
        0 <= width,
        4 * width * height <= len,
    ensures
        4 * width <= len / height,
        (len / height) * height <= len,
{
    assert(4 * width * height == height * (4 * width)) by (nonlinear_arith);
    lemma_div_multiples_vanish(4 * width, height);
    lemma_div_is_ordered(4 * width * height, len, height);
    lemma_fundamental_div_mod(len, height);
    lemma_mod_pos_bound(len, height);
    assert((len / height) * height == height * (len / height)) by (nonlinear_arith);
}

/// Row `row` of a frame starts at `row * stride` and ends inside it.
proof fn lemma_row_in_frame(len: int, stride: int, height: int, row: int)
    requires
        0 <= row < height,
        0 <= stride,
        stride * height <= len,
    ensures
        0 <= row * stride,
        row * stride + stride <= len,
{
    lemma_mul_inequality(row + 1, height, stride);
    assert((row + 1) * stride == row * stride + stride) by (nonlinear_arith);
    assert(0 <= row * stride) by (nonlinear_arith)
        requires
            0 <= row,
            0 <= stride,
    ;
}

/// The U plane, or the V plane where `red_diff` holds.
pub open spec fn chroma_plane(width: int, height: int, src: Seq<u8>, red_diff: bool) -> Seq<u8> {
    if red_diff {
        v_plane(width, height, src)
    } else {
        u_plane(width, height, src)
    }
}

/// Appends one subsampled chroma plane of the frame to `dest`.
fn push_chroma_plane(
    width: usize,
    height: usize,
    src: &[u8],
    stride: usize,
    red_diff: bool,
    dest: &mut Vec<u8>,
)
    requires
        height > 0,
        stride as int == frame_stride(src@, height as int),
        4 * width <= stride,
        stride * height <= src@.len(),
    ensures
        final(dest)@ == old(dest)@ + chroma_plane(width as int, height as int, src@, red_diff),
{
    let ghost w = width as int;
    let ghost h = height as int;
    let ghost len = src@.len() as int;
    let ghost start = dest@;
    let ghost plane = chroma_plane(w, h, src@, red_diff);
    let n = src.len();
    let cw = width / 2 + width % 2;
    let ch = height / 2 + height % 2;
    assert(cw as int == half_up(w) && ch as int == half_up(h));

    let mut crow: usize = 0;
    while crow < ch
        invariant
            crow <= ch,
            h == height,
            w == width,
            cw as int == half_up(w),
            ch as int == half_up(h),
            len == src@.len(),
            len <= usize::MAX,
            stride as int == frame_stride(src@, h),
            4 * w <= stride,
            stride * h <= len,
            plane == chroma_plane(w, h, src@, red_diff),
            dest@ == start + plane.take(crow * cw),
        decreases ch - crow,
    {
        let row = 2 * crow;
        proof {
            lemma_row_in_frame(len, stride as int, h, row as int);
            assert(crow * cw + cw <= cw * ch) by (nonlinear_arith)
                requires
                    crow < ch,
                    0 <= cw,
            ;
        }
        let base = row * stride;
        let mut ccol: usize = 0;
        while ccol < cw
            invariant
                crow < ch,
                row == 2 * crow,
                ccol <= cw,
                h == height,
                w == width,
                cw as int == half_up(w),
                ch as int == half_up(h),
                len == src@.len(),
                len <= usize::MAX,
                stride as int == frame_stride(src@, h),
                4 * w <= stride,
                base == row * stride,
                base + stride <= len,
                crow * cw + cw <= cw * ch,
                plane == chroma_plane(w, h, src@, red_diff),
                dest@ == start + plane.take(crow * cw + ccol),
            decreases cw - ccol,
        {
            let col = 2 * ccol;
            let o = base + 4 * col;
            let ghost k = crow * cw + ccol;
            proof {
                lemma_fundamental_div_mod_converse(k, cw as int, crow as int, ccol as int);
            }
            let v = if red_diff {
                chroma_v_pixel(src, o)
            } else {
                chroma_u_pixel(src, o)
            };
            dest.push(v);
            assert(dest@ =~= start + plane.take(k + 1));
            ccol += 1;
        }
        assert(crow * cw + cw == (crow + 1) * cw) by (nonlinear_arith);
        crow += 1;
    }
    assert(ch * cw == cw * ch) by (nonlinear_arith);
    assert(dest@ =~= start + plane);
}

/// Converts a BGRA frame of `width x height` pixels into planar I420 (Y, then U, then V),
/// writing the result into `dest`.
pub fn argb_to_i420(width: usize, height: usize, src: &[u8], dest: &mut Vec<u8>)
    requires
        height > 0,
        4 * width * height <= src@.len(),
    ensures
        final(dest)@ == i420_of(width as int, height as int, src@),
{
    let n = src.len();
    let stride = n / height;
    let ghost w = width as int;
    let ghost h = height as int;
    let ghost len = src@.len() as int;
    proof {
        lemma_frame_geometry(len, w, h);
    }
    let ghost yp = y_plane(w, h, src@);

    dest.clear();

    let mut row: usize = 0;
    while row < height
        invariant
            row <= height,
            h == height,
            w == width,
            len == src@.len(),
            len <= usize::MAX,
            height > 0,
            stride as int == frame_stride(src@, h),
            4 * w <= stride,
            stride * h <= len,
            yp == y_plane(w, h, src@),
            dest@ == yp.take(row * w),
        decreases height - row,
    {
        proof {
            lemma_row_in_frame(len, stride as int, h, row as int);
            assert(row * w + w <= h * w) by (nonlinear_arith)
                requires
                    row < h,
                    0 <= w,
            ;
            assert(h * w == w * h) by (nonlinear_arith);
        }
        let base = row * stride;
        let mut col: usize = 0;
        while col < width
            invariant
                row < height,
                col <= width,
                h == height,
                w == width,
                len == src@.len(),
                len <= usize::MAX,
            len <= usize::MAX,
                stride as int == frame_stride(src@, h),
                4 * w <= stride,
                base == row * stride,
                base + stride <= len,
                row * w + w <= w * h,
                yp == y_plane(w, h, src@),
                dest@ == yp.take(row * w + col),
            decreases width - col,
        {
            let o = base + 4 * col;
            let ghost k = row * w + col;
            proof {
                lemma_fundamental_div_mod_converse(k, w, row as int, col as int);
            }
            let v = luma_pixel(src, o);
            dest.push(v);
            assert(dest@ =~= yp.take(k + 1));
            col += 1;
        }
        assert(row * w + w == (row + 1) * w) by (nonlinear_arith);
        row += 1;
    }
    assert(h * w == w * h) by (nonlinear_arith);
    assert(dest@ =~= yp);
    push_chroma_plane(width, height, src, stride, false, dest);
    push_chroma_plane(width, height, src, stride, true, dest);
}

/// For even dimensions the I420 image holds one luma byte per pixel and one U and one V
/// byte per 2x2 block: `W*H + 2*(W/2)*(H/2)` bytes.
pub proof fn lemma_i420_len(width: int, height: int, src: Seq<u8>)
    requires
        width >= 0,
        height > 0,
        width % 2 == 0,
        height % 2 == 0,
    ensures
        i420_of(width, height, src).len() == width * height + 2 * (width / 2) * (height / 2),
{
    assert(half_up(width) == width / 2 && half_up(height) == height / 2);
    assert(width * height >= 0) by (nonlinear_arith)
        requires
            width >= 0,
            height > 0,
    ;
    assert((width / 2) * (height / 2) >= 0) by (nonlinear_arith)
        requires
            width >= 0,
            height > 0,
    ;
    assert(2 * (width / 2) * (height / 2) == (width / 2) * (height / 2) + (width / 2) * (
    height / 2)) by (nonlinear_arith);
}

/// The conversion is a function of its input: equal frames give equal images, and every
/// byte of an image lies in `[0, 255]`.
pub proof fn lemma_i420_deterministic(width: int, height: int, a: Seq<u8>, b: Seq<u8>)
    requires
        a == b,
    ensures
        i420_of(width, height, a) == i420_of(width, height, b),
        forall|i: int|
            0 <= i < i420_of(width, height, a).len() ==> 0 <= #[trigger] i420_of(
                width,
                height,
                a,
            )[i] <= 255,
{
}

/// How a block of interleaved samples is brought from one sample rate to another.
#[derive(Clone, Copy, Debug, PartialEq, Eq, Structural)]
pub enum ResamplePlan {
    /// The rates match: the block stays as it is.
    Keep,
    /// Interpolate each channel linearly into this many frames.
    Interpolate { frames: usize },
}

/// Frames that linear interpolation from `rate0` to `rate` makes of a block of `len`
/// interleaved samples in `channels` channels: `floor(len / channels * rate / rate0)`.
pub open spec fn resampled_frames(len: int, channels: int, rate0: int, rate: int) -> int {
    (len / channels) * rate / rate0
}

pub open spec fn spec_resample_plan(len: int, channels: int, rate0: int, rate: int) -> ResamplePlan {
    if rate0 == rate {
        ResamplePlan::Keep
    } else {
        ResamplePlan::Interpolate {
            frames: resampled_frames(len, channels, rate0, rate) as usize,
        }
    }
}

/// Plans the resampling of `len` interleaved samples in `channels` channels from `rate0`
/// to `rate` samples per second; the output holds `frames * channels` samples.
pub fn resample_plan(len: usize, channels: u16, rate0: u32, rate: u32) -> (r: ResamplePlan)
    requires
        channels > 0,
        rate0 > 0,
        resampled_frames(len as int, channels as int, rate0 as int, rate as int) * channels
            <= usize::MAX,
    ensures
        r == spec_resample_plan(len as int, channels as int, rate0 as int, rate as int),
{
    if rate0 == rate {
        return ResamplePlan::Keep;
    }
    let per_channel = (len / channels as usize) as u128;
    assert(per_channel * rate <= 0xffff_ffff_ffff_ffff * 0xffff_ffff) by (nonlinear_arith)
        requires
            per_channel <= 0xffff_ffff_ffff_ffff,
            rate <= 0xffff_ffff,
    ;
    let frames = per_channel * rate as u128 / rate0 as u128;
    assert(frames <= frames * channels) by (nonlinear_arith)
        requires
            channels >= 1,
            frames >= 0,
    ;
    ResamplePlan::Interpolate { frames: frames as usize }
}

/// How a block of interleaved samples is brought from one channel count to another.
#[derive(Clone, Copy, Debug, PartialEq, Eq, Structural)]
pub enum RechannelPlan {
    /// The counts match: the block stays as it is.
    Keep,
    /// Mix this many whole frames through the channel matrix.
    Mix { frames: usize },
    /// No matrix covers the pair: keep the whole frames, `len` samples, unmixed.
    Truncate { len: usize },
}

/// The channel counts that the mixing matrix covers.
pub open spec fn is_mixable_layout(channels: int) -> bool {
    1 <= channels <= 8
}

pub open spec fn spec_rechannel_plan(len: int, in_chan: int, out_chan: int) -> RechannelPlan {
    if in_chan == out_chan {
        RechannelPlan::Keep
    } else if is_mixable_layout(in_chan) && is_mixable_layout(out_chan) {
        RechannelPlan::Mix { frames: (len / in_chan) as usize }
    } else {
        RechannelPlan::Truncate { len: ((len / in_chan) * in_chan) as usize }
    }
}

/// Samples in the block that rechannelling makes of `len` samples.
pub open spec fn rechannel_len(len: int, in_chan: int, out_chan: int) -> int {
    match spec_rechannel_plan(len, in_chan, out_chan) {
        RechannelPlan::Keep => len,
        RechannelPlan::Mix { frames } => frames * out_chan,
        RechannelPlan::Truncate { len } => len as int,
    }
}

/// Plans the remapping of `len` interleaved samples from `in_chan` to `out_chan` channels.
pub fn rechannel_plan(len: usize, in_chan: u16, out_chan: u16) -> (r: RechannelPlan)
    requires
        in_chan != out_chan ==> in_chan > 0,
    ensures
        r == spec_rechannel_plan(len as int, in_chan as int, out_chan as int),
{
    if in_chan == out_chan {
        return RechannelPlan::Keep;
    }
    let frames = len / in_chan as usize;
    if 1 <= in_chan && in_chan <= 8 && 1 <= out_chan && out_chan <= 8 {
        RechannelPlan::Mix { frames }
    } else {
        assert(frames * in_chan <= len) by (nonlinear_arith)
            requires
                frames == len as int / in_chan as int,
                in_chan > 0,
        ;
        RechannelPlan::Truncate { len: frames * in_chan as usize }
    }
}

/// Between two channel counts that the matrix covers, rechannelling leaves whole output
/// frames: the length is a multiple of the output count. This holds unless the counts
/// match and the block ends in a partial frame, which is then kept as it is.
pub proof fn lemma_rechannel_whole_frames(len: int, in_chan: int, out_chan: int)
    requires
        0 <= len <= usize::MAX,
        is_mixable_layout(in_chan),
        is_mixable_layout(out_chan),
        in_chan != out_chan || len % in_chan == 0,
    ensures
        rechannel_len(len, in_chan, out_chan) % out_chan == 0,
{
    if in_chan != out_chan {
        assert(0 <= len / in_chan <= len) by (nonlinear_arith)
            requires
                0 <= len,
                in_chan >= 1,
        ;
        vstd::arithmetic::div_mod::lemma_mod_multiples_basic(len / in_chan, out_chan);
    }
}

} // verus!
