use crate::blend::attenuated;
use crate::blend::attenuated_exec;
use crate::blend::blend_alpha;
use crate::blend::blend_alpha_exec;
use crate::blend::blend_color;
use crate::blend::blend_color_exec;
use crate::blend::lemma_blend_alpha_range;
use crate::blend::lemma_blend_color_range;
use crate::img::grid_model;
use crate::img::lemma_chan_index_bounds;
use crate::img::lemma_flat_compose;
use crate::img::lemma_flat_decompose;
use crate::img::Image;
use crate::img::ImageModel;
use vstd::arithmetic::div_mod::lemma_div_pos_is_pos;
use vstd::arithmetic::div_mod::lemma_multiply_divide_lt;
use vstd::prelude::*;

verus! {

/// The output preset chosen by orientation: strictly wider than tall gives
/// the landscape preset 1600 by 1200, anything else (square included) the
/// portrait preset 1200 by 1600.
pub open spec fn spec_target_dims(w: int, h: int) -> (int, int) {
    if w > h {
        (1600int, 1200int)
    } else {
        (1200int, 1600int)
    }
}

/// Pick the fixed output dimensions from the source's orientation.
pub fn target_dims(w: u32, h: u32) -> (r: (u32, u32))
    ensures
        r.0 == spec_target_dims(w as int, h as int).0,
        r.1 == spec_target_dims(w as int, h as int).1,
{
    if w > h {
        (1600, 1200)
    } else {
        (1200, 1600)
    }
}

/// The offset that centers a span of `inner` units inside a span of
/// `outer` units: half the difference, rounded toward negative infinity,
/// negative where the inner span is the larger one.
pub fn center_offset(outer: u32, inner: u32) -> (r: i64)
    ensures
        r == (outer - inner) / 2,
{
    if outer >= inner {
        ((outer - inner) / 2) as i64
    } else {
        let d: u64 = (inner - outer) as u64;
        proof {
            assert(-((((d + 1) / 2) as u64) as int) == (0 - d) / 2) by (nonlinear_arith);
        }
        -(((d + 1) / 2) as i64)
    }
}

/// The watermark after alpha attenuation: the same grid with every fourth
/// byte, the alpha channel, scaled by four fifths, and every color byte
/// kept as it was.
pub open spec fn attenuated_model(wm: ImageModel) -> ImageModel {
    ImageModel {
        width: wm.width,
        height: wm.height,
        data: Seq::new(
            wm.data.len(),
            |i: int|
                if i % 4 == 3 {
                    attenuated(wm.data[i])
                } else {
                    wm.data[i]
                },
        ),
    }
}

/// Scale the alpha channel of every pixel by four fifths, leaving the
/// color channels unchanged.
pub fn attenuate_alpha(wm: &Image) -> (r: Image)
    requires
        wm.wf(),
    ensures
        r.wf(),
        r.width == wm.width,
        r.height == wm.height,
        r@ == attenuated_model(wm@),
{
    let n: usize = wm.data.len();
    let mut data: Vec<u8> = Vec::new();
    let mut i: usize = 0;
    while i < n
        invariant
            n == wm.data.len(),
            i <= n,
            data.len() == i,
            forall|j: int| 0 <= j < i ==> data@[j] == attenuated_model(wm@).data[j],
        decreases n - i,
    {
        let b: u8 = wm.data[i];
        if i % 4 == 3 {
            data.push(attenuated_exec(b));
        } else {
            data.push(b);
        }
        i += 1;
    }
    let r = Image { width: wm.width, height: wm.height, data };
    proof {
        assert(r@.data =~= attenuated_model(wm@).data);
        assert(r@ =~= attenuated_model(wm@));
    }
    r
}

/// Nearest-neighbor scaling keeps a scaled coordinate inside the source
/// span: for `x` below `outer`, `x * inner / outer` lies below `inner`.
pub proof fn lemma_scale_in_range(x: int, outer: int, inner: int)
    requires
        0 <= x < outer,
        1 <= inner,
    ensures
        0 <= (x * inner) / outer < inner,
{
    assert(0 <= x * inner < outer * inner) by (nonlinear_arith)
        requires
            0 <= x < outer,
            1 <= inner,
    ;
    lemma_div_pos_is_pos(x * inner, outer);
    lemma_multiply_divide_lt(x * inner, outer, inner);
}

/// The source after a hard nearest-neighbor stretch to `tw` by `th`:
/// each output pixel copies the source pixel whose coordinates are the
/// output coordinates scaled down by the ratio of the two sizes.
pub open spec fn resized_model(src: ImageModel, tw: int, th: int) -> ImageModel {
    grid_model(
        tw,
        th,
        (|x: int, y: int, c: int| src.chan((x * src.width) / tw, (y * src.height) / th, c)),
    )
}

/// One cell of the resized model: the flat index of a pixel and channel is
/// in range and holds the nearest source pixel's channel value.
pub proof fn lemma_resized_cell(src: ImageModel, tw: int, th: int, x: int, y: int, c: int)
    requires
        1 <= tw,
        1 <= th,
        0 <= x < tw,
        0 <= y < th,
        0 <= c < 4,
    ensures
        resized_model(src, tw, th).data.len() == 4 * (tw * th),
        0 <= 4 * (y * tw + x) + c < 4 * (tw * th),
        resized_model(src, tw, th).data[4 * (y * tw + x) + c] == src.chan(
            (x * src.width) / tw,
            (y * src.height) / th,
            c,
        ),
{
    lemma_chan_index_bounds(x, y, c, tw, th);
    lemma_flat_compose(x, y, c, tw, th);
}

/// Stretch the source to exactly `tw` by `th` with the nearest-neighbor
/// filter; the aspect ratio is not preserved.
pub fn resize_nearest(src: &Image, tw: u32, th: u32) -> (r: Image)
    requires
        src.wf(),
        src.width >= 1,
        src.height >= 1,
        tw >= 1,
        th >= 1,
        4 * ((tw as int) * (th as int)) <= usize::MAX,
    ensures
        r.wf(),
        r.width == tw,
        r.height == th,
        r@ == resized_model(src@, tw as int, th as int),
{
    let ghost model = resized_model(src@, tw as int, th as int);
    let mut data: Vec<u8> = Vec::new();
    let mut y: u32 = 0;
    while y < th
        invariant
            src.wf(),
            src.width >= 1,
            src.height >= 1,
            tw >= 1,
            th >= 1,
            4 * ((tw as int) * (th as int)) <= usize::MAX,
            model == resized_model(src@, tw as int, th as int),
            y <= th,
            data.len() == 4 * ((y as int) * (tw as int)),
            forall|j: int| 0 <= j < data.len() ==> data@[j] == model.data[j],
        decreases th - y,
    {
        proof {
            lemma_scale_in_range(y as int, th as int, src.height as int);
            assert((y as int) * (src.height as int) <= u64::MAX) by (nonlinear_arith)
                requires
                    y <= u32::MAX,
                    src.height <= u32::MAX,
            ;
        }
        let sy: u32 = (((y as u64) * (src.height as u64)) / (th as u64)) as u32;
        let mut x: u32 = 0;
        while x < tw
            invariant
                src.wf(),
                src.width >= 1,
                src.height >= 1,
                tw >= 1,
                th >= 1,
                4 * ((tw as int) * (th as int)) <= usize::MAX,
                model == resized_model(src@, tw as int, th as int),
                y < th,
                sy == ((y as int) * (src.height as int)) / (th as int),
                sy < src.height,
                x <= tw,
                data.len() == 4 * ((y as int) * (tw as int) + (x as int)),
                forall|j: int| 0 <= j < data.len() ==> data@[j] == model.data[j],
            decreases tw - x,
        {
            proof {
                lemma_scale_in_range(x as int, tw as int, src.width as int);
                assert((x as int) * (src.width as int) <= u64::MAX) by (nonlinear_arith)
                    requires
                        x <= u32::MAX,
                        src.width <= u32::MAX,
                ;
            }
            let sx: u32 = (((x as u64) * (src.width as u64)) / (tw as u64)) as u32;
            proof {
                lemma_resized_cell(src@, tw as int, th as int, x as int, y as int, 0);
                lemma_resized_cell(src@, tw as int, th as int, x as int, y as int, 1);
                lemma_resized_cell(src@, tw as int, th as int, x as int, y as int, 2);
                lemma_resized_cell(src@, tw as int, th as int, x as int, y as int, 3);
            }
            data.push(src.get(sx, sy, 0));
            data.push(src.get(sx, sy, 1));
            data.push(src.get(sx, sy, 2));
            data.push(src.get(sx, sy, 3));
            x += 1;
            proof {
                assert((y as int) * (tw as int) + (x as int) == (y as int) * (tw as int) + (x
                    - 1) + 1);
            }
        }
        y += 1;
        proof {
            assert((y as int) * (tw as int) == (y - 1) * (tw as int) + (tw as int))
                by (nonlinear_arith);
        }
    }
    let r = Image { width: tw, height: th, data };
    proof {
        lemma_resized_cell(src@, tw as int, th as int, 0, 0, 0);
        assert((th as int) * (tw as int) == (tw as int) * (th as int)) by (nonlinear_arith);
        assert(r@.data =~= model.data);
        assert(r@ =~= model);
    }
    r
}

/// At each pixel the attenuated watermark keeps its color channels and
/// carries the attenuated alpha.
pub proof fn lemma_attenuated_chan(wm: ImageModel, x: int, y: int, c: int)
    requires
        wm.wf(),
        0 <= x < wm.width,
        0 <= y < wm.height,
        0 <= c < 4,
    ensures
        attenuated_model(wm).chan(x, y, c) == if c == 3 {
            attenuated(wm.chan(x, y, 3))
        } else {
            wm.chan(x, y, c)
        },
{
    lemma_chan_index_bounds(x, y, c, wm.width as int, wm.height as int);
    lemma_flat_compose(x, y, c, wm.width as int, wm.height as int);
}

/// One channel of the "over" composite of a watermark onto a destination
/// at offset `(ox, oy)`: where the watermark overlaps the pixel, its
/// channels are blended in under its alpha; everywhere else, and for every
/// watermark pixel that falls outside the destination, the destination is
/// untouched.
pub open spec fn composited_chan(
    dst: ImageModel,
    wm: ImageModel,
    ox: int,
    oy: int,
    x: int,
    y: int,
    c: int,
) -> u8 {
    let wx = x - ox;
    let wy = y - oy;
    if 0 <= wx < wm.width && 0 <= wy < wm.height {
        if c == 3 {
            blend_alpha(dst.chan(x, y, 3), wm.chan(wx, wy, 3))
        } else {
            blend_color(wm.chan(wx, wy, c), dst.chan(x, y, c), wm.chan(wx, wy, 3))
        }
    } else {
        dst.chan(x, y, c)
    }
}

/// The destination after the "over" composite of the watermark at offset
/// `(ox, oy)`; the grid keeps the destination's dimensions.
pub open spec fn composited_model(dst: ImageModel, wm: ImageModel, ox: int, oy: int) -> ImageModel {
    grid_model(
        dst.width as int,
        dst.height as int,
        (|x: int, y: int, c: int| composited_chan(dst, wm, ox, oy, x, y, c)),
    )
}

/// One cell of the composited model: the flat index of a pixel and channel
/// is in range and holds the composited channel value.
pub proof fn lemma_composited_cell(
    dst: ImageModel,
    wm: ImageModel,
    ox: int,
    oy: int,
    x: int,
    y: int,
    c: int,
)
    requires
        0 <= x < dst.width,
        0 <= y < dst.height,
        0 <= c < 4,
    ensures
        composited_model(dst, wm, ox, oy).data.len() == 4 * ((dst.width as int) * (
        dst.height as int)),
        0 <= 4 * (y * dst.width + x) + c < 4 * ((dst.width as int) * (dst.height as int)),
        composited_model(dst, wm, ox, oy).data[4 * (y * dst.width + x) + c] == composited_chan(
            dst,
            wm,
            ox,
            oy,
            x,
            y,
            c,
        ),
{
    lemma_chan_index_bounds(x, y, c, dst.width as int, dst.height as int);
    lemma_flat_compose(x, y, c, dst.width as int, dst.height as int);
}

/// Composite the watermark over the destination with its top-left corner
/// at `(ox, oy)`; offsets may be negative and the watermark may exceed the
/// destination in either axis, in which case only the overlapping region
/// is blended and the rest of the watermark is silently dropped.
pub fn composite_over(dst: &Image, wm: &Image, ox: i64, oy: i64) -> (r: Image)
    requires
        dst.wf(),
        wm.wf(),
        -0x1_0000_0000 <= ox <= 0x1_0000_0000,
        -0x1_0000_0000 <= oy <= 0x1_0000_0000,
    ensures
        r.wf(),
        r.width == dst.width,
        r.height == dst.height,
        r@ == composited_model(dst@, wm@, ox as int, oy as int),
{
    let ghost model = composited_model(dst@, wm@, ox as int, oy as int);
    proof {
        assert(dst.data.len() == dst.data@.len());
    }
    let mut data: Vec<u8> = Vec::new();
    let mut y: u32 = 0;
    while y < dst.height
        invariant
            dst.wf(),
            wm.wf(),
            -0x1_0000_0000 <= ox <= 0x1_0000_0000,
            -0x1_0000_0000 <= oy <= 0x1_0000_0000,
            4 * ((dst.width as int) * (dst.height as int)) <= usize::MAX,
            model == composited_model(dst@, wm@, ox as int, oy as int),
            y <= dst.height,
            data.len() == 4 * ((y as int) * (dst.width as int)),
            forall|j: int| 0 <= j < data.len() ==> data@[j] == model.data[j],
        decreases dst.height - y,
    {
        let mut x: u32 = 0;
        while x < dst.width
            invariant
                dst.wf(),
                wm.wf(),
                -0x1_0000_0000 <= ox <= 0x1_0000_0000,
                -0x1_0000_0000 <= oy <= 0x1_0000_0000,
                4 * ((dst.width as int) * (dst.height as int)) <= usize::MAX,
                model == composited_model(dst@, wm@, ox as int, oy as int),
                y < dst.height,
                x <= dst.width,
                data.len() == 4 * ((y as int) * (dst.width as int) + (x as int)),
                forall|j: int| 0 <= j < data.len() ==> data@[j] == model.data[j],
            decreases dst.width - x,
        {
            proof {
                lemma_composited_cell(dst@, wm@, ox as int, oy as int, x as int, y as int, 0);
                lemma_composited_cell(dst@, wm@, ox as int, oy as int, x as int, y as int, 1);
                lemma_composited_cell(dst@, wm@, ox as int, oy as int, x as int, y as int, 2);
                lemma_composited_cell(dst@, wm@, ox as int, oy as int, x as int, y as int, 3);
            }
            let wx_i: i64 = (x as i64) - ox;
            let wy_i: i64 = (y as i64) - oy;
            if 0 <= wx_i && wx_i < (wm.width as i64) && 0 <= wy_i && wy_i < (wm.height as i64) {
                let wx: u32 = wx_i as u32;
                let wy: u32 = wy_i as u32;
                let a: u8 = wm.get(wx, wy, 3);
                data.push(blend_color_exec(wm.get(wx, wy, 0), dst.get(x, y, 0), a));
                data.push(blend_color_exec(wm.get(wx, wy, 1), dst.get(x, y, 1), a));
                data.push(blend_color_exec(wm.get(wx, wy, 2), dst.get(x, y, 2), a));
                data.push(blend_alpha_exec(dst.get(x, y, 3), a));
            } else {
                data.push(dst.get(x, y, 0));
                data.push(dst.get(x, y, 1));
                data.push(dst.get(x, y, 2));
                data.push(dst.get(x, y, 3));
            }
            x += 1;
        }
        y += 1;
        proof {
            assert((y as int) * (dst.width as int) == (y - 1) * (dst.width as int) + (
            dst.width as int)) by (nonlinear_arith);
        }
    }
    let r = Image { width: dst.width, height: dst.height, data };
    proof {
        assert(0 <= (dst.width as int) * (dst.height as int)) by (nonlinear_arith);
        assert((dst.height as int) * (dst.width as int) == (dst.width as int) * (
        dst.height as int)) by (nonlinear_arith);
        assert(r@.data =~= model.data);
        assert(r@ =~= model);
    }
    r
}

/// Compositing is idempotent where the watermark is absent or fully
/// transparent: a destination pixel that no watermark pixel overlaps, or
/// whose overlapping watermark pixel has alpha zero, keeps every channel.
pub proof fn lemma_transparent_composite_unchanged(
    dst: ImageModel,
    wm: ImageModel,
    ox: int,
    oy: int,
    x: int,
    y: int,
    c: int,
)
    requires
        0 <= x < dst.width,
        0 <= y < dst.height,
        0 <= c < 4,
        0 <= x - ox < wm.width && 0 <= y - oy < wm.height ==> wm.chan(x - ox, y - oy, 3) == 0,
    ensures
        composited_model(dst, wm, ox, oy).chan(x, y, c) == dst.chan(x, y, c),
{
    lemma_composited_cell(dst, wm, ox, oy, x, y, c);
    if 0 <= x - ox < wm.width && 0 <= y - oy < wm.height {
        lemma_blend_color_range(wm.chan(x - ox, y - oy, c), dst.chan(x, y, c), 0);
        lemma_blend_alpha_range(dst.chan(x, y, 3), 0);
    }
}

/// Only the watermark pixels that fall inside the destination affect the
/// composite: two watermarks of the same dimensions that agree on every
/// pixel overlapping the destination composite identically, however far
/// the watermark exceeds the destination in either axis.
pub proof fn lemma_clipped_composite_ignores_out_of_bounds(
    dst: ImageModel,
    wm1: ImageModel,
    wm2: ImageModel,
    ox: int,
    oy: int,
)
    requires
        wm1.width == wm2.width,
        wm1.height == wm2.height,
        forall|wx: int, wy: int, c: int|
            0 <= wx < wm1.width && 0 <= wy < wm1.height && 0 <= c < 4 && 0 <= wx + ox < dst.width
                && 0 <= wy + oy < dst.height ==> wm1.chan(wx, wy, c) == wm2.chan(wx, wy, c),
    ensures
        composited_model(dst, wm1, ox, oy) == composited_model(dst, wm2, ox, oy),
{
    let w = dst.width as int;
    let h = dst.height as int;
    let m1 = composited_model(dst, wm1, ox, oy);
    let m2 = composited_model(dst, wm2, ox, oy);
    assert forall|i: int| 0 <= i < m1.data.len() implies m1.data[i] == m2.data[i] by {
        assert(1 <= w && 1 <= h) by (nonlinear_arith)
            requires
                0 <= w,
                0 <= h,
                0 < 4 * (w * h),
        ;
        lemma_flat_decompose(i, w, h);
        let x = (i / 4) % w;
        let y = (i / 4) / w;
        let c = i % 4;
        if 0 <= x - ox < wm1.width && 0 <= y - oy < wm1.height {
            assert(wm1.chan(x - ox, y - oy, c) == wm2.chan(x - ox, y - oy, c));
            assert(wm1.chan(x - ox, y - oy, 3) == wm2.chan(x - ox, y - oy, 3));
        }
    };
    assert(m1.data =~= m2.data);
    assert(m1 =~= m2);
}

/// The whole transform as one model: the source stretched to the preset
/// chosen by its orientation, then the alpha-attenuated watermark
/// composited over it, centered by half the difference of the dimensions.
pub open spec fn pipeline_model(src: ImageModel, wm: ImageModel) -> ImageModel {
    let dims = spec_target_dims(src.width as int, src.height as int);
    composited_model(
        resized_model(src, dims.0, dims.1),
        attenuated_model(wm),
        (dims.0 - wm.width) / 2,
        (dims.1 - wm.height) / 2,
    )
}

/// Transform one source image: resize it to the preset chosen by its
/// orientation, attenuate the watermark's alpha, and composite the
/// watermark centered over the resized source.
pub fn apply_watermark(source: &Image, watermark: &Image) -> (r: Image)
    requires
        source.wf(),
        source.width >= 1,
        source.height >= 1,
        watermark.wf(),
    ensures
        r.wf(),
        r.width == spec_target_dims(source@.width as int, source@.height as int).0,
        r.height == spec_target_dims(source@.width as int, source@.height as int).1,
        r@ == pipeline_model(source@, watermark@),
{
    let (tw, th) = target_dims(source.width, source.height);
    let resized = resize_nearest(source, tw, th);
    let wm2 = attenuate_alpha(watermark);
    let ox = center_offset(tw, watermark.width);
    let oy = center_offset(th, watermark.height);
    composite_over(&resized, &wm2, ox, oy)
}

} // verus!
