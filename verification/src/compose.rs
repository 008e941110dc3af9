//! The compositor: merges same-shape artifacts, bottom-to-top, into one.
//!
//! Rasters are folded with the Porter-Duff "over" rule, layer 0 being the
//! bottom-most. Channels and alpha are 8-bit values, so the rule is carried
//! out in fixed-point arithmetic scaled by 255: for accumulated colour and
//! alpha `(c_acc, a_acc)` and the next layer's `(c_fg, a_fg)`,
//!
//! ```text
//! a_out = (255*a_fg + a_acc*(255 - a_fg)) / 255
//! c_out = (255*c_fg*a_fg + c_acc*a_acc*(255 - a_fg)) / (255*a_fg + a_acc*(255 - a_fg))
//! ```
//!
//! a fully transparent layer pixel leaves the accumulator untouched, and an
//! all-transparent stack composes to the fully transparent pixel.
//! Character grids compose per cell: scanning top to bottom, the first cell
//! that is not the space sentinel wins outright.
//! Every output element depends only on the elements at the same position,
//! never on a neighbourhood.

use vstd::prelude::*;

use crate::artifact::{CharImage, LumaAImage, RgbaImage};
use crate::pipeline::{DataType, LayerOutput};

verus! {

/// The four channel values (red, green, blue, alpha) of pixel `p` in a
/// flat raster buffer.
pub open spec fn rgba_px(data: Seq<u8>, p: int) -> (int, int, int, int) {
    (data[4 * p] as int, data[4 * p + 1] as int, data[4 * p + 2] as int, data[4 * p + 3] as int)
}

/// One application of the "over" rule: paint `fg` on top of `acc`.
pub open spec fn over_rgba(acc: (int, int, int, int), fg: (int, int, int, int)) -> (
    int,
    int,
    int,
    int,
) {
    if fg.3 == 0 {
        acc
    } else {
        let n = 255 * fg.3 + acc.3 * (255 - fg.3);
        (
            (255 * fg.0 * fg.3 + acc.0 * acc.3 * (255 - fg.3)) / n,
            (255 * fg.1 * fg.3 + acc.1 * acc.3 * (255 - fg.3)) / n,
            (255 * fg.2 * fg.3 + acc.2 * acc.3 * (255 - fg.3)) / n,
            n / 255,
        )
    }
}

/// Fold a bottom-to-top stack of pixels with the "over" rule, starting
/// from the fully transparent pixel.
pub open spec fn composite_rgba_pixel(stack: Seq<(int, int, int, int)>) -> (int, int, int, int)
    decreases stack.len(),
{
    if stack.len() == 0 {
        (0, 0, 0, 0)
    } else {
        over_rgba(composite_rgba_pixel(stack.drop_last()), stack.last())
    }
}

/// The pixels that the layers stack up at position `p`, bottom first.
pub open spec fn rgba_stack(layers: Seq<RgbaImage>, p: int) -> Seq<(int, int, int, int)> {
    Seq::new(layers.len(), |k: int| rgba_px(layers[k].data@, p))
}

/// All four components of a pixel lie in the byte range.
pub open spec fn px_in_range(px: (int, int, int, int)) -> bool {
    &&& 0 <= px.0 <= 255
    &&& 0 <= px.1 <= 255
    &&& 0 <= px.2 <= 255
    &&& 0 <= px.3 <= 255
}

/// One blended channel stays in the byte range.
proof fn lemma_channel_in_range(cf: int, ca: int, fa: int, aa: int)
    requires
        0 <= cf <= 255,
        0 <= ca <= 255,
        1 <= fa <= 255,
        0 <= aa <= 255,
    ensures
        0 <= (255 * cf * fa + ca * aa * (255 - fa)) / (255 * fa + aa * (255 - fa)) <= 255,
{
    let n = 255 * fa + aa * (255 - fa);
    assert(255 <= n <= 255 * 255) by (nonlinear_arith)
        requires
            1 <= fa <= 255,
            0 <= aa <= 255,
            n == 255 * fa + aa * (255 - fa),
    ;
    assert(0 <= 255 * cf * fa + ca * aa * (255 - fa) <= 255 * n) by (nonlinear_arith)
        requires
            1 <= fa <= 255,
            0 <= aa <= 255,
            0 <= cf <= 255,
            0 <= ca <= 255,
            n == 255 * fa + aa * (255 - fa),
    ;
    assert((255 * cf * fa + ca * aa * (255 - fa)) / n <= 255) by (nonlinear_arith)
        requires
            255 <= n,
            0 <= 255 * cf * fa + ca * aa * (255 - fa) <= 255 * n,
    ;
}

/// The "over" rule keeps every component in the byte range.
proof fn lemma_over_rgba_in_range(acc: (int, int, int, int), fg: (int, int, int, int))
    requires
        px_in_range(acc),
        px_in_range(fg),
    ensures
        px_in_range(over_rgba(acc, fg)),
{
    if fg.3 != 0 {
        let n = 255 * fg.3 + acc.3 * (255 - fg.3);
        assert(255 <= n <= 255 * 255) by (nonlinear_arith)
            requires
                1 <= fg.3 <= 255,
                0 <= acc.3 <= 255,
                n == 255 * fg.3 + acc.3 * (255 - fg.3),
        ;
        lemma_channel_in_range(fg.0, acc.0, fg.3, acc.3);
        lemma_channel_in_range(fg.1, acc.1, fg.3, acc.3);
        lemma_channel_in_range(fg.2, acc.2, fg.3, acc.3);
    }
}

/// Compositing pixels from the byte range stays in the byte range.
proof fn lemma_composite_rgba_in_range(stack: Seq<(int, int, int, int)>)
    requires
        forall|k: int| 0 <= k < stack.len() ==> px_in_range(#[trigger] stack[k]),
    ensures
        px_in_range(composite_rgba_pixel(stack)),
    decreases stack.len(),
{
    if stack.len() > 0 {
        lemma_composite_rgba_in_range(stack.drop_last());
        lemma_over_rgba_in_range(composite_rgba_pixel(stack.drop_last()), stack.last());
    }
}

/// One exec application of the "over" rule on byte-range components.
fn over_step(acc: (u32, u32, u32, u32), fg: (u32, u32, u32, u32)) -> (r: (u32, u32, u32, u32))
    requires
        px_in_range((acc.0 as int, acc.1 as int, acc.2 as int, acc.3 as int)),
        px_in_range((fg.0 as int, fg.1 as int, fg.2 as int, fg.3 as int)),
    ensures
        (r.0 as int, r.1 as int, r.2 as int, r.3 as int) == over_rgba(
            (acc.0 as int, acc.1 as int, acc.2 as int, acc.3 as int),
            (fg.0 as int, fg.1 as int, fg.2 as int, fg.3 as int),
        ),
        px_in_range((r.0 as int, r.1 as int, r.2 as int, r.3 as int)),
{
    proof {
        lemma_over_rgba_in_range(
            (acc.0 as int, acc.1 as int, acc.2 as int, acc.3 as int),
            (fg.0 as int, fg.1 as int, fg.2 as int, fg.3 as int),
        );
    }
    if fg.3 == 0 {
        return acc;
    }
    proof {
        assert(255 * fg.0 * fg.3 <= 255 * 255 * 255 && acc.0 * acc.3 <= 255 * 255 && acc.0
            * acc.3 * (255 - fg.3) <= 255 * 255 * 255 && 255 * fg.1 * fg.3 <= 255 * 255 * 255
            && acc.1 * acc.3 <= 255 * 255 && acc.1 * acc.3 * (255 - fg.3) <= 255 * 255 * 255
            && 255 * fg.2 * fg.3 <= 255 * 255 * 255 && acc.2 * acc.3 <= 255 * 255 && acc.2
            * acc.3 * (255 - fg.3) <= 255 * 255 * 255) by (nonlinear_arith)
            requires
                0 <= fg.0 <= 255,
                0 <= fg.1 <= 255,
                0 <= fg.2 <= 255,
                1 <= fg.3 <= 255,
                0 <= acc.0 <= 255,
                0 <= acc.1 <= 255,
                0 <= acc.2 <= 255,
                0 <= acc.3 <= 255,
        ;
    }
    let n: u32 = 255 * fg.3 + acc.3 * (255 - fg.3);
    assert(255 <= n <= 255 * 255) by (nonlinear_arith)
        requires
            1 <= fg.3 <= 255,
            0 <= acc.3 <= 255,
            n == 255 * fg.3 + acc.3 * (255 - fg.3),
    ;
    let r0: u32 = (255 * fg.0 * fg.3 + acc.0 * acc.3 * (255 - fg.3)) / n;
    let r1: u32 = (255 * fg.1 * fg.3 + acc.1 * acc.3 * (255 - fg.3)) / n;
    let r2: u32 = (255 * fg.2 * fg.3 + acc.2 * acc.3 * (255 - fg.3)) / n;
    let r3: u32 = n / 255;
    (r0, r1, r2, r3)
}

/// What the raster compositor guarantees: the output has the shared
/// dimensions and every pixel is the "over" fold of the pixels the layers
/// stack up at that position.
pub open spec fn raster_composite_post(layers: Seq<RgbaImage>, out: RgbaImage) -> bool {
    &&& out.wf()
    &&& out.width == layers[0].width
    &&& out.height == layers[0].height
    &&& forall|p: int|
        0 <= p < out.width * out.height ==> #[trigger] rgba_px(out.data@, p)
            == composite_rgba_pixel(rgba_stack(layers, p))
}

/// Merge a non-empty stack of equally sized rasters, bottom to top, with
/// the "over" rule.
pub fn overlay_all_rgba(layers: &Vec<RgbaImage>) -> (out: RgbaImage)
    requires
        layers@.len() > 0,
        forall|k: int| 0 <= k < layers@.len() ==> (#[trigger] layers@[k]).wf(),
        forall|k: int|
            0 <= k < layers@.len() ==> (#[trigger] layers@[k]).width == layers@[0].width
                && layers@[k].height == layers@[0].height,
    ensures
        raster_composite_post(layers@, out),
{
    let width = layers[0].width;
    let height = layers[0].height;
    let n_px = layers[0].data.len() / 4;
    proof {
        assert(layers@[0].wf());
        assert(n_px == width * height);
        assert(4 * (n_px as int) <= layers@[0].data@.len());
    }
    let mut data: Vec<u8> = Vec::new();
    let mut p: usize = 0;
    while p < n_px
        invariant
            n_px == width * height,
            4 * (n_px as int) <= layers@[0].data@.len(),
            layers@[0].data@.len() <= usize::MAX,
            layers@.len() > 0,
            forall|k: int| 0 <= k < layers@.len() ==> (#[trigger] layers@[k]).wf(),
            forall|k: int|
                0 <= k < layers@.len() ==> (#[trigger] layers@[k]).width == width
                    && layers@[k].height == height,
            p <= n_px,
            data@.len() == 4 * p,
            forall|q: int|
                0 <= q < p ==> #[trigger] rgba_px(data@, q) == composite_rgba_pixel(
                    rgba_stack(layers@, q),
                ),
        decreases n_px - p,
    {
        let ghost stack = rgba_stack(layers@, p as int);
        let mut acc: (u32, u32, u32, u32) = (0, 0, 0, 0);
        let mut k: usize = 0;
        while k < layers.len()
            invariant
                n_px == width * height,
                4 * (n_px as int) <= layers@[0].data@.len(),
                layers@[0].data@.len() <= usize::MAX,
                layers@.len() > 0,
                p < n_px,
                forall|j: int| 0 <= j < layers@.len() ==> (#[trigger] layers@[j]).wf(),
                forall|j: int|
                    0 <= j < layers@.len() ==> (#[trigger] layers@[j]).width == width
                        && layers@[j].height == height,
                stack == rgba_stack(layers@, p as int),
                k <= layers@.len(),
                px_in_range((acc.0 as int, acc.1 as int, acc.2 as int, acc.3 as int)),
                (acc.0 as int, acc.1 as int, acc.2 as int, acc.3 as int)
                    == composite_rgba_pixel(stack.subrange(0, k as int)),
            decreases layers@.len() - k,
        {
            proof {
                assert(layers@[k as int].wf());
                assert(layers@[k as int].data@.len() == width * height * 4);
                assert(layers@[k as int].data@.len() == 4 * (n_px as int));
                assert(4 * (p as int) + 3 < layers@[k as int].data@.len());
            }
            let layer = &layers[k];
            let base = 4 * p;
            let fg: (u32, u32, u32, u32) = (
                layer.data[base] as u32,
                layer.data[base + 1] as u32,
                layer.data[base + 2] as u32,
                layer.data[base + 3] as u32,
            );
            proof {
                assert(stack.subrange(0, k as int + 1).drop_last() =~= stack.subrange(
                    0,
                    k as int,
                ));
                assert(stack.subrange(0, k as int + 1).last() == stack[k as int]);
                assert(stack[k as int] == rgba_px(layers@[k as int].data@, p as int));
            }
            acc = over_step(acc, fg);
            k = k + 1;
        }
        proof {
            assert(stack.subrange(0, stack.len() as int) =~= stack);
        }
        let ghost pre = data@;
        let b0 = acc.0 as u8;
        let b1 = acc.1 as u8;
        let b2 = acc.2 as u8;
        let b3 = acc.3 as u8;
        data.push(b0);
        data.push(b1);
        data.push(b2);
        data.push(b3);
        proof {
            assert forall|q: int| 0 <= q < p + 1 implies #[trigger] rgba_px(data@, q)
                == composite_rgba_pixel(rgba_stack(layers@, q)) by {
                if q == p {
                    assert(data@[4 * q] == b0 && data@[4 * q + 1] == b1 && data@[4 * q + 2] == b2
                        && data@[4 * q + 3] == b3);
                    assert((b0 as int, b1 as int, b2 as int, b3 as int)
                        == composite_rgba_pixel(stack));
                } else {
                    assert(data@[4 * q] == pre[4 * q] && data@[4 * q + 1] == pre[4 * q + 1]
                        && data@[4 * q + 2] == pre[4 * q + 2] && data@[4 * q + 3] == pre[4 * q
                        + 3]);
                    assert(rgba_px(pre, q) == composite_rgba_pixel(rgba_stack(layers@, q)));
                }
            }
        }
        p = p + 1;
    }
    RgbaImage { width, height, data }
}

/// The two channel values (luminance, alpha) of pixel `p` in a flat
/// luminance buffer.
pub open spec fn luma_px(data: Seq<u8>, p: int) -> (int, int) {
    (data[2 * p] as int, data[2 * p + 1] as int)
}

/// The "over" rule on a single luminance channel plus alpha.
pub open spec fn over_luma(acc: (int, int), fg: (int, int)) -> (int, int) {
    if fg.1 == 0 {
        acc
    } else {
        let n = 255 * fg.1 + acc.1 * (255 - fg.1);
        ((255 * fg.0 * fg.1 + acc.0 * acc.1 * (255 - fg.1)) / n, n / 255)
    }
}

/// Fold a bottom-to-top stack of luminance pixels, starting fully
/// transparent.
pub open spec fn composite_luma_pixel(stack: Seq<(int, int)>) -> (int, int)
    decreases stack.len(),
{
    if stack.len() == 0 {
        (0, 0)
    } else {
        over_luma(composite_luma_pixel(stack.drop_last()), stack.last())
    }
}

/// The luminance pixels that the layers stack up at position `p`.
pub open spec fn luma_stack(layers: Seq<LumaAImage>, p: int) -> Seq<(int, int)> {
    Seq::new(layers.len(), |k: int| luma_px(layers[k].data@, p))
}

/// Both components of a luminance pixel lie in the byte range.
pub open spec fn lpx_in_range(px: (int, int)) -> bool {
    &&& 0 <= px.0 <= 255
    &&& 0 <= px.1 <= 255
}

/// The luminance "over" rule keeps both components in the byte range.
proof fn lemma_over_luma_in_range(acc: (int, int), fg: (int, int))
    requires
        lpx_in_range(acc),
        lpx_in_range(fg),
    ensures
        lpx_in_range(over_luma(acc, fg)),
{
    if fg.1 != 0 {
        let n = 255 * fg.1 + acc.1 * (255 - fg.1);
        assert(255 <= n <= 255 * 255) by (nonlinear_arith)
            requires
                1 <= fg.1 <= 255,
                0 <= acc.1 <= 255,
                n == 255 * fg.1 + acc.1 * (255 - fg.1),
        ;
        lemma_channel_in_range(fg.0, acc.0, fg.1, acc.1);
    }
}

/// One exec application of the luminance "over" rule.
fn over_luma_step(acc: (u32, u32), fg: (u32, u32)) -> (r: (u32, u32))
    requires
        lpx_in_range((acc.0 as int, acc.1 as int)),
        lpx_in_range((fg.0 as int, fg.1 as int)),
    ensures
        (r.0 as int, r.1 as int) == over_luma((acc.0 as int, acc.1 as int), (fg.0 as int, fg.1 as int)),
        lpx_in_range((r.0 as int, r.1 as int)),
{
    proof {
        lemma_over_luma_in_range((acc.0 as int, acc.1 as int), (fg.0 as int, fg.1 as int));
    }
    if fg.1 == 0 {
        return acc;
    }
    proof {
        assert(255 * fg.0 * fg.1 <= 255 * 255 * 255 && acc.0 * acc.1 <= 255 * 255 && acc.0
            * acc.1 * (255 - fg.1) <= 255 * 255 * 255) by (nonlinear_arith)
            requires
                0 <= fg.0 <= 255,
                1 <= fg.1 <= 255,
                0 <= acc.0 <= 255,
                0 <= acc.1 <= 255,
        ;
    }
    let n: u32 = 255 * fg.1 + acc.1 * (255 - fg.1);
    assert(255 <= n <= 255 * 255) by (nonlinear_arith)
        requires
            1 <= fg.1 <= 255,
            0 <= acc.1 <= 255,
            n == 255 * fg.1 + acc.1 * (255 - fg.1),
    ;
    let r0: u32 = (255 * fg.0 * fg.1 + acc.0 * acc.1 * (255 - fg.1)) / n;
    let r1: u32 = n / 255;
    (r0, r1)
}

/// What the luminance compositor guarantees, pixel for pixel.
pub open spec fn luma_composite_post(layers: Seq<LumaAImage>, out: LumaAImage) -> bool {
    &&& out.wf()
    &&& out.width == layers[0].width
    &&& out.height == layers[0].height
    &&& forall|p: int|
        0 <= p < out.width * out.height ==> #[trigger] luma_px(out.data@, p)
            == composite_luma_pixel(luma_stack(layers, p))
}

/// Merge a non-empty stack of equally sized luminance rasters, bottom to
/// top, with the "over" rule.
pub fn overlay_all_luma(layers: &Vec<LumaAImage>) -> (out: LumaAImage)
    requires
        layers@.len() > 0,
        forall|k: int| 0 <= k < layers@.len() ==> (#[trigger] layers@[k]).wf(),
        forall|k: int|
            0 <= k < layers@.len() ==> (#[trigger] layers@[k]).width == layers@[0].width
                && layers@[k].height == layers@[0].height,
    ensures
        luma_composite_post(layers@, out),
{
    let width = layers[0].width;
    let height = layers[0].height;
    let n_px = layers[0].data.len() / 2;
    proof {
        assert(layers@[0].wf());
        assert(n_px == width * height);
        assert(2 * (n_px as int) <= layers@[0].data@.len());
    }
    let mut data: Vec<u8> = Vec::new();
    let mut p: usize = 0;
    while p < n_px
        invariant
            n_px == width * height,
            2 * (n_px as int) <= layers@[0].data@.len(),
            layers@[0].data@.len() <= usize::MAX,
            layers@.len() > 0,
            forall|k: int| 0 <= k < layers@.len() ==> (#[trigger] layers@[k]).wf(),
            forall|k: int|
                0 <= k < layers@.len() ==> (#[trigger] layers@[k]).width == width
                    && layers@[k].height == height,
            p <= n_px,
            data@.len() == 2 * p,
            forall|q: int|
                0 <= q < p ==> #[trigger] luma_px(data@, q) == composite_luma_pixel(
                    luma_stack(layers@, q),
                ),
        decreases n_px - p,
    {
        let ghost stack = luma_stack(layers@, p as int);
        let mut acc: (u32, u32) = (0, 0);
        let mut k: usize = 0;
        while k < layers.len()
            invariant
                n_px == width * height,
                2 * (n_px as int) <= layers@[0].data@.len(),
                layers@[0].data@.len() <= usize::MAX,
                layers@.len() > 0,
                p < n_px,
                forall|j: int| 0 <= j < layers@.len() ==> (#[trigger] layers@[j]).wf(),
                forall|j: int|
                    0 <= j < layers@.len() ==> (#[trigger] layers@[j]).width == width
                        && layers@[j].height == height,
                stack == luma_stack(layers@, p as int),
                k <= layers@.len(),
                lpx_in_range((acc.0 as int, acc.1 as int)),
                (acc.0 as int, acc.1 as int) == composite_luma_pixel(
                    stack.subrange(0, k as int),
                ),
            decreases layers@.len() - k,
        {
            proof {
                assert(layers@[k as int].wf());
                assert(layers@[k as int].data@.len() == width * height * 2);
                assert(layers@[k as int].data@.len() == 2 * (n_px as int));
                assert(2 * (p as int) + 1 < layers@[k as int].data@.len());
            }
            let layer = &layers[k];
            let base = 2 * p;
            let fg: (u32, u32) = (layer.data[base] as u32, layer.data[base + 1] as u32);
            proof {
                assert(stack.subrange(0, k as int + 1).drop_last() =~= stack.subrange(
                    0,
                    k as int,
                ));
                assert(stack.subrange(0, k as int + 1).last() == stack[k as int]);
                assert(stack[k as int] == luma_px(layers@[k as int].data@, p as int));
            }
            acc = over_luma_step(acc, fg);
            k = k + 1;
        }
        proof {
            assert(stack.subrange(0, stack.len() as int) =~= stack);
        }
        let ghost pre = data@;
        let b0 = acc.0 as u8;
        let b1 = acc.1 as u8;
        data.push(b0);
        data.push(b1);
        proof {
            assert forall|q: int| 0 <= q < p + 1 implies #[trigger] luma_px(data@, q)
                == composite_luma_pixel(luma_stack(layers@, q)) by {
                if q == p {
                    assert(data@[2 * q] == b0 && data@[2 * q + 1] == b1);
                    assert((b0 as int, b1 as int) == composite_luma_pixel(stack));
                } else {
                    assert(data@[2 * q] == pre[2 * q] && data@[2 * q + 1] == pre[2 * q + 1]);
                    assert(luma_px(pre, q) == composite_luma_pixel(luma_stack(layers@, q)));
                }
            }
        }
        p = p + 1;
    }
    LumaAImage { width, height, data }
}

/// Scan the cells `0..i` of a bottom-to-top stack from the top down; the
/// first one that is not the space sentinel wins, and a fully empty stack
/// yields the sentinel.
pub open spec fn char_scan(stack: Seq<char>, i: int) -> char
    decreases i,
{
    if i <= 0 {
        ' '
    } else if stack[i - 1] != ' ' {
        stack[i - 1]
    } else {
        char_scan(stack, i - 1)
    }
}

/// The winning glyph of a whole bottom-to-top cell stack.
pub open spec fn composite_char_cell(stack: Seq<char>) -> char {
    char_scan(stack, stack.len() as int)
}

/// The glyphs that the layers stack up at cell `idx`.
pub open spec fn char_stack(layers: Seq<CharImage>, idx: int) -> Seq<char> {
    Seq::new(layers.len(), |k: int| layers[k].data@[idx])
}

/// What the character compositor guarantees, cell for cell.
pub open spec fn char_composite_post(layers: Seq<CharImage>, out: CharImage) -> bool {
    &&& out.wf()
    &&& out.width == layers[0].width
    &&& out.height == layers[0].height
    &&& forall|idx: int|
        0 <= idx < out.width * out.height ==> #[trigger] out.data@[idx] == composite_char_cell(
            char_stack(layers, idx),
        )
}

/// Merge a non-empty stack of equally sized glyph grids: per cell, the
/// top-most glyph that is not the space sentinel wins outright.
pub fn overlay_all_char(layers: &Vec<CharImage>) -> (out: CharImage)
    requires
        layers@.len() > 0,
        forall|k: int| 0 <= k < layers@.len() ==> (#[trigger] layers@[k]).wf(),
        forall|k: int|
            0 <= k < layers@.len() ==> (#[trigger] layers@[k]).width == layers@[0].width
                && layers@[k].height == layers@[0].height,
    ensures
        char_composite_post(layers@, out),
{
    let width = layers[0].width;
    let height = layers[0].height;
    let size = layers[0].data.len();
    proof {
        assert(layers@[0].wf());
        assert(size == width * height);
    }
    let mut data: Vec<char> = Vec::new();
    let mut idx: usize = 0;
    while idx < size
        invariant
            size == width * height,
            layers@.len() > 0,
            forall|k: int| 0 <= k < layers@.len() ==> (#[trigger] layers@[k]).wf(),
            forall|k: int|
                0 <= k < layers@.len() ==> (#[trigger] layers@[k]).width == width
                    && layers@[k].height == height,
            idx <= size,
            data@.len() == idx,
            forall|q: int|
                0 <= q < idx ==> #[trigger] data@[q] == composite_char_cell(
                    char_stack(layers@, q),
                ),
        decreases size - idx,
    {
        let ghost stack = char_stack(layers@, idx as int);
        let mut c: char = ' ';
        let mut k: usize = layers.len();
        while k > 0 && c == ' '
            invariant
                size == width * height,
                layers@.len() > 0,
                idx < size,
                forall|j: int| 0 <= j < layers@.len() ==> (#[trigger] layers@[j]).wf(),
                forall|j: int|
                    0 <= j < layers@.len() ==> (#[trigger] layers@[j]).width == width
                        && layers@[j].height == height,
                stack == char_stack(layers@, idx as int),
                k <= layers@.len(),
                composite_char_cell(stack) == (if c == ' ' {
                    char_scan(stack, k as int)
                } else {
                    c
                }),
            decreases k,
        {
            proof {
                assert(layers@[k - 1].wf());
                assert(layers@[k - 1].data@.len() == width * height);
                assert(stack[k - 1] == layers@[k - 1].data@[idx as int]);
            }
            let cell = layers[k - 1].data[idx];
            if cell != ' ' {
                c = cell;
            }
            k = k - 1;
        }
        data.push(c);
        idx = idx + 1;
    }
    CharImage { width, height, data }
}

/// What `overlay_two` guarantees: every pixel is the two-step "over" fold
/// of the bottom and top pixels at that position.
pub open spec fn pair_composite_post(bottom: RgbaImage, top: RgbaImage, out: RgbaImage) -> bool {
    &&& out.wf()
    &&& out.width == bottom.width
    &&& out.height == bottom.height
    &&& forall|p: int|
        0 <= p < out.width * out.height ==> #[trigger] rgba_px(out.data@, p) == over_rgba(
            over_rgba((0, 0, 0, 0), rgba_px(bottom.data@, p)),
            rgba_px(top.data@, p),
        )
}

/// The two-image convenience form of the raster composite rule: paint
/// `top` over `bottom`.
pub fn overlay_two(bottom: &RgbaImage, top: &RgbaImage) -> (out: RgbaImage)
    requires
        bottom.wf(),
        top.wf(),
        top.width == bottom.width,
        top.height == bottom.height,
    ensures
        pair_composite_post(*bottom, *top, out),
{
    let mut pair: Vec<RgbaImage> = Vec::new();
    pair.push(bottom.clone());
    pair.push(top.clone());
    let out = overlay_all_rgba(&pair);
    proof {
        assert forall|p: int| 0 <= p < out.width * out.height implies #[trigger] rgba_px(
            out.data@,
            p,
        ) == over_rgba(
            over_rgba((0, 0, 0, 0), rgba_px(bottom.data@, p)),
            rgba_px(top.data@, p),
        ) by {
            let st = rgba_stack(pair@, p);
            assert(st.len() == 2);
            assert(st[0] == rgba_px(bottom.data@, p));
            assert(st[1] == rgba_px(top.data@, p));
            assert(st.drop_last() =~= seq![st[0]]);
            assert(seq![st[0]].drop_last() =~= Seq::<(int, int, int, int)>::empty());
            assert(composite_rgba_pixel(Seq::<(int, int, int, int)>::empty()) == (0int, 0int, 0int, 0int));
            assert(seq![st[0]].last() == st[0]);
            assert(composite_rgba_pixel(seq![st[0]]) == over_rgba((0, 0, 0, 0), st[0]));
        }
    }
    out
}

/// Two raster buffers of `n` pixels whose pixels agree everywhere are the
/// same buffer, byte for byte.
proof fn lemma_rgba_bytes_from_pixels(a: Seq<u8>, b: Seq<u8>, n: int)
    requires
        0 <= n,
        a.len() == 4 * n,
        b.len() == 4 * n,
        forall|p: int| 0 <= p < n ==> #[trigger] rgba_px(a, p) == rgba_px(b, p),
    ensures
        a =~= b,
{
    assert forall|i: int| 0 <= i < a.len() implies a[i] == b[i] by {
        let p = i / 4;
        let c = i % 4;
        assert(0 <= p < n);
        assert(i == 4 * p + c && 0 <= c < 4);
        assert(rgba_px(a, p) == rgba_px(b, p));
        if c == 0 {
            assert(a[4 * p] == b[4 * p]);
        } else if c == 1 {
            assert(a[4 * p + 1] == b[4 * p + 1]);
        } else if c == 2 {
            assert(a[4 * p + 2] == b[4 * p + 2]);
        } else {
            assert(a[4 * p + 3] == b[4 * p + 3]);
        }
    }
}

/// Painting a fully opaque pixel over the transparent background gives
/// back that pixel exactly.
proof fn lemma_opaque_over(px: (int, int, int, int))
    requires
        px_in_range(px),
        px.3 == 255,
    ensures
        over_rgba((0, 0, 0, 0), px) == px,
{
    assert((255 * px.0 * 255) / (255 * 255int) == px.0) by (nonlinear_arith)
        requires
            0 <= px.0,
    ;
    assert((255 * px.1 * 255) / (255 * 255int) == px.1) by (nonlinear_arith)
        requires
            0 <= px.1,
    ;
    assert((255 * px.2 * 255) / (255 * 255int) == px.2) by (nonlinear_arith)
        requires
            0 <= px.2,
    ;
}

/// Compositing a single fully opaque raster layer returns it unchanged.
pub proof fn lemma_composite_opaque_identity(layer: RgbaImage, out: RgbaImage)
    requires
        layer.wf(),
        forall|p: int|
            0 <= p < layer.width * layer.height ==> (#[trigger] rgba_px(layer.data@, p)).3 == 255,
        raster_composite_post(seq![layer], out),
    ensures
        out.width == layer.width,
        out.height == layer.height,
        out.data@ == layer.data@,
{
    let n = layer.width * layer.height as int;
    assert(seq![layer][0] == layer);
    assert forall|p: int| 0 <= p < n implies #[trigger] rgba_px(out.data@, p) == rgba_px(
        layer.data@,
        p,
    ) by {
        let st = rgba_stack(seq![layer], p);
        assert(st.len() == 1);
        assert(st[0] == rgba_px(layer.data@, p));
        assert(st.drop_last() =~= Seq::<(int, int, int, int)>::empty());
        lemma_opaque_over(st[0]);
    }
    lemma_rgba_bytes_from_pixels(out.data@, layer.data@, n);
}

/// Compositing with a fully transparent top layer returns the composite of
/// the layers below unchanged.
pub proof fn lemma_composite_transparent_top(
    layers: Seq<RgbaImage>,
    below: RgbaImage,
    full: RgbaImage,
)
    requires
        layers.len() >= 2,
        forall|p: int|
            0 <= p < layers[0].width * layers[0].height ==> (#[trigger] rgba_px(
                layers.last().data@,
                p,
            )).3 == 0,
        raster_composite_post(layers.drop_last(), below),
        raster_composite_post(layers, full),
    ensures
        full.width == below.width,
        full.height == below.height,
        full.data@ == below.data@,
{
    assert(layers.drop_last()[0] == layers[0]);
    let n = layers[0].width * layers[0].height as int;
    assert forall|p: int| 0 <= p < n implies #[trigger] rgba_px(full.data@, p) == rgba_px(
        below.data@,
        p,
    ) by {
        let st = rgba_stack(layers, p);
        assert(st.last() == rgba_px(layers.last().data@, p));
        assert(st.last().3 == 0);
        assert(st.drop_last() =~= rgba_stack(layers.drop_last(), p));
        assert(rgba_px(below.data@, p) == composite_rgba_pixel(rgba_stack(layers.drop_last(), p)));
    }
    lemma_rgba_bytes_from_pixels(full.data@, below.data@, n);
}

/// Compositing exactly two raster layers gives the same image as painting
/// the second over the first with `overlay_two`.
pub proof fn lemma_pair_composite_matches(
    bottom: RgbaImage,
    top: RgbaImage,
    pair: RgbaImage,
    folded: RgbaImage,
)
    requires
        bottom.wf(),
        pair_composite_post(bottom, top, pair),
        raster_composite_post(seq![bottom, top], folded),
    ensures
        pair.width == folded.width,
        pair.height == folded.height,
        pair.data@ == folded.data@,
{
    assert(seq![bottom, top][0] == bottom);
    let n = bottom.width * bottom.height as int;
    assert forall|p: int| 0 <= p < n implies #[trigger] rgba_px(pair.data@, p) == rgba_px(
        folded.data@,
        p,
    ) by {
        let st = rgba_stack(seq![bottom, top], p);
        assert(st.len() == 2);
        assert(st[0] == rgba_px(bottom.data@, p));
        assert(st[1] == rgba_px(top.data@, p));
        assert(st.drop_last() =~= seq![st[0]]);
        assert(seq![st[0]].drop_last() =~= Seq::<(int, int, int, int)>::empty());
        assert(composite_rgba_pixel(Seq::<(int, int, int, int)>::empty()) == (0int, 0int, 0int, 0int));
        assert(seq![st[0]].last() == st[0]);
        assert(composite_rgba_pixel(seq![st[0]]) == over_rgba((0, 0, 0, 0), st[0]));
    }
    lemma_rgba_bytes_from_pixels(pair.data@, folded.data@, n);
}

/// The width of whichever payload an artifact carries.
pub open spec fn artifact_width(o: LayerOutput) -> usize {
    match o {
        LayerOutput::Rgba(img) => img.width,
        LayerOutput::LumaA(img) => img.width,
        LayerOutput::Char(img) => img.width,
    }
}

/// The height of whichever payload an artifact carries.
pub open spec fn artifact_height(o: LayerOutput) -> usize {
    match o {
        LayerOutput::Rgba(img) => img.height,
        LayerOutput::LumaA(img) => img.height,
        LayerOutput::Char(img) => img.height,
    }
}

/// All artifacts share one shape.
pub open spec fn all_same_shape(outs: Seq<LayerOutput>) -> bool {
    forall|k: int|
        0 <= k < outs.len() ==> (#[trigger] outs[k]).spec_data_type() == outs[0].spec_data_type()
}

/// All artifacts share the first one's dimensions.
pub open spec fn all_same_dims(outs: Seq<LayerOutput>) -> bool {
    forall|k: int|
        0 <= k < outs.len() ==> artifact_width(#[trigger] outs[k]) == artifact_width(outs[0])
            && artifact_height(outs[k]) == artifact_height(outs[0])
}

/// The raster payloads of a stack of raster artifacts.
pub open spec fn rgba_payloads(outs: Seq<LayerOutput>) -> Seq<RgbaImage> {
    Seq::new(outs.len(), |k: int| outs[k]->Rgba_0)
}

/// The luminance payloads of a stack of luminance artifacts.
pub open spec fn luma_payloads(outs: Seq<LayerOutput>) -> Seq<LumaAImage> {
    Seq::new(outs.len(), |k: int| outs[k]->LumaA_0)
}

/// The glyph-grid payloads of a stack of glyph-grid artifacts.
pub open spec fn char_payloads(outs: Seq<LayerOutput>) -> Seq<CharImage> {
    Seq::new(outs.len(), |k: int| outs[k]->Char_0)
}

/// Merge per-layer artifacts, bottom to top, with the rule of their shape.
/// An empty or shape-mixed input is a caller error answered with no
/// result, not a pipeline error; same-shape artifacts must already share
/// their dimensions.
pub fn overlay_layers(outputs: &Vec<LayerOutput>) -> (r: Option<LayerOutput>)
    requires
        forall|k: int| 0 <= k < outputs@.len() ==> (#[trigger] outputs@[k]).wf(),
        all_same_shape(outputs@) ==> all_same_dims(outputs@),
    ensures
        (r is Some) <==> (outputs@.len() > 0 && all_same_shape(outputs@)),
        outputs@.len() > 0 && all_same_shape(outputs@) && outputs@[0] is Rgba ==> (r matches Some(
            o,
        ) && o matches LayerOutput::Rgba(img) && raster_composite_post(
            rgba_payloads(outputs@),
            img,
        )),
        outputs@.len() > 0 && all_same_shape(outputs@) && outputs@[0] is LumaA ==> (r matches Some(
            o,
        ) && o matches LayerOutput::LumaA(img) && luma_composite_post(
            luma_payloads(outputs@),
            img,
        )),
        outputs@.len() > 0 && all_same_shape(outputs@) && outputs@[0] is Char ==> (r matches Some(
            o,
        ) && o matches LayerOutput::Char(img) && char_composite_post(
            char_payloads(outputs@),
            img,
        )),
{
    if outputs.len() == 0 {
        return None;
    }
    let first_type = outputs[0].data_type();
    let mut k: usize = 1;
    while k < outputs.len()
        invariant
            outputs@.len() > 0,
            k <= outputs@.len(),
            first_type == outputs@[0].spec_data_type(),
            forall|j: int|
                0 <= j < k ==> (#[trigger] outputs@[j]).spec_data_type() == outputs@[
                    0].spec_data_type(),
        decreases outputs@.len() - k,
    {
        if outputs[k].data_type() != first_type {
            return None;
        }
        k = k + 1;
    }
    match first_type {
        DataType::Rgba => {
            let mut images: Vec<RgbaImage> = Vec::new();
            let mut i: usize = 0;
            while i < outputs.len()
                invariant
                    outputs@.len() > 0,
                    i <= outputs@.len(),
                    forall|j: int| 0 <= j < outputs@.len() ==> (#[trigger] outputs@[j]).wf(),
                    all_same_shape(outputs@),
                    all_same_dims(outputs@),
                    outputs@[0] is Rgba,
                    images@.len() == i,
                    forall|j: int|
                        0 <= j < i ==> (#[trigger] images@[j]).width == rgba_payloads(
                            outputs@,
                        )[j].width && images@[j].height == rgba_payloads(outputs@)[j].height
                            && images@[j].data@ == rgba_payloads(outputs@)[j].data@,
                decreases outputs@.len() - i,
            {
                proof {
                    assert(outputs@[i as int].spec_data_type() == outputs@[0].spec_data_type());
                }
                match &outputs[i] {
                    LayerOutput::Rgba(img) => {
                        images.push(img.clone());
                    },
                    _ => {
                        proof {
                            assert(false);
                        }
                    },
                }
                i = i + 1;
            }
            proof {
                assert forall|j: int| 0 <= j < images@.len() implies (#[trigger] images@[j]).wf()
                    && images@[j].width == images@[0].width && images@[j].height == images@[
                    0].height by {
                    assert(outputs@[j].wf());
                    assert(artifact_width(outputs@[j]) == artifact_width(outputs@[0]));
                }
            }
            let out = overlay_all_rgba(&images);
            proof {
                assert forall|p: int| 0 <= p < out.width * out.height implies #[trigger] rgba_px(
                    out.data@,
                    p,
                ) == composite_rgba_pixel(rgba_stack(rgba_payloads(outputs@), p)) by {
                    assert(rgba_stack(images@, p) =~= rgba_stack(rgba_payloads(outputs@), p));
                }
            }
            Some(LayerOutput::Rgba(out))
        },
        DataType::LumaA => {
            let mut images: Vec<LumaAImage> = Vec::new();
            let mut i: usize = 0;
            while i < outputs.len()
                invariant
                    outputs@.len() > 0,
                    i <= outputs@.len(),
                    forall|j: int| 0 <= j < outputs@.len() ==> (#[trigger] outputs@[j]).wf(),
                    all_same_shape(outputs@),
                    all_same_dims(outputs@),
                    outputs@[0] is LumaA,
                    images@.len() == i,
                    forall|j: int|
                        0 <= j < i ==> (#[trigger] images@[j]).width == luma_payloads(
                            outputs@,
                        )[j].width && images@[j].height == luma_payloads(outputs@)[j].height
                            && images@[j].data@ == luma_payloads(outputs@)[j].data@,
                decreases outputs@.len() - i,
            {
                proof {
                    assert(outputs@[i as int].spec_data_type() == outputs@[0].spec_data_type());
                }
                match &outputs[i] {
                    LayerOutput::LumaA(img) => {
                        images.push(img.clone());
                    },
                    _ => {
                        proof {
                            assert(false);
                        }
                    },
                }
                i = i + 1;
            }
            proof {
                assert forall|j: int| 0 <= j < images@.len() implies (#[trigger] images@[j]).wf()
                    && images@[j].width == images@[0].width && images@[j].height == images@[
                    0].height by {
                    assert(outputs@[j].wf());
                    assert(artifact_width(outputs@[j]) == artifact_width(outputs@[0]));
                }
            }
            let out = overlay_all_luma(&images);
            proof {
                assert forall|p: int| 0 <= p < out.width * out.height implies #[trigger] luma_px(
                    out.data@,
                    p,
                ) == composite_luma_pixel(luma_stack(luma_payloads(outputs@), p)) by {
                    assert(luma_stack(images@, p) =~= luma_stack(luma_payloads(outputs@), p));
                }
            }
            Some(LayerOutput::LumaA(out))
        },
        DataType::Char => {
            let mut images: Vec<CharImage> = Vec::new();
            let mut i: usize = 0;
            while i < outputs.len()
                invariant
                    outputs@.len() > 0,
                    i <= outputs@.len(),
                    forall|j: int| 0 <= j < outputs@.len() ==> (#[trigger] outputs@[j]).wf(),
                    all_same_shape(outputs@),
                    all_same_dims(outputs@),
                    outputs@[0] is Char,
                    images@.len() == i,
                    forall|j: int|
                        0 <= j < i ==> (#[trigger] images@[j]).width == char_payloads(
                            outputs@,
                        )[j].width && images@[j].height == char_payloads(outputs@)[j].height
                            && images@[j].data@ == char_payloads(outputs@)[j].data@,
                decreases outputs@.len() - i,
            {
                proof {
                    assert(outputs@[i as int].spec_data_type() == outputs@[0].spec_data_type());
                }
                match &outputs[i] {
                    LayerOutput::Char(img) => {
                        images.push(img.clone());
                    },
                    _ => {
                        proof {
                            assert(false);
                        }
                    },
                }
                i = i + 1;
            }
            proof {
                assert forall|j: int| 0 <= j < images@.len() implies (#[trigger] images@[j]).wf()
                    && images@[j].width == images@[0].width && images@[j].height == images@[
                    0].height by {
                    assert(outputs@[j].wf());
                    assert(artifact_width(outputs@[j]) == artifact_width(outputs@[0]));
                }
            }
            let out = overlay_all_char(&images);
            proof {
                assert forall|idx: int| 0 <= idx < out.width * out.height implies #[trigger] out.data@[idx]
                    == composite_char_cell(char_stack(char_payloads(outputs@), idx)) by {
                    assert(char_stack(images@, idx) =~= char_stack(char_payloads(outputs@), idx));
                }
            }
            Some(LayerOutput::Char(out))
        },
    }
}

} // verus!
