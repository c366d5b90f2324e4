use crate::document::{GroupView, LayerView, NodeView, SilicaGroup, SilicaLayers};
use crate::document::{group_ready, node_ready, node_view};
use crate::raster::{lemma_pixel_decompose, lemma_pixel_index, Image, ImageView};
use vstd::arithmetic::div_mod::{
    lemma_div_is_ordered, lemma_div_multiples_vanish, lemma_div_pos_is_pos,
    lemma_fundamental_div_mod_converse,
};
use vstd::prelude::*;

verus! {

/// The closed set of per-channel blend functions the renderer knows; every
/// blend id without a defined mapping falls back to `Normal`.
#[derive(Debug, Clone, Copy, PartialEq, Eq, Structural)]
pub enum BlendMode {
    Normal,
    Multiply,
    Screen,
    Overlay,
}

/// Blend function selected by a layer's numeric blend id: 1 is multiply, 2 is
/// screen, 11 is overlay, and every other id — 0 included — is normal.
pub open spec fn spec_blend_mode(id: u32) -> BlendMode {
    if id == 1 {
        BlendMode::Multiply
    } else if id == 2 {
        BlendMode::Screen
    } else if id == 11 {
        BlendMode::Overlay
    } else {
        BlendMode::Normal
    }
}

/// Exec counterpart of `spec_blend_mode`.
pub fn blend_mode_from_id(id: u32) -> (m: BlendMode)
    ensures
        m == spec_blend_mode(id),
{
    match id {
        1 => BlendMode::Multiply,
        2 => BlendMode::Screen,
        11 => BlendMode::Overlay,
        _ => BlendMode::Normal,
    }
}

/// Blend ids without a defined mapping — 0 among them — select the same
/// blend function as the normal alpha-over path, while 1, 2 and 11 select
/// multiply, screen and overlay.
pub proof fn lemma_blend_mode_dispatch(id: u32)
    ensures
        id == 1 ==> spec_blend_mode(id) == BlendMode::Multiply,
        id == 2 ==> spec_blend_mode(id) == BlendMode::Screen,
        id == 11 ==> spec_blend_mode(id) == BlendMode::Overlay,
        id != 1 && id != 2 && id != 11 ==> spec_blend_mode(id) == spec_blend_mode(0)
            && spec_blend_mode(id) == BlendMode::Normal,
{
}

/// Blended color of one channel, before alpha-over composition, in standard
/// 8-bit non-premultiplied arithmetic.
pub open spec fn spec_blend_channel(mode: BlendMode, cs: int, cd: int) -> int {
    match mode {
        BlendMode::Normal => cs,
        BlendMode::Multiply => cs * cd / 255,
        BlendMode::Screen => 255 - (255 - cs) * (255 - cd) / 255,
        BlendMode::Overlay => if cd < 128 {
            2 * (cs * cd) / 255
        } else {
            255 - 2 * ((255 - cs) * (255 - cd)) / 255
        },
    }
}

/// Effective source alpha: the stored alpha scaled by the layer's opacity.
pub open spec fn spec_src_alpha(sa: int, opacity: int) -> int {
    sa * opacity / 255
}

/// Weight of the destination in over-composition: its alpha scaled by the
/// transparency left by the effective source alpha.
pub open spec fn spec_dst_weight(ad: int, a_s: int) -> int {
    ad * (255 - a_s) / 255
}

/// Resulting alpha of standard over-composition.
pub open spec fn spec_over_alpha(a_s: int, ad: int) -> int {
    a_s + spec_dst_weight(ad, a_s)
}

/// Resulting color of standard over-composition of a blended color `cb`
/// against the destination color `cd`, un-premultiplied by the resulting
/// alpha; transparent results are black.
pub open spec fn spec_over_color(cb: int, cd: int, a_s: int, ad: int) -> int {
    let t = spec_dst_weight(ad, a_s);
    let ao = a_s + t;
    if ao == 0 {
        0int
    } else {
        (cb * a_s + cd * t) / ao
    }
}

/// The product of two byte-range values stays below `255 * 255`.
pub proof fn lemma_byte_product(a: int, b: int)
    requires
        0 <= a <= 255,
        0 <= b <= 255,
    ensures
        0 <= a * b <= 65025,
{
    assert(0 <= a * b <= 65025) by (nonlinear_arith)
        requires
            0 <= a <= 255,
            0 <= b <= 255,
    ;
}

/// `a * b / 255` stays within the byte range and below both factors'
/// ceilings.
pub proof fn lemma_scale_bounds(a: int, b: int)
    requires
        0 <= a <= 255,
        0 <= b <= 255,
    ensures
        0 <= a * b / 255 <= a,
        a * b / 255 <= b,
        a * b / 255 <= 255,
{
    assert(0 <= a * b && a * b <= a * 255 && a * b <= b * 255) by (nonlinear_arith)
        requires
            0 <= a <= 255,
            0 <= b <= 255,
    ;
    lemma_div_pos_is_pos(a * b, 255);
    lemma_div_is_ordered(a * b, a * 255, 255);
    lemma_div_is_ordered(a * b, b * 255, 255);
    assert(a * 255 == 255 * a && b * 255 == 255 * b) by (nonlinear_arith);
    lemma_div_multiples_vanish(a, 255);
    lemma_div_multiples_vanish(b, 255);
}

/// Every blend function maps byte-range channels to a byte-range color.
pub proof fn lemma_blend_channel_bounds(mode: BlendMode, cs: int, cd: int)
    requires
        0 <= cs <= 255,
        0 <= cd <= 255,
    ensures
        0 <= spec_blend_channel(mode, cs, cd) <= 255,
{
    match mode {
        BlendMode::Normal => {},
        BlendMode::Multiply => {
            lemma_scale_bounds(cs, cd);
        },
        BlendMode::Screen => {
            lemma_scale_bounds(255 - cs, 255 - cd);
        },
        BlendMode::Overlay => {
            if cd < 128 {
                assert(0 <= cs * cd && 2 * (cs * cd) <= 64770) by (nonlinear_arith)
                    requires
                        0 <= cs <= 255,
                        0 <= cd <= 127,
                ;
                lemma_div_pos_is_pos(2 * (cs * cd), 255);
                lemma_div_is_ordered(2 * (cs * cd), 64770, 255);
            } else {
                assert(0 <= (255 - cs) * (255 - cd) && 2 * ((255 - cs) * (255 - cd)) <= 64770)
                    by (nonlinear_arith)
                    requires
                        0 <= cs <= 255,
                        128 <= cd <= 255,
                ;
                lemma_div_pos_is_pos(2 * ((255 - cs) * (255 - cd)), 255);
                lemma_div_is_ordered(2 * ((255 - cs) * (255 - cd)), 64770, 255);
            }
        },
    }
}

/// Over-composition keeps the destination weight, the resulting alpha and
/// the resulting color within the byte range.
pub proof fn lemma_over_bounds(cb: int, cd: int, a_s: int, ad: int)
    requires
        0 <= cb <= 255,
        0 <= cd <= 255,
        0 <= a_s <= 255,
        0 <= ad <= 255,
    ensures
        0 <= spec_dst_weight(ad, a_s) <= 255 - a_s,
        0 <= spec_over_alpha(a_s, ad) <= 255,
        0 <= spec_over_color(cb, cd, a_s, ad) <= 255,
{
    let t = spec_dst_weight(ad, a_s);
    assert(0 <= ad * (255 - a_s) && ad * (255 - a_s) <= 255 * (255 - a_s)) by (nonlinear_arith)
        requires
            0 <= ad <= 255,
            0 <= a_s <= 255,
    ;
    lemma_div_pos_is_pos(ad * (255 - a_s), 255);
    lemma_div_is_ordered(ad * (255 - a_s), 255 * (255 - a_s), 255);
    lemma_div_multiples_vanish(255 - a_s, 255);
    let ao = a_s + t;
    if ao != 0 {
        let num = cb * a_s + cd * t;
        assert(0 <= cb * a_s && cb * a_s <= 255 * a_s && 0 <= cd * t && cd * t <= 255 * t)
            by (nonlinear_arith)
            requires
                0 <= cb <= 255,
                0 <= cd <= 255,
                0 <= a_s,
                0 <= t,
        ;
        assert(255 * a_s + 255 * t == 255 * ao) by (nonlinear_arith)
            requires
                ao == a_s + t,
        ;
        lemma_div_pos_is_pos(num, ao);
        lemma_div_is_ordered(num, 255 * ao, ao);
        assert(255 * ao == ao * 255) by (nonlinear_arith);
        lemma_div_multiples_vanish(255, ao);
    }
}

/// Blended color of one channel, computed in machine integers.
fn blend_channel(mode: BlendMode, cs: u8, cd: u8) -> (r: u8)
    ensures
        r as int == spec_blend_channel(mode, cs as int, cd as int),
{
    proof {
        lemma_blend_channel_bounds(mode, cs as int, cd as int);
    }
    match mode {
        BlendMode::Normal => cs,
        BlendMode::Multiply => ((cs as u32 * cd as u32) / 255) as u8,
        BlendMode::Screen => (255 - (255 - cs as u32) * (255 - cd as u32) / 255) as u8,
        BlendMode::Overlay => {
            if cd < 128 {
                (2 * (cs as u32 * cd as u32) / 255) as u8
            } else {
                (255 - 2 * ((255 - cs as u32) * (255 - cd as u32)) / 255) as u8
            }
        },
    }
}

/// One pixel of over-composition: source channels `(sr, sg, sb, sa)` blended
/// into destination channels `(dr, dg, db, da)` with the layer's opacity and
/// blend function.
fn blend_pixel(mode: BlendMode, opacity: u8, sr: u8, sg: u8, sb: u8, sa: u8, dr: u8, dg: u8, db: u8, da: u8) -> (r: (
    u8,
    u8,
    u8,
    u8,
))
    ensures
        ({
            let a_s = spec_src_alpha(sa as int, opacity as int);
            &&& r.0 as int == spec_over_color(spec_blend_channel(mode, sr as int, dr as int),
                dr as int, a_s, da as int)
            &&& r.1 as int == spec_over_color(spec_blend_channel(mode, sg as int, dg as int),
                dg as int, a_s, da as int)
            &&& r.2 as int == spec_over_color(spec_blend_channel(mode, sb as int, db as int),
                db as int, a_s, da as int)
            &&& r.3 as int == spec_over_alpha(a_s, da as int)
        }),
{
    proof {
        lemma_scale_bounds(sa as int, opacity as int);
        lemma_byte_product(sa as int, opacity as int);
    }
    let a_s: u32 = sa as u32 * opacity as u32 / 255;
    proof {
        assert(a_s <= 255);
        lemma_scale_bounds(da as int, 255 - a_s as int);
        lemma_byte_product(da as int, 255 - a_s as int);
    }
    let t: u32 = da as u32 * (255 - a_s) / 255;
    let ao: u32 = a_s + t;
    let cb_r = blend_channel(mode, sr, dr);
    let cb_g = blend_channel(mode, sg, dg);
    let cb_b = blend_channel(mode, sb, db);
    proof {
        assert(t <= 255);
        lemma_over_bounds(cb_r as int, dr as int, a_s as int, da as int);
        lemma_over_bounds(cb_g as int, dg as int, a_s as int, da as int);
        lemma_over_bounds(cb_b as int, db as int, a_s as int, da as int);
        lemma_byte_product(cb_r as int, a_s as int);
        lemma_byte_product(cb_g as int, a_s as int);
        lemma_byte_product(cb_b as int, a_s as int);
        lemma_byte_product(dr as int, t as int);
        lemma_byte_product(dg as int, t as int);
        lemma_byte_product(db as int, t as int);
    }
    let out_r: u8 = if ao == 0 {
        0u8
    } else {
        ((cb_r as u32 * a_s + dr as u32 * t) / ao) as u8
    };
    let out_g: u8 = if ao == 0 {
        0u8
    } else {
        ((cb_g as u32 * a_s + dg as u32 * t) / ao) as u8
    };
    let out_b: u8 = if ao == 0 {
        0u8
    } else {
        ((cb_b as u32 * a_s + db as u32 * t) / ao) as u8
    };
    (out_r, out_g, out_b, ao as u8)
}

/// Byte `i` of blending `src` into `dst`, aligned at the top-left corner:
/// where the two buffers overlap the channels follow the blend function and
/// over-composition; elsewhere `dst` is unchanged.
pub open spec fn spec_blend_byte(
    dst: ImageView,
    src: ImageView,
    opacity: u8,
    mode: BlendMode,
    i: int,
) -> u8 {
    let p = i / 4;
    let c = i % 4;
    let x = p % (dst.width as int);
    let y = p / (dst.width as int);
    if 0 <= x < src.width && 0 <= y < src.height {
        let sa = src.byte_at(x, y, 3) as int;
        let ad = dst.byte_at(x, y, 3) as int;
        let a_s = spec_src_alpha(sa, opacity as int);
        if c == 3 {
            spec_over_alpha(a_s, ad) as u8
        } else {
            let cs = src.byte_at(x, y, c) as int;
            let cd = dst.byte_at(x, y, c) as int;
            spec_over_color(spec_blend_channel(mode, cs, cd), cd, a_s, ad) as u8
        }
    } else {
        dst.data[i]
    }
}

/// The whole accumulator after blending `src` into `dst`.
pub open spec fn spec_blend_image(dst: ImageView, src: ImageView, opacity: u8, mode: BlendMode) -> ImageView {
    ImageView {
        width: dst.width,
        height: dst.height,
        data: Seq::new(dst.data.len(), |i: int| spec_blend_byte(dst, src, opacity, mode, i)),
    }
}

/// Blends `src` into the accumulator `dst` at the top-left corner, scaling
/// the source alpha by `opacity` and combining colors with `mode`; pixels of
/// `dst` outside `src` are unchanged.
pub fn layer_blend(dst: &mut Image, src: &Image, opacity: u8, mode: BlendMode)
    requires
        old(dst).wf(),
        src.wf(),
    ensures
        final(dst).wf(),
        final(dst)@ == spec_blend_image(old(dst)@, src@, opacity, mode),
{
    let ghost dst0 = dst@;
    if dst.width == 0 {
        proof {
            assert(4 * dst0.width * dst0.height == 0) by (nonlinear_arith)
                requires
                    dst0.width == 0nat,
            ;
            assert(dst@ =~= spec_blend_image(dst0, src@, opacity, mode));
        }
        return ;
    }
    let w64: u64 = dst.width as u64;
    let sw64: u64 = src.width as u64;
    let sh64: u64 = src.height as u64;
    proof {
        assert(dst0.data.len() as int == ((dst0.width * dst0.height) as int) * 4 + 0)
            by (nonlinear_arith)
            requires
                dst0.data.len() == 4 * dst0.width * dst0.height,
        ;
        lemma_fundamental_div_mod_converse(dst0.data.len() as int, 4,
            (dst0.width * dst0.height) as int, 0);
        assert(src@.data.len() == 4 * ((sw64 as int) * (sh64 as int))) by (nonlinear_arith)
            requires
                src@.data.len() == 4 * src@.width * src@.height,
                sw64 == src@.width,
                sh64 == src@.height,
        ;
    }
    let slen: usize = src.data.len();
    let n: usize = dst.data.len() / 4;
    let ghost npix = dst0.width * dst0.height;
    let mut p: usize = 0;
    while p < n
        invariant
            dst.width == old(dst).width,
            dst.height == old(dst).height,
            dst@.data.len() == dst0.data.len(),
            dst0.data.len() == 4 * n,
            n == npix,
            npix == dst0.width * dst0.height,
            w64 == dst0.width,
            w64 >= 1,
            sw64 == src@.width,
            sh64 == src@.height,
            slen == src@.data.len(),
            src@.data.len() == 4 * ((sw64 as int) * (sh64 as int)),
            4 * n <= usize::MAX,
            src.wf(),
            dst0 == old(dst)@,
            p <= n,
            forall|j: int|
                0 <= j < 4 * p ==> dst@.data[j] == spec_blend_byte(dst0, src@, opacity, mode, j),
            forall|j: int| 4 * p <= j < 4 * n ==> dst@.data[j] == dst0.data[j],
        decreases n - p,
    {
        proof {
            lemma_pixel_decompose(w64 as int, dst0.height as int, p as int);
        }
        let x: u64 = (p as u64) % w64;
        let y: u64 = (p as u64) / w64;
        if x < sw64 && y < sh64 {
            proof {
                lemma_pixel_index(sw64 as int, sh64 as int, x as int, y as int, 0);
                lemma_pixel_index(sw64 as int, sh64 as int, x as int, y as int, 3);
            }
            let sp: u64 = y * sw64 + x;
            let si: usize = (4 * sp) as usize;
            let di: usize = 4 * p;
            let sr = src.data[si];
            let sg = src.data[si + 1];
            let sb = src.data[si + 2];
            let sa = src.data[si + 3];
            let dr = dst.data[di];
            let dg = dst.data[di + 1];
            let db = dst.data[di + 2];
            let da = dst.data[di + 3];
            let (or_, og_, ob_, oa_) = blend_pixel(mode, opacity, sr, sg, sb, sa, dr, dg, db, da);
            dst.data.set(di, or_);
            dst.data.set(di + 1, og_);
            dst.data.set(di + 2, ob_);
            dst.data.set(di + 3, oa_);
            proof {
                assert forall|j: int| 4 * p <= j < 4 * p + 4 implies dst@.data[j]
                    == spec_blend_byte(dst0, src@, opacity, mode, j) by {
                    let c = j - 4 * p;
                    lemma_pixel_index(w64 as int, dst0.height as int, x as int, y as int, c);
                    lemma_pixel_index(w64 as int, dst0.height as int, x as int, y as int, 3);
                    lemma_pixel_index(sw64 as int, sh64 as int, x as int, y as int, c);
                    lemma_pixel_index(sw64 as int, sh64 as int, x as int, y as int, 3);
                }
            }
        } else {
            proof {
                assert forall|j: int| 4 * p <= j < 4 * p + 4 implies dst@.data[j]
                    == spec_blend_byte(dst0, src@, opacity, mode, j) by {
                    let c = j - 4 * p;
                    lemma_pixel_index(w64 as int, dst0.height as int, x as int, y as int, c);
                }
            }
        }
        p = p + 1;
    }
    proof {
        assert(dst@.data =~= spec_blend_image(dst0, src@, opacity, mode).data);
        assert(dst@ =~= spec_blend_image(dst0, src@, opacity, mode));
    }
}

/// Restricted alpha of a clipped pixel: the pixel's own alpha scaled by the
/// clip mask's alpha, itself scaled by the mask layer's opacity.
pub open spec fn spec_clip_alpha(a: int, ma: int, mask_opacity: int) -> int {
    a * (ma * mask_opacity / 255) / 255
}

/// Byte `i` of clipping `src` against `mask`: color channels are unchanged,
/// alpha is restricted to the mask's footprint; outside the mask the
/// footprint is empty and the alpha drops to zero.
pub open spec fn spec_clip_byte(src: ImageView, mask: ImageView, mask_opacity: u8, i: int) -> u8 {
    let p = i / 4;
    let c = i % 4;
    let x = p % (src.width as int);
    let y = p / (src.width as int);
    if c == 3 {
        let ma = if 0 <= x < mask.width && 0 <= y < mask.height {
            mask.byte_at(x, y, 3) as int
        } else {
            0int
        };
        spec_clip_alpha(src.data[i] as int, ma, mask_opacity as int) as u8
    } else {
        src.data[i]
    }
}

/// The whole buffer after clipping `src` against `mask`.
pub open spec fn spec_clip_image(src: ImageView, mask: ImageView, mask_opacity: u8) -> ImageView {
    ImageView {
        width: src.width,
        height: src.height,
        data: Seq::new(src.data.len(), |i: int| spec_clip_byte(src, mask, mask_opacity, i)),
    }
}

/// A copy of `src` whose effective alpha is restricted to the clip mask's
/// alpha footprint, scaled by the mask layer's own opacity.
pub fn layer_clip(src: &Image, mask: &Image, mask_opacity: u8) -> (r: Image)
    requires
        src.wf(),
        mask.wf(),
    ensures
        r.wf(),
        r@ == spec_clip_image(src@, mask@, mask_opacity),
{
    let ghost srcv = src@;
    let w64: u64 = src.width as u64;
    let mw64: u64 = mask.width as u64;
    let mh64: u64 = mask.height as u64;
    proof {
        assert(srcv.data.len() as int == ((srcv.width * srcv.height) as int) * 4 + 0)
            by (nonlinear_arith)
            requires
                srcv.data.len() == 4 * srcv.width * srcv.height,
        ;
        lemma_fundamental_div_mod_converse(srcv.data.len() as int, 4,
            (srcv.width * srcv.height) as int, 0);
        assert(mask@.data.len() == 4 * ((mw64 as int) * (mh64 as int))) by (nonlinear_arith)
            requires
                mask@.data.len() == 4 * mask@.width * mask@.height,
                mw64 == mask@.width,
                mh64 == mask@.height,
        ;
    }
    let slen: usize = src.data.len();
    let mlen: usize = mask.data.len();
    let n: usize = src.data.len() / 4;
    let ghost npix = srcv.width * srcv.height;
    let mut out: Vec<u8> = Vec::new();
    let mut p: usize = 0;
    while p < n
        invariant
            srcv == src@,
            srcv.data.len() == 4 * n,
            n == npix,
            npix == srcv.width * srcv.height,
            w64 == srcv.width,
            mw64 == mask@.width,
            mh64 == mask@.height,
            mask@.data.len() == 4 * ((mw64 as int) * (mh64 as int)),
            slen == srcv.data.len(),
            mlen == mask@.data.len(),
            4 * n <= usize::MAX,
            src.wf(),
            mask.wf(),
            p <= n,
            out@.len() == 4 * p,
            forall|j: int|
                0 <= j < 4 * p ==> out@[j] == spec_clip_byte(srcv, mask@, mask_opacity, j),
        decreases n - p,
    {
        proof {
            assert(w64 >= 1) by (nonlinear_arith)
                requires
                    npix == srcv.width * srcv.height,
                    w64 == srcv.width,
                    npix > 0,
            ;
            lemma_pixel_decompose(w64 as int, srcv.height as int, p as int);
        }
        let x: u64 = (p as u64) % w64;
        let y: u64 = (p as u64) / w64;
        let di: usize = 4 * p;
        let b0 = src.data[di];
        let b1 = src.data[di + 1];
        let b2 = src.data[di + 2];
        let a = src.data[di + 3];
        let ma: u8 = if x < mw64 && y < mh64 {
            proof {
                lemma_pixel_index(mw64 as int, mh64 as int, x as int, y as int, 3);
            }
            let mi: usize = (4 * (y * mw64 + x) + 3) as usize;
            mask.data[mi]
        } else {
            0u8
        };
        proof {
            lemma_scale_bounds(ma as int, mask_opacity as int);
            lemma_scale_bounds(a as int, (ma as int) * (mask_opacity as int) / 255);
        }
        let scaled_mask: u32 = ma as u32 * mask_opacity as u32 / 255;
        let a_out: u8 = ((a as u32 * scaled_mask) / 255) as u8;
        out.push(b0);
        out.push(b1);
        out.push(b2);
        out.push(a_out);
        proof {
            assert forall|j: int| 4 * p <= j < 4 * p + 4 implies out@[j] == spec_clip_byte(srcv,
                mask@, mask_opacity, j) by {
                let c = j - 4 * p;
                lemma_pixel_index(w64 as int, srcv.height as int, x as int, y as int, c);
            }
        }
        p = p + 1;
    }
    let r = Image { width: src.width, height: src.height, data: out };
    proof {
        assert(r@.data =~= spec_clip_image(srcv, mask@, mask_opacity).data);
        assert(r@ =~= spec_clip_image(srcv, mask@, mask_opacity));
    }
    r
}

/// The pending clip source during one group's iteration: the image of the
/// most recent unclipped, non-hidden sibling, together with that layer's own
/// opacity.
#[verifier::ext_equal]
pub struct ClipView {
    pub image: ImageView,
    pub opacity: u8,
}

/// State after rendering one node into the accumulator: hidden nodes change
/// nothing; a visible group renders its children as one contiguous segment
/// under a fresh clip scope and leaves the parent's clip source unchanged; a
/// visible layer is blended — restricted to the pending clip source if the
/// layer is clipped — and, when unclipped, becomes the new clip source.
pub open spec fn spec_render_node(acc: ImageView, clip: Option<ClipView>, node: NodeView) -> (
    ImageView,
    Option<ClipView>,
)
    decreases node,
{
    match node {
        NodeView::Group(g) => {
            if g.hidden {
                (acc, clip)
            } else {
                (spec_render_nodes(acc, Option::None, g.children).0, clip)
            }
        },
        NodeView::Layer(l) => {
            if l.hidden {
                (acc, clip)
            } else {
                match l.image {
                    Option::None => (acc, clip),
                    Option::Some(img) => {
                        let eff = if l.clipped {
                            match clip {
                                Option::Some(cv) => spec_clip_image(img, cv.image, cv.opacity),
                                Option::None => img,
                            }
                        } else {
                            img
                        };
                        let acc2 = spec_blend_image(acc, eff, l.opacity, spec_blend_mode(l.blend));
                        let clip2 = if l.clipped {
                            clip
                        } else {
                            Option::Some(ClipView { image: img, opacity: l.opacity })
                        };
                        (acc2, clip2)
                    },
                }
            }
        },
    }
}

/// State after rendering a child list back to front: the last element is
/// bottom-most and is drawn first, the element at index 0 is topmost and is
/// drawn last.
pub open spec fn spec_render_nodes(acc: ImageView, clip: Option<ClipView>, s: Seq<NodeView>) -> (
    ImageView,
    Option<ClipView>,
)
    decreases s,
{
    if s.len() == 0 {
        (acc, clip)
    } else {
        let st = spec_render_node(acc, clip, s[s.len() - 1]);
        spec_render_nodes(st.0, st.1, s.subrange(0, s.len() - 1))
    }
}

/// The clip source a pending mask stands for.
pub open spec fn mask_view(m: Option<(&Image, u8)>) -> Option<ClipView> {
    match m {
        Option::Some(p) => Option::Some(ClipView { image: p.0@, opacity: p.1 }),
        Option::None => Option::None,
    }
}

/// Renders a group's children back to front into the accumulator. The
/// accumulator must already hold a well-formed buffer, and every layer of
/// the subtree must have been assembled; the result is exactly the
/// mathematical rendering of the child list.
pub fn render(composite: &mut Image, layers: &SilicaGroup)
    requires
        old(composite).wf(),
        group_ready(layers@),
    ensures
        final(composite).wf(),
        final(composite)@ == spec_render_nodes(old(composite)@, Option::None, layers@.children).0,
    decreases *layers,
{
    let ghost acc0 = composite@;
    let ghost cviews = layers@.children;
    let n: usize = layers.children.len();
    let mut mask: Option<(&Image, u8)> = None;
    let mut i: usize = n;
    proof {
        assert(cviews.subrange(0, n as int) =~= cviews);
    }
    while i > 0
        invariant
            composite.wf(),
            group_ready(layers@),
            cviews == layers@.children,
            n == cviews.len(),
            n == layers.children@.len(),
            i <= n,
            (mask matches Some(m) ==> m.0.wf()),
            spec_render_nodes(composite@, mask_view(mask), cviews.subrange(0, i as int))
                == spec_render_nodes(acc0, Option::None, cviews),
        decreases i,
    {
        let idx: usize = i - 1;
        let ghost pre = composite@;
        let ghost premask = mask_view(mask);
        proof {
            assert(cviews[idx as int] == node_view(layers.children@[idx as int]));
            assert(node_ready(cviews[idx as int]));
        }
        match &layers.children[idx] {
            SilicaLayers::Group(g) => {
                if !g.hidden {
                    proof {
                        assert(cviews[idx as int] == NodeView::Group(g@));
                        assert(group_ready(g@));
                    }
                    render(composite, g);
                }
                proof {
                    assert(spec_render_node(pre, premask, cviews[idx as int]) == (composite@,
                    mask_view(mask)));
                }
            },
            SilicaLayers::Layer(l) => {
                if !l.hidden {
                    if let Some(img) = &l.image {
                        let clipped: Option<Image> = if l.clipped {
                            match &mask {
                                Some(m) => Some(layer_clip(img, m.0, m.1)),
                                None => None,
                            }
                        } else {
                            None
                        };
                        let mode = blend_mode_from_id(l.blend);
                        match &clipped {
                            Some(c) => layer_blend(composite, c, l.opacity, mode),
                            None => layer_blend(composite, img, l.opacity, mode),
                        }
                        if !l.clipped {
                            mask = Some((img, l.opacity));
                        }
                    } else {
                        // unreachable: every rendered layer carries an assembled buffer
                        proof {
                            assert(false);
                        }
                    }
                }
                proof {
                    assert(spec_render_node(pre, premask, cviews[idx as int]) == (composite@,
                    mask_view(mask)));
                }
            },
        }
        proof {
            let whole = cviews.subrange(0, i as int);
            assert(whole[whole.len() - 1] == cviews[idx as int]);
            assert(whole.subrange(0, whole.len() - 1) =~= cviews.subrange(0, idx as int));
        }
        i = idx;
    }
    proof {
        assert(cviews.subrange(0, 0) =~= Seq::<NodeView>::empty());
    }
}

/// Whether a node is hidden, for a layer and a group alike.
pub open spec fn node_hidden(n: NodeView) -> bool {
    match n {
        NodeView::Layer(l) => l.hidden,
        NodeView::Group(g) => g.hidden,
    }
}

/// A hidden layer or hidden group contributes nothing: rendering a child
/// list containing a hidden node gives exactly the accumulator and clip
/// state of rendering the list with that node removed.
pub proof fn lemma_hidden_contributes_nothing(
    acc: ImageView,
    clip: Option<ClipView>,
    s: Seq<NodeView>,
    i: int,
)
    requires
        0 <= i < s.len(),
        node_hidden(s[i]),
    ensures
        spec_render_nodes(acc, clip, s) == spec_render_nodes(acc, clip, s.remove(i)),
    decreases s.len(),
{
    if i == s.len() - 1 {
        assert(spec_render_node(acc, clip, s[i]) == (acc, clip));
        assert(s.remove(i) =~= s.subrange(0, s.len() - 1));
    } else {
        let st = spec_render_node(acc, clip, s[s.len() - 1]);
        lemma_hidden_contributes_nothing(st.0, st.1, s.subrange(0, s.len() - 1), i);
        assert(s.remove(i)[s.remove(i).len() - 1] == s[s.len() - 1]);
        assert(s.remove(i).subrange(0, s.remove(i).len() - 1) =~= s.subrange(0, s.len()
            - 1).remove(i));
    }
}

/// A clipped layer with no pending clip source renders exactly as the same
/// layer unclipped; only the clip source left for later siblings differs.
pub proof fn lemma_clip_without_source(acc: ImageView, l: LayerView)
    requires
        l.clipped,
    ensures
        spec_render_node(acc, Option::None, NodeView::Layer(l)).0 == spec_render_node(acc,
            Option::None, NodeView::Layer(LayerView { clipped: false, ..l })).0,
{
}

/// Rendering is a function of the accumulator and the tree alone: two
/// renders of the same child list from the same accumulator are
/// byte-identical.
pub proof fn lemma_render_deterministic(
    acc: ImageView,
    g: GroupView,
    r1: ImageView,
    r2: ImageView,
)
    requires
        r1 == spec_render_nodes(acc, Option::None, g.children).0,
        r2 == spec_render_nodes(acc, Option::None, g.children).0,
    ensures
        r1 == r2,
{
}

/// The whole pipeline is a function of the archive and the entries: two
/// documents built from the same inputs and rendered from the same
/// accumulator produce byte-identical output.
pub proof fn lemma_pipeline_deterministic(
    nka: crate::ns_archive::NsKeyedArchive,
    entries: Seq<crate::tiles::ArchiveEntry>,
    f1: crate::document::FileView,
    f2: crate::document::FileView,
    acc: ImageView,
    r1: ImageView,
    r2: ImageView,
)
    requires
        crate::document::spec_from_ns(nka, entries) == Result::Ok::<
            crate::document::FileView,
            crate::error::NsErrorView,
        >(f1),
        crate::document::spec_from_ns(nka, entries) == Result::Ok::<
            crate::document::FileView,
            crate::error::NsErrorView,
        >(f2),
        r1 == spec_render_nodes(acc, Option::None, f1.layers.children).0,
        r2 == spec_render_nodes(acc, Option::None, f2.layers.children).0,
    ensures
        r1 == r2,
{
}

} // verus!
