use vstd::arithmetic::div_mod::{lemma_fundamental_div_mod, lemma_fundamental_div_mod_converse};
use vstd::prelude::*;

verus! {

/// Mathematical image of a pixel buffer: its dimensions and the raw RGBA
/// bytes, row-major, four bytes per pixel.
#[verifier::ext_equal]
pub struct ImageView {
    pub width: nat,
    pub height: nat,
    pub data: Seq<u8>,
}

impl ImageView {
    pub open spec fn wf(self) -> bool {
        self.data.len() == 4 * self.width * self.height
    }

    /// Byte `c` (0 = red, 1 = green, 2 = blue, 3 = alpha) of the pixel at
    /// column `x` of row `y`.
    pub open spec fn byte_at(self, x: int, y: int, c: int) -> u8 {
        self.data[4 * (y * self.width + x) + c]
    }
}

/// An owned RGBA pixel buffer, row-major, four bytes per pixel.
#[derive(Debug)]
pub struct Image {
    pub width: u32,
    pub height: u32,
    pub data: Vec<u8>,
}

impl View for Image {
    type V = ImageView;

    open spec fn view(&self) -> ImageView {
        ImageView { width: self.width as nat, height: self.height as nat, data: self.data@ }
    }
}

/// Relates a flat byte index to pixel coordinates: for a row width `w`,
/// pixel `(x, y)` and channel `c`, the index `4 * (y * w + x) + c`
/// decomposes back into the same `x`, `y` and `c`, and lies inside a buffer
/// of `h` rows.
pub proof fn lemma_pixel_index(w: int, h: int, x: int, y: int, c: int)
    requires
        w >= 1,
        0 <= x < w,
        0 <= y < h,
        0 <= c < 4,
    ensures
        (4 * (y * w + x) + c) / 4 == y * w + x,
        (4 * (y * w + x) + c) % 4 == c,
        (y * w + x) / w == y,
        (y * w + x) % w == x,
        0 <= y * w + x < w * h,
        0 <= 4 * (y * w + x) + c < 4 * (w * h),
{
    let p = y * w + x;
    assert(0 <= y * w && y * w + x < w * h) by (nonlinear_arith)
        requires
            w >= 1,
            0 <= x < w,
            0 <= y < h,
    ;
    lemma_fundamental_div_mod_converse(4 * p + c, 4, p, c);
    lemma_fundamental_div_mod_converse(p, w, y, x);
}

/// The inverse direction: a pixel number `p` below `w * h` decomposes into
/// in-range coordinates `(p % w, p / w)`.
pub proof fn lemma_pixel_decompose(w: int, h: int, p: int)
    requires
        w >= 1,
        0 <= p < w * h,
    ensures
        0 <= p % w < w,
        0 <= p / w < h,
        (p / w) * w + (p % w) == p,
{
    lemma_fundamental_div_mod(p, w);
    assert((p / w) * w == w * (p / w)) by (nonlinear_arith);
    assert(p / w < h) by (nonlinear_arith)
        requires
            w >= 1,
            p < w * h,
            p == w * (p / w) + (p % w),
            0 <= p % w < w,
            0 <= p / w,
    ;
}

/// A vector of `n` zero bytes.
fn zero_vec(n: usize) -> (v: Vec<u8>)
    ensures
        v@.len() == n,
        forall|j: int| 0 <= j < n ==> v@[j] == 0u8,
{
    let mut v: Vec<u8> = Vec::new();
    let mut i: usize = 0;
    while i < n
        invariant
            i == v@.len(),
            i <= n,
            forall|j: int| 0 <= j < i ==> v@[j] == 0u8,
        decreases n - i,
    {
        v.push(0u8);
        i = i + 1;
    }
    v
}

impl Image {
    pub open spec fn wf(self) -> bool {
        self@.wf()
    }

    /// A fully transparent buffer of the given dimensions, or `None` when a
    /// buffer of `4 * width * height` bytes cannot be addressed on this
    /// machine.
    pub fn try_new(width: u32, height: u32) -> (r: Option<Image>)
        ensures
            match r {
                Some(img) => {
                    &&& img@.width == width
                    &&& img@.height == height
                    &&& img.wf()
                    &&& 4 * (width as int) * (height as int) <= usize::MAX
                    &&& forall|j: int| 0 <= j < img@.data.len() ==> img@.data[j] == 0u8
                },
                None => 4 * (width as int) * (height as int) > usize::MAX,
            },
    {
        proof {
            assert((width as u64) * (height as u64) <= 0xffff_ffffu64 * 0xffff_ffffu64)
                by (nonlinear_arith)
                requires
                    width as u64 <= 0xffff_ffffu64,
                    height as u64 <= 0xffff_ffffu64,
            ;
        }
        let wh: u64 = (width as u64) * (height as u64);
        let quarter: u64 = (usize::MAX as u64) / 4;
        proof {
            lemma_fundamental_div_mod(usize::MAX as int, 4);
        }
        if wh > quarter {
            proof {
                assert(4 * (width as int) * (height as int) == 4 * ((width as int) * (
                height as int))) by (nonlinear_arith);
            }
            None
        } else {
            proof {
                assert(4 * (width as nat) * (height as nat) == 4 * ((width as nat) * (
                height as nat))) by (nonlinear_arith);
            }
            let total: usize = (4 * wh) as usize;
            let data = zero_vec(total);
            Some(Image { width, height, data })
        }
    }
}

/// Byte `i` of pasting `src` over `dst` with its top-left pixel at
/// `(ox, oy)`: inside the pasted window the byte comes from `src`, elsewhere
/// it is unchanged. Window parts outside `dst` are clipped away.
pub open spec fn spec_paste_byte(dst: ImageView, src: ImageView, ox: int, oy: int, i: int) -> u8 {
    let p = i / 4;
    let c = i % 4;
    let x = p % (dst.width as int);
    let y = p / (dst.width as int);
    if ox <= x < ox + src.width && oy <= y < oy + src.height {
        src.data[4 * ((y - oy) * src.width + (x - ox)) + c]
    } else {
        dst.data[i]
    }
}

/// The whole buffer after pasting `src` over `dst` at `(ox, oy)`.
pub open spec fn spec_paste(dst: ImageView, src: ImageView, ox: int, oy: int) -> Seq<u8> {
    Seq::new(dst.data.len(), |i: int| spec_paste_byte(dst, src, ox, oy, i))
}

/// Pastes `src` over `dst` with its top-left pixel at `(ox, oy)`; pixels of
/// the window that fall outside `dst` are clipped away, and later pastes
/// overwrite earlier ones where they overlap.
pub fn paste(dst: &mut Image, src: &Image, ox: u64, oy: u64)
    requires
        old(dst).wf(),
        src.wf(),
    ensures
        final(dst).wf(),
        final(dst)@.width == old(dst)@.width,
        final(dst)@.height == old(dst)@.height,
        forall|j: int|
            0 <= j < final(dst)@.data.len() ==> final(dst)@.data[j] == spec_paste_byte(old(dst)@,
                src@, ox as int, oy as int, j),
        final(dst)@.data.len() == old(dst)@.data.len(),
{
    let ghost dst0 = dst@;
    let w64: u64 = dst.width as u64;
    let sw64: u64 = src.width as u64;
    let sh64: u64 = src.height as u64;
    let ox64: u64 = ox;
    let oy64: u64 = oy;
    if dst.width == 0 {
        proof {
            assert(4 * dst0.width * dst0.height == 0) by (nonlinear_arith)
                requires
                    dst0.width == 0nat,
            ;
        }
        return ;
    }
    proof {
        assert(dst0.data.len() as int == ((dst0.width * dst0.height) as int) * 4 + 0)
            by (nonlinear_arith)
            requires
                dst0.data.len() == 4 * dst0.width * dst0.height,
        ;
        lemma_fundamental_div_mod_converse(dst0.data.len() as int, 4,
            (dst0.width * dst0.height) as int, 0);
        assert(src@.data.len() == 4 * ((sw64 as int) * (sh64 as int))) by (nonlinear_arith)
            requires
                src@.data.len() == 4 * src@.width * src@.height,
                sw64 == src@.width,
                sh64 == src@.height,
        ;
    }
    let slen: usize = src.data.len();
    let n: usize = dst.data.len() / 4;
    let ghost npix = dst0.width * dst0.height;
    let mut p: usize = 0;
    while p < n
        invariant
            dst.width == old(dst).width,
            dst.height == old(dst).height,
            dst@.data.len() == dst0.data.len(),
            dst0.data.len() == 4 * n,
            n == npix,
            npix == dst0.width * dst0.height,
            w64 == dst0.width,
            w64 >= 1,
            sw64 == src@.width,
            sh64 == src@.height,
            slen == src@.data.len(),
            src@.data.len() == 4 * ((sw64 as int) * (sh64 as int)),
            4 * n <= usize::MAX,
            ox64 == ox,
            oy64 == oy,
            src.wf(),
            dst0 == old(dst)@,
            p <= n,
            forall|j: int|
                0 <= j < 4 * p ==> dst@.data[j] == spec_paste_byte(dst0, src@, ox as int,
                    oy as int, j),
            forall|j: int| 4 * p <= j < 4 * n ==> dst@.data[j] == dst0.data[j],
        decreases n - p,
    {
        proof {
            lemma_pixel_decompose(w64 as int, dst0.height as int, p as int);
        }
        let x: u64 = (p as u64) % w64;
        let y: u64 = (p as u64) / w64;
        if x >= ox64 && x - ox64 < sw64 && y >= oy64 && y - oy64 < sh64 {
            let sx: u64 = x - ox64;
            let sy: u64 = y - oy64;
            proof {
                lemma_pixel_index(sw64 as int, sh64 as int, sx as int, sy as int, 0);
                lemma_pixel_index(sw64 as int, sh64 as int, sx as int, sy as int, 3);
            }
            let sp: u64 = sy * sw64 + sx;
            let si: usize = (4 * sp) as usize;
            let di: usize = 4 * p;
            let b0 = src.data[si];
            let b1 = src.data[si + 1];
            let b2 = src.data[si + 2];
            let b3 = src.data[si + 3];
            dst.data.set(di, b0);
            dst.data.set(di + 1, b1);
            dst.data.set(di + 2, b2);
            dst.data.set(di + 3, b3);
            proof {
                assert forall|j: int| 4 * p <= j < 4 * p + 4 implies dst@.data[j]
                    == spec_paste_byte(dst0, src@, ox as int, oy as int, j) by {
                    let c = j - 4 * p;
                    lemma_pixel_index(w64 as int, dst0.height as int, x as int, y as int, c);
                    lemma_pixel_index(sw64 as int, sh64 as int, sx as int, sy as int, c);
                }
            }
        } else {
            proof {
                assert forall|j: int| 4 * p <= j < 4 * p + 4 implies dst@.data[j]
                    == spec_paste_byte(dst0, src@, ox as int, oy as int, j) by {
                    let c = j - 4 * p;
                    lemma_pixel_index(w64 as int, dst0.height as int, x as int, y as int, c);
                }
            }
        }
        p = p + 1;
    }
}

} // verus!
