//! The round shape of avatars: pixels outside the circle inscribed in the
//! image are made transparent.

use vstd::prelude::*;

verus! {

/// An image as rows of RGBA pixels, four bytes a pixel.
#[derive(Debug)]
pub struct RgbaPixels {
    pub width: u32,
    pub height: u32,
    pub data: Vec<u8>,
}

/// The pixel at column `x` and row `y` lies outside the circle centred at
/// the middle pixel (`width / 2`, `height / 2`) whose diameter is the
/// smaller side: its distance to the centre is more than half that side.
pub open spec fn outside_circle(x: int, y: int, w: int, h: int) -> bool {
    let dx = x - w / 2;
    let dy = y - h / 2;
    let m = if w < h { w } else { h };
    4 * (dx * dx + dy * dy) > m * m
}

/// The image data once every pixel outside the circle has alpha 0.
pub open spec fn masked(data: Seq<u8>, w: int, h: int) -> Seq<u8> {
    Seq::new(data.len(), |i: int| if i % 4 == 3 && outside_circle((i / 4) % w, (i / 4) / w, w, h) {
        0u8
    } else {
        data[i]
    })
}

proof fn lemma_byte_of_pixel(i: int, p: int)
    requires
        0 <= p,
        4 * p <= i < 4 * p + 4,
    ensures
        i / 4 == p,
        i % 4 == i - 4 * p,
{
    assert(i / 4 == p && i % 4 == i - 4 * p) by (nonlinear_arith)
        requires 0 <= p, 4 * p <= i, i < 4 * p + 4;
}

/// The squared distances from the centre pixel fit in an `i32`: the
/// largest, at a corner, is `(width / 2)² + (height / 2)²` (an empty image
/// has no pixels to measure).
pub open spec fn distances_fit(w: int, h: int) -> bool {
    w == 0 || h == 0 || (w / 2) * (w / 2) + (h / 2) * (h / 2) <= 0x7fff_ffff
}

/// Whether the mask can measure an image of this size (see
/// `distances_fit`).
pub fn mask_fits(width: u32, height: u32) -> (r: bool)
    ensures
        r == distances_fit(width as int, height as int),
{
    if width == 0 || height == 0 {
        return true;
    }
    let cx: u128 = (width / 2) as u128;
    let cy: u128 = (height / 2) as u128;
    assert(cx * cx <= 0x1_0000_0000_0000_0000 && cy * cy <= 0x1_0000_0000_0000_0000) by (nonlinear_arith)
        requires cx <= 0xffff_ffff, cy <= 0xffff_ffff;
    cx * cx + cy * cy <= 0x7fff_ffff
}

/// Makes the pixels outside the inscribed circle transparent.
pub fn apply_circular_mask(img: &mut RgbaPixels)
    requires
        distances_fit(old(img).width as int, old(img).height as int),
        old(img).data@.len() == 4 * old(img).width * old(img).height,
    ensures
        final(img).width == old(img).width,
        final(img).height == old(img).height,
        final(img).data@ == masked(old(img).data@, old(img).width as int, old(img).height as int),
{
    let w = img.width;
    let h = img.height;
    let ghost d0 = img.data@;
    let ghost wi = w as int;
    let ghost hi = h as int;
    let total = img.data.len();
    let n = total / 4;
    assert(n == wi * hi && d0.len() == 4 * n) by (nonlinear_arith)
        requires d0.len() == 4 * wi * hi, n == d0.len() / 4, wi >= 0, hi >= 0;
    let cx: i64 = (w / 2) as i64;
    let cy: i64 = (h / 2) as i64;
    let m: i64 = if w < h { w as i64 } else { h as i64 };
    let mut p: usize = 0;
    while p < n
        invariant
            p <= n,
            n == wi * hi,
            wi == w as int,
            hi == h as int,
            distances_fit(wi, hi),
            cx == wi / 2,
            cy == hi / 2,
            m == if wi < hi { wi } else { hi },
            img.width == w,
            img.height == h,
            img.data@.len() == d0.len(),
            d0.len() == 4 * n,
            total == d0.len(),
            forall|i: int| 0 <= i < d0.len() ==> #[trigger] img.data@[i] == if i < 4 * p && i % 4 == 3
                && outside_circle((i / 4) % wi, (i / 4) / wi, wi, hi) {
                0u8
            } else {
                d0[i]
            },
        decreases n - p,
    {
        assert(wi > 0) by (nonlinear_arith)
            requires p < n, n == wi * hi, wi >= 0, hi >= 0;
        let xu: usize = p % (w as usize);
        let yu: usize = p / (w as usize);
        assert(xu < wi && yu < hi) by (nonlinear_arith)
            requires xu == (p as int) % wi, yu == (p as int) / wi, p < n, n == wi * hi, wi > 0, p >= 0;
        assert(cx <= 46341 && cy <= 46341) by (nonlinear_arith)
            requires cx * cx + cy * cy <= 0x7fff_ffff, cx >= 0, cy >= 0;
        assert(wi <= 2 * cx + 1 && hi <= 2 * cy + 1);
        let x: i64 = xu as i64;
        let y: i64 = yu as i64;
        let dx = x - cx;
        let dy = y - cy;
        assert(0 <= dx * dx <= 0x1_0000_0000 && 0 <= dy * dy <= 0x1_0000_0000) by (nonlinear_arith)
            requires -65535 <= dx <= 65535, -65535 <= dy <= 65535;
        assert(0 <= m * m <= 10_000_000_000) by (nonlinear_arith)
            requires 0 <= m <= 100_000;
        let dx2 = dx * dx;
        let dy2 = dy * dy;
        let m2 = m * m;
        let outside = 4 * (dx2 + dy2) > m2;
        assert(outside == outside_circle((p as int) % wi, (p as int) / wi, wi, hi));
        let ghost before = img.data@;
        assert(4 * p + 3 < d0.len()) by (nonlinear_arith)
            requires p < n, d0.len() == 4 * n;
        if outside {
            img.data.set(4 * p + 3, 0);
        }
        proof {
            assert forall|i: int| 0 <= i < d0.len() implies #[trigger] img.data@[i] == if i < 4 * (p + 1) && i % 4 == 3
                && outside_circle((i / 4) % wi, (i / 4) / wi, wi, hi) {
                0u8
            } else {
                d0[i]
            } by {
                if 4 * p <= i < 4 * p + 4 {
                    lemma_byte_of_pixel(i, p as int);
                } else {
                    assert(before[i] == img.data@[i]);
                    if i >= 4 * p + 4 {
                        assert(i / 4 >= p + 1) by (nonlinear_arith)
                            requires i >= 4 * p + 4, p >= 0;
                    } else {
                        assert(i / 4 < p) by (nonlinear_arith)
                            requires 0 <= i < 4 * p;
                    }
                }
            }
        }
        p = p + 1;
    }
    assert(img.data@ =~= masked(d0, wi, hi));
}

} // verus!
