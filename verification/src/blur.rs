//! The region of a keyboard panel that is blurred and takes input: the panel
//! rectangle without its rounded corners, as integer scanlines rounded inward
//! so that no transparent corner pixel is covered.
use vstd::prelude::*;

verus! {

/// Corner radius of the panels, in pixels.
pub const PANEL_RADIUS: i32 = 16;

/// The corner radius that fits the panel: between 0 and half its shorter side.
pub open spec fn clamped_radius(width: int, height: int, radius: int) -> int {
    let limit = (if width < height {
        width
    } else {
        height
    }) / 2;
    if radius < 0 {
        0
    } else if radius > limit {
        limit
    } else {
        radius
    }
}

/// Whether column `k` of scanline `y` lies within the corner circle of
/// radius `r`, measured at the scanline's center: the distance from the
/// circle's center is at most `r`. With `dy = r - y - 1/2`, that is
/// `(r - k)^2 + dy^2 <= r^2`, here multiplied by 4 to stay in integers.
pub open spec fn inside_corner(r: int, y: int, k: int) -> bool {
    4 * (r - k) * (r - k) + (2 * r - 2 * y - 1) * (2 * r - 2 * y - 1) <= 4 * r * r
}

/// The first column from `k` on that lies within the corner circle.
pub open spec fn inset_from(r: int, y: int, k: int) -> int
    decreases r - k,
{
    if k >= r || inside_corner(r, y, k) {
        k
    } else {
        inset_from(r, y, k + 1)
    }
}

/// How far scanline `y` of a corner is inset: the ceiling of
/// `r - sqrt(r^2 - dy^2)`, the first column within the circle.
pub open spec fn corner_inset(r: int, y: int) -> int {
    inset_from(r, y, 0)
}

/// The rectangles of corner scanline `y`: one at the top and one at the
/// bottom, both inset, unless nothing of the scanline is left.
pub open spec fn scanline_rects(width: int, height: int, r: int, y: int) -> Seq<
    (i32, i32, i32, i32),
> {
    let inset = corner_inset(r, y);
    let w = width - 2 * inset;
    if w > 0 {
        seq![
            (inset as i32, y as i32, w as i32, 1i32),
            (inset as i32, (height - y - 1) as i32, w as i32, 1i32),
        ]
    } else {
        Seq::empty()
    }
}

/// The rectangles of the first `n` corner scanlines.
pub open spec fn corner_rows(width: int, height: int, r: int, n: int) -> Seq<(i32, i32, i32, i32)>
    decreases n,
{
    if n <= 0 {
        Seq::empty()
    } else {
        corner_rows(width, height, r, n - 1) + scanline_rects(width, height, r, n - 1)
    }
}

/// The region of a `width` x `height` panel with corners of `radius`: the
/// corner scanlines, then the full-width band between them.
pub open spec fn region_rects(width: int, height: int, radius: int) -> Seq<(i32, i32, i32, i32)> {
    if width <= 0 || height <= 0 {
        Seq::empty()
    } else {
        let r = clamped_radius(width, height, radius);
        corner_rows(width, height, r, r) + if height > 2 * r {
            seq![(0i32, r as i32, width as i32, (height - 2 * r) as i32)]
        } else {
            Seq::empty()
        }
    }
}

proof fn lemma_inset_bounds(r: int, y: int, k: int)
    requires
        0 <= y < r,
        0 <= k <= r,
    ensures
        k <= inset_from(r, y, k) <= r,
        1 <= inset_from(r, y, k),
    decreases r - k,
{
    if k == 0 {
        assert(!inside_corner(r, y, 0)) by (nonlinear_arith)
            requires
                0 <= y < r,
        ;
    }
    if k < r && !inside_corner(r, y, k) {
        lemma_inset_bounds(r, y, k + 1);
    }
}

/// The first column within the corner circle on scanline `y`.
fn inset_of(r: i32, y: i32) -> (k: i32)
    requires
        0 <= y < r,
    ensures
        k == corner_inset(r as int, y as int),
        1 <= k <= r,
{
    proof {
        lemma_inset_bounds(r as int, y as int, 0);
    }
    let rr = r as i128;
    let d = 2 * rr - 2 * (y as i128) - 1;
    assert(0 < d <= 2 * rr);
    assert(d * d <= 4 * (rr * rr)) by (nonlinear_arith)
        requires
            0 < d <= 2 * rr,
    ;
    assert(rr * rr <= 0x8000_0000 * 0x8000_0000) by (nonlinear_arith)
        requires
            0 <= rr <= 0x8000_0000,
    ;
    let mut k: i32 = 0;
    loop
        invariant
            0 <= y < r,
            rr == r as i128,
            d == 2 * r - 2 * y - 1,
            0 < d * d <= 4 * (rr * rr),
            rr * rr <= 0x8000_0000 * 0x8000_0000,
            0 <= k <= r,
            1 <= corner_inset(r as int, y as int) <= r,
            inset_from(r as int, y as int, k as int) == corner_inset(r as int, y as int),
        decreases r - k,
    {
        let e = rr - k as i128;
        assert(e * e <= rr * rr) by (nonlinear_arith)
            requires
                0 <= e <= rr,
        ;
        assert(inside_corner(r as int, y as int, k as int) == (4 * (e * e) + d * d <= 4 * (rr
            * rr))) by (nonlinear_arith)
            requires
                e == r - k,
                d == 2 * r - 2 * y - 1,
                rr == r,
        ;
        if k >= r || 4 * (e * e) + d * d <= 4 * (rr * rr) {
            return k;
        }
        k = k + 1;
    }
}

/// The region of a panel that is blurred and takes input, as rectangles
/// `(x, y, width, height)`: nothing for an empty panel; otherwise the corner
/// scanlines, inset to stay inside the rounded corners, and the full band
/// between them.
pub fn rounded_region(width: i32, height: i32, radius: i32) -> (r: Vec<(i32, i32, i32, i32)>)
    ensures
        r@ == region_rects(width as int, height as int, radius as int),
{
    if width <= 0 || height <= 0 {
        return Vec::new();
    }
    let limit = (if width < height {
        width
    } else {
        height
    }) / 2;
    let r = if radius < 0 {
        0
    } else if radius > limit {
        limit
    } else {
        radius
    };
    assert(r == clamped_radius(width as int, height as int, radius as int));
    let mut rects: Vec<(i32, i32, i32, i32)> = Vec::new();
    let mut y: i32 = 0;
    while y < r
        invariant
            0 < width,
            0 < height,
            0 <= r <= limit,
            limit == (if width < height {
                width
            } else {
                height
            }) / 2,
            0 <= y <= r,
            rects@ == corner_rows(width as int, height as int, r as int, y as int),
        decreases r - y,
    {
        let inset = inset_of(r, y);
        let w = width - 2 * inset;
        let ghost before = rects@;
        if w > 0 {
            rects.push((inset, y, w, 1));
            rects.push((inset, height - y - 1, w, 1));
        }
        assert(rects@ =~= before + scanline_rects(width as int, height as int, r as int, y as int));
        y = y + 1;
    }
    if height > 2 * r {
        rects.push((0, r, width, height - 2 * r));
    }
    assert(rects@ =~= region_rects(width as int, height as int, radius as int));
    rects
}

/// Whether the region must be made again for a panel now `width` x
/// `height`, given the size it was last made for: only for a new size of a
/// panel that is not empty.
pub fn region_needs_update(current: (i32, i32), width: i32, height: i32) -> (r: bool)
    ensures
        r == !(current == (width, height) || width <= 0 || height <= 0),
{
    !((current.0 == width && current.1 == height) || width <= 0 || height <= 0)
}

/// A rectangle with positive size inside a `width` x `height` panel.
pub open spec fn inside_panel(rect: (i32, i32, i32, i32), width: int, height: int) -> bool {
    let (x, y, w, h) = rect;
    0 <= x && 0 <= y && w > 0 && h > 0 && x + w <= width && y + h <= height
}

proof fn lemma_corner_rows_inside(width: int, height: int, r: int, n: int)
    requires
        0 < width <= i32::MAX,
        0 < height <= i32::MAX,
        0 <= r,
        2 * r <= width,
        2 * r <= height,
        0 <= n <= r,
    ensures
        forall|i: int|
            0 <= i < corner_rows(width, height, r, n).len() ==> #[trigger] inside_panel(
                corner_rows(width, height, r, n)[i],
                width,
                height,
            ) && corner_rows(width, height, r, n)[i].0 >= 1,
    decreases n,
{
    if n > 0 {
        lemma_corner_rows_inside(width, height, r, n - 1);
        lemma_inset_bounds(r, n - 1, 0);
        let prev = corner_rows(width, height, r, n - 1);
        let line = scanline_rects(width, height, r, n - 1);
        let all = corner_rows(width, height, r, n);
        assert forall|i: int| 0 <= i < all.len() implies #[trigger] inside_panel(
            all[i],
            width,
            height,
        ) && all[i].0 >= 1 by {
            if i >= prev.len() {
                let inset = corner_inset(r, n - 1);
                assert(1 <= inset <= r);
                assert(all[i] == line[i - prev.len()]);
            } else {
                assert(all[i] == prev[i]);
            }
        }
    }
}

/// Every rectangle of the region lies inside the panel and has a positive
/// size; the corner scanlines never cover the panel's first column, so no
/// corner pixel is blurred or takes input.
pub proof fn lemma_region_inside_panel(width: i32, height: i32, radius: i32)
    ensures
        forall|i: int|
            0 <= i < region_rects(width as int, height as int, radius as int).len()
                ==> #[trigger] inside_panel(
                region_rects(width as int, height as int, radius as int)[i],
                width as int,
                height as int,
            ),
        width > 0 && height > 0 && clamped_radius(width as int, height as int, radius as int) > 0
            ==> forall|i: int|
            0 <= i < corner_rows(
                width as int,
                height as int,
                clamped_radius(width as int, height as int, radius as int),
                clamped_radius(width as int, height as int, radius as int),
            ).len() ==> #[trigger] corner_rows(
                width as int,
                height as int,
                clamped_radius(width as int, height as int, radius as int),
                clamped_radius(width as int, height as int, radius as int),
            )[i].0 >= 1,
{
    if width > 0 && height > 0 {
        let w = width as int;
        let h = height as int;
        let r = clamped_radius(w, h, radius as int);
        lemma_corner_rows_inside(w, h, r, r);
        let rows = corner_rows(w, h, r, r);
        let all = region_rects(w, h, radius as int);
        assert forall|i: int| 0 <= i < all.len() implies #[trigger] inside_panel(all[i], w, h) by {
            if i < rows.len() {
                assert(all[i] == rows[i]);
            }
        }
        assert forall|i: int| 0 <= i < rows.len() implies #[trigger] rows[i].0 >= 1 by {
            assert(inside_panel(rows[i], w, h));
        }
    }
}

} // verus!
