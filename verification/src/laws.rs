//! The renderer's global guarantees: the rectangles of one rendering are
//! pairwise disjoint and tile the rendered rectangle exactly, and assembling
//! the four top-level quadrant renderings in any arrival order yields the
//! same multiset of rectangles as the sequential rendering.

use vstd::prelude::*;
use vstd::seq_lib::lemma_multiset_commutative;
use crate::tile::ColoredRect;
use crate::tile::Rgb;
use crate::tile::spec_render;
use crate::tile::tile_uniform;

verus! {

/// The rectangle `r` covers the pixel `(px, py)`.
pub open spec fn rect_covers(r: ColoredRect, px: int, py: int) -> bool {
    r.x <= px < r.x + r.width && r.y <= py < r.y + r.height
}

/// The rectangles `r1` and `r2` share no pixel.
pub open spec fn rects_disjoint(r1: ColoredRect, r2: ColoredRect) -> bool {
    forall|px: int, py: int| !(#[trigger] rect_covers(r1, px, py) && rect_covers(r2, px, py))
}

/// The rectangle `r` is non-empty and lies inside the tile at `(x, y)` of
/// size `w × h`.
pub open spec fn rect_within(r: ColoredRect, x: int, y: int, w: int, h: int) -> bool {
    1 <= r.width && 1 <= r.height && x <= r.x && r.x + r.width <= x + w && y <= r.y && r.y
        + r.height <= y + h
}

/// Every rectangle of `rs` is non-empty and lies inside the tile.
pub open spec fn all_within(rs: Seq<ColoredRect>, x: int, y: int, w: int, h: int) -> bool {
    forall|k: int| 0 <= k < rs.len() ==> rect_within(#[trigger] rs[k], x, y, w, h)
}

/// No two rectangles of `rs` share a pixel.
pub open spec fn pairwise_disjoint(rs: Seq<ColoredRect>) -> bool {
    forall|k1: int, k2: int|
        0 <= k1 < k2 < rs.len() ==> rects_disjoint(#[trigger] rs[k1], #[trigger] rs[k2])
}

/// Some rectangle of `rs` covers the pixel `(px, py)`.
pub open spec fn covered_by(rs: Seq<ColoredRect>, px: int, py: int) -> bool {
    exists|k: int| 0 <= k < rs.len() && #[trigger] rect_covers(rs[k], px, py)
}

/// Every pixel of the tile at `(x, y)` of size `w × h` is covered by some
/// rectangle of `rs`.
pub open spec fn covers_tile(rs: Seq<ColoredRect>, x: int, y: int, w: int, h: int) -> bool {
    forall|px: int, py: int|
        x <= px < x + w && y <= py < y + h ==> #[trigger] covered_by(rs, px, py)
}

/// `rs` partitions the tile: its rectangles are non-empty, lie inside the
/// tile, are pairwise disjoint, and cover every pixel of the tile.
pub open spec fn partitions(rs: Seq<ColoredRect>, x: int, y: int, w: int, h: int) -> bool {
    all_within(rs, x, y, w, h) && pairwise_disjoint(rs) && covers_tile(rs, x, y, w, h)
}

/// Two partitions of side-by-side tiles of equal height concatenate to a
/// partition of the combined tile.
proof fn lemma_join_horizontal(
    a: Seq<ColoredRect>,
    b: Seq<ColoredRect>,
    x: int,
    y: int,
    wa: int,
    wb: int,
    h: int,
)
    requires
        0 <= wa,
        0 <= wb,
        partitions(a, x, y, wa, h),
        partitions(b, x + wa, y, wb, h),
    ensures
        partitions(a + b, x, y, wa + wb, h),
{
    let ab = a + b;
    assert forall|k: int| 0 <= k < ab.len() implies rect_within(
        #[trigger] ab[k],
        x,
        y,
        wa + wb,
        h,
    ) by {
        if k < a.len() {
            assert(ab[k] == a[k]);
            assert(rect_within(a[k], x, y, wa, h));
        } else {
            assert(ab[k] == b[k - a.len()]);
            assert(rect_within(b[k - a.len()], x + wa, y, wb, h));
        }
    }
    assert forall|k1: int, k2: int| 0 <= k1 < k2 < ab.len() implies rects_disjoint(
        #[trigger] ab[k1],
        #[trigger] ab[k2],
    ) by {
        if k2 < a.len() {
            assert(ab[k1] == a[k1] && ab[k2] == a[k2]);
            assert(rects_disjoint(a[k1], a[k2]));
        } else if k1 >= a.len() {
            assert(ab[k1] == b[k1 - a.len()] && ab[k2] == b[k2 - a.len()]);
            assert(rects_disjoint(b[k1 - a.len()], b[k2 - a.len()]));
        } else {
            let r1 = a[k1];
            let r2 = b[k2 - a.len()];
            assert(ab[k1] == r1 && ab[k2] == r2);
            assert(rect_within(r1, x, y, wa, h));
            assert(rect_within(r2, x + wa, y, wb, h));
            assert forall|px: int, py: int| !(#[trigger] rect_covers(r1, px, py) && rect_covers(
                r2,
                px,
                py,
            )) by {
                if rect_covers(r1, px, py) {
                    assert(px < x + wa);
                }
            }
        }
    }
    assert forall|px: int, py: int|
        x <= px < x + wa + wb && y <= py < y + h implies #[trigger] covered_by(ab, px, py) by {
        if px < x + wa {
            assert(covered_by(a, px, py));
            let k = choose|k: int| 0 <= k < a.len() && #[trigger] rect_covers(a[k], px, py);
            assert(ab[k] == a[k]);
            assert(rect_covers(ab[k], px, py));
        } else {
            assert(covered_by(b, px, py));
            let k = choose|k: int| 0 <= k < b.len() && #[trigger] rect_covers(b[k], px, py);
            assert(ab[k + a.len()] == b[k]);
            assert(rect_covers(ab[k + a.len()], px, py));
        }
    }
}

/// Two partitions of stacked tiles of equal width concatenate to a partition
/// of the combined tile.
proof fn lemma_join_vertical(
    a: Seq<ColoredRect>,
    b: Seq<ColoredRect>,
    x: int,
    y: int,
    w: int,
    ha: int,
    hb: int,
)
    requires
        0 <= ha,
        0 <= hb,
        partitions(a, x, y, w, ha),
        partitions(b, x, y + ha, w, hb),
    ensures
        partitions(a + b, x, y, w, ha + hb),
{
    let ab = a + b;
    assert forall|k: int| 0 <= k < ab.len() implies rect_within(
        #[trigger] ab[k],
        x,
        y,
        w,
        ha + hb,
    ) by {
        if k < a.len() {
            assert(ab[k] == a[k]);
            assert(rect_within(a[k], x, y, w, ha));
        } else {
            assert(ab[k] == b[k - a.len()]);
            assert(rect_within(b[k - a.len()], x, y + ha, w, hb));
        }
    }
    assert forall|k1: int, k2: int| 0 <= k1 < k2 < ab.len() implies rects_disjoint(
        #[trigger] ab[k1],
        #[trigger] ab[k2],
    ) by {
        if k2 < a.len() {
            assert(ab[k1] == a[k1] && ab[k2] == a[k2]);
            assert(rects_disjoint(a[k1], a[k2]));
        } else if k1 >= a.len() {
            assert(ab[k1] == b[k1 - a.len()] && ab[k2] == b[k2 - a.len()]);
            assert(rects_disjoint(b[k1 - a.len()], b[k2 - a.len()]));
        } else {
            let r1 = a[k1];
            let r2 = b[k2 - a.len()];
            assert(ab[k1] == r1 && ab[k2] == r2);
            assert(rect_within(r1, x, y, w, ha));
            assert(rect_within(r2, x, y + ha, w, hb));
            assert forall|px: int, py: int| !(#[trigger] rect_covers(r1, px, py) && rect_covers(
                r2,
                px,
                py,
            )) by {
                if rect_covers(r1, px, py) {
                    assert(py < y + ha);
                }
            }
        }
    }
    assert forall|px: int, py: int|
        x <= px < x + w && y <= py < y + ha + hb implies #[trigger] covered_by(ab, px, py) by {
        if py < y + ha {
            assert(covered_by(a, px, py));
            let k = choose|k: int| 0 <= k < a.len() && #[trigger] rect_covers(a[k], px, py);
            assert(ab[k] == a[k]);
            assert(rect_covers(ab[k], px, py));
        } else {
            assert(covered_by(b, px, py));
            let k = choose|k: int| 0 <= k < b.len() && #[trigger] rect_covers(b[k], px, py);
            assert(ab[k + a.len()] == b[k]);
            assert(rect_covers(ab[k + a.len()], px, py));
        }
    }
}

/// Law: for every tile, the rectangles the renderer produces are non-empty,
/// lie inside the tile, are pairwise disjoint, and cover every pixel of the
/// tile — the rendering partitions the tile exactly, whatever the colors.
pub proof fn lemma_render_partitions(c: spec_fn(int, int) -> Rgb, x: int, y: int, w: int, h: int)
    requires
        0 <= x,
        0 <= y,
        x + w <= u32::MAX,
        y + h <= u32::MAX,
    ensures
        partitions(spec_render(c, x, y, w, h), x, y, w, h),
    decreases w + h,
{
    let rs = spec_render(c, x, y, w, h);
    if w <= 0 || h <= 0 {
        assert(rs.len() == 0);
    } else if w <= 1 && h <= 1 {
        assert(rs.len() == 1);
        assert(rect_within(rs[0], x, y, w, h));
        assert forall|px: int, py: int|
            x <= px < x + w && y <= py < y + h implies #[trigger] covered_by(rs, px, py) by {
            assert(rect_covers(rs[0], px, py));
        }
    } else if tile_uniform(c, x, y, w, h) {
        assert(rs.len() == 1);
        assert(rect_within(rs[0], x, y, w, h));
        assert forall|px: int, py: int|
            x <= px < x + w && y <= py < y + h implies #[trigger] covered_by(rs, px, py) by {
            assert(rect_covers(rs[0], px, py));
        }
    } else {
        let cw = w - w / 2;
        let ch = h - h / 2;
        let tl = spec_render(c, x, y, cw, ch);
        let tr = spec_render(c, x + cw, y, w / 2, ch);
        let bl = spec_render(c, x, y + ch, cw, h / 2);
        let br = spec_render(c, x + cw, y + ch, w / 2, h / 2);
        lemma_render_partitions(c, x, y, cw, ch);
        lemma_render_partitions(c, x + cw, y, w / 2, ch);
        lemma_render_partitions(c, x, y + ch, cw, h / 2);
        lemma_render_partitions(c, x + cw, y + ch, w / 2, h / 2);
        lemma_join_horizontal(tl, tr, x, y, cw, w / 2, ch);
        lemma_join_horizontal(bl, br, x, y + ch, cw, w / 2, h / 2);
        lemma_join_vertical(tl + tr, bl + br, x, y, w, ch, h / 2);
        assert(rs =~= (tl + tr) + (bl + br));
    }
}

/// The rectangle `r` carries the color field's value at its own origin pixel.
pub open spec fn origin_colored(r: ColoredRect, c: spec_fn(int, int) -> Rgb) -> bool {
    r.color == c(r.x as int, r.y as int)
}

/// Law: every rectangle of a rendering carries the color field's value at the
/// rectangle's own origin pixel — a tile judged uniform is filled with the
/// color sampled at its top-left corner, and a single pixel with its own.
pub proof fn lemma_render_colors(c: spec_fn(int, int) -> Rgb, x: int, y: int, w: int, h: int)
    requires
        0 <= x,
        0 <= y,
        x + w <= u32::MAX,
        y + h <= u32::MAX,
    ensures
        forall|k: int|
            0 <= k < spec_render(c, x, y, w, h).len() ==> origin_colored(
                #[trigger] spec_render(c, x, y, w, h)[k],
                c,
            ),
    decreases w + h,
{
    let rs = spec_render(c, x, y, w, h);
    if w <= 0 || h <= 0 {
    } else if w <= 1 && h <= 1 {
        assert(rs[0].x == x && rs[0].y == y);
    } else if tile_uniform(c, x, y, w, h) {
        assert(rs[0].x == x && rs[0].y == y);
    } else {
        let cw = w - w / 2;
        let ch = h - h / 2;
        let tl = spec_render(c, x, y, cw, ch);
        let tr = spec_render(c, x + cw, y, w / 2, ch);
        let bl = spec_render(c, x, y + ch, cw, h / 2);
        let br = spec_render(c, x + cw, y + ch, w / 2, h / 2);
        lemma_render_colors(c, x, y, cw, ch);
        lemma_render_colors(c, x + cw, y, w / 2, ch);
        lemma_render_colors(c, x, y + ch, cw, h / 2);
        lemma_render_colors(c, x + cw, y + ch, w / 2, h / 2);
        assert forall|k: int| 0 <= k < rs.len() implies origin_colored(#[trigger] rs[k], c) by {
            if k < tl.len() {
                assert(rs[k] == tl[k]);
            } else if k < tl.len() + tr.len() {
                assert(rs[k] == tr[k - tl.len()]);
            } else if k < tl.len() + tr.len() + bl.len() {
                assert(rs[k] == bl[k - tl.len() - tr.len()]);
            } else {
                assert(rs[k] == br[k - tl.len() - tr.len() - bl.len()]);
            }
        }
    }
}

/// The rendering of the `k`-th quadrant of a split tile, in the renderer's
/// fixed order: top-left, top-right, bottom-left, bottom-right.
pub open spec fn quadrant_render(
    c: spec_fn(int, int) -> Rgb,
    x: int,
    y: int,
    w: int,
    h: int,
    k: int,
) -> Seq<ColoredRect> {
    let cw = w - w / 2;
    let ch = h - h / 2;
    if k == 0 {
        spec_render(c, x, y, cw, ch)
    } else if k == 1 {
        spec_render(c, x + cw, y, w / 2, ch)
    } else if k == 2 {
        spec_render(c, x, y + ch, cw, h / 2)
    } else {
        spec_render(c, x + cw, y + ch, w / 2, h / 2)
    }
}

/// Law: when a tile splits, concatenating the four quadrant renderings in
/// any order yields the same multiset of rectangles as the sequential
/// rendering of the tile. Dispatching the quadrants to workers and appending
/// the results as they arrive changes the order at most, never the
/// rectangles.
pub proof fn lemma_assembly_order_irrelevant(
    c: spec_fn(int, int) -> Rgb,
    x: int,
    y: int,
    w: int,
    h: int,
    k0: int,
    k1: int,
    k2: int,
    k3: int,
)
    requires
        1 <= w,
        1 <= h,
        !(w <= 1 && h <= 1),
        !tile_uniform(c, x, y, w, h),
        0 <= k0 < 4,
        0 <= k1 < 4,
        0 <= k2 < 4,
        0 <= k3 < 4,
        k0 != k1,
        k0 != k2,
        k0 != k3,
        k1 != k2,
        k1 != k3,
        k2 != k3,
    ensures
        (quadrant_render(c, x, y, w, h, k0) + quadrant_render(c, x, y, w, h, k1)
            + quadrant_render(c, x, y, w, h, k2) + quadrant_render(c, x, y, w, h, k3)).to_multiset()
            == spec_render(c, x, y, w, h).to_multiset(),
{
    broadcast use vstd::multiset::group_multiset_axioms;

    let q0 = quadrant_render(c, x, y, w, h, 0);
    let q1 = quadrant_render(c, x, y, w, h, 1);
    let q2 = quadrant_render(c, x, y, w, h, 2);
    let q3 = quadrant_render(c, x, y, w, h, 3);
    let p0 = quadrant_render(c, x, y, w, h, k0);
    let p1 = quadrant_render(c, x, y, w, h, k1);
    let p2 = quadrant_render(c, x, y, w, h, k2);
    let p3 = quadrant_render(c, x, y, w, h, k3);
    assert(spec_render(c, x, y, w, h) == q0 + q1 + q2 + q3);
    lemma_multiset_commutative(q0 + q1 + q2, q3);
    lemma_multiset_commutative(q0 + q1, q2);
    lemma_multiset_commutative(q0, q1);
    lemma_multiset_commutative(p0 + p1 + p2, p3);
    lemma_multiset_commutative(p0 + p1, p2);
    lemma_multiset_commutative(p0, p1);
    let total = q0.to_multiset().add(q1.to_multiset()).add(q2.to_multiset()).add(q3.to_multiset());
    let assembled = p0.to_multiset().add(p1.to_multiset()).add(p2.to_multiset()).add(
        p3.to_multiset(),
    );
    assert(assembled =~= total);
}

} // verus!
