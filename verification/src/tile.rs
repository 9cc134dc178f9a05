//! The adaptive tile renderer.
//!
//! A screen rectangle is rendered by sampling the colors on its boundary: if
//! the whole boundary has the origin pixel's color, the rectangle is filled
//! with that color in one step; otherwise it is split into four quadrants
//! (ceiling-biased, so the quadrants tile the parent exactly) and each
//! quadrant is rendered recursively. The colors come from a [`ColorSource`],
//! a deterministic color field over screen pixels.

use vstd::prelude::*;

verus! {

/// An RGB color triple.
#[derive(Clone, Copy, PartialEq, Eq, Structural, Debug)]
pub struct Rgb {
    pub r: u8,
    pub g: u8,
    pub b: u8,
}

/// A screen-space rectangle filled with one color: the renderer's output.
#[derive(Clone, Copy, PartialEq, Eq, Structural, Debug)]
pub struct ColoredRect {
    pub x: u32,
    pub y: u32,
    pub width: u32,
    pub height: u32,
    pub color: Rgb,
}

/// A deterministic color field over screen pixels. `color_spec` is the
/// mathematical field; `color_at` computes it. The renderer samples the
/// field one pixel past a tile's right and bottom edges, so the field is
/// total over all pixel coordinates.
pub trait ColorSource {
    /// The color of a pixel, as a mathematical function of its coordinates.
    /// The default field is all black; an implementor overrides it with the
    /// field its `color_at` computes.
    open spec fn color_spec(&self, x: int, y: int) -> Rgb {
        Rgb { r: 0, g: 0, b: 0 }
    }

    /// Computes the color of a pixel.
    fn color_at(&self, x: u32, y: u32) -> (c: Rgb)
        ensures
            c == self.color_spec(x as int, y as int),
    ;
}

/// A color source as a plain function from pixel coordinates to colors.
pub open spec fn color_field<S: ColorSource>(s: S) -> spec_fn(int, int) -> Rgb {
    |i: int, j: int| s.color_spec(i, j)
}

/// The top and bottom boundary rows of the tile at `(x, y)` of size
/// `w × h` all have the color of the tile's origin pixel. The bottom row is
/// sampled one pixel past the tile, at `y + h`, mirroring how the renderer
/// probes for a change of color just beyond the tile's edge.
pub open spec fn rows_uniform(c: spec_fn(int, int) -> Rgb, x: int, y: int, w: int, h: int) -> bool {
    forall|i: int|
        x <= i < x + w ==> #[trigger] c(i, y) == c(i, y + h) && c(i, y) == c(x, y)
}

/// The left and right boundary columns of the tile all have the color of the
/// tile's origin pixel; the right column is sampled at `x + w`, one pixel
/// past the tile.
pub open spec fn columns_uniform(
    c: spec_fn(int, int) -> Rgb,
    x: int,
    y: int,
    w: int,
    h: int,
) -> bool {
    forall|j: int|
        y <= j < y + h ==> #[trigger] c(x, j) == c(x + w, j) && c(x, j) == c(x, y)
}

/// The whole boundary of the tile has the origin pixel's color: the renderer
/// then judges the tile uniform and fills it in one step. This is a
/// coherence heuristic: a tile whose interior varies behind a uniform
/// boundary is filled anyway.
pub open spec fn tile_uniform(c: spec_fn(int, int) -> Rgb, x: int, y: int, w: int, h: int) -> bool {
    rows_uniform(c, x, y, w, h) && columns_uniform(c, x, y, w, h)
}

/// The rectangle covering the tile at `(x, y)` of size `w × h`, filled with
/// color `col`.
pub open spec fn filled_rect(x: int, y: int, w: int, h: int, col: Rgb) -> ColoredRect {
    ColoredRect { x: x as u32, y: y as u32, width: w as u32, height: h as u32, color: col }
}

/// The list of rectangles the renderer produces for the tile at `(x, y)` of
/// size `w × h` over the color field `c`. An empty tile yields nothing; a
/// single pixel yields itself; a tile with a uniform boundary is filled in
/// one rectangle; any other tile is split into four ceiling-biased quadrants
/// whose renderings are concatenated in a fixed order: top-left, top-right,
/// bottom-left, bottom-right.
pub open spec fn spec_render(
    c: spec_fn(int, int) -> Rgb,
    x: int,
    y: int,
    w: int,
    h: int,
) -> Seq<ColoredRect>
    decreases w + h,
{
    if w <= 0 || h <= 0 {
        Seq::empty()
    } else if w <= 1 && h <= 1 {
        seq![filled_rect(x, y, 1, 1, c(x, y))]
    } else if tile_uniform(c, x, y, w, h) {
        seq![filled_rect(x, y, w, h, c(x, y))]
    } else {
        let cw = w - w / 2;
        let ch = h - h / 2;
        spec_render(c, x, y, cw, ch) + spec_render(c, x + cw, y, w / 2, ch) + spec_render(
            c,
            x,
            y + ch,
            cw,
            h / 2,
        ) + spec_render(c, x + cw, y + ch, w / 2, h / 2)
    }
}

/// Scans the tile's top and bottom boundary rows for a pixel that differs
/// from the origin pixel's color.
fn scan_rows<S: ColorSource>(source: &S, x: u32, y: u32, w: u32, h: u32) -> (r: bool)
    requires
        x + w <= u32::MAX,
        y + h <= u32::MAX,
    ensures
        r == rows_uniform(color_field(*source), x as int, y as int, w as int, h as int),
{
    let origin = source.color_at(x, y);
    let mut i = x;
    while i < x + w
        invariant
            x <= i <= x + w,
            x + w <= u32::MAX,
            y + h <= u32::MAX,
            origin == source.color_spec(x as int, y as int),
            forall|k: int|
                x <= k < i ==> #[trigger] source.color_spec(k, y as int) == source.color_spec(
                    k,
                    y + h,
                ) && source.color_spec(k, y as int) == source.color_spec(x as int, y as int),
        decreases x + w - i,
    {
        let top = source.color_at(i, y);
        let bottom = source.color_at(i, y + h);
        if top != bottom || top != origin {
            proof {
                let c = color_field(*source);
                assert(c(i as int, y as int) == source.color_spec(i as int, y as int));
                assert(c(i as int, y + h) == source.color_spec(i as int, y + h));
                assert(c(x as int, y as int) == source.color_spec(x as int, y as int));
            }
            return false;
        }
        i = i + 1;
    }
    true
}

/// Scans the tile's left and right boundary columns for a pixel that differs
/// from the origin pixel's color.
fn scan_columns<S: ColorSource>(source: &S, x: u32, y: u32, w: u32, h: u32) -> (r: bool)
    requires
        x + w <= u32::MAX,
        y + h <= u32::MAX,
    ensures
        r == columns_uniform(color_field(*source), x as int, y as int, w as int, h as int),
{
    let origin = source.color_at(x, y);
    let mut j = y;
    while j < y + h
        invariant
            y <= j <= y + h,
            x + w <= u32::MAX,
            y + h <= u32::MAX,
            origin == source.color_spec(x as int, y as int),
            forall|k: int|
                y <= k < j ==> #[trigger] source.color_spec(x as int, k) == source.color_spec(
                    x + w,
                    k,
                ) && source.color_spec(x as int, k) == source.color_spec(x as int, y as int),
        decreases y + h - j,
    {
        let left = source.color_at(x, j);
        let right = source.color_at(x + w, j);
        if left != right || left != origin {
            proof {
                let c = color_field(*source);
                assert(c(x as int, j as int) == source.color_spec(x as int, j as int));
                assert(c(x + w, j as int) == source.color_spec(x + w, j as int));
                assert(c(x as int, y as int) == source.color_spec(x as int, y as int));
            }
            return false;
        }
        j = j + 1;
    }
    true
}

/// Decides whether the tile's whole boundary has the origin pixel's color.
/// The renderer fills such a tile in one rectangle instead of subdividing.
pub fn boundary_uniform<S: ColorSource>(source: &S, x: u32, y: u32, w: u32, h: u32) -> (r: bool)
    requires
        x + w <= u32::MAX,
        y + h <= u32::MAX,
    ensures
        r == tile_uniform(color_field(*source), x as int, y as int, w as int, h as int),
{
    scan_rows(source, x, y, w, h) && scan_columns(source, x, y, w, h)
}

/// The four ceiling-biased quadrants of a tile: the top-left one takes the
/// rounded-up halves of the width and the height, so the four exactly tile
/// the parent whatever the parity. Each entry is `(x, y, width, height)`;
/// a quadrant of a tile with a side of one pixel may be zero-sized, and a
/// zero-sized quadrant renders to nothing.
pub struct Quadrants {
    pub top_left: (u32, u32, u32, u32),
    pub top_right: (u32, u32, u32, u32),
    pub bottom_left: (u32, u32, u32, u32),
    pub bottom_right: (u32, u32, u32, u32),
}

/// Computes the four quadrants a tile splits into. The engine uses this to
/// fan the top-level subdivision out across its worker pool; the recursive
/// renderer performs the same split.
pub fn split_quadrants(x: u32, y: u32, w: u32, h: u32) -> (q: Quadrants)
    requires
        x + w <= u32::MAX,
        y + h <= u32::MAX,
    ensures
        q.top_left == (x, y, (w / 2 + w % 2) as u32, (h / 2 + h % 2) as u32),
        q.top_right == ((x + w / 2 + w % 2) as u32, y, (w / 2) as u32, (h / 2 + h % 2) as u32),
        q.bottom_left == (x, (y + h / 2 + h % 2) as u32, (w / 2 + w % 2) as u32, (h / 2) as u32),
        q.bottom_right == (
            (x + w / 2 + w % 2) as u32,
            (y + h / 2 + h % 2) as u32,
            (w / 2) as u32,
            (h / 2) as u32,
        ),
{
    let cw = w / 2 + w % 2;
    let ch = h / 2 + h % 2;
    Quadrants {
        top_left: (x, y, cw, ch),
        top_right: (x + cw, y, w / 2, ch),
        bottom_left: (x, y + ch, cw, h / 2),
        bottom_right: (x + cw, y + ch, w / 2, h / 2),
    }
}

/// Renders the tile at `(x, y)` of size `w × h`: the returned rectangles are
/// exactly [`spec_render`] of the source's color field — pairwise disjoint,
/// and together they cover the tile and nothing else (see the laws module).
pub fn render_tile<S: ColorSource>(source: &S, x: u32, y: u32, w: u32, h: u32) -> (out: Vec<
    ColoredRect,
>)
    requires
        x + w <= u32::MAX,
        y + h <= u32::MAX,
    ensures
        out@ == spec_render(color_field(*source), x as int, y as int, w as int, h as int),
    decreases w + h,
{
    if w == 0 || h == 0 {
        let out: Vec<ColoredRect> = Vec::new();
        return out;
    }
    let origin_color = source.color_at(x, y);
    if w <= 1 && h <= 1 {
        let mut out: Vec<ColoredRect> = Vec::new();
        out.push(ColoredRect { x, y, width: 1, height: 1, color: origin_color });
        return out;
    }
    if boundary_uniform(source, x, y, w, h) {
        let mut out: Vec<ColoredRect> = Vec::new();
        out.push(ColoredRect { x, y, width: w, height: h, color: origin_color });
        return out;
    }
    let cw = w / 2 + w % 2;
    let ch = h / 2 + h % 2;
    let mut out = render_tile(source, x, y, cw, ch);
    let mut top_right = render_tile(source, x + cw, y, w / 2, ch);
    let mut bottom_left = render_tile(source, x, y + ch, cw, h / 2);
    let mut bottom_right = render_tile(source, x + cw, y + ch, w / 2, h / 2);
    out.append(&mut top_right);
    out.append(&mut bottom_left);
    out.append(&mut bottom_right);
    out
}

/// A color source backed by a grid of stored pixels: row `y` of `rows` holds
/// the colors of the pixels `(0, y)`, `(1, y)`, and so on. Pixels outside
/// the stored grid — the renderer samples one pixel past a tile's right and
/// bottom edges — have the `outside` color.
pub struct PixelGrid {
    pub rows: Vec<Vec<Rgb>>,
    pub outside: Rgb,
}

impl ColorSource for PixelGrid {
    open spec fn color_spec(&self, x: int, y: int) -> Rgb {
        if 0 <= y < self.rows@.len() && 0 <= x < self.rows@[y]@.len() {
            self.rows@[y]@[x]
        } else {
            self.outside
        }
    }

    fn color_at(&self, x: u32, y: u32) -> (c: Rgb) {
        if (y as usize) < self.rows.len() {
            let row = &self.rows[y as usize];
            if (x as usize) < row.len() {
                return row[x as usize];
            }
        }
        self.outside
    }
}

} // verus!
