//! The determinism check for the parallel fan-out: dispatching the top-level
//! quadrants to a worker pool and appending the results in arrival order
//! yields the same rectangles, as a multiset, as the sequential rendering.

use std::sync::mpsc::channel;
use std::sync::Arc;
use threadpool::ThreadPool;

use mandelbrot::tile::{render_tile, split_quadrants, ColoredRect, PixelGrid, Rgb};

fn patterned_grid(width: usize, height: usize) -> PixelGrid {
    let palette = [
        Rgb { r: 0, g: 0, b: 0 },
        Rgb { r: 80, g: 10, b: 200 },
        Rgb { r: 255, g: 255, b: 255 },
    ];
    let mut rows = Vec::new();
    for y in 0..height {
        let mut row = Vec::new();
        for x in 0..width {
            row.push(palette[(x * 7 + y * 13) % palette.len()]);
        }
        rows.push(row);
    }
    PixelGrid { rows, outside: Rgb { r: 9, g: 9, b: 9 } }
}

fn sorted(mut rects: Vec<ColoredRect>) -> Vec<ColoredRect> {
    rects.sort_by_key(|r| (r.x, r.y, r.width, r.height, r.color.r, r.color.g, r.color.b));
    rects
}

#[test]
fn parallel_and_sequential_renders_agree_as_multisets() {
    let width: u32 = 19;
    let height: u32 = 11;
    let grid = Arc::new(patterned_grid(width as usize, height as usize));

    let sequential = render_tile(grid.as_ref(), 0, 0, width, height);

    // The same fan-out as the engine's top-level render: three quadrants go
    // to the pool, the bottom-right one is rendered on the calling thread,
    // and the dispatched results are appended in arrival order.
    let q = split_quadrants(0, 0, width, height);
    let pool = ThreadPool::new(4);
    let (tx, rx) = channel();
    for quad in [q.top_left, q.top_right, q.bottom_left] {
        let tx = tx.clone();
        let grid = Arc::clone(&grid);
        pool.execute(move || {
            tx.send(render_tile(grid.as_ref(), quad.0, quad.1, quad.2, quad.3)).unwrap();
        });
    }
    drop(tx);
    let mut parallel = render_tile(
        grid.as_ref(),
        q.bottom_right.0,
        q.bottom_right.1,
        q.bottom_right.2,
        q.bottom_right.3,
    );
    for mut part in rx.iter() {
        parallel.append(&mut part);
    }

    assert!(sequential.len() > 1);
    assert_eq!(sorted(sequential), sorted(parallel));
}
