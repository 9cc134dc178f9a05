//! A Mandelbrot-set renderer core: a camera that tracks pan, zoom and
//! iteration depth, and an adaptive tile renderer that splits the screen into
//! rectangles of uniform color.
//!
//! The renderer works over any [`tile::ColorSource`]: the escape-time
//! evaluator itself runs on floating point and therefore lives with the
//! windowing glue, outside this crate; here its behaviour is abstracted as a
//! color field over screen pixels, and everything geometric about the
//! subdivision is proved.

pub mod camera;
pub mod input;
pub mod laws;
pub mod tile;
