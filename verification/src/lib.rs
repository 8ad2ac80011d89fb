//! Block and table formatting-context core of a CSS layout engine.
//!
//! Given a tree of flow nodes annotated with computed style, the library
//! computes every node's intrinsic widths, used width and horizontal
//! position, used height and vertical position (with vertical margin
//! collapsing and float placement), and finally a list of rectangles to
//! paint, culled by a dirty rectangle.

pub mod block;
pub mod box_model;
pub mod display_list;
pub mod flow;
pub mod float_context;
pub mod geometry;
pub mod horizontal;
pub mod model;
pub mod style;
pub mod table_misc;
pub mod table_row;
pub mod table_wrapper;
pub mod vertical;
