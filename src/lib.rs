//! Content-aware image resizing by seam carving.
//!
//! The library works on in-memory RGBA grids: it computes a gradient energy
//! for every pixel, searches a low-energy top-to-bottom seam, and removes or
//! highlights it. Horizontal seams are handled by rotating the grid.
pub mod grid;
pub mod energy;
pub mod error;
pub mod seam;
pub mod carve;
