//! An exact integer kernel for 3D affine geometry: square matrices with
//! Laplace-expansion determinants and adjugate inversion, vectors and points,
//! colours, and a pixel canvas with a plain-text image writer.
pub mod algebra;
pub mod adjugate;
pub mod matrix;
pub mod points;
pub mod color;
pub mod canvas;
pub mod text;
