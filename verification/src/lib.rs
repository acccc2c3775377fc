//! A small geometric math kernel: a homogeneous four-component tuple that
//! encodes the point/vector distinction in its `w` component, an RGB color
//! triple, a general numeric matrix with multiplication, and a pixel canvas
//! that serializes to the plain-text PPM image format.
//!
//! Every type is generic over [`scalar::Scalar`], the small numeric
//! capability set the kernel needs. The crate ships a verified integer
//! instance; callers that want floating-point geometry supply their own
//! scalar and inherit every structural guarantee proved here.

pub mod canvas;
pub mod color;
pub mod matrix;
pub mod scalar;
pub mod tuple;
