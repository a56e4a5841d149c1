//! Ray tracer core: the pixel buffer and its PPM text, the rendering
//! strategy (serial and in row bands), the ordering of intersections and the
//! choice of the hit, the layout of the homogeneous matrices, the object
//! arena of a scene, and the closed set of object kinds.
pub mod canvas;
pub mod hit;
pub mod matrix;
pub mod objects;
pub mod ppm;
pub mod render;
pub mod scene;
