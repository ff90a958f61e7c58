//! A small software renderer: a mesh parser, a color model, an integer
//! edge-function rasterizer with a depth buffer, and shaders.
//!
//! All arithmetic is done on integers. Mesh coordinates and light intensities
//! are fixed-point values with `FIXED_ONE` units per whole unit. Screen `x`
//! and `y` are exact, in `SUBPIXEL` units per pixel, so that a projected
//! line stays a line; depths are in `FIXED_ONE` units.
pub mod color;
pub mod framebuffer;
pub mod lex;
pub mod obj;
pub mod rasterizer;
pub mod shader;
pub mod shaders;
pub mod transform;

pub use color::{ColorSpace, Grayscale, RGB, FIXED_ONE};
pub use framebuffer::{new_depth_buffer, Image, FAR_DEPTH};
pub use obj::{parse_line, parse_obj, FaceIndex, ObjError, ObjFace, ObjLine, Vec3};
pub use rasterizer::{triangle, CANVAS_LIMIT, XY_LIMIT, Z_LIMIT};
pub use shader::{Bary, Shader};
pub use shaders::{to_texel_space, FlatShader, GouraudShader, NormalMappedShader, NormalSpecularShader};
pub use transform::{Transform, SUBPIXEL};
