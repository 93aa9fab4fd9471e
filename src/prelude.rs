pub use crate::builder::{ClothBuilder, ColorKey};
pub use crate::cloth::Cloth;
pub use crate::error::Error;
pub use crate::mesh::{rectangle_grid, rectangle_indices};
pub use crate::rendering::{ClothRendering, NormalComputing, RenderSnapshot, VertexNormals};
pub use crate::stick::{Stick, StickGeneration, StickId, StickLen, StickMode};
