//! Codec for the engine's binary render-primitive (mesh) resource, with the
//! texture enumerations and flags that accompany it.

pub mod buffer;
pub mod bytes;
pub mod cloth;
pub mod collision;
pub mod error;
pub mod math;
pub mod prim_mesh;
pub mod prim_mesh_linked;
pub mod prim_mesh_weighted;
pub mod prim_object;
pub mod prim_sub_mesh;
pub mod render_primitive;
pub mod texture;
