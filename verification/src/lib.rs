//! Verified core of a small voxel and asset game engine: voxel chunks and
//! sparse voxel maps, mesh padding and index decoding, reference-counted
//! asset handles and slots, a task registry, input state, the frame counter,
//! editor selection and highlighting, the text of shader uniform
//! declarations, and a few rendering and physics decisions.

pub mod asset_holder;
pub mod fps;
pub mod gltf_index;
pub mod handle;
pub mod highlight;
pub mod input;
pub mod material;
pub mod mipmap;
pub mod objected;
pub mod physics;
pub mod selection;
pub mod stage;
pub mod task_server;
pub mod voxel;
pub mod uniform;
