//! Asset pipeline of a small 3D scene editor: handle issuing, texture and
//! model decoding, vertex layout derivation and interleaving, the resource
//! tables that own decoded assets, and the mesh instances built from them.

pub mod data;
pub mod decode;
pub mod handles;
pub mod instance;
pub mod interleave;
pub mod layout;
pub mod loader;
pub mod model;
pub mod scene;
pub mod tables;
pub mod texture;
