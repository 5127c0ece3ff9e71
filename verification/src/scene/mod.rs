//! Scene content: glTF asset processing and the scene built from it.
pub mod gltf_model;
pub mod scene;
