//! Core logic of the QuestCraft VR runtime: keyboard layout and key handling,
//! frame bookkeeping, reading and laying out glTF assets (kept primitives and
//! buffer offsets, scene-graph flattening, skins, draw lists, texture pixel
//! expansion) and controller model selection.
#![allow(unused_imports)]

use vstd::prelude::*;

pub mod egui_textures;
pub mod input;
pub mod jni_state;
pub mod keyboard;
pub mod render;
pub mod scene;

verus! {
} // verus!
