//! glTF assets: reading a document through the `gltf` crate, and laying out
//! the asset from what was read (metadata flags, kept primitives and buffer
//! offsets, node hierarchy flattening, skin layout, draw lists and textures).
use vstd::prelude::*;

pub mod hierarchy;
pub mod skins;
pub mod draw_data;
pub mod textures;
pub mod animation;
pub mod import;
pub mod asset;

verus! {

/// Index of a node in the flattened node list of an asset.
pub type NodeIndex = usize;

/// One indexed indirect draw, laid out as the GPU expects it.
#[derive(Debug, PartialEq, Eq, Structural, Copy, Clone)]
pub struct DrawIndexedIndirectCommand {
    pub index_count: u32,
    pub instance_count: u32,
    pub first_index: u32,
    pub vertex_offset: i32,
    pub first_instance: u32,
}

/// How an animation channel interpolates between keyframes.
#[derive(Debug, PartialEq, Eq, Structural, PartialOrd, Ord, Copy, Clone)]
pub enum Interpolation {
    Linear,
    Step,
    CubicSpline,
}

/// Number of output values stored per keyframe: cubic splines store an
/// in-tangent, the value and an out-tangent; the other modes store the value.
pub open spec fn spec_stride(interpolation: Interpolation) -> usize {
    match interpolation {
        Interpolation::CubicSpline => 3,
        _ => 1,
    }
}

/// Number of output values stored per keyframe for `interpolation`.
pub fn stride(interpolation: Interpolation) -> (n: usize)
    ensures
        n == spec_stride(interpolation),
{
    match interpolation {
        Interpolation::CubicSpline => 3,
        _ => 1,
    }
}

/// Application metadata attached to glTF meshes and nodes.
#[derive(Debug, PartialEq, Eq, Structural, Copy, Clone)]
pub struct Extras {
    pub is_ui_surface: Option<i32>,
    pub is_spawnpoint: Option<i32>,
    pub is_grab_bar: Option<i32>,
}

/// The kinds of special node that metadata can designate.
#[derive(Debug, PartialEq, Eq, Structural, Copy, Clone)]
pub enum SpecialKind {
    UiSurface,
    SpawnPoint,
    GrabBar,
}

impl Extras {
    /// The flag that designates `kind`.
    pub open spec fn spec_flag(self, kind: SpecialKind) -> Option<i32> {
        match kind {
            SpecialKind::UiSurface => self.is_ui_surface,
            SpecialKind::SpawnPoint => self.is_spawnpoint,
            SpecialKind::GrabBar => self.is_grab_bar,
        }
    }

    /// The flag that designates `kind`.
    pub fn flag(&self, kind: SpecialKind) -> (f: Option<i32>)
        ensures
            f == self.spec_flag(kind),
    {
        match kind {
            SpecialKind::UiSurface => self.is_ui_surface,
            SpecialKind::SpawnPoint => self.is_spawnpoint,
            SpecialKind::GrabBar => self.is_grab_bar,
        }
    }

    /// Mesh metadata that makes the node carrying the mesh special:
    /// a UI surface or a grab bar.
    pub open spec fn spec_marks_special_mesh(self) -> bool {
        self.is_ui_surface is Some || self.is_grab_bar is Some
    }

    /// Whether mesh metadata makes the node carrying the mesh special.
    pub fn marks_special_mesh(&self) -> (b: bool)
        ensures
            b == self.spec_marks_special_mesh(),
    {
        self.is_ui_surface.is_some() || self.is_grab_bar.is_some()
    }

    /// Node metadata that makes the node special: a spawn point.
    pub open spec fn spec_marks_spawnpoint(self) -> bool {
        self.is_spawnpoint is Some
    }

    /// Whether node metadata makes the node special (a spawn point).
    pub fn marks_spawnpoint(&self) -> (b: bool)
        ensures
            b == self.spec_marks_spawnpoint(),
    {
        self.is_spawnpoint.is_some()
    }
}

/// A mesh is kept out of the regular draw list when its metadata marks it as
/// a UI surface or a spawn point.
pub open spec fn spec_mesh_is_special(extras: Option<Extras>) -> bool {
    match extras {
        Some(e) => e.is_ui_surface is Some || e.is_spawnpoint is Some,
        None => false,
    }
}

/// Whether a mesh with metadata `extras` is kept out of the regular draw list.
pub fn mesh_is_special(extras: &Option<Extras>) -> (b: bool)
    ensures
        b == spec_mesh_is_special(*extras),
{
    match extras {
        Some(e) => e.is_ui_surface.is_some() || e.is_spawnpoint.is_some(),
        None => false,
    }
}

/// A mesh keeps a CPU-side copy of its geometry (for ray casts) exactly when
/// its metadata sets the UI-surface flag to 1.
pub open spec fn spec_mesh_keeps_cpu_data(extras: Option<Extras>) -> bool {
    match extras {
        Some(e) => e.is_ui_surface == Some(1i32),
        None => false,
    }
}

/// Whether a mesh with metadata `extras` keeps a CPU-side copy of its geometry.
pub fn mesh_keeps_cpu_data(extras: &Option<Extras>) -> (b: bool)
    ensures
        b == spec_mesh_keeps_cpu_data(*extras),
{
    match extras {
        Some(e) => match e.is_ui_surface {
            Some(v) => v == 1,
            None => false,
        },
        None => false,
    }
}

} // verus!
