//! Reading a glTF asset: the bytes are parsed by the `gltf` crate, and the
//! parts of the document that the asset logic works on are copied out as
//! plain values into a [`GltfStructure`].
//!
//! What the parser returns for given bytes is named below by one
//! uninterpreted function per query; each is a function of the bytes alone
//! (no base path is given, so nothing is read from files).
//!
//! The `gltf` crate is called in stages (parse, validate, load buffers,
//! decode images, read streams), and before each stage the library checks,
//! on values read from the stage before, the inputs on which that stage
//! would panic rather than fail; such inputs are refused.
use vstd::prelude::*;
use super::skins::SourceSkin;
use super::textures::PixelFormat;

verus! {

/// A parsed glTF document.
#[verifier::external_type_specification]
#[verifier::external_body]
pub struct ExDocument(gltf::Document);

/// The contents of one buffer of a parsed document.
#[verifier::external_type_specification]
#[verifier::external_body]
pub struct ExBufferData(gltf::buffer::Data);

/// One decoded image of a parsed document.
#[verifier::external_type_specification]
#[verifier::external_body]
pub struct ExImageData(gltf::image::Data);

/// A parsed asset together with the bytes it was parsed from (its view).
pub struct ImportedGltf {
    document: gltf::Document,
    buffers: Vec<gltf::buffer::Data>,
    images: Vec<gltf::image::Data>,
    source: Ghost<Seq<u8>>,
}

impl View for ImportedGltf {
    type V = Seq<u8>;

    closed spec fn view(&self) -> Seq<u8> {
        self.source@
    }
}

/// Numbers of nodes, meshes, skins, materials, textures and decoded images
/// of a document.
#[derive(Debug, PartialEq, Eq, Structural, Copy, Clone)]
pub struct DocumentCounts {
    pub nodes: usize,
    pub meshes: usize,
    pub skins: usize,
    pub materials: usize,
    pub textures: usize,
    pub images: usize,
    pub accessors: usize,
}

/// The accessors that a primitive's vertex streams read, by index.
#[derive(Debug, PartialEq, Eq, Structural, Copy, Clone)]
pub struct PrimitiveAccessors {
    pub positions: Option<usize>,
    pub indices: Option<usize>,
    pub tex_coords: Option<usize>,
    pub normals: Option<usize>,
    pub tangents: Option<usize>,
    pub joints: Option<usize>,
    pub weights: Option<usize>,
}

/// The component type of an accessor.
#[derive(Debug, PartialEq, Eq, Structural, Copy, Clone)]
pub enum ComponentKind {
    I8,
    U8,
    I16,
    U16,
    U32,
    F32,
}

/// How an accessor lays out its items: the size of one item, the number of
/// items, the offset into its buffer view, the view's stride if it sets one,
/// the view's own offset and length if it has a view, and whether the
/// accessor is sparse.
#[derive(Debug, PartialEq, Eq, Structural, Copy, Clone)]
pub struct AccessorLayout {
    pub size: usize,
    pub count: usize,
    pub offset: usize,
    pub stride: Option<usize>,
    pub view: Option<ViewRange>,
    pub sparse: bool,
}

/// Where a buffer view lies in its buffer.
#[derive(Debug, PartialEq, Eq, Structural, Copy, Clone)]
pub struct ViewRange {
    pub offset: usize,
    pub length: usize,
}

/// The vertex streams a primitive is read through.
#[derive(Debug, PartialEq, Eq, Structural, Copy, Clone)]
pub enum StreamUse {
    Position,
    Normal,
    Tangent,
    Index,
    Joint,
    TexCoord,
    Weight,
}

/// What a primitive offers: its material, and the number of items in each
/// vertex stream the asset logic reads (`None` where the primitive has no
/// such stream).
#[derive(Debug, PartialEq, Eq, Structural, Copy, Clone)]
pub struct DocPrimitive {
    pub material: Option<usize>,
    pub positions: Option<usize>,
    pub indices: Option<usize>,
    pub tex_coords: Option<usize>,
    pub normals: Option<usize>,
    pub tangents: Option<usize>,
    pub joints: Option<usize>,
    pub weights: Option<usize>,
}

/// The image indices that a material samples, and its culling mode.
#[derive(Debug, PartialEq, Eq, Structural, Copy, Clone)]
pub struct DocMaterial {
    pub base_color_texture: Option<usize>,
    pub metallic_roughness_texture: Option<usize>,
    pub normal_texture: Option<usize>,
    pub emissive_texture: Option<usize>,
    pub double_sided: bool,
}

/// A node: its mesh, its skin and the document indices of its children.
pub struct DocNode {
    pub mesh: Option<usize>,
    pub skin: Option<usize>,
    pub children: Vec<usize>,
}

/// A mesh: its primitives.
pub struct DocMesh {
    pub primitives: Vec<DocPrimitive>,
}

/// A decoded image.
pub struct DocImage {
    pub format: PixelFormat,
    pub width: u32,
    pub height: u32,
    pub pixels: Vec<u8>,
}

/// The parts of a document that the asset logic reads, as plain values.
pub struct GltfStructure {
    pub nodes: Vec<DocNode>,
    /// Document indices of the root nodes of the default scene, if the
    /// document names one.
    pub scene_roots: Option<Vec<usize>>,
    pub meshes: Vec<DocMesh>,
    pub skins: Vec<SourceSkin>,
    pub materials: Vec<DocMaterial>,
    pub texture_count: usize,
    pub images: Vec<DocImage>,
    /// Raw JSON metadata of each mesh.
    pub mesh_extras: Vec<Option<String>>,
    /// Raw JSON metadata of each node.
    pub node_extras: Vec<Option<String>>,
}


/// The counts of the document parsed from `source`.
pub uninterp spec fn gltf_counts(source: Seq<u8>) -> DocumentCounts;

/// Mesh, skin and children of node `index` of the document parsed from `source`.
pub uninterp spec fn gltf_node(source: Seq<u8>, index: usize) -> (Option<usize>, Option<usize>, Seq<usize>);

/// Raw metadata of node `index`.
pub uninterp spec fn gltf_node_extras(source: Seq<u8>, index: usize) -> Option<Seq<char>>;

/// Root nodes of the default scene.
pub uninterp spec fn gltf_scene_roots(source: Seq<u8>) -> Option<Seq<usize>>;

/// Raw metadata of mesh `index`.
pub uninterp spec fn gltf_mesh_extras(source: Seq<u8>, index: usize) -> Option<Seq<char>>;

/// Number of primitives of mesh `index`.
pub uninterp spec fn gltf_primitive_count(source: Seq<u8>, index: usize) -> usize;

/// Material and the sizes of the position, index, texture-coordinate and
/// normal streams of primitive `primitive` of mesh `mesh`.
pub uninterp spec fn gltf_primitive_geometry(source: Seq<u8>, mesh: usize, primitive: usize) -> (
    Option<usize>,
    Option<usize>,
    Option<usize>,
    Option<usize>,
    Option<usize>,
);

/// Sizes of the tangent, joint and weight streams of primitive `primitive`
/// of mesh `mesh`.
pub uninterp spec fn gltf_primitive_extra_streams(source: Seq<u8>, mesh: usize, primitive: usize) -> (
    Option<usize>,
    Option<usize>,
    Option<usize>,
);

/// Primitive `primitive` of mesh `mesh` of the document parsed from `source`.
pub open spec fn gltf_primitive(source: Seq<u8>, mesh: usize, primitive: usize) -> DocPrimitive {
    let g = gltf_primitive_geometry(source, mesh, primitive);
    let e = gltf_primitive_extra_streams(source, mesh, primitive);
    DocPrimitive {
        material: g.0,
        positions: g.1,
        indices: g.2,
        tex_coords: g.3,
        normals: g.4,
        tangents: e.0,
        joints: e.1,
        weights: e.2,
    }
}

/// The accessors of the POSITION, indices, TEXCOORD_0 and NORMAL streams of
/// primitive `primitive` of mesh `mesh`.
pub uninterp spec fn gltf_primitive_main_accessors(source: Seq<u8>, mesh: usize, primitive: usize) -> (
    Option<usize>,
    Option<usize>,
    Option<usize>,
    Option<usize>,
);

/// The accessors of the TANGENT, JOINTS_0 and WEIGHTS_0 streams of primitive
/// `primitive` of mesh `mesh`.
pub uninterp spec fn gltf_primitive_extra_accessors(source: Seq<u8>, mesh: usize, primitive: usize) -> (
    Option<usize>,
    Option<usize>,
    Option<usize>,
);

/// The accessors read by primitive `primitive` of mesh `mesh`.
pub open spec fn gltf_primitive_accessors(source: Seq<u8>, mesh: usize, primitive: usize) -> PrimitiveAccessors {
    let a = gltf_primitive_main_accessors(source, mesh, primitive);
    let e = gltf_primitive_extra_accessors(source, mesh, primitive);
    PrimitiveAccessors {
        positions: a.0,
        indices: a.1,
        tex_coords: a.2,
        normals: a.3,
        tangents: e.0,
        joints: e.1,
        weights: e.2,
    }
}

/// The component type of accessor `index`.
pub uninterp spec fn gltf_accessor_kind(source: Seq<u8>, index: usize) -> ComponentKind;

/// The layout of accessor `index`.
pub uninterp spec fn gltf_accessor_layout(source: Seq<u8>, index: usize) -> AccessorLayout;

/// Joint nodes and skeleton root of skin `index`.
pub uninterp spec fn gltf_skin(source: Seq<u8>, index: usize) -> (Seq<usize>, Option<usize>);

/// Texture images and culling mode of material `index`.
pub uninterp spec fn gltf_material(source: Seq<u8>, index: usize) -> DocMaterial;

/// Pixel layout of decoded image `index`.
pub uninterp spec fn gltf_image_format(source: Seq<u8>, index: usize) -> PixelFormat;

/// Width, height and pixel bytes of decoded image `index`.
pub uninterp spec fn gltf_image(source: Seq<u8>, index: usize) -> (u32, u32, Seq<u8>);

/// The characters of an optional string.
pub open spec fn opt_text(o: Option<String>) -> Option<Seq<char>> {
    match o {
        Some(s) => Some(s@),
        None => None,
    }
}

/// The elements of an optional vector.
pub open spec fn opt_seq(o: Option<Vec<usize>>) -> Option<Seq<usize>> {
    match o {
        Some(v) => Some(v@),
        None => None,
    }
}

/// `Document::nodes`, `meshes`, `skins`, `materials`, `textures`,
/// `accessors` (their lengths) and the number of decoded images. Claimed: the result is
/// [`gltf_counts`] of the source bytes.
#[verifier::external_body]
fn document_counts(g: &ImportedGltf) -> (c: DocumentCounts)
    ensures
        c == gltf_counts(g@),
{
    let d = &g.document;
    DocumentCounts {
        nodes: d.nodes().len(),
        meshes: d.meshes().len(),
        skins: d.skins().len(),
        materials: d.materials().len(),
        textures: d.textures().len(),
        images: g.images.len(),
        accessors: d.accessors().len(),
    }
}

/// `Node::mesh`, `Node::skin` and `Node::children` (as document indices) of
/// node `index`. Claimed: the result is [`gltf_node`] of the source bytes.
#[verifier::external_body]
fn node_record(g: &ImportedGltf, index: usize) -> (r: (Option<usize>, Option<usize>, Vec<usize>))
    requires
        index < gltf_counts(g@).nodes,
    ensures
        (r.0, r.1, r.2@) == gltf_node(g@, index),
{
    let node = g.document.nodes().nth(index).unwrap();
    let children = node.children().map(|c| c.index()).collect();
    (node.mesh().map(|m| m.index()), node.skin().map(|s| s.index()), children)
}

/// `Node::extras` of node `index`, as text. Claimed: the result is
/// [`gltf_node_extras`] of the source bytes.
#[verifier::external_body]
fn node_extras(g: &ImportedGltf, index: usize) -> (r: Option<String>)
    requires
        index < gltf_counts(g@).nodes,
    ensures
        opt_text(r) == gltf_node_extras(g@, index),
{
    match g.document.nodes().nth(index).unwrap().extras() {
        Some(raw) => Some(raw.get().to_string()),
        None => None,
    }
}

/// `Document::default_scene` and its `Scene::nodes` (as document indices).
/// Claimed: the result is [`gltf_scene_roots`] of the source bytes.
#[verifier::external_body]
fn scene_roots(g: &ImportedGltf) -> (r: Option<Vec<usize>>)
    ensures
        opt_seq(r) == gltf_scene_roots(g@),
{
    match g.document.default_scene() {
        Some(scene) => Some(scene.nodes().map(|n| n.index()).collect()),
        None => None,
    }
}

/// `Mesh::extras` of mesh `index`, as text. Claimed: the result is
/// [`gltf_mesh_extras`] of the source bytes.
#[verifier::external_body]
fn mesh_extras(g: &ImportedGltf, index: usize) -> (r: Option<String>)
    requires
        index < gltf_counts(g@).meshes,
    ensures
        opt_text(r) == gltf_mesh_extras(g@, index),
{
    match g.document.meshes().nth(index).unwrap().extras() {
        Some(raw) => Some(raw.get().to_string()),
        None => None,
    }
}

/// `Mesh::primitives` of mesh `index`, counted. Claimed: the result is
/// [`gltf_primitive_count`] of the source bytes.
#[verifier::external_body]
fn primitive_count(g: &ImportedGltf, index: usize) -> (n: usize)
    requires
        index < gltf_counts(g@).meshes,
    ensures
        n == gltf_primitive_count(g@, index),
{
    g.document.meshes().nth(index).unwrap().primitives().len()
}

/// Bytes of one component.
pub open spec fn component_size(kind: ComponentKind) -> nat {
    match kind {
        ComponentKind::I8 | ComponentKind::U8 => 1,
        ComponentKind::I16 | ComponentKind::U16 => 2,
        ComponentKind::U32 | ComponentKind::F32 => 4,
    }
}

/// The item size a stream's reader reads an accessor of `kind` with, or
/// `None` when the reader does not take that component type: positions and
/// normals are three floats and tangents four whatever the component type;
/// indices are one unsigned integer; joints four `u8` or `u16`; texture
/// coordinates two and weights four `u8`, `u16` or `f32`.
pub open spec fn stream_item_size(u: StreamUse, kind: ComponentKind) -> Option<nat> {
    match u {
        StreamUse::Position | StreamUse::Normal => Some(12),
        StreamUse::Tangent => Some(16),
        StreamUse::Index => match kind {
            ComponentKind::U8 | ComponentKind::U16 | ComponentKind::U32 => Some(component_size(kind)),
            _ => None,
        },
        StreamUse::Joint => match kind {
            ComponentKind::U8 | ComponentKind::U16 => Some(4 * component_size(kind)),
            _ => None,
        },
        StreamUse::TexCoord => match kind {
            ComponentKind::U8 | ComponentKind::U16 | ComponentKind::F32 => Some(2 * component_size(kind)),
            _ => None,
        },
        StreamUse::Weight => match kind {
            ComponentKind::U8 | ComponentKind::U16 | ComponentKind::F32 => Some(4 * component_size(kind)),
            _ => None,
        },
    }
}

/// The distance between items: the view's stride, or the item size.
pub open spec fn effective_stride(l: AccessorLayout) -> int {
    match l.stride {
        Some(s) => s as int,
        None => l.size as int,
    }
}

/// Whether an accessor with layout `l` can be read item by item with items
/// of `item` bytes: it is not sparse, its items have that size, it has at
/// least one item, the stride is no smaller than an item, and the byte ranges
/// of its items and of its view do not pass `usize::MAX`.
pub open spec fn layout_readable(l: AccessorLayout, item: nat) -> bool {
    &&& !l.sparse
    &&& l.size == item
    &&& l.count >= 1
    &&& effective_stride(l) >= item
    &&& (l.view is Some ==> l.offset + effective_stride(l) * (l.count - 1) + item <= usize::MAX)
    &&& (l.view matches Some(v) ==> v.offset + v.length <= usize::MAX)
}

/// Whether accessor `index` of the document parsed from `source` can be read
/// as stream `u`.
pub open spec fn accessor_readable(source: Seq<u8>, index: usize, u: StreamUse) -> bool {
    &&& index < gltf_counts(source).accessors
    &&& match stream_item_size(u, gltf_accessor_kind(source, index)) {
        Some(item) => layout_readable(gltf_accessor_layout(source, index), item),
        None => false,
    }
}

/// Whether an optional stream can be read (an absent one always can).
pub open spec fn stream_readable(source: Seq<u8>, a: Option<usize>, u: StreamUse) -> bool {
    match a {
        Some(index) => accessor_readable(source, index, u),
        None => true,
    }
}

/// Whether every stream of primitive `primitive` of mesh `mesh` can be read.
pub open spec fn primitive_readable(source: Seq<u8>, mesh: usize, primitive: usize) -> bool {
    let a = gltf_primitive_accessors(source, mesh, primitive);
    &&& stream_readable(source, a.positions, StreamUse::Position)
    &&& stream_readable(source, a.indices, StreamUse::Index)
    &&& stream_readable(source, a.tex_coords, StreamUse::TexCoord)
    &&& stream_readable(source, a.normals, StreamUse::Normal)
    &&& stream_readable(source, a.tangents, StreamUse::Tangent)
    &&& stream_readable(source, a.joints, StreamUse::Joint)
    &&& stream_readable(source, a.weights, StreamUse::Weight)
}

/// Whether every primitive of every mesh can be read.
pub open spec fn all_primitives_readable(source: Seq<u8>) -> bool {
    forall|m: usize, p: usize|
        m < gltf_counts(source).meshes && p < gltf_primitive_count(source, m) ==> #[trigger] primitive_readable(
            source,
            m,
            p,
        )
}

/// Components per item that a stream's reader reads: three for positions
/// and normals, four for tangents, joints and weights, two for texture
/// coordinates, one for indices.
pub open spec fn reader_components(u: StreamUse) -> nat {
    match u {
        StreamUse::Position | StreamUse::Normal => 3,
        StreamUse::Tangent | StreamUse::Joint | StreamUse::Weight => 4,
        StreamUse::TexCoord => 2,
        StreamUse::Index => 1,
    }
}

/// Whether a stream's reader takes components of `kind`: positions,
/// normals and tangents are read as floats whatever the type; indices take
/// unsigned bytes, shorts and ints; joints unsigned bytes and shorts;
/// texture coordinates and weights unsigned bytes, shorts and floats.
pub open spec fn reader_takes(u: StreamUse, kind: ComponentKind) -> bool {
    match u {
        StreamUse::Position | StreamUse::Normal | StreamUse::Tangent => true,
        StreamUse::Index => kind is U8 || kind is U16 || kind is U32,
        StreamUse::Joint => kind is U8 || kind is U16,
        StreamUse::TexCoord | StreamUse::Weight => kind is U8 || kind is U16 || kind is F32,
    }
}

/// Bytes of one item a stream's reader reads from components of `kind`.
pub open spec fn reader_item_size(u: StreamUse, kind: ComponentKind) -> nat {
    reader_components(u) * match u {
        StreamUse::Position | StreamUse::Normal | StreamUse::Tangent => 4,
        _ => component_size(kind),
    }
}

/// A stream accepts exactly the component types its reader takes, and reads
/// items of that many components of that size (so joints of `u8` take 4
/// bytes and joints of `u16` 8).
pub proof fn stream_items_match_reader(u: StreamUse, kind: ComponentKind)
    ensures
        reader_takes(u, kind) ==> stream_item_size(u, kind) == Some(reader_item_size(u, kind)),
        !reader_takes(u, kind) ==> stream_item_size(u, kind) is None,
{
}

/// An accessor whose component type the stream's reader takes, whose items
/// have the reader's item size and whose layout is sound can be read as that
/// stream.
pub proof fn reader_types_are_readable(source: Seq<u8>, index: usize, u: StreamUse)
    requires
        index < gltf_counts(source).accessors,
        reader_takes(u, gltf_accessor_kind(source, index)),
        layout_readable(
            gltf_accessor_layout(source, index),
            reader_item_size(u, gltf_accessor_kind(source, index)),
        ),
    ensures
        accessor_readable(source, index, u),
{
    stream_items_match_reader(u, gltf_accessor_kind(source, index));
}

/// Which layouts can be read: a non-sparse accessor of at least one item
/// whose items have the reader's size, whose stride (the view's, or tight
/// packing) is no smaller than an item, and whose byte ranges stay within
/// `usize`; tightly packed and interleaved layouts alike.
pub proof fn readable_layouts(l: AccessorLayout, item: nat)
    ensures
        layout_readable(l, item) <==> {
            let stride: int = match l.stride {
                Some(s) => s as int,
                None => item as int,
            };
            &&& !l.sparse
            &&& l.size == item
            &&& l.count >= 1
            &&& stride >= item
            &&& (l.view is Some ==> l.offset + stride * (l.count - 1) + item <= usize::MAX)
            &&& (l.view matches Some(v) ==> v.offset + v.length <= usize::MAX)
        },
{
}

/// `Primitive::get` for POSITION, TEXCOORD_0 and NORMAL, and
/// `Primitive::indices`, as accessor indices. Claimed: the result is
/// [`gltf_primitive_main_accessors`] of the source bytes.
#[verifier::external_body]
fn primitive_main_accessors(g: &ImportedGltf, mesh: usize, primitive: usize) -> (r: (
    Option<usize>,
    Option<usize>,
    Option<usize>,
    Option<usize>,
))
    requires
        mesh < gltf_counts(g@).meshes,
        primitive < gltf_primitive_count(g@, mesh),
    ensures
        r == gltf_primitive_main_accessors(g@, mesh, primitive),
{
    let prim = g.document.meshes().nth(mesh).unwrap().primitives().nth(primitive).unwrap();
    (
        prim.get(&gltf::Semantic::Positions).map(|a| a.index()),
        prim.indices().map(|a| a.index()),
        prim.get(&gltf::Semantic::TexCoords(0)).map(|a| a.index()),
        prim.get(&gltf::Semantic::Normals).map(|a| a.index()),
    )
}

/// `Primitive::get` for TANGENT, JOINTS_0 and WEIGHTS_0, as accessor
/// indices. Claimed: the result is [`gltf_primitive_extra_accessors`] of the
/// source bytes.
#[verifier::external_body]
fn primitive_extra_accessors(g: &ImportedGltf, mesh: usize, primitive: usize) -> (r: (
    Option<usize>,
    Option<usize>,
    Option<usize>,
))
    requires
        mesh < gltf_counts(g@).meshes,
        primitive < gltf_primitive_count(g@, mesh),
    ensures
        r == gltf_primitive_extra_accessors(g@, mesh, primitive),
{
    let prim = g.document.meshes().nth(mesh).unwrap().primitives().nth(primitive).unwrap();
    (
        prim.get(&gltf::Semantic::Tangents).map(|a| a.index()),
        prim.get(&gltf::Semantic::Joints(0)).map(|a| a.index()),
        prim.get(&gltf::Semantic::Weights(0)).map(|a| a.index()),
    )
}

/// `Accessor::data_type` of accessor `index`. Claimed: the result is
/// [`gltf_accessor_kind`] of the source bytes.
#[verifier::external_body]
fn accessor_kind(g: &ImportedGltf, index: usize) -> (k: ComponentKind)
    requires
        index < gltf_counts(g@).accessors,
    ensures
        k == gltf_accessor_kind(g@, index),
{
    match g.document.accessors().nth(index).unwrap().data_type() {
        gltf::accessor::DataType::I8 => ComponentKind::I8,
        gltf::accessor::DataType::U8 => ComponentKind::U8,
        gltf::accessor::DataType::I16 => ComponentKind::I16,
        gltf::accessor::DataType::U16 => ComponentKind::U16,
        gltf::accessor::DataType::U32 => ComponentKind::U32,
        gltf::accessor::DataType::F32 => ComponentKind::F32,
    }
}

/// `Accessor::size`, `count`, `offset`, `sparse` of accessor `index`, and
/// its view's `stride`, `offset` and `length`. Claimed: the result is
/// [`gltf_accessor_layout`] of the source bytes.
#[verifier::external_body]
fn accessor_layout(g: &ImportedGltf, index: usize) -> (l: AccessorLayout)
    requires
        index < gltf_counts(g@).accessors,
    ensures
        l == gltf_accessor_layout(g@, index),
{
    let a = g.document.accessors().nth(index).unwrap();
    AccessorLayout {
        size: a.size(),
        count: a.count(),
        offset: a.offset(),
        stride: a.view().and_then(|v| v.stride()),
        view: a.view().map(|v| ViewRange { offset: v.offset(), length: v.length() }),
        sparse: a.sparse().is_some(),
    }
}

fn item_size(u: StreamUse, kind: ComponentKind) -> (r: Option<usize>)
    ensures
        match r {
            Some(n) => stream_item_size(u, kind) == Some(n as nat),
            None => stream_item_size(u, kind) is None,
        },
{
    let c: usize = match kind {
        ComponentKind::I8 | ComponentKind::U8 => 1,
        ComponentKind::I16 | ComponentKind::U16 => 2,
        ComponentKind::U32 | ComponentKind::F32 => 4,
    };
    match u {
        StreamUse::Position | StreamUse::Normal => Some(12),
        StreamUse::Tangent => Some(16),
        StreamUse::Index => match kind {
            ComponentKind::U8 | ComponentKind::U16 | ComponentKind::U32 => Some(c),
            _ => None,
        },
        StreamUse::Joint => match kind {
            ComponentKind::U8 | ComponentKind::U16 => Some(4 * c),
            _ => None,
        },
        StreamUse::TexCoord => match kind {
            ComponentKind::U8 | ComponentKind::U16 | ComponentKind::F32 => Some(2 * c),
            _ => None,
        },
        StreamUse::Weight => match kind {
            ComponentKind::U8 | ComponentKind::U16 | ComponentKind::F32 => Some(4 * c),
            _ => None,
        },
    }
}

/// Whether an accessor with layout `l` can be read with items of `item` bytes.
pub fn check_layout(l: AccessorLayout, item: usize) -> (b: bool)
    ensures
        b == layout_readable(l, item as nat),
{
    if l.sparse || l.size != item || l.count < 1 {
        return false;
    }
    let stride = match l.stride {
        Some(s) => s,
        None => l.size,
    };
    if stride < item {
        return false;
    }
    if let Some(v) = l.view {
        if v.offset > usize::MAX - v.length {
            return false;
        }
        match stride.checked_mul(l.count - 1) {
            None => {
                assert(stride * (l.count - 1) >= 0) by (nonlinear_arith)
                    requires
                        stride >= 0,
                        l.count >= 1,
                ;
                return false;
            },
            Some(span) => {
                if span > usize::MAX - l.offset || span + l.offset > usize::MAX - item {
                    return false;
                }
            },
        }
    }
    true
}

fn check_stream(g: &ImportedGltf, a: Option<usize>, u: StreamUse, accessor_count: usize) -> (b: bool)
    requires
        accessor_count == gltf_counts(g@).accessors,
    ensures
        b == stream_readable(g@, a, u),
{
    match a {
        None => true,
        Some(index) => {
            if index >= accessor_count {
                return false;
            }
            match item_size(u, accessor_kind(g, index)) {
                None => false,
                Some(item) => check_layout(accessor_layout(g, index), item),
            }
        },
    }
}

fn check_primitive(g: &ImportedGltf, mesh: usize, primitive: usize, accessor_count: usize) -> (b: bool)
    requires
        mesh < gltf_counts(g@).meshes,
        primitive < gltf_primitive_count(g@, mesh),
        accessor_count == gltf_counts(g@).accessors,
    ensures
        b == primitive_readable(g@, mesh, primitive),
{
    let (positions, indices, tex_coords, normals) = primitive_main_accessors(g, mesh, primitive);
    let (tangents, joints, weights) = primitive_extra_accessors(g, mesh, primitive);
    check_stream(g, positions, StreamUse::Position, accessor_count)
        && check_stream(g, indices, StreamUse::Index, accessor_count)
        && check_stream(g, tex_coords, StreamUse::TexCoord, accessor_count)
        && check_stream(g, normals, StreamUse::Normal, accessor_count)
        && check_stream(g, tangents, StreamUse::Tangent, accessor_count)
        && check_stream(g, joints, StreamUse::Joint, accessor_count)
        && check_stream(g, weights, StreamUse::Weight, accessor_count)
}

/// `Primitive::material` and the primitive's `Reader`: the number of items
/// that `read_positions`, `read_indices`, `read_tex_coords(0)` and
/// `read_normals` yield. Claimed: the result is [`gltf_primitive_geometry`]
/// of the source bytes.
#[verifier::external_body]
fn primitive_geometry(g: &ImportedGltf, mesh: usize, primitive: usize) -> (r: (
    Option<usize>,
    Option<usize>,
    Option<usize>,
    Option<usize>,
    Option<usize>,
))
    requires
        mesh < gltf_counts(g@).meshes,
        primitive < gltf_primitive_count(g@, mesh),
        primitive_readable(g@, mesh, primitive),
    ensures
        r == gltf_primitive_geometry(g@, mesh, primitive),
{
    let prim = g.document.meshes().nth(mesh).unwrap().primitives().nth(primitive).unwrap();
    let reader = prim.reader(|b| Some(&g.buffers[b.index()]));
    (
        prim.material().index(),
        reader.read_positions().map(|s| s.count()),
        reader.read_indices().map(|s| s.into_u32().count()),
        reader.read_tex_coords(0).map(|s| s.into_f32().count()),
        reader.read_normals().map(|s| s.count()),
    )
}

/// The primitive's `Reader`: the number of items that `read_tangents`,
/// `read_joints(0)` and `read_weights(0)` yield. Claimed: the result is
/// [`gltf_primitive_extra_streams`] of the source bytes.
#[verifier::external_body]
fn primitive_extra_streams(g: &ImportedGltf, mesh: usize, primitive: usize) -> (r: (
    Option<usize>,
    Option<usize>,
    Option<usize>,
))
    requires
        mesh < gltf_counts(g@).meshes,
        primitive < gltf_primitive_count(g@, mesh),
        primitive_readable(g@, mesh, primitive),
    ensures
        r == gltf_primitive_extra_streams(g@, mesh, primitive),
{
    let prim = g.document.meshes().nth(mesh).unwrap().primitives().nth(primitive).unwrap();
    let reader = prim.reader(|b| Some(&g.buffers[b.index()]));
    (
        reader.read_tangents().map(|s| s.count()),
        reader.read_joints(0).map(|s| s.into_u16().count()),
        reader.read_weights(0).map(|s| s.into_f32().count()),
    )
}

/// `Skin::joints` and `Skin::skeleton` of skin `index` (as document
/// indices). Claimed: the result is [`gltf_skin`] of the source bytes.
#[verifier::external_body]
fn skin_record(g: &ImportedGltf, index: usize) -> (r: SourceSkin)
    requires
        index < gltf_counts(g@).skins,
    ensures
        (r.joints@, r.skeleton) == gltf_skin(g@, index),
{
    let skin = g.document.skins().nth(index).unwrap();
    SourceSkin {
        joints: skin.joints().map(|j| j.index()).collect(),
        skeleton: skin.skeleton().map(|n| n.index()),
    }
}

/// The image that each texture slot of material `index` samples
/// (`texture().source().index()`) and `Material::double_sided`. Claimed: the
/// result is [`gltf_material`] of the source bytes.
#[verifier::external_body]
fn material_record(g: &ImportedGltf, index: usize) -> (r: DocMaterial)
    requires
        index < gltf_counts(g@).materials,
    ensures
        r == gltf_material(g@, index),
{
    let m = g.document.materials().nth(index).unwrap();
    let pbr = m.pbr_metallic_roughness();
    DocMaterial {
        base_color_texture: pbr.base_color_texture().map(|t| t.texture().source().index()),
        metallic_roughness_texture: pbr.metallic_roughness_texture().map(|t| t.texture().source().index()),
        normal_texture: m.normal_texture().map(|t| t.texture().source().index()),
        emissive_texture: m.emissive_texture().map(|t| t.texture().source().index()),
        double_sided: m.double_sided(),
    }
}

/// `image::Data::format` of decoded image `index`. Claimed: the result is
/// [`gltf_image_format`] of the source bytes.
#[verifier::external_body]
fn image_format(g: &ImportedGltf, index: usize) -> (f: PixelFormat)
    requires
        index < gltf_counts(g@).images,
    ensures
        f == gltf_image_format(g@, index),
{
    match g.images[index].format {
        gltf::image::Format::R8 => PixelFormat::R8,
        gltf::image::Format::R8G8 => PixelFormat::R8G8,
        gltf::image::Format::R8G8B8 => PixelFormat::R8G8B8,
        gltf::image::Format::R8G8B8A8 => PixelFormat::R8G8B8A8,
        gltf::image::Format::R16 => PixelFormat::R16,
        gltf::image::Format::R16G16 => PixelFormat::R16G16,
        gltf::image::Format::R16G16B16 => PixelFormat::R16G16B16,
        gltf::image::Format::R16G16B16A16 => PixelFormat::R16G16B16A16,
        gltf::image::Format::R32G32B32FLOAT => PixelFormat::R32G32B32Float,
        gltf::image::Format::R32G32B32A32FLOAT => PixelFormat::R32G32B32A32Float,
    }
}

/// `image::Data::width`, `height` and `pixels` of decoded image `index`.
/// Claimed: the result is [`gltf_image`] of the source bytes.
#[verifier::external_body]
fn image_record(g: &ImportedGltf, index: usize) -> (r: (u32, u32, Vec<u8>))
    requires
        index < gltf_counts(g@).images,
    ensures
        (r.0, r.1, r.2@) == gltf_image(g@, index),
{
    let image = &g.images[index];
    (image.width, image.height, image.pixels.clone())
}

impl ImportedGltf {
    /// The document parsed from the source bytes.
    pub closed spec fn parsed_document(&self) -> gltf::Document {
        self.document
    }

    /// The buffers loaded with the document.
    pub closed spec fn loaded_buffers(&self) -> Seq<gltf::buffer::Data> {
        self.buffers@
    }

    /// The parsed document.
    pub fn document(&self) -> (d: &gltf::Document)
        ensures
            *d == self.parsed_document(),
    {
        &self.document
    }

    /// The contents of the document's buffers, in document order.
    pub fn buffers(&self) -> (b: &Vec<gltf::buffer::Data>)
        ensures
            b@ == self.loaded_buffers(),
    {
        &self.buffers
    }
}

// ---------------------------------------------------------------------------
// Parsing in stages
// ---------------------------------------------------------------------------

/// A document parsed from bytes, not yet validated, with the binary chunk of
/// a binary asset; its view is the bytes.
struct ParsedGltf {
    document: gltf::Document,
    blob: Option<Vec<u8>>,
    source: Ghost<Seq<u8>>,
}

impl View for ParsedGltf {
    type V = Seq<u8>;

    closed spec fn view(&self) -> Seq<u8> {
        self.source@
    }
}

/// A validated document with the binary chunk of a binary asset; its view
/// is the bytes it was parsed from.
struct ValidGltf {
    document: gltf::Document,
    blob: Option<Vec<u8>>,
    source: Ghost<Seq<u8>>,
}

impl View for ValidGltf {
    type V = Seq<u8>;

    closed spec fn view(&self) -> Seq<u8> {
        self.source@
    }
}

/// A validated document with its buffers loaded; its view is the bytes it
/// was parsed from.
struct LoadedGltf {
    document: gltf::Document,
    buffers: Vec<gltf::buffer::Data>,
    source: Ghost<Seq<u8>>,
}

impl View for LoadedGltf {
    type V = Seq<u8>;

    closed spec fn view(&self) -> Seq<u8> {
        self.source@
    }
}

/// Numbers of meshes, accessors, images and buffers in a document's JSON.
#[derive(Debug, PartialEq, Eq, Structural, Copy, Clone)]
pub struct RawCounts {
    pub meshes: usize,
    pub accessors: usize,
    pub images: usize,
    pub buffers: usize,
}

/// Which of `bufferView`, `mimeType` and `uri` an image's JSON sets.
#[derive(Debug, PartialEq, Eq, Structural, Copy, Clone)]
pub struct ImageSourceFields {
    pub has_view: bool,
    pub has_mime_type: bool,
    pub has_uri: bool,
}

/// The buffer, offset and length of the view an image is stored in.
#[derive(Debug, PartialEq, Eq, Structural, Copy, Clone)]
pub struct ImageBytes {
    pub buffer: usize,
    pub offset: usize,
    pub length: usize,
}

/// Whether the bytes parse as a glTF document (JSON, or binary glTF),
/// before validation.
pub uninterp spec fn gltf_parses(source: Seq<u8>) -> bool;

/// Counts in the JSON of the document parsed from `source`.
pub uninterp spec fn gltf_raw_counts(source: Seq<u8>) -> RawCounts;

/// Number of primitives in the JSON of mesh `mesh`.
pub uninterp spec fn gltf_raw_primitive_count(source: Seq<u8>, mesh: usize) -> usize;

/// The accessor index that the JSON of a primitive gives for POSITION.
pub uninterp spec fn gltf_raw_position_accessor(source: Seq<u8>, mesh: usize, primitive: usize) -> Option<usize>;

/// Which source fields the JSON of image `index` sets.
pub uninterp spec fn gltf_raw_image_source(source: Seq<u8>, index: usize) -> ImageSourceFields;

/// Whether the parsed document passes the `gltf` crate's validation.
pub uninterp spec fn gltf_valid(source: Seq<u8>) -> bool;

/// The bytes of the URI of buffer `index`, if it has one.
pub uninterp spec fn gltf_buffer_uri(source: Seq<u8>, index: usize) -> Option<Seq<u8>>;

/// Whether the document's buffers load.
pub uninterp spec fn gltf_buffers_load(source: Seq<u8>) -> bool;

/// The loaded length of buffer `index`.
pub uninterp spec fn gltf_buffer_len(source: Seq<u8>, index: usize) -> usize;

/// Where image `index` is stored, when it is stored in a buffer view.
pub uninterp spec fn gltf_image_bytes(source: Seq<u8>, index: usize) -> Option<ImageBytes>;

/// Whether the document's images decode.
pub uninterp spec fn gltf_images_load(source: Seq<u8>) -> bool;

/// The length field of a binary glTF header (little-endian bytes 8 to 11).
pub open spec fn glb_length_field(b: Seq<u8>) -> int {
    b[8] + 256 * b[9] + 65536 * b[10] + 16777216 * b[11]
}

/// Bytes that start like binary glTF ("glTF" and a full header) carry a
/// length of at least the header's 12 bytes.
pub open spec fn glb_length_ok(b: Seq<u8>) -> bool {
    !(b.len() >= 12 && b[0] == 0x67u8 && b[1] == 0x6cu8 && b[2] == 0x54u8 && b[3] == 0x46u8
        && glb_length_field(b) < 12)
}

/// An optional index is below `n`.
pub open spec fn index_below(o: Option<usize>, n: usize) -> bool {
    match o {
        Some(k) => k < n,
        None => true,
    }
}

/// Every POSITION attribute names an existing accessor.
pub open spec fn positions_indexed(b: Seq<u8>) -> bool {
    let c = gltf_raw_counts(b);
    forall|m: usize, q: usize|
        m < c.meshes && q < gltf_raw_primitive_count(b, m) ==> index_below(
            #[trigger] gltf_raw_position_accessor(b, m, q),
            c.accessors,
        )
}

/// Every image stored in a buffer view names its MIME type, and every other
/// image has a URI.
pub open spec fn image_sources_ok(b: Seq<u8>) -> bool {
    forall|i: usize|
        i < gltf_raw_counts(b).images ==> {
            let f = #[trigger] gltf_raw_image_source(b, i);
            if f.has_view {
                f.has_mime_type
            } else {
                f.has_uri
            }
        }
}

/// A URI names a scheme (holds a ':').
pub open spec fn uri_has_scheme(o: Option<Seq<u8>>) -> bool {
    match o {
        Some(u) => u.contains(0x3au8),
        None => true,
    }
}

/// Every buffer URI names a scheme.
pub open spec fn buffer_uris_have_scheme(b: Seq<u8>) -> bool {
    forall|k: usize| k < gltf_raw_counts(b).buffers ==> uri_has_scheme(#[trigger] gltf_buffer_uri(b, k))
}

/// The bytes of an image stored in a buffer view lie inside that buffer.
pub open spec fn image_bytes_inside(b: Seq<u8>, o: Option<ImageBytes>) -> bool {
    match o {
        Some(v) => v.buffer < gltf_raw_counts(b).buffers && v.offset + v.length <= gltf_buffer_len(
            b,
            v.buffer,
        ),
        None => true,
    }
}

/// Every image stored in a buffer view lies inside its buffer.
pub open spec fn image_views_inside(b: Seq<u8>) -> bool {
    forall|i: usize| i < gltf_raw_counts(b).images ==> image_bytes_inside(b, #[trigger] gltf_image_bytes(b, i))
}

/// Whether an asset imports: each check is made before the step it guards,
/// and each step of the `gltf` crate succeeds.
pub open spec fn gltf_import_succeeds(b: Seq<u8>) -> bool {
    &&& glb_length_ok(b)
    &&& gltf_parses(b)
    &&& positions_indexed(b)
    &&& image_sources_ok(b)
    &&& gltf_valid(b)
    &&& buffer_uris_have_scheme(b)
    &&& gltf_buffers_load(b)
    &&& image_views_inside(b)
    &&& gltf_images_load(b)
}

/// `gltf::Gltf::from_slice_without_validation`: parses JSON or binary glTF.
/// Claimed: it succeeds exactly when [`gltf_parses`] holds of the bytes.
/// The header check it requires leaves out binary headers whose length
/// field is below 12, on which its length subtraction overflows.
#[verifier::external_body]
fn parse_unvalidated(bytes: &[u8]) -> (r: Option<(gltf::Document, Option<Vec<u8>>)>)
    requires
        glb_length_ok(bytes@),
    ensures
        r is Some == gltf_parses(bytes@),
{
    match gltf::Gltf::from_slice_without_validation(bytes) {
        Ok(g) => Some((g.document, g.blob)),
        Err(_) => None,
    }
}

/// `Document::as_json`: the lengths of its `meshes`, `accessors`, `images`
/// and `buffers`. Claimed: the result is [`gltf_raw_counts`] of the bytes.
#[verifier::external_body]
fn raw_counts(p: &ParsedGltf) -> (c: RawCounts)
    ensures
        c == gltf_raw_counts(p@),
{
    let j = p.document.as_json();
    RawCounts {
        meshes: j.meshes.len(),
        accessors: j.accessors.len(),
        images: j.images.len(),
        buffers: j.buffers.len(),
    }
}

/// The length of `primitives` in the JSON of mesh `mesh`. Claimed: the
/// result is [`gltf_raw_primitive_count`] of the bytes.
#[verifier::external_body]
fn raw_primitive_count(p: &ParsedGltf, mesh: usize) -> (n: usize)
    requires
        mesh < gltf_raw_counts(p@).meshes,
    ensures
        n == gltf_raw_primitive_count(p@, mesh),
{
    p.document.as_json().meshes[mesh].primitives.len()
}

/// The POSITION entry of a primitive's JSON `attributes`. Claimed: the
/// result is [`gltf_raw_position_accessor`] of the bytes.
#[verifier::external_body]
fn raw_position_accessor(p: &ParsedGltf, mesh: usize, primitive: usize) -> (r: Option<usize>)
    requires
        mesh < gltf_raw_counts(p@).meshes,
        primitive < gltf_raw_primitive_count(p@, mesh),
    ensures
        r == gltf_raw_position_accessor(p@, mesh, primitive),
{
    let attributes = &p.document.as_json().meshes[mesh].primitives[primitive].attributes;
    let key = gltf::json::validation::Checked::Valid(gltf::json::mesh::Semantic::Positions);
    attributes.get(&key).map(|i| i.value())
}

/// Whether the JSON of image `index` sets `bufferView`, `mimeType` and
/// `uri`. Claimed: the result is [`gltf_raw_image_source`] of the bytes.
#[verifier::external_body]
fn raw_image_source(p: &ParsedGltf, index: usize) -> (f: ImageSourceFields)
    requires
        index < gltf_raw_counts(p@).images,
    ensures
        f == gltf_raw_image_source(p@, index),
{
    let image = &p.document.as_json().images[index];
    ImageSourceFields {
        has_view: image.buffer_view.is_some(),
        has_mime_type: image.mime_type.is_some(),
        has_uri: image.uri.is_some(),
    }
}

/// `Document::from_json` on the parsed JSON: the `gltf` crate's validation.
/// Claimed: it succeeds exactly when [`gltf_valid`] holds of the bytes, and
/// the document keeps its JSON. Its POSITION check indexes the accessors
/// directly, hence the requirement.
#[verifier::external_body]
fn validate(p: ParsedGltf) -> (r: Option<ValidGltf>)
    requires
        positions_indexed(p@),
    ensures
        r is Some == gltf_valid(p@),
        r matches Some(v) ==> v@ == p@,
{
    match gltf::Document::from_json(p.document.into_json()) {
        Ok(document) => Some(ValidGltf { document, blob: p.blob, source: p.source }),
        Err(_) => None,
    }
}

/// The `uri` of buffer `index` in the document's JSON, as bytes. Claimed:
/// the result is [`gltf_buffer_uri`] of the bytes.
#[verifier::external_body]
fn buffer_uri(v: &ValidGltf, index: usize) -> (r: Option<Vec<u8>>)
    requires
        index < gltf_raw_counts(v@).buffers,
    ensures
        match r {
            Some(u) => gltf_buffer_uri(v@, index) == Some(u@),
            None => gltf_buffer_uri(v@, index) is None,
        },
{
    match &v.document.as_json().buffers[index].uri {
        Some(uri) => Some(uri.as_bytes().to_vec()),
        None => None,
    }
}

/// `gltf::import_buffers` with no base path: decodes `data:` URIs and takes
/// the binary chunk. Claimed: it succeeds exactly when [`gltf_buffers_load`]
/// holds of the bytes, with one buffer per document buffer. A URI without a
/// scheme would be percent-decoded with an `unwrap`, hence the requirement.
#[verifier::external_body]
fn load_buffers(v: ValidGltf) -> (r: Option<LoadedGltf>)
    requires
        buffer_uris_have_scheme(v@),
    ensures
        r is Some == gltf_buffers_load(v@),
        r matches Some(l) ==> l@ == v@,
{
    match gltf::import_buffers(&v.document, None, v.blob) {
        Ok(buffers) => Some(LoadedGltf { document: v.document, buffers, source: v.source }),
        Err(_) => None,
    }
}

/// The length of loaded buffer `index`. Claimed: the result is
/// [`gltf_buffer_len`] of the bytes.
#[verifier::external_body]
fn buffer_len(l: &LoadedGltf, index: usize) -> (n: usize)
    requires
        index < gltf_raw_counts(l@).buffers,
    ensures
        n == gltf_buffer_len(l@, index),
{
    l.buffers[index].len()
}

/// `Image::source` of image `index`: for an image stored in a buffer view,
/// the view's `buffer().index()`, `offset` and `length`. Claimed: the result
/// is [`gltf_image_bytes`] of the bytes. `source` unwraps the MIME type of a
/// view image and the URI of any other, hence the requirement.
#[verifier::external_body]
fn image_bytes(l: &LoadedGltf, index: usize) -> (r: Option<ImageBytes>)
    requires
        index < gltf_raw_counts(l@).images,
        image_sources_ok(l@),
    ensures
        r == gltf_image_bytes(l@, index),
{
    match l.document.images().nth(index).unwrap().source() {
        gltf::image::Source::View { view, .. } => Some(
            ImageBytes { buffer: view.buffer().index(), offset: view.offset(), length: view.length() },
        ),
        gltf::image::Source::Uri { .. } => None,
    }
}

/// `gltf::import_images` with no base path: decodes the PNG and JPEG images
/// stored in buffer views (images given by URI are refused). Claimed: it
/// succeeds exactly when [`gltf_images_load`] holds of the bytes. It slices
/// each image's view out of its buffer, hence the requirements. Decoding is
/// done by the `image` crate, whose decoders are taken to report malformed
/// data as errors.
#[verifier::external_body]
fn load_images(l: LoadedGltf) -> (r: Option<ImportedGltf>)
    requires
        image_sources_ok(l@),
        image_views_inside(l@),
    ensures
        r is Some == gltf_images_load(l@),
        r matches Some(g) ==> g@ == l@,
{
    match gltf::import_images(&l.document, None, &l.buffers) {
        Ok(images) => Some(ImportedGltf { document: l.document, buffers: l.buffers, images, source: l.source }),
        Err(_) => None,
    }
}

fn check_glb_length(bytes: &[u8]) -> (b: bool)
    ensures
        b == glb_length_ok(bytes@),
{
    if bytes.len() >= 12 && bytes[0] == 0x67 && bytes[1] == 0x6c && bytes[2] == 0x54 && bytes[3] == 0x46 {
        let length: u64 = bytes[8] as u64 + 256 * (bytes[9] as u64) + 65536 * (bytes[10] as u64)
            + 16777216 * (bytes[11] as u64);
        length >= 12
    } else {
        true
    }
}

fn check_positions(p: &ParsedGltf, c: RawCounts) -> (b: bool)
    requires
        c == gltf_raw_counts(p@),
    ensures
        b == positions_indexed(p@),
{
    let mut m: usize = 0;
    while m < c.meshes
        invariant
            c == gltf_raw_counts(p@),
            m <= c.meshes,
            forall|m2: usize, q: usize|
                m2 < m && q < gltf_raw_primitive_count(p@, m2) ==> index_below(
                    #[trigger] gltf_raw_position_accessor(p@, m2, q),
                    c.accessors,
                ),
        decreases c.meshes - m,
    {
        let n = raw_primitive_count(p, m);
        let mut q: usize = 0;
        while q < n
            invariant
                c == gltf_raw_counts(p@),
                m < c.meshes,
                n == gltf_raw_primitive_count(p@, m),
                q <= n,
                forall|m2: usize, q2: usize|
                    m2 < m && q2 < gltf_raw_primitive_count(p@, m2) ==> index_below(
                        #[trigger] gltf_raw_position_accessor(p@, m2, q2),
                        c.accessors,
                    ),
                forall|q2: usize|
                    q2 < q ==> index_below(#[trigger] gltf_raw_position_accessor(p@, m, q2), c.accessors),
            decreases n - q,
        {
            if let Some(a) = raw_position_accessor(p, m, q) {
                if a >= c.accessors {
                    return false;
                }
            }
            q += 1;
        }
        m += 1;
    }
    true
}

fn check_image_sources(p: &ParsedGltf, c: RawCounts) -> (b: bool)
    requires
        c == gltf_raw_counts(p@),
    ensures
        b == image_sources_ok(p@),
{
    let mut i: usize = 0;
    while i < c.images
        invariant
            c == gltf_raw_counts(p@),
            i <= c.images,
            forall|j: usize|
                j < i ==> {
                    let f = #[trigger] gltf_raw_image_source(p@, j);
                    if f.has_view {
                        f.has_mime_type
                    } else {
                        f.has_uri
                    }
                },
        decreases c.images - i,
    {
        let f = raw_image_source(p, i);
        if f.has_view && !f.has_mime_type || !f.has_view && !f.has_uri {
            return false;
        }
        i += 1;
    }
    true
}

fn contains_colon(u: &Vec<u8>) -> (b: bool)
    ensures
        b == u@.contains(0x3au8),
{
    let mut i: usize = 0;
    while i < u.len()
        invariant
            i <= u@.len(),
            forall|j: int| 0 <= j < i ==> u@[j] != 0x3au8,
        decreases u@.len() - i,
    {
        if u[i] == 0x3a {
            assert(u@[i as int] == 0x3au8);
            return true;
        }
        i += 1;
    }
    false
}

fn check_buffer_uris(v: &ValidGltf, c: RawCounts) -> (b: bool)
    requires
        c == gltf_raw_counts(v@),
    ensures
        b == buffer_uris_have_scheme(v@),
{
    let mut k: usize = 0;
    while k < c.buffers
        invariant
            c == gltf_raw_counts(v@),
            k <= c.buffers,
            forall|j: usize| j < k ==> uri_has_scheme(#[trigger] gltf_buffer_uri(v@, j)),
        decreases c.buffers - k,
    {
        if let Some(u) = buffer_uri(v, k) {
            if !contains_colon(&u) {
                return false;
            }
        }
        k += 1;
    }
    true
}

fn check_image_views(l: &LoadedGltf, c: RawCounts) -> (b: bool)
    requires
        c == gltf_raw_counts(l@),
        image_sources_ok(l@),
    ensures
        b == image_views_inside(l@),
{
    let mut i: usize = 0;
    while i < c.images
        invariant
            c == gltf_raw_counts(l@),
            image_sources_ok(l@),
            i <= c.images,
            forall|j: usize| j < i ==> image_bytes_inside(l@, #[trigger] gltf_image_bytes(l@, j)),
        decreases c.images - i,
    {
        if let Some(v) = image_bytes(l, i) {
            if v.buffer >= c.buffers {
                return false;
            }
            let n = buffer_len(l, v.buffer);
            if v.offset > n || v.length > n - v.offset {
                return false;
            }
        }
        i += 1;
    }
    true
}

/// Parses a glTF asset held in memory and loads its buffers and images,
/// through the `gltf` crate in stages; `None` when a stage refuses it or a
/// check made before a stage fails (see [`gltf_import_succeeds`]).
pub fn import_gltf(bytes: &[u8]) -> (r: Option<ImportedGltf>)
    ensures
        r is Some == gltf_import_succeeds(bytes@),
        r matches Some(g) ==> g@ == bytes@,
{
    if !check_glb_length(bytes) {
        return None;
    }
    let (document, blob) = match parse_unvalidated(bytes) {
        Some(parts) => parts,
        None => {
            return None;
        },
    };
    let parsed = ParsedGltf { document, blob, source: Ghost(bytes@) };
    let c = raw_counts(&parsed);
    if !check_positions(&parsed, c) || !check_image_sources(&parsed, c) {
        return None;
    }
    let valid = match validate(parsed) {
        Some(v) => v,
        None => {
            return None;
        },
    };
    if !check_buffer_uris(&valid, c) {
        return None;
    }
    let loaded = match load_buffers(valid) {
        Some(l) => l,
        None => {
            return None;
        },
    };
    if !check_image_views(&loaded, c) {
        return None;
    }
    load_images(loaded)
}

/// Whether `n` holds node `index` of the document parsed from `source`.
pub open spec fn node_read(n: DocNode, source: Seq<u8>, index: usize) -> bool {
    (n.mesh, n.skin, n.children@) == gltf_node(source, index)
}

/// Whether `img` holds decoded image `index` of the document parsed from
/// `source`.
pub open spec fn image_read(img: DocImage, source: Seq<u8>, index: usize) -> bool {
    &&& img.format == gltf_image_format(source, index)
    &&& (img.width, img.height, img.pixels@) == gltf_image(source, index)
}

/// Whether `s` holds the parts of the document parsed from `source` that the
/// asset logic reads.
pub open spec fn describes(s: GltfStructure, source: Seq<u8>) -> bool {
    let c = gltf_counts(source);
    &&& s.nodes@.len() == c.nodes
    &&& forall|i: int| 0 <= i < c.nodes ==> node_read(#[trigger] s.nodes@[i], source, i as usize)
    &&& s.node_extras@.len() == c.nodes
    &&& forall|i: int|
        0 <= i < c.nodes ==> opt_text(#[trigger] s.node_extras@[i]) == gltf_node_extras(
            source,
            i as usize,
        )
    &&& opt_seq(s.scene_roots) == gltf_scene_roots(source)
    &&& s.meshes@.len() == c.meshes
    &&& s.mesh_extras@.len() == c.meshes
    &&& forall|m: int|
        0 <= m < c.meshes ==> opt_text(#[trigger] s.mesh_extras@[m]) == gltf_mesh_extras(
            source,
            m as usize,
        )
    &&& forall|m: int|
        0 <= m < c.meshes ==> (#[trigger] s.meshes@[m]).primitives@.len() == gltf_primitive_count(
            source,
            m as usize,
        )
    &&& forall|m: int, p: int|
        0 <= m < c.meshes && 0 <= p < s.meshes@[m].primitives@.len()
            ==> #[trigger] s.meshes@[m].primitives@[p] == gltf_primitive(source, m as usize, p as usize)
    &&& s.skins@.len() == c.skins
    &&& forall|k: int|
        0 <= k < c.skins ==> ((#[trigger] s.skins@[k]).joints@, s.skins@[k].skeleton) == gltf_skin(
            source,
            k as usize,
        )
    &&& s.materials@.len() == c.materials
    &&& forall|k: int| 0 <= k < c.materials ==> #[trigger] s.materials@[k] == gltf_material(source, k as usize)
    &&& s.texture_count == c.textures
    &&& s.images@.len() == c.images
    &&& forall|i: int| 0 <= i < c.images ==> image_read(#[trigger] s.images@[i], source, i as usize)
}

fn read_nodes(g: &ImportedGltf, count: usize) -> (r: (Vec<DocNode>, Vec<Option<String>>))
    requires
        count == gltf_counts(g@).nodes,
    ensures
        r.0@.len() == count,
        r.1@.len() == count,
        forall|i: int| 0 <= i < count ==> node_read(#[trigger] r.0@[i], g@, i as usize),
        forall|i: int|
            0 <= i < count ==> opt_text(#[trigger] r.1@[i]) == gltf_node_extras(g@, i as usize),
{
    let mut nodes: Vec<DocNode> = Vec::new();
    let mut extras: Vec<Option<String>> = Vec::new();
    let mut i: usize = 0;
    while i < count
        invariant
            i <= count,
            count == gltf_counts(g@).nodes,
            nodes@.len() == i,
            extras@.len() == i,
            forall|j: int| 0 <= j < i ==> node_read(#[trigger] nodes@[j], g@, j as usize),
            forall|j: int|
                0 <= j < i ==> opt_text(#[trigger] extras@[j]) == gltf_node_extras(g@, j as usize),
        decreases count - i,
    {
        let (mesh, skin, children) = node_record(g, i);
        nodes.push(DocNode { mesh, skin, children });
        extras.push(node_extras(g, i));
        i += 1;
    }
    (nodes, extras)
}

fn read_mesh(g: &ImportedGltf, mesh: usize) -> (r: DocMesh)
    requires
        mesh < gltf_counts(g@).meshes,
        all_primitives_readable(g@),
    ensures
        r.primitives@.len() == gltf_primitive_count(g@, mesh),
        forall|p: int|
            0 <= p < r.primitives@.len() ==> #[trigger] r.primitives@[p] == gltf_primitive(
                g@,
                mesh,
                p as usize,
            ),
{
    let count = primitive_count(g, mesh);
    let mut primitives: Vec<DocPrimitive> = Vec::new();
    let mut p: usize = 0;
    while p < count
        invariant
            p <= count,
            mesh < gltf_counts(g@).meshes,
            count == gltf_primitive_count(g@, mesh),
            all_primitives_readable(g@),
            primitives@.len() == p,
            forall|q: int|
                0 <= q < p ==> #[trigger] primitives@[q] == gltf_primitive(g@, mesh, q as usize),
        decreases count - p,
    {
        assert(primitive_readable(g@, mesh, p));
        let (material, positions, indices, tex_coords, normals) = primitive_geometry(g, mesh, p);
        let (tangents, joints, weights) = primitive_extra_streams(g, mesh, p);
        primitives.push(
            DocPrimitive { material, positions, indices, tex_coords, normals, tangents, joints, weights },
        );
        p += 1;
    }
    DocMesh { primitives }
}

fn read_meshes(g: &ImportedGltf, count: usize) -> (r: (Vec<DocMesh>, Vec<Option<String>>))
    requires
        count == gltf_counts(g@).meshes,
        all_primitives_readable(g@),
    ensures
        r.0@.len() == count,
        r.1@.len() == count,
        forall|m: int|
            0 <= m < count ==> (#[trigger] r.0@[m]).primitives@.len() == gltf_primitive_count(
                g@,
                m as usize,
            ),
        forall|m: int, p: int|
            0 <= m < count && 0 <= p < r.0@[m].primitives@.len() ==> #[trigger] r.0@[m].primitives@[p]
                == gltf_primitive(g@, m as usize, p as usize),
        forall|m: int|
            0 <= m < count ==> opt_text(#[trigger] r.1@[m]) == gltf_mesh_extras(g@, m as usize),
{
    let mut meshes: Vec<DocMesh> = Vec::new();
    let mut extras: Vec<Option<String>> = Vec::new();
    let mut m: usize = 0;
    while m < count
        invariant
            m <= count,
            count == gltf_counts(g@).meshes,
            all_primitives_readable(g@),
            meshes@.len() == m,
            extras@.len() == m,
            forall|k: int|
                0 <= k < m ==> (#[trigger] meshes@[k]).primitives@.len() == gltf_primitive_count(
                    g@,
                    k as usize,
                ),
            forall|k: int, p: int|
                0 <= k < m && 0 <= p < meshes@[k].primitives@.len()
                    ==> #[trigger] meshes@[k].primitives@[p] == gltf_primitive(g@, k as usize, p as usize),
            forall|k: int| 0 <= k < m ==> opt_text(#[trigger] extras@[k]) == gltf_mesh_extras(g@, k as usize),
        decreases count - m,
    {
        meshes.push(read_mesh(g, m));
        extras.push(mesh_extras(g, m));
        m += 1;
    }
    (meshes, extras)
}

fn read_skins(g: &ImportedGltf, count: usize) -> (r: Vec<SourceSkin>)
    requires
        count == gltf_counts(g@).skins,
    ensures
        r@.len() == count,
        forall|k: int|
            0 <= k < count ==> ((#[trigger] r@[k]).joints@, r@[k].skeleton) == gltf_skin(g@, k as usize),
{
    let mut skins: Vec<SourceSkin> = Vec::new();
    let mut k: usize = 0;
    while k < count
        invariant
            k <= count,
            count == gltf_counts(g@).skins,
            skins@.len() == k,
            forall|j: int|
                0 <= j < k ==> ((#[trigger] skins@[j]).joints@, skins@[j].skeleton) == gltf_skin(
                    g@,
                    j as usize,
                ),
        decreases count - k,
    {
        skins.push(skin_record(g, k));
        k += 1;
    }
    skins
}

fn read_materials(g: &ImportedGltf, count: usize) -> (r: Vec<DocMaterial>)
    requires
        count == gltf_counts(g@).materials,
    ensures
        r@.len() == count,
        forall|k: int| 0 <= k < count ==> #[trigger] r@[k] == gltf_material(g@, k as usize),
{
    let mut materials: Vec<DocMaterial> = Vec::new();
    let mut k: usize = 0;
    while k < count
        invariant
            k <= count,
            count == gltf_counts(g@).materials,
            materials@.len() == k,
            forall|j: int| 0 <= j < k ==> #[trigger] materials@[j] == gltf_material(g@, j as usize),
        decreases count - k,
    {
        materials.push(material_record(g, k));
        k += 1;
    }
    materials
}

fn read_images(g: &ImportedGltf, count: usize) -> (r: Vec<DocImage>)
    requires
        count == gltf_counts(g@).images,
    ensures
        r@.len() == count,
        forall|i: int| 0 <= i < count ==> image_read(#[trigger] r@[i], g@, i as usize),
{
    let mut images: Vec<DocImage> = Vec::new();
    let mut i: usize = 0;
    while i < count
        invariant
            i <= count,
            count == gltf_counts(g@).images,
            images@.len() == i,
            forall|j: int| 0 <= j < i ==> image_read(#[trigger] images@[j], g@, j as usize),
        decreases count - i,
    {
        let format = image_format(g, i);
        let (width, height, pixels) = image_record(g, i);
        images.push(DocImage { format, width, height, pixels });
        i += 1;
    }
    images
}

fn check_all_primitives(g: &ImportedGltf, counts: DocumentCounts) -> (b: bool)
    requires
        counts == gltf_counts(g@),
    ensures
        b == all_primitives_readable(g@),
{
    let mut m: usize = 0;
    while m < counts.meshes
        invariant
            counts == gltf_counts(g@),
            m <= counts.meshes,
            forall|m2: usize, p: usize|
                m2 < m && p < gltf_primitive_count(g@, m2) ==> #[trigger] primitive_readable(g@, m2, p),
        decreases counts.meshes - m,
    {
        let n = primitive_count(g, m);
        let mut p: usize = 0;
        while p < n
            invariant
                counts == gltf_counts(g@),
                m < counts.meshes,
                n == gltf_primitive_count(g@, m),
                p <= n,
                forall|m2: usize, q: usize|
                    m2 < m && q < gltf_primitive_count(g@, m2) ==> #[trigger] primitive_readable(g@, m2, q),
                forall|q: usize| q < p ==> #[trigger] primitive_readable(g@, m, q),
            decreases n - p,
        {
            if !check_primitive(g, m, p, counts.accessors) {
                return false;
            }
            p += 1;
        }
        m += 1;
    }
    true
}

/// Copies out of a parsed asset everything the asset logic reads: nodes,
/// default scene, meshes with their primitives' streams, skins, materials,
/// texture count, decoded images and the raw metadata of meshes and nodes.
/// `None` when some primitive has a stream whose accessor cannot be read
/// item by item (see [`primitive_readable`]).
pub fn read_structure(g: &ImportedGltf) -> (r: Option<GltfStructure>)
    ensures
        r is Some == all_primitives_readable(g@),
        r matches Some(s) ==> describes(s, g@),
{
    let counts = document_counts(g);
    if !check_all_primitives(g, counts) {
        return None;
    }
    let (nodes, node_extras) = read_nodes(g, counts.nodes);
    let (meshes, mesh_extras) = read_meshes(g, counts.meshes);
    Some(GltfStructure {
        nodes,
        scene_roots: scene_roots(g),
        meshes,
        skins: read_skins(g, counts.skins),
        materials: read_materials(g, counts.materials),
        texture_count: counts.textures,
        images: read_images(g, counts.images),
        mesh_extras,
        node_extras,
    })
}

} // verus!
