# questcraft_core

The verified core of the QuestCraft VR runtime, written in Verus.

- `src/` is the library. Each public function carries a contract that Verus
  proves: reading a glTF asset through the `gltf` crate into plain values
  (`scene::gltf_model::import`, where the parser's answers are trusted
  wrappers) and laying out the asset from them (`asset`: kept primitives and
  their buffer offsets, materials and images, the default scene, skins and
  draw lists), the glTF node hierarchy flattening (`hierarchy`),
  skin joint layout (`skins`), draw-list construction (`draw_data`), texture
  format choice and pixel widening (`textures`), the virtual keyboard's layout,
  key handling and pointer events (`keyboard`), frame-slot rotation and queue
  family choice (`render::renderer`), controller model choice (`scene::scene`)
  and a few small helpers. Laws that span several calls are stated and proved
  as public proof functions next to the code they are about.
- `app/` is the Android runtime around it: JNI entry points, OpenXR input,
  Vulkan rendering through vk-graph, egui drawing, and the floating-point
  parts (vertex attributes, ray casts, transforms, animation sampling). It
  converts between the
  outside crates' types and the library's.
- `tests/` exercises the library on concrete values.
