//! Plain data carried from the component tree to the GPU back end.
use vstd::prelude::*;

verus! {

/// Decoded RGBA pixels of a picture.
#[derive(Clone, Debug)]
pub struct ImageData {
    pub rgba: Vec<u8>,
    pub width: u32,
    pub height: u32,
}

/// How a picture is fitted into its component along one axis.
#[derive(Debug, Clone, Copy, PartialEq, Eq, Structural)]
pub enum ImageMode {
    Cover,
    Centered,
    KeepRate,
    Origin,
}

/// Data of one frame drawn by a custom-shader canvas.
#[derive(Clone, Debug)]
pub struct RenderSnapshot {
    /// Raw vertex buffer bytes.
    pub vertex_data: Vec<u8>,
    /// `u32` indices; empty for non-indexed drawing.
    pub index_data: Vec<u32>,
    /// Number of vertices drawn without indices.
    pub vertex_count: u32,
    /// Number of indices drawn (zero for non-indexed drawing).
    pub index_count: u32,
    /// Optional RGBA texture with its width and height.
    pub texture: Option<(Vec<u8>, u32, u32)>,
    /// Bytes of the shader's uniform block.
    pub uniform_data: Vec<u8>,
}

impl RenderSnapshot {
    /// A snapshot that draws nothing.
    pub fn empty() -> (s: Self)
        ensures
            s.vertex_data@.len() == 0,
            s.index_data@.len() == 0,
            s.vertex_count == 0,
            s.index_count == 0,
            s.texture is None,
            s.uniform_data@.len() == 0,
    {
        RenderSnapshot {
            vertex_data: Vec::new(),
            index_data: Vec::new(),
            vertex_count: 0,
            index_count: 0,
            texture: None,
            uniform_data: Vec::new(),
        }
    }
}

/// Whether a vertex buffer advances per vertex or per instance.
#[derive(Debug, Clone, Copy, PartialEq, Eq, Structural)]
pub enum VertexStepMode {
    Vertex,
    Instance,
}

/// Element formats of vertex attributes.
#[derive(Debug, Clone, Copy, PartialEq, Eq, Structural)]
pub enum VertexFormat {
    Uint8x2,
    Uint8x4,
    Unorm8x2,
    Unorm8x4,
    Uint16x2,
    Uint16x4,
    Float16x2,
    Float16x4,
    Float32,
    Float32x2,
    Float32x3,
    Float32x4,
    Uint32,
    Uint32x2,
    Uint32x3,
    Uint32x4,
    Sint32,
    Sint32x2,
    Sint32x3,
    Sint32x4,
}

/// One attribute of a vertex: its format, byte offset and shader location.
#[derive(Debug, Clone, Copy, PartialEq, Eq, Structural)]
pub struct VertexAttribute {
    pub format: VertexFormat,
    pub offset: u64,
    pub shader_location: u32,
}

/// Memory layout of a vertex buffer.
#[derive(Clone, Debug)]
pub struct VertexLayoutDesc {
    /// Byte stride of one vertex.
    pub array_stride: u64,
    pub step_mode: VertexStepMode,
    pub attributes: Vec<VertexAttribute>,
}

/// A custom-shader draw produced by a renderer canvas.
#[derive(Clone, Debug)]
pub struct DrawRendererCanvas {
    pub x: i32,
    pub y: i32,
    pub w: i32,
    pub h: i32,
    pub clip_rect: Option<(u32, u32, u32, u32)>,
    pub shader_wgsl: String,
    pub vertex_layout: VertexLayoutDesc,
    pub snapshot: RenderSnapshot,
}

/// Data of one frame of compute-shader rendering.
#[derive(Clone, Debug)]
pub struct ComputeSnapshot {
    /// Vertex buffer bytes.
    pub vertex_data: Vec<u8>,
    /// Triangle indices, three per triangle.
    pub indices: Vec<u32>,
    /// Uniform block bytes.
    pub uniform_data: Vec<u8>,
    /// Number of vertices.
    pub vertex_count: u32,
    /// Number of triangles.
    pub triangle_count: u32,
}

impl ComputeSnapshot {
    /// A snapshot with nothing to compute.
    pub fn empty() -> (s: Self)
        ensures
            s.vertex_data@.len() == 0,
            s.indices@.len() == 0,
            s.uniform_data@.len() == 0,
            s.vertex_count == 0,
            s.triangle_count == 0,
    {
        ComputeSnapshot {
            vertex_data: Vec::new(),
            indices: Vec::new(),
            uniform_data: Vec::new(),
            vertex_count: 0,
            triangle_count: 0,
        }
    }
}

/// How a compute pipeline binds its buffers.
#[derive(Clone, Copy, Debug, PartialEq, Eq, Structural)]
pub enum ComputeBindingMode {
    Standard,
    /// vertices, indices, uniform, output vertices, output indices.
    Subdivide,
    RasterizeOnly,
}

/// A compute-pipeline draw.
#[derive(Clone, Debug)]
pub struct DrawCompute {
    pub compute_wgsl: String,
    pub display_wgsl: String,
    pub snapshot: ComputeSnapshot,
    pub binding_mode: ComputeBindingMode,
}

/// Surface evaluation order of the subdivision shaders.
pub const EVAL_N: u32 = 4;

/// Line evaluation order of the subdivision shaders.
pub const EVAL_N_LINE: u32 = 4;

/// Workgroup size of the evaluation passes.
pub const EVAL_WORKGROUP_SIZE: u32 = 64;

/// Primary vertices evaluated per surface triangle: (N + 1)(N + 2) / 2.
#[verifier::nonlinear]
pub const PRIMARY_VERTICES_PER_TRIANGLE: u32 = (EVAL_N + 1) * (EVAL_N + 2) / 2;

/// Primary vertices evaluated per line: N + 1.
pub const PRIMARY_VERTICES_PER_LINE: u32 = EVAL_N_LINE + 1;

/// Largest subdivision count of a surface triangle.
pub const MAX_SUBDIVISIONS_SURFACE: u32 = 8;

/// Largest subdivision count of a line.
pub const MAX_SUBDIVISIONS_LINE: u32 = 256;

/// Largest vertex count of one subdivided triangle: (S + 1)(S + 2) / 2.
#[verifier::nonlinear]
pub const MAX_VERTICES_PER_TRIANGLE: u32 = (MAX_SUBDIVISIONS_SURFACE + 1) * (MAX_SUBDIVISIONS_SURFACE + 2) / 2;

/// Largest index count of one subdivided triangle: S * S * 3.
#[verifier::nonlinear]
pub const MAX_INDICES_PER_TRIANGLE: u32 = MAX_SUBDIVISIONS_SURFACE * MAX_SUBDIVISIONS_SURFACE * 3;

/// Largest vertex count of one subdivided line: S + 1.
pub const MAX_VERTICES_PER_LINE: u32 = MAX_SUBDIVISIONS_LINE + 1;

/// Largest index count of one subdivided line: S * 2.
pub const MAX_INDICES_PER_LINE: u32 = MAX_SUBDIVISIONS_LINE * 2;

/// A filled rectangle.
#[derive(Debug)]
pub struct DrawRect {
    pub x: i32,
    pub y: i32,
    pub w: i32,
    pub h: i32,
    pub color: (u8, u8, u8, u8),
    pub clip_rect: Option<(u32, u32, u32, u32)>,
}

/// A line of text centred in a box.
#[derive(Debug)]
pub struct DrawText {
    pub text: String,
    pub x: i32,
    pub y: i32,
    pub w: i32,
    pub h: i32,
    pub font_size: u32,
    pub color: (u8, u8, u8),
    pub clip_rect: Option<(u32, u32, u32, u32)>,
}

impl Clone for DrawRect {
    fn clone(&self) -> (r: Self)
        ensures
            r == *self,
    {
        DrawRect {
            x: self.x,
            y: self.y,
            w: self.w,
            h: self.h,
            color: self.color,
            clip_rect: self.clip_rect,
        }
    }
}

impl Clone for DrawText {
    fn clone(&self) -> (r: Self)
        ensures
            r.text@ == self.text@,
            r.x == self.x,
            r.y == self.y,
            r.w == self.w,
            r.h == self.h,
            r.font_size == self.font_size,
            r.color == self.color,
            r.clip_rect == self.clip_rect,
    {
        DrawText {
            text: self.text.clone(),
            x: self.x,
            y: self.y,
            w: self.w,
            h: self.h,
            font_size: self.font_size,
            color: self.color,
            clip_rect: self.clip_rect,
        }
    }
}

/// A picture stretched over a box.
#[derive(Clone, Debug)]
pub struct DrawImage {
    pub x: i32,
    pub y: i32,
    pub w: i32,
    pub h: i32,
    pub data: ImageData,
    pub clip_rect: Option<(u32, u32, u32, u32)>,
}

/// World-space line segments with their shader and projection.
#[derive(Clone, Debug)]
pub struct DrawLines {
    /// Shader source with vertex and fragment entry points.
    pub shader_wgsl: String,
    /// Vertex bytes (position, padding, colour).
    pub vertex_data: Vec<u8>,
    /// Two indices per segment.
    pub index_data: Vec<u32>,
    /// Column-major view-projection matrix bytes.
    pub uniform_data: Vec<u8>,
}

/// Value of an image's pixels.
pub struct ImageDataView {
    pub rgba: Seq<u8>,
    pub width: u32,
    pub height: u32,
}

pub open spec fn image_data_view(d: ImageData) -> ImageDataView {
    ImageDataView { rgba: d.rgba@, width: d.width, height: d.height }
}

/// Value of a render snapshot.
pub struct SnapshotView {
    pub vertex_data: Seq<u8>,
    pub index_data: Seq<u32>,
    pub vertex_count: u32,
    pub index_count: u32,
    pub texture: Option<(Seq<u8>, u32, u32)>,
    pub uniform_data: Seq<u8>,
}

pub open spec fn snapshot_view(s: RenderSnapshot) -> SnapshotView {
    SnapshotView {
        vertex_data: s.vertex_data@,
        index_data: s.index_data@,
        vertex_count: s.vertex_count,
        index_count: s.index_count,
        texture: match s.texture {
            Some(t) => Some((t.0@, t.1, t.2)),
            None => None,
        },
        uniform_data: s.uniform_data@,
    }
}

/// Value of a vertex layout.
pub struct LayoutView {
    pub array_stride: u64,
    pub step_mode: VertexStepMode,
    pub attributes: Seq<VertexAttribute>,
}

pub open spec fn layout_view(l: VertexLayoutDesc) -> LayoutView {
    LayoutView { array_stride: l.array_stride, step_mode: l.step_mode, attributes: l.attributes@ }
}

/// A copy of a byte vector.
pub(crate) fn clone_bytes(v: &Vec<u8>) -> (r: Vec<u8>)
    ensures
        r@ == v@,
{
    let r = v.clone();
    assert(r@ =~= v@);
    r
}

/// A copy of an index vector.
pub(crate) fn clone_u32s(v: &Vec<u32>) -> (r: Vec<u32>)
    ensures
        r@ == v@,
{
    let r = v.clone();
    assert(r@ =~= v@);
    r
}

/// A copy of a picture's pixels.
pub(crate) fn clone_image_data(d: &ImageData) -> (r: ImageData)
    ensures
        image_data_view(r) == image_data_view(*d),
{
    ImageData { rgba: clone_bytes(&d.rgba), width: d.width, height: d.height }
}

/// A copy of a render snapshot.
pub(crate) fn clone_snapshot(s: &RenderSnapshot) -> (r: RenderSnapshot)
    ensures
        snapshot_view(r) == snapshot_view(*s),
{
    let texture = match &s.texture {
        Some(t) => Some((clone_bytes(&t.0), t.1, t.2)),
        None => None,
    };
    RenderSnapshot {
        vertex_data: clone_bytes(&s.vertex_data),
        index_data: clone_u32s(&s.index_data),
        vertex_count: s.vertex_count,
        index_count: s.index_count,
        texture,
        uniform_data: clone_bytes(&s.uniform_data),
    }
}

/// A copy of a vertex layout.
pub(crate) fn clone_layout(l: &VertexLayoutDesc) -> (r: VertexLayoutDesc)
    ensures
        layout_view(r) == layout_view(*l),
{
    let mut attributes: Vec<VertexAttribute> = Vec::new();
    let n = l.attributes.len();
    let mut i: usize = 0;
    while i < n
        invariant
            i <= n == l.attributes@.len(),
            attributes@ == l.attributes@.take(i as int),
        decreases n - i,
    {
        attributes.push(l.attributes[i]);
        assert(attributes@ =~= l.attributes@.take(i + 1));
        i = i + 1;
    }
    assert(attributes@ =~= l.attributes@);
    VertexLayoutDesc { array_stride: l.array_stride, step_mode: l.step_mode, attributes }
}

} // verus!
