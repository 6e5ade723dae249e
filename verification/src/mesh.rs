//! `Mesh`, `Primitive` and the typed vertex attribute unions.

use vstd::prelude::*;

use crate::accessor::{components_spec, Accessor, ComponentType, Kind, ReadError};
use crate::root::{Index, Root};
use crate::validation::{dec_spec, dec_string};

verus! {

/// The topology a primitive is rendered with.
#[derive(Clone, Copy, Debug, PartialEq, Eq, Structural)]
pub enum Mode {
    Points,
    Lines,
    LineLoop,
    LineStrip,
    Triangles,
    TriangleStrip,
    TriangleFan,
}

/// The named role of a vertex attribute.
///
/// The numbered variants carry a set index (`Color(0)` stands for the first
/// color set). `Extra` carries a user-defined attribute name, which is
/// expected to begin with an underscore.
#[derive(Clone, Debug)]
pub enum Semantic {
    Position,
    Normal,
    Tangent,
    Color(u32),
    TexCoord(u32),
    Joint(u32),
    Weight(u32),
    Extra(String),
}

/// The canonical name of a semantic: `POSITION`, `COLOR_0`, `TEXCOORD_1` and
/// so on. A user-defined semantic is named by its own string.
pub open spec fn semantic_name(s: Semantic) -> Seq<char> {
    match s {
        Semantic::Position => "POSITION"@,
        Semantic::Normal => "NORMAL"@,
        Semantic::Tangent => "TANGENT"@,
        Semantic::Color(n) => "COLOR_"@ + dec_spec(n as nat),
        Semantic::TexCoord(n) => "TEXCOORD_"@ + dec_spec(n as nat),
        Semantic::Joint(n) => "JOINTS_"@ + dec_spec(n as nat),
        Semantic::Weight(n) => "WEIGHTS_"@ + dec_spec(n as nat),
        Semantic::Extra(name) => name@,
    }
}

/// Whether an accessor of the given component type and shape may carry data
/// for the given semantic.
///
/// Positions and normals demand a float triple and tangents a float quad;
/// colors accept 8-bit, 16-bit or float components in triples or quads;
/// texture co-ordinates accept the same component types in pairs; joints and
/// weights demand 8-bit or 16-bit quads. User-defined semantics bypass the
/// table.
pub open spec fn compatible(s: Semantic, t: ComponentType, k: Kind) -> bool {
    match s {
        Semantic::Position => t == ComponentType::F32 && k == Kind::Vec3,
        Semantic::Normal => t == ComponentType::F32 && k == Kind::Vec3,
        Semantic::Tangent => t == ComponentType::F32 && k == Kind::Vec4,
        Semantic::Color(_) => (t == ComponentType::U8 || t == ComponentType::U16 || t
            == ComponentType::F32) && (k == Kind::Vec3 || k == Kind::Vec4),
        Semantic::TexCoord(_) => (t == ComponentType::U8 || t == ComponentType::U16 || t
            == ComponentType::F32) && k == Kind::Vec2,
        Semantic::Joint(_) => (t == ComponentType::U8 || t == ComponentType::U16) && k
            == Kind::Vec4,
        Semantic::Weight(_) => (t == ComponentType::U8 || t == ComponentType::U16) && k
            == Kind::Vec4,
        Semantic::Extra(_) => true,
    }
}

/// Whether an accessor of the given component type and shape may carry index
/// data: a scalar of an unsigned integer type.
pub open spec fn valid_index_type(t: ComponentType, k: Kind) -> bool {
    k == Kind::Scalar && (t == ComponentType::U8 || t == ComponentType::U16 || t
        == ComponentType::U32)
}

impl Semantic {
    /// Renders the canonical name of this semantic.
    pub fn name_string(&self) -> (r: String)
        ensures
            r@ == semantic_name(*self),
    {
        match self {
            Semantic::Position => String::from_str("POSITION"),
            Semantic::Normal => String::from_str("NORMAL"),
            Semantic::Tangent => String::from_str("TANGENT"),
            Semantic::Color(n) => {
                let digits = dec_string(*n as usize);
                String::from_str("COLOR_").concat(digits.as_str())
            },
            Semantic::TexCoord(n) => {
                let digits = dec_string(*n as usize);
                String::from_str("TEXCOORD_").concat(digits.as_str())
            },
            Semantic::Joint(n) => {
                let digits = dec_string(*n as usize);
                String::from_str("JOINTS_").concat(digits.as_str())
            },
            Semantic::Weight(n) => {
                let digits = dec_string(*n as usize);
                String::from_str("WEIGHTS_").concat(digits.as_str())
            },
            Semantic::Extra(name) => name.clone(),
        }
    }

    /// Decides [`compatible`] for this semantic and the given accessor type.
    pub fn is_compatible(&self, t: ComponentType, k: Kind) -> (r: bool)
        ensures
            r == compatible(*self, t, k),
    {
        match self {
            Semantic::Position => t == ComponentType::F32 && k == Kind::Vec3,
            Semantic::Normal => t == ComponentType::F32 && k == Kind::Vec3,
            Semantic::Tangent => t == ComponentType::F32 && k == Kind::Vec4,
            Semantic::Color(_) => (t == ComponentType::U8 || t == ComponentType::U16 || t
                == ComponentType::F32) && (k == Kind::Vec3 || k == Kind::Vec4),
            Semantic::TexCoord(_) => (t == ComponentType::U8 || t == ComponentType::U16 || t
                == ComponentType::F32) && k == Kind::Vec2,
            Semantic::Joint(_) => (t == ComponentType::U8 || t == ComponentType::U16) && k
                == Kind::Vec4,
            Semantic::Weight(_) => (t == ComponentType::U8 || t == ComponentType::U16) && k
                == Kind::Vec4,
            Semantic::Extra(_) => true,
        }
    }
}

/// Decides [`valid_index_type`] for the given accessor type.
pub fn is_valid_index_type(t: ComponentType, k: Kind) -> (r: bool)
    ensures
        r == valid_index_type(t, k),
{
    k == Kind::Scalar && (t == ComponentType::U8 || t == ComponentType::U16 || t
        == ComponentType::U32)
}

/// A single set of vertex attributes together with the material and topology
/// used to render them.
///
/// `attributes` maps each semantic to the accessor holding its data, in
/// document order. `targets` holds the morph target maps, each of which may
/// only use the position, normal and tangent semantics.
#[derive(Clone, Debug)]
pub struct Primitive {
    /// Vertex attributes: each semantic with the accessor holding its data.
    pub attributes: Vec<(Semantic, Index<Accessor>)>,
    /// The accessor holding the index data, if the primitive is indexed.
    pub indices: Option<Index<Accessor>>,
    /// The material to render the primitive with.
    pub material: Option<Index<crate::material::Material>>,
    /// The topology to render the primitive with.
    pub mode: Mode,
    /// Morph target maps.
    pub targets: Vec<Vec<(Semantic, Index<Accessor>)>>,
}

/// A set of primitives to be rendered.
///
/// A node can contain one or more meshes and its transform places the meshes
/// in the scene.
#[derive(Clone, Debug)]
pub struct Mesh {
    /// Optional user-defined name for this object.
    pub name: Option<String>,
    /// The primitives of this mesh.
    pub primitives: Vec<Primitive>,
    /// The default weights of the morph targets (bit patterns).
    pub weights: Option<Vec<u32>>,
}


/// XYZ vertex positions: triples of 32-bit IEEE 754 bit patterns.
pub type Positions = Vec<[u32; 3]>;

/// XYZ vertex normals: triples of 32-bit IEEE 754 bit patterns.
pub type Normals = Vec<[u32; 3]>;

/// XYZW vertex tangents: quads of 32-bit IEEE 754 bit patterns, where the
/// `w` component is a sign value indicating the handedness of the tangent
/// basis.
pub type Tangents = Vec<[u32; 4]>;

/// Vertex colors.
#[derive(Clone, Debug)]
pub enum Colors {
    /// RGB vertex colors with 8-bit channels.
    RgbU8(Vec<[u8; 3]>),
    /// RGBA vertex colors with 8-bit channels.
    RgbaU8(Vec<[u8; 4]>),
    /// RGB vertex colors with 16-bit channels.
    RgbU16(Vec<[u16; 3]>),
    /// RGBA vertex colors with 16-bit channels.
    RgbaU16(Vec<[u16; 4]>),
    /// RGB vertex colors with IEEE 754 channels (bit patterns).
    RgbF32(Vec<[u32; 3]>),
    /// RGBA vertex colors with IEEE 754 channels (bit patterns).
    RgbaF32(Vec<[u32; 4]>),
}

/// Index data.
#[derive(Clone, Debug)]
pub enum Indices {
    /// 8-bit index data.
    U8(Vec<u8>),
    /// 16-bit index data.
    U16(Vec<u16>),
    /// 32-bit index data.
    U32(Vec<u32>),
}

/// Vertex joints.
#[derive(Clone, Debug)]
pub enum Joints {
    /// Joints of four 8-bit values.
    U8(Vec<[u8; 4]>),
    /// Joints of four 16-bit values.
    U16(Vec<[u16; 4]>),
}

/// UV texture co-ordinates.
#[derive(Clone, Debug)]
pub enum TexCoords {
    /// Pairs of IEEE 754 co-ordinates (bit patterns).
    F32(Vec<[u32; 2]>),
    /// Pairs of 8-bit co-ordinates.
    U8(Vec<[u8; 2]>),
    /// Pairs of 16-bit co-ordinates.
    U16(Vec<[u16; 2]>),
}

/// Vertex weights.
#[derive(Clone, Debug)]
pub enum Weights {
    /// Weights of four IEEE 754 values (bit patterns).
    F32(Vec<[u32; 4]>),
    /// Weights of four 8-bit values.
    U8(Vec<[u8; 4]>),
    /// Weights of four 16-bit values.
    U16(Vec<[u16; 4]>),
}

/// Vertex attribute data, decoded per the compatibility table.
#[derive(Clone, Debug)]
pub enum Attribute {
    /// Vertex colors of the given set.
    Colors(u32, Colors),
    /// An untyped user-defined vertex attribute: its name and the accessor
    /// holding its data.
    Extras(String, Index<Accessor>),
    /// Vertex joints of the given set.
    Joints(u32, Joints),
    /// XYZ vertex positions.
    Positions(Positions),
    /// XYZ vertex normals.
    Normals(Normals),
    /// XYZW vertex tangents.
    Tangents(Tangents),
    /// UV texture co-ordinates of the given set.
    TexCoords(u32, TexCoords),
    /// Vertex weights of the given set.
    Weights(u32, Weights),
}

/// Scalars widened to 32 bits, one single-component element each.
pub open spec fn widen1_u8(v: Seq<u8>) -> Seq<Seq<u32>> {
    Seq::new(v.len(), |k: int| seq![v[k] as u32])
}

/// Scalars widened to 32 bits, one single-component element each.
pub open spec fn widen1_u16(v: Seq<u16>) -> Seq<Seq<u32>> {
    Seq::new(v.len(), |k: int| seq![v[k] as u32])
}

/// Scalars as single-component elements.
pub open spec fn widen1_u32(v: Seq<u32>) -> Seq<Seq<u32>> {
    Seq::new(v.len(), |k: int| seq![v[k]])
}

/// Pairs widened to 32 bits per component.
pub open spec fn widen2_u8(v: Seq<[u8; 2]>) -> Seq<Seq<u32>> {
    Seq::new(v.len(), |k: int| Seq::new(2, |j: int| v[k]@[j] as u32))
}

/// Pairs widened to 32 bits per component.
pub open spec fn widen2_u16(v: Seq<[u16; 2]>) -> Seq<Seq<u32>> {
    Seq::new(v.len(), |k: int| Seq::new(2, |j: int| v[k]@[j] as u32))
}

/// Pairs of 32-bit components.
pub open spec fn widen2_u32(v: Seq<[u32; 2]>) -> Seq<Seq<u32>> {
    Seq::new(v.len(), |k: int| Seq::new(2, |j: int| v[k]@[j]))
}

/// Triples widened to 32 bits per component.
pub open spec fn widen3_u8(v: Seq<[u8; 3]>) -> Seq<Seq<u32>> {
    Seq::new(v.len(), |k: int| Seq::new(3, |j: int| v[k]@[j] as u32))
}

/// Triples widened to 32 bits per component.
pub open spec fn widen3_u16(v: Seq<[u16; 3]>) -> Seq<Seq<u32>> {
    Seq::new(v.len(), |k: int| Seq::new(3, |j: int| v[k]@[j] as u32))
}

/// Triples of 32-bit components.
pub open spec fn widen3_u32(v: Seq<[u32; 3]>) -> Seq<Seq<u32>> {
    Seq::new(v.len(), |k: int| Seq::new(3, |j: int| v[k]@[j]))
}

/// Quads widened to 32 bits per component.
pub open spec fn widen4_u8(v: Seq<[u8; 4]>) -> Seq<Seq<u32>> {
    Seq::new(v.len(), |k: int| Seq::new(4, |j: int| v[k]@[j] as u32))
}

/// Quads widened to 32 bits per component.
pub open spec fn widen4_u16(v: Seq<[u16; 4]>) -> Seq<Seq<u32>> {
    Seq::new(v.len(), |k: int| Seq::new(4, |j: int| v[k]@[j] as u32))
}

/// Quads of 32-bit components.
pub open spec fn widen4_u32(v: Seq<[u32; 4]>) -> Seq<Seq<u32>> {
    Seq::new(v.len(), |k: int| Seq::new(4, |j: int| v[k]@[j]))
}

/// The decoded component matrix a `Colors` value stands for.
pub open spec fn colors_components(c: Colors) -> Seq<Seq<u32>> {
    match c {
        Colors::RgbU8(v) => widen3_u8(v@),
        Colors::RgbaU8(v) => widen4_u8(v@),
        Colors::RgbU16(v) => widen3_u16(v@),
        Colors::RgbaU16(v) => widen4_u16(v@),
        Colors::RgbF32(v) => widen3_u32(v@),
        Colors::RgbaF32(v) => widen4_u32(v@),
    }
}

/// The decoded component matrix an `Indices` value stands for.
pub open spec fn indices_components(i: Indices) -> Seq<Seq<u32>> {
    match i {
        Indices::U8(v) => widen1_u8(v@),
        Indices::U16(v) => widen1_u16(v@),
        Indices::U32(v) => widen1_u32(v@),
    }
}

/// The decoded component matrix a `Joints` value stands for.
pub open spec fn joints_components(j: Joints) -> Seq<Seq<u32>> {
    match j {
        Joints::U8(v) => widen4_u8(v@),
        Joints::U16(v) => widen4_u16(v@),
    }
}

/// The decoded component matrix a `TexCoords` value stands for.
pub open spec fn tex_coords_components(t: TexCoords) -> Seq<Seq<u32>> {
    match t {
        TexCoords::F32(v) => widen2_u32(v@),
        TexCoords::U8(v) => widen2_u8(v@),
        TexCoords::U16(v) => widen2_u16(v@),
    }
}

/// The decoded component matrix a `Weights` value stands for.
pub open spec fn weights_components(w: Weights) -> Seq<Seq<u32>> {
    match w {
        Weights::F32(v) => widen4_u32(v@),
        Weights::U8(v) => widen4_u8(v@),
        Weights::U16(v) => widen4_u16(v@),
    }
}

/// The decoded component matrix an `Attribute` value stands for. An
/// `Extras` attribute carries no decoded data.
pub open spec fn attribute_components(at: Attribute) -> Seq<Seq<u32>> {
    match at {
        Attribute::Colors(_, c) => colors_components(c),
        Attribute::Extras(_, _) => Seq::empty(),
        Attribute::Joints(_, j) => joints_components(j),
        Attribute::Positions(v) => widen3_u32(v@),
        Attribute::Normals(v) => widen3_u32(v@),
        Attribute::Tangents(v) => widen4_u32(v@),
        Attribute::TexCoords(_, t) => tex_coords_components(t),
        Attribute::Weights(_, w) => weights_components(w),
    }
}

/// Whether a `Colors` value carries the variant the table assigns to the
/// given component type and shape.
pub open spec fn colors_match(c: Colors, t: ComponentType, k: Kind) -> bool {
    match c {
        Colors::RgbU8(_) => t == ComponentType::U8 && k == Kind::Vec3,
        Colors::RgbaU8(_) => t == ComponentType::U8 && k == Kind::Vec4,
        Colors::RgbU16(_) => t == ComponentType::U16 && k == Kind::Vec3,
        Colors::RgbaU16(_) => t == ComponentType::U16 && k == Kind::Vec4,
        Colors::RgbF32(_) => t == ComponentType::F32 && k == Kind::Vec3,
        Colors::RgbaF32(_) => t == ComponentType::F32 && k == Kind::Vec4,
    }
}

/// Whether a `TexCoords` value carries the variant the table assigns to the
/// given component type.
pub open spec fn tex_coords_match(c: TexCoords, t: ComponentType) -> bool {
    match c {
        TexCoords::F32(_) => t == ComponentType::F32,
        TexCoords::U8(_) => t == ComponentType::U8,
        TexCoords::U16(_) => t == ComponentType::U16,
    }
}

/// Whether a `Joints` value carries the variant the table assigns to the
/// given component type.
pub open spec fn joints_match(j: Joints, t: ComponentType) -> bool {
    match j {
        Joints::U8(_) => t == ComponentType::U8,
        Joints::U16(_) => t == ComponentType::U16,
    }
}

/// Whether a `Weights` value carries the variant the table assigns to the
/// given component type.
pub open spec fn weights_match(w: Weights, t: ComponentType) -> bool {
    match w {
        Weights::F32(_) => t == ComponentType::F32,
        Weights::U8(_) => t == ComponentType::U8,
        Weights::U16(_) => t == ComponentType::U16,
    }
}

/// Whether an `Attribute` value carries the variant that the compatibility
/// table assigns to the given semantic, component type and shape, with the
/// semantic's set index preserved.
pub open spec fn attribute_matches(at: Attribute, sem: Semantic, t: ComponentType, k: Kind) -> bool {
    match sem {
        Semantic::Position => at is Positions,
        Semantic::Normal => at is Normals,
        Semantic::Tangent => at is Tangents,
        Semantic::Color(set) => at matches Attribute::Colors(s, c) && s == set && colors_match(
            c,
            t,
            k,
        ),
        Semantic::TexCoord(set) => at matches Attribute::TexCoords(s, c) && s == set
            && tex_coords_match(c, t),
        Semantic::Joint(set) => at matches Attribute::Joints(s, j) && s == set && joints_match(
            j,
            t,
        ),
        Semantic::Weight(set) => at matches Attribute::Weights(s, w) && s == set && weights_match(
            w,
            t,
        ),
        Semantic::Extra(_) => at is Extras,
    }
}

/// The position of the first of the leading `n` attributes whose semantic
/// satisfies `f`, or `-1` if none does.
pub open spec fn first_match(
    attrs: Seq<(Semantic, Index<Accessor>)>,
    f: spec_fn(Semantic) -> bool,
    n: int,
) -> int
    decreases n,
{
    if n <= 0 {
        -1
    } else {
        let prev = first_match(attrs, f, n - 1);
        if prev >= 0 {
            prev
        } else if f(attrs[n - 1].0) {
            n - 1
        } else {
            -1
        }
    }
}

proof fn lemma_first_match_none(
    attrs: Seq<(Semantic, Index<Accessor>)>,
    f: spec_fn(Semantic) -> bool,
    n: int,
)
    requires
        forall|kk: int| 0 <= kk < n ==> !f((#[trigger] attrs[kk]).0),
    ensures
        first_match(attrs, f, n) == -1,
    decreases n,
{
    if n > 0 {
        lemma_first_match_none(attrs, f, n - 1);
    }
}

proof fn lemma_first_match_found(
    attrs: Seq<(Semantic, Index<Accessor>)>,
    f: spec_fn(Semantic) -> bool,
    k: int,
    n: int,
)
    requires
        0 <= k < n,
        forall|kk: int| 0 <= kk < k ==> !f((#[trigger] attrs[kk]).0),
        f(attrs[k].0),
    ensures
        first_match(attrs, f, n) == k,
    decreases n,
{
    if n - 1 > k {
        lemma_first_match_found(attrs, f, k, n - 1);
    } else {
        lemma_first_match_none(attrs, f, k);
    }
}


/// Narrows single-component elements to bytes.
pub(crate) fn pack1_u8(src: &Vec<Vec<u32>>) -> (r: Vec<u8>)
    requires
        forall|k: int| 0 <= k < src@.len() ==> (#[trigger] src@[k])@.len() == 1,
        forall|k: int, j: int|
            0 <= k < src@.len() && 0 <= j < 1 ==> (#[trigger] src@[k]@[j]) < 0x100,
    ensures
        r@.len() == src@.len(),
        forall|k: int| 0 <= k < src@.len() ==> (#[trigger] r@[k]) as u32 == src@[k]@[0],
{
    let mut out: Vec<u8> = Vec::new();
    let mut k: usize = 0;
    while k < src.len()
        invariant
            k <= src@.len(),
            forall|kk: int| 0 <= kk < src@.len() ==> (#[trigger] src@[kk])@.len() == 1,
            forall|kk: int, j: int|
                0 <= kk < src@.len() && 0 <= j < 1 ==> (#[trigger] src@[kk]@[j]) < 0x100,
            out@.len() == k as int,
            forall|kk: int| 0 <= kk < k ==> (#[trigger] out@[kk]) as u32 == src@[kk]@[0],
        decreases src@.len() - k,
    {
        let e = &src[k];
        out.push(e[0] as u8);
        k = k + 1;
    }
    out
}

/// Narrows two-component elements to byte pairs.
pub(crate) fn pack2_u8(src: &Vec<Vec<u32>>) -> (r: Vec<[u8; 2]>)
    requires
        forall|k: int| 0 <= k < src@.len() ==> (#[trigger] src@[k])@.len() == 2,
        forall|k: int, j: int|
            0 <= k < src@.len() && 0 <= j < 2 ==> (#[trigger] src@[k]@[j]) < 0x100,
    ensures
        r@.len() == src@.len(),
        forall|k: int, j: int|
            0 <= k < src@.len() && 0 <= j < 2 ==> (#[trigger] r@[k]@[j]) as u32 == src@[k]@[j],
{
    let mut out: Vec<[u8; 2]> = Vec::new();
    let mut k: usize = 0;
    while k < src.len()
        invariant
            k <= src@.len(),
            forall|kk: int| 0 <= kk < src@.len() ==> (#[trigger] src@[kk])@.len() == 2,
            forall|kk: int, j: int|
                0 <= kk < src@.len() && 0 <= j < 2 ==> (#[trigger] src@[kk]@[j]) < 0x100,
            out@.len() == k as int,
            forall|kk: int, j: int|
                0 <= kk < k && 0 <= j < 2 ==> (#[trigger] out@[kk]@[j]) as u32 == src@[kk]@[j],
        decreases src@.len() - k,
    {
        let e = &src[k];
        let arr = [e[0] as u8, e[1] as u8];
        proof {
            assert(arr@ =~= seq![e@[0] as u8, e@[1] as u8]);
        }
        out.push(arr);
        k = k + 1;
    }
    out
}

/// Narrows three-component elements to byte triples.
pub(crate) fn pack3_u8(src: &Vec<Vec<u32>>) -> (r: Vec<[u8; 3]>)
    requires
        forall|k: int| 0 <= k < src@.len() ==> (#[trigger] src@[k])@.len() == 3,
        forall|k: int, j: int|
            0 <= k < src@.len() && 0 <= j < 3 ==> (#[trigger] src@[k]@[j]) < 0x100,
    ensures
        r@.len() == src@.len(),
        forall|k: int, j: int|
            0 <= k < src@.len() && 0 <= j < 3 ==> (#[trigger] r@[k]@[j]) as u32 == src@[k]@[j],
{
    let mut out: Vec<[u8; 3]> = Vec::new();
    let mut k: usize = 0;
    while k < src.len()
        invariant
            k <= src@.len(),
            forall|kk: int| 0 <= kk < src@.len() ==> (#[trigger] src@[kk])@.len() == 3,
            forall|kk: int, j: int|
                0 <= kk < src@.len() && 0 <= j < 3 ==> (#[trigger] src@[kk]@[j]) < 0x100,
            out@.len() == k as int,
            forall|kk: int, j: int|
                0 <= kk < k && 0 <= j < 3 ==> (#[trigger] out@[kk]@[j]) as u32 == src@[kk]@[j],
        decreases src@.len() - k,
    {
        let e = &src[k];
        let arr = [e[0] as u8, e[1] as u8, e[2] as u8];
        proof {
            assert(arr@ =~= seq![e@[0] as u8, e@[1] as u8, e@[2] as u8]);
        }
        out.push(arr);
        k = k + 1;
    }
    out
}

/// Narrows four-component elements to byte quads.
pub(crate) fn pack4_u8(src: &Vec<Vec<u32>>) -> (r: Vec<[u8; 4]>)
    requires
        forall|k: int| 0 <= k < src@.len() ==> (#[trigger] src@[k])@.len() == 4,
        forall|k: int, j: int|
            0 <= k < src@.len() && 0 <= j < 4 ==> (#[trigger] src@[k]@[j]) < 0x100,
    ensures
        r@.len() == src@.len(),
        forall|k: int, j: int|
            0 <= k < src@.len() && 0 <= j < 4 ==> (#[trigger] r@[k]@[j]) as u32 == src@[k]@[j],
{
    let mut out: Vec<[u8; 4]> = Vec::new();
    let mut k: usize = 0;
    while k < src.len()
        invariant
            k <= src@.len(),
            forall|kk: int| 0 <= kk < src@.len() ==> (#[trigger] src@[kk])@.len() == 4,
            forall|kk: int, j: int|
                0 <= kk < src@.len() && 0 <= j < 4 ==> (#[trigger] src@[kk]@[j]) < 0x100,
            out@.len() == k as int,
            forall|kk: int, j: int|
                0 <= kk < k && 0 <= j < 4 ==> (#[trigger] out@[kk]@[j]) as u32 == src@[kk]@[j],
        decreases src@.len() - k,
    {
        let e = &src[k];
        let arr = [e[0] as u8, e[1] as u8, e[2] as u8, e[3] as u8];
        proof {
            assert(arr@ =~= seq![e@[0] as u8, e@[1] as u8, e@[2] as u8, e@[3] as u8]);
        }
        out.push(arr);
        k = k + 1;
    }
    out
}

/// Narrows single-component elements to 16-bit values.
pub(crate) fn pack1_u16(src: &Vec<Vec<u32>>) -> (r: Vec<u16>)
    requires
        forall|k: int| 0 <= k < src@.len() ==> (#[trigger] src@[k])@.len() == 1,
        forall|k: int, j: int|
            0 <= k < src@.len() && 0 <= j < 1 ==> (#[trigger] src@[k]@[j]) < 0x10000,
    ensures
        r@.len() == src@.len(),
        forall|k: int| 0 <= k < src@.len() ==> (#[trigger] r@[k]) as u32 == src@[k]@[0],
{
    let mut out: Vec<u16> = Vec::new();
    let mut k: usize = 0;
    while k < src.len()
        invariant
            k <= src@.len(),
            forall|kk: int| 0 <= kk < src@.len() ==> (#[trigger] src@[kk])@.len() == 1,
            forall|kk: int, j: int|
                0 <= kk < src@.len() && 0 <= j < 1 ==> (#[trigger] src@[kk]@[j]) < 0x10000,
            out@.len() == k as int,
            forall|kk: int| 0 <= kk < k ==> (#[trigger] out@[kk]) as u32 == src@[kk]@[0],
        decreases src@.len() - k,
    {
        let e = &src[k];
        out.push(e[0] as u16);
        k = k + 1;
    }
    out
}

/// Narrows two-component elements to 16-bit pairs.
pub(crate) fn pack2_u16(src: &Vec<Vec<u32>>) -> (r: Vec<[u16; 2]>)
    requires
        forall|k: int| 0 <= k < src@.len() ==> (#[trigger] src@[k])@.len() == 2,
        forall|k: int, j: int|
            0 <= k < src@.len() && 0 <= j < 2 ==> (#[trigger] src@[k]@[j]) < 0x10000,
    ensures
        r@.len() == src@.len(),
        forall|k: int, j: int|
            0 <= k < src@.len() && 0 <= j < 2 ==> (#[trigger] r@[k]@[j]) as u32 == src@[k]@[j],
{
    let mut out: Vec<[u16; 2]> = Vec::new();
    let mut k: usize = 0;
    while k < src.len()
        invariant
            k <= src@.len(),
            forall|kk: int| 0 <= kk < src@.len() ==> (#[trigger] src@[kk])@.len() == 2,
            forall|kk: int, j: int|
                0 <= kk < src@.len() && 0 <= j < 2 ==> (#[trigger] src@[kk]@[j]) < 0x10000,
            out@.len() == k as int,
            forall|kk: int, j: int|
                0 <= kk < k && 0 <= j < 2 ==> (#[trigger] out@[kk]@[j]) as u32 == src@[kk]@[j],
        decreases src@.len() - k,
    {
        let e = &src[k];
        let arr = [e[0] as u16, e[1] as u16];
        proof {
            assert(arr@ =~= seq![e@[0] as u16, e@[1] as u16]);
        }
        out.push(arr);
        k = k + 1;
    }
    out
}

/// Narrows three-component elements to 16-bit triples.
pub(crate) fn pack3_u16(src: &Vec<Vec<u32>>) -> (r: Vec<[u16; 3]>)
    requires
        forall|k: int| 0 <= k < src@.len() ==> (#[trigger] src@[k])@.len() == 3,
        forall|k: int, j: int|
            0 <= k < src@.len() && 0 <= j < 3 ==> (#[trigger] src@[k]@[j]) < 0x10000,
    ensures
        r@.len() == src@.len(),
        forall|k: int, j: int|
            0 <= k < src@.len() && 0 <= j < 3 ==> (#[trigger] r@[k]@[j]) as u32 == src@[k]@[j],
{
    let mut out: Vec<[u16; 3]> = Vec::new();
    let mut k: usize = 0;
    while k < src.len()
        invariant
            k <= src@.len(),
            forall|kk: int| 0 <= kk < src@.len() ==> (#[trigger] src@[kk])@.len() == 3,
            forall|kk: int, j: int|
                0 <= kk < src@.len() && 0 <= j < 3 ==> (#[trigger] src@[kk]@[j]) < 0x10000,
            out@.len() == k as int,
            forall|kk: int, j: int|
                0 <= kk < k && 0 <= j < 3 ==> (#[trigger] out@[kk]@[j]) as u32 == src@[kk]@[j],
        decreases src@.len() - k,
    {
        let e = &src[k];
        let arr = [e[0] as u16, e[1] as u16, e[2] as u16];
        proof {
            assert(arr@ =~= seq![e@[0] as u16, e@[1] as u16, e@[2] as u16]);
        }
        out.push(arr);
        k = k + 1;
    }
    out
}

/// Narrows four-component elements to 16-bit quads.
pub(crate) fn pack4_u16(src: &Vec<Vec<u32>>) -> (r: Vec<[u16; 4]>)
    requires
        forall|k: int| 0 <= k < src@.len() ==> (#[trigger] src@[k])@.len() == 4,
        forall|k: int, j: int|
            0 <= k < src@.len() && 0 <= j < 4 ==> (#[trigger] src@[k]@[j]) < 0x10000,
    ensures
        r@.len() == src@.len(),
        forall|k: int, j: int|
            0 <= k < src@.len() && 0 <= j < 4 ==> (#[trigger] r@[k]@[j]) as u32 == src@[k]@[j],
{
    let mut out: Vec<[u16; 4]> = Vec::new();
    let mut k: usize = 0;
    while k < src.len()
        invariant
            k <= src@.len(),
            forall|kk: int| 0 <= kk < src@.len() ==> (#[trigger] src@[kk])@.len() == 4,
            forall|kk: int, j: int|
                0 <= kk < src@.len() && 0 <= j < 4 ==> (#[trigger] src@[kk]@[j]) < 0x10000,
            out@.len() == k as int,
            forall|kk: int, j: int|
                0 <= kk < k && 0 <= j < 4 ==> (#[trigger] out@[kk]@[j]) as u32 == src@[kk]@[j],
        decreases src@.len() - k,
    {
        let e = &src[k];
        let arr = [e[0] as u16, e[1] as u16, e[2] as u16, e[3] as u16];
        proof {
            assert(arr@ =~= seq![e@[0] as u16, e@[1] as u16, e@[2] as u16, e@[3] as u16]);
        }
        out.push(arr);
        k = k + 1;
    }
    out
}

/// Unwraps single-component elements.
pub(crate) fn pack1_u32(src: &Vec<Vec<u32>>) -> (r: Vec<u32>)
    requires
        forall|k: int| 0 <= k < src@.len() ==> (#[trigger] src@[k])@.len() == 1,
    ensures
        r@.len() == src@.len(),
        forall|k: int| 0 <= k < src@.len() ==> #[trigger] r@[k] == src@[k]@[0],
{
    let mut out: Vec<u32> = Vec::new();
    let mut k: usize = 0;
    while k < src.len()
        invariant
            k <= src@.len(),
            forall|kk: int| 0 <= kk < src@.len() ==> (#[trigger] src@[kk])@.len() == 1,
            out@.len() == k as int,
            forall|kk: int| 0 <= kk < k ==> #[trigger] out@[kk] == src@[kk]@[0],
        decreases src@.len() - k,
    {
        let e = &src[k];
        out.push(e[0]);
        k = k + 1;
    }
    out
}

/// Packs two-component elements into pairs.
pub(crate) fn pack2_u32(src: &Vec<Vec<u32>>) -> (r: Vec<[u32; 2]>)
    requires
        forall|k: int| 0 <= k < src@.len() ==> (#[trigger] src@[k])@.len() == 2,
    ensures
        r@.len() == src@.len(),
        forall|k: int, j: int|
            0 <= k < src@.len() && 0 <= j < 2 ==> #[trigger] r@[k]@[j] == src@[k]@[j],
{
    let mut out: Vec<[u32; 2]> = Vec::new();
    let mut k: usize = 0;
    while k < src.len()
        invariant
            k <= src@.len(),
            forall|kk: int| 0 <= kk < src@.len() ==> (#[trigger] src@[kk])@.len() == 2,
            out@.len() == k as int,
            forall|kk: int, j: int|
                0 <= kk < k && 0 <= j < 2 ==> #[trigger] out@[kk]@[j] == src@[kk]@[j],
        decreases src@.len() - k,
    {
        let e = &src[k];
        let arr = [e[0], e[1]];
        proof {
            assert(arr@ =~= seq![e@[0], e@[1]]);
        }
        out.push(arr);
        k = k + 1;
    }
    out
}

/// Packs three-component elements into triples.
pub(crate) fn pack3_u32(src: &Vec<Vec<u32>>) -> (r: Vec<[u32; 3]>)
    requires
        forall|k: int| 0 <= k < src@.len() ==> (#[trigger] src@[k])@.len() == 3,
    ensures
        r@.len() == src@.len(),
        forall|k: int, j: int|
            0 <= k < src@.len() && 0 <= j < 3 ==> #[trigger] r@[k]@[j] == src@[k]@[j],
{
    let mut out: Vec<[u32; 3]> = Vec::new();
    let mut k: usize = 0;
    while k < src.len()
        invariant
            k <= src@.len(),
            forall|kk: int| 0 <= kk < src@.len() ==> (#[trigger] src@[kk])@.len() == 3,
            out@.len() == k as int,
            forall|kk: int, j: int|
                0 <= kk < k && 0 <= j < 3 ==> #[trigger] out@[kk]@[j] == src@[kk]@[j],
        decreases src@.len() - k,
    {
        let e = &src[k];
        let arr = [e[0], e[1], e[2]];
        proof {
            assert(arr@ =~= seq![e@[0], e@[1], e@[2]]);
        }
        out.push(arr);
        k = k + 1;
    }
    out
}

/// Packs four-component elements into quads.
pub(crate) fn pack4_u32(src: &Vec<Vec<u32>>) -> (r: Vec<[u32; 4]>)
    requires
        forall|k: int| 0 <= k < src@.len() ==> (#[trigger] src@[k])@.len() == 4,
    ensures
        r@.len() == src@.len(),
        forall|k: int, j: int|
            0 <= k < src@.len() && 0 <= j < 4 ==> #[trigger] r@[k]@[j] == src@[k]@[j],
{
    let mut out: Vec<[u32; 4]> = Vec::new();
    let mut k: usize = 0;
    while k < src.len()
        invariant
            k <= src@.len(),
            forall|kk: int| 0 <= kk < src@.len() ==> (#[trigger] src@[kk])@.len() == 4,
            out@.len() == k as int,
            forall|kk: int, j: int|
                0 <= kk < k && 0 <= j < 4 ==> #[trigger] out@[kk]@[j] == src@[kk]@[j],
        decreases src@.len() - k,
    {
        let e = &src[k];
        let arr = [e[0], e[1], e[2], e[3]];
        proof {
            assert(arr@ =~= seq![e@[0], e@[1], e@[2], e@[3]]);
        }
        out.push(arr);
        k = k + 1;
    }
    out
}


impl Root {
    /// Reads a primitive's index data, decoded per the index-type rule.
    ///
    /// Returns `Ok(None)` for a non-indexed primitive. Fails with
    /// `IndexOutOfRange` when the accessor reference does not resolve, with
    /// `Incompatible` when the accessor is not a scalar of an unsigned
    /// integer type, and otherwise decodes the elements exactly as
    /// [`Root::read_components`] does, into the variant matching the
    /// component type.
    pub fn read_indices(&self, p: &Primitive) -> (r: Result<Option<Indices>, ReadError>)
        ensures
            p.indices is None ==> r == Ok::<Option<Indices>, ReadError>(None),
            p.indices is Some && !(p.indices->Some_0@ < self.accessors@.len()) ==> r == Err::<
                Option<Indices>,
                ReadError,
            >(ReadError::IndexOutOfRange),
            p.indices is Some && p.indices->Some_0@ < self.accessors@.len() && !valid_index_type(
                self.accessors@[p.indices->Some_0@].component_type,
                self.accessors@[p.indices->Some_0@].kind,
            ) ==> r == Err::<Option<Indices>, ReadError>(ReadError::Incompatible),
            p.indices is Some && p.indices->Some_0@ < self.accessors@.len() && valid_index_type(
                self.accessors@[p.indices->Some_0@].component_type,
                self.accessors@[p.indices->Some_0@].kind,
            ) ==> (match components_spec(*self, self.accessors@[p.indices->Some_0@]) {
                Ok(comps) => (r matches Ok(oi) && oi matches Some(ind) && indices_components(ind)
                    == comps && (match self.accessors@[p.indices->Some_0@].component_type {
                    ComponentType::U8 => ind is U8,
                    ComponentType::U16 => ind is U16,
                    _ => ind is U32,
                })),
                Err(e) => r == Err::<Option<Indices>, ReadError>(e),
            }),
    {
        let idx = match &p.indices {
            None => {
                return Ok(None);
            },
            Some(idx) => idx,
        };
        let acc = match self.try_get(idx) {
            Ok(a) => a,
            Err(_) => {
                return Err(ReadError::IndexOutOfRange);
            },
        };
        if !is_valid_index_type(acc.ty(), acc.kind()) {
            return Err(ReadError::Incompatible);
        }
        let comps = match self.read_components(acc) {
            Ok(c) => c,
            Err(e) => {
                return Err(e);
            },
        };
        let ghost cspec = components_spec(*self, self.accessors@[idx@])->Ok_0;
        match acc.ty() {
            ComponentType::U8 => {
                let v = pack1_u8(&comps);
                proof {
                    assert(widen1_u8(v@) =~~= cspec);
                }
                Ok(Some(Indices::U8(v)))
            },
            ComponentType::U16 => {
                let v = pack1_u16(&comps);
                proof {
                    assert(widen1_u16(v@) =~~= cspec);
                }
                Ok(Some(Indices::U16(v)))
            },
            _ => {
                proof {
                    assert(acc.component_type == ComponentType::U32);
                }
                let v = pack1_u32(&comps);
                proof {
                    assert(widen1_u32(v@) =~~= cspec);
                }
                Ok(Some(Indices::U32(v)))
            },
        }
    }

    /// Reads one vertex attribute, decoded into the typed union that the
    /// compatibility table assigns to its semantic.
    ///
    /// Fails with `IndexOutOfRange` when the accessor reference does not
    /// resolve and with `Incompatible` when a known semantic meets an
    /// accessor type outside the table. A user-defined semantic is returned
    /// undecoded, as its name with the accessor reference. Otherwise the
    /// data is decoded exactly as [`Root::read_components`] does, into the
    /// variant the table assigns.
    #[verifier::rlimit(100)]
    pub fn read_attribute(&self, sem: &Semantic, idx: &Index<Accessor>) -> (r: Result<
        Attribute,
        ReadError,
    >)
        ensures
            !(idx@ < self.accessors@.len()) ==> r == Err::<Attribute, ReadError>(
                ReadError::IndexOutOfRange,
            ),
            idx@ < self.accessors@.len() && sem is Extra ==> (r matches Ok(at) && at matches
                Attribute::Extras(n, i) && n@ == semantic_name(*sem) && i@ == idx@),
            idx@ < self.accessors@.len() && !(sem is Extra) && !compatible(
                *sem,
                self.accessors@[idx@].component_type,
                self.accessors@[idx@].kind,
            ) ==> r == Err::<Attribute, ReadError>(ReadError::Incompatible),
            idx@ < self.accessors@.len() && !(sem is Extra) && compatible(
                *sem,
                self.accessors@[idx@].component_type,
                self.accessors@[idx@].kind,
            ) ==> (match components_spec(*self, self.accessors@[idx@]) {
                Ok(comps) => (r matches Ok(at) && attribute_matches(
                    at,
                    *sem,
                    self.accessors@[idx@].component_type,
                    self.accessors@[idx@].kind,
                ) && attribute_components(at) == comps),
                Err(e) => r == Err::<Attribute, ReadError>(e),
            }),
    {
        let acc = match self.try_get(idx) {
            Ok(a) => a,
            Err(_) => {
                return Err(ReadError::IndexOutOfRange);
            },
        };
        if let Semantic::Extra(name) = sem {
            return Ok(Attribute::Extras(name.clone(), *idx));
        }
        if !sem.is_compatible(acc.ty(), acc.kind()) {
            return Err(ReadError::Incompatible);
        }
        let comps = match self.read_components(acc) {
            Ok(c) => c,
            Err(e) => {
                return Err(e);
            },
        };
        let ghost cspec = components_spec(*self, self.accessors@[idx@])->Ok_0;
        let t = acc.ty();
        let kd = acc.kind();
        match sem {
            Semantic::Position => {
                let v = pack3_u32(&comps);
                proof {
                    assert(widen3_u32(v@) =~~= cspec);
                }
                Ok(Attribute::Positions(v))
            },
            Semantic::Normal => {
                let v = pack3_u32(&comps);
                proof {
                    assert(widen3_u32(v@) =~~= cspec);
                }
                Ok(Attribute::Normals(v))
            },
            Semantic::Tangent => {
                let v = pack4_u32(&comps);
                proof {
                    assert(widen4_u32(v@) =~~= cspec);
                }
                Ok(Attribute::Tangents(v))
            },
            Semantic::Color(set) => {
                if t == ComponentType::U8 && kd == Kind::Vec3 {
                    let v = pack3_u8(&comps);
                    proof {
                        assert(widen3_u8(v@) =~~= cspec);
                    }
                    Ok(Attribute::Colors(*set, Colors::RgbU8(v)))
                } else if t == ComponentType::U8 && kd == Kind::Vec4 {
                    let v = pack4_u8(&comps);
                    proof {
                        assert(widen4_u8(v@) =~~= cspec);
                    }
                    Ok(Attribute::Colors(*set, Colors::RgbaU8(v)))
                } else if t == ComponentType::U16 && kd == Kind::Vec3 {
                    let v = pack3_u16(&comps);
                    proof {
                        assert(widen3_u16(v@) =~~= cspec);
                    }
                    Ok(Attribute::Colors(*set, Colors::RgbU16(v)))
                } else if t == ComponentType::U16 && kd == Kind::Vec4 {
                    let v = pack4_u16(&comps);
                    proof {
                        assert(widen4_u16(v@) =~~= cspec);
                    }
                    Ok(Attribute::Colors(*set, Colors::RgbaU16(v)))
                } else if t == ComponentType::F32 && kd == Kind::Vec3 {
                    let v = pack3_u32(&comps);
                    proof {
                        assert(widen3_u32(v@) =~~= cspec);
                    }
                    Ok(Attribute::Colors(*set, Colors::RgbF32(v)))
                } else {
                    let v = pack4_u32(&comps);
                    proof {
                        assert(t == ComponentType::F32 && kd == Kind::Vec4);
                        assert(widen4_u32(v@) =~~= cspec);
                    }
                    Ok(Attribute::Colors(*set, Colors::RgbaF32(v)))
                }
            },
            Semantic::TexCoord(set) => {
                if t == ComponentType::F32 {
                    let v = pack2_u32(&comps);
                    proof {
                        assert(widen2_u32(v@) =~~= cspec);
                    }
                    Ok(Attribute::TexCoords(*set, TexCoords::F32(v)))
                } else if t == ComponentType::U8 {
                    let v = pack2_u8(&comps);
                    proof {
                        assert(widen2_u8(v@) =~~= cspec);
                    }
                    Ok(Attribute::TexCoords(*set, TexCoords::U8(v)))
                } else {
                    let v = pack2_u16(&comps);
                    proof {
                        assert(t == ComponentType::U16);
                        assert(widen2_u16(v@) =~~= cspec);
                    }
                    Ok(Attribute::TexCoords(*set, TexCoords::U16(v)))
                }
            },
            Semantic::Joint(set) => {
                if t == ComponentType::U8 {
                    let v = pack4_u8(&comps);
                    proof {
                        assert(widen4_u8(v@) =~~= cspec);
                    }
                    Ok(Attribute::Joints(*set, Joints::U8(v)))
                } else {
                    let v = pack4_u16(&comps);
                    proof {
                        assert(t == ComponentType::U16);
                        assert(widen4_u16(v@) =~~= cspec);
                    }
                    Ok(Attribute::Joints(*set, Joints::U16(v)))
                }
            },
            Semantic::Weight(set) => {
                if t == ComponentType::U8 {
                    let v = pack4_u8(&comps);
                    proof {
                        assert(widen4_u8(v@) =~~= cspec);
                    }
                    Ok(Attribute::Weights(*set, Weights::U8(v)))
                } else {
                    let v = pack4_u16(&comps);
                    proof {
                        assert(t == ComponentType::U16);
                        assert(widen4_u16(v@) =~~= cspec);
                    }
                    Ok(Attribute::Weights(*set, Weights::U16(v)))
                }
            },
            Semantic::Extra(name) => Ok(Attribute::Extras(name.clone(), *idx)),
        }
    }
}


impl Primitive {
    /// Reads the vertex positions of this primitive: the data of the first
    /// attribute with the position semantic, or `None` when there is none.
    pub fn positions(&self, d: &Root) -> (r: Result<Option<Positions>, ReadError>)
        ensures
            ({
                let fm = first_match(
                    self.attributes@,
                    |s: Semantic| s is Position,
                    self.attributes@.len() as int,
                );
                &&& fm == -1 ==> r == Ok::<Option<Positions>, ReadError>(None)
                &&& fm >= 0 ==> {
                    let idx = self.attributes@[fm].1;
                    if !(idx@ < d.accessors@.len()) {
                        r == Err::<Option<Positions>, ReadError>(ReadError::IndexOutOfRange)
                    } else if !compatible(
                        self.attributes@[fm].0,
                        d.accessors@[idx@].component_type,
                        d.accessors@[idx@].kind,
                    ) {
                        r == Err::<Option<Positions>, ReadError>(ReadError::Incompatible)
                    } else {
                        match components_spec(*d, d.accessors@[idx@]) {
                            Ok(comps) => (r matches Ok(op) && op matches Some(v) && widen3_u32(v@)
                                == comps),
                            Err(e) => r == Err::<Option<Positions>, ReadError>(e),
                        }
                    }
                }
            }),
    {
        let ghost f = |s: Semantic| s is Position;
        let mut k: usize = 0;
        while k < self.attributes.len()
            invariant
                k <= self.attributes@.len(),
                f == (|s: Semantic| s is Position),
                forall|kk: int| 0 <= kk < k ==> !f((#[trigger] self.attributes@[kk]).0),
            decreases self.attributes@.len() - k,
        {
            let pair = &self.attributes[k];
            let found = match &pair.0 {
                Semantic::Position => true,
                _ => false,
            };
            if found {
                proof {
                    lemma_first_match_found(
                        self.attributes@,
                        f,
                        k as int,
                        self.attributes@.len() as int,
                    );
                }
                match d.read_attribute(&pair.0, &pair.1) {
                    Err(e) => {
                        return Err(e);
                    },
                    Ok(at) => match at {
                        Attribute::Positions(v) => {
                            return Ok(Some(v));
                        },
                        _ => {
                            proof {
                                assert(false);
                            }
                            return Err(ReadError::Incompatible);
                        },
                    },
                }
            }
            k = k + 1;
        }
        proof {
            lemma_first_match_none(self.attributes@, f, self.attributes@.len() as int);
        }
        Ok(None)
    }

    /// Reads the vertex normals of this primitive: the data of the first
    /// attribute with the normal semantic, or `None` when there is none.
    pub fn normals(&self, d: &Root) -> (r: Result<Option<Normals>, ReadError>)
        ensures
            ({
                let fm = first_match(
                    self.attributes@,
                    |s: Semantic| s is Normal,
                    self.attributes@.len() as int,
                );
                &&& fm == -1 ==> r == Ok::<Option<Normals>, ReadError>(None)
                &&& fm >= 0 ==> {
                    let idx = self.attributes@[fm].1;
                    if !(idx@ < d.accessors@.len()) {
                        r == Err::<Option<Normals>, ReadError>(ReadError::IndexOutOfRange)
                    } else if !compatible(
                        self.attributes@[fm].0,
                        d.accessors@[idx@].component_type,
                        d.accessors@[idx@].kind,
                    ) {
                        r == Err::<Option<Normals>, ReadError>(ReadError::Incompatible)
                    } else {
                        match components_spec(*d, d.accessors@[idx@]) {
                            Ok(comps) => (r matches Ok(op) && op matches Some(v) && widen3_u32(v@)
                                == comps),
                            Err(e) => r == Err::<Option<Normals>, ReadError>(e),
                        }
                    }
                }
            }),
    {
        let ghost f = |s: Semantic| s is Normal;
        let mut k: usize = 0;
        while k < self.attributes.len()
            invariant
                k <= self.attributes@.len(),
                f == (|s: Semantic| s is Normal),
                forall|kk: int| 0 <= kk < k ==> !f((#[trigger] self.attributes@[kk]).0),
            decreases self.attributes@.len() - k,
        {
            let pair = &self.attributes[k];
            let found = match &pair.0 {
                Semantic::Normal => true,
                _ => false,
            };
            if found {
                proof {
                    lemma_first_match_found(
                        self.attributes@,
                        f,
                        k as int,
                        self.attributes@.len() as int,
                    );
                }
                match d.read_attribute(&pair.0, &pair.1) {
                    Err(e) => {
                        return Err(e);
                    },
                    Ok(at) => match at {
                        Attribute::Normals(v) => {
                            return Ok(Some(v));
                        },
                        _ => {
                            proof {
                                assert(false);
                            }
                            return Err(ReadError::Incompatible);
                        },
                    },
                }
            }
            k = k + 1;
        }
        proof {
            lemma_first_match_none(self.attributes@, f, self.attributes@.len() as int);
        }
        Ok(None)
    }

    /// Reads the vertex colors of the given set: the data of the first
    /// attribute with that color semantic, or `None` when there is none.
    pub fn colors(&self, set: u32, d: &Root) -> (r: Result<Option<Colors>, ReadError>)
        ensures
            ({
                let fm = first_match(
                    self.attributes@,
                    |s: Semantic| s matches Semantic::Color(c) && c == set,
                    self.attributes@.len() as int,
                );
                &&& fm == -1 ==> r == Ok::<Option<Colors>, ReadError>(None)
                &&& fm >= 0 ==> {
                    let idx = self.attributes@[fm].1;
                    if !(idx@ < d.accessors@.len()) {
                        r == Err::<Option<Colors>, ReadError>(ReadError::IndexOutOfRange)
                    } else if !compatible(
                        self.attributes@[fm].0,
                        d.accessors@[idx@].component_type,
                        d.accessors@[idx@].kind,
                    ) {
                        r == Err::<Option<Colors>, ReadError>(ReadError::Incompatible)
                    } else {
                        match components_spec(*d, d.accessors@[idx@]) {
                            Ok(comps) => (r matches Ok(op) && op matches Some(c)
                                && colors_components(c) == comps && colors_match(
                                c,
                                d.accessors@[idx@].component_type,
                                d.accessors@[idx@].kind,
                            )),
                            Err(e) => r == Err::<Option<Colors>, ReadError>(e),
                        }
                    }
                }
            }),
    {
        let ghost f = |s: Semantic| s matches Semantic::Color(c) && c == set;
        let mut k: usize = 0;
        while k < self.attributes.len()
            invariant
                k <= self.attributes@.len(),
                f == (|s: Semantic| s matches Semantic::Color(c) && c == set),
                forall|kk: int| 0 <= kk < k ==> !f((#[trigger] self.attributes@[kk]).0),
            decreases self.attributes@.len() - k,
        {
            let pair = &self.attributes[k];
            let found = match &pair.0 {
                Semantic::Color(c) => *c == set,
                _ => false,
            };
            if found {
                proof {
                    lemma_first_match_found(
                        self.attributes@,
                        f,
                        k as int,
                        self.attributes@.len() as int,
                    );
                }
                match d.read_attribute(&pair.0, &pair.1) {
                    Err(e) => {
                        return Err(e);
                    },
                    Ok(at) => match at {
                        Attribute::Colors(_, c) => {
                            return Ok(Some(c));
                        },
                        _ => {
                            proof {
                                assert(false);
                            }
                            return Err(ReadError::Incompatible);
                        },
                    },
                }
            }
            k = k + 1;
        }
        proof {
            lemma_first_match_none(self.attributes@, f, self.attributes@.len() as int);
        }
        Ok(None)
    }

    /// Reads the texture co-ordinates of the given set: the data of the
    /// first attribute with that co-ordinate semantic, or `None` when there
    /// is none.
    pub fn tex_coords(&self, set: u32, d: &Root) -> (r: Result<Option<TexCoords>, ReadError>)
        ensures
            ({
                let fm = first_match(
                    self.attributes@,
                    |s: Semantic| s matches Semantic::TexCoord(c) && c == set,
                    self.attributes@.len() as int,
                );
                &&& fm == -1 ==> r == Ok::<Option<TexCoords>, ReadError>(None)
                &&& fm >= 0 ==> {
                    let idx = self.attributes@[fm].1;
                    if !(idx@ < d.accessors@.len()) {
                        r == Err::<Option<TexCoords>, ReadError>(ReadError::IndexOutOfRange)
                    } else if !compatible(
                        self.attributes@[fm].0,
                        d.accessors@[idx@].component_type,
                        d.accessors@[idx@].kind,
                    ) {
                        r == Err::<Option<TexCoords>, ReadError>(ReadError::Incompatible)
                    } else {
                        match components_spec(*d, d.accessors@[idx@]) {
                            Ok(comps) => (r matches Ok(op) && op matches Some(c)
                                && tex_coords_components(c) == comps && tex_coords_match(
                                c,
                                d.accessors@[idx@].component_type,
                            )),
                            Err(e) => r == Err::<Option<TexCoords>, ReadError>(e),
                        }
                    }
                }
            }),
    {
        let ghost f = |s: Semantic| s matches Semantic::TexCoord(c) && c == set;
        let mut k: usize = 0;
        while k < self.attributes.len()
            invariant
                k <= self.attributes@.len(),
                f == (|s: Semantic| s matches Semantic::TexCoord(c) && c == set),
                forall|kk: int| 0 <= kk < k ==> !f((#[trigger] self.attributes@[kk]).0),
            decreases self.attributes@.len() - k,
        {
            let pair = &self.attributes[k];
            let found = match &pair.0 {
                Semantic::TexCoord(c) => *c == set,
                _ => false,
            };
            if found {
                proof {
                    lemma_first_match_found(
                        self.attributes@,
                        f,
                        k as int,
                        self.attributes@.len() as int,
                    );
                }
                match d.read_attribute(&pair.0, &pair.1) {
                    Err(e) => {
                        return Err(e);
                    },
                    Ok(at) => match at {
                        Attribute::TexCoords(_, c) => {
                            return Ok(Some(c));
                        },
                        _ => {
                            proof {
                                assert(false);
                            }
                            return Err(ReadError::Incompatible);
                        },
                    },
                }
            }
            k = k + 1;
        }
        proof {
            lemma_first_match_none(self.attributes@, f, self.attributes@.len() as int);
        }
        Ok(None)
    }
}

} // verus!
