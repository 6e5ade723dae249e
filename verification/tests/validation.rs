//! End-to-end validation scenarios.

use gltf::accessor::{Accessor, ComponentType, Kind};
use gltf::animation::{
    Animation, AnimationExtensions, Channel, ChannelExtensions, Interpolation, Path,
    Sampler as AnimationSampler, SamplerExtensions as AnimationSamplerExtensions, Target,
    TargetExtensions,
};
use gltf::asset::Asset;
use gltf::buffer::{Buffer, BufferExtensions, BufferView, BufferViewExtensions};
use gltf::camera::{
    Camera, CameraExtensions, CameraType, Orthographic, OrthographicExtensions,
};
use gltf::image::{Image, ImageExtensions};
use gltf::material::{AlphaMode, Material, NormalTexture, PbrMetallicRoughness};
use gltf::mesh::{Mesh, Mode, Primitive, Semantic};
use gltf::root::{ImageData, Index, Root, RootExtensions};
use gltf::scene::{Node, NodeExtensions, Scene, SceneExtensions};
use gltf::skin::{Skin, SkinExtensions};
use gltf::texture::{
    DataType, Format, MagFilter, MinFilter, Sampler, SamplerExtensions, Texture,
    TextureExtensions, TextureInfo, TextureInfoExtensions, WrappingMode,
};

fn base_root() -> Root {
    Root {
        accessors: vec![],
        animations: vec![],
        asset: Asset {
            copyright: None,
            generator: None,
            version: String::from("2.0"),
            min_version: None,
        },
        buffers: vec![],
        buffer_views: vec![],
        default_scene: Index::new(0),
        extensions: RootExtensions::default(),
        extensions_used: vec![],
        extensions_required: vec![],
        cameras: vec![],
        images: vec![],
        materials: vec![],
        meshes: vec![],
        nodes: vec![],
        samplers: vec![],
        scenes: vec![Scene {
            extensions: SceneExtensions::default(),
            name: None,
            nodes: vec![],
        }],
        skins: vec![],
        textures: vec![],
        buffer_data: vec![],
        image_data: vec![],
    }
}

fn buffer(byte_length: u32) -> Buffer {
    Buffer {
        byte_length,
        name: None,
        uri: String::from("data.bin"),
        extensions: BufferExtensions::default(),
    }
}

fn view(buffer: u32, byte_offset: u32, byte_length: u32, byte_stride: u32) -> BufferView {
    BufferView {
        buffer: Index::new(buffer),
        byte_length,
        byte_offset,
        byte_stride,
        name: None,
        target: None,
        extensions: BufferViewExtensions::default(),
    }
}

fn accessor(bv: u32, byte_offset: u32, t: ComponentType, k: Kind, count: u32) -> Accessor {
    Accessor {
        buffer_view: Index::new(bv),
        byte_offset,
        component_type: t,
        kind: k,
        count,
        name: None,
    }
}

fn primitive(attributes: Vec<(Semantic, Index<Accessor>)>) -> Primitive {
    Primitive {
        attributes,
        indices: None,
        material: None,
        mode: Mode::Triangles,
        targets: vec![],
    }
}

#[test]
fn clean_document_has_no_diagnostics() {
    let root = base_root();
    let (warnings, errors) = root.validate();
    assert!(warnings.is_empty());
    assert!(errors.is_empty());
}

#[test]
fn oversized_buffer_view_single_error() {
    // One buffer of declared length 12 and a view {byte_offset: 8,
    // byte_length: 8}: exactly one "Oversized buffer view" error.
    let mut root = base_root();
    root.buffers = vec![buffer(12)];
    root.buffer_data = vec![vec![0u8; 12]];
    root.buffer_views = vec![view(0, 8, 8, 0)];
    let (warnings, errors) = root.validate();
    assert!(warnings.is_empty());
    assert_eq!(errors.len(), 1);
    assert_eq!(
        errors[0].source,
        "bufferViews[0].{byte_offset, byte_length}"
    );
    assert_eq!(errors[0].description, "Oversized buffer view");
}

#[test]
fn contained_buffer_view_no_error() {
    let mut root = base_root();
    root.buffers = vec![buffer(12)];
    root.buffer_data = vec![vec![0u8; 12]];
    root.buffer_views = vec![view(0, 4, 8, 0)];
    let (_, errors) = root.validate();
    assert!(errors.is_empty());
}

#[test]
fn buffer_view_unresolved_buffer() {
    let mut root = base_root();
    root.buffer_views = vec![view(3, 0, 4, 0)];
    let (_, errors) = root.validate();
    assert_eq!(errors.len(), 1);
    assert_eq!(errors[0].source, "bufferViews[0].buffer");
    assert_eq!(errors[0].description, "Index out of range");
}

#[test]
fn default_scene_one_past_end() {
    // The default scene index equals the scene-array length: one error with
    // the bare source "scene".
    let mut root = base_root();
    root.default_scene = Index::new(1);
    let (warnings, errors) = root.validate();
    assert!(warnings.is_empty());
    assert_eq!(errors.len(), 1);
    assert_eq!(errors[0].source, "scene");
    assert_eq!(errors[0].description, "Index out of range");
}

#[test]
fn position_with_u16_vec3_accessor() {
    // A POSITION attribute mapped to a (uint16, Vec3) accessor: one error
    // naming the POSITION attribute.
    let mut root = base_root();
    root.buffers = vec![buffer(24)];
    root.buffer_data = vec![vec![0u8; 24]];
    root.buffer_views = vec![view(0, 0, 24, 0)];
    root.accessors = vec![accessor(0, 0, ComponentType::U16, Kind::Vec3, 4)];
    root.meshes = vec![Mesh {
        name: None,
        primitives: vec![primitive(vec![(Semantic::Position, Index::new(0))])],
        weights: None,
    }];
    let (warnings, errors) = root.validate();
    assert!(warnings.is_empty());
    assert_eq!(errors.len(), 1);
    assert_eq!(
        errors[0].source,
        "meshes[0].primitives[0].attributes[POSITION]"
    );
    assert_eq!(errors[0].description, "Invalid accessor for attribute POSITION");
}

#[test]
fn normal_f32_vec3_no_diagnostic() {
    let mut root = base_root();
    root.buffers = vec![buffer(36)];
    root.buffer_data = vec![vec![0u8; 36]];
    root.buffer_views = vec![view(0, 0, 36, 0)];
    root.accessors = vec![accessor(0, 0, ComponentType::F32, Kind::Vec3, 3)];
    root.meshes = vec![Mesh {
        name: None,
        primitives: vec![primitive(vec![(Semantic::Normal, Index::new(0))])],
        weights: None,
    }];
    let (warnings, errors) = root.validate();
    assert!(warnings.is_empty());
    assert!(errors.is_empty());
}

#[test]
fn normal_u8_vec3_error() {
    let mut root = base_root();
    root.buffers = vec![buffer(9)];
    root.buffer_data = vec![vec![0u8; 9]];
    root.buffer_views = vec![view(0, 0, 9, 0)];
    root.accessors = vec![accessor(0, 0, ComponentType::U8, Kind::Vec3, 3)];
    root.meshes = vec![Mesh {
        name: None,
        primitives: vec![primitive(vec![(Semantic::Normal, Index::new(0))])],
        weights: None,
    }];
    let (_, errors) = root.validate();
    assert_eq!(errors.len(), 1);
    assert_eq!(errors[0].description, "Invalid accessor for attribute NORMAL");
}

#[test]
fn camera_missing_perspective_block() {
    // A perspective camera without a perspective sub-block but with an
    // orthographic one: one error and one warning.
    let mut root = base_root();
    root.cameras = vec![Camera {
        name: None,
        orthographic: Some(Orthographic {
            xmag: 0,
            ymag: 0,
            zfar: 0,
            znear: 0,
            extensions: OrthographicExtensions::default(),
        }),
        perspective: None,
        ty: CameraType::Perspective,
        extensions: CameraExtensions::default(),
    }];
    let (warnings, errors) = root.validate();
    assert_eq!(errors.len(), 1);
    assert_eq!(errors[0].source, "cameras[0].perspective");
    assert_eq!(errors[0].description, "Missing data");
    assert_eq!(warnings.len(), 1);
    assert_eq!(warnings[0].source, "cameras[0].orthographic");
    assert_eq!(warnings[0].description, "Redundant data");
}

#[test]
fn validate_is_idempotent() {
    let mut root = base_root();
    root.buffers = vec![buffer(12)];
    root.buffer_data = vec![vec![0u8; 12]];
    root.buffer_views = vec![view(0, 8, 8, 0), view(2, 0, 1, 0)];
    root.default_scene = Index::new(9);
    root.nodes = vec![Node {
        camera: Some(Index::new(5)),
        children: vec![Index::new(7)],
        extensions: NodeExtensions::default(),
        matrix: [0u32; 16],
        mesh: None,
        name: None,
        rotation: [0u32; 4],
        scale: [0u32; 3],
        translation: [0u32; 3],
        skin: None,
        weights: None,
    }];
    let (w1, e1) = root.validate();
    let (w2, e2) = root.validate();
    assert_eq!(w1.len(), w2.len());
    assert_eq!(e1.len(), e2.len());
    for (a, b) in w1.iter().zip(w2.iter()) {
        assert_eq!(a.source, b.source);
        assert_eq!(a.description, b.description);
    }
    for (a, b) in e1.iter().zip(e2.iter()) {
        assert_eq!(a.source, b.source);
        assert_eq!(a.description, b.description);
    }
}

#[test]
fn node_reference_errors() {
    let mut root = base_root();
    root.nodes = vec![Node {
        camera: Some(Index::new(0)),
        children: vec![Index::new(4)],
        extensions: NodeExtensions::default(),
        matrix: [0u32; 16],
        mesh: Some(Index::new(1)),
        name: None,
        rotation: [0u32; 4],
        scale: [0u32; 3],
        translation: [0u32; 3],
        skin: Some(Index::new(2)),
        weights: None,
    }];
    let (_, errors) = root.validate();
    assert_eq!(errors.len(), 4);
    assert_eq!(errors[0].source, "nodes[0].camera");
    assert_eq!(errors[1].source, "nodes[0].children[0]");
    assert_eq!(errors[2].source, "nodes[0].mesh");
    assert_eq!(errors[3].source, "nodes[0].skin");
    for e in errors.iter() {
        assert_eq!(e.description, "Index out of range");
    }
}

#[test]
fn scene_and_skin_reference_errors() {
    let mut root = base_root();
    root.scenes[0].nodes = vec![Index::new(0)];
    root.skins = vec![Skin {
        extensions: SkinExtensions::default(),
        inverse_bind_matrices: Some(Index::new(0)),
        joints: vec![Index::new(1), Index::new(2)],
        name: None,
        skeleton: Some(Index::new(3)),
    }];
    let (_, errors) = root.validate();
    assert_eq!(errors.len(), 5);
    assert_eq!(errors[0].source, "scenes[0].nodes[0]");
    assert_eq!(errors[1].source, "skins[0].accessor");
    assert_eq!(errors[2].source, "skins[0].joints[0]");
    assert_eq!(errors[3].source, "skins[0].joints[1]");
    assert_eq!(errors[4].source, "skins[0].skeleton");
}

#[test]
fn texture_reference_errors() {
    let mut root = base_root();
    root.textures = vec![Texture {
        data_type: DataType::default(),
        name: None,
        format: Format::default(),
        internal_format: Format::default(),
        sampler: Index::new(0),
        source: Index::new(0),
        target: gltf::texture::Target::default(),
        extensions: TextureExtensions::default(),
    }];
    let (_, errors) = root.validate();
    assert_eq!(errors.len(), 2);
    assert_eq!(errors[0].source, "textures[0].sampler");
    assert_eq!(errors[1].source, "textures[0].source");
}

#[test]
fn image_buffer_view_error() {
    let mut root = base_root();
    root.images = vec![Image {
        buffer_view: Some(Index::new(2)),
        mime_type: None,
        name: None,
        uri: None,
        extensions: ImageExtensions::default(),
    }];
    let (_, errors) = root.validate();
    assert_eq!(errors.len(), 1);
    assert_eq!(errors[0].source, "images[0].bufferView");
}

#[test]
fn morph_target_semantics() {
    let mut root = base_root();
    root.buffers = vec![buffer(36)];
    root.buffer_data = vec![vec![0u8; 36]];
    root.buffer_views = vec![view(0, 0, 36, 0)];
    root.accessors = vec![accessor(0, 0, ComponentType::F32, Kind::Vec3, 3)];
    let mut p = primitive(vec![(Semantic::Position, Index::new(0))]);
    p.targets = vec![vec![
        (Semantic::Position, Index::new(0)),
        (Semantic::Color(0), Index::new(0)),
        (Semantic::Normal, Index::new(9)),
    ]];
    root.meshes = vec![Mesh {
        name: None,
        primitives: vec![p],
        weights: None,
    }];
    let (_, errors) = root.validate();
    assert_eq!(errors.len(), 2);
    assert_eq!(
        errors[0].source,
        "meshes[0].primitives[0].targets[0].attributes[COLOR_0]"
    );
    assert_eq!(errors[0].description, "Invalid morph target semantic");
    assert_eq!(
        errors[1].source,
        "meshes[0].primitives[0].targets[0].attributes[NORMAL]"
    );
    assert_eq!(errors[1].description, "Index out of range");
}

#[test]
fn user_defined_attribute_warnings() {
    let mut root = base_root();
    root.buffers = vec![buffer(36)];
    root.buffer_data = vec![vec![0u8; 36]];
    root.buffer_views = vec![view(0, 0, 36, 0)];
    root.accessors = vec![accessor(0, 0, ComponentType::F32, Kind::Vec3, 3)];
    root.meshes = vec![Mesh {
        name: None,
        primitives: vec![primitive(vec![
            (Semantic::Extra(String::from("_TEMPERATURE")), Index::new(0)),
            (Semantic::Extra(String::from("HUMIDITY")), Index::new(0)),
        ])],
        weights: None,
    }];
    let (warnings, errors) = root.validate();
    assert!(errors.is_empty());
    assert_eq!(warnings.len(), 1);
    assert_eq!(
        warnings[0].source,
        "meshes[0].primitives[0].attributes[HUMIDITY]"
    );
    assert_eq!(warnings[0].description, "Missing underscore prefix");
}

#[test]
fn invalid_index_accessor() {
    let mut root = base_root();
    root.buffers = vec![buffer(36)];
    root.buffer_data = vec![vec![0u8; 36]];
    root.buffer_views = vec![view(0, 0, 36, 0)];
    root.accessors = vec![
        accessor(0, 0, ComponentType::F32, Kind::Vec3, 3),
        accessor(0, 0, ComponentType::F32, Kind::Scalar, 3),
    ];
    let mut p = primitive(vec![(Semantic::Position, Index::new(0))]);
    p.indices = Some(Index::new(1));
    root.meshes = vec![Mesh {
        name: None,
        primitives: vec![p],
        weights: None,
    }];
    let (_, errors) = root.validate();
    assert_eq!(errors.len(), 1);
    assert_eq!(errors[0].source, "meshes[0].primitives[0].indices");
    assert_eq!(errors[0].description, "Invalid accessor for indices");
}

#[test]
fn animation_reference_errors() {
    let mut root = base_root();
    root.animations = vec![Animation {
        extensions: AnimationExtensions::default(),
        channels: vec![Channel {
            sampler: Index::new(1),
            target: Target {
                extensions: TargetExtensions::default(),
                node: Index::new(0),
                path: Path::Rotation,
            },
            extensions: ChannelExtensions::default(),
        }],
        name: None,
        samplers: vec![AnimationSampler {
            extensions: AnimationSamplerExtensions::default(),
            input: Index::new(0),
            interpolation: Interpolation::Linear,
            output: Index::new(1),
        }],
    }];
    let (_, errors) = root.validate();
    assert_eq!(errors.len(), 4);
    assert_eq!(errors[0].source, "animations[0].samplers[0].input");
    assert_eq!(errors[1].source, "animations[0].samplers[0].output");
    assert_eq!(errors[2].source, "animations[0].channels[0].target.node");
    assert_eq!(errors[3].source, "animations[0].channels[0].sampler");
}

#[test]
fn two_digit_collection_index() {
    let mut root = base_root();
    root.buffer_views = (0..11).map(|_| view(9, 0, 1, 0)).collect();
    let (_, errors) = root.validate();
    assert_eq!(errors.len(), 11);
    assert_eq!(errors[10].source, "bufferViews[10].buffer");
}

#[test]
fn try_get_bounds() {
    let mut root = base_root();
    root.buffers = vec![buffer(4)];
    let ok: Result<&Buffer, ()> = root.try_get(&Index::new(0));
    assert!(ok.is_ok());
    assert_eq!(ok.unwrap().byte_length, 4);
    let err: Result<&Buffer, ()> = root.try_get(&Index::new(1));
    assert!(err.is_err());
    let past: Result<&Sampler, ()> = root.try_get(&Index::new(0));
    assert!(past.is_err());
}

#[test]
fn material_texture_reference_errors() {
    let mut root = base_root();
    root.materials = vec![Material {
        name: None,
        pbr_metallic_roughness: PbrMetallicRoughness {
            base_color_factor: [0u32; 4],
            base_color_texture: Some(TextureInfo {
                index: Index::new(0),
                tex_coord: 0,
                extensions: TextureInfoExtensions::default(),
            }),
            metallic_factor: 0,
            roughness_factor: 0,
            metallic_roughness_texture: None,
        },
        normal_texture: Some(NormalTexture {
            index: Index::new(2),
            scale: 0,
            tex_coord: 0,
        }),
        occlusion_texture: None,
        emissive_texture: None,
        emissive_factor: [0u32; 3],
        alpha_mode: AlphaMode::Opaque,
    }];
    let (_, errors) = root.validate();
    assert_eq!(errors.len(), 2);
    assert_eq!(errors[0].source, "materials[0].baseColorTexture");
    assert_eq!(errors[1].source, "materials[0].normalTexture");
}

#[test]
fn fully_populated_clean_document() {
    let mut root = base_root();
    root.buffers = vec![buffer(36)];
    root.buffer_data = vec![vec![0u8; 36]];
    root.buffer_views = vec![view(0, 0, 36, 0)];
    root.accessors = vec![
        accessor(0, 0, ComponentType::F32, Kind::Vec3, 3),
        accessor(0, 0, ComponentType::U16, Kind::Scalar, 3),
    ];
    root.images = vec![Image {
        buffer_view: Some(Index::new(0)),
        mime_type: None,
        name: None,
        uri: None,
        extensions: ImageExtensions::default(),
    }];
    root.image_data = vec![ImageData::FromBufferView(0)];
    root.samplers = vec![Sampler {
        mag_filter: MagFilter::default(),
        min_filter: MinFilter::default(),
        name: None,
        wrap_s: WrappingMode::default(),
        wrap_t: WrappingMode::default(),
        extensions: SamplerExtensions::default(),
    }];
    root.textures = vec![Texture {
        data_type: DataType::default(),
        name: None,
        format: Format::default(),
        internal_format: Format::default(),
        sampler: Index::new(0),
        source: Index::new(0),
        target: gltf::texture::Target::default(),
        extensions: TextureExtensions::default(),
    }];
    root.materials = vec![Material {
        name: None,
        pbr_metallic_roughness: PbrMetallicRoughness {
            base_color_factor: [0u32; 4],
            base_color_texture: Some(TextureInfo {
                index: Index::new(0),
                tex_coord: 0,
                extensions: TextureInfoExtensions::default(),
            }),
            metallic_factor: 0,
            roughness_factor: 0,
            metallic_roughness_texture: None,
        },
        normal_texture: None,
        occlusion_texture: None,
        emissive_texture: None,
        emissive_factor: [0u32; 3],
        alpha_mode: AlphaMode::Opaque,
    }];
    let mut p = primitive(vec![(Semantic::Position, Index::new(0))]);
    p.indices = Some(Index::new(1));
    p.material = Some(Index::new(0));
    p.targets = vec![vec![(Semantic::Position, Index::new(0))]];
    root.meshes = vec![Mesh {
        name: None,
        primitives: vec![p],
        weights: None,
    }];
    root.nodes = vec![Node {
        camera: None,
        children: vec![],
        extensions: NodeExtensions::default(),
        matrix: [0u32; 16],
        mesh: Some(Index::new(0)),
        name: None,
        rotation: [0u32; 4],
        scale: [0u32; 3],
        translation: [0u32; 3],
        skin: None,
        weights: None,
    }];
    root.scenes[0].nodes = vec![Index::new(0)];
    root.animations = vec![Animation {
        extensions: AnimationExtensions::default(),
        channels: vec![Channel {
            sampler: Index::new(0),
            target: Target {
                extensions: TargetExtensions::default(),
                node: Index::new(0),
                path: Path::Translation,
            },
            extensions: ChannelExtensions::default(),
        }],
        name: None,
        samplers: vec![AnimationSampler {
            extensions: AnimationSamplerExtensions::default(),
            input: Index::new(0),
            interpolation: Interpolation::Step,
            output: Index::new(0),
        }],
    }];
    root.skins = vec![Skin {
        extensions: SkinExtensions::default(),
        inverse_bind_matrices: None,
        joints: vec![Index::new(0)],
        name: None,
        skeleton: Some(Index::new(0)),
    }];
    let (warnings, errors) = root.validate();
    assert!(warnings.is_empty());
    assert!(errors.is_empty());
}

#[test]
fn get_returns_stored_entity() {
    let mut root = base_root();
    root.buffers = vec![buffer(7), buffer(9)];
    let b: &Buffer = root.get(&Index::new(1));
    assert_eq!(b.byte_length, 9);
    assert_eq!(root.extensions_used().len(), 0);
    assert_eq!(root.extensions_required().len(), 0);
}
