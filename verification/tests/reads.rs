//! Typed binary read scenarios.

use gltf::accessor::{Accessor, ComponentType, Kind, ReadError};
use gltf::asset::Asset;
use gltf::buffer::{Buffer, BufferExtensions, BufferView, BufferViewExtensions};
use gltf::mesh::{Attribute, Colors, Indices, Mode, Primitive, Semantic, TexCoords};
use gltf::image::{Image, ImageExtensions};
use gltf::root::{ImageData, Index, Root, RootExtensions};
use gltf::scene::{Scene, SceneExtensions};

fn root_with_bytes(bytes: Vec<u8>, byte_offset: u32, byte_length: u32, byte_stride: u32) -> Root {
    Root {
        accessors: vec![],
        animations: vec![],
        asset: Asset {
            copyright: None,
            generator: None,
            version: String::from("2.0"),
            min_version: None,
        },
        buffers: vec![Buffer {
            byte_length: bytes.len() as u32,
            name: None,
            uri: String::from("data.bin"),
            extensions: BufferExtensions::default(),
        }],
        buffer_views: vec![BufferView {
            buffer: Index::new(0),
            byte_length,
            byte_offset,
            byte_stride,
            name: None,
            target: None,
            extensions: BufferViewExtensions::default(),
        }],
        default_scene: Index::new(0),
        extensions: RootExtensions::default(),
        extensions_used: vec![],
        extensions_required: vec![],
        cameras: vec![],
        images: vec![],
        materials: vec![],
        meshes: vec![],
        nodes: vec![],
        samplers: vec![],
        scenes: vec![Scene {
            extensions: SceneExtensions::default(),
            name: None,
            nodes: vec![],
        }],
        skins: vec![],
        textures: vec![],
        buffer_data: vec![bytes],
        image_data: vec![],
    }
}

fn accessor(byte_offset: u32, t: ComponentType, k: Kind, count: u32) -> Accessor {
    Accessor {
        buffer_view: Index::new(0),
        byte_offset,
        component_type: t,
        kind: k,
        count,
        name: None,
    }
}

#[test]
fn strided_read_from_offset_four() {
    // Three 12-byte elements read with stride 0 from byte offset 4 of a
    // 40-byte buffer: elements come from offsets 4, 16 and 28.
    let mut bytes = vec![0u8; 40];
    for (i, b) in bytes.iter_mut().enumerate() {
        *b = i as u8;
    }
    let root = root_with_bytes(bytes, 4, 36, 0);
    let a = accessor(0, ComponentType::F32, Kind::Vec3, 3);
    let elems = root.read_elements(&a, 12).unwrap();
    assert_eq!(elems.len(), 3);
    assert_eq!(elems[0], (4..16).map(|i| i as u8).collect::<Vec<u8>>());
    assert_eq!(elems[1], (16..28).map(|i| i as u8).collect::<Vec<u8>>());
    assert_eq!(elems[2], (28..40).map(|i| i as u8).collect::<Vec<u8>>());
}

#[test]
fn size_mismatch_is_reported() {
    let root = root_with_bytes(vec![0u8; 40], 4, 36, 0);
    let a = accessor(0, ComponentType::F32, Kind::Vec3, 3);
    assert_eq!(root.read_elements(&a, 11), Err(ReadError::SizeMismatch));
    assert_eq!(root.read_elements(&a, 16), Err(ReadError::SizeMismatch));
    assert!(root.read_elements(&a, 12).is_ok());
}

#[test]
fn reads_past_view_are_rejected() {
    let root = root_with_bytes(vec![0u8; 40], 4, 36, 0);
    let a = accessor(0, ComponentType::F32, Kind::Vec3, 4);
    assert_eq!(root.read_elements(&a, 12), Err(ReadError::OutOfBounds));
}

#[test]
fn view_past_loaded_data_is_rejected() {
    // The view claims more bytes than were loaded: the declared buffer
    // length does not rescue the read.
    let mut root = root_with_bytes(vec![0u8; 16], 0, 36, 0);
    root.buffers[0].byte_length = 36;
    let a = accessor(0, ComponentType::F32, Kind::Vec3, 3);
    assert_eq!(root.read_elements(&a, 12), Err(ReadError::OutOfBounds));
}

#[test]
fn unresolved_references_are_rejected() {
    let root = root_with_bytes(vec![0u8; 40], 4, 36, 0);
    let mut a = accessor(0, ComponentType::F32, Kind::Vec3, 3);
    a.buffer_view = Index::new(1);
    assert_eq!(root.read_elements(&a, 12), Err(ReadError::IndexOutOfRange));
}

#[test]
fn little_endian_components() {
    let root = root_with_bytes(vec![0x00, 0x00, 0x80, 0x3F, 0x01, 0x02, 0x03, 0x04], 0, 8, 0);
    let a = accessor(0, ComponentType::F32, Kind::Vec2, 1);
    let comps = root.read_components(&a).unwrap();
    assert_eq!(comps.len(), 1);
    assert_eq!(comps[0].len(), 2);
    assert_eq!(comps[0][0], 0x3F80_0000);
    assert_eq!(f32::from_bits(comps[0][0]), 1.0);
    assert_eq!(comps[0][1], 0x0403_0201);
}

#[test]
fn interleaved_stride_skips_bytes() {
    // Two u16 pairs interleaved with 4 bytes of other data: stride 8.
    let bytes = vec![
        1, 0, 2, 0, 0xAA, 0xAA, 0xAA, 0xAA, 3, 0, 4, 0, 0xBB, 0xBB, 0xBB, 0xBB,
    ];
    let root = root_with_bytes(bytes, 0, 16, 8);
    let a = accessor(0, ComponentType::U16, Kind::Vec2, 2);
    let comps = root.read_components(&a).unwrap();
    assert_eq!(comps, vec![vec![1u32, 2], vec![3, 4]]);
}

#[test]
fn read_indices_u16() {
    let bytes = vec![1, 0, 2, 0, 0xFF, 0xFF];
    let root = root_with_bytes(bytes, 0, 6, 0);
    let mut r = root;
    r.accessors = vec![accessor(0, ComponentType::U16, Kind::Scalar, 3)];
    let p = Primitive {
        attributes: vec![],
        indices: Some(Index::new(0)),
        material: None,
        mode: Mode::Triangles,
        targets: vec![],
    };
    match r.read_indices(&p).unwrap() {
        Some(Indices::U16(v)) => assert_eq!(v, vec![1u16, 2, 65535]),
        _ => panic!("expected 16-bit indices"),
    }
}

#[test]
fn read_indices_absent_and_incompatible() {
    let root = root_with_bytes(vec![0u8; 12], 0, 12, 0);
    let mut r = root;
    r.accessors = vec![accessor(0, ComponentType::F32, Kind::Scalar, 3)];
    let no_indices = Primitive {
        attributes: vec![],
        indices: None,
        material: None,
        mode: Mode::Triangles,
        targets: vec![],
    };
    assert!(matches!(r.read_indices(&no_indices), Ok(None)));
    let bad = Primitive {
        attributes: vec![],
        indices: Some(Index::new(0)),
        material: None,
        mode: Mode::Triangles,
        targets: vec![],
    };
    assert_eq!(r.read_indices(&bad).err(), Some(ReadError::Incompatible));
    let dangling = Primitive {
        attributes: vec![],
        indices: Some(Index::new(5)),
        material: None,
        mode: Mode::Triangles,
        targets: vec![],
    };
    assert_eq!(
        r.read_indices(&dangling).err(),
        Some(ReadError::IndexOutOfRange)
    );
}

#[test]
fn read_attribute_colors_u8() {
    let bytes = vec![10, 20, 30, 40, 50, 60];
    let mut root = root_with_bytes(bytes, 0, 6, 0);
    root.accessors = vec![accessor(0, ComponentType::U8, Kind::Vec3, 2)];
    match root
        .read_attribute(&Semantic::Color(0), &Index::new(0))
        .unwrap()
    {
        Attribute::Colors(set, Colors::RgbU8(v)) => {
            assert_eq!(set, 0);
            assert_eq!(v, vec![[10u8, 20, 30], [40, 50, 60]]);
        }
        _ => panic!("expected 8-bit RGB colors"),
    }
}

#[test]
fn read_attribute_incompatible_and_extra() {
    let mut root = root_with_bytes(vec![0u8; 9], 0, 9, 0);
    root.accessors = vec![accessor(0, ComponentType::U8, Kind::Vec3, 3)];
    assert!(matches!(
        root.read_attribute(&Semantic::Normal, &Index::new(0)),
        Err(ReadError::Incompatible)
    ));
    match root
        .read_attribute(&Semantic::Extra(String::from("_X")), &Index::new(0))
        .unwrap()
    {
        Attribute::Extras(name, idx) => {
            assert_eq!(name, "_X");
            assert_eq!(idx.value(), 0);
        }
        _ => panic!("expected an undecoded user-defined attribute"),
    }
}

#[test]
fn primitive_positions_and_normals() {
    let one = 1.0f32.to_bits().to_le_bytes();
    let two = 2.0f32.to_bits().to_le_bytes();
    let mut bytes = Vec::new();
    for _ in 0..3 {
        bytes.extend_from_slice(&one);
    }
    for _ in 0..3 {
        bytes.extend_from_slice(&two);
    }
    let mut root = root_with_bytes(bytes, 0, 24, 0);
    root.accessors = vec![accessor(0, ComponentType::F32, Kind::Vec3, 2)];
    let p = Primitive {
        attributes: vec![(Semantic::Position, Index::new(0))],
        indices: None,
        material: None,
        mode: Mode::Triangles,
        targets: vec![],
    };
    let pos = p.positions(&root).unwrap().unwrap();
    assert_eq!(pos.len(), 2);
    assert_eq!(pos[0], [1.0f32.to_bits(); 3]);
    assert_eq!(pos[1], [2.0f32.to_bits(); 3]);
    assert!(p.normals(&root).unwrap().is_none());
}

#[test]
fn primitive_tex_coords_by_set() {
    let bytes = vec![1, 2, 3, 4];
    let mut root = root_with_bytes(bytes, 0, 4, 0);
    root.accessors = vec![accessor(0, ComponentType::U8, Kind::Vec2, 2)];
    let p = Primitive {
        attributes: vec![(Semantic::TexCoord(1), Index::new(0))],
        indices: None,
        material: None,
        mode: Mode::Triangles,
        targets: vec![],
    };
    assert!(p.tex_coords(0, &root).unwrap().is_none());
    match p.tex_coords(1, &root).unwrap() {
        Some(TexCoords::U8(v)) => assert_eq!(v, vec![[1u8, 2], [3, 4]]),
        _ => panic!("expected 8-bit texture co-ordinates"),
    }
    assert!(p.colors(0, &root).unwrap().is_none());
}

#[test]
fn image_data_owned_and_borrowed() {
    let mut root = root_with_bytes(vec![9, 8, 7, 6, 5], 1, 3, 0);
    root.images = vec![
        Image {
            buffer_view: None,
            mime_type: None,
            name: None,
            uri: Some(String::from("a.png")),
            extensions: ImageExtensions::default(),
        },
        Image {
            buffer_view: Some(Index::new(0)),
            mime_type: None,
            name: None,
            uri: None,
            extensions: ImageExtensions::default(),
        },
    ];
    root.image_data = vec![
        ImageData::Owned(vec![1, 2, 3]),
        ImageData::FromBufferView(0),
    ];
    assert_eq!(root.image_data(&Index::new(0)).unwrap(), vec![1, 2, 3]);
    assert_eq!(root.image_data(&Index::new(1)).unwrap(), vec![8, 7, 6]);
    assert_eq!(
        root.image_data(&Index::new(2)).err(),
        Some(ReadError::IndexOutOfRange)
    );
}

#[test]
fn view_data_is_the_views_byte_range() {
    let root = root_with_bytes(vec![9, 8, 7, 6, 5], 1, 3, 0);
    assert_eq!(root.buffer_views[0].data(&root).unwrap(), vec![8, 7, 6]);
    assert_eq!(root.buffer_views[0].stride(), 0);
    let mut oversized = root_with_bytes(vec![9, 8], 1, 3, 0);
    assert_eq!(
        oversized.buffer_views[0].data(&oversized).err(),
        Some(ReadError::OutOfBounds)
    );
    oversized.buffer_views[0].buffer = Index::new(4);
    assert_eq!(
        oversized.buffer_views[0].data(&oversized).err(),
        Some(ReadError::IndexOutOfRange)
    );
}

#[test]
fn buffer_data_by_index() {
    let root = root_with_bytes(vec![1, 2, 3], 0, 3, 0);
    assert_eq!(root.buffer_data(&Index::new(0)), &vec![1u8, 2, 3]);
}
