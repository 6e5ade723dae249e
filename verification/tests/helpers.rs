//! Shared constructors for the other integration tests live in each test
//! file; this file holds smoke tests of the small utility surface.

use gltf::accessor::{ComponentType, Kind};
use gltf::mesh::{is_valid_index_type, Semantic};
use gltf::texture::{DataType, Format, MagFilter, MinFilter, Target, WrappingMode};
use gltf::validation::Error;

#[test]
fn component_sizes() {
    assert_eq!(ComponentType::I8.size(), 1);
    assert_eq!(ComponentType::U8.size(), 1);
    assert_eq!(ComponentType::I16.size(), 2);
    assert_eq!(ComponentType::U16.size(), 2);
    assert_eq!(ComponentType::U32.size(), 4);
    assert_eq!(ComponentType::F32.size(), 4);
}

#[test]
fn kind_multiplicities() {
    assert_eq!(Kind::Scalar.multiplicity(), 1);
    assert_eq!(Kind::Vec2.multiplicity(), 2);
    assert_eq!(Kind::Vec3.multiplicity(), 3);
    assert_eq!(Kind::Vec4.multiplicity(), 4);
    assert_eq!(Kind::Mat2.multiplicity(), 4);
    assert_eq!(Kind::Mat3.multiplicity(), 9);
    assert_eq!(Kind::Mat4.multiplicity(), 16);
}

#[test]
fn semantic_names() {
    assert_eq!(Semantic::Position.name_string(), "POSITION");
    assert_eq!(Semantic::Normal.name_string(), "NORMAL");
    assert_eq!(Semantic::Tangent.name_string(), "TANGENT");
    assert_eq!(Semantic::Color(0).name_string(), "COLOR_0");
    assert_eq!(Semantic::TexCoord(12).name_string(), "TEXCOORD_12");
    assert_eq!(Semantic::Joint(3).name_string(), "JOINTS_3");
    assert_eq!(Semantic::Weight(205).name_string(), "WEIGHTS_205");
    assert_eq!(
        Semantic::Extra(String::from("_CUSTOM")).name_string(),
        "_CUSTOM"
    );
}

#[test]
fn compatibility_table() {
    assert!(Semantic::Position.is_compatible(ComponentType::F32, Kind::Vec3));
    assert!(!Semantic::Position.is_compatible(ComponentType::U16, Kind::Vec3));
    assert!(Semantic::Normal.is_compatible(ComponentType::F32, Kind::Vec3));
    assert!(!Semantic::Normal.is_compatible(ComponentType::U8, Kind::Vec3));
    assert!(Semantic::Tangent.is_compatible(ComponentType::F32, Kind::Vec4));
    assert!(!Semantic::Tangent.is_compatible(ComponentType::F32, Kind::Vec3));
    assert!(Semantic::Color(0).is_compatible(ComponentType::U8, Kind::Vec3));
    assert!(Semantic::Color(0).is_compatible(ComponentType::U16, Kind::Vec4));
    assert!(Semantic::Color(0).is_compatible(ComponentType::F32, Kind::Vec4));
    assert!(!Semantic::Color(0).is_compatible(ComponentType::U32, Kind::Vec3));
    assert!(!Semantic::Color(0).is_compatible(ComponentType::U8, Kind::Vec2));
    assert!(Semantic::TexCoord(1).is_compatible(ComponentType::U8, Kind::Vec2));
    assert!(Semantic::TexCoord(1).is_compatible(ComponentType::F32, Kind::Vec2));
    assert!(!Semantic::TexCoord(1).is_compatible(ComponentType::F32, Kind::Vec3));
    assert!(Semantic::Joint(0).is_compatible(ComponentType::U8, Kind::Vec4));
    assert!(Semantic::Joint(0).is_compatible(ComponentType::U16, Kind::Vec4));
    assert!(!Semantic::Joint(0).is_compatible(ComponentType::F32, Kind::Vec4));
    assert!(Semantic::Weight(0).is_compatible(ComponentType::U16, Kind::Vec4));
    assert!(!Semantic::Weight(0).is_compatible(ComponentType::F32, Kind::Vec4));
    assert!(Semantic::Extra(String::from("_X")).is_compatible(ComponentType::U32, Kind::Mat4));
}

#[test]
fn index_type_rule() {
    assert!(is_valid_index_type(ComponentType::U8, Kind::Scalar));
    assert!(is_valid_index_type(ComponentType::U16, Kind::Scalar));
    assert!(is_valid_index_type(ComponentType::U32, Kind::Scalar));
    assert!(!is_valid_index_type(ComponentType::F32, Kind::Scalar));
    assert!(!is_valid_index_type(ComponentType::U16, Kind::Vec2));
}

#[test]
fn sampler_defaults() {
    assert_eq!(DataType::default(), DataType::U8);
    assert_eq!(Format::default(), Format::Rgba);
    assert_eq!(MagFilter::default(), MagFilter::Linear);
    assert_eq!(MinFilter::default(), MinFilter::NearestMipmapLinear);
    assert_eq!(Target::default(), Target::Texture2d);
    assert_eq!(WrappingMode::default(), WrappingMode::Repeat);
}

#[test]
fn error_message_rendering() {
    let e = Error {
        source: String::from("bufferViews[0].buffer"),
        description: String::from("Index out of range"),
    };
    assert_eq!(e.to_message(), "bufferViews[0].buffer: Index out of range");
}
