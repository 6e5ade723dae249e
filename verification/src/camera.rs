//! `Camera` and its projection sub-blocks.

use vstd::prelude::*;

verus! {

/// Specifies whether a camera uses a perspective or orthographic projection.
#[derive(Clone, Copy, Debug, PartialEq, Eq, Structural)]
pub enum CameraType {
    Orthographic,
    Perspective,
}

/// Extension specific data for `Camera`.
#[derive(Clone, Debug, Default, PartialEq, Eq, Structural)]
pub struct CameraExtensions {

}

/// Extension specific data for `Orthographic`.
#[derive(Clone, Debug, Default, PartialEq, Eq, Structural)]
pub struct OrthographicExtensions {

}

/// Extension specific data for `Perspective`.
#[derive(Clone, Debug, Default, PartialEq, Eq, Structural)]
pub struct PerspectiveExtensions {

}

/// Values for an orthographic camera.
///
/// The magnification and clipping-plane values are IEEE 754 quantities; each
/// field carries the 32-bit little-endian bit pattern of its value.
#[derive(Clone, Debug)]
pub struct Orthographic {
    /// The horizontal magnification of the view (bit pattern).
    pub xmag: u32,
    /// The vertical magnification of the view (bit pattern).
    pub ymag: u32,
    /// The distance to the far clipping plane (bit pattern).
    pub zfar: u32,
    /// The distance to the near clipping plane (bit pattern).
    pub znear: u32,
    /// Extension specific data.
    pub extensions: OrthographicExtensions,
}

/// Values for a perspective camera.
///
/// Each field carries the 32-bit bit pattern of an IEEE 754 value.
#[derive(Clone, Debug)]
pub struct Perspective {
    /// Aspect ratio of the field of view (bit pattern).
    pub aspect_ratio: u32,
    /// The vertical field of view in radians (bit pattern).
    pub yfov: u32,
    /// The distance to the far clipping plane (bit pattern).
    pub zfar: u32,
    /// The distance to the near clipping plane (bit pattern).
    pub znear: u32,
    /// Extension specific data.
    pub extensions: PerspectiveExtensions,
}

/// A camera's projection.
///
/// A node can reference a camera to apply a transform to place the camera in
/// the scene. Exactly one of the two projection sub-blocks should be present,
/// matching the declared projection kind; validation reports a missing
/// matching block as an error and a redundant other-kind block as a warning.
#[derive(Clone, Debug)]
pub struct Camera {
    /// Optional user-defined name for this object.
    pub name: Option<String>,
    /// An orthographic camera containing properties to create an orthographic
    /// projection matrix.
    pub orthographic: Option<Orthographic>,
    /// A perspective camera containing properties to create a perspective
    /// projection matrix.
    pub perspective: Option<Perspective>,
    /// Specifies if the camera uses a perspective or orthographic projection.
    pub ty: CameraType,
    /// Extension specific data.
    pub extensions: CameraExtensions,
}

} // verus!
