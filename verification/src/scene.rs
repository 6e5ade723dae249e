//! `Scene` and `Node`.

use vstd::prelude::*;

use crate::camera::Camera;
use crate::mesh::Mesh;
use crate::root::Index;
use crate::skin::Skin;

verus! {

/// Extension specific data for `Node`.
#[derive(Clone, Debug, Default, PartialEq, Eq, Structural)]
pub struct NodeExtensions {

}

/// A node in the node hierarchy.
///
/// A node can reference a camera, a mesh and a skin, and lists its children
/// by index. Transform fields are IEEE 754 quantities carried as 32-bit bit
/// patterns.
#[derive(Clone, Debug)]
pub struct Node {
    /// The camera referenced by this node.
    pub camera: Option<Index<Camera>>,
    /// The child nodes belonging to this node in the node hierarchy.
    pub children: Vec<Index<Node>>,
    /// Extension specific data.
    pub extensions: NodeExtensions,
    /// 4x4 column-major transformation matrix (bit patterns).
    pub matrix: [u32; 16],
    /// The `Mesh` in this node.
    pub mesh: Option<Index<Mesh>>,
    /// Optional user-defined name for this object.
    pub name: Option<String>,
    /// The node's unit quaternion rotation `[x, y, z, w]` (bit patterns).
    pub rotation: [u32; 4],
    /// The node's non-uniform scale (bit patterns).
    pub scale: [u32; 3],
    /// The node's translation (bit patterns).
    pub translation: [u32; 3],
    /// The index of the skin referenced by this node.
    pub skin: Option<Index<Skin>>,
    /// The weights of the instantiated morph target (bit patterns).
    pub weights: Option<Vec<u32>>,
}

/// Extension specific data for `Scene`.
#[derive(Clone, Debug, Default, PartialEq, Eq, Structural)]
pub struct SceneExtensions {

}

/// The root `Node`s of a scene.
#[derive(Clone, Debug)]
pub struct Scene {
    /// Extension specific data.
    pub extensions: SceneExtensions,
    /// Optional user-defined name for this object.
    pub name: Option<String>,
    /// The indices of each root `Node`.
    pub nodes: Vec<Index<Node>>,
}

} // verus!
