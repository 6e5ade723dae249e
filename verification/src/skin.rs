//! `Skin`: joints and matrices defining a skin.

use vstd::prelude::*;

use crate::accessor::Accessor;
use crate::root::Index;
use crate::scene::Node;

verus! {

/// Extension specific data for `Skin`.
#[derive(Clone, Debug, Default, PartialEq, Eq, Structural)]
pub struct SkinExtensions {

}

/// Joints and matrices defining a skin.
#[derive(Clone, Debug)]
pub struct Skin {
    /// Extension specific data.
    pub extensions: SkinExtensions,
    /// The index of the accessor containing the 4x4 inverse-bind matrices.
    ///
    /// When `None`, each matrix is assumed to be the 4x4 identity matrix,
    /// which implies that the inverse-bind matrices were pre-applied.
    pub inverse_bind_matrices: Option<Index<Accessor>>,
    /// Indices of skeleton nodes used as joints in this skin.
    pub joints: Vec<Index<Node>>,
    /// Optional user-defined name for this object.
    pub name: Option<String>,
    /// The index of the node used as a skeleton root.
    ///
    /// When `None`, joint transforms resolve to the scene root.
    pub skeleton: Option<Index<Node>>,
}

} // verus!
