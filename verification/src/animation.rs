//! `Animation` and its channels and samplers.

use vstd::prelude::*;

use crate::accessor::Accessor;
use crate::root::Index;
use crate::scene::Node;

verus! {

/// The interpolation algorithm of an animation sampler.
#[derive(Clone, Copy, Debug, PartialEq, Eq, Structural)]
pub enum Interpolation {
    Linear,
    Step,
}

/// The name of a node property that an animation channel modifies.
#[derive(Clone, Copy, Debug, PartialEq, Eq, Structural)]
pub enum Path {
    Rotation,
    Scale,
    Translation,
    Weights,
}

/// Extension specific data for `Animation`.
#[derive(Clone, Debug, Default, PartialEq, Eq, Structural)]
pub struct AnimationExtensions {

}

/// Extension specific data for `Channel`.
#[derive(Clone, Debug, Default, PartialEq, Eq, Structural)]
pub struct ChannelExtensions {

}

/// Extension specific data for `Target`.
#[derive(Clone, Debug, Default, PartialEq, Eq, Structural)]
pub struct TargetExtensions {

}

/// Extension specific data for `Sampler`.
#[derive(Clone, Debug, Default, PartialEq, Eq, Structural)]
pub struct SamplerExtensions {

}

/// The index of the node and property that an animation channel targets.
#[derive(Clone, Debug)]
pub struct Target {
    /// Extension specific data.
    pub extensions: TargetExtensions,
    /// The index of the node to target.
    pub node: Index<Node>,
    /// The name of the node's property to modify, or `weights` for the morph
    /// targets it instantiates.
    pub path: Path,
}

/// Defines a keyframe graph but not its target.
#[derive(Clone, Debug)]
pub struct Sampler {
    /// Extension specific data.
    pub extensions: SamplerExtensions,
    /// The index of the accessor containing keyframe input values (e.g. time).
    pub input: Index<Accessor>,
    /// The interpolation algorithm.
    pub interpolation: Interpolation,
    /// The index of an accessor containing keyframe output values.
    pub output: Index<Accessor>,
}

/// Targets an animation's sampler at a node's property.
///
/// The `sampler` index refers into the owning animation's `samplers` array,
/// not into a top-level array of the document.
#[derive(Clone, Debug)]
pub struct Channel {
    /// The index of the sampler used to compute the value for the target.
    pub sampler: Index<Sampler>,
    /// The index of the node and property to target.
    pub target: Target,
    /// Extension specific data.
    pub extensions: ChannelExtensions,
}

/// A keyframe animation.
#[derive(Clone, Debug)]
pub struct Animation {
    /// Extension specific data.
    pub extensions: AnimationExtensions,
    /// An array of channels, each of which targets an animation's sampler at
    /// a node's property.
    pub channels: Vec<Channel>,
    /// Optional user-defined name for this object.
    pub name: Option<String>,
    /// An array of samplers that combine input and output accessors with an
    /// interpolation algorithm to define a keyframe graph.
    pub samplers: Vec<Sampler>,
}

} // verus!
