//! `Image` data used to create a texture.

use vstd::prelude::*;

use crate::buffer::BufferView;
use crate::root::Index;

verus! {

/// Extension specific data for `Image`.
#[derive(Clone, Debug, Default, PartialEq, Eq, Structural)]
pub struct ImageExtensions {

}

/// Image data used to create a texture.
#[derive(Clone, Debug)]
pub struct Image {
    /// The `BufferView` that contains the image if `uri` is `None`.
    pub buffer_view: Option<Index<BufferView>>,
    /// The image's MIME type.
    pub mime_type: Option<String>,
    /// Optional user-defined name for this object.
    pub name: Option<String>,
    /// The uniform resource identifier of the image if `buffer_view` is
    /// `None`. Relative paths are relative to the source file.
    pub uri: Option<String>,
    /// Extension specific data.
    pub extensions: ImageExtensions,
}

} // verus!
