//! The root object of an asset, plus indexed reference resolution.

use vstd::prelude::*;

use core::marker::PhantomData;
use crate::accessor::{Accessor, ReadError};
use crate::animation::Animation;
use crate::asset::Asset;
use crate::buffer::{Buffer, BufferView};
use crate::camera::Camera;
use crate::image::Image;
use crate::material::Material;
use crate::mesh::Mesh;
use crate::scene::{Node, Scene};
use crate::skin::Skin;
use crate::texture::{Sampler, Texture};

verus! {

/// An offset into one of the root object's top-level arrays.
///
/// The phantom type parameter records which array the offset indexes into, so
/// that an index into `meshes` cannot be confused with an index into
/// `materials`. The view of an `Index` is its numeric value.
#[derive(Debug)]
pub struct Index<T>(u32, PhantomData<T>);

impl<T> View for Index<T> {
    type V = int;

    closed spec fn view(&self) -> int {
        self.0 as int
    }
}

impl<T> Index<T> {
    /// Creates a new `Index` representing an offset into an array containing `T`.
    pub fn new(value: u32) -> (r: Self)
        ensures
            r@ == value as int,
    {
        Index(value, PhantomData)
    }

    /// Returns the internal offset value.
    pub fn value(&self) -> (r: u32)
        ensures
            r as int == self@,
    {
        self.0
    }
}

/// The numeric value of an `Index` is never negative.
pub broadcast proof fn lemma_index_nonneg<T>(i: Index<T>)
    ensures
        #[trigger] i@ >= 0,
{
}

impl<T> Clone for Index<T> {
    fn clone(&self) -> (r: Self)
        ensures
            r@ == self@,
    {
        Index(self.0, PhantomData)
    }
}

impl<T> Copy for Index<T> {

}

/// Retrieval of top-level objects by index, assuming a pre-validated index.
///
/// `get` demands an in-bounds index: callers must only use it after the
/// document has passed validation (see the bounds law in [`crate::validation`]).
pub trait Get<T> {
    /// The top-level array that indices of type `Index<T>` point into.
    spec fn items(&self) -> Seq<T>;

    /// Retrieves a single value at the given index.
    fn get<'a>(&'a self, id: &Index<T>) -> (r: &'a T)
        requires
            0 <= id@ < self.items().len(),
        ensures
            *r == self.items()[id@],
    ;
}

/// Fallible retrieval of top-level objects by index.
///
/// `try_get` never panics: it returns `Err(())` exactly when the index is out
/// of bounds for the corresponding array.
pub trait TryGet<T>: Get<T> {
    /// Attempts to retrieve a single value at the given index.
    fn try_get<'a>(&'a self, id: &Index<T>) -> (r: Result<&'a T, ()>)
        ensures
            r is Ok <==> id@ < self.items().len(),
            r matches Ok(v) ==> *v == self.items()[id@],
    ;
}

/// Extension specific data for `Root`.
#[derive(Clone, Debug, Default, PartialEq, Eq, Structural)]
pub struct RootExtensions {

}

/// The root object of an asset.
///
/// Owns the top-level entity arrays together with the pre-loaded binary
/// payloads. A `Root` is plain data: nothing about it is assumed valid until
/// [`Root::validate`] has reported no errors.
#[derive(Clone, Debug)]
pub struct Root {
    pub accessors: Vec<Accessor>,
    pub animations: Vec<Animation>,
    /// Metadata about the asset.
    pub asset: Asset,
    pub buffers: Vec<Buffer>,
    pub buffer_views: Vec<BufferView>,
    /// The default scene.
    pub default_scene: Index<Scene>,
    /// Extension specific data.
    pub extensions: RootExtensions,
    /// Names of extensions used somewhere in this asset.
    pub extensions_used: Vec<String>,
    /// Names of extensions required to properly load this asset.
    pub extensions_required: Vec<String>,
    pub cameras: Vec<Camera>,
    pub images: Vec<Image>,
    pub materials: Vec<Material>,
    pub meshes: Vec<Mesh>,
    pub nodes: Vec<Node>,
    pub samplers: Vec<Sampler>,
    pub scenes: Vec<Scene>,
    pub skins: Vec<Skin>,
    pub textures: Vec<Texture>,
    /// Pre-loaded buffer data, parallel to `buffers`.
    ///
    /// Element `i` holds the bytes of buffer `i`, read eagerly at load time
    /// by the embedding program.
    pub buffer_data: Vec<Vec<u8>>,
    /// Pre-loaded image data, parallel to `images`.
    pub image_data: Vec<ImageData>,
}

/// Data described by an `Image`: either borrowed from a buffer view or owned.
#[derive(Clone, Debug)]
pub enum ImageData {
    /// Index of the `BufferView` this image borrows from.
    FromBufferView(usize),
    /// The owned (already decoded) data this image describes.
    Owned(Vec<u8>),
}

/// The bytes that the indexed image's data stands for: its own bytes when
/// owned, else the referenced buffer view's byte range, checked against the
/// loaded data.
pub open spec fn image_data_spec(d: Root, i: int) -> Result<Seq<u8>, ReadError> {
    if !(0 <= i < d.image_data@.len()) {
        Err(ReadError::IndexOutOfRange)
    } else {
        match d.image_data@[i] {
            ImageData::Owned(data) => Ok(data@),
            ImageData::FromBufferView(bvi) => if !(bvi < d.buffer_views@.len()) {
                Err(ReadError::IndexOutOfRange)
            } else {
                let v = d.buffer_views@[bvi as int];
                if !(v.buffer@ < d.buffer_data@.len()) {
                    Err(ReadError::IndexOutOfRange)
                } else {
                    let data = d.buffer_data@[v.buffer@]@;
                    if v.byte_offset + v.byte_length <= data.len() {
                        Ok(data.subrange(v.byte_offset as int, v.byte_offset + v.byte_length))
                    } else {
                        Err(ReadError::OutOfBounds)
                    }
                }
            },
        }
    }
}

impl Root {
    /// Returns the extensions referenced in this asset.
    pub fn extensions_used(&self) -> (r: &Vec<String>)
        ensures
            r@ == self.extensions_used@,
    {
        &self.extensions_used
    }

    /// Returns the extensions required to load and render this asset.
    pub fn extensions_required(&self) -> (r: &Vec<String>)
        ensures
            r@ == self.extensions_required@,
    {
        &self.extensions_required
    }

    /// Retrieves the pre-loaded buffer data described by the indexed buffer.
    pub fn buffer_data<'a>(&'a self, index: &Index<Buffer>) -> (r: &'a Vec<u8>)
        requires
            0 <= index@ < self.buffer_data@.len(),
        ensures
            r@ == self.buffer_data@[index@]@,
    {
        &self.buffer_data[index.value() as usize]
    }

    /// Retrieves the pre-loaded image data described by the indexed image.
    ///
    /// An image either owns its (already decoded) bytes or borrows the byte
    /// range of a buffer view; in the second case the bytes are copied out
    /// of the view's range, checked against the loaded data.
    pub fn image_data(&self, index: &Index<Image>) -> (r: Result<Vec<u8>, ReadError>)
        ensures
            r is Ok <==> image_data_spec(*self, index@) is Ok,
            r matches Err(e) ==> image_data_spec(*self, index@) == Err::<Seq<u8>, ReadError>(e),
            r matches Ok(v) ==> image_data_spec(*self, index@) == Ok::<Seq<u8>, ReadError>(v@),
    {
        let i = index.value() as usize;
        if i >= self.image_data.len() {
            return Err(ReadError::IndexOutOfRange);
        }
        match &self.image_data[i] {
            ImageData::Owned(data) => Ok(data.clone()),
            ImageData::FromBufferView(bvi) => {
                if *bvi >= self.buffer_views.len() {
                    return Err(ReadError::IndexOutOfRange);
                }
                let v = &self.buffer_views[*bvi];
                let bi = v.buffer.value() as usize;
                if bi >= self.buffer_data.len() {
                    return Err(ReadError::IndexOutOfRange);
                }
                let data = &self.buffer_data[bi];
                if v.byte_offset as u64 + v.byte_length as u64 > data.len() as u64 {
                    return Err(ReadError::OutOfBounds);
                }
                let begin = v.byte_offset as usize;
                let len = v.byte_length as usize;
                let dlen = data.len();
                let mut out: Vec<u8> = Vec::new();
                let mut j: usize = 0;
                while j < len
                    invariant
                        j <= len,
                        dlen == data@.len(),
                        begin + len <= dlen,
                        out@ == data@.subrange(begin as int, begin as int + j as int),
                    decreases len - j,
                {
                    out.push(data[begin + j]);
                    proof {
                        assert(out@ =~= data@.subrange(begin as int, begin as int + j as int + 1));
                    }
                    j = j + 1;
                }
                Ok(out)
            },
        }
    }

    /// Returns a single item from the root object.
    ///
    /// The index must be in range: all values of type `Index<T>` stored in a
    /// document are bounds-checked by `validate`, so this is safe to call on
    /// indices taken from a document whose validation reported no errors.
    pub fn get<'a, T>(&'a self, index: &Index<T>) -> (r: &'a T) where Self: Get<T>
        requires
            0 <= index@ < self.items().len(),
        ensures
            *r == self.items()[index@],
    {
        Get::get(self, index)
    }

    /// Returns a single item from the root object if the index is in range.
    pub fn try_get<'a, T>(&'a self, index: &Index<T>) -> (r: Result<&'a T, ()>) where
        Self: TryGet<T>,

        ensures
            r is Ok <==> index@ < self.items().len(),
            r matches Ok(v) ==> *v == self.items()[index@],
    {
        TryGet::try_get(self, index)
    }
}

impl Get<Accessor> for Root {
    open spec fn items(&self) -> Seq<Accessor> {
        self.accessors@
    }

    fn get<'a>(&'a self, id: &Index<Accessor>) -> (r: &'a Accessor) {
        &self.accessors[id.value() as usize]
    }
}

impl TryGet<Accessor> for Root {
    fn try_get<'a>(&'a self, id: &Index<Accessor>) -> (r: Result<&'a Accessor, ()>) {
        let i = id.value() as usize;
        if i < self.accessors.len() {
            Ok(&self.accessors[i])
        } else {
            Err(())
        }
    }
}

impl Get<Animation> for Root {
    open spec fn items(&self) -> Seq<Animation> {
        self.animations@
    }

    fn get<'a>(&'a self, id: &Index<Animation>) -> (r: &'a Animation) {
        &self.animations[id.value() as usize]
    }
}

impl TryGet<Animation> for Root {
    fn try_get<'a>(&'a self, id: &Index<Animation>) -> (r: Result<&'a Animation, ()>) {
        let i = id.value() as usize;
        if i < self.animations.len() {
            Ok(&self.animations[i])
        } else {
            Err(())
        }
    }
}

impl Get<Buffer> for Root {
    open spec fn items(&self) -> Seq<Buffer> {
        self.buffers@
    }

    fn get<'a>(&'a self, id: &Index<Buffer>) -> (r: &'a Buffer) {
        &self.buffers[id.value() as usize]
    }
}

impl TryGet<Buffer> for Root {
    fn try_get<'a>(&'a self, id: &Index<Buffer>) -> (r: Result<&'a Buffer, ()>) {
        let i = id.value() as usize;
        if i < self.buffers.len() {
            Ok(&self.buffers[i])
        } else {
            Err(())
        }
    }
}

impl Get<BufferView> for Root {
    open spec fn items(&self) -> Seq<BufferView> {
        self.buffer_views@
    }

    fn get<'a>(&'a self, id: &Index<BufferView>) -> (r: &'a BufferView) {
        &self.buffer_views[id.value() as usize]
    }
}

impl TryGet<BufferView> for Root {
    fn try_get<'a>(&'a self, id: &Index<BufferView>) -> (r: Result<&'a BufferView, ()>) {
        let i = id.value() as usize;
        if i < self.buffer_views.len() {
            Ok(&self.buffer_views[i])
        } else {
            Err(())
        }
    }
}

impl Get<Camera> for Root {
    open spec fn items(&self) -> Seq<Camera> {
        self.cameras@
    }

    fn get<'a>(&'a self, id: &Index<Camera>) -> (r: &'a Camera) {
        &self.cameras[id.value() as usize]
    }
}

impl TryGet<Camera> for Root {
    fn try_get<'a>(&'a self, id: &Index<Camera>) -> (r: Result<&'a Camera, ()>) {
        let i = id.value() as usize;
        if i < self.cameras.len() {
            Ok(&self.cameras[i])
        } else {
            Err(())
        }
    }
}

impl Get<Image> for Root {
    open spec fn items(&self) -> Seq<Image> {
        self.images@
    }

    fn get<'a>(&'a self, id: &Index<Image>) -> (r: &'a Image) {
        &self.images[id.value() as usize]
    }
}

impl TryGet<Image> for Root {
    fn try_get<'a>(&'a self, id: &Index<Image>) -> (r: Result<&'a Image, ()>) {
        let i = id.value() as usize;
        if i < self.images.len() {
            Ok(&self.images[i])
        } else {
            Err(())
        }
    }
}

impl Get<Material> for Root {
    open spec fn items(&self) -> Seq<Material> {
        self.materials@
    }

    fn get<'a>(&'a self, id: &Index<Material>) -> (r: &'a Material) {
        &self.materials[id.value() as usize]
    }
}

impl TryGet<Material> for Root {
    fn try_get<'a>(&'a self, id: &Index<Material>) -> (r: Result<&'a Material, ()>) {
        let i = id.value() as usize;
        if i < self.materials.len() {
            Ok(&self.materials[i])
        } else {
            Err(())
        }
    }
}

impl Get<Mesh> for Root {
    open spec fn items(&self) -> Seq<Mesh> {
        self.meshes@
    }

    fn get<'a>(&'a self, id: &Index<Mesh>) -> (r: &'a Mesh) {
        &self.meshes[id.value() as usize]
    }
}

impl TryGet<Mesh> for Root {
    fn try_get<'a>(&'a self, id: &Index<Mesh>) -> (r: Result<&'a Mesh, ()>) {
        let i = id.value() as usize;
        if i < self.meshes.len() {
            Ok(&self.meshes[i])
        } else {
            Err(())
        }
    }
}

impl Get<Node> for Root {
    open spec fn items(&self) -> Seq<Node> {
        self.nodes@
    }

    fn get<'a>(&'a self, id: &Index<Node>) -> (r: &'a Node) {
        &self.nodes[id.value() as usize]
    }
}

impl TryGet<Node> for Root {
    fn try_get<'a>(&'a self, id: &Index<Node>) -> (r: Result<&'a Node, ()>) {
        let i = id.value() as usize;
        if i < self.nodes.len() {
            Ok(&self.nodes[i])
        } else {
            Err(())
        }
    }
}

impl Get<Sampler> for Root {
    open spec fn items(&self) -> Seq<Sampler> {
        self.samplers@
    }

    fn get<'a>(&'a self, id: &Index<Sampler>) -> (r: &'a Sampler) {
        &self.samplers[id.value() as usize]
    }
}

impl TryGet<Sampler> for Root {
    fn try_get<'a>(&'a self, id: &Index<Sampler>) -> (r: Result<&'a Sampler, ()>) {
        let i = id.value() as usize;
        if i < self.samplers.len() {
            Ok(&self.samplers[i])
        } else {
            Err(())
        }
    }
}

impl Get<Scene> for Root {
    open spec fn items(&self) -> Seq<Scene> {
        self.scenes@
    }

    fn get<'a>(&'a self, id: &Index<Scene>) -> (r: &'a Scene) {
        &self.scenes[id.value() as usize]
    }
}

impl TryGet<Scene> for Root {
    fn try_get<'a>(&'a self, id: &Index<Scene>) -> (r: Result<&'a Scene, ()>) {
        let i = id.value() as usize;
        if i < self.scenes.len() {
            Ok(&self.scenes[i])
        } else {
            Err(())
        }
    }
}

impl Get<Skin> for Root {
    open spec fn items(&self) -> Seq<Skin> {
        self.skins@
    }

    fn get<'a>(&'a self, id: &Index<Skin>) -> (r: &'a Skin) {
        &self.skins[id.value() as usize]
    }
}

impl TryGet<Skin> for Root {
    fn try_get<'a>(&'a self, id: &Index<Skin>) -> (r: Result<&'a Skin, ()>) {
        let i = id.value() as usize;
        if i < self.skins.len() {
            Ok(&self.skins[i])
        } else {
            Err(())
        }
    }
}

impl Get<Texture> for Root {
    open spec fn items(&self) -> Seq<Texture> {
        self.textures@
    }

    fn get<'a>(&'a self, id: &Index<Texture>) -> (r: &'a Texture) {
        &self.textures[id.value() as usize]
    }
}

impl TryGet<Texture> for Root {
    fn try_get<'a>(&'a self, id: &Index<Texture>) -> (r: Result<&'a Texture, ()>) {
        let i = id.value() as usize;
        if i < self.textures.len() {
            Ok(&self.textures[i])
        } else {
            Err(())
        }
    }
}

} // verus!
