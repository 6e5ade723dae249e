//! `Buffer` and `BufferView`.

use vstd::prelude::*;

use crate::accessor::ReadError;
use crate::root::{Index, Root};

verus! {

/// Optional target a buffer should be bound to.
#[derive(Clone, Copy, Debug, PartialEq, Eq, Structural)]
pub enum Target {
    ArrayBuffer,
    ElementArrayBuffer,
}

/// Extension specific data for `Buffer`.
#[derive(Clone, Debug, Default, PartialEq, Eq, Structural)]
pub struct BufferExtensions {

}

/// A buffer points to binary data representing geometry, animations, or skins.
#[derive(Clone, Debug)]
pub struct Buffer {
    /// The length of the buffer in bytes.
    pub byte_length: u32,
    /// Optional user-defined name for this object.
    pub name: Option<String>,
    /// Uniform resource locator of the buffer, relative to the source file.
    pub uri: String,
    /// Extension specific data.
    pub extensions: BufferExtensions,
}

/// Extension specific data for `BufferView`.
#[derive(Clone, Debug, Default, PartialEq, Eq, Structural)]
pub struct BufferViewExtensions {

}

/// A view into a buffer, generally representing a subset of the buffer.
#[derive(Clone, Debug)]
pub struct BufferView {
    /// The parent `Buffer`.
    pub buffer: Index<Buffer>,
    /// The length of the `BufferView` in bytes.
    pub byte_length: u32,
    /// Offset into the parent buffer in bytes.
    pub byte_offset: u32,
    /// The stride in bytes between vertex attributes or other interleavable
    /// data. When zero, data is assumed to be tightly packed.
    pub byte_stride: u32,
    /// Optional user-defined name for this object.
    pub name: Option<String>,
    /// Optional target the buffer should be bound to.
    pub target: Option<Target>,
    /// Extension specific data.
    pub extensions: BufferViewExtensions,
}

/// The bytes a buffer view stands for: its byte range within the loaded
/// data of the referenced buffer, checked against that data.
pub open spec fn view_data_spec(v: BufferView, d: Root) -> Result<Seq<u8>, ReadError> {
    if !(v.buffer@ < d.buffer_data@.len()) {
        Err(ReadError::IndexOutOfRange)
    } else {
        let data = d.buffer_data@[v.buffer@]@;
        if v.byte_offset + v.byte_length <= data.len() {
            Ok(data.subrange(v.byte_offset as int, v.byte_offset + v.byte_length))
        } else {
            Err(ReadError::OutOfBounds)
        }
    }
}

impl BufferView {
    /// The stride in bytes between elements of interleavable data.
    ///
    /// When zero, data is assumed to be tightly packed.
    pub fn stride(&self) -> (r: u32)
        ensures
            r == self.byte_stride,
    {
        self.byte_stride
    }

    /// Copies out the slice of the pre-loaded buffer data this view covers.
    ///
    /// Note that this is not the same as the entire contents of the parent
    /// buffer: only the view's byte range is returned, and the range is
    /// checked against the loaded bytes whether or not the document was
    /// validated.
    pub fn data(&self, d: &Root) -> (r: Result<Vec<u8>, ReadError>)
        ensures
            r is Ok <==> view_data_spec(*self, *d) is Ok,
            r matches Err(e) ==> view_data_spec(*self, *d) == Err::<Seq<u8>, ReadError>(e),
            r matches Ok(v) ==> view_data_spec(*self, *d) == Ok::<Seq<u8>, ReadError>(v@),
    {
        let bi = self.buffer.value() as usize;
        if bi >= d.buffer_data.len() {
            return Err(ReadError::IndexOutOfRange);
        }
        let data = &d.buffer_data[bi];
        if self.byte_offset as u64 + self.byte_length as u64 > data.len() as u64 {
            return Err(ReadError::OutOfBounds);
        }
        let begin = self.byte_offset as usize;
        let len = self.byte_length as usize;
        let dlen = data.len();
        let mut out: Vec<u8> = Vec::new();
        let mut j: usize = 0;
        while j < len
            invariant
                j <= len,
                dlen == data@.len(),
                begin + len <= dlen,
                out@ == data@.subrange(begin as int, begin as int + j as int),
            decreases len - j,
        {
            out.push(data[begin + j]);
            proof {
                assert(out@ =~= data@.subrange(begin as int, begin as int + j as int + 1));
            }
            j = j + 1;
        }
        Ok(out)
    }
}

} // verus!
