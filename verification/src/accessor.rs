//! `Accessor` and the typed element reader built on top of it.

use vstd::prelude::*;

use vstd::arithmetic::mul::{lemma_mul_inequality, lemma_mul_upper_bound};

use crate::buffer::BufferView;
use crate::root::{Index, Root};

verus! {

broadcast use crate::root::lemma_index_nonneg;

/// The data type of a single component of an accessor element.
#[derive(Clone, Copy, Debug, PartialEq, Eq, Structural)]
pub enum ComponentType {
    /// Signed 8-bit integer.
    I8,
    /// Unsigned 8-bit integer.
    U8,
    /// Signed 16-bit integer.
    I16,
    /// Unsigned 16-bit integer.
    U16,
    /// Unsigned 32-bit integer.
    U32,
    /// 32-bit IEEE 754 value, carried as its little-endian bit pattern.
    F32,
}

/// The shape of an accessor element: how many components each element has.
#[derive(Clone, Copy, Debug, PartialEq, Eq, Structural)]
pub enum Kind {
    Scalar,
    Vec2,
    Vec3,
    Vec4,
    Mat2,
    Mat3,
    Mat4,
}

/// The size in bytes of one component of the given type.
pub open spec fn component_size(t: ComponentType) -> int {
    match t {
        ComponentType::I8 => 1,
        ComponentType::U8 => 1,
        ComponentType::I16 => 2,
        ComponentType::U16 => 2,
        ComponentType::U32 => 4,
        ComponentType::F32 => 4,
    }
}

/// The number of components per element of the given shape.
pub open spec fn arity(k: Kind) -> int {
    match k {
        Kind::Scalar => 1,
        Kind::Vec2 => 2,
        Kind::Vec3 => 3,
        Kind::Vec4 => 4,
        Kind::Mat2 => 4,
        Kind::Mat3 => 9,
        Kind::Mat4 => 16,
    }
}

impl ComponentType {
    /// The size in bytes of one component of this type.
    pub fn size(&self) -> (r: u32)
        ensures
            r == component_size(*self),
    {
        match self {
            ComponentType::I8 => 1,
            ComponentType::U8 => 1,
            ComponentType::I16 => 2,
            ComponentType::U16 => 2,
            ComponentType::U32 => 4,
            ComponentType::F32 => 4,
        }
    }
}

impl Kind {
    /// The number of components per element of this shape.
    pub fn multiplicity(&self) -> (r: u32)
        ensures
            r == arity(*self),
    {
        match self {
            Kind::Scalar => 1,
            Kind::Vec2 => 2,
            Kind::Vec3 => 3,
            Kind::Vec4 => 4,
            Kind::Mat2 => 4,
            Kind::Mat3 => 9,
            Kind::Mat4 => 16,
        }
    }
}

/// The size in bytes of one whole element described by an accessor:
/// component size times component count.
pub open spec fn element_size(a: Accessor) -> int {
    component_size(a.component_type) * arity(a.kind)
}

/// Describes how to reinterpret a region of a `BufferView` as a sequence of
/// typed elements.
#[derive(Clone, Debug)]
pub struct Accessor {
    /// The buffer view the elements are read from.
    pub buffer_view: Index<BufferView>,
    /// Offset into the buffer view in bytes.
    pub byte_offset: u32,
    /// The data type of each component.
    pub component_type: ComponentType,
    /// The shape of each element.
    pub kind: Kind,
    /// The number of elements.
    pub count: u32,
    /// Optional user-defined name for this object.
    pub name: Option<String>,
}

impl Accessor {
    /// The data type of each component.
    pub fn ty(&self) -> (r: ComponentType)
        ensures
            r == self.component_type,
    {
        self.component_type
    }

    /// The shape of each element.
    pub fn kind(&self) -> (r: Kind)
        ensures
            r == self.kind,
    {
        self.kind
    }

    /// The size in bytes of one whole element: component size times component
    /// count.
    pub fn component_size(&self) -> (r: u32)
        ensures
            r == element_size(*self),
    {
        self.component_type.size() * self.kind.multiplicity()
    }
}


/// Error returned by the checked typed-read operations.
#[derive(Clone, Copy, Debug, PartialEq, Eq, Structural)]
pub enum ReadError {
    /// The requested element size does not equal the accessor's declared
    /// element size.
    SizeMismatch,
    /// The accessor's buffer view reference, or the view's buffer
    /// reference, does not resolve.
    IndexOutOfRange,
    /// An element would be read from outside the buffer view's byte range
    /// or outside the loaded buffer data.
    OutOfBounds,
    /// The accessor's component type and shape do not fit the requested
    /// typed interpretation.
    Incompatible,
}

/// The distance in bytes between consecutive elements read through a view:
/// the view's stride if nonzero, else the element size (tight packing).
pub open spec fn stride_of(v: BufferView, es: int) -> int {
    if v.byte_stride > 0 {
        v.byte_stride as int
    } else {
        es
    }
}

/// What reading `elem_size`-byte elements through an accessor yields.
///
/// The read fails with `SizeMismatch` exactly when `elem_size` differs from
/// the accessor's declared element size, with `IndexOutOfRange` when the
/// reference chain does not resolve, and with `OutOfBounds` when the view's
/// range runs past the loaded bytes or an element would run past the view's
/// range. Otherwise it yields exactly `count` elements; element `k` holds
/// the bytes starting `k` strides past the view's and accessor's combined
/// byte offset.
pub open spec fn elements_spec(d: Root, a: Accessor, elem_size: int) -> Result<
    Seq<Seq<u8>>,
    ReadError,
> {
    let es = element_size(a);
    if elem_size != es {
        Err(ReadError::SizeMismatch)
    } else if !(a.buffer_view@ < d.buffer_views@.len()) {
        Err(ReadError::IndexOutOfRange)
    } else {
        let v = d.buffer_views@[a.buffer_view@];
        if !(v.buffer@ < d.buffer_data@.len()) {
            Err(ReadError::IndexOutOfRange)
        } else {
            let data = d.buffer_data@[v.buffer@]@;
            let stride = stride_of(v, es);
            if v.byte_offset + v.byte_length <= data.len() && (a.count == 0 || a.byte_offset + (
            a.count - 1) * stride + es <= v.byte_length) {
                Ok(
                    Seq::new(
                        a.count as nat,
                        |k: int|
                            data.subrange(
                                v.byte_offset + a.byte_offset + k * stride,
                                v.byte_offset + a.byte_offset + k * stride + es,
                            ),
                    ),
                )
            } else {
                Err(ReadError::OutOfBounds)
            }
        }
    }
}

impl Root {
    /// Reads the elements described by an accessor as raw byte groups of
    /// the given size, without interpreting them.
    ///
    /// This is the checked entry point of the typed reader: it returns
    /// `SizeMismatch` — reading nothing — whenever `elem_size` is not the
    /// accessor's declared element size, and checks every byte it reads
    /// against the view's range and the loaded data, whether or not the
    /// document was validated.
    pub fn read_elements(&self, a: &Accessor, elem_size: usize) -> (r: Result<
        Vec<Vec<u8>>,
        ReadError,
    >)
        ensures
            r is Ok <==> elements_spec(*self, *a, elem_size as int) is Ok,
            r matches Err(e) ==> elements_spec(*self, *a, elem_size as int) == Err::<
                Seq<Seq<u8>>,
                ReadError,
            >(e),
            r matches Ok(v) ==> {
                let elems = elements_spec(*self, *a, elem_size as int)->Ok_0;
                &&& v@.len() == elems.len()
                &&& forall|k: int| 0 <= k < elems.len() ==> (#[trigger] v@[k])@ == elems[k]
                &&& forall|k: int|
                    0 <= k < elems.len() ==> (#[trigger] v@[k])@.len() == elem_size as int
            },
    {
        let es = a.component_size();
        if elem_size != es as usize {
            return Err(ReadError::SizeMismatch);
        }
        let bv = match self.try_get(&a.buffer_view) {
            Ok(v) => v,
            Err(_) => {
                return Err(ReadError::IndexOutOfRange);
            },
        };
        let bi = bv.buffer.value() as usize;
        if bi >= self.buffer_data.len() {
            return Err(ReadError::IndexOutOfRange);
        }
        let data = &self.buffer_data[bi];
        let stride64: u64 = if bv.byte_stride > 0 {
            bv.byte_stride as u64
        } else {
            es as u64
        };
        let ghost stride = stride_of(self.buffer_views@[a.buffer_view@], element_size(*a));
        if bv.byte_offset as u64 + bv.byte_length as u64 > data.len() as u64 {
            return Err(ReadError::OutOfBounds);
        }
        if a.count > 0 {
            proof {
                lemma_mul_upper_bound(a.count as int - 1, 0xFFFF_FFFFint, stride, 0xFFFF_FFFFint);
            }
            let span: u64 = (a.count as u64 - 1) * stride64;
            if a.byte_offset as u64 + span + es as u64 > bv.byte_length as u64 {
                return Err(ReadError::OutOfBounds);
            }
        }
        let ghost elems = elements_spec(*self, *a, elem_size as int)->Ok_0;
        proof {
            assert(elements_spec(*self, *a, elem_size as int) is Ok);
        }
        let count = a.count as usize;
        let base64: u64 = bv.byte_offset as u64 + a.byte_offset as u64;
        let mut out: Vec<Vec<u8>> = Vec::new();
        let mut k: usize = 0;
        while k < count
            invariant
                k <= count,
                count == a.count as int,
                elems == elements_spec(*self, *a, elem_size as int)->Ok_0,
                elements_spec(*self, *a, elem_size as int) is Ok,
                a.buffer_view@ < self.buffer_views@.len(),
                *bv == self.buffer_views@[a.buffer_view@],
                bi == bv.buffer@,
                bi < self.buffer_data@.len(),
                data == &self.buffer_data@[bi as int],
                stride == stride_of(*bv, element_size(*a)),
                stride64 == stride,
                elem_size == element_size(*a),
                1 <= elem_size <= 64,
                base64 == bv.byte_offset + a.byte_offset,
                bv.byte_offset + bv.byte_length <= data.len(),
                count > 0 ==> a.byte_offset + (count - 1) * stride + elem_size
                    <= bv.byte_length,
                out@.len() == k as int,
                forall|kk: int| 0 <= kk < k ==> (#[trigger] out@[kk])@ == elems[kk],
                forall|kk: int| 0 <= kk < k ==> (#[trigger] out@[kk])@.len() == elem_size as int,
            decreases count - k,
        {
            proof {
                lemma_mul_inequality(k as int, count - 1, stride);
                lemma_mul_upper_bound(k as int, 0xFFFF_FFFFint, stride, 0xFFFF_FFFFint);
            }
            let off64: u64 = base64 + k as u64 * stride64;
            let off = off64 as usize;
            let dlen = data.len();
            let mut elem: Vec<u8> = Vec::new();
            let mut j: usize = 0;
            while j < elem_size
                invariant
                    j <= elem_size,
                    dlen == data@.len(),
                    off + elem_size <= dlen,
                    elem@ == data@.subrange(off as int, off as int + j as int),
                decreases elem_size - j,
            {
                elem.push(data[off + j]);
                proof {
                    assert(elem@ =~= data@.subrange(off as int, off as int + j as int + 1));
                }
                j = j + 1;
            }
            out.push(elem);
            proof {
                assert(elems[k as int] == data@.subrange(
                    bv.byte_offset + a.byte_offset + k as int * stride,
                    bv.byte_offset + a.byte_offset + k as int * stride + element_size(*a),
                ));
            }
            k = k + 1;
        }
        Ok(out)
    }
}


/// The unsigned value of one, two or four bytes taken little-endian.
///
/// For a four-byte component this is the IEEE 754 bit pattern when the
/// component type is a float.
pub open spec fn le_value(s: Seq<u8>) -> int {
    if s.len() == 1 {
        s[0] as int
    } else if s.len() == 2 {
        s[0] + 0x100 * s[1]
    } else {
        s[0] + 0x100 * s[1] + 0x10000 * s[2] + 0x1000000 * s[3]
    }
}

/// The exclusive upper bound of a decoded component of the given type:
/// one-byte components stay below `0x100`, two-byte components below
/// `0x10000`, four-byte components below `0x1_0000_0000`.
pub open spec fn component_bound(t: ComponentType) -> int {
    if component_size(t) == 1 {
        0x100
    } else if component_size(t) == 2 {
        0x10000
    } else {
        0x1_0000_0000
    }
}

/// What decoding an accessor's elements into per-component little-endian
/// values yields: per element, `arity` components, each widened to 32 bits.
pub open spec fn components_spec(d: Root, a: Accessor) -> Result<Seq<Seq<u32>>, ReadError> {
    match elements_spec(d, a, element_size(a)) {
        Ok(els) => Ok(
            Seq::new(
                els.len(),
                |k: int|
                    Seq::new(
                        arity(a.kind) as nat,
                        |c: int|
                            le_value(
                                els[k].subrange(
                                    c * component_size(a.component_type),
                                    (c + 1) * component_size(a.component_type),
                                ),
                            ) as u32,
                    ),
            ),
        ),
        Err(e) => Err(e),
    }
}

impl Root {
    /// Decodes the elements described by an accessor into their components,
    /// each read little-endian and widened to 32 bits.
    ///
    /// Components of one and two byte types keep their unsigned values;
    /// four-byte components — including floats — are returned as their bit
    /// patterns. The read is checked exactly as [`Root::read_elements`] is.
    pub fn read_components(&self, a: &Accessor) -> (r: Result<Vec<Vec<u32>>, ReadError>)
        ensures
            r is Ok <==> components_spec(*self, *a) is Ok,
            r matches Err(e) ==> components_spec(*self, *a) == Err::<Seq<Seq<u32>>, ReadError>(e),
            r matches Ok(v) ==> {
                let comps = components_spec(*self, *a)->Ok_0;
                &&& v@.len() == comps.len()
                &&& forall|k: int| 0 <= k < comps.len() ==> (#[trigger] v@[k])@ == comps[k]
                &&& forall|k: int|
                    0 <= k < comps.len() ==> (#[trigger] v@[k])@.len() == arity(a.kind)
                &&& forall|k: int, c: int|
                    0 <= k < comps.len() && 0 <= c < arity(a.kind) ==> (#[trigger] v@[k]@[c])
                        < component_bound(a.component_type)
            },
    {
        let es = a.component_size() as usize;
        let elems = match self.read_elements(a, es) {
            Ok(v) => v,
            Err(e) => {
                return Err(e);
            },
        };
        let csz = a.ty().size() as usize;
        let m = a.kind().multiplicity() as usize;
        let ghost spec_elems = elements_spec(*self, *a, element_size(*a))->Ok_0;
        let ghost comps = components_spec(*self, *a)->Ok_0;
        let mut out: Vec<Vec<u32>> = Vec::new();
        let mut k: usize = 0;
        let n = elems.len();
        while k < n
            invariant
                k <= n,
                n == elems@.len(),
                csz == component_size(a.component_type),
                m == arity(a.kind),
                es == element_size(*a),
                spec_elems == elements_spec(*self, *a, element_size(*a))->Ok_0,
                elements_spec(*self, *a, element_size(*a)) is Ok,
                comps == components_spec(*self, *a)->Ok_0,
                components_spec(*self, *a) is Ok,
                elems@.len() == spec_elems.len(),
                forall|kk: int| 0 <= kk < n ==> (#[trigger] elems@[kk])@ == spec_elems[kk],
                forall|kk: int| 0 <= kk < n ==> (#[trigger] elems@[kk])@.len() == es,
                out@.len() == k as int,
                forall|kk: int| 0 <= kk < k ==> (#[trigger] out@[kk])@ == comps[kk],
                forall|kk: int| 0 <= kk < k ==> (#[trigger] out@[kk])@.len() == m as int,
                forall|kk: int, cc: int|
                    0 <= kk < k && 0 <= cc < m ==> (#[trigger] out@[kk]@[cc]) < component_bound(
                        a.component_type,
                    ),
            decreases n - k,
        {
            let e = &elems[k];
            proof {
                assert(e@ == spec_elems[k as int]);
                assert(e@.len() == es);
            }
            let mut comp: Vec<u32> = Vec::new();
            let mut c: usize = 0;
            while c < m
                invariant
                    c <= m,
                    k < n,
                    csz == component_size(a.component_type),
                    m == arity(a.kind),
                    es == element_size(*a),
                    1 <= csz <= 4,
                    e@.len() == es,
                    es == csz * m,
                    comps == components_spec(*self, *a)->Ok_0,
                    components_spec(*self, *a) is Ok,
                    comps.len() == n,
                    e@ == elements_spec(*self, *a, element_size(*a))->Ok_0[k as int],
                    comp@.len() == c as int,
                    forall|cc: int| 0 <= cc < c ==> comp@[cc] == comps[k as int][cc],
                    forall|cc: int|
                        0 <= cc < c ==> (#[trigger] comp@[cc]) < component_bound(
                            a.component_type,
                        ),
                decreases m - c,
            {
                proof {
                    lemma_mul_inequality(c as int + 1, m as int, csz as int);
                    lemma_mul_upper_bound(c as int, 16, csz as int, 4);
                    assert((c as int + 1) * csz == c as int * csz + csz) by (nonlinear_arith);
                    assert(csz as int * m as int == m as int * csz as int) by (nonlinear_arith);
                }
                let base = c * csz;
                proof {
                    assert(base + csz <= es);
                }
                let w: u32 = if csz == 1 {
                    e[base] as u32
                } else if csz == 2 {
                    e[base] as u32 + 0x100 * e[base + 1] as u32
                } else {
                    e[base] as u32 + 0x100 * e[base + 1] as u32 + 0x10000 * e[base + 2] as u32
                        + 0x1000000 * e[base + 3] as u32
                };
                proof {
                    assert(comps[k as int][c as int] == le_value(
                        e@.subrange(c as int * csz, (c as int + 1) * csz),
                    ) as u32);
                    assert(e@.subrange(c as int * csz, (c as int + 1) * csz).len() == csz);
                    assert(w == le_value(e@.subrange(c as int * csz, (c as int + 1) * csz)));
                }
                comp.push(w);
                c = c + 1;
            }
            out.push(comp);
            proof {
                assert(out@[k as int]@ =~= comps[k as int]);
            }
            k = k + 1;
        }
        Ok(out)
    }
}

} // verus!
