//! Validation of a whole document.
//!
//! [`crate::root::Root::validate`] walks every top-level collection in
//! document order and checks index bounds and cross-field consistency,
//! producing two ordered buckets of diagnostics: warnings (non-fatal) and
//! errors (fatal). The pass never aborts early and never panics: every
//! malformation becomes a diagnostic.
//!
//! Each diagnostic pairs a path-like source string, built by prefixing the
//! enclosing collection name and index (`meshes[2].primitives[0].indices`),
//! with a short description of the defect.

use vstd::prelude::*;

use crate::accessor::Accessor;
use crate::animation::Animation;
use crate::buffer::BufferView;
use crate::camera::{Camera, CameraType};
use crate::image::Image;
use crate::material::Material;
use crate::mesh::{
    compatible,
    semantic_name,
    valid_index_type,
    is_valid_index_type,
    Mesh,
    Primitive,
    Semantic,
};
use crate::root::{Get, Index, Root, TryGet};
use crate::scene::{Node, Scene};
use crate::skin::Skin;
use crate::texture::Texture;

verus! {

broadcast use crate::root::lemma_index_nonneg;

/// The mathematical form of one diagnostic: a source path and a description,
/// both as character sequences.
pub ghost struct Diag {
    pub source: Seq<char>,
    pub description: Seq<char>,
}

/// Source and description of a malformed document.
#[derive(Clone, Debug)]
pub struct Error {
    /// The path of the field the diagnostic originates from, such as
    /// `bufferViews[0].buffer`.
    pub source: String,
    /// A short description of the detected condition.
    pub description: String,
}

impl View for Error {
    type V = Diag;

    open spec fn view(&self) -> Diag {
        Diag { source: self.source@, description: self.description@ }
    }
}

impl Error {
    /// Renders the diagnostic as `source: description`.
    pub fn to_message(&self) -> (r: String)
        ensures
            r@ == self@.source + ": "@ + self@.description,
    {
        self.source.clone().concat(": ").concat(self.description.as_str())
    }
}

/// The views of a sequence of collected diagnostics.
pub open spec fn diags(s: Seq<Error>) -> Seq<Diag> {
    s.map_values(|e: Error| e@)
}

/// A diagnostic list and its views have the same length; in particular, a
/// `validate` result with an empty error vector stands for an empty
/// `errors_spec`, which is what [`lemma_no_errors_implies_refs_valid`]
/// asks for.
pub proof fn lemma_diags_len(s: Seq<Error>)
    ensures
        diags(s).len() == s.len(),
{
}

/// The same diagnostics with `p` prepended to every source path.
pub open spec fn with_prefix(p: Seq<char>, ds: Seq<Diag>) -> Seq<Diag> {
    ds.map_values(|d: Diag| Diag { source: p + d.source, description: d.description })
}

/// The decimal digits of `n`, most significant first.
pub open spec fn dec_spec(n: nat) -> Seq<char>
    decreases n,
{
    if n < 10 {
        dec_digit(n as int)
    } else {
        dec_spec(n / 10) + dec_digit((n % 10) as int)
    }
}

/// The single decimal digit `d` as a one-character sequence.
pub open spec fn dec_digit(d: int) -> Seq<char> {
    if d == 0 {
        "0"@
    } else if d == 1 {
        "1"@
    } else if d == 2 {
        "2"@
    } else if d == 3 {
        "3"@
    } else if d == 4 {
        "4"@
    } else if d == 5 {
        "5"@
    } else if d == 6 {
        "6"@
    } else if d == 7 {
        "7"@
    } else {
        if d == 8 {
            "8"@
        } else {
            "9"@
        }
    }
}

/// Renders `n` in decimal.
pub fn dec_string(n: usize) -> (s: String)
    ensures
        s@ == dec_spec(n as nat),
    decreases n,
{
    let r = n % 10;
    let d: &str = if r == 0 {
        "0"
    } else if r == 1 {
        "1"
    } else if r == 2 {
        "2"
    } else if r == 3 {
        "3"
    } else if r == 4 {
        "4"
    } else if r == 5 {
        "5"
    } else if r == 6 {
        "6"
    } else if r == 7 {
        "7"
    } else if r == 8 {
        "8"
    } else {
        "9"
    };
    if n < 10 {
        String::from_str(d)
    } else {
        let s = dec_string(n / 10);
        s.concat(d)
    }
}

/// The source prefix naming element `i` of collection `name`:
/// `name`, `[`, the decimal digits of `i`, `].`.
pub open spec fn elem_prefix(name: Seq<char>, i: int) -> Seq<char> {
    name + "["@ + dec_spec(i as nat) + "]."@
}

/// Builds the source prefix naming element `i` of collection `name`.
pub fn make_prefix(name: &str, i: usize) -> (s: String)
    ensures
        s@ == elem_prefix(name@, i as int),
{
    let digits = dec_string(i);
    String::from_str(name).concat("[").concat(digits.as_str()).concat("].")
}

/// Appends one diagnostic whose source is `prefix` followed by `source`.
pub(crate) fn push_error(errs: &mut Vec<Error>, prefix: &str, source: &str, description: &str)
    ensures
        diags(final(errs)@) == diags(old(errs)@) + seq![
            Diag { source: prefix@ + source@, description: description@ },
        ],
{
    let e = Error {
        source: String::from_str(prefix).concat(source),
        description: String::from_str(description),
    };
    let ghost dv = e@;
    errs.push(e);
    proof {
        assert(diags(final(errs)@) =~= diags(old(errs)@) + seq![dv]);
    }
}

/// Prefixing distributes over concatenation of diagnostic sequences.
pub proof fn lemma_with_prefix_concat(p: Seq<char>, a: Seq<Diag>, b: Seq<Diag>)
    ensures
        with_prefix(p, a + b) == with_prefix(p, a) + with_prefix(p, b),
{
    assert(with_prefix(p, a + b) =~= with_prefix(p, a) + with_prefix(p, b));
}

/// Prefixing with `q` and then with `p` is prefixing with `p + q`.
pub proof fn lemma_with_prefix_compose(p: Seq<char>, q: Seq<char>, s: Seq<Diag>)
    ensures
        with_prefix(p, with_prefix(q, s)) == with_prefix(p + q, s),
{
    assert forall|i: int| 0 <= i < s.len() implies with_prefix(p, with_prefix(q, s))[i]
        == with_prefix(p + q, s)[i] by {
        assert(p + (q + s[i].source) =~= (p + q) + s[i].source);
    }
    assert(with_prefix(p, with_prefix(q, s)) =~= with_prefix(p + q, s));
}

/// Prefixing a single diagnostic prepends `p` to its source.
pub proof fn lemma_with_prefix_one(p: Seq<char>, d: Diag)
    ensures
        with_prefix(p, seq![d]) == seq![Diag { source: p + d.source, description: d.description }],
{
    assert(with_prefix(p, seq![d]) =~= seq![
        Diag { source: p + d.source, description: d.description },
    ]);
}

/// The description shared by all unresolved-reference diagnostics.
pub open spec fn oor_desc() -> Seq<char> {
    "Index out of range"@
}

/// The source string naming element `i` of list field `name`:
/// `name`, `[`, the decimal digits of `i`, `]`.
pub open spec fn elem_ref(name: Seq<char>, i: int) -> Seq<char> {
    name + "["@ + dec_spec(i as nat) + "]"@
}

/// Builds the source string naming element `i` of list field `name`.
pub fn make_ref(name: &str, i: usize) -> (s: String)
    ensures
        s@ == elem_ref(name@, i as int),
{
    let digits = dec_string(i);
    String::from_str(name).concat("[").concat(digits.as_str()).concat("]")
}

/// The diagnostics of one reference: an `Index out of range` error at `src`
/// exactly when `i` does not fall inside a collection of length `len`.
pub open spec fn idx_oor(i: int, len: int, src: Seq<char>) -> Seq<Diag> {
    if i < len {
        Seq::empty()
    } else {
        seq![Diag { source: src, description: oor_desc() }]
    }
}

/// The diagnostics of one optional reference: as [`idx_oor`] when present,
/// nothing when absent.
pub open spec fn opt_idx_oor<T>(o: Option<Index<T>>, len: int, src: Seq<char>) -> Seq<Diag> {
    match o {
        Some(i) => idx_oor(i@, len, src),
        None => Seq::empty(),
    }
}

/// The diagnostics of the first `n` references of a list field `name`: an
/// `Index out of range` error at `name[i]` for each reference not inside a
/// collection of length `len`.
pub open spec fn refs_upto<T>(v: Seq<Index<T>>, len: int, name: Seq<char>, n: int) -> Seq<Diag>
    decreases n,
{
    if n <= 0 {
        Seq::empty()
    } else {
        refs_upto(v, len, name, n - 1) + idx_oor(v[n - 1]@, len, elem_ref(name, n - 1))
    }
}

/// Checks one reference against the collection it points into, reporting
/// `Index out of range` at `prefix` + `src` if it does not resolve.
pub(crate) fn check_ref<T>(
    i: &Index<T>,
    d: &Root,
    prefix: &str,
    src: &str,
    errs: &mut Vec<Error>,
) where Root: TryGet<T>
    ensures
        diags(final(errs)@) == diags(old(errs)@) + with_prefix(
            prefix@,
            idx_oor(i@, <Root as Get<T>>::items(d).len() as int, src@),
        ),
{
    let ghost contribution = idx_oor(i@, <Root as Get<T>>::items(d).len() as int, src@);
    match d.try_get(i) {
        Ok(_) => {
            proof {
                assert(diags(errs@) =~= diags(errs@) + with_prefix(prefix@, contribution));
            }
        },
        Err(_) => {
            push_error(errs, prefix, src, "Index out of range");
            proof {
                lemma_with_prefix_one(prefix@, contribution[0]);
            }
        },
    }
}

/// Checks one optional reference, reporting `Index out of range` at
/// `prefix` + `src` if it is present and does not resolve.
pub(crate) fn check_opt_ref<T>(
    o: &Option<Index<T>>,
    d: &Root,
    prefix: &str,
    src: &str,
    errs: &mut Vec<Error>,
) where Root: TryGet<T>
    ensures
        diags(final(errs)@) == diags(old(errs)@) + with_prefix(
            prefix@,
            opt_idx_oor(*o, <Root as Get<T>>::items(d).len() as int, src@),
        ),
{
    match o {
        Some(i) => {
            check_ref(i, d, prefix, src, errs);
        },
        None => {
            proof {
                assert(diags(errs@) =~= diags(errs@) + with_prefix(
                    prefix@,
                    opt_idx_oor(*o, <Root as Get<T>>::items(d).len() as int, src@),
                ));
            }
        },
    }
}

/// Checks every reference of a list field, reporting `Index out of range` at
/// `prefix` + `name[i]` for each entry that does not resolve.
pub(crate) fn check_ref_list<T>(
    v: &Vec<Index<T>>,
    d: &Root,
    prefix: &str,
    name: &str,
    errs: &mut Vec<Error>,
) where Root: TryGet<T>
    ensures
        diags(final(errs)@) == diags(old(errs)@) + with_prefix(
            prefix@,
            refs_upto(v@, <Root as Get<T>>::items(d).len() as int, name@, v@.len() as int),
        ),
{
    let ghost len = <Root as Get<T>>::items(d).len() as int;
    let mut k: usize = 0;
    proof {
        assert(diags(errs@) =~= diags(errs@) + with_prefix(
            prefix@,
            refs_upto(v@, len, name@, 0),
        ));
    }
    while k < v.len()
        invariant
            k <= v@.len(),
            len == <Root as Get<T>>::items(d).len() as int,
            diags(errs@) == diags(old(errs)@) + with_prefix(
                prefix@,
                refs_upto(v@, len, name@, k as int),
            ),
        decreases v@.len() - k,
    {
        let ghost before = diags(errs@);
        let ghost contribution = idx_oor(v@[k as int]@, len, elem_ref(name@, k as int));
        match d.try_get(&v[k]) {
            Ok(_) => {
                proof {
                    assert(contribution =~= Seq::<Diag>::empty());
                }
            },
            Err(_) => {
                let src = make_ref(name, k);
                push_error(errs, prefix, src.as_str(), "Index out of range");
                proof {
                    lemma_with_prefix_one(prefix@, contribution[0]);
                }
            },
        }
        proof {
            assert(refs_upto(v@, len, name@, k as int + 1) == refs_upto(v@, len, name@, k as int)
                + contribution);
            lemma_with_prefix_concat(prefix@, refs_upto(v@, len, name@, k as int), contribution);
            assert(diags(errs@) =~= diags(old(errs)@) + with_prefix(
                prefix@,
                refs_upto(v@, len, name@, k as int + 1),
            ));
        }
        k = k + 1;
    }
}

/// The error diagnostics of one accessor: its buffer view reference must
/// resolve.
pub open spec fn accessor_diags(a: Accessor, d: Root) -> Seq<Diag> {
    idx_oor(a.buffer_view@, d.buffer_views@.len() as int, "buffer_view"@)
}

/// Checks one accessor.
pub(crate) fn check_accessor(a: &Accessor, d: &Root, prefix: &str, errs: &mut Vec<Error>)
    ensures
        diags(final(errs)@) == diags(old(errs)@) + with_prefix(prefix@, accessor_diags(*a, *d)),
{
    check_ref(&a.buffer_view, d, prefix, "buffer_view", errs);
}

/// The error diagnostics of sampler `i` of an animation: its input and
/// output accessor references must resolve.
pub open spec fn animation_sampler_diags(
    s: crate::animation::Sampler,
    d: Root,
    i: int,
) -> Seq<Diag> {
    idx_oor(s.input@, d.accessors@.len() as int, elem_prefix("samplers"@, i) + "input"@)
        + idx_oor(s.output@, d.accessors@.len() as int, elem_prefix("samplers"@, i) + "output"@)
}

/// The error diagnostics of the first `n` samplers of an animation.
pub open spec fn animation_samplers_upto(a: Animation, d: Root, n: int) -> Seq<Diag>
    decreases n,
{
    if n <= 0 {
        Seq::empty()
    } else {
        animation_samplers_upto(a, d, n - 1) + animation_sampler_diags(
            a.samplers@[n - 1],
            d,
            n - 1,
        )
    }
}

/// The error diagnostics of channel `i` of an animation: the target node
/// reference must resolve, and the sampler index must fall inside the owning
/// animation's own sampler array.
pub open spec fn animation_channel_diags(
    c: crate::animation::Channel,
    d: Root,
    n_samplers: int,
    i: int,
) -> Seq<Diag> {
    idx_oor(c.target.node@, d.nodes@.len() as int, elem_prefix("channels"@, i) + "target.node"@)
        + idx_oor(c.sampler@, n_samplers, elem_prefix("channels"@, i) + "sampler"@)
}

/// The error diagnostics of the first `n` channels of an animation.
pub open spec fn animation_channels_upto(a: Animation, d: Root, n: int) -> Seq<Diag>
    decreases n,
{
    if n <= 0 {
        Seq::empty()
    } else {
        animation_channels_upto(a, d, n - 1) + animation_channel_diags(
            a.channels@[n - 1],
            d,
            a.samplers@.len() as int,
            n - 1,
        )
    }
}

/// The error diagnostics of one animation: every sampler's accessor
/// references and every channel's references must resolve.
pub open spec fn animation_diags(a: Animation, d: Root) -> Seq<Diag> {
    animation_samplers_upto(a, d, a.samplers@.len() as int) + animation_channels_upto(
        a,
        d,
        a.channels@.len() as int,
    )
}

/// Checks one animation.
pub(crate) fn check_animation(a: &Animation, d: &Root, prefix: &str, errs: &mut Vec<Error>)
    ensures
        diags(final(errs)@) == diags(old(errs)@) + with_prefix(prefix@, animation_diags(*a, *d)),
{
    let ghost base = diags(errs@);
    let mut i: usize = 0;
    proof {
        assert(diags(errs@) =~= base + with_prefix(prefix@, animation_samplers_upto(*a, *d, 0)));
    }
    while i < a.samplers.len()
        invariant
            i <= a.samplers@.len(),
            base == diags(old(errs)@),
            diags(errs@) == base + with_prefix(
                prefix@,
                animation_samplers_upto(*a, *d, i as int),
            ),
        decreases a.samplers@.len() - i,
    {
        let ghost done = animation_samplers_upto(*a, *d, i as int);
        let sp = make_prefix("samplers", i);
        let src_in = sp.clone().concat("input");
        let src_out = sp.concat("output");
        let ghost part_in = idx_oor(
            a.samplers@[i as int].input@,
            d.accessors@.len() as int,
            src_in@,
        );
        let ghost part_out = idx_oor(
            a.samplers@[i as int].output@,
            d.accessors@.len() as int,
            src_out@,
        );
        check_ref(&a.samplers[i].input, d, prefix, src_in.as_str(), errs);
        check_ref(&a.samplers[i].output, d, prefix, src_out.as_str(), errs);
        proof {
            assert(animation_samplers_upto(*a, *d, i as int + 1) == done + (part_in + part_out));
            lemma_with_prefix_concat(prefix@, part_in, part_out);
            lemma_with_prefix_concat(prefix@, done, part_in + part_out);
            assert(diags(errs@) =~= base + with_prefix(
                prefix@,
                animation_samplers_upto(*a, *d, i as int + 1),
            ));
        }
        i = i + 1;
    }
    let ghost samplers_part = animation_samplers_upto(*a, *d, a.samplers@.len() as int);
    let mut j: usize = 0;
    proof {
        assert(diags(errs@) =~= base + with_prefix(
            prefix@,
            samplers_part + animation_channels_upto(*a, *d, 0),
        ));
    }
    while j < a.channels.len()
        invariant
            j <= a.channels@.len(),
            base == diags(old(errs)@),
            samplers_part == animation_samplers_upto(*a, *d, a.samplers@.len() as int),
            diags(errs@) == base + with_prefix(
                prefix@,
                samplers_part + animation_channels_upto(*a, *d, j as int),
            ),
        decreases a.channels@.len() - j,
    {
        let ghost done = samplers_part + animation_channels_upto(*a, *d, j as int);
        let cp = make_prefix("channels", j);
        let src_node = cp.clone().concat("target.node");
        let src_sampler = cp.concat("sampler");
        let ghost part_node = idx_oor(
            a.channels@[j as int].target.node@,
            d.nodes@.len() as int,
            src_node@,
        );
        let ghost part_sampler = idx_oor(
            a.channels@[j as int].sampler@,
            a.samplers@.len() as int,
            src_sampler@,
        );
        check_ref(&a.channels[j].target.node, d, prefix, src_node.as_str(), errs);
        if a.channels[j].sampler.value() as usize >= a.samplers.len() {
            push_error(errs, prefix, src_sampler.as_str(), "Index out of range");
            proof {
                lemma_with_prefix_one(prefix@, part_sampler[0]);
            }
        } else {
            proof {
                assert(part_sampler =~= Seq::<Diag>::empty());
            }
        }
        proof {
            assert(animation_channels_upto(*a, *d, j as int + 1) == animation_channels_upto(
                *a,
                *d,
                j as int,
            ) + (part_node + part_sampler));
            lemma_with_prefix_concat(prefix@, part_node, part_sampler);
            lemma_with_prefix_concat(prefix@, done, part_node + part_sampler);
            assert(diags(errs@) =~= base + with_prefix(
                prefix@,
                samplers_part + animation_channels_upto(*a, *d, j as int + 1),
            ));
        }
        j = j + 1;
    }
}

/// The error diagnostics of one buffer view: its buffer reference must
/// resolve, and its byte range must fall inside the referenced buffer's
/// declared length.
pub open spec fn buffer_view_diags(v: BufferView, d: Root) -> Seq<Diag> {
    if v.buffer@ < d.buffers@.len() {
        if v.byte_offset + v.byte_length > d.buffers@[v.buffer@].byte_length {
            seq![
                Diag {
                    source: "{byte_offset, byte_length}"@,
                    description: "Oversized buffer view"@,
                },
            ]
        } else {
            Seq::empty()
        }
    } else {
        seq![Diag { source: "buffer"@, description: oor_desc() }]
    }
}

/// Checks one buffer view.
pub(crate) fn check_buffer_view(v: &BufferView, d: &Root, prefix: &str, errs: &mut Vec<Error>)
    ensures
        diags(final(errs)@) == diags(old(errs)@) + with_prefix(prefix@, buffer_view_diags(*v, *d)),
{
    let ghost contribution = buffer_view_diags(*v, *d);
    match d.try_get(&v.buffer) {
        Ok(buffer) => {
            if v.byte_offset as u64 + v.byte_length as u64 > buffer.byte_length as u64 {
                push_error(errs, prefix, "{byte_offset, byte_length}", "Oversized buffer view");
                proof {
                    lemma_with_prefix_one(prefix@, contribution[0]);
                }
            } else {
                proof {
                    assert(diags(errs@) =~= diags(errs@) + with_prefix(prefix@, contribution));
                }
            }
        },
        Err(_) => {
            push_error(errs, prefix, "buffer", "Index out of range");
            proof {
                lemma_with_prefix_one(prefix@, contribution[0]);
            }
        },
    }
}

/// The error diagnostics of one camera: the sub-block matching the declared
/// projection kind must be present.
pub open spec fn camera_errors(c: Camera) -> Seq<Diag> {
    match c.ty {
        CameraType::Orthographic => if c.orthographic is None {
            seq![Diag { source: "orthographic"@, description: "Missing data"@ }]
        } else {
            Seq::empty()
        },
        CameraType::Perspective => if c.perspective is None {
            seq![Diag { source: "perspective"@, description: "Missing data"@ }]
        } else {
            Seq::empty()
        },
    }
}

/// The warning diagnostics of one camera: a sub-block of the other
/// projection kind is redundant but not fatal.
pub open spec fn camera_warnings(c: Camera) -> Seq<Diag> {
    match c.ty {
        CameraType::Orthographic => if c.perspective is Some {
            seq![Diag { source: "perspective"@, description: "Redundant data"@ }]
        } else {
            Seq::empty()
        },
        CameraType::Perspective => if c.orthographic is Some {
            seq![Diag { source: "orthographic"@, description: "Redundant data"@ }]
        } else {
            Seq::empty()
        },
    }
}

/// Checks one camera.
pub(crate) fn check_camera(
    c: &Camera,
    prefix: &str,
    warns: &mut Vec<Error>,
    errs: &mut Vec<Error>,
)
    ensures
        diags(final(warns)@) == diags(old(warns)@) + with_prefix(prefix@, camera_warnings(*c)),
        diags(final(errs)@) == diags(old(errs)@) + with_prefix(prefix@, camera_errors(*c)),
{
    let ghost werr = camera_warnings(*c);
    let ghost eerr = camera_errors(*c);
    match c.ty {
        CameraType::Orthographic => {
            if c.orthographic.is_none() {
                push_error(errs, prefix, "orthographic", "Missing data");
                proof {
                    lemma_with_prefix_one(prefix@, eerr[0]);
                }
            }
            if c.perspective.is_some() {
                push_error(warns, prefix, "perspective", "Redundant data");
                proof {
                    lemma_with_prefix_one(prefix@, werr[0]);
                }
            }
        },
        CameraType::Perspective => {
            if c.perspective.is_none() {
                push_error(errs, prefix, "perspective", "Missing data");
                proof {
                    lemma_with_prefix_one(prefix@, eerr[0]);
                }
            }
            if c.orthographic.is_some() {
                push_error(warns, prefix, "orthographic", "Redundant data");
                proof {
                    lemma_with_prefix_one(prefix@, werr[0]);
                }
            }
        },
    }
    proof {
        assert(diags(final(errs)@) =~= diags(old(errs)@) + with_prefix(prefix@, eerr));
        assert(diags(final(warns)@) =~= diags(old(warns)@) + with_prefix(prefix@, werr));
    }
}

/// The error diagnostics of one image: its buffer view reference, if
/// present, must resolve.
pub open spec fn image_diags(img: Image, d: Root) -> Seq<Diag> {
    opt_idx_oor(img.buffer_view, d.buffer_views@.len() as int, "bufferView"@)
}

/// Checks one image.
pub(crate) fn check_image(img: &Image, d: &Root, prefix: &str, errs: &mut Vec<Error>)
    ensures
        diags(final(errs)@) == diags(old(errs)@) + with_prefix(prefix@, image_diags(*img, *d)),
{
    check_opt_ref(&img.buffer_view, d, prefix, "bufferView", errs);
}

/// The diagnostics of one optional texture reference.
pub open spec fn opt_texinfo_diag(
    t: Option<crate::texture::TextureInfo>,
    len: int,
    src: Seq<char>,
) -> Seq<Diag> {
    match t {
        Some(ti) => idx_oor(ti.index@, len, src),
        None => Seq::empty(),
    }
}

/// The error diagnostics of one material: every texture reference that is
/// present must resolve.
pub open spec fn material_diags(m: Material, d: Root) -> Seq<Diag> {
    let n = d.textures@.len() as int;
    opt_texinfo_diag(m.pbr_metallic_roughness.base_color_texture, n, "baseColorTexture"@)
        + opt_texinfo_diag(
        m.pbr_metallic_roughness.metallic_roughness_texture,
        n,
        "metallicRoughnessTexture"@,
    ) + (match m.normal_texture {
        Some(t) => idx_oor(t.index@, n, "normalTexture"@),
        None => Seq::empty(),
    }) + (match m.occlusion_texture {
        Some(t) => idx_oor(t.index@, n, "occlusionTexture"@),
        None => Seq::empty(),
    }) + opt_texinfo_diag(m.emissive_texture, n, "emissiveTexture"@)
}

/// Checks one material.
#[verifier::rlimit(100)]
pub(crate) fn check_material(m: &Material, d: &Root, prefix: &str, errs: &mut Vec<Error>)
    ensures
        diags(final(errs)@) == diags(old(errs)@) + with_prefix(prefix@, material_diags(*m, *d)),
{
    let ghost n = d.textures@.len() as int;
    let ghost p1 = opt_texinfo_diag(m.pbr_metallic_roughness.base_color_texture, n, "baseColorTexture"@);
    let ghost p2 = opt_texinfo_diag(m.pbr_metallic_roughness.metallic_roughness_texture, n, "metallicRoughnessTexture"@);
    let ghost p3 = if m.normal_texture is Some { idx_oor(m.normal_texture->Some_0.index@, n, "normalTexture"@) } else { Seq::empty() };
    let ghost p4 = if m.occlusion_texture is Some { idx_oor(m.occlusion_texture->Some_0.index@, n, "occlusionTexture"@) } else { Seq::empty() };
    let ghost p5 = opt_texinfo_diag(m.emissive_texture, n, "emissiveTexture"@);
    match &m.pbr_metallic_roughness.base_color_texture {
        Some(t) => check_ref(&t.index, d, prefix, "baseColorTexture", errs),
        None => (),
    }
    proof {
        assert(diags(errs@) =~= diags(old(errs)@) + with_prefix(prefix@, p1));
    }
    let ghost s1 = diags(errs@);
    match &m.pbr_metallic_roughness.metallic_roughness_texture {
        Some(t) => check_ref(&t.index, d, prefix, "metallicRoughnessTexture", errs),
        None => (),
    }
    proof {
        assert(diags(errs@) =~= s1 + with_prefix(prefix@, p2));
        lemma_with_prefix_concat(prefix@, p1, p2);
        assert(diags(errs@) =~= diags(old(errs)@) + with_prefix(prefix@, p1 + p2));
    }
    let ghost s2 = diags(errs@);
    match &m.normal_texture {
        Some(t) => check_ref(&t.index, d, prefix, "normalTexture", errs),
        None => (),
    }
    proof {
        assert(diags(errs@) =~= s2 + with_prefix(prefix@, p3));
        lemma_with_prefix_concat(prefix@, p1 + p2, p3);
        assert(diags(errs@) =~= diags(old(errs)@) + with_prefix(prefix@, p1 + p2 + p3));
    }
    let ghost s3 = diags(errs@);
    match &m.occlusion_texture {
        Some(t) => check_ref(&t.index, d, prefix, "occlusionTexture", errs),
        None => (),
    }
    proof {
        assert(diags(errs@) =~= s3 + with_prefix(prefix@, p4));
        lemma_with_prefix_concat(prefix@, p1 + p2 + p3, p4);
        assert(diags(errs@) =~= diags(old(errs)@) + with_prefix(prefix@, p1 + p2 + p3 + p4));
    }
    let ghost s4 = diags(errs@);
    match &m.emissive_texture {
        Some(t) => check_ref(&t.index, d, prefix, "emissiveTexture", errs),
        None => (),
    }
    proof {
        assert(diags(errs@) =~= s4 + with_prefix(prefix@, p5));
        lemma_with_prefix_concat(prefix@, p1 + p2 + p3 + p4, p5);
        assert(diags(errs@) =~= diags(old(errs)@) + with_prefix(prefix@, p1 + p2 + p3 + p4 + p5));
        assert(material_diags(*m, *d) == p1 + p2 + p3 + p4 + p5);
    }
}

/// The error diagnostics of one node: the camera, mesh and skin references,
/// if present, must resolve, and every child reference must resolve.
pub open spec fn node_diags(n: Node, d: Root) -> Seq<Diag> {
    opt_idx_oor(n.camera, d.cameras@.len() as int, "camera"@) + refs_upto(
        n.children@,
        d.nodes@.len() as int,
        "children"@,
        n.children@.len() as int,
    ) + opt_idx_oor(n.mesh, d.meshes@.len() as int, "mesh"@) + opt_idx_oor(
        n.skin,
        d.skins@.len() as int,
        "skin"@,
    )
}

/// Checks one node.
pub(crate) fn check_node(n: &Node, d: &Root, prefix: &str, errs: &mut Vec<Error>)
    ensures
        diags(final(errs)@) == diags(old(errs)@) + with_prefix(prefix@, node_diags(*n, *d)),
{
    check_opt_ref(&n.camera, d, prefix, "camera", errs);
    check_ref_list(&n.children, d, prefix, "children", errs);
    check_opt_ref(&n.mesh, d, prefix, "mesh", errs);
    check_opt_ref(&n.skin, d, prefix, "skin", errs);
    proof {
        assert(diags(final(errs)@) =~= diags(old(errs)@) + with_prefix(
            prefix@,
            node_diags(*n, *d),
        ));
    }
}

/// The error diagnostics of one scene: every root node reference must
/// resolve.
pub open spec fn scene_diags(s: Scene, d: Root) -> Seq<Diag> {
    refs_upto(s.nodes@, d.nodes@.len() as int, "nodes"@, s.nodes@.len() as int)
}

/// Checks one scene.
pub(crate) fn check_scene(s: &Scene, d: &Root, prefix: &str, errs: &mut Vec<Error>)
    ensures
        diags(final(errs)@) == diags(old(errs)@) + with_prefix(prefix@, scene_diags(*s, *d)),
{
    check_ref_list(&s.nodes, d, prefix, "nodes", errs);
}

/// The error diagnostics of one skin: the inverse-bind-matrix accessor and
/// skeleton root references, if present, must resolve, and every joint
/// reference must resolve.
pub open spec fn skin_diags(s: Skin, d: Root) -> Seq<Diag> {
    opt_idx_oor(s.inverse_bind_matrices, d.accessors@.len() as int, "accessor"@) + refs_upto(
        s.joints@,
        d.nodes@.len() as int,
        "joints"@,
        s.joints@.len() as int,
    ) + opt_idx_oor(s.skeleton, d.nodes@.len() as int, "skeleton"@)
}

/// Checks one skin.
pub(crate) fn check_skin(s: &Skin, d: &Root, prefix: &str, errs: &mut Vec<Error>)
    ensures
        diags(final(errs)@) == diags(old(errs)@) + with_prefix(prefix@, skin_diags(*s, *d)),
{
    check_opt_ref(&s.inverse_bind_matrices, d, prefix, "accessor", errs);
    check_ref_list(&s.joints, d, prefix, "joints", errs);
    check_opt_ref(&s.skeleton, d, prefix, "skeleton", errs);
    proof {
        assert(diags(final(errs)@) =~= diags(old(errs)@) + with_prefix(
            prefix@,
            skin_diags(*s, *d),
        ));
    }
}

/// The error diagnostics of one texture: its sampler and source image
/// references must resolve.
pub open spec fn texture_diags(t: Texture, d: Root) -> Seq<Diag> {
    idx_oor(t.sampler@, d.samplers@.len() as int, "sampler"@) + idx_oor(
        t.source@,
        d.images@.len() as int,
        "source"@,
    )
}

/// Checks one texture.
pub(crate) fn check_texture(t: &Texture, d: &Root, prefix: &str, errs: &mut Vec<Error>)
    ensures
        diags(final(errs)@) == diags(old(errs)@) + with_prefix(prefix@, texture_diags(*t, *d)),
{
    check_ref(&t.sampler, d, prefix, "sampler", errs);
    check_ref(&t.source, d, prefix, "source", errs);
    proof {
        assert(diags(final(errs)@) =~= diags(old(errs)@) + with_prefix(
            prefix@,
            texture_diags(*t, *d),
        ));
    }
}

/// The error diagnostics of the document's default scene reference, reported
/// with the bare source `scene`.
pub open spec fn scene_ref_diags(d: Root) -> Seq<Diag> {
    idx_oor(d.default_scene@, d.scenes@.len() as int, "scene"@)
}

/// The source string naming a vertex attribute: `attributes[NAME]`.
pub open spec fn attr_source(sem: Semantic) -> Seq<char> {
    "attributes["@ + semantic_name(sem) + "]"@
}

/// Builds the source string naming a vertex attribute.
pub fn attr_source_string(sem: &Semantic) -> (s: String)
    ensures
        s@ == attr_source(*sem),
{
    let name = sem.name_string();
    String::from_str("attributes[").concat(name.as_str()).concat("]")
}

/// The error diagnostics of one vertex attribute: its accessor reference
/// must resolve, and for the known semantics the accessor's component type
/// and shape must satisfy the compatibility table. User-defined semantics
/// bypass the table.
pub open spec fn attr_err_diags(sem: Semantic, idx: Index<Accessor>, d: Root) -> Seq<Diag> {
    if !(idx@ < d.accessors@.len()) {
        seq![Diag { source: attr_source(sem), description: oor_desc() }]
    } else if sem is Extra {
        Seq::empty()
    } else if compatible(sem, d.accessors@[idx@].component_type, d.accessors@[idx@].kind) {
        Seq::empty()
    } else {
        seq![
            Diag {
                source: attr_source(sem),
                description: "Invalid accessor for attribute "@ + semantic_name(sem),
            },
        ]
    }
}

/// The warning diagnostics of one vertex attribute: a user-defined semantic
/// whose name lacks the leading underscore.
pub open spec fn attr_warn_diags(sem: Semantic) -> Seq<Diag> {
    match sem {
        Semantic::Extra(name) => if name@.len() > 0 && name@[0] == '_' {
            Seq::empty()
        } else {
            seq![
                Diag { source: attr_source(sem), description: "Missing underscore prefix"@ },
            ]
        },
        _ => Seq::empty(),
    }
}

/// The error diagnostics of the first `n` attributes of a primitive.
pub open spec fn attrs_errs_upto(
    attrs: Seq<(Semantic, Index<Accessor>)>,
    d: Root,
    n: int,
) -> Seq<Diag>
    decreases n,
{
    if n <= 0 {
        Seq::empty()
    } else {
        attrs_errs_upto(attrs, d, n - 1) + attr_err_diags(attrs[n - 1].0, attrs[n - 1].1, d)
    }
}

/// The warning diagnostics of the first `n` attributes of a primitive.
pub open spec fn attrs_warns_upto(attrs: Seq<(Semantic, Index<Accessor>)>, n: int) -> Seq<Diag>
    decreases n,
{
    if n <= 0 {
        Seq::empty()
    } else {
        attrs_warns_upto(attrs, n - 1) + attr_warn_diags(attrs[n - 1].0)
    }
}

/// The error diagnostics of a primitive's index accessor: the reference, if
/// present, must resolve and must be a scalar of an unsigned integer type.
pub open spec fn indices_diags(p: Primitive, d: Root) -> Seq<Diag> {
    match p.indices {
        None => Seq::empty(),
        Some(idx) => if !(idx@ < d.accessors@.len()) {
            seq![Diag { source: "indices"@, description: oor_desc() }]
        } else if valid_index_type(
            d.accessors@[idx@].component_type,
            d.accessors@[idx@].kind,
        ) {
            Seq::empty()
        } else {
            seq![Diag { source: "indices"@, description: "Invalid accessor for indices"@ }]
        },
    }
}

/// The source string naming an attribute of morph target `k`.
pub open spec fn target_attr_source(k: int, sem: Semantic) -> Seq<char> {
    elem_prefix("targets"@, k) + attr_source(sem)
}

/// The error diagnostics of one morph target entry: the key may only be one
/// of the position, normal and tangent semantics, and the accessor reference
/// must resolve.
///
/// Morph-target accessors are checked for key and bounds only; the
/// component-type table applies to base attributes, not to their morph
/// deltas.
pub open spec fn target_entry_diags(
    sem: Semantic,
    idx: Index<Accessor>,
    d: Root,
    k: int,
) -> Seq<Diag> {
    if !(sem is Position || sem is Normal || sem is Tangent) {
        seq![
            Diag {
                source: target_attr_source(k, sem),
                description: "Invalid morph target semantic"@,
            },
        ]
    } else {
        idx_oor(idx@, d.accessors@.len() as int, target_attr_source(k, sem))
    }
}

/// The error diagnostics of the first `n` entries of morph target `k`.
pub open spec fn target_entries_upto(
    t: Seq<(Semantic, Index<Accessor>)>,
    d: Root,
    k: int,
    n: int,
) -> Seq<Diag>
    decreases n,
{
    if n <= 0 {
        Seq::empty()
    } else {
        target_entries_upto(t, d, k, n - 1) + target_entry_diags(t[n - 1].0, t[n - 1].1, d, k)
    }
}

/// The error diagnostics of the first `n` morph targets of a primitive.
pub open spec fn targets_upto(
    ts: Seq<Vec<(Semantic, Index<Accessor>)>>,
    d: Root,
    n: int,
) -> Seq<Diag>
    decreases n,
{
    if n <= 0 {
        Seq::empty()
    } else {
        targets_upto(ts, d, n - 1) + target_entries_upto(
            ts[n - 1]@,
            d,
            n - 1,
            ts[n - 1]@.len() as int,
        )
    }
}

/// The error diagnostics of one primitive: its attributes, index accessor,
/// material reference and morph targets.
pub open spec fn primitive_errs(p: Primitive, d: Root) -> Seq<Diag> {
    attrs_errs_upto(p.attributes@, d, p.attributes@.len() as int) + indices_diags(p, d)
        + opt_idx_oor(p.material, d.materials@.len() as int, "material"@) + targets_upto(
        p.targets@,
        d,
        p.targets@.len() as int,
    )
}

/// The warning diagnostics of one primitive: user-defined attribute names
/// lacking the leading underscore.
pub open spec fn primitive_warns(p: Primitive) -> Seq<Diag> {
    attrs_warns_upto(p.attributes@, p.attributes@.len() as int)
}

/// Checks one primitive.
pub(crate) fn check_primitive(
    p: &Primitive,
    d: &Root,
    prefix: &str,
    warns: &mut Vec<Error>,
    errs: &mut Vec<Error>,
)
    ensures
        diags(final(warns)@) == diags(old(warns)@) + with_prefix(prefix@, primitive_warns(*p)),
        diags(final(errs)@) == diags(old(errs)@) + with_prefix(prefix@, primitive_errs(*p, *d)),
{
    let ghost base_w = diags(warns@);
    let ghost base_e = diags(errs@);
    let mut k: usize = 0;
    proof {
        assert(diags(errs@) =~= base_e + with_prefix(
            prefix@,
            attrs_errs_upto(p.attributes@, *d, 0),
        ));
        assert(diags(warns@) =~= base_w + with_prefix(prefix@, attrs_warns_upto(p.attributes@, 0)));
    }
    while k < p.attributes.len()
        invariant
            k <= p.attributes@.len(),
            base_w == diags(old(warns)@),
            base_e == diags(old(errs)@),
            diags(errs@) == base_e + with_prefix(
                prefix@,
                attrs_errs_upto(p.attributes@, *d, k as int),
            ),
            diags(warns@) == base_w + with_prefix(
                prefix@,
                attrs_warns_upto(p.attributes@, k as int),
            ),
        decreases p.attributes@.len() - k,
    {
        let ghost done_e = attrs_errs_upto(p.attributes@, *d, k as int);
        let ghost done_w = attrs_warns_upto(p.attributes@, k as int);
        let ghost part_e = attr_err_diags(p.attributes@[k as int].0, p.attributes@[k as int].1, *d);
        let ghost part_w = attr_warn_diags(p.attributes@[k as int].0);
        let pair = &p.attributes[k];
        let sem = &pair.0;
        let idx = &pair.1;
        let src = attr_source_string(sem);
        match d.try_get(idx) {
            Err(_) => {
                push_error(errs, prefix, src.as_str(), "Index out of range");
                proof {
                    lemma_with_prefix_one(prefix@, part_e[0]);
                }
            },
            Ok(acc) => {
                let is_extra = match sem {
                    Semantic::Extra(_) => true,
                    _ => false,
                };
                if !is_extra && !sem.is_compatible(acc.ty(), acc.kind()) {
                    let name = sem.name_string();
                    let desc = String::from_str("Invalid accessor for attribute ").concat(
                        name.as_str(),
                    );
                    push_error(errs, prefix, src.as_str(), desc.as_str());
                    proof {
                        lemma_with_prefix_one(prefix@, part_e[0]);
                    }
                } else {
                    proof {
                        assert(part_e =~= Seq::<Diag>::empty());
                    }
                }
            },
        }
        match sem {
            Semantic::Extra(name) => {
                let len = name.as_str().unicode_len();
                let prefixed = if len > 0 {
                    name.as_str().get_char(0) == '_'
                } else {
                    false
                };
                if !prefixed {
                    push_error(warns, prefix, src.as_str(), "Missing underscore prefix");
                    proof {
                        lemma_with_prefix_one(prefix@, part_w[0]);
                    }
                } else {
                    proof {
                        assert(part_w =~= Seq::<Diag>::empty());
                    }
                }
            },
            _ => {
                proof {
                    assert(part_w =~= Seq::<Diag>::empty());
                }
            },
        }
        proof {
            assert(attrs_errs_upto(p.attributes@, *d, k as int + 1) == done_e + part_e);
            assert(attrs_warns_upto(p.attributes@, k as int + 1) == done_w + part_w);
            lemma_with_prefix_concat(prefix@, done_e, part_e);
            lemma_with_prefix_concat(prefix@, done_w, part_w);
            assert(diags(errs@) =~= base_e + with_prefix(
                prefix@,
                attrs_errs_upto(p.attributes@, *d, k as int + 1),
            ));
            assert(diags(warns@) =~= base_w + with_prefix(
                prefix@,
                attrs_warns_upto(p.attributes@, k as int + 1),
            ));
        }
        k = k + 1;
    }
    let ghost attrs_e = attrs_errs_upto(p.attributes@, *d, p.attributes@.len() as int);
    let ghost ind_part = indices_diags(*p, *d);
    match &p.indices {
        None => {
            proof {
                assert(ind_part =~= Seq::<Diag>::empty());
            }
        },
        Some(idx) => {
            match d.try_get(idx) {
                Err(_) => {
                    push_error(errs, prefix, "indices", "Index out of range");
                    proof {
                        lemma_with_prefix_one(prefix@, ind_part[0]);
                    }
                },
                Ok(acc) => {
                    if !is_valid_index_type(acc.ty(), acc.kind()) {
                        push_error(errs, prefix, "indices", "Invalid accessor for indices");
                        proof {
                            lemma_with_prefix_one(prefix@, ind_part[0]);
                        }
                    } else {
                        proof {
                            assert(ind_part =~= Seq::<Diag>::empty());
                        }
                    }
                },
            }
        },
    }
    proof {
        lemma_with_prefix_concat(prefix@, attrs_e, ind_part);
        assert(diags(errs@) =~= base_e + with_prefix(prefix@, attrs_e + ind_part));
    }
    check_opt_ref(&p.material, d, prefix, "material", errs);
    let ghost mat_part = opt_idx_oor(p.material, d.materials@.len() as int, "material"@);
    proof {
        lemma_with_prefix_concat(prefix@, attrs_e + ind_part, mat_part);
        assert(diags(errs@) =~= base_e + with_prefix(prefix@, attrs_e + ind_part + mat_part));
    }
    let ghost before_targets = attrs_e + ind_part + mat_part;
    let mut t: usize = 0;
    proof {
        assert(diags(errs@) =~= base_e + with_prefix(
            prefix@,
            before_targets + targets_upto(p.targets@, *d, 0),
        ));
    }
    while t < p.targets.len()
        invariant
            t <= p.targets@.len(),
            base_e == diags(old(errs)@),
            before_targets == attrs_errs_upto(p.attributes@, *d, p.attributes@.len() as int)
                + indices_diags(*p, *d) + opt_idx_oor(
                p.material,
                d.materials@.len() as int,
                "material"@,
            ),
            diags(errs@) == base_e + with_prefix(
                prefix@,
                before_targets + targets_upto(p.targets@, *d, t as int),
            ),
        decreases p.targets@.len() - t,
    {
        let ghost done_t = before_targets + targets_upto(p.targets@, *d, t as int);
        let target = &p.targets[t];
        let mut e: usize = 0;
        proof {
            assert(diags(errs@) =~= base_e + with_prefix(
                prefix@,
                done_t + target_entries_upto(target@, *d, t as int, 0),
            ));
        }
        while e < target.len()
            invariant
                e <= target@.len(),
                target@ == p.targets@[t as int]@,
                t < p.targets@.len(),
                base_e == diags(old(errs)@),
                done_t == before_targets + targets_upto(p.targets@, *d, t as int),
                diags(errs@) == base_e + with_prefix(
                    prefix@,
                    done_t + target_entries_upto(target@, *d, t as int, e as int),
                ),
            decreases target@.len() - e,
        {
            let ghost done_inner = done_t + target_entries_upto(target@, *d, t as int, e as int);
            let ghost part = target_entry_diags(target@[e as int].0, target@[e as int].1, *d, t as int);
            let pair = &target[e];
            let sem = &pair.0;
            let idx = &pair.1;
            let allowed = match sem {
                Semantic::Position => true,
                Semantic::Normal => true,
                Semantic::Tangent => true,
                _ => false,
            };
            if !allowed {
                let tp = make_prefix("targets", t);
                let inner = attr_source_string(sem);
                let src = tp.concat(inner.as_str());
                push_error(errs, prefix, src.as_str(), "Invalid morph target semantic");
                proof {
                    lemma_with_prefix_one(prefix@, part[0]);
                }
            } else {
                match d.try_get(idx) {
                    Err(_) => {
                        let tp = make_prefix("targets", t);
                        let inner = attr_source_string(sem);
                        let src = tp.concat(inner.as_str());
                        push_error(errs, prefix, src.as_str(), "Index out of range");
                        proof {
                            lemma_with_prefix_one(prefix@, part[0]);
                        }
                    },
                    Ok(_) => {
                        proof {
                            assert(part =~= Seq::<Diag>::empty());
                        }
                    },
                }
            }
            proof {
                assert(target_entries_upto(target@, *d, t as int, e as int + 1)
                    == target_entries_upto(target@, *d, t as int, e as int) + part);
                lemma_with_prefix_concat(
                    prefix@,
                    done_t + target_entries_upto(target@, *d, t as int, e as int),
                    part,
                );
                assert(diags(errs@) =~= base_e + with_prefix(
                    prefix@,
                    done_t + target_entries_upto(target@, *d, t as int, e as int + 1),
                ));
            }
            e = e + 1;
        }
        proof {
            assert(targets_upto(p.targets@, *d, t as int + 1) == targets_upto(p.targets@, *d, t as int)
                + target_entries_upto(target@, *d, t as int, target@.len() as int));
            assert(done_t + target_entries_upto(target@, *d, t as int, target@.len() as int)
                =~= before_targets + targets_upto(p.targets@, *d, t as int + 1));
            assert(diags(errs@) =~= base_e + with_prefix(
                prefix@,
                before_targets + targets_upto(p.targets@, *d, t as int + 1),
            ));
        }
        t = t + 1;
    }
    proof {
        assert(primitive_errs(*p, *d) == before_targets + targets_upto(
            p.targets@,
            *d,
            p.targets@.len() as int,
        ));
        assert(primitive_warns(*p) == attrs_warns_upto(p.attributes@, p.attributes@.len() as int));
    }
}

/// The error diagnostics of the first `n` primitives of a mesh, each under
/// its `primitives[j].` prefix.
pub open spec fn mesh_prims_errs_upto(m: Mesh, d: Root, n: int) -> Seq<Diag>
    decreases n,
{
    if n <= 0 {
        Seq::empty()
    } else {
        mesh_prims_errs_upto(m, d, n - 1) + with_prefix(
            elem_prefix("primitives"@, n - 1),
            primitive_errs(m.primitives@[n - 1], d),
        )
    }
}

/// The warning diagnostics of the first `n` primitives of a mesh.
pub open spec fn mesh_prims_warns_upto(m: Mesh, n: int) -> Seq<Diag>
    decreases n,
{
    if n <= 0 {
        Seq::empty()
    } else {
        mesh_prims_warns_upto(m, n - 1) + with_prefix(
            elem_prefix("primitives"@, n - 1),
            primitive_warns(m.primitives@[n - 1]),
        )
    }
}

/// The error diagnostics of one mesh: those of its primitives.
pub open spec fn mesh_errs(m: Mesh, d: Root) -> Seq<Diag> {
    mesh_prims_errs_upto(m, d, m.primitives@.len() as int)
}

/// The warning diagnostics of one mesh: those of its primitives.
pub open spec fn mesh_warns(m: Mesh) -> Seq<Diag> {
    mesh_prims_warns_upto(m, m.primitives@.len() as int)
}

/// Checks one mesh.
pub(crate) fn check_mesh(
    m: &Mesh,
    d: &Root,
    prefix: &str,
    warns: &mut Vec<Error>,
    errs: &mut Vec<Error>,
)
    ensures
        diags(final(warns)@) == diags(old(warns)@) + with_prefix(prefix@, mesh_warns(*m)),
        diags(final(errs)@) == diags(old(errs)@) + with_prefix(prefix@, mesh_errs(*m, *d)),
{
    let ghost base_w = diags(warns@);
    let ghost base_e = diags(errs@);
    let mut j: usize = 0;
    proof {
        assert(diags(errs@) =~= base_e + with_prefix(prefix@, mesh_prims_errs_upto(*m, *d, 0)));
        assert(diags(warns@) =~= base_w + with_prefix(prefix@, mesh_prims_warns_upto(*m, 0)));
    }
    while j < m.primitives.len()
        invariant
            j <= m.primitives@.len(),
            base_w == diags(old(warns)@),
            base_e == diags(old(errs)@),
            diags(errs@) == base_e + with_prefix(
                prefix@,
                mesh_prims_errs_upto(*m, *d, j as int),
            ),
            diags(warns@) == base_w + with_prefix(prefix@, mesh_prims_warns_upto(*m, j as int)),
        decreases m.primitives@.len() - j,
    {
        let ghost done_e = mesh_prims_errs_upto(*m, *d, j as int);
        let ghost done_w = mesh_prims_warns_upto(*m, j as int);
        let ghost part_e = primitive_errs(m.primitives@[j as int], *d);
        let ghost part_w = primitive_warns(m.primitives@[j as int]);
        let inner = make_prefix("primitives", j);
        let full = String::from_str(prefix).concat(inner.as_str());
        check_primitive(&m.primitives[j], d, full.as_str(), warns, errs);
        proof {
            lemma_with_prefix_compose(prefix@, elem_prefix("primitives"@, j as int), part_e);
            lemma_with_prefix_compose(prefix@, elem_prefix("primitives"@, j as int), part_w);
            assert(mesh_prims_errs_upto(*m, *d, j as int + 1) == done_e + with_prefix(
                elem_prefix("primitives"@, j as int),
                part_e,
            ));
            assert(mesh_prims_warns_upto(*m, j as int + 1) == done_w + with_prefix(
                elem_prefix("primitives"@, j as int),
                part_w,
            ));
            lemma_with_prefix_concat(
                prefix@,
                done_e,
                with_prefix(elem_prefix("primitives"@, j as int), part_e),
            );
            lemma_with_prefix_concat(
                prefix@,
                done_w,
                with_prefix(elem_prefix("primitives"@, j as int), part_w),
            );
            assert(diags(errs@) =~= base_e + with_prefix(
                prefix@,
                mesh_prims_errs_upto(*m, *d, j as int + 1),
            ));
            assert(diags(warns@) =~= base_w + with_prefix(
                prefix@,
                mesh_prims_warns_upto(*m, j as int + 1),
            ));
        }
        j = j + 1;
    }
}


/// The error diagnostics of the first `n` accessors, each under its
/// collection prefix.
pub open spec fn accessors_errs_upto(d: Root, n: int) -> Seq<Diag>
    decreases n,
{
    if n <= 0 {
        Seq::empty()
    } else {
        accessors_errs_upto(d, n - 1) + with_prefix(
            elem_prefix("accessors"@, n - 1),
            accessor_diags(d.accessors@[n - 1], d),
        )
    }
}

/// The error diagnostics of the first `n` animations.
pub open spec fn animations_errs_upto(d: Root, n: int) -> Seq<Diag>
    decreases n,
{
    if n <= 0 {
        Seq::empty()
    } else {
        animations_errs_upto(d, n - 1) + with_prefix(
            elem_prefix("animations"@, n - 1),
            animation_diags(d.animations@[n - 1], d),
        )
    }
}

/// The error diagnostics of the first `n` buffer views.
pub open spec fn buffer_views_errs_upto(d: Root, n: int) -> Seq<Diag>
    decreases n,
{
    if n <= 0 {
        Seq::empty()
    } else {
        buffer_views_errs_upto(d, n - 1) + with_prefix(
            elem_prefix("bufferViews"@, n - 1),
            buffer_view_diags(d.buffer_views@[n - 1], d),
        )
    }
}

/// The error diagnostics of the first `n` cameras.
pub open spec fn cameras_errs_upto(d: Root, n: int) -> Seq<Diag>
    decreases n,
{
    if n <= 0 {
        Seq::empty()
    } else {
        cameras_errs_upto(d, n - 1) + with_prefix(
            elem_prefix("cameras"@, n - 1),
            camera_errors(d.cameras@[n - 1]),
        )
    }
}

/// The warning diagnostics of the first `n` cameras.
pub open spec fn cameras_warns_upto(d: Root, n: int) -> Seq<Diag>
    decreases n,
{
    if n <= 0 {
        Seq::empty()
    } else {
        cameras_warns_upto(d, n - 1) + with_prefix(
            elem_prefix("cameras"@, n - 1),
            camera_warnings(d.cameras@[n - 1]),
        )
    }
}

/// The error diagnostics of the first `n` images.
pub open spec fn images_errs_upto(d: Root, n: int) -> Seq<Diag>
    decreases n,
{
    if n <= 0 {
        Seq::empty()
    } else {
        images_errs_upto(d, n - 1) + with_prefix(
            elem_prefix("images"@, n - 1),
            image_diags(d.images@[n - 1], d),
        )
    }
}

/// The error diagnostics of the first `n` materials.
pub open spec fn materials_errs_upto(d: Root, n: int) -> Seq<Diag>
    decreases n,
{
    if n <= 0 {
        Seq::empty()
    } else {
        materials_errs_upto(d, n - 1) + with_prefix(
            elem_prefix("materials"@, n - 1),
            material_diags(d.materials@[n - 1], d),
        )
    }
}

/// The error diagnostics of the first `n` meshes.
pub open spec fn meshes_errs_upto(d: Root, n: int) -> Seq<Diag>
    decreases n,
{
    if n <= 0 {
        Seq::empty()
    } else {
        meshes_errs_upto(d, n - 1) + with_prefix(
            elem_prefix("meshes"@, n - 1),
            mesh_errs(d.meshes@[n - 1], d),
        )
    }
}

/// The warning diagnostics of the first `n` meshes.
pub open spec fn meshes_warns_upto(d: Root, n: int) -> Seq<Diag>
    decreases n,
{
    if n <= 0 {
        Seq::empty()
    } else {
        meshes_warns_upto(d, n - 1) + with_prefix(
            elem_prefix("meshes"@, n - 1),
            mesh_warns(d.meshes@[n - 1]),
        )
    }
}

/// The error diagnostics of the first `n` nodes.
pub open spec fn nodes_errs_upto(d: Root, n: int) -> Seq<Diag>
    decreases n,
{
    if n <= 0 {
        Seq::empty()
    } else {
        nodes_errs_upto(d, n - 1) + with_prefix(
            elem_prefix("nodes"@, n - 1),
            node_diags(d.nodes@[n - 1], d),
        )
    }
}

/// The error diagnostics of the first `n` scenes.
pub open spec fn scenes_errs_upto(d: Root, n: int) -> Seq<Diag>
    decreases n,
{
    if n <= 0 {
        Seq::empty()
    } else {
        scenes_errs_upto(d, n - 1) + with_prefix(
            elem_prefix("scenes"@, n - 1),
            scene_diags(d.scenes@[n - 1], d),
        )
    }
}

/// The error diagnostics of the first `n` skins.
pub open spec fn skins_errs_upto(d: Root, n: int) -> Seq<Diag>
    decreases n,
{
    if n <= 0 {
        Seq::empty()
    } else {
        skins_errs_upto(d, n - 1) + with_prefix(
            elem_prefix("skins"@, n - 1),
            skin_diags(d.skins@[n - 1], d),
        )
    }
}

/// The error diagnostics of the first `n` textures.
pub open spec fn textures_errs_upto(d: Root, n: int) -> Seq<Diag>
    decreases n,
{
    if n <= 0 {
        Seq::empty()
    } else {
        textures_errs_upto(d, n - 1) + with_prefix(
            elem_prefix("textures"@, n - 1),
            texture_diags(d.textures@[n - 1], d),
        )
    }
}

/// Every error diagnostic of a whole document, in document order: the
/// accessor, animation, buffer view, camera, image, material, mesh, node,
/// scene, skin, default-scene and texture checks.
pub open spec fn errors_spec(d: Root) -> Seq<Diag> {
    accessors_errs_upto(d, d.accessors@.len() as int) + animations_errs_upto(
        d,
        d.animations@.len() as int,
    ) + buffer_views_errs_upto(d, d.buffer_views@.len() as int) + cameras_errs_upto(
        d,
        d.cameras@.len() as int,
    ) + images_errs_upto(d, d.images@.len() as int) + materials_errs_upto(
        d,
        d.materials@.len() as int,
    ) + meshes_errs_upto(d, d.meshes@.len() as int) + nodes_errs_upto(
        d,
        d.nodes@.len() as int,
    ) + scenes_errs_upto(d, d.scenes@.len() as int) + skins_errs_upto(
        d,
        d.skins@.len() as int,
    ) + scene_ref_diags(d) + textures_errs_upto(d, d.textures@.len() as int)
}

/// Every warning diagnostic of a whole document, in document order: the
/// camera and mesh checks.
pub open spec fn warnings_spec(d: Root) -> Seq<Diag> {
    cameras_warns_upto(d, d.cameras@.len() as int) + meshes_warns_upto(
        d,
        d.meshes@.len() as int,
    )
}

impl Root {
    /// Validates the entire document.
    ///
    /// Walks every top-level collection in document order and returns the
    /// collected warnings and errors. The result is a function of the
    /// document alone: validating the same document again yields the same
    /// two diagnostic lists. A document whose error list is empty has every
    /// stored cross-reference in bounds (see
    /// [`lemma_no_errors_implies_refs_valid`]).
    pub fn validate(&self) -> (r: (Vec<Error>, Vec<Error>))
        ensures
            diags(r.0@) == warnings_spec(*self),
            diags(r.1@) == errors_spec(*self),
    {
        let mut warns: Vec<Error> = Vec::new();
        let mut errs: Vec<Error> = Vec::new();
        let mut i: usize = 0;
        proof {
            assert(diags(errs@) =~= accessors_errs_upto(*self, 0));
        }
        while i < self.accessors.len()
            invariant
                i <= self.accessors@.len(),
                warns@.len() == 0,
                diags(errs@) == accessors_errs_upto(*self, i as int),
            decreases self.accessors@.len() - i,
        {
            let prefix = make_prefix("accessors", i);
            check_accessor(&self.accessors[i], self, prefix.as_str(), &mut errs);
            proof {
                assert(diags(errs@) =~= accessors_errs_upto(*self, i as int + 1));
            }
            i = i + 1;
        }
        let ghost c1 = accessors_errs_upto(*self, self.accessors@.len() as int);
        let mut i: usize = 0;
        while i < self.animations.len()
            invariant
                i <= self.animations@.len(),
                warns@.len() == 0,
                c1 == accessors_errs_upto(*self, self.accessors@.len() as int),
                diags(errs@) == c1 + animations_errs_upto(*self, i as int),
            decreases self.animations@.len() - i,
        {
            let prefix = make_prefix("animations", i);
            check_animation(&self.animations[i], self, prefix.as_str(), &mut errs);
            proof {
                assert(diags(errs@) =~= c1 + animations_errs_upto(*self, i as int + 1));
            }
            i = i + 1;
        }
        let ghost c2 = c1 + animations_errs_upto(*self, self.animations@.len() as int);
        let mut i: usize = 0;
        while i < self.buffer_views.len()
            invariant
                i <= self.buffer_views@.len(),
                warns@.len() == 0,
                c2 == accessors_errs_upto(*self, self.accessors@.len() as int)
                    + animations_errs_upto(*self, self.animations@.len() as int),
                diags(errs@) == c2 + buffer_views_errs_upto(*self, i as int),
            decreases self.buffer_views@.len() - i,
        {
            let prefix = make_prefix("bufferViews", i);
            check_buffer_view(&self.buffer_views[i], self, prefix.as_str(), &mut errs);
            proof {
                assert(diags(errs@) =~= c2 + buffer_views_errs_upto(*self, i as int + 1));
            }
            i = i + 1;
        }
        let ghost c3 = c2 + buffer_views_errs_upto(*self, self.buffer_views@.len() as int);
        let mut i: usize = 0;
        while i < self.cameras.len()
            invariant
                i <= self.cameras@.len(),
                c3 == accessors_errs_upto(*self, self.accessors@.len() as int)
                    + animations_errs_upto(*self, self.animations@.len() as int)
                    + buffer_views_errs_upto(*self, self.buffer_views@.len() as int),
                diags(errs@) == c3 + cameras_errs_upto(*self, i as int),
                diags(warns@) == cameras_warns_upto(*self, i as int),
            decreases self.cameras@.len() - i,
        {
            let prefix = make_prefix("cameras", i);
            proof {
                assert(diags(warns@) =~= Seq::<Diag>::empty() + cameras_warns_upto(
                    *self,
                    i as int,
                ));
            }
            check_camera(&self.cameras[i], prefix.as_str(), &mut warns, &mut errs);
            proof {
                assert(diags(errs@) =~= c3 + cameras_errs_upto(*self, i as int + 1));
                assert(diags(warns@) =~= cameras_warns_upto(*self, i as int + 1));
            }
            i = i + 1;
        }
        let ghost c4 = c3 + cameras_errs_upto(*self, self.cameras@.len() as int);
        let ghost w1 = cameras_warns_upto(*self, self.cameras@.len() as int);
        let mut i: usize = 0;
        while i < self.images.len()
            invariant
                i <= self.images@.len(),
                c4 == accessors_errs_upto(*self, self.accessors@.len() as int)
                    + animations_errs_upto(*self, self.animations@.len() as int)
                    + buffer_views_errs_upto(*self, self.buffer_views@.len() as int)
                    + cameras_errs_upto(*self, self.cameras@.len() as int),
                w1 == cameras_warns_upto(*self, self.cameras@.len() as int),
                diags(errs@) == c4 + images_errs_upto(*self, i as int),
                diags(warns@) == w1,
            decreases self.images@.len() - i,
        {
            let prefix = make_prefix("images", i);
            check_image(&self.images[i], self, prefix.as_str(), &mut errs);
            proof {
                assert(diags(errs@) =~= c4 + images_errs_upto(*self, i as int + 1));
            }
            i = i + 1;
        }
        let ghost c5 = c4 + images_errs_upto(*self, self.images@.len() as int);
        let mut i: usize = 0;
        while i < self.materials.len()
            invariant
                i <= self.materials@.len(),
                c5 == accessors_errs_upto(*self, self.accessors@.len() as int)
                    + animations_errs_upto(*self, self.animations@.len() as int)
                    + buffer_views_errs_upto(*self, self.buffer_views@.len() as int)
                    + cameras_errs_upto(*self, self.cameras@.len() as int)
                    + images_errs_upto(*self, self.images@.len() as int),
                w1 == cameras_warns_upto(*self, self.cameras@.len() as int),
                diags(errs@) == c5 + materials_errs_upto(*self, i as int),
                diags(warns@) == w1,
            decreases self.materials@.len() - i,
        {
            let prefix = make_prefix("materials", i);
            check_material(&self.materials[i], self, prefix.as_str(), &mut errs);
            proof {
                assert(diags(errs@) =~= c5 + materials_errs_upto(*self, i as int + 1));
            }
            i = i + 1;
        }
        let ghost c6 = c5 + materials_errs_upto(*self, self.materials@.len() as int);
        let mut i: usize = 0;
        while i < self.meshes.len()
            invariant
                i <= self.meshes@.len(),
                c6 == accessors_errs_upto(*self, self.accessors@.len() as int)
                    + animations_errs_upto(*self, self.animations@.len() as int)
                    + buffer_views_errs_upto(*self, self.buffer_views@.len() as int)
                    + cameras_errs_upto(*self, self.cameras@.len() as int)
                    + images_errs_upto(*self, self.images@.len() as int)
                    + materials_errs_upto(*self, self.materials@.len() as int),
                w1 == cameras_warns_upto(*self, self.cameras@.len() as int),
                diags(errs@) == c6 + meshes_errs_upto(*self, i as int),
                diags(warns@) == w1 + meshes_warns_upto(*self, i as int),
            decreases self.meshes@.len() - i,
        {
            let prefix = make_prefix("meshes", i);
            check_mesh(&self.meshes[i], self, prefix.as_str(), &mut warns, &mut errs);
            proof {
                assert(diags(errs@) =~= c6 + meshes_errs_upto(*self, i as int + 1));
                assert(diags(warns@) =~= w1 + meshes_warns_upto(*self, i as int + 1));
            }
            i = i + 1;
        }
        let ghost c7 = c6 + meshes_errs_upto(*self, self.meshes@.len() as int);
        let ghost w2 = w1 + meshes_warns_upto(*self, self.meshes@.len() as int);
        let mut i: usize = 0;
        while i < self.nodes.len()
            invariant
                i <= self.nodes@.len(),
                c7 == accessors_errs_upto(*self, self.accessors@.len() as int)
                    + animations_errs_upto(*self, self.animations@.len() as int)
                    + buffer_views_errs_upto(*self, self.buffer_views@.len() as int)
                    + cameras_errs_upto(*self, self.cameras@.len() as int)
                    + images_errs_upto(*self, self.images@.len() as int)
                    + materials_errs_upto(*self, self.materials@.len() as int)
                    + meshes_errs_upto(*self, self.meshes@.len() as int),
                w2 == warnings_spec(*self),
                diags(errs@) == c7 + nodes_errs_upto(*self, i as int),
                diags(warns@) == w2,
            decreases self.nodes@.len() - i,
        {
            let prefix = make_prefix("nodes", i);
            check_node(&self.nodes[i], self, prefix.as_str(), &mut errs);
            proof {
                assert(diags(errs@) =~= c7 + nodes_errs_upto(*self, i as int + 1));
            }
            i = i + 1;
        }
        let ghost c8 = c7 + nodes_errs_upto(*self, self.nodes@.len() as int);
        let mut i: usize = 0;
        while i < self.scenes.len()
            invariant
                i <= self.scenes@.len(),
                c8 == accessors_errs_upto(*self, self.accessors@.len() as int)
                    + animations_errs_upto(*self, self.animations@.len() as int)
                    + buffer_views_errs_upto(*self, self.buffer_views@.len() as int)
                    + cameras_errs_upto(*self, self.cameras@.len() as int)
                    + images_errs_upto(*self, self.images@.len() as int)
                    + materials_errs_upto(*self, self.materials@.len() as int)
                    + meshes_errs_upto(*self, self.meshes@.len() as int)
                    + nodes_errs_upto(*self, self.nodes@.len() as int),
                w2 == warnings_spec(*self),
                diags(errs@) == c8 + scenes_errs_upto(*self, i as int),
                diags(warns@) == w2,
            decreases self.scenes@.len() - i,
        {
            let prefix = make_prefix("scenes", i);
            check_scene(&self.scenes[i], self, prefix.as_str(), &mut errs);
            proof {
                assert(diags(errs@) =~= c8 + scenes_errs_upto(*self, i as int + 1));
            }
            i = i + 1;
        }
        let ghost c9 = c8 + scenes_errs_upto(*self, self.scenes@.len() as int);
        let mut i: usize = 0;
        while i < self.skins.len()
            invariant
                i <= self.skins@.len(),
                c9 == accessors_errs_upto(*self, self.accessors@.len() as int)
                    + animations_errs_upto(*self, self.animations@.len() as int)
                    + buffer_views_errs_upto(*self, self.buffer_views@.len() as int)
                    + cameras_errs_upto(*self, self.cameras@.len() as int)
                    + images_errs_upto(*self, self.images@.len() as int)
                    + materials_errs_upto(*self, self.materials@.len() as int)
                    + meshes_errs_upto(*self, self.meshes@.len() as int)
                    + nodes_errs_upto(*self, self.nodes@.len() as int)
                    + scenes_errs_upto(*self, self.scenes@.len() as int),
                w2 == warnings_spec(*self),
                diags(errs@) == c9 + skins_errs_upto(*self, i as int),
                diags(warns@) == w2,
            decreases self.skins@.len() - i,
        {
            let prefix = make_prefix("skins", i);
            check_skin(&self.skins[i], self, prefix.as_str(), &mut errs);
            proof {
                assert(diags(errs@) =~= c9 + skins_errs_upto(*self, i as int + 1));
            }
            i = i + 1;
        }
        let ghost c10 = c9 + skins_errs_upto(*self, self.skins@.len() as int);
        match self.try_get(&self.default_scene) {
            Ok(_) => {
                proof {
                    assert(scene_ref_diags(*self) =~= Seq::<Diag>::empty());
                    assert(diags(errs@) =~= c10 + scene_ref_diags(*self));
                }
            },
            Err(_) => {
                let e = Error {
                    source: String::from_str("scene"),
                    description: String::from_str("Index out of range"),
                };
                let ghost dv = e@;
                errs.push(e);
                proof {
                    assert(diags(errs@) =~= c10 + scene_ref_diags(*self));
                }
            },
        }
        let ghost c11 = c10 + scene_ref_diags(*self);
        let mut i: usize = 0;
        while i < self.textures.len()
            invariant
                i <= self.textures@.len(),
                c11 == accessors_errs_upto(*self, self.accessors@.len() as int)
                    + animations_errs_upto(*self, self.animations@.len() as int)
                    + buffer_views_errs_upto(*self, self.buffer_views@.len() as int)
                    + cameras_errs_upto(*self, self.cameras@.len() as int)
                    + images_errs_upto(*self, self.images@.len() as int)
                    + materials_errs_upto(*self, self.materials@.len() as int)
                    + meshes_errs_upto(*self, self.meshes@.len() as int)
                    + nodes_errs_upto(*self, self.nodes@.len() as int)
                    + scenes_errs_upto(*self, self.scenes@.len() as int)
                    + skins_errs_upto(*self, self.skins@.len() as int) + scene_ref_diags(*self),
                w2 == warnings_spec(*self),
                diags(errs@) == c11 + textures_errs_upto(*self, i as int),
                diags(warns@) == w2,
            decreases self.textures@.len() - i,
        {
            let prefix = make_prefix("textures", i);
            check_texture(&self.textures[i], self, prefix.as_str(), &mut errs);
            proof {
                assert(diags(errs@) =~= c11 + textures_errs_upto(*self, i as int + 1));
            }
            i = i + 1;
        }
        proof {
            assert(diags(errs@) =~= errors_spec(*self));
        }
        (warns, errs)
    }
}


/// Well-formedness of one accessor's references.
pub open spec fn accessor_refs_ok(a: Accessor, d: Root) -> bool {
    a.buffer_view@ < d.buffer_views@.len()
}

/// Well-formedness of one animation's references.
pub open spec fn animation_refs_ok(a: Animation, d: Root) -> bool {
    &&& forall|j: int|
        0 <= j < a.samplers@.len() ==> (#[trigger] a.samplers@[j]).input@ < d.accessors@.len()
            && a.samplers@[j].output@ < d.accessors@.len()
    &&& forall|j: int|
        0 <= j < a.channels@.len() ==> (#[trigger] a.channels@[j]).target.node@
            < d.nodes@.len() && a.channels@[j].sampler@ < a.samplers@.len()
}

/// Well-formedness of one buffer view: the buffer reference resolves and the
/// view's byte range falls inside the buffer's declared length.
pub open spec fn buffer_view_ok(v: BufferView, d: Root) -> bool {
    &&& v.buffer@ < d.buffers@.len()
    &&& v.byte_offset + v.byte_length <= d.buffers@[v.buffer@].byte_length
}

/// Well-formedness of one image's references.
pub open spec fn image_refs_ok(img: Image, d: Root) -> bool {
    img.buffer_view matches Some(b) ==> b@ < d.buffer_views@.len()
}

/// Well-formedness of one material's references.
pub open spec fn material_refs_ok(m: Material, d: Root) -> bool {
    &&& m.pbr_metallic_roughness.base_color_texture matches Some(t) ==> t.index@
        < d.textures@.len()
    &&& m.pbr_metallic_roughness.metallic_roughness_texture matches Some(t) ==> t.index@
        < d.textures@.len()
    &&& m.normal_texture matches Some(t) ==> t.index@ < d.textures@.len()
    &&& m.occlusion_texture matches Some(t) ==> t.index@ < d.textures@.len()
    &&& m.emissive_texture matches Some(t) ==> t.index@ < d.textures@.len()
}

/// Well-formedness of one vertex attribute: the accessor reference resolves,
/// and for the known semantics the accessor's type satisfies the
/// compatibility table.
pub open spec fn attribute_ok(sem: Semantic, idx: Index<Accessor>, d: Root) -> bool {
    &&& idx@ < d.accessors@.len()
    &&& !(sem is Extra) ==> compatible(
        sem,
        d.accessors@[idx@].component_type,
        d.accessors@[idx@].kind,
    )
}

/// Well-formedness of one morph target entry: the key is one of the
/// position, normal and tangent semantics and the accessor reference
/// resolves.
pub open spec fn target_entry_ok(sem: Semantic, idx: Index<Accessor>, d: Root) -> bool {
    &&& sem is Position || sem is Normal || sem is Tangent
    &&& idx@ < d.accessors@.len()
}

/// Well-formedness of one primitive: its attributes, index accessor,
/// material reference and morph targets.
pub open spec fn primitive_ok(p: Primitive, d: Root) -> bool {
    &&& forall|j: int|
        0 <= j < p.attributes@.len() ==> attribute_ok(
            (#[trigger] p.attributes@[j]).0,
            p.attributes@[j].1,
            d,
        )
    &&& p.indices matches Some(idx) ==> idx@ < d.accessors@.len() && valid_index_type(
        d.accessors@[idx@].component_type,
        d.accessors@[idx@].kind,
    )
    &&& p.material matches Some(mi) ==> mi@ < d.materials@.len()
    &&& forall|t: int, e: int|
        0 <= t < p.targets@.len() && 0 <= e < p.targets@[t]@.len() ==> target_entry_ok(
            (#[trigger] p.targets@[t]@[e]).0,
            p.targets@[t]@[e].1,
            d,
        )
}

/// Well-formedness of one mesh: every primitive is well-formed.
pub open spec fn mesh_ok(m: Mesh, d: Root) -> bool {
    forall|j: int| 0 <= j < m.primitives@.len() ==> primitive_ok(#[trigger] m.primitives@[j], d)
}

/// Well-formedness of one node's references.
pub open spec fn node_refs_ok(n: Node, d: Root) -> bool {
    &&& n.camera matches Some(c) ==> c@ < d.cameras@.len()
    &&& forall|j: int| 0 <= j < n.children@.len() ==> (#[trigger] n.children@[j])@
        < d.nodes@.len()
    &&& n.mesh matches Some(m) ==> m@ < d.meshes@.len()
    &&& n.skin matches Some(sk) ==> sk@ < d.skins@.len()
}

/// Well-formedness of one scene's references.
pub open spec fn scene_refs_ok(s: Scene, d: Root) -> bool {
    forall|j: int| 0 <= j < s.nodes@.len() ==> (#[trigger] s.nodes@[j])@ < d.nodes@.len()
}

/// Well-formedness of one skin's references.
pub open spec fn skin_refs_ok(s: Skin, d: Root) -> bool {
    &&& s.inverse_bind_matrices matches Some(a) ==> a@ < d.accessors@.len()
    &&& forall|j: int| 0 <= j < s.joints@.len() ==> (#[trigger] s.joints@[j])@ < d.nodes@.len()
    &&& s.skeleton matches Some(n) ==> n@ < d.nodes@.len()
}

/// Well-formedness of one texture's references.
pub open spec fn texture_refs_ok(t: Texture, d: Root) -> bool {
    &&& t.sampler@ < d.samplers@.len()
    &&& t.source@ < d.images@.len()
}

/// Every cross-reference stored anywhere in the document resolves, every
/// buffer view fits inside its buffer, and every typed consistency rule of
/// the validation pass holds.
pub open spec fn refs_valid(d: Root) -> bool {
    &&& forall|i: int|
        0 <= i < d.accessors@.len() ==> accessor_refs_ok(#[trigger] d.accessors@[i], d)
    &&& forall|i: int|
        0 <= i < d.animations@.len() ==> animation_refs_ok(#[trigger] d.animations@[i], d)
    &&& forall|i: int|
        0 <= i < d.buffer_views@.len() ==> buffer_view_ok(#[trigger] d.buffer_views@[i], d)
    &&& forall|i: int| 0 <= i < d.images@.len() ==> image_refs_ok(#[trigger] d.images@[i], d)
    &&& forall|i: int|
        0 <= i < d.materials@.len() ==> material_refs_ok(#[trigger] d.materials@[i], d)
    &&& forall|i: int| 0 <= i < d.meshes@.len() ==> mesh_ok(#[trigger] d.meshes@[i], d)
    &&& forall|i: int| 0 <= i < d.nodes@.len() ==> node_refs_ok(#[trigger] d.nodes@[i], d)
    &&& forall|i: int| 0 <= i < d.scenes@.len() ==> scene_refs_ok(#[trigger] d.scenes@[i], d)
    &&& forall|i: int| 0 <= i < d.skins@.len() ==> skin_refs_ok(#[trigger] d.skins@[i], d)
    &&& forall|i: int|
        0 <= i < d.textures@.len() ==> texture_refs_ok(#[trigger] d.textures@[i], d)
    &&& d.default_scene@ < d.scenes@.len()
}

proof fn lemma_refs_upto_empty<T>(v: Seq<Index<T>>, len: int, name: Seq<char>, n: int)
    requires
        refs_upto(v, len, name, n).len() == 0,
    ensures
        forall|i: int| 0 <= i < n ==> (#[trigger] v[i])@ < len,
    decreases n,
{
    if n > 0 {
        lemma_refs_upto_empty(v, len, name, n - 1);
        assert(idx_oor(v[n - 1]@, len, elem_ref(name, n - 1)).len() == 0);
    }
}

proof fn lemma_anim_samplers_empty(a: Animation, d: Root, n: int)
    requires
        animation_samplers_upto(a, d, n).len() == 0,
    ensures
        forall|j: int|
            0 <= j < n ==> (#[trigger] a.samplers@[j]).input@ < d.accessors@.len()
                && a.samplers@[j].output@ < d.accessors@.len(),
    decreases n,
{
    if n > 0 {
        lemma_anim_samplers_empty(a, d, n - 1);
        assert(animation_sampler_diags(a.samplers@[n - 1], d, n - 1).len() == 0);
    }
}

proof fn lemma_anim_channels_empty(a: Animation, d: Root, n: int)
    requires
        animation_channels_upto(a, d, n).len() == 0,
    ensures
        forall|j: int|
            0 <= j < n ==> (#[trigger] a.channels@[j]).target.node@ < d.nodes@.len()
                && a.channels@[j].sampler@ < a.samplers@.len(),
    decreases n,
{
    if n > 0 {
        lemma_anim_channels_empty(a, d, n - 1);
        assert(animation_channel_diags(a.channels@[n - 1], d, a.samplers@.len() as int, n - 1).len()
            == 0);
    }
}

proof fn lemma_animation_diags_empty(a: Animation, d: Root)
    requires
        animation_diags(a, d).len() == 0,
    ensures
        animation_refs_ok(a, d),
{
    lemma_anim_samplers_empty(a, d, a.samplers@.len() as int);
    lemma_anim_channels_empty(a, d, a.channels@.len() as int);
}

proof fn lemma_attrs_errs_empty(attrs: Seq<(Semantic, Index<Accessor>)>, d: Root, n: int)
    requires
        attrs_errs_upto(attrs, d, n).len() == 0,
    ensures
        forall|j: int|
            0 <= j < n ==> attribute_ok((#[trigger] attrs[j]).0, attrs[j].1, d),
    decreases n,
{
    if n > 0 {
        lemma_attrs_errs_empty(attrs, d, n - 1);
        assert(attr_err_diags(attrs[n - 1].0, attrs[n - 1].1, d).len() == 0);
    }
}

proof fn lemma_target_entries_empty(
    t: Seq<(Semantic, Index<Accessor>)>,
    d: Root,
    k: int,
    n: int,
)
    requires
        target_entries_upto(t, d, k, n).len() == 0,
    ensures
        forall|e: int| 0 <= e < n ==> target_entry_ok((#[trigger] t[e]).0, t[e].1, d),
    decreases n,
{
    if n > 0 {
        lemma_target_entries_empty(t, d, k, n - 1);
        assert(target_entry_diags(t[n - 1].0, t[n - 1].1, d, k).len() == 0);
    }
}

proof fn lemma_targets_empty(ts: Seq<Vec<(Semantic, Index<Accessor>)>>, d: Root, n: int)
    requires
        targets_upto(ts, d, n).len() == 0,
    ensures
        forall|t: int, e: int|
            0 <= t < n && 0 <= e < ts[t]@.len() ==> target_entry_ok(
                (#[trigger] ts[t]@[e]).0,
                ts[t]@[e].1,
                d,
            ),
    decreases n,
{
    if n > 0 {
        lemma_targets_empty(ts, d, n - 1);
        lemma_target_entries_empty(ts[n - 1]@, d, n - 1, ts[n - 1]@.len() as int);
    }
}

proof fn lemma_primitive_errs_empty(p: Primitive, d: Root)
    requires
        primitive_errs(p, d).len() == 0,
    ensures
        primitive_ok(p, d),
{
    lemma_attrs_errs_empty(p.attributes@, d, p.attributes@.len() as int);
    assert(indices_diags(p, d).len() == 0);
    assert(opt_idx_oor(p.material, d.materials@.len() as int, "material"@).len() == 0);
    lemma_targets_empty(p.targets@, d, p.targets@.len() as int);
}

proof fn lemma_mesh_prims_empty(m: Mesh, d: Root, n: int)
    requires
        mesh_prims_errs_upto(m, d, n).len() == 0,
    ensures
        forall|j: int| 0 <= j < n ==> primitive_ok(#[trigger] m.primitives@[j], d),
    decreases n,
{
    if n > 0 {
        lemma_mesh_prims_empty(m, d, n - 1);
        assert(with_prefix(
            elem_prefix("primitives"@, n - 1),
            primitive_errs(m.primitives@[n - 1], d),
        ).len() == primitive_errs(m.primitives@[n - 1], d).len());
        lemma_primitive_errs_empty(m.primitives@[n - 1], d);
    }
}

proof fn lemma_node_diags_empty(n: Node, d: Root)
    requires
        node_diags(n, d).len() == 0,
    ensures
        node_refs_ok(n, d),
{
    assert(opt_idx_oor(n.camera, d.cameras@.len() as int, "camera"@).len() == 0);
    assert(refs_upto(n.children@, d.nodes@.len() as int, "children"@, n.children@.len() as int).len()
        == 0);
    lemma_refs_upto_empty(
        n.children@,
        d.nodes@.len() as int,
        "children"@,
        n.children@.len() as int,
    );
    assert(opt_idx_oor(n.mesh, d.meshes@.len() as int, "mesh"@).len() == 0);
    assert(opt_idx_oor(n.skin, d.skins@.len() as int, "skin"@).len() == 0);
}

proof fn lemma_skin_diags_empty(s: Skin, d: Root)
    requires
        skin_diags(s, d).len() == 0,
    ensures
        skin_refs_ok(s, d),
{
    assert(opt_idx_oor(s.inverse_bind_matrices, d.accessors@.len() as int, "accessor"@).len()
        == 0);
    lemma_refs_upto_empty(s.joints@, d.nodes@.len() as int, "joints"@, s.joints@.len() as int);
    assert(opt_idx_oor(s.skeleton, d.nodes@.len() as int, "skeleton"@).len() == 0);
}

proof fn lemma_accessors_upto_empty(d: Root, n: int)
    requires
        accessors_errs_upto(d, n).len() == 0,
    ensures
        forall|i: int| 0 <= i < n ==> accessor_refs_ok(#[trigger] d.accessors@[i], d),
    decreases n,
{
    if n > 0 {
        lemma_accessors_upto_empty(d, n - 1);
        assert(accessor_diags(d.accessors@[n - 1], d).len() == 0);
    }
}

proof fn lemma_animations_upto_empty(d: Root, n: int)
    requires
        animations_errs_upto(d, n).len() == 0,
    ensures
        forall|i: int| 0 <= i < n ==> animation_refs_ok(#[trigger] d.animations@[i], d),
    decreases n,
{
    if n > 0 {
        lemma_animations_upto_empty(d, n - 1);
        assert(animation_diags(d.animations@[n - 1], d).len() == 0);
        lemma_animation_diags_empty(d.animations@[n - 1], d);
    }
}

proof fn lemma_buffer_views_upto_empty(d: Root, n: int)
    requires
        buffer_views_errs_upto(d, n).len() == 0,
    ensures
        forall|i: int| 0 <= i < n ==> buffer_view_ok(#[trigger] d.buffer_views@[i], d),
    decreases n,
{
    if n > 0 {
        lemma_buffer_views_upto_empty(d, n - 1);
        assert(buffer_view_diags(d.buffer_views@[n - 1], d).len() == 0);
    }
}

proof fn lemma_images_upto_empty(d: Root, n: int)
    requires
        images_errs_upto(d, n).len() == 0,
    ensures
        forall|i: int| 0 <= i < n ==> image_refs_ok(#[trigger] d.images@[i], d),
    decreases n,
{
    if n > 0 {
        lemma_images_upto_empty(d, n - 1);
        assert(image_diags(d.images@[n - 1], d).len() == 0);
    }
}

proof fn lemma_materials_upto_empty(d: Root, n: int)
    requires
        materials_errs_upto(d, n).len() == 0,
    ensures
        forall|i: int| 0 <= i < n ==> material_refs_ok(#[trigger] d.materials@[i], d),
    decreases n,
{
    if n > 0 {
        lemma_materials_upto_empty(d, n - 1);
        assert(material_diags(d.materials@[n - 1], d).len() == 0);
    }
}

proof fn lemma_meshes_upto_empty(d: Root, n: int)
    requires
        meshes_errs_upto(d, n).len() == 0,
    ensures
        forall|i: int| 0 <= i < n ==> mesh_ok(#[trigger] d.meshes@[i], d),
    decreases n,
{
    if n > 0 {
        lemma_meshes_upto_empty(d, n - 1);
        assert(mesh_errs(d.meshes@[n - 1], d).len() == 0);
        lemma_mesh_prims_empty(d.meshes@[n - 1], d, d.meshes@[n - 1].primitives@.len() as int);
    }
}

proof fn lemma_nodes_upto_empty(d: Root, n: int)
    requires
        nodes_errs_upto(d, n).len() == 0,
    ensures
        forall|i: int| 0 <= i < n ==> node_refs_ok(#[trigger] d.nodes@[i], d),
    decreases n,
{
    if n > 0 {
        lemma_nodes_upto_empty(d, n - 1);
        assert(node_diags(d.nodes@[n - 1], d).len() == 0);
        lemma_node_diags_empty(d.nodes@[n - 1], d);
    }
}

proof fn lemma_scenes_upto_empty(d: Root, n: int)
    requires
        scenes_errs_upto(d, n).len() == 0,
    ensures
        forall|i: int| 0 <= i < n ==> scene_refs_ok(#[trigger] d.scenes@[i], d),
    decreases n,
{
    if n > 0 {
        lemma_scenes_upto_empty(d, n - 1);
        assert(scene_diags(d.scenes@[n - 1], d).len() == 0);
        lemma_refs_upto_empty(
            d.scenes@[n - 1].nodes@,
            d.nodes@.len() as int,
            "nodes"@,
            d.scenes@[n - 1].nodes@.len() as int,
        );
    }
}

proof fn lemma_skins_upto_empty(d: Root, n: int)
    requires
        skins_errs_upto(d, n).len() == 0,
    ensures
        forall|i: int| 0 <= i < n ==> skin_refs_ok(#[trigger] d.skins@[i], d),
    decreases n,
{
    if n > 0 {
        lemma_skins_upto_empty(d, n - 1);
        assert(skin_diags(d.skins@[n - 1], d).len() == 0);
        lemma_skin_diags_empty(d.skins@[n - 1], d);
    }
}

proof fn lemma_textures_upto_empty(d: Root, n: int)
    requires
        textures_errs_upto(d, n).len() == 0,
    ensures
        forall|i: int| 0 <= i < n ==> texture_refs_ok(#[trigger] d.textures@[i], d),
    decreases n,
{
    if n > 0 {
        lemma_textures_upto_empty(d, n - 1);
        assert(texture_diags(d.textures@[n - 1], d).len() == 0);
    }
}

/// The bounds law: a document whose validation reports no errors has every
/// stored cross-reference in bounds, every buffer view contained in its
/// buffer's declared length, every attribute accessor compatible with its
/// semantic, and the default scene reference valid. Together with the
/// contract of `try_get` — which succeeds exactly on indices below the
/// collection length — this means `try_get` succeeds on every reference
/// reachable from a validated document, while `get` demands such a
/// validated index through its precondition.
pub proof fn lemma_no_errors_implies_refs_valid(d: Root)
    requires
        errors_spec(d).len() == 0,
    ensures
        refs_valid(d),
{
    lemma_accessors_upto_empty(d, d.accessors@.len() as int);
    lemma_animations_upto_empty(d, d.animations@.len() as int);
    lemma_buffer_views_upto_empty(d, d.buffer_views@.len() as int);
    lemma_images_upto_empty(d, d.images@.len() as int);
    lemma_materials_upto_empty(d, d.materials@.len() as int);
    lemma_meshes_upto_empty(d, d.meshes@.len() as int);
    lemma_nodes_upto_empty(d, d.nodes@.len() as int);
    lemma_scenes_upto_empty(d, d.scenes@.len() as int);
    lemma_skins_upto_empty(d, d.skins@.len() as int);
    lemma_textures_upto_empty(d, d.textures@.len() as int);
    assert(scene_ref_diags(d).len() == 0);
}

/// Validation is a pure function of the document: running it twice over the
/// same unchanged document yields identical warning lists and identical
/// error lists. The exec counterpart is the contract of
/// [`Root::validate`], which pins both result lists to `warnings_spec` and
/// `errors_spec` of the document alone.
pub proof fn lemma_validate_idempotent(
    d: Root,
    w1: Seq<Diag>,
    e1: Seq<Diag>,
    w2: Seq<Diag>,
    e2: Seq<Diag>,
)
    requires
        w1 == warnings_spec(d),
        e1 == errors_spec(d),
        w2 == warnings_spec(d),
        e2 == errors_spec(d),
    ensures
        w1 == w2,
        e1 == e2,
{
}

/// The cross-component reading law: in a document whose validation reports
/// no errors and whose loaded buffer data matches the declared buffer
/// lengths, every buffer view's byte range can be read — the defensive
/// checks of [`crate::buffer::BufferView::data`] cannot fail.
pub proof fn lemma_validated_views_readable(d: Root, i: int)
    requires
        errors_spec(d).len() == 0,
        d.buffer_data@.len() == d.buffers@.len(),
        forall|b: int|
            0 <= b < d.buffers@.len() ==> (#[trigger] d.buffer_data@[b])@.len()
                == d.buffers@[b].byte_length,
        0 <= i < d.buffer_views@.len(),
    ensures
        crate::buffer::view_data_spec(d.buffer_views@[i], d) is Ok,
{
    lemma_no_errors_implies_refs_valid(d);
}

/// The containment law for buffer views: a buffer view whose buffer
/// reference resolves but whose byte range runs past the buffer's declared
/// length yields exactly one `Oversized buffer view` error, at the source
/// `{byte_offset, byte_length}`; a contained view yields no diagnostic.
pub proof fn lemma_buffer_view_containment(v: BufferView, d: Root)
    requires
        v.buffer@ < d.buffers@.len(),
    ensures
        v.byte_offset + v.byte_length <= d.buffers@[v.buffer@].byte_length ==> buffer_view_diags(
            v,
            d,
        ) == Seq::<Diag>::empty(),
        v.byte_offset + v.byte_length > d.buffers@[v.buffer@].byte_length ==> buffer_view_diags(
            v,
            d,
        ) == seq![
            Diag {
                source: "{byte_offset, byte_length}"@,
                description: "Oversized buffer view"@,
            },
        ],
{
}

/// The classification law for vertex attributes: for a known (non
/// user-defined) semantic whose accessor reference resolves, validation
/// yields no diagnostic exactly when the (semantic, component type, shape)
/// triple is in the compatibility table, and otherwise exactly one error
/// naming the offending semantic.
pub proof fn lemma_attribute_classification(sem: Semantic, idx: Index<Accessor>, d: Root)
    requires
        idx@ < d.accessors@.len(),
        !(sem is Extra),
    ensures
        compatible(sem, d.accessors@[idx@].component_type, d.accessors@[idx@].kind)
            ==> attr_err_diags(sem, idx, d) == Seq::<Diag>::empty(),
        !compatible(sem, d.accessors@[idx@].component_type, d.accessors@[idx@].kind)
            ==> attr_err_diags(sem, idx, d) == seq![
            Diag {
                source: attr_source(sem),
                description: "Invalid accessor for attribute "@ + semantic_name(sem),
            },
        ],
{
}

} // verus!
