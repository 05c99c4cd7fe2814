use vstd::prelude::*;
use crate::data::{Color, VertexData};

verus! {

/// Scalar type code of a 32-bit float component.
pub const FLOAT: u32 = 0x1406;

/// Scalar type code of a 16-bit unsigned integer component.
pub const UNSIGNED_SHORT: u32 = 0x1403;

/// Scalar type code of an 8-bit unsigned integer component.
pub const UNSIGNED_BYTE: u32 = 0x1401;

/// Scalar type code of a 32-bit unsigned integer component.
pub const UNSIGNED_INT: u32 = 0x1405;

/// One attribute of a packed vertex format.
#[derive(Debug, Clone, Copy, PartialEq, Eq, Structural)]
pub struct Layout {
    /// Attribute slot.
    pub index: u32,
    /// Components per vertex.
    pub size: i32,
    /// Scalar type code of each component.
    pub gl_type: u32,
    pub normalized: bool,
    /// Byte offset within one vertex record.
    pub offset: usize,
}

/// Why a stride could not be computed.
#[derive(Debug, Clone, Copy, PartialEq, Eq, Structural)]
pub enum StrideError {
    /// The layout sequence is empty.
    NoLayouts,
    /// The last layout's scalar type is neither `FLOAT` nor `UNSIGNED_SHORT`.
    UnsupportedType,
    /// The last layout's size is negative or the stride exceeds `i32::MAX`.
    OutOfRange,
}

impl Layout {
    pub fn new(index: u32, size: i32, gl_type: u32, normalized: bool, offset: usize) -> (r: Self)
        ensures
            r == (Layout { index, size, gl_type, normalized, offset }),
    {
        Layout { index, size, gl_type, normalized, offset }
    }
}

/// Bytes of one component of the given type.
pub open spec fn scalar_bytes(gl_type: u32) -> nat {
    if gl_type == UNSIGNED_SHORT {
        2
    } else {
        4
    }
}

/// Components per vertex of a color set.
pub open spec fn color_size(c: Color) -> i32 {
    match c {
        Color::Rgb(_) => 3,
        Color::Rgba(_) => 4,
    }
}

/// Component count and scalar type of each attribute, in slot order: position,
/// normals, tangents, each texcoord set, each color set, joints, weights.
pub open spec fn attribute_formats(vd: VertexData) -> Seq<(i32, u32)> {
    seq![(3i32, FLOAT)] + (if vd.normals.is_some() {
        seq![(3i32, FLOAT)]
    } else {
        Seq::empty()
    }) + (if vd.tangents.is_some() {
        seq![(4i32, FLOAT)]
    } else {
        Seq::empty()
    }) + Seq::new(vd.texcoords@.len(), |k: int| (2i32, FLOAT)) + Seq::new(
        vd.colors@.len(),
        |k: int| (color_size(vd.colors@[k]), FLOAT),
    ) + (if vd.joints.is_some() {
        seq![(4i32, UNSIGNED_SHORT)]
    } else {
        Seq::empty()
    }) + (if vd.weights.is_some() {
        seq![(4i32, FLOAT)]
    } else {
        Seq::empty()
    })
}

/// Bytes taken by one attribute of the given format.
pub open spec fn format_bytes(f: (i32, u32)) -> int {
    f.0 * scalar_bytes(f.1)
}

/// Bytes taken by the first `i` attributes.
pub open spec fn bytes_before(fs: Seq<(i32, u32)>, i: nat) -> int
    decreases i,
{
    if i == 0 {
        0
    } else {
        bytes_before(fs, (i - 1) as nat) + format_bytes(fs[i - 1])
    }
}

/// The layout of attribute `i`: slots numbered from 0, each placed right after
/// the ones before it.
pub open spec fn layout_at(fs: Seq<(i32, u32)>, i: int) -> Layout {
    Layout {
        index: i as u32,
        size: fs[i].0,
        gl_type: fs[i].1,
        normalized: false,
        offset: bytes_before(fs, i as nat) as usize,
    }
}

/// The packed vertex format of a vertex data set.
pub open spec fn derived_layouts(vd: VertexData) -> Seq<Layout> {
    let fs = attribute_formats(vd);
    Seq::new(fs.len(), |i: int| layout_at(fs, i))
}

/// Whether every slot number fits in a `u32` and every offset in a `usize`.
pub open spec fn attribute_count_fits(vd: VertexData) -> bool {
    &&& vd.texcoords@.len() + vd.colors@.len() + 5 <= u32::MAX
    &&& 16 * (vd.texcoords@.len() + vd.colors@.len() + 5) <= usize::MAX
}

/// What `calculate_stride` returns for a layout sequence.
pub open spec fn stride_of(layouts: Seq<Layout>) -> Result<i32, StrideError> {
    if layouts.len() == 0 {
        Err(StrideError::NoLayouts)
    } else {
        let last = layouts.last();
        if last.gl_type != FLOAT && last.gl_type != UNSIGNED_SHORT {
            Err(StrideError::UnsupportedType)
        } else if last.size < 0 || last.offset + last.size * scalar_bytes(last.gl_type)
            > i32::MAX {
            Err(StrideError::OutOfRange)
        } else {
            Ok((last.offset + last.size * scalar_bytes(last.gl_type)) as i32)
        }
    }
}

pub(crate) proof fn lemma_bytes_before_bounds(fs: Seq<(i32, u32)>, i: nat)
    requires
        i <= fs.len(),
        forall|k: int| 0 <= k < fs.len() ==> 2 <= (#[trigger] fs[k]).0 <= 4,
    ensures
        0 <= bytes_before(fs, i) <= 16 * i,
    decreases i,
{
    if i > 0 {
        lemma_bytes_before_bounds(fs, (i - 1) as nat);
        let f = fs[i - 1];
        assert(0 <= format_bytes(f) <= 16) by (nonlinear_arith)
            requires
                2 <= f.0 <= 4,
                scalar_bytes(f.1) == 2 || scalar_bytes(f.1) == 4,
        ;
    }
}

pub(crate) proof fn lemma_format_sizes(vd: VertexData)
    ensures
        forall|k: int|
            0 <= k < attribute_formats(vd).len() ==> 2 <= (#[trigger] attribute_formats(vd)[k]).0
                <= 4,
{
    let fs = attribute_formats(vd);
    assert forall|k: int| 0 <= k < fs.len() implies 2 <= (#[trigger] fs[k]).0 <= 4 by {
        let t = vd.texcoords@.len() as int;
        let c = vd.colors@.len() as int;
        let lead = 1 + (if vd.normals.is_some() { 1int } else { 0 }) + (if vd.tangents.is_some() { 1int } else { 0 });
        if lead + t <= k < lead + t + c {
            let j = k - lead - t;
            assert(fs[k] == (color_size(vd.colors@[j]), FLOAT));
        }
    }
}

/// Two vertex data sets with the same attributes present, the same number of
/// texcoord and color sets, and the same channel count in each color set.
pub open spec fn same_attribute_shape(a: VertexData, b: VertexData) -> bool {
    &&& a.normals.is_some() == b.normals.is_some()
    &&& a.tangents.is_some() == b.tangents.is_some()
    &&& a.texcoords@.len() == b.texcoords@.len()
    &&& a.colors@.len() == b.colors@.len()
    &&& forall|k: int| 0 <= k < a.colors@.len() ==> color_size(#[trigger] a.colors@[k]) == color_size(b.colors@[k])
    &&& a.joints.is_some() == b.joints.is_some()
    &&& a.weights.is_some() == b.weights.is_some()
}

/// Layout derivation depends on the shape of the data alone: two vertex data
/// sets of the same shape get the same layouts, offsets included, in the same
/// order, whatever values they hold.
pub proof fn lemma_layouts_deterministic(a: VertexData, b: VertexData)
    requires
        same_attribute_shape(a, b),
    ensures
        derived_layouts(a) == derived_layouts(b),
{
    assert(Seq::new(a.colors@.len(), |k: int| (color_size(a.colors@[k]), FLOAT)) =~= Seq::new(
        b.colors@.len(),
        |k: int| (color_size(b.colors@[k]), FLOAT),
    ));
    assert(attribute_formats(a) =~= attribute_formats(b));
    assert(derived_layouts(a) =~= derived_layouts(b));
}

/// The format of each attribute of `vd`, in slot order.
fn attribute_format_list(vd: &VertexData) -> (r: Vec<(i32, u32)>)
    ensures
        r@ == attribute_formats(*vd),
{
    let mut r: Vec<(i32, u32)> = Vec::new();
    r.push((3, FLOAT));
    if vd.normals.is_some() {
        r.push((3, FLOAT));
    }
    if vd.tangents.is_some() {
        r.push((4, FLOAT));
    }
    let ghost head = r@;
    let mut k: usize = 0;
    while k < vd.texcoords.len()
        invariant
            k <= vd.texcoords@.len(),
            r@ == head + Seq::new(k as nat, |j: int| (2i32, FLOAT)),
        decreases vd.texcoords@.len() - k,
    {
        r.push((2, FLOAT));
        k += 1;
        assert(r@ =~= head + Seq::new(k as nat, |j: int| (2i32, FLOAT)));
    }
    let ghost head2 = r@;
    let mut k: usize = 0;
    while k < vd.colors.len()
        invariant
            k <= vd.colors@.len(),
            r@ == head2 + Seq::new(k as nat, |j: int| (color_size(vd.colors@[j]), FLOAT)),
        decreases vd.colors@.len() - k,
    {
        let size: i32 = match &vd.colors[k] {
            Color::Rgb(_) => 3,
            Color::Rgba(_) => 4,
        };
        r.push((size, FLOAT));
        k += 1;
        assert(r@ =~= head2 + Seq::new(k as nat, |j: int| (color_size(vd.colors@[j]), FLOAT)));
    }
    if vd.joints.is_some() {
        r.push((4, UNSIGNED_SHORT));
    }
    if vd.weights.is_some() {
        r.push((4, FLOAT));
    }
    assert(r@ =~= attribute_formats(*vd));
    r
}

/// Derives the packed vertex format of `vertex_data`: one layout per present
/// attribute in slot order, each offset the sum of the sizes before it.
pub fn determine_layouts(vertex_data: &VertexData) -> (r: Vec<Layout>)
    requires
        attribute_count_fits(*vertex_data),
    ensures
        r@ == derived_layouts(*vertex_data),
{
    let fs = attribute_format_list(vertex_data);
    let ghost gfs = fs@;
    proof {
        lemma_format_sizes(*vertex_data);
    }
    let mut layouts: Vec<Layout> = Vec::new();
    let mut offset: usize = 0;
    let mut i: usize = 0;
    while i < fs.len()
        invariant
            fs@ == gfs,
            gfs == attribute_formats(*vertex_data),
            gfs.len() <= u32::MAX,
            16 * gfs.len() <= usize::MAX,
            forall|k: int| 0 <= k < gfs.len() ==> 2 <= (#[trigger] gfs[k]).0 <= 4,
            i <= gfs.len(),
            offset == bytes_before(gfs, i as nat),
            layouts@ == Seq::new(i as nat, |k: int| layout_at(gfs, k)),
        decreases gfs.len() - i,
    {
        let (size, gl_type) = fs[i];
        proof {
            lemma_bytes_before_bounds(gfs, (i + 1) as nat);
        }
        layouts.push(Layout { index: i as u32, size, gl_type, normalized: false, offset });
        let bytes: usize = if gl_type == UNSIGNED_SHORT {
            2
        } else {
            4
        };
        assert(format_bytes((size, gl_type)) == size as usize * bytes);
        offset = offset + size as usize * bytes;
        i += 1;
        assert(layouts@ =~= Seq::new(i as nat, |k: int| layout_at(gfs, k)));
    }
    layouts
}

/// Byte size of one vertex record: the offset of the last layout plus its size.
pub fn calculate_stride(layouts: &[Layout]) -> (r: Result<i32, StrideError>)
    ensures
        r == stride_of(layouts@),
{
    if layouts.len() == 0 {
        return Err(StrideError::NoLayouts);
    }
    let last = layouts[layouts.len() - 1];
    let bytes: usize = if last.gl_type == FLOAT {
        4
    } else if last.gl_type == UNSIGNED_SHORT {
        2
    } else {
        return Err(StrideError::UnsupportedType);
    };
    if last.size < 0 {
        return Err(StrideError::OutOfRange);
    }
    let size = last.size as usize;
    if last.offset > i32::MAX as usize || size > (i32::MAX as usize - last.offset) / bytes {
        return Err(StrideError::OutOfRange);
    }
    assert(size * bytes <= i32::MAX - last.offset) by (nonlinear_arith)
        requires
            size <= (i32::MAX - last.offset) / (bytes as int),
            bytes == 2 || bytes == 4,
            last.offset <= i32::MAX,
    ;
    let total = last.offset + size * bytes;
    if total > i32::MAX as usize {
        return Err(StrideError::OutOfRange);
    }
    Ok(total as i32)
}

} // verus!
