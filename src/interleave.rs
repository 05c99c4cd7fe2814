use vstd::prelude::*;
use crate::data::{Color, Uv, VertexData};
use crate::layout::{
    attribute_count_fits, attribute_formats, bytes_before, color_size, derived_layouts,
    format_bytes, layout_at, lemma_bytes_before_bounds, lemma_format_sizes, scalar_bytes,
    stride_of, StrideError, FLOAT,
};

verus! {

/// Why a vertex data set could not be interleaved.
#[derive(Debug, Clone, Copy, PartialEq, Eq, Structural)]
pub enum InterleaveError {
    /// Joints or weights are present; their scalar widths differ from the
    /// float buffer's, and mixed-width packing is not implemented.
    SkinningUnsupported,
    /// A present stream does not cover exactly the vertices of the positions.
    StreamLengthMismatch,
}

/// Vertex `i` of the first `k` texcoord sets, set after set.
pub open spec fn texcoord_part(sets: Seq<Uv>, i: int, k: nat) -> Seq<u32>
    decreases k,
{
    if k == 0 {
        Seq::empty()
    } else {
        texcoord_part(sets, i, (k - 1) as nat) + sets[k - 1].0@[i]@
    }
}

/// Vertex `i` of the first `k` color sets, set after set.
pub open spec fn color_part(sets: Seq<Color>, i: int, k: nat) -> Seq<u32>
    decreases k,
{
    if k == 0 {
        Seq::empty()
    } else {
        color_part(sets, i, (k - 1) as nat) + sets[k - 1].at(i)
    }
}

/// The record of vertex `i`: position, normal, tangent, texcoords, colors.
pub open spec fn vertex_row(vd: VertexData, i: int) -> Seq<u32> {
    vd.positions@[i]@ + (match vd.normals {
        Some(v) => v@[i]@,
        None => Seq::empty(),
    }) + (match vd.tangents {
        Some(v) => v@[i]@,
        None => Seq::empty(),
    }) + texcoord_part(vd.texcoords@, i, vd.texcoords@.len()) + color_part(
        vd.colors@,
        i,
        vd.colors@.len(),
    )
}

/// The records of the first `n` vertices, one after another.
pub open spec fn vertex_rows(vd: VertexData, n: nat) -> Seq<u32>
    decreases n,
{
    if n == 0 {
        Seq::empty()
    } else {
        vertex_rows(vd, (n - 1) as nat) + vertex_row(vd, n - 1)
    }
}

/// The interleaved buffer of a vertex data set.
pub open spec fn interleaved(vd: VertexData) -> Seq<u32> {
    vertex_rows(vd, vd.vertex_count())
}

fn push_array<const N: usize>(out: &mut Vec<u32>, a: &[u32; N])
    ensures
        final(out)@ == old(out)@ + a@,
{
    let ghost start = out@;
    let mut k: usize = 0;
    while k < N
        invariant
            k <= N,
            a@.len() == N,
            out@ == start + a@.subrange(0, k as int),
        decreases N - k,
    {
        out.push(a[k]);
        k += 1;
        assert(out@ =~= start + a@.subrange(0, k as int));
    }
    assert(a@.subrange(0, N as int) =~= a@);
}

fn streams_consistent(vd: &VertexData) -> (r: bool)
    ensures
        r == vd.streams_consistent(),
{
    let n = vd.positions.len();
    if let Some(v) = &vd.normals {
        if v.len() != n {
            return false;
        }
    }
    if let Some(v) = &vd.tangents {
        if v.len() != n {
            return false;
        }
    }
    if let Some(v) = &vd.joints {
        if v.len() != n {
            return false;
        }
    }
    if let Some(v) = &vd.weights {
        if v.len() != n {
            return false;
        }
    }
    let mut k: usize = 0;
    while k < vd.texcoords.len()
        invariant
            k <= vd.texcoords@.len(),
            n == vd.vertex_count(),
            forall|j: int| 0 <= j < k ==> (#[trigger] vd.texcoords@[j]).0@.len() == n,
        decreases vd.texcoords@.len() - k,
    {
        if vd.texcoords[k].0.len() != n {
            return false;
        }
        k += 1;
    }
    let mut k: usize = 0;
    while k < vd.colors.len()
        invariant
            k <= vd.colors@.len(),
            n == vd.vertex_count(),
            forall|j: int| 0 <= j < k ==> (#[trigger] vd.colors@[j]).count() == n,
        decreases vd.colors@.len() - k,
    {
        let len = match &vd.colors[k] {
            Color::Rgb(v) => v.len(),
            Color::Rgba(v) => v.len(),
        };
        if len != n {
            return false;
        }
        k += 1;
    }
    true
}

/// Packs the vertex streams into one buffer with one record per vertex, in
/// slot order. Skinning streams are refused rather than packed at the wrong
/// width.
pub fn interleave_vertex_data(vertex_data: &VertexData) -> (r: Result<Vec<u32>, InterleaveError>)
    ensures
        vertex_data.has_skinning() ==> r == Err::<Vec<u32>, InterleaveError>(
            InterleaveError::SkinningUnsupported,
        ),
        !vertex_data.has_skinning() && !vertex_data.streams_consistent() ==> r == Err::<
            Vec<u32>,
            InterleaveError,
        >(InterleaveError::StreamLengthMismatch),
        !vertex_data.has_skinning() && vertex_data.streams_consistent() ==> (r matches Ok(v)
            && v@ == interleaved(*vertex_data)),
{
    let vd = vertex_data;
    if vd.joints.is_some() || vd.weights.is_some() {
        return Err(InterleaveError::SkinningUnsupported);
    }
    if !streams_consistent(vd) {
        return Err(InterleaveError::StreamLengthMismatch);
    }
    let n = vd.positions.len();
    let mut out: Vec<u32> = Vec::new();
    let mut i: usize = 0;
    while i < n
        invariant
            n == vd.vertex_count(),
            vd.streams_consistent(),
            i <= n,
            out@ == vertex_rows(*vd, i as nat),
        decreases n - i,
    {
        let ghost before = out@;
        push_array(&mut out, &vd.positions[i]);
        if let Some(v) = &vd.normals {
            push_array(&mut out, &v[i]);
        }
        if let Some(v) = &vd.tangents {
            push_array(&mut out, &v[i]);
        }
        let ghost fixed = out@;
        let mut k: usize = 0;
        while k < vd.texcoords.len()
            invariant
                n == vd.vertex_count(),
                vd.streams_consistent(),
                i < n,
                k <= vd.texcoords@.len(),
                out@ == fixed + texcoord_part(vd.texcoords@, i as int, k as nat),
            decreases vd.texcoords@.len() - k,
        {
            assert(vd.texcoords@[k as int].0@.len() == n);
            push_array(&mut out, &vd.texcoords[k].0[i]);
            k += 1;
            assert(out@ =~= fixed + texcoord_part(vd.texcoords@, i as int, k as nat));
        }
        let ghost with_uv = out@;
        let mut k: usize = 0;
        while k < vd.colors.len()
            invariant
                n == vd.vertex_count(),
                vd.streams_consistent(),
                i < n,
                k <= vd.colors@.len(),
                out@ == with_uv + color_part(vd.colors@, i as int, k as nat),
            decreases vd.colors@.len() - k,
        {
            assert(vd.colors@[k as int].count() == n);
            match &vd.colors[k] {
                Color::Rgb(v) => push_array(&mut out, &v[i]),
                Color::Rgba(v) => push_array(&mut out, &v[i]),
            }
            k += 1;
            assert(out@ =~= with_uv + color_part(vd.colors@, i as int, k as nat));
        }
        assert(out@ =~= before + vertex_row(*vd, i as int));
        i += 1;
    }
    Ok(out)
}

/// Sum of the component counts of the first `k` formats.
spec fn components_before(fs: Seq<(i32, u32)>, k: nat) -> int
    decreases k,
{
    if k == 0 {
        0
    } else {
        components_before(fs, (k - 1) as nat) + fs[k - 1].0
    }
}

/// Channels per vertex of the first `k` color sets together.
spec fn color_width(sets: Seq<Color>, k: nat) -> int
    decreases k,
{
    if k == 0 {
        0
    } else {
        color_width(sets, (k - 1) as nat) + color_size(sets[k - 1])
    }
}

/// Values per vertex record.
spec fn row_width(vd: VertexData) -> int {
    3 + (if vd.normals.is_some() {
        3int
    } else {
        0
    }) + (if vd.tangents.is_some() {
        4int
    } else {
        0
    }) + 2 * vd.texcoords@.len() + color_width(vd.colors@, vd.colors@.len())
}

proof fn lemma_components_prefix(a: Seq<(i32, u32)>, b: Seq<(i32, u32)>, j: nat)
    requires
        j <= a.len(),
    ensures
        components_before(a + b, j) == components_before(a, j),
    decreases j,
{
    if j > 0 {
        lemma_components_prefix(a, b, (j - 1) as nat);
        assert((a + b)[j - 1] == a[j - 1]);
    }
}

proof fn lemma_components_concat(a: Seq<(i32, u32)>, b: Seq<(i32, u32)>, k: nat)
    requires
        k <= b.len(),
    ensures
        components_before(a + b, a.len() + k) == components_before(a, a.len())
            + components_before(b, k),
    decreases k,
{
    if k == 0 {
        lemma_components_prefix(a, b, a.len());
    } else {
        lemma_components_concat(a, b, (k - 1) as nat);
        assert((a + b)[a.len() + k - 1] == b[k - 1]);
    }
}

proof fn lemma_components_whole(a: Seq<(i32, u32)>, b: Seq<(i32, u32)>)
    ensures
        components_before(a + b, (a + b).len()) == components_before(a, a.len())
            + components_before(b, b.len()),
{
    lemma_components_concat(a, b, b.len());
}

proof fn lemma_float_bytes(fs: Seq<(i32, u32)>, i: nat)
    requires
        i <= fs.len(),
        forall|j: int| 0 <= j < fs.len() ==> (#[trigger] fs[j]).1 == FLOAT,
    ensures
        bytes_before(fs, i) == 4 * components_before(fs, i),
    decreases i,
{
    if i > 0 {
        lemma_float_bytes(fs, (i - 1) as nat);
        assert(fs[i - 1].1 == FLOAT);
        assert(scalar_bytes(fs[i - 1].1) == 4);
        assert(format_bytes(fs[i - 1]) == fs[i - 1].0 * 4);
        assert(bytes_before(fs, i) == bytes_before(fs, (i - 1) as nat) + format_bytes(fs[i - 1]));
    }
}

proof fn lemma_texcoord_formats(t: nat, k: nat)
    requires
        k <= t,
    ensures
        components_before(Seq::new(t, |j: int| (2i32, FLOAT)), k) == 2 * k,
    decreases k,
{
    if k > 0 {
        lemma_texcoord_formats(t, (k - 1) as nat);
    }
}

proof fn lemma_color_formats(sets: Seq<Color>, k: nat)
    requires
        k <= sets.len(),
    ensures
        components_before(Seq::new(sets.len(), |j: int| (color_size(sets[j]), FLOAT)), k)
            == color_width(sets, k),
    decreases k,
{
    if k > 0 {
        lemma_color_formats(sets, (k - 1) as nat);
    }
}

proof fn lemma_texcoord_part_len(sets: Seq<Uv>, i: int, k: nat)
    requires
        k <= sets.len(),
    ensures
        texcoord_part(sets, i, k).len() == 2 * k,
    decreases k,
{
    if k > 0 {
        lemma_texcoord_part_len(sets, i, (k - 1) as nat);
    }
}

proof fn lemma_color_part_len(sets: Seq<Color>, i: int, k: nat)
    requires
        k <= sets.len(),
    ensures
        color_part(sets, i, k).len() == color_width(sets, k),
    decreases k,
{
    if k > 0 {
        lemma_color_part_len(sets, i, (k - 1) as nat);
    }
}

proof fn lemma_rows_len(vd: VertexData, n: nat)
    ensures
        vertex_rows(vd, n).len() == n * row_width(vd),
    decreases n,
{
    if n > 0 {
        lemma_rows_len(vd, (n - 1) as nat);
        lemma_texcoord_part_len(vd.texcoords@, n - 1, vd.texcoords@.len());
        lemma_color_part_len(vd.colors@, n - 1, vd.colors@.len());
        assert(vertex_row(vd, n - 1).len() == row_width(vd));
        assert((n - 1) * row_width(vd) + row_width(vd) == n * row_width(vd)) by (nonlinear_arith);
        assert(vertex_rows(vd, n) == vertex_rows(vd, (n - 1) as nat) + vertex_row(vd, n - 1));
    } else {
        assert(0 * row_width(vd) == 0);
    }
}

proof fn lemma_color_width_bounds(sets: Seq<Color>, k: nat)
    requires
        k <= sets.len(),
    ensures
        3 * k <= color_width(sets, k) <= 4 * k,
    decreases k,
{
    if k > 0 {
        lemma_color_width_bounds(sets, (k - 1) as nat);
    }
}

/// For vertex data that can be interleaved (no skinning, every stream
/// covering the positions) and whose derived stride is computable, the
/// interleaved buffer holds exactly one record of that stride per vertex: its
/// length in floats times 4 is the vertex count times the stride in bytes.
pub proof fn lemma_interleaved_length_matches_stride(vd: VertexData)
    requires
        !vd.has_skinning(),
        vd.streams_consistent(),
        attribute_count_fits(vd),
        stride_of(derived_layouts(vd)) is Ok,
    ensures
        stride_of(derived_layouts(vd)) matches Ok(stride) && interleaved(vd).len() * 4
            == vd.vertex_count() * stride,
{
    let fs = attribute_formats(vd);
    let p = seq![(3i32, FLOAT)];
    let nrm = if vd.normals.is_some() {
        seq![(3i32, FLOAT)]
    } else {
        Seq::<(i32, u32)>::empty()
    };
    let tan = if vd.tangents.is_some() {
        seq![(4i32, FLOAT)]
    } else {
        Seq::<(i32, u32)>::empty()
    };
    let tex = Seq::new(vd.texcoords@.len(), |k: int| (2i32, FLOAT));
    let col = Seq::new(vd.colors@.len(), |k: int| (color_size(vd.colors@[k]), FLOAT));
    assert(fs =~= p + nrm + tan + tex + col);
    lemma_components_whole(p, nrm);
    lemma_components_whole(p + nrm, tan);
    lemma_components_whole(p + nrm + tan, tex);
    lemma_components_whole(p + nrm + tan + tex, col);
    assert(components_before(p, 1) == 3) by {
        reveal_with_fuel(components_before, 2);
    }
    assert(components_before(nrm, nrm.len()) == if vd.normals.is_some() { 3int } else { 0 }) by {
        reveal_with_fuel(components_before, 2);
    }
    assert(components_before(tan, tan.len()) == if vd.tangents.is_some() { 4int } else { 0 }) by {
        reveal_with_fuel(components_before, 2);
    }
    lemma_texcoord_formats(vd.texcoords@.len(), vd.texcoords@.len());
    lemma_color_formats(vd.colors@, vd.colors@.len());
    assert(components_before(fs, fs.len()) == row_width(vd));
    assert forall|j: int| 0 <= j < fs.len() implies (#[trigger] fs[j]).1 == FLOAT by {
        if j >= (p + nrm + tan + tex).len() {
            assert(fs[j] == col[j - (p + nrm + tan + tex).len()]);
        }
    }
    lemma_float_bytes(fs, fs.len());
    lemma_float_bytes(fs, (fs.len() - 1) as nat);
    lemma_color_width_bounds(vd.colors@, vd.colors@.len());
    lemma_format_sizes(vd);
    lemma_bytes_before_bounds(fs, (fs.len() - 1) as nat);
    let layouts = derived_layouts(vd);
    let last = layouts.last();
    assert(last == layout_at(fs, fs.len() - 1));
    assert(bytes_before(fs, fs.len()) == bytes_before(fs, (fs.len() - 1) as nat) + format_bytes(
        fs[fs.len() - 1],
    ));
    assert(scalar_bytes(last.gl_type) == 4);
    assert(last.offset + last.size * scalar_bytes(last.gl_type) == 4 * row_width(vd));
    lemma_rows_len(vd, vd.vertex_count());
    assert(stride_of(layouts) == Ok::<i32, StrideError>((4 * row_width(vd)) as i32));
    assert(vd.vertex_count() * row_width(vd) * 4 == vd.vertex_count() * (4 * row_width(vd)))
        by (nonlinear_arith);
}

} // verus!
