use vstd::prelude::*;
use crate::color::{unpremultiply, unpremultiply_spec, Color32};
use crate::textures::TextureId;

verus! {

/// One tessellated vertex: a screen-space position and a texture
/// coordinate, both carried as 32-bit float bit patterns, and a
/// premultiplied RGBA color.
///
/// Positions are passed through to the rasterizer untouched, so only
/// the one fact the renderer reads off them — whether a coordinate is a
/// NaN — is modeled, directly on the bit pattern.
#[derive(Clone, Copy, PartialEq, Eq, Structural, Hash, Debug)]
pub struct Vertex {
    pub x_bits: u32,
    pub y_bits: u32,
    pub u_bits: u32,
    pub v_bits: u32,
    pub color: Color32,
}

/// Whether a 32-bit float bit pattern encodes a NaN: exponent bits all
/// set and a non-zero mantissa.
pub open spec fn is_nan_bits(b: u32) -> bool {
    b & 0x7f80_0000 == 0x7f80_0000 && b & 0x007f_ffff != 0
}

/// Exact check of [`is_nan_bits`] on a float bit pattern.
pub fn bits_are_nan(b: u32) -> (r: bool)
    ensures
        r == is_nan_bits(b),
{
    b & 0x7f80_0000 == 0x7f80_0000 && b & 0x007f_ffff != 0
}

/// The repaired form of a vertex: a NaN on either position axis snaps
/// the position to the origin (bit pattern of 0.0 on both axes) so one
/// degenerate vertex cannot blank its whole mesh, and the premultiplied
/// color is converted to straight form for the modulate blend.
pub open spec fn fix_vertex_spec(v: Vertex) -> Vertex {
    let c = unpremultiply_spec(v.color);
    if is_nan_bits(v.x_bits) || is_nan_bits(v.y_bits) {
        Vertex { x_bits: 0, y_bits: 0, u_bits: v.u_bits, v_bits: v.v_bits, color: c }
    } else {
        Vertex { x_bits: v.x_bits, y_bits: v.y_bits, u_bits: v.u_bits, v_bits: v.v_bits, color: c }
    }
}

/// Repair one vertex for drawing: snap NaN positions to the origin and
/// un-premultiply the color.
pub fn fix_vertex(v: &Vertex) -> (r: Vertex)
    ensures
        r == fix_vertex_spec(*v),
{
    let c = unpremultiply(v.color);
    if bits_are_nan(v.x_bits) || bits_are_nan(v.y_bits) {
        Vertex { x_bits: 0, y_bits: 0, u_bits: v.u_bits, v_bits: v.v_bits, color: c }
    } else {
        Vertex { x_bits: v.x_bits, y_bits: v.y_bits, u_bits: v.u_bits, v_bits: v.v_bits, color: c }
    }
}

/// A triangle mesh as the UI layer hands it over: a vertex list, a
/// triangle index list into it, and the texture the triangles sample.
pub struct Mesh {
    pub vertices: Vec<Vertex>,
    pub indices: Vec<u32>,
    pub texture_id: TextureId,
}

/// A mesh whose indices fit a 16-bit draw call; what one vertex-buffer
/// draw is issued from.
pub struct Mesh16 {
    pub vertices: Vec<Vertex>,
    pub indices: Vec<u16>,
    pub texture_id: TextureId,
}

/// The triangles a vertex list and an index list denote, as vertex
/// value triples in draw order.
pub open spec fn tri_seq(vertices: Seq<Vertex>, indices: Seq<u32>) -> Seq<(Vertex, Vertex, Vertex)> {
    Seq::new(
        (indices.len() / 3) as nat,
        |t: int|
            (
                vertices[indices[3 * t] as int],
                vertices[indices[3 * t + 1] as int],
                vertices[indices[3 * t + 2] as int],
            ),
    )
}

pub open spec fn min3_spec(a: u32, b: u32, c: u32) -> u32 {
    if a <= b && a <= c {
        a
    } else if b <= c {
        b
    } else {
        c
    }
}

pub open spec fn max3_spec(a: u32, b: u32, c: u32) -> u32 {
    if a >= b && a >= c {
        a
    } else if b >= c {
        b
    } else {
        c
    }
}

fn min3(a: u32, b: u32, c: u32) -> (r: u32)
    ensures
        r == min3_spec(a, b, c),
{
    if a <= b && a <= c {
        a
    } else if b <= c {
        b
    } else {
        c
    }
}

fn max3(a: u32, b: u32, c: u32) -> (r: u32)
    ensures
        r == max3_spec(a, b, c),
{
    if a >= b && a >= c {
        a
    } else if b >= c {
        b
    } else {
        c
    }
}

impl Mesh {
    /// The data invariant of a mesh: whole triangles only, and every
    /// index in bounds of the vertex list.
    pub open spec fn is_valid_spec(self) -> bool {
        self.indices@.len() % 3 == 0 && (forall|i: int|
            0 <= i < self.indices@.len() ==> (#[trigger] self.indices@[i]) < self.vertices@.len())
    }

    /// No single triangle spans more than a 16-bit range of vertex
    /// indices, so every triangle fits some sub-mesh.
    pub open spec fn spans_fit_spec(self) -> bool {
        forall|t: int|
            0 <= t < self.indices@.len() / 3 ==> max3_spec(
                #[trigger] self.indices@[3 * t],
                self.indices@[3 * t + 1],
                self.indices@[3 * t + 2],
            ) - min3_spec(self.indices@[3 * t], self.indices@[3 * t + 1], self.indices@[3 * t + 2])
                <= 65534
    }

    /// The triangles this mesh draws, in order.
    pub open spec fn tris(self) -> Seq<(Vertex, Vertex, Vertex)> {
        tri_seq(self.vertices@, self.indices@)
    }

    /// Are all indices within the bounds of the contained vertices, in
    /// whole triangles?
    pub fn is_valid(&self) -> (r: bool)
        ensures
            r == self.is_valid_spec(),
    {
        if self.indices.len() % 3 != 0 {
            return false;
        }
        let n = self.vertices.len();
        let mut i: usize = 0;
        while i < self.indices.len()
            invariant
                i <= self.indices@.len(),
                n == self.vertices@.len(),
                forall|j: int| 0 <= j < i ==> (#[trigger] self.indices@[j]) < n,
            decreases self.indices@.len() - i,
        {
            if !((self.indices[i] as usize) < n) {
                return false;
            }
            i = i + 1;
        }
        true
    }

    /// Does every single triangle span at most a 16-bit index range?
    pub fn spans_fit(&self) -> (r: bool)
        requires
            self.is_valid_spec(),
        ensures
            r == self.spans_fit_spec(),
    {
        let mut cursor: usize = 0;
        while cursor < self.indices.len()
            invariant
                cursor % 3 == 0,
                cursor <= self.indices@.len(),
                self.is_valid_spec(),
                forall|t: int|
                    0 <= t < cursor / 3 ==> max3_spec(
                        #[trigger] self.indices@[3 * t],
                        self.indices@[3 * t + 1],
                        self.indices@[3 * t + 2],
                    ) - min3_spec(
                        self.indices@[3 * t],
                        self.indices@[3 * t + 1],
                        self.indices@[3 * t + 2],
                    ) <= 65534,
            decreases self.indices@.len() - cursor,
        {
            let a = self.indices[cursor];
            let b = self.indices[cursor + 1];
            let c = self.indices[cursor + 2];
            let lo = min3(a, b, c);
            let hi = max3(a, b, c);
            if hi - lo > 65534 {
                proof {
                    let t = cursor as int / 3;
                    assert(3 * t == cursor as int);
                    assert(self.indices@[3 * t] == a);
                }
                return false;
            }
            proof {
                let t = cursor as int / 3;
                assert(3 * t == cursor as int);
                assert(self.indices@[3 * t] == a);
            }
            cursor = cursor + 3;
        }
        true
    }
}

impl Mesh16 {
    /// A sub-mesh fit for one 16-bit indexed draw against a texture.
    pub open spec fn ok_for(self, tex: TextureId) -> bool {
        self.texture_id == tex && self.vertices@.len() <= 65535 && self.indices@.len() % 3 == 0
            && (forall|i: int|
            0 <= i < self.indices@.len() ==> (#[trigger] self.indices@[i]) < self.vertices@.len())
    }

    /// The triangles this sub-mesh draws, in order.
    pub open spec fn tris(self) -> Seq<(Vertex, Vertex, Vertex)> {
        Seq::new(
            (self.indices@.len() / 3) as nat,
            |t: int|
                (
                    self.vertices@[self.indices@[3 * t] as int],
                    self.vertices@[self.indices@[3 * t + 1] as int],
                    self.vertices@[self.indices@[3 * t + 2] as int],
                ),
        )
    }
}

/// The triangles a list of sub-meshes draws: each sub-mesh's triangles,
/// in list order.
pub open spec fn sub_meshes_tris(subs: Seq<Mesh16>) -> Seq<(Vertex, Vertex, Vertex)>
    decreases subs.len(),
{
    if subs.len() == 0 {
        Seq::empty()
    } else {
        sub_meshes_tris(subs.drop_last()) + subs.last().tris()
    }
}

/// Every sub-mesh in the list is fit for a 16-bit draw of one texture.
pub open spec fn sub_meshes_ok(subs: Seq<Mesh16>, tex: TextureId) -> bool {
    forall|k: int| 0 <= k < subs.len() ==> (#[trigger] subs[k]).ok_for(tex)
}

fn copy_vertex_range(v: &Vec<Vertex>, lo: usize, hi: usize) -> (r: Vec<Vertex>)
    requires
        lo <= hi <= v@.len(),
    ensures
        r@ == v@.subrange(lo as int, hi as int),
{
    let mut out: Vec<Vertex> = Vec::new();
    let mut i: usize = lo;
    while i < hi
        invariant
            lo <= i <= hi <= v@.len(),
            out@ == v@.subrange(lo as int, i as int),
        decreases hi - i,
    {
        out.push(v[i]);
        proof {
            assert(out@ =~= v@.subrange(lo as int, i as int + 1));
        }
        i = i + 1;
    }
    out
}

/// Split a mesh into sub-meshes whose indices fit a 16-bit draw call.
/// The sub-meshes share the mesh's texture, and together they draw
/// exactly the original triangle list: the same vertex values, in the
/// same order.
#[verifier::loop_isolation(false)]
pub fn split_to_u16(mesh: Mesh) -> (subs: Vec<Mesh16>)
    requires
        mesh.is_valid_spec(),
        mesh.spans_fit_spec(),
    ensures
        sub_meshes_ok(subs@, mesh.texture_id),
        sub_meshes_tris(subs@) == mesh.tris(),
{
    let ghost orig = mesh.tris();
    // Ties the vertex list's abstract length to an exec usize, so index
    // arithmetic below is known not to overflow.
    let _vertex_count = mesh.vertices.len();
    let mut subs: Vec<Mesh16> = Vec::new();
    let mut cursor: usize = 0;
    while cursor < mesh.indices.len()
        invariant
            cursor % 3 == 0,
            cursor <= mesh.indices@.len(),
            sub_meshes_ok(subs@, mesh.texture_id),
            sub_meshes_tris(subs@) == orig.take(cursor as int / 3),
        decreases mesh.indices@.len() - cursor,
    {
        let span_start = cursor;
        let i0 = mesh.indices[cursor];
        let i1 = mesh.indices[cursor + 1];
        let i2 = mesh.indices[cursor + 2];
        let mut min_v = min3(i0, i1, i2);
        let mut max_v = max3(i0, i1, i2);
        proof {
            let ta = span_start as int / 3;
            assert(3 * ta == span_start as int);
            assert(0 <= ta < mesh.indices@.len() / 3);
            assert(mesh.indices@[3 * ta] == i0);
            assert(max3_spec(
                mesh.indices@[3 * ta],
                mesh.indices@[3 * ta + 1],
                mesh.indices@[3 * ta + 2],
            ) - min3_spec(
                mesh.indices@[3 * ta],
                mesh.indices@[3 * ta + 1],
                mesh.indices@[3 * ta + 2],
            ) <= 65534);
        }
        cursor = cursor + 3;
        let mut stop = false;
        while !stop && cursor < mesh.indices.len()
            invariant
                span_start + 3 <= cursor <= mesh.indices@.len(),
                cursor % 3 == 0,
                span_start % 3 == 0,
                min_v <= max_v,
                max_v - min_v <= 65534,
                (max_v as int) < mesh.vertices@.len(),
                forall|i: int|
                    span_start <= i < cursor ==> min_v <= #[trigger] mesh.indices@[i] <= max_v,
            decreases mesh.indices@.len() - cursor + (if stop { 0int } else { 1int }),
        {
            let j0 = mesh.indices[cursor];
            let j1 = mesh.indices[cursor + 1];
            let j2 = mesh.indices[cursor + 2];
            let tri_lo = min3(j0, j1, j2);
            let tri_hi = max3(j0, j1, j2);
            let new_min = if tri_lo < min_v {
                tri_lo
            } else {
                min_v
            };
            let new_max = if tri_hi > max_v {
                tri_hi
            } else {
                max_v
            };
            if new_max - new_min <= 65534 {
                min_v = new_min;
                max_v = new_max;
                cursor = cursor + 3;
            } else {
                stop = true;
            }
        }
        let vs = copy_vertex_range(&mesh.vertices, min_v as usize, max_v as usize + 1);
        let mut inds: Vec<u16> = Vec::new();
        let mut j: usize = span_start;
        while j < cursor
            invariant
                span_start <= j <= cursor <= mesh.indices@.len(),
                inds@.len() == j - span_start,
                forall|k: int|
                    0 <= k < inds@.len() ==> (#[trigger] inds@[k]) as int == mesh.indices@[span_start
                        + k] - min_v,
                forall|i: int|
                    span_start <= i < cursor ==> min_v <= #[trigger] mesh.indices@[i] <= max_v,
                max_v - min_v <= 65534,
            decreases cursor - j,
        {
            inds.push((mesh.indices[j] - min_v) as u16);
            j = j + 1;
        }
        let sub = Mesh16 { vertices: vs, indices: inds, texture_id: mesh.texture_id };
        proof {
            let ghost ta = span_start as int / 3;
            let ghost tb = cursor as int / 3;
            assert(3 * ta == span_start as int);
            assert(3 * tb == cursor as int);
            assert(sub.tris() =~= orig.subrange(ta, tb)) by {
                assert(sub.indices@.len() as int / 3 == tb - ta);
                assert forall|t: int| 0 <= t < tb - ta implies sub.tris()[t] == orig.subrange(
                    ta,
                    tb,
                )[t] by {
                    assert(sub.indices@[3 * t] as int == mesh.indices@[span_start + 3 * t] - min_v);
                    assert(sub.indices@[3 * t + 1] as int == mesh.indices@[span_start + 3 * t + 1]
                        - min_v);
                    assert(sub.indices@[3 * t + 2] as int == mesh.indices@[span_start + 3 * t + 2]
                        - min_v);
                    assert(3 * (ta + t) == span_start + 3 * t);
                    assert(orig[ta + t] == (
                        mesh.vertices@[mesh.indices@[span_start + 3 * t] as int],
                        mesh.vertices@[mesh.indices@[span_start + 3 * t + 1] as int],
                        mesh.vertices@[mesh.indices@[span_start + 3 * t + 2] as int],
                    ));
                }
            }
            assert(subs@.push(sub).drop_last() =~= subs@);
            assert(sub_meshes_tris(subs@.push(sub)) == sub_meshes_tris(subs@) + sub.tris());
            assert(orig.take(ta) + orig.subrange(ta, tb) =~= orig.take(tb));
        }
        subs.push(sub);
    }
    proof {
        assert(orig.take(cursor as int / 3) =~= orig);
    }
    subs
}

/// The mesh with every vertex repaired for drawing: NaN positions
/// snapped to the origin and colors un-premultiplied; triangles and
/// texture unchanged.
pub fn prepare_mesh(m: &Mesh) -> (r: Mesh)
    ensures
        r.vertices@ == m.vertices@.map_values(|v: Vertex| fix_vertex_spec(v)),
        r.indices@ == m.indices@,
        r.texture_id == m.texture_id,
{
    let mut vs: Vec<Vertex> = Vec::new();
    let mut i: usize = 0;
    while i < m.vertices.len()
        invariant
            i <= m.vertices@.len(),
            vs@.len() == i,
            forall|j: int| 0 <= j < i ==> vs@[j] == fix_vertex_spec(#[trigger] m.vertices@[j]),
        decreases m.vertices@.len() - i,
    {
        vs.push(fix_vertex(&m.vertices[i]));
        i = i + 1;
    }
    let mut inds: Vec<u32> = Vec::new();
    let mut k: usize = 0;
    while k < m.indices.len()
        invariant
            k <= m.indices@.len(),
            inds@ == m.indices@.take(k as int),
        decreases m.indices@.len() - k,
    {
        inds.push(m.indices[k]);
        proof {
            assert(inds@ =~= m.indices@.take(k as int + 1));
        }
        k = k + 1;
    }
    proof {
        assert(vs@ =~= m.vertices@.map_values(|v: Vertex| fix_vertex_spec(v)));
        assert(inds@ =~= m.indices@);
    }
    Mesh { vertices: vs, indices: inds, texture_id: m.texture_id }
}

} // verus!
