use vstd::prelude::*;

verus! {

/// The index lists of a triangle mesh: three entries per triangle in each list, into the
/// vertex positions, the normals and the texture coordinates.
#[derive(Debug)]
pub struct MeshIndices {
    pub vertex_indices: Vec<u32>,
    pub normal_indices: Vec<u32>,
    pub uvcoord_indices: Vec<u32>,
}

/// The corners of one triangle: its three vertex, normal and texture-coordinate indices.
#[derive(Debug, Clone, Copy)]
pub struct TriangleCorners {
    pub v: [u32; 3],
    pub n: [u32; 3],
    pub uv: [u32; 3],
}

/// The list `s` with the second and third entry of every triple swapped, which turns each
/// triangle's winding around.
pub open spec fn reversed_winding(s: Seq<u32>) -> Seq<u32> {
    Seq::new(
        s.len(),
        |i: int|
            if i % 3 == 1 {
                s[i + 1]
            } else if i % 3 == 2 {
                s[i - 1]
            } else {
                s[i]
            },
    )
}

/// Swaps the second and third entry of every triple of `indices`.
pub fn reverse_winding(indices: &mut Vec<u32>)
    requires
        old(indices)@.len() % 3 == 0,
    ensures
        final(indices)@ == reversed_winding(old(indices)@),
{
    let len = indices.len();
    let mut i: usize = 0;
    while i < len
        invariant
            len == indices@.len(),
            len == old(indices)@.len(),
            len % 3 == 0,
            i <= len,
            i % 3 == 0,
            forall|j: int|
                0 <= j < i ==> #[trigger] indices@[j] == reversed_winding(old(indices)@)[j],
            forall|j: int| i <= j < len ==> #[trigger] indices@[j] == old(indices)@[j],
        decreases len - i,
    {
        let a = indices[i + 1];
        let b = indices[i + 2];
        indices.set(i + 1, b);
        indices.set(i + 2, a);
        proof {
            assert forall|j: int| 0 <= j < i + 3 implies #[trigger] indices@[j]
                == reversed_winding(old(indices)@)[j] by {
                if j >= i {
                    assert(j == i || j == i + 1 || j == i + 2);
                }
            }
        }
        i = i + 3;
    }
    proof {
        assert(indices@ =~= reversed_winding(old(indices)@));
    }
}

/// Turning the winding around twice gives back the list it started from.
pub proof fn law_reversed_winding_twice(s: Seq<u32>)
    requires
        s.len() % 3 == 0,
    ensures
        reversed_winding(reversed_winding(s)) == s,
{
    let r = reversed_winding(s);
    assert forall|i: int| 0 <= i < s.len() implies #[trigger] reversed_winding(r)[i] == s[i] by {
        if i % 3 == 1 {
            assert((i + 1) % 3 == 2);
        } else if i % 3 == 2 {
            assert((i - 1) % 3 == 1);
        }
    }
    assert(reversed_winding(r) =~= s);
}

/// The entries `3 t .. 3 t + 3` of `s`.
pub open spec fn triple(s: Seq<u32>, t: int) -> [u32; 3] {
    [s[3 * t], s[3 * t + 1], s[3 * t + 2]]
}

/// Whether every list has the three entries of triangle `t`.
pub open spec fn has_triangle(m: MeshIndices, t: int) -> bool {
    &&& 3 * t + 3 <= m.vertex_indices@.len()
    &&& 3 * t + 3 <= m.normal_indices@.len()
    &&& 3 * t + 3 <= m.uvcoord_indices@.len()
}

/// A list of `n` zeros.
fn zeros(n: usize) -> (r: Vec<u32>)
    ensures
        r@ == Seq::new(n as nat, |i: int| 0u32),
{
    let mut r: Vec<u32> = Vec::new();
    let mut i: usize = 0;
    while i < n
        invariant
            i <= n,
            r@ == Seq::new(i as nat, |j: int| 0u32),
        decreases n - i,
    {
        r.push(0);
        i = i + 1;
        proof {
            assert(r@ =~= Seq::new(i as nat, |j: int| 0u32));
        }
    }
    r
}

impl MeshIndices {
    /// The index lists of a mesh given inline in a scene file: where no texture-coordinate
    /// indices are given, every corner refers to the single texture coordinate 0.
    pub fn inline(
        vertex_indices: Vec<u32>,
        normal_indices: Vec<u32>,
        uv_indices: Option<Vec<u32>>,
        ntriangles: usize,
    ) -> (m: Self)
        requires
            uv_indices is None ==> 3 * ntriangles <= usize::MAX,
        ensures
            m.vertex_indices@ == vertex_indices@,
            m.normal_indices@ == normal_indices@,
            m.uvcoord_indices@ == (match uv_indices {
                Some(uv) => uv@,
                None => Seq::new((3 * ntriangles) as nat, |i: int| 0u32),
            }),
    {
        let uvcoord_indices = match uv_indices {
            Some(uv) => uv,
            None => zeros(ntriangles * 3),
        };
        MeshIndices { vertex_indices, normal_indices, uvcoord_indices }
    }

    /// The index lists of one model of an OBJ file, with its number of triangles (a third of
    /// its vertex indices); `None` for a model without triangles. Where the model has no
    /// texture coordinates, every corner refers to the single texture coordinate 0; where the
    /// vertex order is to be reversed, every list has the winding of its triangles turned
    /// around (the normal list only where it is not empty).
    pub fn from_obj(
        vertex_indices: Vec<u32>,
        normal_indices: Vec<u32>,
        texcoord_indices: Vec<u32>,
        has_uvcoords: bool,
        reverse_vertex_order: bool,
    ) -> (r: Option<(Self, usize)>)
        requires
            reverse_vertex_order && vertex_indices@.len() >= 3 ==> vertex_indices@.len() % 3
                == 0 && normal_indices@.len() % 3 == 0 && (has_uvcoords
                ==> texcoord_indices@.len() % 3 == 0),
        ensures
            vertex_indices@.len() < 3 <==> r is None,
            r matches Some((m, n)) ==> {
                let uv = if has_uvcoords {
                    texcoord_indices@
                } else {
                    Seq::new((3 * n) as nat, |i: int| 0u32)
                };
                &&& n == vertex_indices@.len() / 3
                &&& m.vertex_indices@ == if reverse_vertex_order {
                    reversed_winding(vertex_indices@)
                } else {
                    vertex_indices@
                }
                &&& m.normal_indices@ == if reverse_vertex_order {
                    reversed_winding(normal_indices@)
                } else {
                    normal_indices@
                }
                &&& m.uvcoord_indices@ == if reverse_vertex_order {
                    reversed_winding(uv)
                } else {
                    uv
                }
            },
    {
        let n_triangles = vertex_indices.len() / 3;
        if n_triangles == 0 {
            return None;
        }
        let mut vertex_indices = vertex_indices;
        let mut normal_indices = normal_indices;
        let mut uvcoord_indices = if has_uvcoords {
            texcoord_indices
        } else {
            zeros(n_triangles * 3)
        };
        if reverse_vertex_order {
            reverse_winding(&mut vertex_indices);
            if normal_indices.len() > 0 {
                reverse_winding(&mut normal_indices);
            } else {
                proof {
                    assert(reversed_winding(normal_indices@) =~= normal_indices@);
                }
            }
            reverse_winding(&mut uvcoord_indices);
        }
        Some((MeshIndices { vertex_indices, normal_indices, uvcoord_indices }, n_triangles))
    }

    /// The number of triangles that every list has entries for.
    pub fn triangle_count(&self) -> (n: usize)
        ensures
            forall|t: int| 0 <= t < n ==> has_triangle(*self, t),
            !has_triangle(*self, n as int),
    {
        let a = self.vertex_indices.len() / 3;
        let b = self.normal_indices.len() / 3;
        let c = self.uvcoord_indices.len() / 3;
        let m = if a < b { a } else { b };
        if m < c { m } else { c }
    }

    /// The corners of triangle `t`.
    pub fn corners(&self, t: usize) -> (c: TriangleCorners)
        requires
            has_triangle(*self, t as int),
        ensures
            c.v == triple(self.vertex_indices@, t as int),
            c.n == triple(self.normal_indices@, t as int),
            c.uv == triple(self.uvcoord_indices@, t as int),
    {
        let len = self.vertex_indices.len();
        assert(3 * t + 3 <= len);
        let i = 3 * t;
        TriangleCorners {
            v: [self.vertex_indices[i], self.vertex_indices[i + 1], self.vertex_indices[i + 2]],
            n: [self.normal_indices[i], self.normal_indices[i + 1], self.normal_indices[i + 2]],
            uv: [self.uvcoord_indices[i], self.uvcoord_indices[i + 1], self.uvcoord_indices[i + 2]],
        }
    }
}

/// Turning the winding around keeps each triangle's first corner and swaps the other two.
pub proof fn law_reversed_winding_swaps_corners(s: Seq<u32>, t: int)
    requires
        0 <= t,
        3 * t + 3 <= s.len(),
    ensures
        triple(reversed_winding(s), t) == [s[3 * t], s[3 * t + 2], s[3 * t + 1]],
{
    let r = reversed_winding(s);
    assert((3 * t) % 3 == 0);
    assert((3 * t + 1) % 3 == 1);
    assert((3 * t + 2) % 3 == 2);
    assert(r[3 * t] == s[3 * t]);
    assert(r[3 * t + 1] == s[3 * t + 2]);
    assert(r[3 * t + 2] == s[3 * t + 1]);
}

} // verus!
