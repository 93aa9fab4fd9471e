use crate::error::Error;
use vstd::prelude::*;

verus! {

/// Defines how the cloth computes its vertex normals
#[derive(Debug, Copy, Clone, PartialEq, Eq, Structural)]
pub enum NormalComputing {
    /// No vertex normals are computed, the original ones are kept
    Disabled,
    /// Each vertex normal is the average of the normals of the faces around it
    SmoothNormals,
    /// Vertices are duplicated, one per index, and take the normal of their face
    FlatNormals,
}

impl Default for NormalComputing {
    fn default() -> (r: Self)
        ensures
            r == NormalComputing::SmoothNormals,
    {
        NormalComputing::SmoothNormals
    }
}

/// `values` read through `indices`: one value per index
pub open spec fn gather<T>(values: Seq<T>, indices: Seq<u32>) -> Seq<T> {
    Seq::new(indices.len(), |i: int| values[indices[i] as int])
}

/// The index buffer `0, 1, .., n - 1`
pub open spec fn sequential_indices(n: nat) -> Seq<u32> {
    Seq::new(n, |i: int| i as u32)
}

/// Every index refers to one of `vertex_count` vertices
pub open spec fn indices_in_bounds(indices: Seq<u32>, vertex_count: int) -> bool {
    forall|i: int| 0 <= i < indices.len() ==> (#[trigger] indices[i]) < vertex_count
}

/// The three vertices of triangle `t`
pub open spec fn triangle_args<P>(positions: Seq<P>, indices: Seq<u32>, t: int) -> (P, P, P) {
    (
        positions[indices[3 * t] as int],
        positions[indices[3 * t + 1] as int],
        positions[indices[3 * t + 2] as int],
    )
}

/// The face normal of triangle `t` once for each of its corners that is vertex `v`
pub open spec fn corner_normals<P>(indices: Seq<u32>, face_normals: Seq<P>, v: int, t: int) -> Seq<
    P,
> {
    let n = face_normals[t];
    (if indices[3 * t] == v {
        seq![n]
    } else {
        Seq::empty()
    }) + (if indices[3 * t + 1] == v {
        seq![n]
    } else {
        Seq::empty()
    }) + (if indices[3 * t + 2] == v {
        seq![n]
    } else {
        Seq::empty()
    })
}

/// The normals of the first `t` triangles around vertex `v`, in triangle order
pub open spec fn adjacent_normals<P>(indices: Seq<u32>, face_normals: Seq<P>, v: int, t: int) -> Seq<
    P,
>
    decreases t,
{
    if t <= 0 {
        Seq::empty()
    } else {
        adjacent_normals(indices, face_normals, v, t - 1) + corner_normals(
            indices,
            face_normals,
            v,
            t - 1,
        )
    }
}

/// Copies `values[indices[i]]` for every index `i`
fn gather_by_indices<T: Copy>(values: &Vec<T>, indices: &Vec<u32>) -> (r: Vec<T>)
    requires
        indices_in_bounds(indices@, values.len() as int),
    ensures
        r@ == gather(values@, indices@),
{
    let mut r: Vec<T> = Vec::with_capacity(indices.len());
    let mut i: usize = 0;
    while i < indices.len()
        invariant
            i <= indices.len(),
            indices_in_bounds(indices@, values.len() as int),
            r@ == gather(values@, indices@).subrange(0, i as int),
        decreases indices.len() - i,
    {
        let k: u32 = indices[i];
        r.push(values[k as usize]);
        i += 1;
        assert(r@ =~= gather(values@, indices@).subrange(0, i as int));
    }
    assert(r@ =~= gather(values@, indices@));
    r
}

/// Vertex normals to write along with a render snapshot
pub enum VertexNormals<P> {
    /// The mesh normals are left as they are
    Unchanged,
    /// For each vertex, the normals of the faces around it, to be averaged
    Smooth(Vec<Vec<P>>),
    /// One normal per vertex, the normal of its face
    Flat(Vec<P>),
}

/// The data written back to the mesh after a simulation step
pub struct RenderSnapshot<P, U, C> {
    /// Vertex positions in mesh space
    pub vertex_positions: Vec<P>,
    /// Vertex UVs, if any
    pub vertex_uvs: Option<Vec<U>>,
    /// Vertex colors, if any
    pub vertex_colors: Option<Vec<C>>,
    /// The new index buffer, when the vertices were duplicated
    pub indices: Option<Vec<u32>>,
    /// The vertex normals
    pub normals: VertexNormals<P>,
}

/// Cloth rendering data: mesh extraction, vertex duplication and normals
pub struct ClothRendering<P, U, C> {
    /// Mesh vertex positions
    pub vertex_positions: Vec<P>,
    /// Mesh vertex UVs
    pub vertex_uvs: Option<Vec<U>>,
    /// Mesh vertex colors
    pub vertex_colors: Option<Vec<C>>,
    /// Mesh vertex indices
    pub indices: Vec<u32>,
    /// The normal computation mode
    pub normal_computing: NormalComputing,
}

/// An optional attribute holds one value per vertex, when present
pub open spec fn attribute_matches<T>(attr: Option<Vec<T>>, vertex_count: int) -> bool {
    match attr {
        None => true,
        Some(v) => v.len() == vertex_count,
    }
}

/// The optional attribute `out` is `attr` gathered through `indices`
pub open spec fn attribute_gathered<T>(out: Option<Vec<T>>, attr: Option<Vec<T>>, indices: Seq<u32>) -> bool {
    match attr {
        None => out is None,
        Some(v) => out is Some && out->0@ == gather(v@, indices),
    }
}

/// The optional attribute `out` holds the same values as `attr`
pub open spec fn attribute_copied<T>(out: Option<Vec<T>>, attr: Option<Vec<T>>) -> bool {
    match attr {
        None => out is None,
        Some(v) => out is Some && out->0@ == v@,
    }
}

/// A copy of `values`, element by element
pub(crate) fn copy_values<T: Copy>(values: &Vec<T>) -> (r: Vec<T>)
    ensures
        r@ == values@,
{
    let mut r: Vec<T> = Vec::with_capacity(values.len());
    let mut i: usize = 0;
    while i < values.len()
        invariant
            i <= values.len(),
            r@ == values@.subrange(0, i as int),
        decreases values.len() - i,
    {
        r.push(values[i]);
        i += 1;
        assert(r@ =~= values@.subrange(0, i as int));
    }
    assert(r@ =~= values@);
    r
}

fn copy_attribute<T: Copy>(attr: &Option<Vec<T>>) -> (r: Option<Vec<T>>)
    ensures
        attribute_copied(r, *attr),
{
    match attr {
        None => None,
        Some(v) => Some(copy_values(v)),
    }
}

fn gather_attribute<T: Copy>(attr: &Option<Vec<T>>, indices: &Vec<u32>) -> (r: Option<Vec<T>>)
    requires
        match attr {
            None => true,
            Some(v) => indices_in_bounds(indices@, v.len() as int),
        },
    ensures
        attribute_gathered(r, *attr, indices@),
{
    match attr {
        None => None,
        Some(v) => Some(gather_by_indices(v, indices)),
    }
}

impl<P: Copy, U: Copy, C: Copy> ClothRendering<P, U, C> {
    /// Optional attributes hold one value per vertex
    pub open spec fn wf(&self) -> bool {
        &&& attribute_matches(self.vertex_uvs, self.vertex_positions.len() as int)
        &&& attribute_matches(self.vertex_colors, self.vertex_positions.len() as int)
    }

    /// The attributes are consistent and every index refers to a vertex
    pub open spec fn valid(&self) -> bool {
        &&& self.wf()
        &&& indices_in_bounds(self.indices@, self.vertex_positions.len() as int)
    }

    /// Builds the rendering data from the attributes read on a mesh.
    ///
    /// Fails when the positions or the indices are missing, or when the UVs
    /// or the colors do not hold one value per vertex.
    pub fn init(
        vertex_positions: Option<Vec<P>>,
        vertex_uvs: Option<Vec<U>>,
        vertex_colors: Option<Vec<C>>,
        indices: Option<Vec<u32>>,
        normal_computing: NormalComputing,
    ) -> (r: Result<Self, Error>)
        ensures
            vertex_positions is None ==> (r matches Err(Error::MissingMeshAttribute(name)) && name@
                == "Vertex_Position"@),
            vertex_positions is Some ==> {
                let n = vertex_positions->0.len();
                if !attribute_matches(vertex_uvs, n as int) {
                    r matches Err(Error::InvalidMeshAttribute { attribute, expected, got })
                        && attribute@ == "Vertex_Uv"@ && expected == n && got
                        == vertex_uvs->0.len()
                } else if !attribute_matches(vertex_colors, n as int) {
                    r matches Err(Error::InvalidMeshAttribute { attribute, expected, got })
                        && attribute@ == "Vertex_Color"@ && expected == n && got
                        == vertex_colors->0.len()
                } else if indices is None {
                    r == Err::<Self, Error>(Error::MissingIndices)
                } else {
                    r matches Ok(s) && s.vertex_positions == vertex_positions->0 && s.vertex_uvs
                        == vertex_uvs && s.vertex_colors == vertex_colors && s.indices
                        == indices->0 && s.normal_computing == normal_computing && s.wf()
                }
            },
    {
        let vertex_positions = match vertex_positions {
            None => {
                return Err(Error::MissingMeshAttribute("Vertex_Position".to_string()));
            },
            Some(v) => v,
        };
        let vertex_count: usize = vertex_positions.len();
        if let Some(uvs) = &vertex_uvs {
            if uvs.len() != vertex_count {
                return Err(
                    Error::InvalidMeshAttribute {
                        attribute: "Vertex_Uv".to_string(),
                        expected: vertex_count,
                        got: uvs.len(),
                    },
                );
            }
        }
        if let Some(colors) = &vertex_colors {
            if colors.len() != vertex_count {
                return Err(
                    Error::InvalidMeshAttribute {
                        attribute: "Vertex_Color".to_string(),
                        expected: vertex_count,
                        got: colors.len(),
                    },
                );
            }
        }
        match indices {
            None => Err(Error::MissingIndices),
            Some(indices) => Ok(
                ClothRendering {
                    vertex_positions,
                    vertex_uvs,
                    vertex_colors,
                    indices,
                    normal_computing,
                },
            ),
        }
    }

    /// Replaces the vertex positions by new ones, one per vertex
    pub fn update_positions(&mut self, vertex_positions: Vec<P>)
        requires
            vertex_positions.len() == old(self).vertex_positions.len(),
        ensures
            final(self).vertex_positions == vertex_positions,
            final(self).vertex_uvs == old(self).vertex_uvs,
            final(self).vertex_colors == old(self).vertex_colors,
            final(self).indices == old(self).indices,
            final(self).normal_computing == old(self).normal_computing,
    {
        self.vertex_positions = vertex_positions;
    }

    /// Duplicates the vertices so that none is shared: vertex `i` of the
    /// result is the vertex of index `i`, and the indices become `0..n`.
    pub fn duplicated_self(&self) -> (r: Self)
        requires
            self.valid(),
            self.indices.len() <= u32::MAX + 1,
        ensures
            r.vertex_positions@ == gather(self.vertex_positions@, self.indices@),
            attribute_gathered(r.vertex_uvs, self.vertex_uvs, self.indices@),
            attribute_gathered(r.vertex_colors, self.vertex_colors, self.indices@),
            r.indices@ == sequential_indices(self.indices.len() as nat),
            r.normal_computing == self.normal_computing,
            r.valid(),
    {
        let vertex_positions = gather_by_indices(&self.vertex_positions, &self.indices);
        let vertex_uvs = gather_attribute(&self.vertex_uvs, &self.indices);
        let vertex_colors = gather_attribute(&self.vertex_colors, &self.indices);
        let n: usize = self.indices.len();
        let mut indices: Vec<u32> = Vec::with_capacity(n);
        let mut i: usize = 0;
        while i < n
            invariant
                n == self.indices.len(),
                n <= u32::MAX + 1,
                i <= n,
                indices@ == sequential_indices(i as nat),
            decreases n - i,
        {
            indices.push(i as u32);
            i += 1;
            assert(indices@ =~= sequential_indices(i as nat));
        }
        ClothRendering {
            vertex_positions,
            vertex_uvs,
            vertex_colors,
            indices,
            normal_computing: self.normal_computing,
        }
    }

    /// One normal per complete triangle, computed by `face_normal` from the
    /// triangle's three vertices
    pub fn face_normals<F: Fn(P, P, P) -> P>(&self, face_normal: F) -> (r: Vec<P>)
        requires
            self.valid(),
            forall|a: P, b: P, c: P| face_normal.requires((a, b, c)),
        ensures
            r.len() == self.indices.len() / 3,
            forall|t: int|
                0 <= t < r.len() ==> face_normal.ensures(
                    triangle_args(self.vertex_positions@, self.indices@, t),
                    #[trigger] r@[t],
                ),
    {
        let triangles: usize = self.indices.len() / 3;
        let mut r: Vec<P> = Vec::with_capacity(triangles);
        let mut t: usize = 0;
        while t < triangles
            invariant
                self.valid(),
                forall|a: P, b: P, c: P| face_normal.requires((a, b, c)),
                triangles == self.indices.len() / 3,
                t <= triangles,
                r.len() == t,
                forall|u: int|
                    0 <= u < t ==> face_normal.ensures(
                        triangle_args(self.vertex_positions@, self.indices@, u),
                        #[trigger] r@[u],
                    ),
            decreases triangles - t,
        {
            let a: u32 = self.indices[3 * t];
            let b: u32 = self.indices[3 * t + 1];
            let c: u32 = self.indices[3 * t + 2];
            let n = face_normal(
                self.vertex_positions[a as usize],
                self.vertex_positions[b as usize],
                self.vertex_positions[c as usize],
            );
            r.push(n);
            t += 1;
        }
        r
    }

    /// Flat vertex normals: each vertex of a complete triangle takes the
    /// normal of that triangle. Meant for duplicated vertices.
    pub fn compute_flat_normals<F: Fn(P, P, P) -> P>(&self, face_normal: F) -> (r: Vec<P>)
        requires
            self.valid(),
            forall|a: P, b: P, c: P| face_normal.requires((a, b, c)),
        ensures
            r.len() == 3 * (self.indices.len() / 3),
            forall|i: int|
                0 <= i < r.len() ==> face_normal.ensures(
                    triangle_args(self.vertex_positions@, self.indices@, i / 3),
                    #[trigger] r@[i],
                ),
    {
        let normals = self.face_normals(face_normal);
        let mut r: Vec<P> = Vec::with_capacity(3 * normals.len());
        let mut t: usize = 0;
        while t < normals.len()
            invariant
                normals.len() == self.indices.len() / 3,
                forall|u: int|
                    0 <= u < normals.len() ==> face_normal.ensures(
                        triangle_args(self.vertex_positions@, self.indices@, u),
                        #[trigger] normals@[u],
                    ),
                t <= normals.len(),
                r.len() == 3 * t,
                forall|i: int| 0 <= i < r.len() ==> #[trigger] r@[i] == normals@[i / 3],
            decreases normals.len() - t,
        {
            let n: P = normals[t];
            r.push(n);
            r.push(n);
            r.push(n);
            t += 1;
        }
        assert forall|i: int| 0 <= i < r.len() implies face_normal.ensures(
            triangle_args(self.vertex_positions@, self.indices@, i / 3),
            #[trigger] r@[i],
        ) by {
            assert(r@[i] == normals@[i / 3]);
        }
        r
    }

    /// For each vertex, the normals of the complete triangles around it, in
    /// triangle order, once per corner of the triangle that is the vertex.
    /// Meant for shared vertices: averaging each list gives smooth normals.
    pub fn vertex_face_normals(&self, face_normals: &Vec<P>) -> (r: Vec<Vec<P>>)
        requires
            self.valid(),
            face_normals.len() == self.indices.len() / 3,
        ensures
            r.len() == self.vertex_positions.len(),
            forall|v: int|
                0 <= v < r.len() ==> (#[trigger] r@[v])@ == adjacent_normals(
                    self.indices@,
                    face_normals@,
                    v,
                    face_normals.len() as int,
                ),
    {
        let vertex_count: usize = self.vertex_positions.len();
        let mut r: Vec<Vec<P>> = Vec::with_capacity(vertex_count);
        let mut v: usize = 0;
        while v < vertex_count
            invariant
                v <= vertex_count,
                r.len() == v,
                forall|w: int| 0 <= w < v ==> (#[trigger] r@[w])@ == Seq::<P>::empty(),
            decreases vertex_count - v,
        {
            r.push(Vec::new());
            v += 1;
        }
        let mut t: usize = 0;
        while t < face_normals.len()
            invariant
                self.valid(),
                face_normals.len() == self.indices.len() / 3,
                vertex_count == self.vertex_positions.len(),
                t <= face_normals.len(),
                r.len() == vertex_count,
                forall|w: int|
                    0 <= w < vertex_count ==> (#[trigger] r@[w])@ == adjacent_normals(
                        self.indices@,
                        face_normals@,
                        w,
                        t as int,
                    ),
            decreases face_normals.len() - t,
        {
            let n: P = face_normals[t];
            let a: u32 = self.indices[3 * t];
            let b: u32 = self.indices[3 * t + 1];
            let c: u32 = self.indices[3 * t + 2];
            let ghost before = r@;
            r[a as usize].push(n);
            let ghost after_a = r@;
            r[b as usize].push(n);
            let ghost after_b = r@;
            r[c as usize].push(n);
            assert forall|w: int| 0 <= w < vertex_count implies (#[trigger] r@[w])@
                == adjacent_normals(self.indices@, face_normals@, w, t + 1) by {
                let ti = t as int;
                assert(adjacent_normals(self.indices@, face_normals@, w, ti + 1) == adjacent_normals(
                    self.indices@,
                    face_normals@,
                    w,
                    ti,
                ) + corner_normals(self.indices@, face_normals@, w, ti));
                let cn = corner_normals(self.indices@, face_normals@, w, ti);
                let s0 = before[w]@;
                let s1 = if a == w { s0.push(n) } else { s0 };
                let s2 = if b == w { s1.push(n) } else { s1 };
                let s3 = if c == w { s2.push(n) } else { s2 };
                assert(after_a[w]@ == s1);
                assert(after_b[w]@ == s2);
                assert(r@[w]@ == s3);
                assert(s3 =~= s0 + cn);
            }
            t += 1;
        }
        r
    }

    /// `r` holds one vertex per index of this data, with its UVs and colors,
    /// the sequential index buffer and the normal of each vertex's triangle
    pub open spec fn flat_render_data<F: Fn(P, P, P) -> P>(
        &self,
        r: RenderSnapshot<P, U, C>,
        face_normal: F,
    ) -> bool {
        let positions = gather(self.vertex_positions@, self.indices@);
        let indices = sequential_indices(self.indices.len() as nat);
        &&& r.vertex_positions@ == positions
        &&& attribute_gathered(r.vertex_uvs, self.vertex_uvs, self.indices@)
        &&& attribute_gathered(r.vertex_colors, self.vertex_colors, self.indices@)
        &&& r.indices matches Some(new_indices)
        &&& new_indices@ == indices
        &&& r.normals matches VertexNormals::Flat(normals)
        &&& normals.len() == 3 * (self.indices.len() / 3)
        &&& forall|i: int|
            0 <= i < normals.len() ==> face_normal.ensures(
                triangle_args(positions, indices, i / 3),
                #[trigger] normals@[i],
            )
    }

    /// Flat shading data has as many vertices as indices, as many as the
    /// original index buffer had
    pub proof fn lemma_flat_render_data_sizes<F: Fn(P, P, P) -> P>(
        &self,
        r: RenderSnapshot<P, U, C>,
        face_normal: F,
    )
        requires
            self.flat_render_data(r, face_normal),
        ensures
            r.indices is Some,
            r.indices->0.len() == r.vertex_positions.len(),
            r.vertex_positions.len() == self.indices.len(),
    {
    }

    /// The data to write back to the mesh, according to the normal mode:
    /// the positions alone; with the face normals around each vertex; or
    /// duplicated vertices, their flat normals and the new indices.
    pub fn render_data<F: Fn(P, P, P) -> P>(&self, face_normal: F) -> (r: RenderSnapshot<P, U, C>)
        requires
            self.valid(),
            self.indices.len() <= u32::MAX + 1,
            forall|a: P, b: P, c: P| face_normal.requires((a, b, c)),
        ensures
            self.normal_computing == NormalComputing::Disabled ==> {
                &&& r.vertex_positions@ == self.vertex_positions@
                &&& attribute_copied(r.vertex_uvs, self.vertex_uvs)
                &&& attribute_copied(r.vertex_colors, self.vertex_colors)
                &&& r.indices is None
                &&& r.normals is Unchanged
            },
            self.normal_computing == NormalComputing::SmoothNormals ==> {
                &&& r.vertex_positions@ == self.vertex_positions@
                &&& attribute_copied(r.vertex_uvs, self.vertex_uvs)
                &&& attribute_copied(r.vertex_colors, self.vertex_colors)
                &&& r.indices is None
                &&& r.normals matches VertexNormals::Smooth(lists)
                &&& lists.len() == self.vertex_positions.len()
                &&& exists|fns: Seq<P>|
                    {
                        &&& fns.len() == self.indices.len() / 3
                        &&& forall|t: int|
                            0 <= t < fns.len() ==> face_normal.ensures(
                                triangle_args(self.vertex_positions@, self.indices@, t),
                                #[trigger] fns[t],
                            )
                        &&& forall|v: int|
                            0 <= v < lists.len() ==> (#[trigger] lists@[v])@ == adjacent_normals(
                                self.indices@,
                                fns,
                                v,
                                fns.len() as int,
                            )
                    }
            },
            self.normal_computing == NormalComputing::FlatNormals ==> self.flat_render_data(
                r,
                face_normal,
            ),
    {
        match self.normal_computing {
            NormalComputing::Disabled => RenderSnapshot {
                vertex_positions: copy_values(&self.vertex_positions),
                vertex_uvs: copy_attribute(&self.vertex_uvs),
                vertex_colors: copy_attribute(&self.vertex_colors),
                indices: None,
                normals: VertexNormals::Unchanged,
            },
            NormalComputing::SmoothNormals => {
                let fns = self.face_normals(face_normal);
                let lists = self.vertex_face_normals(&fns);
                RenderSnapshot {
                    vertex_positions: copy_values(&self.vertex_positions),
                    vertex_uvs: copy_attribute(&self.vertex_uvs),
                    vertex_colors: copy_attribute(&self.vertex_colors),
                    indices: None,
                    normals: VertexNormals::Smooth(lists),
                }
            },
            NormalComputing::FlatNormals => {
                let duplicated = self.duplicated_self();
                let normals = duplicated.compute_flat_normals(face_normal);
                RenderSnapshot {
                    vertex_positions: duplicated.vertex_positions,
                    vertex_uvs: duplicated.vertex_uvs,
                    vertex_colors: duplicated.vertex_colors,
                    indices: Some(duplicated.indices),
                    normals: VertexNormals::Flat(normals),
                }
            },
        }
    }
}

} // verus!
