use crate::rendering::NormalComputing;
use crate::stick::{StickGeneration, StickLen};
use vstd::prelude::*;

verus! {

/// A vertex color, as the bit patterns of its red, green, blue and alpha
/// channels packed from the most significant bits down
pub type ColorKey = u128;

/// The anchor of the first entry whose color is `color`, looking from entry
/// `k` onwards
pub open spec fn first_color_match<A>(entries: Seq<(ColorKey, A)>, color: ColorKey, k: int) -> Option<A>
    decreases entries.len() - k,
{
    if k < 0 || k >= entries.len() {
        None
    } else if entries[k].0 == color {
        Some(entries[k].1)
    } else {
        first_color_match(entries, color, k + 1)
    }
}

/// `(i, anchor)` for each of the first `n` vertices whose color matches an
/// anchored color, in vertex order
pub open spec fn color_anchors<A>(colors: Seq<ColorKey>, entries: Seq<(ColorKey, A)>, n: int) -> Seq<
    (usize, A),
>
    decreases n,
{
    if n <= 0 {
        Seq::empty()
    } else {
        color_anchors(colors, entries, n - 1) + match first_color_match(entries, colors[n - 1], 0) {
            None => Seq::empty(),
            Some(a) => seq![((n - 1) as usize, a)],
        }
    }
}

fn find_color_anchor<A: Copy>(entries: &Vec<(ColorKey, A)>, color: ColorKey) -> (r: Option<A>)
    ensures
        r == first_color_match(entries@, color, 0),
{
    let mut k: usize = 0;
    while k < entries.len()
        invariant
            k <= entries.len(),
            first_color_match(entries@, color, 0) == first_color_match(entries@, color, k as int),
        decreases entries.len() - k,
    {
        if entries[k].0 == color {
            return Some(entries[k].1);
        }
        k += 1;
    }
    None
}

/// Describes how a cloth is built from a mesh: which vertices are anchored,
/// how sticks are generated and how normals are computed.
///
/// `A` is a vertex anchor and `T` a scalar.
pub struct ClothBuilder<A, T> {
    /// Anchored vertex ids; a later entry for the same id wins
    pub anchored_vertex_ids: Vec<(usize, A)>,
    /// Anchored vertex colors: a vertex of that color is anchored
    pub anchored_vertex_colors: Vec<(ColorKey, A)>,
    /// The stick generation mode
    pub stick_generation: StickGeneration,
    /// The stick length option
    pub stick_length: StickLen<T>,
    /// The normal computation mode
    pub normals_computing: NormalComputing,
}

impl<A: Copy, T: Copy> ClothBuilder<A, T> {
    /// A builder with no anchor, `Quads` sticks of automatic length and
    /// smooth normals
    pub fn new() -> (r: Self)
        ensures
            r.anchored_vertex_ids@.len() == 0,
            r.anchored_vertex_colors@.len() == 0,
            r.stick_generation == StickGeneration::Quads,
            r.stick_length is Auto,
            r.normals_computing == NormalComputing::SmoothNormals,
    {
        ClothBuilder {
            anchored_vertex_ids: Vec::new(),
            anchored_vertex_colors: Vec::new(),
            stick_generation: StickGeneration::Quads,
            stick_length: StickLen::Auto,
            normals_computing: NormalComputing::SmoothNormals,
        }
    }

    /// Anchors each vertex of `vertex_ids` to `vertex_anchor`
    pub fn with_anchored_vertex_ids(self, vertex_ids: &Vec<usize>, vertex_anchor: A) -> (r: Self)
        ensures
            r.anchored_vertex_ids@ == self.anchored_vertex_ids@ + Seq::new(
                vertex_ids.len() as nat,
                |i: int| (vertex_ids@[i], vertex_anchor),
            ),
            r.anchored_vertex_colors == self.anchored_vertex_colors,
            r.stick_generation == self.stick_generation,
            r.stick_length == self.stick_length,
            r.normals_computing == self.normals_computing,
    {
        let ghost start = self.anchored_vertex_ids@;
        let ghost other = self;
        let mut builder: Self = self;
        let mut i: usize = 0;
        while i < vertex_ids.len()
            invariant
                i <= vertex_ids.len(),
                builder.anchored_vertex_colors == other.anchored_vertex_colors,
                builder.stick_generation == other.stick_generation,
                builder.stick_length == other.stick_length,
                builder.normals_computing == other.normals_computing,
                builder.anchored_vertex_ids@ == start + Seq::new(
                    i as nat,
                    |j: int| (vertex_ids@[j], vertex_anchor),
                ),
            decreases vertex_ids.len() - i,
        {
            builder.anchored_vertex_ids.push((vertex_ids[i], vertex_anchor));
            i += 1;
            assert(builder.anchored_vertex_ids@ =~= start + Seq::new(
                i as nat,
                |j: int| (vertex_ids@[j], vertex_anchor),
            ));
        }
        builder
    }

    /// Anchors vertex `vertex_id` to `vertex_anchor`
    pub fn with_anchored_vertex_id(self, vertex_id: usize, vertex_anchor: A) -> (r: Self)
        ensures
            r.anchored_vertex_ids@ == self.anchored_vertex_ids@.push((vertex_id, vertex_anchor)),
            r.anchored_vertex_colors == self.anchored_vertex_colors,
            r.stick_generation == self.stick_generation,
            r.stick_length == self.stick_length,
            r.normals_computing == self.normals_computing,
    {
        let mut builder: Self = self;
        builder.anchored_vertex_ids.push((vertex_id, vertex_anchor));
        builder
    }

    /// Anchors the vertices of each color of `vertex_colors` to `vertex_anchor`
    pub fn with_anchored_vertex_colors(self, vertex_colors: &Vec<ColorKey>, vertex_anchor: A) -> (r: Self)
        ensures
            r.anchored_vertex_colors@ == self.anchored_vertex_colors@ + Seq::new(
                vertex_colors.len() as nat,
                |i: int| (vertex_colors@[i], vertex_anchor),
            ),
            r.anchored_vertex_ids == self.anchored_vertex_ids,
            r.stick_generation == self.stick_generation,
            r.stick_length == self.stick_length,
            r.normals_computing == self.normals_computing,
    {
        let ghost start = self.anchored_vertex_colors@;
        let ghost other = self;
        let mut builder: Self = self;
        let mut i: usize = 0;
        while i < vertex_colors.len()
            invariant
                i <= vertex_colors.len(),
                builder.anchored_vertex_ids == other.anchored_vertex_ids,
                builder.stick_generation == other.stick_generation,
                builder.stick_length == other.stick_length,
                builder.normals_computing == other.normals_computing,
                builder.anchored_vertex_colors@ == start + Seq::new(
                    i as nat,
                    |j: int| (vertex_colors@[j], vertex_anchor),
                ),
            decreases vertex_colors.len() - i,
        {
            builder.anchored_vertex_colors.push((vertex_colors[i], vertex_anchor));
            i += 1;
            assert(builder.anchored_vertex_colors@ =~= start + Seq::new(
                i as nat,
                |j: int| (vertex_colors@[j], vertex_anchor),
            ));
        }
        builder
    }

    /// Anchors the vertices of color `vertex_color` to `vertex_anchor`
    pub fn with_anchored_vertex_color(self, vertex_color: ColorKey, vertex_anchor: A) -> (r: Self)
        ensures
            r.anchored_vertex_colors@ == self.anchored_vertex_colors@.push(
                (vertex_color, vertex_anchor),
            ),
            r.anchored_vertex_ids == self.anchored_vertex_ids,
            r.stick_generation == self.stick_generation,
            r.stick_length == self.stick_length,
            r.normals_computing == self.normals_computing,
    {
        let mut builder: Self = self;
        builder.anchored_vertex_colors.push((vertex_color, vertex_anchor));
        builder
    }

    /// Sets the stick generation mode
    pub fn with_stick_generation(self, stick_generation: StickGeneration) -> (r: Self)
        ensures
            r.stick_generation == stick_generation,
            r.anchored_vertex_ids == self.anchored_vertex_ids,
            r.anchored_vertex_colors == self.anchored_vertex_colors,
            r.stick_length == self.stick_length,
            r.normals_computing == self.normals_computing,
    {
        let mut builder: Self = self;
        builder.stick_generation = stick_generation;
        builder
    }

    /// Sets the stick length option
    pub fn with_stick_length(self, stick_len: StickLen<T>) -> (r: Self)
        ensures
            r.stick_length == stick_len,
            r.anchored_vertex_ids == self.anchored_vertex_ids,
            r.anchored_vertex_colors == self.anchored_vertex_colors,
            r.stick_generation == self.stick_generation,
            r.normals_computing == self.normals_computing,
    {
        let mut builder: Self = self;
        builder.stick_length = stick_len;
        builder
    }

    /// Sets the normal computation mode
    fn with_normals(self, mode: NormalComputing) -> (r: Self)
        ensures
            r.normals_computing == mode,
            r.anchored_vertex_ids == self.anchored_vertex_ids,
            r.anchored_vertex_colors == self.anchored_vertex_colors,
            r.stick_generation == self.stick_generation,
            r.stick_length == self.stick_length,
    {
        let mut builder: Self = self;
        builder.normals_computing = mode;
        builder
    }

    /// The cloth will not compute vertex normals
    pub fn without_normal_computation(self) -> (r: Self)
        ensures
            r.normals_computing == NormalComputing::Disabled,
            r.anchored_vertex_ids == self.anchored_vertex_ids,
            r.anchored_vertex_colors == self.anchored_vertex_colors,
            r.stick_generation == self.stick_generation,
            r.stick_length == self.stick_length,
    {
        self.with_normals(NormalComputing::Disabled)
    }

    /// The cloth will compute smooth vertex normals
    pub fn with_smooth_normals(self) -> (r: Self)
        ensures
            r.normals_computing == NormalComputing::SmoothNormals,
            r.anchored_vertex_ids == self.anchored_vertex_ids,
            r.anchored_vertex_colors == self.anchored_vertex_colors,
            r.stick_generation == self.stick_generation,
            r.stick_length == self.stick_length,
    {
        self.with_normals(NormalComputing::SmoothNormals)
    }

    /// The cloth will duplicate its vertices and compute flat normals
    pub fn with_flat_normals(self) -> (r: Self)
        ensures
            r.normals_computing == NormalComputing::FlatNormals,
            r.anchored_vertex_ids == self.anchored_vertex_ids,
            r.anchored_vertex_colors == self.anchored_vertex_colors,
            r.stick_generation == self.stick_generation,
            r.stick_length == self.stick_length,
    {
        self.with_normals(NormalComputing::FlatNormals)
    }

    /// Same as `with_smooth_normals`
    pub fn with_normal_computation(self) -> (r: Self)
        ensures
            r.normals_computing == NormalComputing::SmoothNormals,
            r.anchored_vertex_ids == self.anchored_vertex_ids,
            r.anchored_vertex_colors == self.anchored_vertex_colors,
            r.stick_generation == self.stick_generation,
            r.stick_length == self.stick_length,
    {
        self.with_normals(NormalComputing::SmoothNormals)
    }

    /// Same as `with_smooth_normals`
    pub fn with_smooth_normal_computation(self) -> (r: Self)
        ensures
            r.normals_computing == NormalComputing::SmoothNormals,
            r.anchored_vertex_ids == self.anchored_vertex_ids,
            r.anchored_vertex_colors == self.anchored_vertex_colors,
            r.stick_generation == self.stick_generation,
            r.stick_length == self.stick_length,
    {
        self.with_normals(NormalComputing::SmoothNormals)
    }

    /// Same as `with_flat_normals`
    pub fn with_flat_normal_computation(self) -> (r: Self)
        ensures
            r.normals_computing == NormalComputing::FlatNormals,
            r.anchored_vertex_ids == self.anchored_vertex_ids,
            r.anchored_vertex_colors == self.anchored_vertex_colors,
            r.stick_generation == self.stick_generation,
            r.stick_length == self.stick_length,
    {
        self.with_normals(NormalComputing::FlatNormals)
    }

    /// All anchored vertex ids: the explicit ones, then each vertex whose
    /// color in `vertex_colors` is an anchored color, with the anchor of the
    /// first entry of that color. Colors are ignored when the mesh has none.
    pub fn anchored_vertex_ids(&self, vertex_colors: Option<&Vec<ColorKey>>) -> (r: Vec<(usize, A)>)
        ensures
            r@ == self.anchored_vertex_ids@ + match vertex_colors {
                None => Seq::empty(),
                Some(colors) => color_anchors(
                    colors@,
                    self.anchored_vertex_colors@,
                    colors.len() as int,
                ),
            },
    {
        let mut r: Vec<(usize, A)> = Vec::new();
        let mut k: usize = 0;
        while k < self.anchored_vertex_ids.len()
            invariant
                k <= self.anchored_vertex_ids.len(),
                r@ == self.anchored_vertex_ids@.subrange(0, k as int),
            decreases self.anchored_vertex_ids.len() - k,
        {
            r.push(self.anchored_vertex_ids[k]);
            k += 1;
            assert(r@ =~= self.anchored_vertex_ids@.subrange(0, k as int));
        }
        assert(r@ =~= self.anchored_vertex_ids@);
        if let Some(colors) = vertex_colors {
            let mut i: usize = 0;
            while i < colors.len()
                invariant
                    i <= colors.len(),
                    r@ == self.anchored_vertex_ids@ + color_anchors(
                        colors@,
                        self.anchored_vertex_colors@,
                        i as int,
                    ),
                decreases colors.len() - i,
            {
                let found = find_color_anchor(&self.anchored_vertex_colors, colors[i]);
                if let Some(anchor) = found {
                    r.push((i, anchor));
                }
                i += 1;
                assert(r@ =~= self.anchored_vertex_ids@ + color_anchors(
                    colors@,
                    self.anchored_vertex_colors@,
                    i as int,
                ));
            }
        }
        r
    }
}

impl<A: Copy + Default, T: Copy> ClothBuilder<A, T> {
    /// Pins each vertex of `pinned_ids` with the default anchor
    pub fn with_pinned_vertex_ids(self, pinned_ids: &Vec<usize>) -> (r: Self)
        ensures
            r.anchored_vertex_ids@.len() == self.anchored_vertex_ids@.len() + pinned_ids.len(),
            r.anchored_vertex_ids@.subrange(0, self.anchored_vertex_ids@.len() as int)
                == self.anchored_vertex_ids@,
            forall|i: int|
                0 <= i < pinned_ids.len() ==> {
                    let e = #[trigger] r.anchored_vertex_ids@[self.anchored_vertex_ids@.len() + i];
                    e.0 == pinned_ids@[i] && call_ensures(A::default, (), e.1)
                },
            r.anchored_vertex_colors == self.anchored_vertex_colors,
            r.stick_generation == self.stick_generation,
            r.stick_length == self.stick_length,
            r.normals_computing == self.normals_computing,
    {
        let anchor = A::default();
        let r = self.with_anchored_vertex_ids(pinned_ids, anchor);
        assert forall|i: int| 0 <= i < pinned_ids.len() implies {
            let e = #[trigger] r.anchored_vertex_ids@[self.anchored_vertex_ids@.len() + i];
            e.0 == pinned_ids@[i] && call_ensures(A::default, (), e.1)
        } by {}
        assert(r.anchored_vertex_ids@.subrange(0, self.anchored_vertex_ids@.len() as int)
            =~= self.anchored_vertex_ids@);
        r
    }
    /// Same as `with_pinned_vertex_ids`
    pub fn with_fixed_points(self, fixed_points: &Vec<usize>) -> (r: Self)
        ensures
            r.anchored_vertex_ids@.len() == self.anchored_vertex_ids@.len() + fixed_points.len(),
            r.anchored_vertex_ids@.subrange(0, self.anchored_vertex_ids@.len() as int)
                == self.anchored_vertex_ids@,
            forall|i: int|
                0 <= i < fixed_points.len() ==> {
                    let e = #[trigger] r.anchored_vertex_ids@[self.anchored_vertex_ids@.len() + i];
                    e.0 == fixed_points@[i] && call_ensures(A::default, (), e.1)
                },
            r.anchored_vertex_colors == self.anchored_vertex_colors,
            r.stick_generation == self.stick_generation,
            r.stick_length == self.stick_length,
            r.normals_computing == self.normals_computing,
    {
        self.with_pinned_vertex_ids(fixed_points)
    }

    /// Pins vertex `pinned_id` with the default anchor
    pub fn with_pinned_vertex_id(self, pinned_id: usize) -> (r: Self)
        ensures
            r.anchored_vertex_ids@.len() == self.anchored_vertex_ids@.len() + 1,
            r.anchored_vertex_ids@.drop_last() == self.anchored_vertex_ids@,
            r.anchored_vertex_ids@.last().0 == pinned_id,
            call_ensures(A::default, (), r.anchored_vertex_ids@.last().1),
            r.anchored_vertex_colors == self.anchored_vertex_colors,
            r.stick_generation == self.stick_generation,
            r.stick_length == self.stick_length,
            r.normals_computing == self.normals_computing,
    {
        let r = self.with_anchored_vertex_id(pinned_id, A::default());
        assert(r.anchored_vertex_ids@.drop_last() =~= self.anchored_vertex_ids@);
        r
    }

    /// Pins the vertices of each color of `vertex_colors` with the default anchor
    pub fn with_pinned_vertex_colors(self, vertex_colors: &Vec<ColorKey>) -> (r: Self)
        ensures
            r.anchored_vertex_colors@.len() == self.anchored_vertex_colors@.len()
                + vertex_colors.len(),
            r.anchored_vertex_colors@.subrange(0, self.anchored_vertex_colors@.len() as int)
                == self.anchored_vertex_colors@,
            forall|i: int|
                0 <= i < vertex_colors.len() ==> {
                    let e = #[trigger] r.anchored_vertex_colors@[self.anchored_vertex_colors@.len()
                        + i];
                    e.0 == vertex_colors@[i] && call_ensures(A::default, (), e.1)
                },
            r.anchored_vertex_ids == self.anchored_vertex_ids,
            r.stick_generation == self.stick_generation,
            r.stick_length == self.stick_length,
            r.normals_computing == self.normals_computing,
    {
        let anchor = A::default();
        let r = self.with_anchored_vertex_colors(vertex_colors, anchor);
        assert forall|i: int| 0 <= i < vertex_colors.len() implies {
            let e = #[trigger] r.anchored_vertex_colors@[self.anchored_vertex_colors@.len() + i];
            e.0 == vertex_colors@[i] && call_ensures(A::default, (), e.1)
        } by {}
        assert(r.anchored_vertex_colors@.subrange(0, self.anchored_vertex_colors@.len() as int)
            =~= self.anchored_vertex_colors@);
        r
    }

    /// Pins the vertices of color `vertex_color` with the default anchor
    pub fn with_pinned_vertex_color(self, vertex_color: ColorKey) -> (r: Self)
        ensures
            r.anchored_vertex_colors@.len() == self.anchored_vertex_colors@.len() + 1,
            r.anchored_vertex_colors@.drop_last() == self.anchored_vertex_colors@,
            r.anchored_vertex_colors@.last().0 == vertex_color,
            call_ensures(A::default, (), r.anchored_vertex_colors@.last().1),
            r.anchored_vertex_ids == self.anchored_vertex_ids,
            r.stick_generation == self.stick_generation,
            r.stick_length == self.stick_length,
            r.normals_computing == self.normals_computing,
    {
        let r = self.with_anchored_vertex_color(vertex_color, A::default());
        assert(r.anchored_vertex_colors@.drop_last() =~= self.anchored_vertex_colors@);
        r
    }
}

} // verus!
