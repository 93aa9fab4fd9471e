use std::collections::HashSet;
use vstd::prelude::*;

verus! {

broadcast use vstd::std_specs::hash::group_hash_axioms;

/// A stick is identified by the ids of the two points it connects
pub type StickId = (usize, usize);

/// Defines which triangle edges become sticks
#[derive(Debug, Copy, Clone, PartialEq, Eq, Structural)]
pub enum StickGeneration {
    /// Two edges per triangle: the diagonal of each quad is left out
    Quads,
    /// All three edges of every triangle
    Triangles,
}

impl Default for StickGeneration {
    fn default() -> (r: Self)
        ensures
            r == StickGeneration::Quads,
    {
        StickGeneration::Quads
    }
}

/// Defines the target length of the sticks built from a mesh; `T` is a scalar
#[derive(Debug, Copy, Clone)]
pub enum StickLen<T> {
    /// The distance between the two points when the cloth is built
    Auto,
    /// A fixed length
    Fixed(T),
    /// The distance between the two points, multiplied by a coefficient
    Coefficient(T),
}

impl<T> Default for StickLen<T> {
    fn default() -> (r: Self)
        ensures
            r is Auto,
    {
        StickLen::Auto
    }
}

/// Defines how a stick constrains the distance between its points; `T` is a
/// scalar
#[derive(Debug, Copy, Clone)]
pub enum StickMode<T> {
    /// The stick keeps its target length
    Fixed,
    /// The stick lets the distance vary between two percentages of its
    /// target length and is only corrected outside of them
    Spring {
        /// Lowest ratio of the target length
        min_percent: T,
        /// Highest ratio of the target length
        max_percent: T,
    },
}

impl<T> Default for StickMode<T> {
    fn default() -> (r: Self)
        ensures
            r is Fixed,
    {
        StickMode::Fixed
    }
}

/// A single cloth stick, a distance constraint between two points
#[derive(Debug, Copy, Clone)]
pub struct Stick<L, M> {
    /// Index of the first connected point
    pub point_a_index: usize,
    /// Index of the second connected point
    pub point_b_index: usize,
    /// Target length of the stick
    pub length: L,
    /// Behaviour of the stick
    pub mode: M,
}

impl<L, M> Stick<L, M> {
    pub open spec fn id(&self) -> StickId {
        (self.point_a_index, self.point_b_index)
    }
}

/// Number of triangle edges turned into sticks
pub open spec fn edges_per_triangle(generation: StickGeneration) -> int {
    match generation {
        StickGeneration::Quads => 2,
        StickGeneration::Triangles => 3,
    }
}

/// The undirected pair `{p, q}`, smallest index first
pub open spec fn canonical(p: u32, q: u32) -> StickId {
    if p <= q {
        (p as usize, q as usize)
    } else {
        (q as usize, p as usize)
    }
}

/// Edge `k` of triangle `t`: `(a, b)`, `(b, c)` then `(c, a)`
pub open spec fn triangle_edge(indices: Seq<u32>, t: int, k: int) -> StickId {
    let a: u32 = indices[3 * t];
    let b: u32 = indices[3 * t + 1];
    let c: u32 = indices[3 * t + 2];
    if k == 0 {
        canonical(a, b)
    } else if k == 1 {
        canonical(b, c)
    } else {
        canonical(c, a)
    }
}

/// `e` is a stick edge of one of the complete triangles of `indices`
pub open spec fn is_mesh_edge(indices: Seq<u32>, generation: StickGeneration, e: StickId) -> bool {
    exists|t: int, k: int|
        0 <= t < indices.len() / 3 && 0 <= k < edges_per_triangle(generation)
            && #[trigger] triangle_edge(indices, t, k) == e
}

/// `sticks` are the stick edges of the triangles of `indices`, each once
pub open spec fn extracted_sticks(indices: Seq<u32>, generation: StickGeneration, sticks: Seq<StickId>) -> bool {
    &&& sticks.no_duplicates()
    &&& forall|i: int|
        0 <= i < sticks.len() ==> is_mesh_edge(indices, generation, #[trigger] sticks[i])
    &&& forall|t: int, k: int|
        0 <= t < indices.len() / 3 && 0 <= k < edges_per_triangle(generation)
            ==> sticks.contains(#[trigger] triangle_edge(indices, t, k))
}

/// Hash key of a stick whose endpoints fit in 32 bits
pub open spec fn stick_key(e: StickId) -> int {
    e.0 * 0x1_0000_0000 + e.1
}

proof fn lemma_stick_key_injective(e: StickId, f: StickId)
    requires
        e.0 < 0x1_0000_0000,
        e.1 < 0x1_0000_0000,
        f.0 < 0x1_0000_0000,
        f.1 < 0x1_0000_0000,
        stick_key(e) == stick_key(f),
    ensures
        e == f,
{
    let m: int = 0x1_0000_0000;
    if e.0 < f.0 {
        assert(e.0 * m + m <= f.0 * m) by (nonlinear_arith)
            requires
                e.0 < f.0,
                m > 0,
        ;
    } else if f.0 < e.0 {
        assert(f.0 * m + m <= e.0 * m) by (nonlinear_arith)
            requires
                f.0 < e.0,
                m > 0,
        ;
    }
}

/// The state shared by the edge insertion steps of `generate_sticks`
pub open spec fn edge_set_valid(sticks: Seq<StickId>, seen: Set<u64>) -> bool {
    &&& sticks.no_duplicates()
    &&& forall|i: int|
        0 <= i < sticks.len() ==> {
            &&& sticks[i].0 < 0x1_0000_0000
            &&& sticks[i].1 < 0x1_0000_0000
            &&& sticks[i].0 <= sticks[i].1
            &&& seen.contains(stick_key(#[trigger] sticks[i]) as u64)
        }
    &&& forall|x: u64| #[trigger]
        seen.contains(x) ==> exists|i: int| 0 <= i < sticks.len() && stick_key(sticks[i]) == x
}

/// Appends the undirected edge `{p, q}` unless it is already present
fn insert_edge(sticks: &mut Vec<StickId>, seen: &mut HashSet<u64>, p: u32, q: u32)
    requires
        edge_set_valid(old(sticks)@, old(seen)@),
    ensures
        edge_set_valid(final(sticks)@, final(seen)@),
        final(sticks)@.contains(canonical(p, q)),
        old(sticks)@.contains(canonical(p, q)) ==> final(sticks)@ == old(sticks)@,
        !old(sticks)@.contains(canonical(p, q)) ==> final(sticks)@ == old(sticks)@.push(
            canonical(p, q),
        ),
{
    let e: StickId = if p <= q {
        (p as usize, q as usize)
    } else {
        (q as usize, p as usize)
    };
    assert(e == canonical(p, q));
    let lo: u64 = e.0 as u64;
    let hi: u64 = e.1 as u64;
    assert(lo * 0x1_0000_0000 <= 0xFFFF_FFFF * 0x1_0000_0000) by (nonlinear_arith)
        requires
            lo <= 0xFFFF_FFFF,
    ;
    let key: u64 = lo * 0x1_0000_0000 + hi;
    assert(key == stick_key(e));
    let ghost old_sticks = sticks@;
    if seen.insert(key) {
        proof {
            if old_sticks.contains(e) {
                let i = choose|i: int| 0 <= i < old_sticks.len() && old_sticks[i] == e;
                assert(seen@.contains(stick_key(old_sticks[i]) as u64));
            }
        }
        sticks.push(e);
        assert forall|i: int, j: int|
            0 <= i < sticks@.len() && 0 <= j < sticks@.len() && i != j implies sticks@[i]
            != sticks@[j] by {
            if i < old_sticks.len() && j < old_sticks.len() {
            } else if i < old_sticks.len() {
                assert(seen@.contains(stick_key(old_sticks[i]) as u64) || stick_key(old_sticks[i])
                    != key);
            } else if j < old_sticks.len() {
                assert(seen@.contains(stick_key(old_sticks[j]) as u64) || stick_key(old_sticks[j])
                    != key);
            }
        }
        assert forall|x: u64| #[trigger]
            seen@.contains(x) implies exists|i: int|
            0 <= i < sticks@.len() && stick_key(sticks@[i]) == x by {
            if x == key {
                assert(stick_key(sticks@[old_sticks.len() as int]) == x);
            } else {
                let i = choose|i: int| 0 <= i < old_sticks.len() && stick_key(old_sticks[i]) == x;
                assert(stick_key(sticks@[i]) == x);
            }
        }
        assert(sticks@[old_sticks.len() as int] == e);
    } else {
        proof {
            let i = choose|i: int| 0 <= i < old_sticks.len() && stick_key(old_sticks[i]) == key;
            lemma_stick_key_injective(old_sticks[i], e);
            assert(old_sticks.contains(e));
        }
    }
}

/// Extracts the undirected sticks of a triangle list: for every complete
/// triangle `(a, b, c)` the edges `(a, b)` and `(b, c)`, and `(c, a)` as well
/// with `StickGeneration::Triangles`. Each stick is stored once, smallest
/// index first; trailing indices that do not form a triangle are ignored.
pub fn generate_sticks(indices: &Vec<u32>, generation: StickGeneration) -> (sticks: Vec<StickId>)
    ensures
        extracted_sticks(indices@, generation, sticks@),
{
    let mut sticks: Vec<StickId> = Vec::new();
    let mut seen: HashSet<u64> = HashSet::new();
    let triangles: usize = indices.len() / 3;
    let mut t: usize = 0;
    while t < triangles
        invariant
            triangles == indices.len() / 3,
            t <= triangles,
            edge_set_valid(sticks@, seen@),
            forall|i: int|
                0 <= i < sticks.len() ==> is_mesh_edge(indices@, generation, #[trigger] sticks@[i]),
            forall|u: int, k: int|
                0 <= u < t && 0 <= k < edges_per_triangle(generation) ==> sticks@.contains(
                    #[trigger] triangle_edge(indices@, u, k),
                ),
        decreases triangles - t,
    {
        let a: u32 = indices[3 * t];
        let b: u32 = indices[3 * t + 1];
        let c: u32 = indices[3 * t + 2];
        let ghost ti = t as int;
        let ghost before = sticks@;
        insert_edge(&mut sticks, &mut seen, a, b);
        assert(triangle_edge(indices@, ti, 0) == canonical(a, b));
        let ghost after_ab = sticks@;
        insert_edge(&mut sticks, &mut seen, b, c);
        assert(triangle_edge(indices@, ti, 1) == canonical(b, c));
        let ghost after_bc = sticks@;
        if generation == StickGeneration::Triangles {
            insert_edge(&mut sticks, &mut seen, c, a);
            assert(triangle_edge(indices@, ti, 2) == canonical(c, a));
        }
        assert forall|i: int| 0 <= i < sticks.len() implies is_mesh_edge(
            indices@,
            generation,
            #[trigger] sticks@[i],
        ) by {
            if i >= before.len() {
                if sticks@[i] == canonical(a, b) {
                    assert(triangle_edge(indices@, ti, 0) == sticks@[i]);
                } else if sticks@[i] == canonical(b, c) {
                    assert(triangle_edge(indices@, ti, 1) == sticks@[i]);
                } else {
                    assert(triangle_edge(indices@, ti, 2) == sticks@[i]);
                }
            } else {
                assert(sticks@[i] == before[i]);
            }
        }
        assert forall|u: int, k: int|
            0 <= u <= ti && 0 <= k < edges_per_triangle(generation) implies sticks@.contains(
            #[trigger] triangle_edge(indices@, u, k),
        ) by {
            if u < ti {
                let j = choose|j: int| 0 <= j < before.len() && before[j] == triangle_edge(indices@, u, k);
                assert(sticks@[j] == before[j]);
            } else if k == 0 {
                let j = choose|j: int| 0 <= j < after_ab.len() && after_ab[j] == canonical(a, b);
                assert(sticks@[j] == after_ab[j]);
            } else if k == 1 {
                let j = choose|j: int| 0 <= j < after_bc.len() && after_bc[j] == canonical(b, c);
                assert(sticks@[j] == after_bc[j]);
            }
        }
        t += 1;
    }
    sticks
}

} // verus!
