use crate::mesh::grid_indices;
use crate::stick::{
    edges_per_triangle, extracted_sticks, is_mesh_edge, triangle_edge, StickGeneration, StickId,
};
use vstd::arithmetic::div_mod::{
    lemma_fundamental_div_mod, lemma_fundamental_div_mod_converse, lemma_mod_bound,
};
use vstd::prelude::*;
use vstd::relations::injective_on;
use vstd::set_lib::{lemma_int_range, lemma_map_size, lemma_set_disjoint_lens, set_int_range};

verus! {

/// Sticks `(j, j + delta)` of a grid `size_x` wide whose first point lies
/// in one of the first `rows` rows, in a column of `[lo, hi)`
pub open spec fn band(size_x: int, rows: int, lo: int, hi: int, delta: int) -> Set<StickId> {
    Set::new(
        |e: StickId|
            e.1 as int == e.0 as int + delta && e.0 < rows * size_x && lo <= (e.0 as int) % size_x
                < hi,
    )
}

/// The sticks of band row `r`, one per column of `[lo, hi)`
pub open spec fn band_row(size_x: int, r: int, lo: int, hi: int, delta: int) -> Set<StickId> {
    set_int_range(lo, hi).map(
        |c: int| ((r * size_x + c) as usize, (r * size_x + c + delta) as usize),
    )
}

/// Column `c` of row `r`
proof fn lemma_row_col(size_x: int, r: int, c: int)
    requires
        size_x > 0,
        0 <= c < size_x,
    ensures
        (r * size_x + c) % size_x == c,
{
    lemma_fundamental_div_mod_converse(r * size_x + c, size_x, r, c);
}

/// A band holds one stick per row and column of its range
proof fn lemma_band_len(size_x: int, rows: int, lo: int, hi: int, delta: int)
    requires
        size_x > 0,
        0 <= lo <= hi <= size_x,
        rows >= 0,
        delta >= 0,
        rows * size_x + delta <= 0x1_0000_0000,
    ensures
        band(size_x, rows, lo, hi, delta).finite(),
        band(size_x, rows, lo, hi, delta).len() == rows * (hi - lo),
    decreases rows,
{
    if rows == 0 {
        assert(band(size_x, rows, lo, hi, delta) =~= Set::empty());
    } else {
        let r = rows - 1;
        assert(r * size_x + size_x == rows * size_x) by (nonlinear_arith)
            requires
                r == rows - 1,
        ;
        assert(r * size_x >= 0) by (nonlinear_arith)
            requires
                r >= 0,
                size_x > 0,
        ;
        lemma_band_len(size_x, r, lo, hi, delta);
        let f = |c: int| ((r * size_x + c) as usize, (r * size_x + c + delta) as usize);
        let row = band_row(size_x, r, lo, hi, delta);
        lemma_int_range(lo, hi);
        assert(injective_on(f, set_int_range(lo, hi))) by {
            assert forall|c1: int, c2: int|
                set_int_range(lo, hi).contains(c1) && set_int_range(lo, hi).contains(c2) && #[trigger] f(c1)
                    == #[trigger] f(c2) implies c1 == c2 by {
                assert(f(c1).0 as int == r * size_x + c1);
                assert(f(c2).0 as int == r * size_x + c2);
            }
        }
        lemma_map_size(set_int_range(lo, hi), row, f);
        let prev = band(size_x, r, lo, hi, delta);
        assert(prev.disjoint(row)) by {
            assert forall|e: StickId| prev.contains(e) implies !row.contains(e) by {
                if row.contains(e) {
                    let c = choose|c: int| set_int_range(lo, hi).contains(c) && f(c) == e;
                }
            }
        }
        assert(band(size_x, rows, lo, hi, delta) =~= prev + row) by {
            assert forall|e: StickId| #[trigger] band(size_x, rows, lo, hi, delta).contains(e) implies (
            prev + row).contains(e) by {
                if e.0 >= r * size_x {
                    let c = e.0 - r * size_x;
                    lemma_row_col(size_x, r, c);
                    assert(set_int_range(lo, hi).contains(c));
                    assert(f(c) == e);
                }
            }
            assert forall|e: StickId| #[trigger] (prev + row).contains(e) implies band(
                size_x,
                rows,
                lo,
                hi,
                delta,
            ).contains(e) by {
                if row.contains(e) {
                    let c = choose|c: int| set_int_range(lo, hi).contains(c) && f(c) == e;
                    lemma_row_col(size_x, r, c);
                }
            }
        }
        lemma_set_disjoint_lens(prev, row);
        assert(rows * (hi - lo) == r * (hi - lo) + (hi - lo)) by (nonlinear_arith)
            requires
                r == rows - 1,
        ;
    }
}

/// The three indices of triangle `t`
pub open spec fn triple(indices: Seq<u32>, t: int) -> (u32, u32, u32) {
    (indices[3 * t], indices[3 * t + 1], indices[3 * t + 2])
}

/// Grid vertex `i` opens a triangle towards the next column and row
pub open spec fn opens_forward(size_x: int, count: int, i: int) -> bool {
    (i + 1) % size_x != 0 && i + size_x < count
}

/// Grid vertex `i` opens a triangle towards the previous column and row
pub open spec fn opens_backward(size_x: int, i: int) -> bool {
    i % size_x != 0 && i >= size_x
}

/// The triangle towards the next column and row
pub open spec fn forward_triangle(size_x: int, i: int) -> (u32, u32, u32) {
    ((i + 1) as u32, i as u32, (i + size_x) as u32)
}

/// The triangle towards the previous column and row
pub open spec fn backward_triangle(size_x: int, i: int) -> (u32, u32, u32) {
    ((i - 1) as u32, i as u32, (i - size_x) as u32)
}

/// The triangle `t` of the grid index buffer is the triangle that a vertex
/// before `m` opens
pub open spec fn opened_by(size_x: int, count: int, m: int, g: Seq<u32>, t: int) -> bool {
    exists|i: int|
        0 <= i < m && ((opens_forward(size_x, count, i) && triple(g, t) == forward_triangle(
            size_x,
            i,
        )) || (opens_backward(size_x, i) && triple(g, t) == backward_triangle(size_x, i)))
}

/// The triangles of the grid index buffer are exactly those its vertices open
proof fn lemma_grid_triangles(size_x: int, count: int, m: int)
    requires
        size_x > 0,
        0 <= m <= count,
    ensures
        grid_indices(size_x, count, m).len() % 3 == 0,
        forall|t: int|
            0 <= t < grid_indices(size_x, count, m).len() / 3 ==> #[trigger] opened_by(
                size_x,
                count,
                m,
                grid_indices(size_x, count, m),
                t,
            ),
        forall|i: int|
            0 <= i < m && #[trigger] opens_forward(size_x, count, i) ==> exists|t: int|
                0 <= t < grid_indices(size_x, count, m).len() / 3 && #[trigger] triple(
                    grid_indices(size_x, count, m),
                    t,
                ) == forward_triangle(size_x, i),
        forall|i: int|
            0 <= i < m && #[trigger] opens_backward(size_x, i) ==> exists|t: int|
                0 <= t < grid_indices(size_x, count, m).len() / 3 && #[trigger] triple(
                    grid_indices(size_x, count, m),
                    t,
                ) == backward_triangle(size_x, i),
    decreases m,
{
    if m > 0 {
        let p = m - 1;
        lemma_grid_triangles(size_x, count, p);
        let gp = grid_indices(size_x, count, p);
        let g = grid_indices(size_x, count, m);
        let piece = crate::mesh::grid_triangles_at(size_x, count, p);
        assert(g == gp + piece);
        let t0: int = gp.len() as int / 3;
        assert forall|t: int| 0 <= t < gp.len() / 3 implies #[trigger] triple(g, t) == triple(gp, t) by {
            assert(g[3 * t] == gp[3 * t]);
            assert(g[3 * t + 1] == gp[3 * t + 1]);
            assert(g[3 * t + 2] == gp[3 * t + 2]);
        }
        let fwd = opens_forward(size_x, count, p);
        let bwd = opens_backward(size_x, p);
        if fwd {
            assert(triple(g, t0) == forward_triangle(size_x, p));
        }
        if bwd {
            if fwd {
                assert(triple(g, t0 + 1) == backward_triangle(size_x, p));
            } else {
                assert(triple(g, t0) == backward_triangle(size_x, p));
            }
        }
        assert forall|t: int| 0 <= t < g.len() / 3 implies #[trigger] opened_by(size_x, count, m, g, t) by {
            if t < t0 {
                assert(opened_by(size_x, count, p, gp, t));
                let i = choose|i: int|
                    0 <= i < p && ((opens_forward(size_x, count, i) && triple(gp, t) == forward_triangle(
                        size_x,
                        i,
                    )) || (opens_backward(size_x, i) && triple(gp, t) == backward_triangle(size_x, i)));
                assert(triple(g, t) == triple(gp, t));
            } else {
                if fwd && t == t0 {
                } else {
                }
            }
        }
        assert forall|i: int| 0 <= i < m && #[trigger] opens_forward(size_x, count, i) implies exists|t: int|
            0 <= t < g.len() / 3 && #[trigger] triple(g, t) == forward_triangle(size_x, i) by {
            if i < p {
                let t = choose|t: int|
                    0 <= t < gp.len() / 3 && #[trigger] triple(gp, t) == forward_triangle(size_x, i);
                assert(triple(g, t) == triple(gp, t));
            } else {
                assert(triple(g, t0) == forward_triangle(size_x, p));
            }
        }
        assert forall|i: int| 0 <= i < m && #[trigger] opens_backward(size_x, i) implies exists|t: int|
            0 <= t < g.len() / 3 && #[trigger] triple(g, t) == backward_triangle(size_x, i) by {
            if i < p {
                let t = choose|t: int|
                    0 <= t < gp.len() / 3 && #[trigger] triple(gp, t) == backward_triangle(size_x, i);
                assert(triple(g, t) == triple(gp, t));
            } else if fwd {
                assert(triple(g, t0 + 1) == backward_triangle(size_x, p));
            } else {
                assert(triple(g, t0) == backward_triangle(size_x, p));
            }
        }
    }
}

/// Column arithmetic on a grid `size_x` wide
proof fn lemma_col(i: int, size_x: int)
    requires
        size_x > 0,
        i >= 0,
    ensures
        0 <= i % size_x < size_x,
        (i + 1) % size_x == if i % size_x == size_x - 1 {
            0
        } else {
            i % size_x + 1
        },
        (i + size_x) % size_x == i % size_x,
        i >= size_x ==> (i - size_x) % size_x == i % size_x,
{
    lemma_fundamental_div_mod(i, size_x);
    lemma_mod_bound(i, size_x);
    let q = i / size_x;
    let r = i % size_x;
    assert(size_x * q == q * size_x) by (nonlinear_arith);
    assert(i == q * size_x + r);
    assert(q * size_x + size_x == (q + 1) * size_x) by (nonlinear_arith);
    assert(q * size_x - size_x == (q - 1) * size_x) by (nonlinear_arith);
    if r == size_x - 1 {
        lemma_fundamental_div_mod_converse(i + 1, size_x, q + 1, 0);
    } else {
        lemma_fundamental_div_mod_converse(i + 1, size_x, q, r + 1);
    }
    lemma_fundamental_div_mod_converse(i + size_x, size_x, q + 1, r);
    if i >= size_x {
        if q < 1 {
            assert(q * size_x <= 0) by (nonlinear_arith)
                requires
                    q < 1,
                    size_x > 0,
            ;
        }
        lemma_fundamental_div_mod_converse(i - size_x, size_x, q - 1, r);
    }
}

/// The sticks that a grid of `size_x` by `size_y` vertices gets: one per
/// horizontal and vertical edge, and one per cell diagonal with triangles
pub open spec fn grid_sticks(size_x: int, size_y: int, generation: StickGeneration) -> Set<StickId> {
    let h = band(size_x, size_y, 0, size_x - 1, 1);
    let v = band(size_x, size_y - 1, 0, size_x, size_x);
    match generation {
        StickGeneration::Quads => h + v,
        StickGeneration::Triangles => h + v + band(size_x, size_y - 1, 1, size_x, size_x - 1),
    }
}

/// The stick edges of a grid with two or more rows and columns
proof fn lemma_mesh_edges(size_x: int, size_y: int, generation: StickGeneration)
    requires
        size_x >= 2,
        size_y >= 2,
        size_x * size_y <= u32::MAX,
    ensures
        forall|e: StickId|
            is_mesh_edge(grid_indices(size_x, size_x * size_y, size_x * size_y), generation, e)
                <==> #[trigger] grid_sticks(size_x, size_y, generation).contains(e),
{
    let n = size_x * size_y;
    let g = grid_indices(size_x, n, n);
    lemma_grid_triangles(size_x, n, n);
    assert(size_y * size_x == n) by (nonlinear_arith)
        requires
            n == size_x * size_y,
    ;
    assert((size_y - 1) * size_x == n - size_x) by (nonlinear_arith)
        requires
            n == size_x * size_y,
    ;
    assert(n - size_x >= size_x) by (nonlinear_arith)
        requires
            n == size_x * size_y,
            size_y >= 2,
            size_x >= 0,
    ;
    let h = band(size_x, size_y, 0, size_x - 1, 1);
    let v = band(size_x, size_y - 1, 0, size_x, size_x);
    let d = band(size_x, size_y - 1, 1, size_x, size_x - 1);
    assert forall|e: StickId| is_mesh_edge(g, generation, e) implies #[trigger] grid_sticks(
        size_x,
        size_y,
        generation,
    ).contains(e) by {
        let (t, k) = choose|t: int, k: int|
            0 <= t < g.len() / 3 && 0 <= k < edges_per_triangle(generation)
                && #[trigger] triangle_edge(g, t, k) == e;
        assert(opened_by(size_x, n, n, g, t));
        let i = choose|i: int|
            0 <= i < n && ((opens_forward(size_x, n, i) && triple(g, t) == forward_triangle(
                size_x,
                i,
            )) || (opens_backward(size_x, i) && triple(g, t) == backward_triangle(size_x, i)));
        lemma_col(i, size_x);
        if opens_forward(size_x, n, i) && triple(g, t) == forward_triangle(size_x, i) {
            if k == 0 {
                assert(h.contains(e));
            } else if k == 1 {
                assert(v.contains(e));
            } else {
                if i + 1 == n - size_x {
                    lemma_row_col(size_x, size_y - 1, 0);
                }
                lemma_col(i + 1, size_x);
                assert(d.contains(e));
            }
        } else {
            lemma_col(i - 1, size_x);
            if k == 0 {
                assert(h.contains(e));
            } else if k == 1 {
                assert(v.contains(e));
            } else {
                assert(d.contains(e));
            }
        }
    }
    assert forall|e: StickId| #[trigger] grid_sticks(size_x, size_y, generation).contains(e) implies is_mesh_edge(
        g,
        generation,
        e,
    ) by {
        let j = e.0 as int;
        lemma_col(j, size_x);
        if h.contains(e) {
            if j + size_x < n {
                assert(opens_forward(size_x, n, j));
                let t = choose|t: int|
                    0 <= t < g.len() / 3 && #[trigger] triple(g, t) == forward_triangle(size_x, j);
                assert(triangle_edge(g, t, 0) == e);
            } else {
                if j + 1 == n {
                    lemma_row_col(size_x, size_y - 1, size_x - 1);
                }
                lemma_col(j + 1, size_x);
                assert(opens_backward(size_x, j + 1));
                let t = choose|t: int|
                    0 <= t < g.len() / 3 && #[trigger] triple(g, t) == backward_triangle(
                        size_x,
                        j + 1,
                    );
                assert(triangle_edge(g, t, 0) == e);
            }
        } else if v.contains(e) {
            if (j + 1) % size_x != 0 {
                assert(opens_forward(size_x, n, j));
                let t = choose|t: int|
                    0 <= t < g.len() / 3 && #[trigger] triple(g, t) == forward_triangle(size_x, j);
                assert(triangle_edge(g, t, 1) == e);
            } else {
                assert(opens_backward(size_x, j + size_x));
                let t = choose|t: int|
                    0 <= t < g.len() / 3 && #[trigger] triple(g, t) == backward_triangle(
                        size_x,
                        j + size_x,
                    );
                assert(triangle_edge(g, t, 1) == e);
            }
        } else {
            assert(d.contains(e));
            assert(j >= 1) by {
                if j == 0 {
                    lemma_row_col(size_x, 0, 0);
                }
            }
            lemma_col(j - 1, size_x);
            assert(opens_forward(size_x, n, j - 1));
            let t = choose|t: int|
                0 <= t < g.len() / 3 && #[trigger] triple(g, t) == forward_triangle(size_x, j - 1);
            assert(triangle_edge(g, t, 2) == e);
        }
    }
}

/// On a rectangle grid of `size_x` by `size_y` vertices, two or more each
/// way, the sticks extracted from its triangles number
/// `(size_x - 1) * size_y + (size_y - 1) * size_x` with quads, and
/// `(size_x - 1) * (size_y - 1)` more with triangles
pub proof fn lemma_grid_stick_count(
    size_x: int,
    size_y: int,
    generation: StickGeneration,
    sticks: Seq<StickId>,
)
    requires
        size_x >= 2,
        size_y >= 2,
        size_x * size_y <= u32::MAX,
        extracted_sticks(
            grid_indices(size_x, size_x * size_y, size_x * size_y),
            generation,
            sticks,
        ),
    ensures
        sticks.len() == (size_x - 1) * size_y + (size_y - 1) * size_x + match generation {
            StickGeneration::Quads => 0,
            StickGeneration::Triangles => (size_x - 1) * (size_y - 1),
        },
{
    let n = size_x * size_y;
    let g = grid_indices(size_x, n, n);
    lemma_mesh_edges(size_x, size_y, generation);
    let all = grid_sticks(size_x, size_y, generation);
    assert(sticks.to_set() =~= all) by {
        assert forall|e: StickId| sticks.to_set().contains(e) implies all.contains(e) by {
            let i = choose|i: int| 0 <= i < sticks.len() && sticks[i] == e;
            assert(is_mesh_edge(g, generation, sticks[i]));
        }
        assert forall|e: StickId| all.contains(e) implies sticks.to_set().contains(e) by {
            assert(is_mesh_edge(g, generation, e));
            let (t, k) = choose|t: int, k: int|
                0 <= t < g.len() / 3 && 0 <= k < edges_per_triangle(generation)
                    && #[trigger] triangle_edge(g, t, k) == e;
            assert(sticks.contains(triangle_edge(g, t, k)));
        }
    }
    sticks.unique_seq_to_set();
    assert((size_y - 1) * size_x + size_x == n) by (nonlinear_arith)
        requires
            n == size_x * size_y,
    ;
    assert(size_y * size_x == n) by (nonlinear_arith)
        requires
            n == size_x * size_y,
    ;
    let h = band(size_x, size_y, 0, size_x - 1, 1);
    let v = band(size_x, size_y - 1, 0, size_x, size_x);
    let d = band(size_x, size_y - 1, 1, size_x, size_x - 1);
    lemma_band_len(size_x, size_y, 0, size_x - 1, 1);
    lemma_band_len(size_x, size_y - 1, 0, size_x, size_x);
    lemma_band_len(size_x, size_y - 1, 1, size_x, size_x - 1);
    assert(h.disjoint(v));
    lemma_set_disjoint_lens(h, v);
    assert((size_x - 1) * size_y == size_y * (size_x - 1 - 0)) by (nonlinear_arith);
    assert((size_y - 1) * size_x == (size_y - 1) * (size_x - 0)) by (nonlinear_arith);
    if generation == StickGeneration::Triangles {
        assert((h + v).disjoint(d)) by {
            assert forall|e: StickId| (h + v).contains(e) implies !d.contains(e) by {
                if h.contains(e) && d.contains(e) {
                    assert(size_x == 2);
                }
            }
        }
        lemma_set_disjoint_lens(h + v, d);
        assert((size_x - 1) * (size_y - 1) == (size_y - 1) * (size_x - 1)) by (nonlinear_arith);
    }
}

} // verus!
