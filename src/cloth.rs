use crate::rendering::{copy_values, indices_in_bounds};
use crate::stick::{
    edges_per_triangle, extracted_sticks, generate_sticks, is_mesh_edge, triangle_edge, Stick,
    StickGeneration, StickId,
};
use vstd::prelude::*;

verus! {

/// The anchor given to point `i` by a list of `(point, anchor)` entries:
/// the last entry for that point wins
pub open spec fn anchor_of<A>(entries: Seq<(usize, A)>, i: int) -> Option<A>
    decreases entries.len(),
{
    if entries.len() == 0 {
        None
    } else if entries.last().0 == i {
        Some(entries.last().1)
    } else {
        anchor_of(entries.drop_last(), i)
    }
}

/// The ids of a list of sticks
pub open spec fn stick_ids<L, M>(sticks: Seq<Stick<L, M>>) -> Seq<StickId> {
    Seq::new(sticks.len(), |k: int| sticks[k].id())
}

/// Positions after a stick correction `o`: an anchored end never moves
pub open spec fn apply_correction<P>(
    positions: Seq<P>,
    a: int,
    b: int,
    fixed_a: bool,
    fixed_b: bool,
    o: Option<(P, P)>,
) -> Seq<P> {
    match o {
        None => positions,
        Some((new_a, new_b)) => {
            let moved_a = if fixed_a {
                positions
            } else {
                positions.update(a, new_a)
            };
            if fixed_b {
                moved_a
            } else {
                moved_a.update(b, new_b)
            }
        },
    }
}

/// `id` is one of `ids`
fn contains_id(ids: &Vec<StickId>, id: StickId) -> (r: bool)
    ensures
        r == ids@.contains(id),
{
    let mut k: usize = 0;
    while k < ids.len()
        invariant
            k <= ids.len(),
            forall|j: int| 0 <= j < k ==> ids@[j] != id,
        decreases ids.len() - k,
    {
        if ids[k].0 == id.0 && ids[k].1 == id.1 {
            return true;
        }
        k += 1;
    }
    false
}

/// `after` is where a point at `before` goes once `solve_point` answered
pub open spec fn collision_solved<P, F: Fn(P) -> Option<P>>(solve_point: F, before: P, after: P) -> bool {
    exists|o: Option<P>| solve_point.ensures((before,), o) && after == collision_result(before, o)
}

/// Position of a point after a collision answer `o`
pub open spec fn collision_result<P>(position: P, o: Option<P>) -> P {
    match o {
        None => position,
        Some(p) => p,
    }
}

/// A cloth: points integrated with Verlet steps, sticks between them and
/// anchored points that follow a target.
///
/// `P` is a position, `A` an anchor, `L` a stick length and `M` a stick mode.
pub struct Cloth<P, A, L, M> {
    /// For each point, its anchor and its initial mesh space position when
    /// it is anchored
    pub anchored_points: Vec<Option<(A, P)>>,
    /// Current point positions in world space
    pub current_point_positions: Vec<P>,
    /// Previous point positions in world space
    pub previous_point_positions: Vec<P>,
    /// The sticks between points
    pub sticks: Vec<Stick<L, M>>,
}

impl<P: Copy, A: Copy, L: Copy, M: Copy> Cloth<P, A, L, M> {
    /// The points brought back to mesh space by `to_local`, one per point
    pub fn compute_vertex_positions<F: Fn(P) -> P>(&self, to_local: F) -> (r: Vec<P>)
        requires
            forall|p: P| to_local.requires((p,)),
        ensures
            r.len() == self.point_count(),
            forall|i: int|
                0 <= i < r.len() ==> to_local.ensures(
                    (self.current_point_positions@[i],),
                    #[trigger] r@[i],
                ),
    {
        let mut r: Vec<P> = Vec::with_capacity(self.current_point_positions.len());
        let mut i: usize = 0;
        while i < self.current_point_positions.len()
            invariant
                forall|p: P| to_local.requires((p,)),
                i <= self.current_point_positions.len(),
                r.len() == i,
                forall|j: int|
                    0 <= j < i ==> to_local.ensures(
                        (self.current_point_positions@[j],),
                        #[trigger] r@[j],
                    ),
            decreases self.current_point_positions.len() - i,
        {
            r.push(to_local(self.current_point_positions[i]));
            i += 1;
        }
        r
    }

    /// Number of points
    pub open spec fn point_count(&self) -> nat {
        self.current_point_positions.len() as nat
    }

    /// Point `i` follows an anchor
    pub open spec fn is_anchored(&self, i: int) -> bool {
        self.anchored_points@[i] is Some
    }

    /// Point data is index aligned and every stick connects existing points
    pub open spec fn wf(&self) -> bool {
        &&& self.previous_point_positions.len() == self.point_count()
        &&& self.anchored_points.len() == self.point_count()
        &&& forall|k: int|
            0 <= k < self.sticks.len() ==> {
                &&& (#[trigger] self.sticks@[k]).point_a_index < self.point_count()
                &&& self.sticks@[k].point_b_index < self.point_count()
            }
    }

    /// Creates a cloth from mesh data: one point per vertex, placed in world
    /// space by `to_world`, at rest, and one stick per undirected triangle
    /// edge chosen by `stick_generation`, whose length `stick_len` computes
    /// from the two world space end positions.
    pub fn new<W: Fn(P) -> P, G: Fn(P, P) -> L>(
        vertex_positions: &Vec<P>,
        indices: &Vec<u32>,
        anchored_points: &Vec<(usize, A)>,
        stick_generation: StickGeneration,
        stick_len: G,
        stick_mode: M,
        to_world: W,
    ) -> (r: Self)
        requires
            forall|k: int|
                0 <= k < anchored_points.len() ==> (#[trigger] anchored_points@[k]).0
                    < vertex_positions.len(),
            indices_in_bounds(indices@, vertex_positions.len() as int),
            forall|p: P| to_world.requires((p,)),
            forall|p: P, q: P| stick_len.requires((p, q)),
        ensures
            r.wf(),
            r.point_count() == vertex_positions.len(),
            r.previous_point_positions@ == r.current_point_positions@,
            forall|i: int|
                0 <= i < vertex_positions.len() ==> to_world.ensures(
                    (vertex_positions@[i],),
                    #[trigger] r.current_point_positions@[i],
                ),
            forall|i: int|
                0 <= i < vertex_positions.len() ==> #[trigger] r.anchored_points@[i] == match anchor_of(
                    anchored_points@,
                    i,
                ) {
                    None => None,
                    Some(a) => Some((a, vertex_positions@[i])),
                },
            extracted_sticks(indices@, stick_generation, stick_ids(r.sticks@)),
            forall|k: int|
                0 <= k < r.sticks.len() ==> {
                    &&& (#[trigger] r.sticks@[k]).mode == stick_mode
                    &&& stick_len.ensures(
                        (
                            r.current_point_positions@[r.sticks@[k].point_a_index as int],
                            r.current_point_positions@[r.sticks@[k].point_b_index as int],
                        ),
                        r.sticks@[k].length,
                    )
                },
    {
        let n: usize = vertex_positions.len();
        let mut positions: Vec<P> = Vec::with_capacity(n);
        let mut anchors: Vec<Option<(A, P)>> = Vec::with_capacity(n);
        let mut i: usize = 0;
        while i < n
            invariant
                n == vertex_positions.len(),
                forall|p: P| to_world.requires((p,)),
                i <= n,
                positions.len() == i,
                anchors.len() == i,
                forall|j: int|
                    0 <= j < i ==> to_world.ensures(
                        (vertex_positions@[j],),
                        #[trigger] positions@[j],
                    ),
                forall|j: int| 0 <= j < i ==> #[trigger] anchors@[j] == None::<(A, P)>,
            decreases n - i,
        {
            positions.push(to_world(vertex_positions[i]));
            anchors.push(None);
            i += 1;
        }
        let mut k: usize = 0;
        while k < anchored_points.len()
            invariant
                n == vertex_positions.len(),
                anchors.len() == n,
                k <= anchored_points.len(),
                forall|j: int|
                    0 <= j < anchored_points.len() ==> (#[trigger] anchored_points@[j]).0 < n,
                forall|j: int|
                    0 <= j < n ==> #[trigger] anchors@[j] == match anchor_of(
                        anchored_points@.subrange(0, k as int),
                        j,
                    ) {
                        None => None,
                        Some(a) => Some((a, vertex_positions@[j])),
                    },
            decreases anchored_points.len() - k,
        {
            let id: usize = anchored_points[k].0;
            let anchor: A = anchored_points[k].1;
            anchors.set(id, Some((anchor, vertex_positions[id])));
            proof {
                let s = anchored_points@.subrange(0, k + 1);
                assert(s.len() > 0);
                assert(s.drop_last() =~= anchored_points@.subrange(0, k as int));
                assert(s.last() == anchored_points@[k as int]);
            }
            k += 1;
        }
        assert(anchored_points@.subrange(0, k as int) =~= anchored_points@);
        let ids = generate_sticks(indices, stick_generation);
        let mut sticks: Vec<Stick<L, M>> = Vec::with_capacity(ids.len());
        let mut s: usize = 0;
        while s < ids.len()
            invariant
                n == vertex_positions.len(),
                positions.len() == n,
                forall|p: P, q: P| stick_len.requires((p, q)),
                indices_in_bounds(indices@, n as int),
                forall|j: int|
                    0 <= j < ids.len() ==> is_mesh_edge(indices@, stick_generation, #[trigger] ids@[j]),
                s <= ids.len(),
                sticks.len() == s,
                stick_ids(sticks@) == ids@.subrange(0, s as int),
                forall|j: int|
                    0 <= j < s ==> {
                        &&& (#[trigger] sticks@[j]).mode == stick_mode
                        &&& sticks@[j].point_a_index < n
                        &&& sticks@[j].point_b_index < n
                        &&& stick_len.ensures(
                            (
                                positions@[sticks@[j].point_a_index as int],
                                positions@[sticks@[j].point_b_index as int],
                            ),
                            sticks@[j].length,
                        )
                    },
            decreases ids.len() - s,
        {
            let e: StickId = ids[s];
            let a: usize = e.0;
            let b: usize = e.1;
            proof {
                assert(is_mesh_edge(indices@, stick_generation, ids@[s as int]));
                let (t, e) = choose|t: int, e: int|
                    0 <= t < indices.len() / 3 && 0 <= e < edges_per_triangle(stick_generation)
                        && #[trigger] triangle_edge(indices@, t, e) == ids@[s as int];
                assert(indices@[3 * t] < n);
                assert(indices@[3 * t + 1] < n);
                assert(indices@[3 * t + 2] < n);
            }
            let length = stick_len(positions[a], positions[b]);
            let ghost before = sticks@;
            sticks.push(Stick { point_a_index: a, point_b_index: b, length, mode: stick_mode });
            assert forall|j: int| 0 <= j <= s implies #[trigger] stick_ids(sticks@)[j] == ids@[j] by {
                if j < s {
                    assert(stick_ids(before)[j] == ids@.subrange(0, s as int)[j]);
                    assert(sticks@[j] == before[j]);
                } else {
                    assert(sticks@[j].id() == e);
                }
            }
            s += 1;
            assert(stick_ids(sticks@) =~= ids@.subrange(0, s as int));
        }
        assert(ids@.subrange(0, s as int) =~= ids@);
        assert(stick_ids(sticks@) =~= ids@);
        let previous = copy_values(&positions);
        Cloth {
            anchored_points: anchors,
            current_point_positions: positions,
            previous_point_positions: previous,
            sticks,
        }
    }
    /// Both ends of stick `k` are anchored
    pub open spec fn stick_is_fixed(&self, k: int) -> bool {
        self.is_anchored(self.sticks@[k].point_a_index as int) && self.is_anchored(
            self.sticks@[k].point_b_index as int,
        )
    }

    /// What a relaxation of stick `k` is computed from, with the points at
    /// `positions`: the end positions, the stick length and mode, and which
    /// end is anchored
    pub open spec fn relax_args(&self, positions: Seq<P>, k: int) -> (P, P, L, M, bool, bool) {
        let s = self.sticks@[k];
        (
            positions[s.point_a_index as int],
            positions[s.point_b_index as int],
            s.length,
            s.mode,
            self.is_anchored(s.point_a_index as int),
            self.is_anchored(s.point_b_index as int),
        )
    }

    /// `positions` once the correction `o` is applied to stick `k`
    pub open spec fn corrected(&self, positions: Seq<P>, k: int, o: Option<(P, P)>) -> Seq<P> {
        let s = self.sticks@[k];
        apply_correction(
            positions,
            s.point_a_index as int,
            s.point_b_index as int,
            self.is_anchored(s.point_a_index as int),
            self.is_anchored(s.point_b_index as int),
            o,
        )
    }

    /// One relaxation of stick `k` takes the points from `before` to `after`
    pub open spec fn stick_relaxed<F: Fn(P, P, L, M, bool, bool) -> Option<(P, P)>>(
        &self,
        before: Seq<P>,
        after: Seq<P>,
        k: int,
        relax: F,
    ) -> bool {
        if self.stick_is_fixed(k) {
            after == before
        } else {
            exists|o: Option<(P, P)>|
                relax.ensures(self.relax_args(before, k), o) && after == self.corrected(before, k, o)
        }
    }

    /// One pass relaxing every stick in order takes the points from
    /// `before` to `after`
    pub open spec fn pass_relaxed<F: Fn(P, P, L, M, bool, bool) -> Option<(P, P)>>(
        &self,
        before: Seq<P>,
        after: Seq<P>,
        relax: F,
    ) -> bool {
        exists|states: Seq<Seq<P>>|
            {
                &&& states.len() == self.sticks.len() + 1
                &&& states[0] == before
                &&& states.last() == after
                &&& forall|k: int|
                    0 <= k < self.sticks.len() ==> #[trigger] self.stick_relaxed(
                        states[k],
                        states[k + 1],
                        k,
                        relax,
                    )
            }
    }

    /// `depth` relaxation passes take the points from `before` to `after`
    pub open spec fn passes_relaxed<F: Fn(P, P, L, M, bool, bool) -> Option<(P, P)>>(
        &self,
        before: Seq<P>,
        after: Seq<P>,
        depth: int,
        relax: F,
    ) -> bool {
        exists|states: Seq<Seq<P>>|
            {
                &&& states.len() == depth + 1
                &&& states[0] == before
                &&& states.last() == after
                &&& forall|p: int|
                    0 <= p < depth ==> #[trigger] self.pass_relaxed(states[p], states[p + 1], relax)
            }
    }

    /// Relaxes stick `k` once. Nothing happens when both ends are anchored;
    /// otherwise `relax` gets the two end positions, the stick length and
    /// mode and which end is anchored, and returns the corrected positions,
    /// or `None` to leave the stick as it is. Anchored ends never move.
    pub fn relax_stick<F: Fn(P, P, L, M, bool, bool) -> Option<(P, P)>>(&mut self, k: usize, relax: &F)
        requires
            old(self).wf(),
            k < old(self).sticks.len(),
            forall|p: P, q: P, l: L, m: M, fa: bool, fb: bool| relax.requires((p, q, l, m, fa, fb)),
        ensures
            final(self).wf(),
            final(self).previous_point_positions == old(self).previous_point_positions,
            final(self).anchored_points == old(self).anchored_points,
            final(self).sticks == old(self).sticks,
            old(self).stick_relaxed(
                old(self).current_point_positions@,
                final(self).current_point_positions@,
                k as int,
                *relax,
            ),
    {
        let s: Stick<L, M> = self.sticks[k];
        let a: usize = s.point_a_index;
        let b: usize = s.point_b_index;
        let fixed_a: bool = self.anchored_points[a].is_some();
        let fixed_b: bool = self.anchored_points[b].is_some();
        if fixed_a && fixed_b {
            return;
        }
        let o = relax(
            self.current_point_positions[a],
            self.current_point_positions[b],
            s.length,
            s.mode,
            fixed_a,
            fixed_b,
        );
        let ghost positions = self.current_point_positions@;
        if let Some((new_a, new_b)) = o {
            if !fixed_a {
                self.current_point_positions.set(a, new_a);
            }
            if !fixed_b {
                self.current_point_positions.set(b, new_b);
            }
        }
        assert(self.current_point_positions@ =~= old(self).corrected(positions, k as int, o));
        assert(relax.ensures(old(self).relax_args(positions, k as int), o));
    }

    /// Applies the stick constraints: `depth` relaxation passes over every
    /// stick, see `relax_stick`. Anchored points never move.
    pub fn update_sticks<F: Fn(P, P, L, M, bool, bool) -> Option<(P, P)>>(&mut self, depth: u8, relax: F)
        requires
            old(self).wf(),
            forall|p: P, q: P, l: L, m: M, fa: bool, fb: bool| relax.requires((p, q, l, m, fa, fb)),
        ensures
            final(self).wf(),
            final(self).point_count() == old(self).point_count(),
            final(self).previous_point_positions == old(self).previous_point_positions,
            final(self).anchored_points == old(self).anchored_points,
            final(self).sticks == old(self).sticks,
            old(self).passes_relaxed(
                old(self).current_point_positions@,
                final(self).current_point_positions@,
                depth as int,
                relax,
            ),
            forall|i: int|
                0 <= i < old(self).point_count() && old(self).is_anchored(i)
                    ==> #[trigger] final(self).current_point_positions@[i]
                    == old(self).current_point_positions@[i],
    {
        let ghost start = self.current_point_positions@;
        let ghost mut passes: Seq<Seq<P>> = seq![start];
        let mut pass: u8 = 0;
        while pass < depth
            invariant
                self.wf(),
                self.point_count() == start.len(),
                self.previous_point_positions == old(self).previous_point_positions,
                self.anchored_points == old(self).anchored_points,
                self.sticks == old(self).sticks,
                forall|p: P, q: P, l: L, m: M, fa: bool, fb: bool| relax.requires((p, q, l, m, fa, fb)),
                forall|i: int|
                    0 <= i < start.len() && self.is_anchored(i)
                        ==> #[trigger] self.current_point_positions@[i] == start[i],
                pass <= depth,
                passes.len() == pass + 1,
                passes[0] == start,
                passes.last() == self.current_point_positions@,
                forall|p: int|
                    0 <= p < pass ==> #[trigger] old(self).pass_relaxed(passes[p], passes[p + 1], relax),
            decreases depth - pass,
        {
            let ghost pass_start = self.current_point_positions@;
            let ghost mut states: Seq<Seq<P>> = seq![pass_start];
            let mut k: usize = 0;
            while k < self.sticks.len()
                invariant
                    self.wf(),
                    self.point_count() == start.len(),
                    self.previous_point_positions == old(self).previous_point_positions,
                    self.anchored_points == old(self).anchored_points,
                    self.sticks == old(self).sticks,
                    forall|p: P, q: P, l: L, m: M, fa: bool, fb: bool| relax.requires((p, q, l, m, fa, fb)),
                    forall|i: int|
                        0 <= i < start.len() && self.is_anchored(i)
                            ==> #[trigger] self.current_point_positions@[i] == start[i],
                    k <= self.sticks.len(),
                    states.len() == k + 1,
                    states[0] == pass_start,
                    states.last() == self.current_point_positions@,
                    forall|j: int|
                        0 <= j < k ==> #[trigger] old(self).stick_relaxed(states[j], states[j + 1], j, relax),
                decreases self.sticks.len() - k,
            {
                let ghost before = self.current_point_positions@;
                let ghost at_call = *self;
                self.relax_stick(k, &relax);
                proof {
                    assert(at_call.stick_relaxed(before, self.current_point_positions@, k as int, relax));
                    assert(old(self).stick_relaxed(before, self.current_point_positions@, k as int, relax)) by {
                        if !at_call.stick_is_fixed(k as int) {
                            let o = choose|o: Option<(P, P)>|
                                relax.ensures(at_call.relax_args(before, k as int), o)
                                    && self.current_point_positions@ == at_call.corrected(before, k as int, o);
                            assert(at_call.relax_args(before, k as int) == old(self).relax_args(before, k as int));
                            assert(at_call.corrected(before, k as int, o) == old(self).corrected(before, k as int, o));
                        }
                    }
                    assert forall|i: int|
                        0 <= i < start.len() && self.is_anchored(i) implies #[trigger] self.current_point_positions@[i]
                            == start[i] by {
                        assert(before[i] == start[i]);
                        if at_call.stick_is_fixed(k as int) {
                        } else {
                            let o = choose|o: Option<(P, P)>|
                                relax.ensures(at_call.relax_args(before, k as int), o)
                                    && self.current_point_positions@ == at_call.corrected(before, k as int, o);
                        }
                    }
                    let ghost prev_states = states;
                    states = states.push(self.current_point_positions@);
                    assert forall|j: int| 0 <= j < k + 1 implies #[trigger] old(self).stick_relaxed(
                        states[j],
                        states[j + 1],
                        j,
                        relax,
                    ) by {
                        if j < k {
                            assert(states[j] == prev_states[j]);
                            assert(states[j + 1] == prev_states[j + 1]);
                        }
                    }
                }
                k += 1;
            }
            proof {
                assert(old(self).pass_relaxed(pass_start, self.current_point_positions@, relax));
                let ghost prev_passes = passes;
                passes = passes.push(self.current_point_positions@);
                assert forall|p: int| 0 <= p < pass + 1 implies #[trigger] old(self).pass_relaxed(
                    passes[p],
                    passes[p + 1],
                    relax,
                ) by {
                    if p < pass {
                        assert(passes[p] == prev_passes[p]);
                        assert(passes[p + 1] == prev_passes[p + 1]);
                    }
                }
            }
            pass += 1;
        }
        assert(old(self).passes_relaxed(start, self.current_point_positions@, depth as int, relax));
    }

    /// `after` is this cloth once every point that is not anchored moved to
    /// a position that `step` computed from its current and previous
    /// positions, the previous positions taking the current ones
    pub open spec fn points_stepped<F: Fn(P, P) -> P>(self, after: Self, step: F) -> bool {
        &&& after.point_count() == self.point_count()
        &&& after.previous_point_positions@ == self.current_point_positions@
        &&& after.anchored_points == self.anchored_points
        &&& after.sticks == self.sticks
        &&& forall|i: int|
            0 <= i < self.point_count() ==> if self.is_anchored(i) {
                #[trigger] after.current_point_positions@[i] == self.current_point_positions@[i]
            } else {
                step.ensures(
                    (self.current_point_positions@[i], self.previous_point_positions@[i]),
                    after.current_point_positions@[i],
                )
            }
    }

    /// A cloth at rest stays in place and at rest through a Verlet step
    /// that leaves a point at rest where it is, as it does without any
    /// acceleration
    pub proof fn lemma_rest_is_kept<F: Fn(P, P) -> P>(self, after: Self, step: F)
        requires
            self.wf(),
            self.previous_point_positions@ == self.current_point_positions@,
            forall|p: P, q: P| #[trigger] step.ensures((p, p), q) ==> q == p,
            self.points_stepped(after, step),
        ensures
            after.current_point_positions@ == self.current_point_positions@,
            after.previous_point_positions@ == after.current_point_positions@,
    {
        assert forall|i: int| 0 <= i < self.point_count() implies after.current_point_positions@[i]
            == self.current_point_positions@[i] by {
            if !self.is_anchored(i) {
                assert(self.previous_point_positions@[i] == self.current_point_positions@[i]);
                assert(step.ensures(
                    (self.current_point_positions@[i], self.current_point_positions@[i]),
                    after.current_point_positions@[i],
                ));
            }
        }
        assert(after.current_point_positions@ =~= self.current_point_positions@);
    }

    /// Advances every point that is not anchored by one Verlet step: `step`
    /// computes its new position from its current and previous positions.
    /// The previous positions become the positions before the step.
    pub fn update_points<F: Fn(P, P) -> P>(&mut self, step: F)
        requires
            old(self).wf(),
            forall|p: P, q: P| step.requires((p, q)),
        ensures
            final(self).wf(),
            old(self).points_stepped(*final(self), step),
    {
        let cache = copy_values(&self.current_point_positions);
        let n: usize = self.current_point_positions.len();
        let mut i: usize = 0;
        while i < n
            invariant
                self.wf(),
                n == self.point_count(),
                n == old(self).point_count(),
                cache@ == old(self).current_point_positions@,
                self.previous_point_positions == old(self).previous_point_positions,
                self.anchored_points == old(self).anchored_points,
                self.sticks == old(self).sticks,
                forall|p: P, q: P| step.requires((p, q)),
                i <= n,
                forall|j: int|
                    i <= j < n ==> #[trigger] self.current_point_positions@[j] == cache@[j],
                forall|j: int|
                    0 <= j < i ==> if old(self).is_anchored(j) {
                        #[trigger] self.current_point_positions@[j] == cache@[j]
                    } else {
                        step.ensures(
                            (cache@[j], old(self).previous_point_positions@[j]),
                            self.current_point_positions@[j],
                        )
                    },
            decreases n - i,
        {
            if self.anchored_points[i].is_none() {
                let p = step(self.current_point_positions[i], self.previous_point_positions[i]);
                self.current_point_positions.set(i, p);
            }
            i += 1;
        }
        self.previous_point_positions = cache;
    }

    /// Moves every anchored point to the position of its anchor:
    /// `anchor_position` computes it from the anchor and the initial mesh
    /// space position of the point. Other points are left as they are.
    pub fn update_anchored_points<F: Fn(A, P) -> P>(&mut self, anchor_position: F)
        requires
            old(self).wf(),
            forall|a: A, p: P| anchor_position.requires((a, p)),
        ensures
            final(self).wf(),
            final(self).point_count() == old(self).point_count(),
            final(self).previous_point_positions == old(self).previous_point_positions,
            final(self).anchored_points == old(self).anchored_points,
            final(self).sticks == old(self).sticks,
            forall|i: int|
                0 <= i < old(self).point_count() ==> match old(self).anchored_points@[i] {
                    None => #[trigger] final(self).current_point_positions@[i]
                        == old(self).current_point_positions@[i],
                    Some((a, p)) => anchor_position.ensures(
                        (a, p),
                        final(self).current_point_positions@[i],
                    ),
                },
    {
        let n: usize = self.current_point_positions.len();
        let mut i: usize = 0;
        while i < n
            invariant
                self.wf(),
                n == self.point_count(),
                n == old(self).point_count(),
                self.previous_point_positions == old(self).previous_point_positions,
                self.anchored_points == old(self).anchored_points,
                self.sticks == old(self).sticks,
                forall|a: A, p: P| anchor_position.requires((a, p)),
                i <= n,
                forall|j: int|
                    i <= j < n ==> #[trigger] self.current_point_positions@[j]
                        == old(self).current_point_positions@[j],
                forall|j: int|
                    0 <= j < i ==> match old(self).anchored_points@[j] {
                        None => #[trigger] self.current_point_positions@[j]
                            == old(self).current_point_positions@[j],
                        Some((a, p)) => anchor_position.ensures(
                            (a, p),
                            self.current_point_positions@[j],
                        ),
                    },
            decreases n - i,
        {
            if let Some((anchor, initial)) = self.anchored_points[i] {
                let p = anchor_position(anchor, initial);
                self.current_point_positions.set(i, p);
            }
            i += 1;
        }
    }

    /// Asks `solve_point` for every point that is not anchored: a point
    /// moves to the position returned, or stays where it is on `None`.
    pub fn solve_collisions<F: Fn(P) -> Option<P>>(&mut self, solve_point: F)
        requires
            old(self).wf(),
            forall|p: P| solve_point.requires((p,)),
        ensures
            final(self).wf(),
            final(self).point_count() == old(self).point_count(),
            final(self).previous_point_positions == old(self).previous_point_positions,
            final(self).anchored_points == old(self).anchored_points,
            final(self).sticks == old(self).sticks,
            forall|i: int|
                0 <= i < old(self).point_count() ==> if old(self).is_anchored(i) {
                    #[trigger] final(self).current_point_positions@[i]
                        == old(self).current_point_positions@[i]
                } else {
                    collision_solved(
                        solve_point,
                        old(self).current_point_positions@[i],
                        final(self).current_point_positions@[i],
                    )
                },
    {
        let n: usize = self.current_point_positions.len();
        let ghost mut answers: Seq<Option<P>> = Seq::empty();
        let mut i: usize = 0;
        while i < n
            invariant
                self.wf(),
                n == self.point_count(),
                n == old(self).point_count(),
                self.previous_point_positions == old(self).previous_point_positions,
                self.anchored_points == old(self).anchored_points,
                self.sticks == old(self).sticks,
                forall|p: P| solve_point.requires((p,)),
                i <= n,
                forall|j: int|
                    i <= j < n ==> #[trigger] self.current_point_positions@[j]
                        == old(self).current_point_positions@[j],
                answers.len() == i,
                forall|j: int|
                    0 <= j < i ==> if old(self).is_anchored(j) {
                        self.current_point_positions@[j]
                            == #[trigger] old(self).current_point_positions@[j]
                    } else {
                        &&& solve_point.ensures((old(self).current_point_positions@[j],), answers[j])
                        &&& self.current_point_positions@[j] == collision_result(
                            old(self).current_point_positions@[j],
                            answers[j],
                        )
                    },
            decreases n - i,
        {
            if self.anchored_points[i].is_none() {
                let o = solve_point(self.current_point_positions[i]);
                if let Some(p) = o {
                    self.current_point_positions.set(i, p);
                }
                proof {
                    answers = answers.push(o);
                }
            } else {
                proof {
                    answers = answers.push(None);
                }
            }
            i += 1;
        }
        assert forall|j: int| 0 <= j < n && !old(self).is_anchored(j) implies collision_solved(
            solve_point,
            old(self).current_point_positions@[j],
            #[trigger] self.current_point_positions@[j],
        ) by {
            let o = answers[j];
            assert(solve_point.ensures((old(self).current_point_positions@[j],), o));
        }
    }
    /// Gives `new_mode` to every stick whose id is in `sticks`; ids of no
    /// stick are ignored
    pub fn edit_stick_modes(&mut self, sticks: &Vec<StickId>, new_mode: M)
        requires
            old(self).wf(),
        ensures
            final(self).wf(),
            final(self).current_point_positions == old(self).current_point_positions,
            final(self).previous_point_positions == old(self).previous_point_positions,
            final(self).anchored_points == old(self).anchored_points,
            final(self).sticks.len() == old(self).sticks.len(),
            forall|k: int|
                0 <= k < old(self).sticks.len() ==> {
                    let s = old(self).sticks@[k];
                    &&& (#[trigger] final(self).sticks@[k]).point_a_index == s.point_a_index
                    &&& final(self).sticks@[k].point_b_index == s.point_b_index
                    &&& final(self).sticks@[k].length == s.length
                    &&& final(self).sticks@[k].mode == if sticks@.contains(s.id()) {
                        new_mode
                    } else {
                        s.mode
                    }
                },
    {
        let mut k: usize = 0;
        while k < self.sticks.len()
            invariant
                self.wf(),
                self.current_point_positions == old(self).current_point_positions,
                self.previous_point_positions == old(self).previous_point_positions,
                self.anchored_points == old(self).anchored_points,
                self.sticks.len() == old(self).sticks.len(),
                k <= self.sticks.len(),
                forall|j: int|
                    k <= j < self.sticks.len() ==> #[trigger] self.sticks@[j] == old(self).sticks@[j],
                forall|j: int|
                    0 <= j < k ==> {
                        let s = old(self).sticks@[j];
                        &&& (#[trigger] self.sticks@[j]).point_a_index == s.point_a_index
                        &&& self.sticks@[j].point_b_index == s.point_b_index
                        &&& self.sticks@[j].length == s.length
                        &&& self.sticks@[j].mode == if sticks@.contains(s.id()) {
                            new_mode
                        } else {
                            s.mode
                        }
                    },
            decreases self.sticks.len() - k,
        {
            let s: Stick<L, M> = self.sticks[k];
            if contains_id(sticks, (s.point_a_index, s.point_b_index)) {
                self.sticks.set(k, Stick { mode: new_mode, ..s });
            }
            k += 1;
        }
    }

    /// Adds a point that is not part of the mesh, at `to_world(pos)`, at
    /// rest. It is connected by a stick to each point `i` for which
    /// `connects_to` holds, the new point included, with the length that
    /// `stick_len` computes from the two positions. Returns the new point id
    /// and the ids of the new sticks.
    pub fn add_point<W: Fn(P) -> P, F: Fn(usize, P) -> bool, G: Fn(P, P) -> L>(
        &mut self,
        pos: P,
        stick_mode: M,
        anchor: Option<A>,
        to_world: W,
        connects_to: F,
        stick_len: G,
    ) -> (r: (usize, Vec<StickId>))
        requires
            old(self).wf(),
            old(self).point_count() < usize::MAX,
            forall|p: P| to_world.requires((p,)),
            forall|i: usize, p: P| connects_to.requires((i, p)),
            forall|p: P, q: P| stick_len.requires((p, q)),
        ensures
            final(self).wf(),
            r.0 == old(self).point_count(),
            final(self).point_count() == old(self).point_count() + 1,
            to_world.ensures((pos,), final(self).current_point_positions@[r.0 as int]),
            final(self).current_point_positions@ == old(self).current_point_positions@.push(
                final(self).current_point_positions@[r.0 as int],
            ),
            final(self).previous_point_positions@ == old(self).previous_point_positions@.push(
                final(self).current_point_positions@[r.0 as int],
            ),
            final(self).anchored_points@ == old(self).anchored_points@.push(
                match anchor {
                    None => None,
                    Some(a) => Some((a, pos)),
                },
            ),
            forall|j: int|
                0 <= j < r.1.len() ==> (#[trigger] r.1@[j]).0 == r.0 && r.1@[j].1 <= r.0,
            forall|j: int, l: int| 0 <= j < l < r.1.len() ==> r.1@[j].1 < r.1@[l].1,
            forall|i: int|
                0 <= i <= r.0 ==> if r.1@.contains((r.0, i as usize)) {
                    connects_to.ensures(
                        (i as usize, final(self).current_point_positions@[i]),
                        true,
                    )
                } else {
                    connects_to.ensures(
                        (i as usize, final(self).current_point_positions@[i]),
                        false,
                    )
                },
            final(self).sticks.len() == old(self).sticks.len() + r.1.len(),
            forall|k: int|
                0 <= k < old(self).sticks.len() ==> #[trigger] final(self).sticks@[k]
                    == old(self).sticks@[k],
            forall|j: int|
                0 <= j < r.1.len() ==> {
                    let s = #[trigger] final(self).sticks@[old(self).sticks.len() + j];
                    &&& s.id() == r.1@[j]
                    &&& s.mode == stick_mode
                    &&& stick_len.ensures(
                        (
                            final(self).current_point_positions@[r.1@[j].1 as int],
                            final(self).current_point_positions@[r.0 as int],
                        ),
                        s.length,
                    )
                },
    {
        let center = to_world(pos);
        self.current_point_positions.push(center);
        self.previous_point_positions.push(center);
        let entry = match anchor {
            None => None,
            Some(a) => Some((a, pos)),
        };
        self.anchored_points.push(entry);
        let id: usize = self.current_point_positions.len() - 1;
        let base: usize = self.sticks.len();
        let mut ids: Vec<StickId> = Vec::new();
        let mut i: usize = 0;
        while i <= id
            invariant
                self.wf(),
                id + 1 == self.point_count(),
                id == old(self).point_count(),
                base == old(self).sticks.len(),
                self.current_point_positions@ == old(self).current_point_positions@.push(center),
                self.previous_point_positions@ == old(self).previous_point_positions@.push(center),
                self.anchored_points@ == old(self).anchored_points@.push(entry),
                forall|i: usize, p: P| connects_to.requires((i, p)),
                forall|p: P, q: P| stick_len.requires((p, q)),
                i <= id + 1,
                self.sticks.len() == base + ids.len(),
                forall|j: int| 0 <= j < ids.len() ==> (#[trigger] ids@[j]).0 == id && ids@[j].1 < i,
                forall|j: int, l: int| 0 <= j < l < ids.len() ==> ids@[j].1 < ids@[l].1,
                forall|u: int|
                    0 <= u < i ==> if ids@.contains((id, u as usize)) {
                        connects_to.ensures((u as usize, self.current_point_positions@[u]), true)
                    } else {
                        connects_to.ensures((u as usize, self.current_point_positions@[u]), false)
                    },
                forall|k: int|
                    0 <= k < base ==> #[trigger] self.sticks@[k] == old(self).sticks@[k],
                forall|j: int|
                    0 <= j < ids.len() ==> {
                        let s = #[trigger] self.sticks@[base + j];
                        &&& s.id() == ids@[j]
                        &&& s.mode == stick_mode
                        &&& stick_len.ensures(
                            (
                                self.current_point_positions@[ids@[j].1 as int],
                                self.current_point_positions@[id as int],
                            ),
                            s.length,
                        )
                    },
            decreases id + 1 - i,
        {
            let p: P = self.current_point_positions[i];
            let ghost old_ids = ids@;
            let ghost old_sticks = self.sticks@;
            if connects_to(i, p) {
                let length = stick_len(p, center);
                self.sticks.push(
                    Stick { point_a_index: id, point_b_index: i, length, mode: stick_mode },
                );
                ids.push((id, i));
                assert forall|u: int| 0 <= u < i implies (#[trigger] ids@.contains((id, u as usize))
                    <==> old_ids.contains((id, u as usize))) by {
                    if ids@.contains((id, u as usize)) {
                        let j = choose|j: int| 0 <= j < ids.len() && ids@[j] == (id, u as usize);
                        if j < old_ids.len() {
                            assert(old_ids[j] == ids@[j]);
                        }
                    }
                    if old_ids.contains((id, u as usize)) {
                        let j = choose|j: int| 0 <= j < old_ids.len() && old_ids[j] == (id, u as usize);
                        assert(ids@[j] == old_ids[j]);
                    }
                }
                assert(ids@[old_ids.len() as int] == (id, i));
                assert forall|j: int| 0 <= j < ids.len() implies {
                    let s = #[trigger] self.sticks@[base + j];
                    &&& s.id() == ids@[j]
                    &&& s.mode == stick_mode
                    &&& stick_len.ensures(
                        (
                            self.current_point_positions@[ids@[j].1 as int],
                            self.current_point_positions@[id as int],
                        ),
                        s.length,
                    )
                } by {
                    if j < old_ids.len() {
                        assert(self.sticks@[base + j] == old_sticks[base + j]);
                    }
                }
            } else {
                assert(!ids@.contains((id, i))) by {
                    if ids@.contains((id, i)) {
                        let j = choose|j: int| 0 <= j < ids.len() && ids@[j] == (id, i);
                    }
                }
            }
            i += 1;
        }
        (id, ids)
    }
}

} // verus!
