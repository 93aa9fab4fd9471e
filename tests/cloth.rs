use bevy_silk::cloth::Cloth;
use bevy_silk::mesh::{rectangle_grid, rectangle_indices};
use bevy_silk::rendering::{ClothRendering, NormalComputing};
use bevy_silk::stick::{generate_sticks, Stick, StickGeneration, StickMode};

type Pos = [f32; 3];

fn distance(a: Pos, b: Pos) -> f32 {
    let d = [b[0] - a[0], b[1] - a[1], b[2] - a[2]];
    (d[0] * d[0] + d[1] * d[1] + d[2] * d[2]).sqrt()
}

fn grid_positions(size_x: usize, size_y: usize) -> Vec<Pos> {
    rectangle_grid(size_x, size_y)
        .into_iter()
        .map(|(x, y)| [x as f32, -(y as f32), 0.0])
        .collect()
}

fn grid_cloth(
    size_x: usize,
    size_y: usize,
    generation: StickGeneration,
) -> Cloth<Pos, u32, f32, StickMode<f32>> {
    let rendering: ClothRendering<Pos, [f32; 2], [f32; 4]> = ClothRendering::init(
        Some(grid_positions(size_x, size_y)),
        None,
        None,
        Some(rectangle_indices(size_x, size_y)),
        NormalComputing::default(),
    )
    .unwrap();
    Cloth::new(
        &rendering.vertex_positions,
        &rendering.indices,
        &vec![],
        generation,
        distance,
        StickMode::Fixed,
        |p: Pos| p,
    )
}

fn expected_stick_len(len: usize, generation: StickGeneration, (size_x, size_y): (usize, usize)) {
    match generation {
        StickGeneration::Quads => {
            assert_eq!(len, (size_x - 1) * size_y + (size_y - 1) * size_x);
        }
        StickGeneration::Triangles => {
            assert_eq!(
                len,
                (size_x - 1) * size_y + (size_y - 1) * size_x + (size_x - 1) * (size_y - 1)
            );
        }
    }
}

#[test]
fn cloth_works_with_quads() {
    let cloth = grid_cloth(100, 100, StickGeneration::Quads);
    assert_eq!(cloth.current_point_positions.len(), 100 * 100);
    assert_eq!(cloth.previous_point_positions.len(), 100 * 100);
    expected_stick_len(cloth.sticks.len(), StickGeneration::Quads, (100, 100));
}

#[test]
fn cloth_works_with_quads_2() {
    let cloth = grid_cloth(66, 42, StickGeneration::Quads);
    assert_eq!(cloth.current_point_positions.len(), 66 * 42);
    assert_eq!(cloth.previous_point_positions.len(), 66 * 42);
    expected_stick_len(cloth.sticks.len(), StickGeneration::Quads, (66, 42));
}

#[test]
fn cloth_works_with_triangles() {
    let cloth = grid_cloth(100, 100, StickGeneration::Triangles);
    assert_eq!(cloth.current_point_positions.len(), 100 * 100);
    assert_eq!(cloth.previous_point_positions.len(), 100 * 100);
    expected_stick_len(cloth.sticks.len(), StickGeneration::Triangles, (100, 100));
}

#[test]
fn cloth_works_with_triangles_2() {
    let cloth = grid_cloth(66, 42, StickGeneration::Triangles);
    assert_eq!(cloth.current_point_positions.len(), 66 * 42);
    assert_eq!(cloth.previous_point_positions.len(), 66 * 42);
    expected_stick_len(cloth.sticks.len(), StickGeneration::Triangles, (66, 42));
}

#[test]
fn small_grid_stick_counts() {
    expected_stick_len(grid_cloth(2, 2, StickGeneration::Quads).sticks.len(), StickGeneration::Quads, (2, 2));
    expected_stick_len(grid_cloth(3, 5, StickGeneration::Triangles).sticks.len(), StickGeneration::Triangles, (3, 5));
}

#[test]
fn sticks_of_one_triangle() {
    let indices = vec![0u32, 1, 2];
    let quads = generate_sticks(&indices, StickGeneration::Quads);
    assert_eq!(quads, vec![(0, 1), (1, 2)]);
    let triangles = generate_sticks(&indices, StickGeneration::Triangles);
    assert_eq!(triangles, vec![(0, 1), (1, 2), (0, 2)]);
}

#[test]
fn shared_edges_are_stored_once() {
    let indices = vec![0u32, 1, 2, 2, 1, 3, 7];
    let sticks = generate_sticks(&indices, StickGeneration::Triangles);
    assert_eq!(sticks, vec![(0, 1), (1, 2), (0, 2), (1, 3), (2, 3)]);
    assert!(generate_sticks(&vec![0u32, 1], StickGeneration::Triangles).is_empty());
}

#[test]
fn new_cloth_is_at_rest_and_anchored() {
    let positions: Vec<Pos> = vec![[0.0, 0.0, 0.0], [1.0, 0.0, 0.0], [0.0, 1.0, 0.0]];
    let cloth: Cloth<Pos, u32, f32, StickMode<f32>> = Cloth::new(
        &positions,
        &vec![0, 1, 2],
        &vec![(1, 7), (2, 8), (1, 9)],
        StickGeneration::Triangles,
        distance,
        StickMode::Fixed,
        |p: Pos| [p[0] + 10.0, p[1], p[2]],
    );
    assert_eq!(cloth.current_point_positions[0], [10.0, 0.0, 0.0]);
    assert_eq!(cloth.previous_point_positions, cloth.current_point_positions);
    assert!(cloth.anchored_points[0].is_none());
    assert_eq!(cloth.anchored_points[1], Some((9, [1.0, 0.0, 0.0])));
    assert_eq!(cloth.anchored_points[2], Some((8, [0.0, 1.0, 0.0])));
    assert_eq!(cloth.sticks.len(), 3);
    assert_eq!(cloth.sticks[0].length, 1.0);
    assert!((cloth.sticks[1].length - 2f32.sqrt()).abs() < 1e-6);
}

fn line(points: Vec<Pos>, anchored: Vec<(usize, u32)>, mode: StickMode<f32>, len: f32) -> Cloth<Pos, u32, f32, StickMode<f32>> {
    let mut cloth = Cloth::new(
        &points,
        &vec![],
        &anchored,
        StickGeneration::Quads,
        distance,
        mode,
        |p: Pos| p,
    );
    cloth.sticks.push(Stick { point_a_index: 0, point_b_index: 1, length: len, mode });
    cloth
}

/// A relaxation kernel on plain arrays, for the tests
fn relax(a: Pos, b: Pos, len: f32, mode: StickMode<f32>, fixed_a: bool, fixed_b: bool) -> Option<(Pos, Pos)> {
    let dist = distance(a, b);
    let target = match mode {
        StickMode::Fixed => len,
        StickMode::Spring { min_percent, max_percent } => {
            let ratio = dist / len;
            if ratio < min_percent {
                len * min_percent
            } else if ratio > max_percent {
                len * max_percent
            } else {
                return None;
            }
        }
    };
    if dist <= f32::EPSILON {
        return None;
    }
    let dir = [(b[0] - a[0]) / dist, (b[1] - a[1]) / dist, (b[2] - a[2]) / dist];
    let half = target / 2.0;
    let center = [(a[0] + b[0]) / 2.0, (a[1] + b[1]) / 2.0, (a[2] + b[2]) / 2.0];
    let new_a = if fixed_b {
        [b[0] - dir[0] * target, b[1] - dir[1] * target, b[2] - dir[2] * target]
    } else {
        [center[0] - dir[0] * half, center[1] - dir[1] * half, center[2] - dir[2] * half]
    };
    let new_b = if fixed_a {
        [a[0] + dir[0] * target, a[1] + dir[1] * target, a[2] + dir[2] * target]
    } else {
        [center[0] + dir[0] * half, center[1] + dir[1] * half, center[2] + dir[2] * half]
    };
    Some((new_a, new_b))
}

#[test]
fn free_stick_relaxes_to_rest_length() {
    let mut cloth = line(vec![[0.0, 0.0, 0.0], [4.0, 0.0, 0.0]], vec![], StickMode::Fixed, 2.0);
    cloth.update_sticks(1, relax);
    let p = &cloth.current_point_positions;
    assert!((distance(p[0], p[1]) - 2.0).abs() < 1e-6);
    assert_eq!(p[0], [1.0, 0.0, 0.0]);
    assert_eq!(p[1], [3.0, 0.0, 0.0]);
}

#[test]
fn anchored_end_does_not_move() {
    let mut cloth = line(vec![[0.0, 0.0, 0.0], [4.0, 0.0, 0.0]], vec![(0, 1)], StickMode::Fixed, 2.0);
    cloth.update_sticks(3, relax);
    assert_eq!(cloth.current_point_positions[0], [0.0, 0.0, 0.0]);
    assert_eq!(cloth.current_point_positions[1], [2.0, 0.0, 0.0]);
}

#[test]
fn stick_between_anchored_points_is_skipped() {
    let mut cloth = line(vec![[0.0, 0.0, 0.0], [4.0, 0.0, 0.0]], vec![(0, 1), (1, 1)], StickMode::Fixed, 2.0);
    cloth.update_sticks(1, |_, _, _, _, _, _| Some(([9.0; 3], [9.0; 3])));
    assert_eq!(cloth.current_point_positions[1], [4.0, 0.0, 0.0]);
}

#[test]
fn spring_in_slack_region_does_not_move() {
    let spring = StickMode::Spring { min_percent: 0.5, max_percent: 1.5 };
    let mut cloth = line(vec![[0.0, 0.0, 0.0], [2.0, 0.0, 0.0]], vec![], spring, 2.0);
    cloth.update_sticks(1, relax);
    assert_eq!(cloth.current_point_positions, vec![[0.0, 0.0, 0.0], [2.0, 0.0, 0.0]]);
}

#[test]
fn coincident_points_are_left_alone() {
    let mut cloth = line(vec![[1.0, 1.0, 1.0], [1.0, 1.0, 1.0]], vec![], StickMode::Fixed, 2.0);
    cloth.update_sticks(1, relax);
    assert_eq!(cloth.current_point_positions, vec![[1.0, 1.0, 1.0], [1.0, 1.0, 1.0]]);
    assert!(cloth.current_point_positions.iter().flatten().all(|v| v.is_finite()));
}

#[test]
fn zero_depth_leaves_positions() {
    let mut cloth = line(vec![[0.0, 0.0, 0.0], [4.0, 0.0, 0.0]], vec![], StickMode::Fixed, 2.0);
    cloth.update_sticks(0, relax);
    assert_eq!(cloth.current_point_positions[1], [4.0, 0.0, 0.0]);
}

fn verlet(current: Pos, previous: Pos, friction: f32, acceleration: Pos) -> Pos {
    let mut r = current;
    for k in 0..3 {
        r[k] = current[k] + (current[k] - previous[k]) * friction + acceleration[k];
    }
    r
}

#[test]
fn free_point_without_forces_stays() {
    let mut cloth = line(vec![[1.0, 2.0, 3.0], [5.0, 0.0, 0.0]], vec![], StickMode::Fixed, 2.0);
    for _ in 0..10 {
        cloth.update_points(|c, p| verlet(c, p, 1.0, [0.0; 3]));
        assert_eq!(cloth.current_point_positions.len(), 2);
        assert_eq!(cloth.previous_point_positions.len(), 2);
    }
    assert_eq!(cloth.current_point_positions, vec![[1.0, 2.0, 3.0], [5.0, 0.0, 0.0]]);
}

#[test]
fn points_follow_velocity_and_gravity() {
    let mut cloth = line(vec![[0.0, 0.0, 0.0], [5.0, 0.0, 0.0]], vec![(1, 0)], StickMode::Fixed, 2.0);
    cloth.current_point_positions[0] = [1.0, 0.0, 0.0];
    cloth.update_points(|c, p| verlet(c, p, 1.0, [0.0, -1.0, 0.0]));
    assert_eq!(cloth.current_point_positions[0], [2.0, -1.0, 0.0]);
    assert_eq!(cloth.previous_point_positions[0], [1.0, 0.0, 0.0]);
    assert_eq!(cloth.current_point_positions[1], [5.0, 0.0, 0.0]);
}

#[test]
fn anchor_always_wins() {
    let mut cloth = line(vec![[0.0, 0.0, 0.0], [5.0, 0.0, 0.0]], vec![(1, 3)], StickMode::Fixed, 2.0);
    cloth.update_points(|c, _| [c[0], c[1] - 100.0, c[2]]);
    cloth.update_anchored_points(|anchor: u32, initial: Pos| [initial[0] + anchor as f32, initial[1], initial[2]]);
    assert_eq!(cloth.current_point_positions[1], [8.0, 0.0, 0.0]);
    assert_eq!(cloth.current_point_positions[0], [0.0, -100.0, 0.0]);
}

#[test]
fn collisions_move_free_points_only() {
    let mut cloth = line(vec![[0.0, -1.0, 0.0], [5.0, -1.0, 0.0]], vec![(1, 0)], StickMode::Fixed, 2.0);
    cloth.solve_collisions(|p: Pos| if p[1] < 0.0 { Some([p[0], 0.0, p[2]]) } else { None });
    assert_eq!(cloth.current_point_positions, vec![[0.0, 0.0, 0.0], [5.0, -1.0, 0.0]]);
    cloth.solve_collisions(|_| None);
    assert_eq!(cloth.current_point_positions[0], [0.0, 0.0, 0.0]);
}

#[test]
fn stick_modes_are_edited() {
    let positions: Vec<Pos> = vec![[0.0, 0.0, 0.0], [1.0, 0.0, 0.0], [0.0, 1.0, 0.0]];
    let mut cloth: Cloth<Pos, u32, f32, StickMode<f32>> = Cloth::new(
        &positions,
        &vec![0, 1, 2],
        &vec![],
        StickGeneration::Quads,
        distance,
        StickMode::Fixed,
        |p: Pos| p,
    );
    let spring = StickMode::Spring { min_percent: 0.1, max_percent: 2.0 };
    cloth.edit_stick_modes(&vec![(1, 2), (5, 6)], spring);
    assert!(matches!(cloth.sticks[0].mode, StickMode::Fixed));
    assert!(matches!(cloth.sticks[1].mode, StickMode::Spring { .. }));
}

#[test]
fn added_point_connects_to_chosen_points() {
    let positions: Vec<Pos> = vec![[0.0, 0.0, 0.0], [2.0, 0.0, 0.0], [0.0, 2.0, 0.0]];
    let mut cloth: Cloth<Pos, u32, f32, StickMode<f32>> = Cloth::new(
        &positions,
        &vec![0, 1, 2],
        &vec![],
        StickGeneration::Quads,
        distance,
        StickMode::Fixed,
        |p: Pos| p,
    );
    let (id, sticks) = cloth.add_point(
        [1.0, 0.0, 0.0],
        StickMode::Fixed,
        Some(4),
        |p: Pos| [p[0], p[1] + 1.0, p[2]],
        |i, _| i != 1,
        distance,
    );
    assert_eq!(id, 3);
    assert_eq!(sticks, vec![(3, 0), (3, 2), (3, 3)]);
    assert_eq!(cloth.current_point_positions[3], [1.0, 1.0, 0.0]);
    assert_eq!(cloth.previous_point_positions[3], [1.0, 1.0, 0.0]);
    assert_eq!(cloth.anchored_points[3], Some((4, [1.0, 0.0, 0.0])));
    assert_eq!(cloth.sticks.len(), 2 + 3);
    assert!((cloth.sticks[2].length - 2f32.sqrt()).abs() < 1e-6);
    assert_eq!(cloth.sticks[4].length, 0.0);
}

#[test]
fn vertex_positions_come_back_to_mesh_space() {
    let cloth = line(vec![[1.0, 0.0, 0.0], [5.0, 2.0, 0.0]], vec![], StickMode::Fixed, 2.0);
    let local = cloth.compute_vertex_positions(|p: Pos| [p[0] - 1.0, p[1], p[2]]);
    assert_eq!(local, vec![[0.0, 0.0, 0.0], [4.0, 2.0, 0.0]]);
}
