use bevy_silk::builder::ClothBuilder;
use bevy_silk::rendering::NormalComputing;
use bevy_silk::stick::{StickGeneration, StickLen};

type Builder = ClothBuilder<u32, f32>;

#[test]
fn builder_defaults() {
    let b = Builder::new();
    assert!(b.anchored_vertex_ids.is_empty());
    assert!(b.anchored_vertex_colors.is_empty());
    assert_eq!(b.stick_generation, StickGeneration::Quads);
    assert!(matches!(b.stick_length, StickLen::Auto));
    assert_eq!(b.normals_computing, NormalComputing::SmoothNormals);
}

#[test]
fn builder_setters() {
    let b = Builder::new()
        .with_stick_generation(StickGeneration::Triangles)
        .with_stick_length(StickLen::Fixed(0.5))
        .with_flat_normals();
    assert_eq!(b.stick_generation, StickGeneration::Triangles);
    assert!(matches!(b.stick_length, StickLen::Fixed(l) if l == 0.5));
    assert_eq!(b.normals_computing, NormalComputing::FlatNormals);
    assert_eq!(b.without_normal_computation().normals_computing, NormalComputing::Disabled);
    assert_eq!(Builder::new().with_flat_normals().with_smooth_normals().normals_computing, NormalComputing::SmoothNormals);
}

#[test]
fn pinned_and_anchored_ids() {
    let b = Builder::new()
        .with_pinned_vertex_ids(&vec![0, 1])
        .with_pinned_vertex_id(5)
        .with_anchored_vertex_ids(&vec![7], 3)
        .with_anchored_vertex_id(8, 4);
    assert_eq!(b.anchored_vertex_ids, vec![(0, 0), (1, 0), (5, 0), (7, 3), (8, 4)]);
}

#[test]
fn colors_select_anchored_vertices() {
    let red: u128 = 0xff;
    let blue: u128 = 0xff00;
    let b = Builder::new()
        .with_anchored_vertex_id(0, 9)
        .with_anchored_vertex_color(red, 1)
        .with_anchored_vertex_colors(&vec![blue, red], 2)
        .with_pinned_vertex_color(0x1)
        .with_pinned_vertex_colors(&vec![0x2]);
    let colors = vec![blue, 0, red, blue, 0x2];
    assert_eq!(b.anchored_vertex_ids(Some(&colors)), vec![(0, 9), (0, 2), (2, 1), (3, 2), (4, 0)]);
    assert_eq!(b.anchored_vertex_ids(None), vec![(0, 9)]);
}

#[test]
fn builder_aliases() {
    let b = Builder::new().with_fixed_points(&vec![3]).with_flat_normal_computation();
    assert_eq!(b.anchored_vertex_ids, vec![(3, 0)]);
    assert_eq!(b.normals_computing, NormalComputing::FlatNormals);
    let b = b.with_smooth_normal_computation();
    assert_eq!(b.normals_computing, NormalComputing::SmoothNormals);
    let b = b.without_normal_computation().with_normal_computation();
    assert_eq!(b.normals_computing, NormalComputing::SmoothNormals);
}
