use cyat_renderer::batch::{DrawEntry, ShapeBatcher};
use cyat_renderer::geometry::{check_shapes, PackedVertex, ShapeGeometry};

fn vert(n: u32) -> PackedVertex {
    PackedVertex {
        position_x: n,
        position_y: n + 1,
        color_r: n + 2,
        color_g: n + 3,
        color_b: n + 4,
        depth: n + 5,
    }
}

fn shape(first: u32, count: usize, indices: Vec<u16>, bound: (u32, u32, u32, u32)) -> ShapeGeometry {
    let mut vertices = Vec::new();
    for i in 0..count {
        vertices.push(vert(first + i as u32));
    }
    ShapeGeometry { vertices, indices, bound }
}

#[test]
fn two_triangles_get_contiguous_entries() {
    let shapes = vec![
        shape(0, 3, vec![0, 1, 2], (0, 0, 10, 10)),
        shape(100, 3, vec![0, 1, 2], (10, 0, 10, 10)),
    ];
    assert!(check_shapes(&shapes));
    let mut batcher = ShapeBatcher::new();
    batcher.build(&shapes);

    assert_eq!(batcher.batch.vertices.len(), 6);
    assert_eq!(batcher.batch.vertices[0], vert(0));
    assert_eq!(batcher.batch.vertices[3], vert(100));
    assert_eq!(batcher.batch.indices, vec![0, 1, 2, 3, 4, 5]);
    assert_eq!(
        batcher.entries,
        vec![
            DrawEntry { start: 0, end: 3, bound: (0, 0, 10, 10) },
            DrawEntry { start: 3, end: 6, bound: (10, 0, 10, 10) },
        ]
    );
    assert_eq!(batcher.draw_calls(), batcher.entries);
}

#[test]
fn empty_shape_list_draws_nothing() {
    let shapes: Vec<ShapeGeometry> = Vec::new();
    assert!(check_shapes(&shapes));
    let mut batcher = ShapeBatcher::new();
    batcher.build(&shapes);

    assert!(batcher.batch.vertices.is_empty());
    assert!(batcher.batch.indices.is_empty());
    assert!(batcher.entries.is_empty());
    assert!(batcher.draw_calls().is_empty());
}

#[test]
fn zero_geometry_shape_keeps_entry_but_is_skipped() {
    let shapes = vec![
        shape(0, 3, vec![0, 1, 2], (0, 0, 4, 4)),
        shape(0, 0, vec![], (4, 0, 4, 4)),
        shape(50, 3, vec![0, 1, 2], (8, 0, 4, 4)),
    ];
    assert!(check_shapes(&shapes));
    let mut batcher = ShapeBatcher::new();
    batcher.build(&shapes);

    assert_eq!(batcher.entries.len(), 3);
    assert_eq!(batcher.entries[1], DrawEntry { start: 3, end: 3, bound: (4, 0, 4, 4) });
    let calls = batcher.draw_calls();
    assert_eq!(calls.len(), 2);
    assert_eq!(calls[0], DrawEntry { start: 0, end: 3, bound: (0, 0, 4, 4) });
    assert_eq!(calls[1], DrawEntry { start: 3, end: 6, bound: (8, 0, 4, 4) });
}

#[test]
fn entries_partition_index_array_in_order() {
    let shapes = vec![
        shape(0, 4, vec![0, 1, 2, 0, 2, 3], (0, 0, 2, 2)),
        shape(10, 3, vec![0, 1, 2], (2, 0, 2, 2)),
        shape(20, 5, vec![0, 1, 2, 2, 3, 4], (4, 0, 2, 2)),
    ];
    assert!(check_shapes(&shapes));
    let mut batcher = ShapeBatcher::new();
    batcher.build(&shapes);

    assert_eq!(batcher.entries.len(), shapes.len());
    assert_eq!(batcher.entries[0].start, 0);
    for i in 0..batcher.entries.len() - 1 {
        assert_eq!(batcher.entries[i].end, batcher.entries[i + 1].start);
    }
    assert_eq!(
        batcher.entries[batcher.entries.len() - 1].end,
        batcher.batch.indices.len()
    );
}

#[test]
fn indices_are_rebased_onto_shared_array() {
    let shapes = vec![
        shape(0, 3, vec![2, 0, 1], (0, 0, 1, 1)),
        shape(10, 4, vec![3, 2, 0], (0, 0, 1, 1)),
    ];
    assert!(check_shapes(&shapes));
    let mut batcher = ShapeBatcher::new();
    batcher.build(&shapes);

    assert_eq!(batcher.batch.indices, vec![2, 0, 1, 6, 5, 3]);
    for &i in &batcher.batch.indices {
        assert!((i as usize) < batcher.batch.vertices.len());
    }
}

#[test]
fn rebuild_replaces_previous_frame() {
    let mut batcher = ShapeBatcher::new();

    let small = vec![shape(0, 4, vec![0, 1, 2, 3], (0, 0, 8, 8))];
    assert!(check_shapes(&small));
    batcher.build(&small);
    assert_eq!(batcher.batch.vertices.len(), 4);
    assert_eq!(batcher.entries.len(), 1);

    let mut indices = Vec::new();
    for i in 0..1000u16 {
        indices.push(i);
    }
    let big = vec![shape(0, 1000, indices, (0, 0, 100, 100))];
    assert!(check_shapes(&big));
    batcher.build(&big);

    assert_eq!(batcher.batch.vertices.len(), 1000);
    assert_eq!(batcher.batch.indices.len(), 1000);
    for i in 0..1000usize {
        assert_eq!(batcher.batch.vertices[i], vert(i as u32));
        assert_eq!(batcher.batch.indices[i], i as u16);
    }
    assert_eq!(batcher.entries, vec![DrawEntry { start: 0, end: 1000, bound: (0, 0, 100, 100) }]);
}

#[test]
fn check_shapes_rejects_dangling_index() {
    let bad = vec![shape(0, 2, vec![0, 1, 2], (0, 0, 1, 1))];
    assert!(!check_shapes(&bad));
}

#[test]
fn check_shapes_rejects_too_many_vertices() {
    let shapes = vec![
        shape(0, 40000, vec![], (0, 0, 1, 1)),
        shape(0, 30000, vec![], (0, 0, 1, 1)),
    ];
    assert!(!check_shapes(&shapes));
}

#[test]
fn check_shapes_accepts_full_vertex_budget() {
    let shapes = vec![
        shape(0, 40000, vec![], (0, 0, 1, 1)),
        shape(0, 25536, vec![25535], (0, 0, 1, 1)),
    ];
    assert!(check_shapes(&shapes));
    let mut batcher = ShapeBatcher::new();
    batcher.build(&shapes);
    assert_eq!(batcher.batch.vertices.len(), 65536);
    assert_eq!(batcher.batch.indices, vec![65535]);
}
