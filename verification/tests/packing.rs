use cyat_renderer::bytes::{pack_indices, pack_vertices};
use cyat_renderer::geometry::PackedVertex;

#[test]
fn vertex_serializes_to_24_little_endian_bytes() {
    let v = PackedVertex {
        position_x: 0x0403_0201,
        position_y: 0x0807_0605,
        color_r: 0x0C0B_0A09,
        color_g: 0x100F_0E0D,
        color_b: 0x1413_1211,
        depth: 0x1817_1615,
    };
    let bytes = pack_vertices(&vec![v]);
    let expected: Vec<u8> = (1..=24u8).collect();
    assert_eq!(bytes, expected);
}

#[test]
fn vertices_serialize_in_order_at_fixed_stride() {
    let a = PackedVertex { position_x: 1, position_y: 2, color_r: 3, color_g: 4, color_b: 5, depth: 6 };
    let b = PackedVertex { position_x: 7, position_y: 8, color_r: 9, color_g: 10, color_b: 11, depth: 12 };
    let bytes = pack_vertices(&vec![a, b]);
    assert_eq!(bytes.len(), 48);
    assert_eq!(bytes[0], 1);
    assert_eq!(bytes[1..4], [0, 0, 0]);
    assert_eq!(bytes[24], 7);
    assert_eq!(bytes[44], 12);
}

#[test]
fn indices_serialize_to_little_endian_pairs() {
    let bytes = pack_indices(&vec![0x0201u16, 0x0403u16, 0xFFFEu16]);
    assert_eq!(bytes, vec![0x01, 0x02, 0x03, 0x04, 0xFE, 0xFF]);
}

#[test]
fn empty_arrays_serialize_to_no_bytes() {
    assert!(pack_vertices(&Vec::new()).is_empty());
    assert!(pack_indices(&Vec::new()).is_empty());
}
