use shader_quad::mesh2d_key::{
    contains_hdr, from_hdr, from_msaa_samples, from_primitive_topology, msaa_samples,
    primitive_topology, Topology, HDR_BIT, MSAA_SHIFT_BITS, TOPOLOGY_SHIFT_BITS,
};

const ALL_TOPOLOGIES: [Topology; 5] = [
    Topology::PointList,
    Topology::LineList,
    Topology::LineStrip,
    Topology::TriangleList,
    Topology::TriangleStrip,
];

#[test]
fn msaa_bits_hold_log2_of_the_sample_count() {
    assert_eq!(from_msaa_samples(1), 0);
    assert_eq!(from_msaa_samples(2), 1 << 29);
    assert_eq!(from_msaa_samples(4), 2 << 29);
    assert_eq!(from_msaa_samples(8), 3 << 29);
    assert_eq!(MSAA_SHIFT_BITS, 29);
}

#[test]
fn msaa_of_zero_samples_wraps_to_no_bits() {
    // trailing_zeros(0) is 32, which the three-bit mask reduces to 0.
    assert_eq!(from_msaa_samples(0), 0);
    assert_eq!(msaa_samples(from_msaa_samples(0)), 1);
}

#[test]
fn msaa_round_trip_for_every_encodable_count() {
    for exp in 0..8u32 {
        let samples = 1u32 << exp;
        assert_eq!(msaa_samples(from_msaa_samples(samples)), samples);
    }
}

#[test]
fn msaa_count_beyond_the_field_is_not_kept() {
    // 256 = 2^8 does not fit the three-bit field.
    assert_eq!(msaa_samples(from_msaa_samples(256)), 1);
}

#[test]
fn topology_bits_and_round_trip() {
    assert_eq!(TOPOLOGY_SHIFT_BITS, 26);
    assert_eq!(from_primitive_topology(Topology::PointList), 0);
    assert_eq!(from_primitive_topology(Topology::TriangleList), 3 << 26);
    assert_eq!(from_primitive_topology(Topology::TriangleStrip), 4 << 26);
    for t in ALL_TOPOLOGIES {
        assert_eq!(primitive_topology(from_primitive_topology(t)), t);
    }
}

#[test]
fn unknown_topology_codes_read_as_triangle_list() {
    assert_eq!(primitive_topology(5 << 26), Topology::TriangleList);
    assert_eq!(primitive_topology(7 << 26), Topology::TriangleList);
    assert_eq!(primitive_topology(0), Topology::PointList);
}

#[test]
fn hdr_flag() {
    assert_eq!(from_hdr(true), HDR_BIT);
    assert_eq!(from_hdr(false), 0);
    assert!(contains_hdr(from_hdr(true) | from_msaa_samples(4)));
    assert!(!contains_hdr(from_msaa_samples(8) | from_primitive_topology(Topology::LineStrip)));
}

#[test]
fn fields_do_not_disturb_each_other() {
    for exp in 0..4u32 {
        for t in ALL_TOPOLOGIES {
            let key = from_msaa_samples(1 << exp) | from_hdr(false) | from_primitive_topology(t);
            assert_eq!(msaa_samples(key), 1 << exp);
            assert_eq!(primitive_topology(key), t);
            assert!(!contains_hdr(key));
        }
    }
}
