//! The bit layout of the key that selects a specialized 2D mesh pipeline.
//!
//! A key is a `u32` of flags: bit 0 marks an HDR target, bits 26..29 hold
//! the primitive topology and bits 29..32 hold log2 of the MSAA sample count.
//!
//! This is the layout of the engine's 2D mesh pipeline key (bevy 0.14's
//! `Mesh2dPipelineKey`): the engine's key and these bits convert into each
//! other unchanged (`bits()` one way, `from_bits_retain` the other), and the
//! functions here compute the same bits as the engine's `from_msaa_samples`,
//! `from_hdr`, `from_primitive_topology`, `msaa_samples`,
//! `primitive_topology` and `contains(HDR)`. Topology codes follow the
//! engine's primitive topology order (point list 0 to triangle strip 4).

use vstd::prelude::*;
use vstd::std_specs::bits::u32_trailing_zeros;
use vstd::std_specs::bits::axiom_u32_trailing_zeros;

verus! {

/// The flag for a high-dynamic-range render target.
pub const HDR_BIT: u32 = 1;

/// Mask of the three bits that hold log2 of the sample count.
pub const MSAA_MASK_BITS: u32 = 7;

/// Position of the sample-count field: the three topmost bits.
pub const MSAA_SHIFT_BITS: u32 = 29;

/// Mask of the three bits that hold the primitive topology.
pub const TOPOLOGY_MASK_BITS: u32 = 7;

/// Position of the topology field: just below the sample-count field.
pub const TOPOLOGY_SHIFT_BITS: u32 = 26;

/// How vertices are assembled into primitives.
#[derive(Clone, Copy, Debug, PartialEq, Eq, Structural)]
pub enum Topology {
    PointList,
    LineList,
    LineStrip,
    TriangleList,
    TriangleStrip,
}

/// The number by which a topology is stored in a key.
pub open spec fn topology_code(t: Topology) -> u32 {
    match t {
        Topology::PointList => 0,
        Topology::LineList => 1,
        Topology::LineStrip => 2,
        Topology::TriangleList => 3,
        Topology::TriangleStrip => 4,
    }
}

/// The topology that a stored number stands for; numbers that name no
/// topology read as the default, a triangle list.
pub open spec fn topology_of_code(code: u32) -> Topology {
    if code == 0 {
        Topology::PointList
    } else if code == 1 {
        Topology::LineList
    } else if code == 2 {
        Topology::LineStrip
    } else if code == 4 {
        Topology::TriangleStrip
    } else {
        Topology::TriangleList
    }
}

/// Key bits that record a sample count: log2 of the count, kept to three bits.
pub open spec fn msaa_key_bits(msaa_samples: u32) -> u32 {
    (u32_trailing_zeros(msaa_samples) & MSAA_MASK_BITS) << MSAA_SHIFT_BITS
}

/// The sample count that a key records.
pub open spec fn key_msaa_samples(key: u32) -> u32 {
    1u32 << ((key >> MSAA_SHIFT_BITS) & MSAA_MASK_BITS)
}

/// Key bits that record a topology.
pub open spec fn topology_key_bits(t: Topology) -> u32 {
    (topology_code(t) & TOPOLOGY_MASK_BITS) << TOPOLOGY_SHIFT_BITS
}

/// The topology that a key records.
pub open spec fn key_topology(key: u32) -> Topology {
    topology_of_code((key >> TOPOLOGY_SHIFT_BITS) & TOPOLOGY_MASK_BITS)
}

/// Key bits for the HDR flag.
pub open spec fn hdr_key_bits(hdr: bool) -> u32 {
    if hdr { HDR_BIT } else { 0 }
}

/// Whether a key carries the HDR flag.
pub open spec fn key_has_hdr(key: u32) -> bool {
    key & HDR_BIT == HDR_BIT
}

/// A sample count that the three-bit field can hold: a power of two up to 128.
pub open spec fn is_encodable_sample_count(msaa_samples: u32) -> bool {
    exists|exp: u32| exp < 8 && msaa_samples == 1u32 << exp
}

/// Builds the key bits for a sample count.
pub fn from_msaa_samples(msaa_samples: u32) -> (key: u32)
    ensures
        key == msaa_key_bits(msaa_samples),
{
    (msaa_samples.trailing_zeros() & MSAA_MASK_BITS) << MSAA_SHIFT_BITS
}

/// Reads the sample count out of a key.
pub fn msaa_samples(key: u32) -> (samples: u32)
    ensures
        samples == key_msaa_samples(key),
{
    let exp: u32 = (key >> MSAA_SHIFT_BITS) & MSAA_MASK_BITS;
    assert(exp < 8) by (bit_vector)
        requires
            exp == (key >> 29u32) & 7u32,
    ;
    1u32 << exp
}

/// Builds the key bits for the HDR flag.
pub fn from_hdr(hdr: bool) -> (key: u32)
    ensures
        key == hdr_key_bits(hdr),
{
    if hdr {
        HDR_BIT
    } else {
        0
    }
}

/// Whether a key carries the HDR flag.
pub fn contains_hdr(key: u32) -> (hdr: bool)
    ensures
        hdr == key_has_hdr(key),
{
    key & HDR_BIT == HDR_BIT
}

/// Builds the key bits for a topology.
pub fn from_primitive_topology(t: Topology) -> (key: u32)
    ensures
        key == topology_key_bits(t),
{
    let code: u32 = match t {
        Topology::PointList => 0,
        Topology::LineList => 1,
        Topology::LineStrip => 2,
        Topology::TriangleList => 3,
        Topology::TriangleStrip => 4,
    };
    (code & TOPOLOGY_MASK_BITS) << TOPOLOGY_SHIFT_BITS
}

/// Reads the topology out of a key.
pub fn primitive_topology(key: u32) -> (t: Topology)
    ensures
        t == key_topology(key),
{
    let code: u32 = (key >> TOPOLOGY_SHIFT_BITS) & TOPOLOGY_MASK_BITS;
    if code == 0 {
        Topology::PointList
    } else if code == 1 {
        Topology::LineList
    } else if code == 2 {
        Topology::LineStrip
    } else if code == 4 {
        Topology::TriangleStrip
    } else {
        Topology::TriangleList
    }
}

/// The number of trailing zeros of `2^exp` is `exp`.
proof fn lemma_trailing_zeros_of_power(exp: u32)
    requires
        exp < 32,
    ensures
        u32_trailing_zeros(1u32 << exp) == exp,
{
    let i: u32 = 1u32 << exp;
    axiom_u32_trailing_zeros(i);
    let t = u32_trailing_zeros(i);
    assert(i != 0) by (bit_vector)
        requires
            i == 1u32 << exp,
            exp < 32,
    ;
    if t < exp {
        let tt: u32 = t;
        assert(((1u32 << exp) >> tt) & 1u32 == 0u32) by (bit_vector)
            requires
                exp < 32,
                tt < exp,
        ;
    } else if t > exp {
        assert(((1u32 << exp) >> exp) & 1u32 == 1u32) by (bit_vector)
            requires
                exp < 32,
        ;
        assert((i >> exp) & 1u32 == 0u32);
    }
}

/// A sample count that fits the three-bit field is read back unchanged
/// from the key built for it.
pub proof fn lemma_msaa_round_trip(msaa_samples: u32)
    requires
        is_encodable_sample_count(msaa_samples),
    ensures
        key_msaa_samples(msaa_key_bits(msaa_samples)) == msaa_samples,
{
    let exp = choose|exp: u32| exp < 8 && msaa_samples == 1u32 << exp;
    lemma_trailing_zeros_of_power(exp);
    assert((((exp & 7u32) << 29u32) >> 29u32) & 7u32 == exp) by (bit_vector)
        requires
            exp < 8,
    ;
}

/// Every topology is read back unchanged from the key built for it.
pub proof fn lemma_topology_round_trip(t: Topology)
    ensures
        key_topology(topology_key_bits(t)) == t,
{
    let c = topology_code(t);
    assert((((c & 7u32) << 26u32) >> 26u32) & 7u32 == c) by (bit_vector)
        requires
            c < 8,
    ;
}

/// The three fields of a key do not disturb one another: a key built from a
/// sample count, an HDR choice and a topology reads back that HDR choice and
/// that topology whatever the other fields hold, and reads back the sample
/// count whenever the three-bit field can hold it.
pub proof fn lemma_key_fields_independent(msaa_samples: u32, hdr: bool, t: Topology)
    ensures
        key_has_hdr(msaa_key_bits(msaa_samples) | hdr_key_bits(hdr) | topology_key_bits(t)) == hdr,
        key_topology(msaa_key_bits(msaa_samples) | hdr_key_bits(hdr) | topology_key_bits(t)) == t,
        is_encodable_sample_count(msaa_samples) ==> key_msaa_samples(
            msaa_key_bits(msaa_samples) | hdr_key_bits(hdr) | topology_key_bits(t),
        ) == msaa_samples,
{
    let tz = u32_trailing_zeros(msaa_samples);
    let c = topology_code(t);
    let b: u32 = hdr_key_bits(hdr);
    let m: u32 = msaa_key_bits(msaa_samples);
    let p: u32 = topology_key_bits(t);
    let key: u32 = m | b | p;
    assert(m == (tz & 7u32) << 29u32);
    assert(p == (c & 7u32) << 26u32);
    assert(b == 0u32 || b == 1u32);
    assert((key >> 29u32) & 7u32 == (m >> 29u32) & 7u32 && (key >> 26u32) & 7u32 == (p >> 26u32)
        & 7u32 && key & 1u32 == b) by (bit_vector)
        requires
            key == m | b | p,
            m == (tz & 7u32) << 29u32,
            p == (c & 7u32) << 26u32,
            b == 0u32 || b == 1u32,
    ;
    lemma_topology_round_trip(t);
    if is_encodable_sample_count(msaa_samples) {
        lemma_msaa_round_trip(msaa_samples);
    }
}

/// The sample count read from a key depends on bits 29..32 alone: keys that
/// agree there read the same count.
pub proof fn lemma_msaa_reads_only_its_field(key1: u32, key2: u32)
    requires
        key1 >> MSAA_SHIFT_BITS == key2 >> MSAA_SHIFT_BITS,
    ensures
        key_msaa_samples(key1) == key_msaa_samples(key2),
{
}

/// The topology read from a key depends on bits 26..29 alone.
pub proof fn lemma_topology_reads_only_its_field(key1: u32, key2: u32)
    requires
        (key1 >> TOPOLOGY_SHIFT_BITS) & TOPOLOGY_MASK_BITS == (key2 >> TOPOLOGY_SHIFT_BITS)
            & TOPOLOGY_MASK_BITS,
    ensures
        key_topology(key1) == key_topology(key2),
{
}

/// The HDR test reads bit 0 alone: a key has the flag exactly when its
/// lowest bit is set.
pub proof fn lemma_hdr_is_bit_zero(key: u32)
    ensures
        key_has_hdr(key) == (key % 2 == 1),
{
    assert((key & 1u32 == 1u32) == (key % 2 == 1)) by (bit_vector);
}

} // verus!
