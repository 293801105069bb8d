//! How a registry takes names of metrics and tells them apart, worked out for
//! the names that the relay and its fallback use. The bytes of a name stand in
//! the hashes as numbers, eight to a line.

use vstd::prelude::*;

verus! {

/// The first characters are such as a name may hold.
pub open spec fn name_chars(name: Seq<char>, n: int) -> bool
    decreases n,
{
    n <= 0 || (crate::instruments::is_name_char(name[n - 1]) && name_chars(name, n - 1))
}

/// One more byte in a hash.
pub open spec fn mix(hash: u64, a: u8) -> u64 {
    crate::instruments::mixed(hash, a)
}

/// Eight more bytes in a hash.
pub open spec fn mix8(hash: u64, a: u8, b: u8, c: u8, d: u8, e: u8, f: u8, g: u8, h: u8) -> u64 {
    mix(mix(mix(mix(mix(mix(mix(mix(hash, a), b), c), d), e), f), g), h)
}

/// A registry takes a metric of this name and help text, and tells it apart by
/// this number.
pub open spec fn is_told(name: Seq<char>, help: Seq<char>, id: u64) -> bool {
    crate::instruments::is_described(name, help) && crate::instruments::metric_id(name) == id
}

proof fn lemma_name_chars(name: Seq<char>, n: int, i: int)
    requires
        name_chars(name, n),
        0 <= i < n,
    ensures
        crate::instruments::is_name_char(name[i]),
    decreases n,
{
    if i < n - 1 {
        lemma_name_chars(name, n - 1, i);
    }
}

proof fn lemma_eight(bytes: Seq<u8>, n: int)
    requires
        0 <= n,
    ensures
        crate::instruments::fnv(bytes, n + 8) == mix8(
            crate::instruments::fnv(bytes, n),
            bytes[n],
            bytes[n + 1],
            bytes[n + 2],
            bytes[n + 3],
            bytes[n + 4],
            bytes[n + 5],
            bytes[n + 6],
            bytes[n + 7],
        ),
{
    reveal_with_fuel(crate::instruments::fnv, 9);
}

/// A name is taken, and its bytes are its characters.
pub proof fn lemma_metric_name(name: Seq<char>)
    requires
        name.len() > 0,
        !('0' <= name[0] && name[0] <= '9'),
        name_chars(name, name.len() as int),
    ensures
        crate::instruments::is_metric_name(name),
        crate::instruments::metric_bytes(name).len() == name.len() + 1,
        forall|i: int|
            0 <= i < name.len() ==> #[trigger] crate::instruments::metric_bytes(name)[i]
                == name[i] as u8,
        crate::instruments::metric_bytes(name)[name.len() as int] == 0xff,
{
    assert forall|i: int| 0 <= i < name.len() implies crate::instruments::is_name_char(
        #[trigger] name[i],
    ) by {
        lemma_name_chars(name, name.len() as int, i);
    }
    vstd::utf8::is_ascii_chars_encode_utf8(name);
}

proof fn lemma_router_prefix(bytes: Seq<u8>)
    requires
        bytes.len() >= 11,
        bytes[0] == 0x73,
        bytes[1] == 0x6e,
        bytes[2] == 0x69,
        bytes[3] == 0x5f,
        bytes[4] == 0x72,
        bytes[5] == 0x6f,
        bytes[6] == 0x75,
        bytes[7] == 0x74,
        bytes[8] == 0x65,
        bytes[9] == 0x72,
        bytes[10] == 0x5f,
    ensures
        crate::instruments::fnv(bytes, 11) == 0x8972_6ed0_fbe2_e01e,
{
    reveal_with_fuel(crate::instruments::fnv, 12);
    assert(mix(mix(mix(mix8(0xcbf2_9ce4_8422_2325u64,
        0x73, 0x6e, 0x69, 0x5f, 0x72, 0x6f, 0x75, 0x74), 0x65), 0x72), 0x5f)
        == 0x8972_6ed0_fbe2_e01eu64) by (bit_vector);
}

proof fn lemma_router_connections_accepted()
    ensures
        is_told(
            "sni_router_connections_accepted_total"@,
            "Accepted connections"@,
            0x5f0c_442f_79e2_67ed,
        ),
{
    let name = "sni_router_connections_accepted_total"@;
    reveal_strlit("sni_router_connections_accepted_total");
    reveal_strlit("Accepted connections");
    reveal_with_fuel(name_chars, 38);
    lemma_metric_name(name);
    let bytes = crate::instruments::metric_bytes(name);
    lemma_router_prefix(bytes);
    lemma_eight(bytes, 11);
    lemma_eight(bytes, 19);
    lemma_eight(bytes, 27);
    reveal_with_fuel(crate::instruments::fnv, 4);
    assert(mix(mix(mix(mix8(mix8(mix8(0x8972_6ed0_fbe2_e01eu64,
        0x63, 0x6f, 0x6e, 0x6e, 0x65, 0x63, 0x74, 0x69),
        0x6f, 0x6e, 0x73, 0x5f, 0x61, 0x63, 0x63, 0x65),
        0x70, 0x74, 0x65, 0x64, 0x5f, 0x74, 0x6f, 0x74), 0x61), 0x6c), 0xff)
        == 0x5f0c_442f_79e2_67edu64) by (bit_vector);
}

proof fn lemma_router_admission_rejected_pre_parse()
    ensures
        is_told(
            "sni_router_admission_rejected_pre_parse_total"@,
            "Connections rejected because pre-parse admission was full"@,
            0x3e0c_ef03_5538_9f96,
        ),
{
    let name = "sni_router_admission_rejected_pre_parse_total"@;
    reveal_strlit("sni_router_admission_rejected_pre_parse_total");
    reveal_strlit("Connections rejected because pre-parse admission was full");
    reveal_with_fuel(name_chars, 46);
    lemma_metric_name(name);
    let bytes = crate::instruments::metric_bytes(name);
    lemma_router_prefix(bytes);
    lemma_eight(bytes, 11);
    lemma_eight(bytes, 19);
    lemma_eight(bytes, 27);
    lemma_eight(bytes, 35);
    reveal_with_fuel(crate::instruments::fnv, 4);
    assert(mix(mix(mix(mix8(mix8(mix8(mix8(0x8972_6ed0_fbe2_e01eu64,
        0x61, 0x64, 0x6d, 0x69, 0x73, 0x73, 0x69, 0x6f),
        0x6e, 0x5f, 0x72, 0x65, 0x6a, 0x65, 0x63, 0x74),
        0x65, 0x64, 0x5f, 0x70, 0x72, 0x65, 0x5f, 0x70),
        0x61, 0x72, 0x73, 0x65, 0x5f, 0x74, 0x6f, 0x74), 0x61), 0x6c), 0xff)
        == 0x3e0c_ef03_5538_9f96u64) by (bit_vector);
}

proof fn lemma_router_admission_rejected_routed()
    ensures
        is_told(
            "sni_router_admission_rejected_routed_total"@,
            "Exact-SNI connections rejected because routed admission was full"@,
            0x4a88_45f7_2bea_4d1a,
        ),
{
    let name = "sni_router_admission_rejected_routed_total"@;
    reveal_strlit("sni_router_admission_rejected_routed_total");
    reveal_strlit("Exact-SNI connections rejected because routed admission was full");
    reveal_with_fuel(name_chars, 43);
    lemma_metric_name(name);
    let bytes = crate::instruments::metric_bytes(name);
    lemma_router_prefix(bytes);
    lemma_eight(bytes, 11);
    lemma_eight(bytes, 19);
    lemma_eight(bytes, 27);
    lemma_eight(bytes, 35);
    reveal_with_fuel(crate::instruments::fnv, 1);
    assert(mix8(mix8(mix8(mix8(0x8972_6ed0_fbe2_e01eu64,
        0x61, 0x64, 0x6d, 0x69, 0x73, 0x73, 0x69, 0x6f),
        0x6e, 0x5f, 0x72, 0x65, 0x6a, 0x65, 0x63, 0x74),
        0x65, 0x64, 0x5f, 0x72, 0x6f, 0x75, 0x74, 0x65),
        0x64, 0x5f, 0x74, 0x6f, 0x74, 0x61, 0x6c, 0xff)
        == 0x4a88_45f7_2bea_4d1au64) by (bit_vector);
}

proof fn lemma_router_admission_rejected_routed_source()
    ensures
        is_told(
            "sni_router_admission_rejected_routed_source_total"@,
            "Exact-SNI connections rejected by the per-source active-session limit"@,
            0xb484_91d9_5c07_6b42,
        ),
{
    let name = "sni_router_admission_rejected_routed_source_total"@;
    reveal_strlit("sni_router_admission_rejected_routed_source_total");
    reveal_strlit("Exact-SNI connections rejected by the per-source active-session limit");
    reveal_with_fuel(name_chars, 50);
    lemma_metric_name(name);
    let bytes = crate::instruments::metric_bytes(name);
    lemma_router_prefix(bytes);
    lemma_eight(bytes, 11);
    lemma_eight(bytes, 19);
    lemma_eight(bytes, 27);
    lemma_eight(bytes, 35);
    reveal_with_fuel(crate::instruments::fnv, 8);
    assert(mix(mix(mix(mix(mix(mix(mix(mix8(mix8(mix8(mix8(0x8972_6ed0_fbe2_e01eu64,
        0x61, 0x64, 0x6d, 0x69, 0x73, 0x73, 0x69, 0x6f),
        0x6e, 0x5f, 0x72, 0x65, 0x6a, 0x65, 0x63, 0x74),
        0x65, 0x64, 0x5f, 0x72, 0x6f, 0x75, 0x74, 0x65),
        0x64, 0x5f, 0x73, 0x6f, 0x75, 0x72, 0x63, 0x65), 0x5f), 0x74), 0x6f), 0x74), 0x61), 0x6c), 0xff)
        == 0xb484_91d9_5c07_6b42u64) by (bit_vector);
}

proof fn lemma_router_admission_rejected_fallback()
    ensures
        is_told(
            "sni_router_admission_rejected_fallback_total"@,
            "Fallback connections rejected because fallback admission was full"@,
            0xbf51_78d3_bc20_11c1,
        ),
{
    let name = "sni_router_admission_rejected_fallback_total"@;
    reveal_strlit("sni_router_admission_rejected_fallback_total");
    reveal_strlit("Fallback connections rejected because fallback admission was full");
    reveal_with_fuel(name_chars, 45);
    lemma_metric_name(name);
    let bytes = crate::instruments::metric_bytes(name);
    lemma_router_prefix(bytes);
    lemma_eight(bytes, 11);
    lemma_eight(bytes, 19);
    lemma_eight(bytes, 27);
    lemma_eight(bytes, 35);
    reveal_with_fuel(crate::instruments::fnv, 3);
    assert(mix(mix(mix8(mix8(mix8(mix8(0x8972_6ed0_fbe2_e01eu64,
        0x61, 0x64, 0x6d, 0x69, 0x73, 0x73, 0x69, 0x6f),
        0x6e, 0x5f, 0x72, 0x65, 0x6a, 0x65, 0x63, 0x74),
        0x65, 0x64, 0x5f, 0x66, 0x61, 0x6c, 0x6c, 0x62),
        0x61, 0x63, 0x6b, 0x5f, 0x74, 0x6f, 0x74, 0x61), 0x6c), 0xff)
        == 0xbf51_78d3_bc20_11c1u64) by (bit_vector);
}

proof fn lemma_router_connections_routed()
    ensures
        is_told(
            "sni_router_connections_routed_total"@,
            "Exact SNI route matches"@,
            0x7f87_b0b5_443a_4bdf,
        ),
{
    let name = "sni_router_connections_routed_total"@;
    reveal_strlit("sni_router_connections_routed_total");
    reveal_strlit("Exact SNI route matches");
    reveal_with_fuel(name_chars, 36);
    lemma_metric_name(name);
    let bytes = crate::instruments::metric_bytes(name);
    lemma_router_prefix(bytes);
    lemma_eight(bytes, 11);
    lemma_eight(bytes, 19);
    lemma_eight(bytes, 27);
    reveal_with_fuel(crate::instruments::fnv, 2);
    assert(mix(mix8(mix8(mix8(0x8972_6ed0_fbe2_e01eu64,
        0x63, 0x6f, 0x6e, 0x6e, 0x65, 0x63, 0x74, 0x69),
        0x6f, 0x6e, 0x73, 0x5f, 0x72, 0x6f, 0x75, 0x74),
        0x65, 0x64, 0x5f, 0x74, 0x6f, 0x74, 0x61, 0x6c), 0xff)
        == 0x7f87_b0b5_443a_4bdfu64) by (bit_vector);
}

proof fn lemma_router_fallback_unknown_sni()
    ensures
        is_told(
            "sni_router_fallback_unknown_sni_total"@,
            "Connections sent to the unknown-SNI fallback"@,
            0x1296_c5b0_2927_a714,
        ),
{
    let name = "sni_router_fallback_unknown_sni_total"@;
    reveal_strlit("sni_router_fallback_unknown_sni_total");
    reveal_strlit("Connections sent to the unknown-SNI fallback");
    reveal_with_fuel(name_chars, 38);
    lemma_metric_name(name);
    let bytes = crate::instruments::metric_bytes(name);
    lemma_router_prefix(bytes);
    lemma_eight(bytes, 11);
    lemma_eight(bytes, 19);
    lemma_eight(bytes, 27);
    reveal_with_fuel(crate::instruments::fnv, 4);
    assert(mix(mix(mix(mix8(mix8(mix8(0x8972_6ed0_fbe2_e01eu64,
        0x66, 0x61, 0x6c, 0x6c, 0x62, 0x61, 0x63, 0x6b),
        0x5f, 0x75, 0x6e, 0x6b, 0x6e, 0x6f, 0x77, 0x6e),
        0x5f, 0x73, 0x6e, 0x69, 0x5f, 0x74, 0x6f, 0x74), 0x61), 0x6c), 0xff)
        == 0x1296_c5b0_2927_a714u64) by (bit_vector);
}

proof fn lemma_router_fallback_no_sni()
    ensures
        is_told(
            "sni_router_fallback_no_sni_total"@,
            "TLS connections sent to the no-SNI fallback"@,
            0x90e1_425b_cbaa_1a31,
        ),
{
    let name = "sni_router_fallback_no_sni_total"@;
    reveal_strlit("sni_router_fallback_no_sni_total");
    reveal_strlit("TLS connections sent to the no-SNI fallback");
    reveal_with_fuel(name_chars, 33);
    lemma_metric_name(name);
    let bytes = crate::instruments::metric_bytes(name);
    lemma_router_prefix(bytes);
    lemma_eight(bytes, 11);
    lemma_eight(bytes, 19);
    reveal_with_fuel(crate::instruments::fnv, 7);
    assert(mix(mix(mix(mix(mix(mix(mix8(mix8(0x8972_6ed0_fbe2_e01eu64,
        0x66, 0x61, 0x6c, 0x6c, 0x62, 0x61, 0x63, 0x6b),
        0x5f, 0x6e, 0x6f, 0x5f, 0x73, 0x6e, 0x69, 0x5f), 0x74), 0x6f), 0x74), 0x61), 0x6c), 0xff)
        == 0x90e1_425b_cbaa_1a31u64) by (bit_vector);
}

proof fn lemma_router_fallback_plain_http()
    ensures
        is_told(
            "sni_router_fallback_plain_http_total"@,
            "Plain HTTP connections sent to its fallback"@,
            0xe5c5_fd0d_ae1b_a772,
        ),
{
    let name = "sni_router_fallback_plain_http_total"@;
    reveal_strlit("sni_router_fallback_plain_http_total");
    reveal_strlit("Plain HTTP connections sent to its fallback");
    reveal_with_fuel(name_chars, 37);
    lemma_metric_name(name);
    let bytes = crate::instruments::metric_bytes(name);
    lemma_router_prefix(bytes);
    lemma_eight(bytes, 11);
    lemma_eight(bytes, 19);
    lemma_eight(bytes, 27);
    reveal_with_fuel(crate::instruments::fnv, 3);
    assert(mix(mix(mix8(mix8(mix8(0x8972_6ed0_fbe2_e01eu64,
        0x66, 0x61, 0x6c, 0x6c, 0x62, 0x61, 0x63, 0x6b),
        0x5f, 0x70, 0x6c, 0x61, 0x69, 0x6e, 0x5f, 0x68),
        0x74, 0x74, 0x70, 0x5f, 0x74, 0x6f, 0x74, 0x61), 0x6c), 0xff)
        == 0xe5c5_fd0d_ae1b_a772u64) by (bit_vector);
}

proof fn lemma_router_parse_errors()
    ensures
        is_told(
            "sni_router_parse_errors_total"@,
            "Rejected initial messages"@,
            0x3635_7486_0206_ebd5,
        ),
{
    let name = "sni_router_parse_errors_total"@;
    reveal_strlit("sni_router_parse_errors_total");
    reveal_strlit("Rejected initial messages");
    reveal_with_fuel(name_chars, 30);
    lemma_metric_name(name);
    let bytes = crate::instruments::metric_bytes(name);
    lemma_router_prefix(bytes);
    lemma_eight(bytes, 11);
    lemma_eight(bytes, 19);
    reveal_with_fuel(crate::instruments::fnv, 4);
    assert(mix(mix(mix(mix8(mix8(0x8972_6ed0_fbe2_e01eu64,
        0x70, 0x61, 0x72, 0x73, 0x65, 0x5f, 0x65, 0x72),
        0x72, 0x6f, 0x72, 0x73, 0x5f, 0x74, 0x6f, 0x74), 0x61), 0x6c), 0xff)
        == 0x3635_7486_0206_ebd5u64) by (bit_vector);
}

proof fn lemma_router_connect_errors()
    ensures
        is_told(
            "sni_router_connect_errors_total"@,
            "Upstream connect failures"@,
            0xd397_ed39_cf9e_a7e8,
        ),
{
    let name = "sni_router_connect_errors_total"@;
    reveal_strlit("sni_router_connect_errors_total");
    reveal_strlit("Upstream connect failures");
    reveal_with_fuel(name_chars, 32);
    lemma_metric_name(name);
    let bytes = crate::instruments::metric_bytes(name);
    lemma_router_prefix(bytes);
    lemma_eight(bytes, 11);
    lemma_eight(bytes, 19);
    reveal_with_fuel(crate::instruments::fnv, 6);
    assert(mix(mix(mix(mix(mix(mix8(mix8(0x8972_6ed0_fbe2_e01eu64,
        0x63, 0x6f, 0x6e, 0x6e, 0x65, 0x63, 0x74, 0x5f),
        0x65, 0x72, 0x72, 0x6f, 0x72, 0x73, 0x5f, 0x74), 0x6f), 0x74), 0x61), 0x6c), 0xff)
        == 0xd397_ed39_cf9e_a7e8u64) by (bit_vector);
}

proof fn lemma_router_connect_successes()
    ensures
        is_told(
            "sni_router_connect_successes_total"@,
            "Successful upstream connections"@,
            0x2264_5657_fd08_c6c6,
        ),
{
    let name = "sni_router_connect_successes_total"@;
    reveal_strlit("sni_router_connect_successes_total");
    reveal_strlit("Successful upstream connections");
    reveal_with_fuel(name_chars, 35);
    lemma_metric_name(name);
    let bytes = crate::instruments::metric_bytes(name);
    lemma_router_prefix(bytes);
    lemma_eight(bytes, 11);
    lemma_eight(bytes, 19);
    lemma_eight(bytes, 27);
    reveal_with_fuel(crate::instruments::fnv, 1);
    assert(mix8(mix8(mix8(0x8972_6ed0_fbe2_e01eu64,
        0x63, 0x6f, 0x6e, 0x6e, 0x65, 0x63, 0x74, 0x5f),
        0x73, 0x75, 0x63, 0x63, 0x65, 0x73, 0x73, 0x65),
        0x73, 0x5f, 0x74, 0x6f, 0x74, 0x61, 0x6c, 0xff)
        == 0x2264_5657_fd08_c6c6u64) by (bit_vector);
}

proof fn lemma_router_routed_connect_errors()
    ensures
        is_told(
            "sni_router_routed_connect_errors_total"@,
            "Upstream connect failures for exact-SNI routes"@,
            0xa1bd_465f_d251_d524,
        ),
{
    let name = "sni_router_routed_connect_errors_total"@;
    reveal_strlit("sni_router_routed_connect_errors_total");
    reveal_strlit("Upstream connect failures for exact-SNI routes");
    reveal_with_fuel(name_chars, 39);
    lemma_metric_name(name);
    let bytes = crate::instruments::metric_bytes(name);
    lemma_router_prefix(bytes);
    lemma_eight(bytes, 11);
    lemma_eight(bytes, 19);
    lemma_eight(bytes, 27);
    reveal_with_fuel(crate::instruments::fnv, 5);
    assert(mix(mix(mix(mix(mix8(mix8(mix8(0x8972_6ed0_fbe2_e01eu64,
        0x72, 0x6f, 0x75, 0x74, 0x65, 0x64, 0x5f, 0x63),
        0x6f, 0x6e, 0x6e, 0x65, 0x63, 0x74, 0x5f, 0x65),
        0x72, 0x72, 0x6f, 0x72, 0x73, 0x5f, 0x74, 0x6f), 0x74), 0x61), 0x6c), 0xff)
        == 0xa1bd_465f_d251_d524u64) by (bit_vector);
}

proof fn lemma_router_routed_connect_successes()
    ensures
        is_told(
            "sni_router_routed_connect_successes_total"@,
            "Successful upstream connections for exact-SNI routes"@,
            0xfeff_b6ef_b7d3_6ae2,
        ),
{
    let name = "sni_router_routed_connect_successes_total"@;
    reveal_strlit("sni_router_routed_connect_successes_total");
    reveal_strlit("Successful upstream connections for exact-SNI routes");
    reveal_with_fuel(name_chars, 42);
    lemma_metric_name(name);
    let bytes = crate::instruments::metric_bytes(name);
    lemma_router_prefix(bytes);
    lemma_eight(bytes, 11);
    lemma_eight(bytes, 19);
    lemma_eight(bytes, 27);
    reveal_with_fuel(crate::instruments::fnv, 8);
    assert(mix(mix(mix(mix(mix(mix(mix(mix8(mix8(mix8(0x8972_6ed0_fbe2_e01eu64,
        0x72, 0x6f, 0x75, 0x74, 0x65, 0x64, 0x5f, 0x63),
        0x6f, 0x6e, 0x6e, 0x65, 0x63, 0x74, 0x5f, 0x73),
        0x75, 0x63, 0x63, 0x65, 0x73, 0x73, 0x65, 0x73), 0x5f), 0x74), 0x6f), 0x74), 0x61), 0x6c), 0xff)
        == 0xfeff_b6ef_b7d3_6ae2u64) by (bit_vector);
}

proof fn lemma_router_fallback_connect_errors()
    ensures
        is_told(
            "sni_router_fallback_connect_errors_total"@,
            "Upstream connect failures for fallback routes"@,
            0x6c8f_4f55_11a8_d0b1,
        ),
{
    let name = "sni_router_fallback_connect_errors_total"@;
    reveal_strlit("sni_router_fallback_connect_errors_total");
    reveal_strlit("Upstream connect failures for fallback routes");
    reveal_with_fuel(name_chars, 41);
    lemma_metric_name(name);
    let bytes = crate::instruments::metric_bytes(name);
    lemma_router_prefix(bytes);
    lemma_eight(bytes, 11);
    lemma_eight(bytes, 19);
    lemma_eight(bytes, 27);
    reveal_with_fuel(crate::instruments::fnv, 7);
    assert(mix(mix(mix(mix(mix(mix(mix8(mix8(mix8(0x8972_6ed0_fbe2_e01eu64,
        0x66, 0x61, 0x6c, 0x6c, 0x62, 0x61, 0x63, 0x6b),
        0x5f, 0x63, 0x6f, 0x6e, 0x6e, 0x65, 0x63, 0x74),
        0x5f, 0x65, 0x72, 0x72, 0x6f, 0x72, 0x73, 0x5f), 0x74), 0x6f), 0x74), 0x61), 0x6c), 0xff)
        == 0x6c8f_4f55_11a8_d0b1u64) by (bit_vector);
}

proof fn lemma_router_fallback_connect_successes()
    ensures
        is_told(
            "sni_router_fallback_connect_successes_total"@,
            "Successful upstream connections for fallback routes"@,
            0xd9cc_3be1_65c9_424d,
        ),
{
    let name = "sni_router_fallback_connect_successes_total"@;
    reveal_strlit("sni_router_fallback_connect_successes_total");
    reveal_strlit("Successful upstream connections for fallback routes");
    reveal_with_fuel(name_chars, 44);
    lemma_metric_name(name);
    let bytes = crate::instruments::metric_bytes(name);
    lemma_router_prefix(bytes);
    lemma_eight(bytes, 11);
    lemma_eight(bytes, 19);
    lemma_eight(bytes, 27);
    lemma_eight(bytes, 35);
    reveal_with_fuel(crate::instruments::fnv, 2);
    assert(mix(mix8(mix8(mix8(mix8(0x8972_6ed0_fbe2_e01eu64,
        0x66, 0x61, 0x6c, 0x6c, 0x62, 0x61, 0x63, 0x6b),
        0x5f, 0x63, 0x6f, 0x6e, 0x6e, 0x65, 0x63, 0x74),
        0x5f, 0x73, 0x75, 0x63, 0x63, 0x65, 0x73, 0x73),
        0x65, 0x73, 0x5f, 0x74, 0x6f, 0x74, 0x61, 0x6c), 0xff)
        == 0xd9cc_3be1_65c9_424du64) by (bit_vector);
}

proof fn lemma_router_reload_success()
    ensures
        is_told(
            "sni_router_reload_success_total"@,
            "Successful SIGHUP reloads"@,
            0xeb1d_4742_e03f_382f,
        ),
{
    let name = "sni_router_reload_success_total"@;
    reveal_strlit("sni_router_reload_success_total");
    reveal_strlit("Successful SIGHUP reloads");
    reveal_with_fuel(name_chars, 32);
    lemma_metric_name(name);
    let bytes = crate::instruments::metric_bytes(name);
    lemma_router_prefix(bytes);
    lemma_eight(bytes, 11);
    lemma_eight(bytes, 19);
    reveal_with_fuel(crate::instruments::fnv, 6);
    assert(mix(mix(mix(mix(mix(mix8(mix8(0x8972_6ed0_fbe2_e01eu64,
        0x72, 0x65, 0x6c, 0x6f, 0x61, 0x64, 0x5f, 0x73),
        0x75, 0x63, 0x63, 0x65, 0x73, 0x73, 0x5f, 0x74), 0x6f), 0x74), 0x61), 0x6c), 0xff)
        == 0xeb1d_4742_e03f_382fu64) by (bit_vector);
}

proof fn lemma_router_reload_errors()
    ensures
        is_told(
            "sni_router_reload_errors_total"@,
            "Rejected SIGHUP reloads"@,
            0x093b_54c6_9f52_63bb,
        ),
{
    let name = "sni_router_reload_errors_total"@;
    reveal_strlit("sni_router_reload_errors_total");
    reveal_strlit("Rejected SIGHUP reloads");
    reveal_with_fuel(name_chars, 31);
    lemma_metric_name(name);
    let bytes = crate::instruments::metric_bytes(name);
    lemma_router_prefix(bytes);
    lemma_eight(bytes, 11);
    lemma_eight(bytes, 19);
    reveal_with_fuel(crate::instruments::fnv, 5);
    assert(mix(mix(mix(mix(mix8(mix8(0x8972_6ed0_fbe2_e01eu64,
        0x72, 0x65, 0x6c, 0x6f, 0x61, 0x64, 0x5f, 0x65),
        0x72, 0x72, 0x6f, 0x72, 0x73, 0x5f, 0x74, 0x6f), 0x74), 0x61), 0x6c), 0xff)
        == 0x093b_54c6_9f52_63bbu64) by (bit_vector);
}

proof fn lemma_router_bytes_client_to_upstream()
    ensures
        is_told(
            "sni_router_bytes_client_to_upstream_total"@,
            "Bytes relayed from clients to upstreams"@,
            0xf50f_1555_e605_d639,
        ),
{
    let name = "sni_router_bytes_client_to_upstream_total"@;
    reveal_strlit("sni_router_bytes_client_to_upstream_total");
    reveal_strlit("Bytes relayed from clients to upstreams");
    reveal_with_fuel(name_chars, 42);
    lemma_metric_name(name);
    let bytes = crate::instruments::metric_bytes(name);
    lemma_router_prefix(bytes);
    lemma_eight(bytes, 11);
    lemma_eight(bytes, 19);
    lemma_eight(bytes, 27);
    reveal_with_fuel(crate::instruments::fnv, 8);
    assert(mix(mix(mix(mix(mix(mix(mix(mix8(mix8(mix8(0x8972_6ed0_fbe2_e01eu64,
        0x62, 0x79, 0x74, 0x65, 0x73, 0x5f, 0x63, 0x6c),
        0x69, 0x65, 0x6e, 0x74, 0x5f, 0x74, 0x6f, 0x5f),
        0x75, 0x70, 0x73, 0x74, 0x72, 0x65, 0x61, 0x6d), 0x5f), 0x74), 0x6f), 0x74), 0x61), 0x6c), 0xff)
        == 0xf50f_1555_e605_d639u64) by (bit_vector);
}

proof fn lemma_router_bytes_upstream_to_client()
    ensures
        is_told(
            "sni_router_bytes_upstream_to_client_total"@,
            "Bytes relayed from upstreams to clients"@,
            0x9aac_27b9_a236_15f5,
        ),
{
    let name = "sni_router_bytes_upstream_to_client_total"@;
    reveal_strlit("sni_router_bytes_upstream_to_client_total");
    reveal_strlit("Bytes relayed from upstreams to clients");
    reveal_with_fuel(name_chars, 42);
    lemma_metric_name(name);
    let bytes = crate::instruments::metric_bytes(name);
    lemma_router_prefix(bytes);
    lemma_eight(bytes, 11);
    lemma_eight(bytes, 19);
    lemma_eight(bytes, 27);
    reveal_with_fuel(crate::instruments::fnv, 8);
    assert(mix(mix(mix(mix(mix(mix(mix(mix8(mix8(mix8(0x8972_6ed0_fbe2_e01eu64,
        0x62, 0x79, 0x74, 0x65, 0x73, 0x5f, 0x75, 0x70),
        0x73, 0x74, 0x72, 0x65, 0x61, 0x6d, 0x5f, 0x74),
        0x6f, 0x5f, 0x63, 0x6c, 0x69, 0x65, 0x6e, 0x74), 0x5f), 0x74), 0x6f), 0x74), 0x61), 0x6c), 0xff)
        == 0x9aac_27b9_a236_15f5u64) by (bit_vector);
}

proof fn lemma_router_connections_active()
    ensures
        is_told(
            "sni_router_connections_active"@,
            "Active connections"@,
            0xb498_562f_b67b_d443,
        ),
{
    let name = "sni_router_connections_active"@;
    reveal_strlit("sni_router_connections_active");
    reveal_strlit("Active connections");
    reveal_with_fuel(name_chars, 30);
    lemma_metric_name(name);
    let bytes = crate::instruments::metric_bytes(name);
    lemma_router_prefix(bytes);
    lemma_eight(bytes, 11);
    lemma_eight(bytes, 19);
    reveal_with_fuel(crate::instruments::fnv, 4);
    assert(mix(mix(mix(mix8(mix8(0x8972_6ed0_fbe2_e01eu64,
        0x63, 0x6f, 0x6e, 0x6e, 0x65, 0x63, 0x74, 0x69),
        0x6f, 0x6e, 0x73, 0x5f, 0x61, 0x63, 0x74, 0x69), 0x76), 0x65), 0xff)
        == 0xb498_562f_b67b_d443u64) by (bit_vector);
}

proof fn lemma_router_connections_active_pre_parse()
    ensures
        is_told(
            "sni_router_connections_active_pre_parse"@,
            "Connections admitted while awaiting a routing decision"@,
            0x7a3d_4e97_9e39_8d2d,
        ),
{
    let name = "sni_router_connections_active_pre_parse"@;
    reveal_strlit("sni_router_connections_active_pre_parse");
    reveal_strlit("Connections admitted while awaiting a routing decision");
    reveal_with_fuel(name_chars, 40);
    lemma_metric_name(name);
    let bytes = crate::instruments::metric_bytes(name);
    lemma_router_prefix(bytes);
    lemma_eight(bytes, 11);
    lemma_eight(bytes, 19);
    lemma_eight(bytes, 27);
    reveal_with_fuel(crate::instruments::fnv, 6);
    assert(mix(mix(mix(mix(mix(mix8(mix8(mix8(0x8972_6ed0_fbe2_e01eu64,
        0x63, 0x6f, 0x6e, 0x6e, 0x65, 0x63, 0x74, 0x69),
        0x6f, 0x6e, 0x73, 0x5f, 0x61, 0x63, 0x74, 0x69),
        0x76, 0x65, 0x5f, 0x70, 0x72, 0x65, 0x5f, 0x70), 0x61), 0x72), 0x73), 0x65), 0xff)
        == 0x7a3d_4e97_9e39_8d2du64) by (bit_vector);
}

proof fn lemma_router_connections_active_routed()
    ensures
        is_told(
            "sni_router_connections_active_routed"@,
            "Active exact-SNI routed connections"@,
            0xec8c_3462_6272_1df9,
        ),
{
    let name = "sni_router_connections_active_routed"@;
    reveal_strlit("sni_router_connections_active_routed");
    reveal_strlit("Active exact-SNI routed connections");
    reveal_with_fuel(name_chars, 37);
    lemma_metric_name(name);
    let bytes = crate::instruments::metric_bytes(name);
    lemma_router_prefix(bytes);
    lemma_eight(bytes, 11);
    lemma_eight(bytes, 19);
    lemma_eight(bytes, 27);
    reveal_with_fuel(crate::instruments::fnv, 3);
    assert(mix(mix(mix8(mix8(mix8(0x8972_6ed0_fbe2_e01eu64,
        0x63, 0x6f, 0x6e, 0x6e, 0x65, 0x63, 0x74, 0x69),
        0x6f, 0x6e, 0x73, 0x5f, 0x61, 0x63, 0x74, 0x69),
        0x76, 0x65, 0x5f, 0x72, 0x6f, 0x75, 0x74, 0x65), 0x64), 0xff)
        == 0xec8c_3462_6272_1df9u64) by (bit_vector);
}

proof fn lemma_router_connections_active_routed_established()
    ensures
        is_told(
            "sni_router_connections_active_routed_established"@,
            "Active exact-SNI connections admitted to the relay data path"@,
            0x278a_c7ca_949d_d59a,
        ),
{
    let name = "sni_router_connections_active_routed_established"@;
    reveal_strlit("sni_router_connections_active_routed_established");
    reveal_strlit("Active exact-SNI connections admitted to the relay data path");
    reveal_with_fuel(name_chars, 49);
    lemma_metric_name(name);
    let bytes = crate::instruments::metric_bytes(name);
    lemma_router_prefix(bytes);
    lemma_eight(bytes, 11);
    lemma_eight(bytes, 19);
    lemma_eight(bytes, 27);
    lemma_eight(bytes, 35);
    reveal_with_fuel(crate::instruments::fnv, 7);
    assert(mix(mix(mix(mix(mix(mix(mix8(mix8(mix8(mix8(0x8972_6ed0_fbe2_e01eu64,
        0x63, 0x6f, 0x6e, 0x6e, 0x65, 0x63, 0x74, 0x69),
        0x6f, 0x6e, 0x73, 0x5f, 0x61, 0x63, 0x74, 0x69),
        0x76, 0x65, 0x5f, 0x72, 0x6f, 0x75, 0x74, 0x65),
        0x64, 0x5f, 0x65, 0x73, 0x74, 0x61, 0x62, 0x6c), 0x69), 0x73), 0x68), 0x65), 0x64), 0xff)
        == 0x278a_c7ca_949d_d59au64) by (bit_vector);
}

proof fn lemma_router_connections_active_fallback()
    ensures
        is_told(
            "sni_router_connections_active_fallback"@,
            "Active fallback connections"@,
            0x808a_2e7b_eb3f_ceb2,
        ),
{
    let name = "sni_router_connections_active_fallback"@;
    reveal_strlit("sni_router_connections_active_fallback");
    reveal_strlit("Active fallback connections");
    reveal_with_fuel(name_chars, 39);
    lemma_metric_name(name);
    let bytes = crate::instruments::metric_bytes(name);
    lemma_router_prefix(bytes);
    lemma_eight(bytes, 11);
    lemma_eight(bytes, 19);
    lemma_eight(bytes, 27);
    reveal_with_fuel(crate::instruments::fnv, 5);
    assert(mix(mix(mix(mix(mix8(mix8(mix8(0x8972_6ed0_fbe2_e01eu64,
        0x63, 0x6f, 0x6e, 0x6e, 0x65, 0x63, 0x74, 0x69),
        0x6f, 0x6e, 0x73, 0x5f, 0x61, 0x63, 0x74, 0x69),
        0x76, 0x65, 0x5f, 0x66, 0x61, 0x6c, 0x6c, 0x62), 0x61), 0x63), 0x6b), 0xff)
        == 0x808a_2e7b_eb3f_ceb2u64) by (bit_vector);
}

proof fn lemma_router_connect_errors_by_route()
    ensures
        is_told(
            "sni_router_connect_errors_by_route_total"@,
            "Upstream connect failures by bounded route label and traffic class"@,
            0x617a_7e48_000d_ed4a,
        ),
{
    let name = "sni_router_connect_errors_by_route_total"@;
    reveal_strlit("sni_router_connect_errors_by_route_total");
    reveal_strlit("Upstream connect failures by bounded route label and traffic class");
    reveal_with_fuel(name_chars, 41);
    lemma_metric_name(name);
    let bytes = crate::instruments::metric_bytes(name);
    lemma_router_prefix(bytes);
    lemma_eight(bytes, 11);
    lemma_eight(bytes, 19);
    lemma_eight(bytes, 27);
    reveal_with_fuel(crate::instruments::fnv, 7);
    assert(mix(mix(mix(mix(mix(mix(mix8(mix8(mix8(0x8972_6ed0_fbe2_e01eu64,
        0x63, 0x6f, 0x6e, 0x6e, 0x65, 0x63, 0x74, 0x5f),
        0x65, 0x72, 0x72, 0x6f, 0x72, 0x73, 0x5f, 0x62),
        0x79, 0x5f, 0x72, 0x6f, 0x75, 0x74, 0x65, 0x5f), 0x74), 0x6f), 0x74), 0x61), 0x6c), 0xff)
        == 0x617a_7e48_000d_ed4au64) by (bit_vector);
}

/// The place of the metric with this number in the tables of the relay, with
/// the connect errors by route behind them.
spec fn router_place(id: u64) -> int {
    if id == 0x5f0c_442f_79e2_67ed {
        0
    } else if id == 0x3e0c_ef03_5538_9f96 {
        1
    } else if id == 0x4a88_45f7_2bea_4d1a {
        2
    } else if id == 0xb484_91d9_5c07_6b42 {
        3
    } else if id == 0xbf51_78d3_bc20_11c1 {
        4
    } else if id == 0x7f87_b0b5_443a_4bdf {
        5
    } else if id == 0x1296_c5b0_2927_a714 {
        6
    } else if id == 0x90e1_425b_cbaa_1a31 {
        7
    } else if id == 0xe5c5_fd0d_ae1b_a772 {
        8
    } else if id == 0x3635_7486_0206_ebd5 {
        9
    } else if id == 0xd397_ed39_cf9e_a7e8 {
        10
    } else if id == 0x2264_5657_fd08_c6c6 {
        11
    } else if id == 0xa1bd_465f_d251_d524 {
        12
    } else if id == 0xfeff_b6ef_b7d3_6ae2 {
        13
    } else if id == 0x6c8f_4f55_11a8_d0b1 {
        14
    } else if id == 0xd9cc_3be1_65c9_424d {
        15
    } else if id == 0xeb1d_4742_e03f_382f {
        16
    } else if id == 0x093b_54c6_9f52_63bb {
        17
    } else if id == 0xf50f_1555_e605_d639 {
        18
    } else if id == 0x9aac_27b9_a236_15f5 {
        19
    } else if id == 0xb498_562f_b67b_d443 {
        20
    } else if id == 0x7a3d_4e97_9e39_8d2d {
        21
    } else if id == 0xec8c_3462_6272_1df9 {
        22
    } else if id == 0x278a_c7ca_949d_d59a {
        23
    } else if id == 0x808a_2e7b_eb3f_ceb2 {
        24
    } else if id == 0x617a_7e48_000d_ed4a {
        25
    } else {
        26
    }
}

proof fn lemma_router_told(i: int)
    requires
        0 <= i < 25,
    ensures
        ({
            let metric = (crate::metrics::counters() + crate::metrics::gauges())[i];
            &&& crate::instruments::is_described(metric.name@, metric.help@)
            &&& router_place(crate::instruments::metric_id(metric.name@)) == i
        }),
{
    assert(i >= 20 ==> (crate::metrics::counters() + crate::metrics::gauges())[i]
        == crate::metrics::gauges()[i - 20]);
    assert(i < 20 ==> (crate::metrics::counters() + crate::metrics::gauges())[i]
        == crate::metrics::counters()[i]);
    if i == 0 {
        lemma_router_connections_accepted();
    } else if i == 1 {
        lemma_router_admission_rejected_pre_parse();
    } else if i == 2 {
        lemma_router_admission_rejected_routed();
    } else if i == 3 {
        lemma_router_admission_rejected_routed_source();
    } else if i == 4 {
        lemma_router_admission_rejected_fallback();
    } else if i == 5 {
        lemma_router_connections_routed();
    } else if i == 6 {
        lemma_router_fallback_unknown_sni();
    } else if i == 7 {
        lemma_router_fallback_no_sni();
    } else if i == 8 {
        lemma_router_fallback_plain_http();
    } else if i == 9 {
        lemma_router_parse_errors();
    } else if i == 10 {
        lemma_router_connect_errors();
    } else if i == 11 {
        lemma_router_connect_successes();
    } else if i == 12 {
        lemma_router_routed_connect_errors();
    } else if i == 13 {
        lemma_router_routed_connect_successes();
    } else if i == 14 {
        lemma_router_fallback_connect_errors();
    } else if i == 15 {
        lemma_router_fallback_connect_successes();
    } else if i == 16 {
        lemma_router_reload_success();
    } else if i == 17 {
        lemma_router_reload_errors();
    } else if i == 18 {
        lemma_router_bytes_client_to_upstream();
    } else if i == 19 {
        lemma_router_bytes_upstream_to_client();
    } else if i == 20 {
        lemma_router_connections_active();
    } else if i == 21 {
        lemma_router_connections_active_pre_parse();
    } else if i == 22 {
        lemma_router_connections_active_routed();
    } else if i == 23 {
        lemma_router_connections_active_routed_established();
    } else if i == 24 {
        lemma_router_connections_active_fallback();
    }
}

/// The relay's metrics have names that a registry takes, each with a number of
/// its own, so that one registry can expose them.
pub proof fn law_metrics_are_exposable()
    ensures
        crate::metrics::metrics_exposable(),
{
    let counters = crate::metrics::counters();
    let gauges = crate::metrics::gauges();
    let all = counters + gauges;
    let set = crate::instruments::at_zero(counters, gauges);
    assert forall|i: int| 0 <= i < all.len() implies crate::instruments::is_described(
        (#[trigger] all[i]).name@,
        all[i].help@,
    ) && router_place(crate::instruments::metric_id(all[i].name@)) == i by {
        lemma_router_told(i);
    }
    crate::instruments::lemma_names(counters, gauges, set);
    lemma_router_connect_errors_by_route();
    assert forall|n: Seq<char>| #[trigger] set.all_names().contains(
        n,
    ) implies crate::instruments::metric_id(n) != crate::instruments::metric_id(
        crate::metrics::connect_errors_by_route().name@,
    ) by {
        let i = choose|i: int| 0 <= i < all.len() && (#[trigger] all[i]).name@ == n;
        assert(router_place(crate::instruments::metric_id(all[i].name@)) == i);
    }
    reveal_strlit("class");
    reveal_strlit("route");
    reveal_with_fuel(name_chars, 6);
    lemma_metric_name("class"@);
    lemma_metric_name("route"@);
    assert("class"@[0] != "route"@[0]);
}

proof fn lemma_fallback_prefix(bytes: Seq<u8>)
    requires
        bytes.len() >= 13,
        bytes[0] == 0x73,
        bytes[1] == 0x6e,
        bytes[2] == 0x69,
        bytes[3] == 0x5f,
        bytes[4] == 0x66,
        bytes[5] == 0x61,
        bytes[6] == 0x6c,
        bytes[7] == 0x6c,
        bytes[8] == 0x62,
        bytes[9] == 0x61,
        bytes[10] == 0x63,
        bytes[11] == 0x6b,
        bytes[12] == 0x5f,
    ensures
        crate::instruments::fnv(bytes, 13) == 0x74db_8dcb_3b36_4803,
{
    reveal_with_fuel(crate::instruments::fnv, 14);
    assert(mix(mix(mix(mix(mix(mix8(0xcbf2_9ce4_8422_2325u64,
        0x73, 0x6e, 0x69, 0x5f, 0x66, 0x61, 0x6c, 0x6c), 0x62), 0x61), 0x63), 0x6b), 0x5f)
        == 0x74db_8dcb_3b36_4803u64) by (bit_vector);
}

proof fn lemma_fallback_connections_accepted()
    ensures
        is_told(
            "sni_fallback_connections_accepted_total"@,
            "Accepted TLS fallback connections"@,
            0xb5a2_b711_a287_6f96,
        ),
{
    let name = "sni_fallback_connections_accepted_total"@;
    reveal_strlit("sni_fallback_connections_accepted_total");
    reveal_strlit("Accepted TLS fallback connections");
    reveal_with_fuel(name_chars, 40);
    lemma_metric_name(name);
    let bytes = crate::instruments::metric_bytes(name);
    lemma_fallback_prefix(bytes);
    lemma_eight(bytes, 13);
    lemma_eight(bytes, 21);
    lemma_eight(bytes, 29);
    reveal_with_fuel(crate::instruments::fnv, 4);
    assert(mix(mix(mix(mix8(mix8(mix8(0x74db_8dcb_3b36_4803u64,
        0x63, 0x6f, 0x6e, 0x6e, 0x65, 0x63, 0x74, 0x69),
        0x6f, 0x6e, 0x73, 0x5f, 0x61, 0x63, 0x63, 0x65),
        0x70, 0x74, 0x65, 0x64, 0x5f, 0x74, 0x6f, 0x74), 0x61), 0x6c), 0xff)
        == 0xb5a2_b711_a287_6f96u64) by (bit_vector);
}

proof fn lemma_fallback_admission_rejected()
    ensures
        is_told(
            "sni_fallback_admission_rejected_total"@,
            "Connections rejected before task allocation because the admission limit was full"@,
            0x194b_8905_1a94_98b7,
        ),
{
    let name = "sni_fallback_admission_rejected_total"@;
    reveal_strlit("sni_fallback_admission_rejected_total");
    reveal_strlit("Connections rejected before task allocation because the admission limit was full");
    reveal_with_fuel(name_chars, 38);
    lemma_metric_name(name);
    let bytes = crate::instruments::metric_bytes(name);
    lemma_fallback_prefix(bytes);
    lemma_eight(bytes, 13);
    lemma_eight(bytes, 21);
    lemma_eight(bytes, 29);
    reveal_with_fuel(crate::instruments::fnv, 2);
    assert(mix(mix8(mix8(mix8(0x74db_8dcb_3b36_4803u64,
        0x61, 0x64, 0x6d, 0x69, 0x73, 0x73, 0x69, 0x6f),
        0x6e, 0x5f, 0x72, 0x65, 0x6a, 0x65, 0x63, 0x74),
        0x65, 0x64, 0x5f, 0x74, 0x6f, 0x74, 0x61, 0x6c), 0xff)
        == 0x194b_8905_1a94_98b7u64) by (bit_vector);
}

proof fn lemma_fallback_handshake_errors()
    ensures
        is_told(
            "sni_fallback_handshake_errors_total"@,
            "Failed TLS handshakes"@,
            0x6c90_d528_1a5b_9d30,
        ),
{
    let name = "sni_fallback_handshake_errors_total"@;
    reveal_strlit("sni_fallback_handshake_errors_total");
    reveal_strlit("Failed TLS handshakes");
    reveal_with_fuel(name_chars, 36);
    lemma_metric_name(name);
    let bytes = crate::instruments::metric_bytes(name);
    lemma_fallback_prefix(bytes);
    lemma_eight(bytes, 13);
    lemma_eight(bytes, 21);
    reveal_with_fuel(crate::instruments::fnv, 8);
    assert(mix(mix(mix(mix(mix(mix(mix(mix8(mix8(0x74db_8dcb_3b36_4803u64,
        0x68, 0x61, 0x6e, 0x64, 0x73, 0x68, 0x61, 0x6b),
        0x65, 0x5f, 0x65, 0x72, 0x72, 0x6f, 0x72, 0x73), 0x5f), 0x74), 0x6f), 0x74), 0x61), 0x6c), 0xff)
        == 0x6c90_d528_1a5b_9d30u64) by (bit_vector);
}

proof fn lemma_fallback_handshake_timeouts()
    ensures
        is_told(
            "sni_fallback_handshake_timeouts_total"@,
            "TLS handshakes closed after the configured deadline"@,
            0x51f6_a1f7_3c7d_cd85,
        ),
{
    let name = "sni_fallback_handshake_timeouts_total"@;
    reveal_strlit("sni_fallback_handshake_timeouts_total");
    reveal_strlit("TLS handshakes closed after the configured deadline");
    reveal_with_fuel(name_chars, 38);
    lemma_metric_name(name);
    let bytes = crate::instruments::metric_bytes(name);
    lemma_fallback_prefix(bytes);
    lemma_eight(bytes, 13);
    lemma_eight(bytes, 21);
    lemma_eight(bytes, 29);
    reveal_with_fuel(crate::instruments::fnv, 2);
    assert(mix(mix8(mix8(mix8(0x74db_8dcb_3b36_4803u64,
        0x68, 0x61, 0x6e, 0x64, 0x73, 0x68, 0x61, 0x6b),
        0x65, 0x5f, 0x74, 0x69, 0x6d, 0x65, 0x6f, 0x75),
        0x74, 0x73, 0x5f, 0x74, 0x6f, 0x74, 0x61, 0x6c), 0xff)
        == 0x51f6_a1f7_3c7d_cd85u64) by (bit_vector);
}

proof fn lemma_fallback_sni_rejected()
    ensures
        is_told(
            "sni_fallback_sni_rejected_total"@,
            "ClientHello messages rejected before key exchange due to missing or foreign SNI"@,
            0x7905_483d_16b0_8d8e,
        ),
{
    let name = "sni_fallback_sni_rejected_total"@;
    reveal_strlit("sni_fallback_sni_rejected_total");
    reveal_strlit("ClientHello messages rejected before key exchange due to missing or foreign SNI");
    reveal_with_fuel(name_chars, 32);
    lemma_metric_name(name);
    let bytes = crate::instruments::metric_bytes(name);
    lemma_fallback_prefix(bytes);
    lemma_eight(bytes, 13);
    lemma_eight(bytes, 21);
    reveal_with_fuel(crate::instruments::fnv, 4);
    assert(mix(mix(mix(mix8(mix8(0x74db_8dcb_3b36_4803u64,
        0x73, 0x6e, 0x69, 0x5f, 0x72, 0x65, 0x6a, 0x65),
        0x63, 0x74, 0x65, 0x64, 0x5f, 0x74, 0x6f, 0x74), 0x61), 0x6c), 0xff)
        == 0x7905_483d_16b0_8d8eu64) by (bit_vector);
}

proof fn lemma_fallback_backend_errors()
    ensures
        is_told(
            "sni_fallback_backend_errors_total"@,
            "Backend connection or relay failures"@,
            0x23f8_9d28_558e_3ef5,
        ),
{
    let name = "sni_fallback_backend_errors_total"@;
    reveal_strlit("sni_fallback_backend_errors_total");
    reveal_strlit("Backend connection or relay failures");
    reveal_with_fuel(name_chars, 34);
    lemma_metric_name(name);
    let bytes = crate::instruments::metric_bytes(name);
    lemma_fallback_prefix(bytes);
    lemma_eight(bytes, 13);
    lemma_eight(bytes, 21);
    reveal_with_fuel(crate::instruments::fnv, 6);
    assert(mix(mix(mix(mix(mix(mix8(mix8(0x74db_8dcb_3b36_4803u64,
        0x62, 0x61, 0x63, 0x6b, 0x65, 0x6e, 0x64, 0x5f),
        0x65, 0x72, 0x72, 0x6f, 0x72, 0x73, 0x5f, 0x74), 0x6f), 0x74), 0x61), 0x6c), 0xff)
        == 0x23f8_9d28_558e_3ef5u64) by (bit_vector);
}

proof fn lemma_fallback_backend_connect_timeouts()
    ensures
        is_told(
            "sni_fallback_backend_connect_timeouts_total"@,
            "Loopback backend connects closed after the configured deadline"@,
            0xcd5c_658c_f118_a1f1,
        ),
{
    let name = "sni_fallback_backend_connect_timeouts_total"@;
    reveal_strlit("sni_fallback_backend_connect_timeouts_total");
    reveal_strlit("Loopback backend connects closed after the configured deadline");
    reveal_with_fuel(name_chars, 44);
    lemma_metric_name(name);
    let bytes = crate::instruments::metric_bytes(name);
    lemma_fallback_prefix(bytes);
    lemma_eight(bytes, 13);
    lemma_eight(bytes, 21);
    lemma_eight(bytes, 29);
    reveal_with_fuel(crate::instruments::fnv, 8);
    assert(mix(mix(mix(mix(mix(mix(mix(mix8(mix8(mix8(0x74db_8dcb_3b36_4803u64,
        0x62, 0x61, 0x63, 0x6b, 0x65, 0x6e, 0x64, 0x5f),
        0x63, 0x6f, 0x6e, 0x6e, 0x65, 0x63, 0x74, 0x5f),
        0x74, 0x69, 0x6d, 0x65, 0x6f, 0x75, 0x74, 0x73), 0x5f), 0x74), 0x6f), 0x74), 0x61), 0x6c), 0xff)
        == 0xcd5c_658c_f118_a1f1u64) by (bit_vector);
}

proof fn lemma_fallback_certificate_reload_success()
    ensures
        is_told(
            "sni_fallback_certificate_reload_success_total"@,
            "Successful atomic SIGHUP certificate reloads"@,
            0x9f5e_97d0_33d3_c734,
        ),
{
    let name = "sni_fallback_certificate_reload_success_total"@;
    reveal_strlit("sni_fallback_certificate_reload_success_total");
    reveal_strlit("Successful atomic SIGHUP certificate reloads");
    reveal_with_fuel(name_chars, 46);
    lemma_metric_name(name);
    let bytes = crate::instruments::metric_bytes(name);
    lemma_fallback_prefix(bytes);
    lemma_eight(bytes, 13);
    lemma_eight(bytes, 21);
    lemma_eight(bytes, 29);
    lemma_eight(bytes, 37);
    reveal_with_fuel(crate::instruments::fnv, 2);
    assert(mix(mix8(mix8(mix8(mix8(0x74db_8dcb_3b36_4803u64,
        0x63, 0x65, 0x72, 0x74, 0x69, 0x66, 0x69, 0x63),
        0x61, 0x74, 0x65, 0x5f, 0x72, 0x65, 0x6c, 0x6f),
        0x61, 0x64, 0x5f, 0x73, 0x75, 0x63, 0x63, 0x65),
        0x73, 0x73, 0x5f, 0x74, 0x6f, 0x74, 0x61, 0x6c), 0xff)
        == 0x9f5e_97d0_33d3_c734u64) by (bit_vector);
}

proof fn lemma_fallback_certificate_reload_failure()
    ensures
        is_told(
            "sni_fallback_certificate_reload_failure_total"@,
            "Rejected SIGHUP certificate reloads"@,
            0x4d36_0eb5_5ce2_a0cb,
        ),
{
    let name = "sni_fallback_certificate_reload_failure_total"@;
    reveal_strlit("sni_fallback_certificate_reload_failure_total");
    reveal_strlit("Rejected SIGHUP certificate reloads");
    reveal_with_fuel(name_chars, 46);
    lemma_metric_name(name);
    let bytes = crate::instruments::metric_bytes(name);
    lemma_fallback_prefix(bytes);
    lemma_eight(bytes, 13);
    lemma_eight(bytes, 21);
    lemma_eight(bytes, 29);
    lemma_eight(bytes, 37);
    reveal_with_fuel(crate::instruments::fnv, 2);
    assert(mix(mix8(mix8(mix8(mix8(0x74db_8dcb_3b36_4803u64,
        0x63, 0x65, 0x72, 0x74, 0x69, 0x66, 0x69, 0x63),
        0x61, 0x74, 0x65, 0x5f, 0x72, 0x65, 0x6c, 0x6f),
        0x61, 0x64, 0x5f, 0x66, 0x61, 0x69, 0x6c, 0x75),
        0x72, 0x65, 0x5f, 0x74, 0x6f, 0x74, 0x61, 0x6c), 0xff)
        == 0x4d36_0eb5_5ce2_a0cbu64) by (bit_vector);
}

proof fn lemma_fallback_graceful_shutdown()
    ensures
        is_told(
            "sni_fallback_graceful_shutdown_total"@,
            "Graceful shutdowns requested"@,
            0xd991_6378_3619_b9ff,
        ),
{
    let name = "sni_fallback_graceful_shutdown_total"@;
    reveal_strlit("sni_fallback_graceful_shutdown_total");
    reveal_strlit("Graceful shutdowns requested");
    reveal_with_fuel(name_chars, 37);
    lemma_metric_name(name);
    let bytes = crate::instruments::metric_bytes(name);
    lemma_fallback_prefix(bytes);
    lemma_eight(bytes, 13);
    lemma_eight(bytes, 21);
    lemma_eight(bytes, 29);
    reveal_with_fuel(crate::instruments::fnv, 1);
    assert(mix8(mix8(mix8(0x74db_8dcb_3b36_4803u64,
        0x67, 0x72, 0x61, 0x63, 0x65, 0x66, 0x75, 0x6c),
        0x5f, 0x73, 0x68, 0x75, 0x74, 0x64, 0x6f, 0x77),
        0x6e, 0x5f, 0x74, 0x6f, 0x74, 0x61, 0x6c, 0xff)
        == 0xd991_6378_3619_b9ffu64) by (bit_vector);
}

proof fn lemma_fallback_forced_shutdown_connections()
    ensures
        is_told(
            "sni_fallback_forced_shutdown_connections_total"@,
            "Connections aborted after the drain deadline"@,
            0x2aae_34c6_9748_e34f,
        ),
{
    let name = "sni_fallback_forced_shutdown_connections_total"@;
    reveal_strlit("sni_fallback_forced_shutdown_connections_total");
    reveal_strlit("Connections aborted after the drain deadline");
    reveal_with_fuel(name_chars, 47);
    lemma_metric_name(name);
    let bytes = crate::instruments::metric_bytes(name);
    lemma_fallback_prefix(bytes);
    lemma_eight(bytes, 13);
    lemma_eight(bytes, 21);
    lemma_eight(bytes, 29);
    lemma_eight(bytes, 37);
    reveal_with_fuel(crate::instruments::fnv, 3);
    assert(mix(mix(mix8(mix8(mix8(mix8(0x74db_8dcb_3b36_4803u64,
        0x66, 0x6f, 0x72, 0x63, 0x65, 0x64, 0x5f, 0x73),
        0x68, 0x75, 0x74, 0x64, 0x6f, 0x77, 0x6e, 0x5f),
        0x63, 0x6f, 0x6e, 0x6e, 0x65, 0x63, 0x74, 0x69),
        0x6f, 0x6e, 0x73, 0x5f, 0x74, 0x6f, 0x74, 0x61), 0x6c), 0xff)
        == 0x2aae_34c6_9748_e34fu64) by (bit_vector);
}

proof fn lemma_fallback_connections_active()
    ensures
        is_told(
            "sni_fallback_connections_active"@,
            "Active TLS fallback connections"@,
            0xfe74_027b_3af7_67c8,
        ),
{
    let name = "sni_fallback_connections_active"@;
    reveal_strlit("sni_fallback_connections_active");
    reveal_strlit("Active TLS fallback connections");
    reveal_with_fuel(name_chars, 32);
    lemma_metric_name(name);
    let bytes = crate::instruments::metric_bytes(name);
    lemma_fallback_prefix(bytes);
    lemma_eight(bytes, 13);
    lemma_eight(bytes, 21);
    reveal_with_fuel(crate::instruments::fnv, 4);
    assert(mix(mix(mix(mix8(mix8(0x74db_8dcb_3b36_4803u64,
        0x63, 0x6f, 0x6e, 0x6e, 0x65, 0x63, 0x74, 0x69),
        0x6f, 0x6e, 0x73, 0x5f, 0x61, 0x63, 0x74, 0x69), 0x76), 0x65), 0xff)
        == 0xfe74_027b_3af7_67c8u64) by (bit_vector);
}

/// The place of the metric with this number in the tables of the fallback.
spec fn fallback_place(id: u64) -> int {
    if id == 0xb5a2_b711_a287_6f96 {
        0
    } else if id == 0x194b_8905_1a94_98b7 {
        1
    } else if id == 0x6c90_d528_1a5b_9d30 {
        2
    } else if id == 0x51f6_a1f7_3c7d_cd85 {
        3
    } else if id == 0x7905_483d_16b0_8d8e {
        4
    } else if id == 0x23f8_9d28_558e_3ef5 {
        5
    } else if id == 0xcd5c_658c_f118_a1f1 {
        6
    } else if id == 0x9f5e_97d0_33d3_c734 {
        7
    } else if id == 0x4d36_0eb5_5ce2_a0cb {
        8
    } else if id == 0xd991_6378_3619_b9ff {
        9
    } else if id == 0x2aae_34c6_9748_e34f {
        10
    } else if id == 0xfe74_027b_3af7_67c8 {
        11
    } else {
        12
    }
}

proof fn lemma_fallback_told(i: int)
    requires
        0 <= i < 12,
    ensures
        ({
            let metric = (crate::fallback::counters() + crate::fallback::gauges())[i];
            &&& crate::instruments::is_described(metric.name@, metric.help@)
            &&& fallback_place(crate::instruments::metric_id(metric.name@)) == i
        }),
{
    assert(i >= 11 ==> (crate::fallback::counters() + crate::fallback::gauges())[i]
        == crate::fallback::gauges()[i - 11]);
    assert(i < 11 ==> (crate::fallback::counters() + crate::fallback::gauges())[i]
        == crate::fallback::counters()[i]);
    if i == 0 {
        lemma_fallback_connections_accepted();
    } else if i == 1 {
        lemma_fallback_admission_rejected();
    } else if i == 2 {
        lemma_fallback_handshake_errors();
    } else if i == 3 {
        lemma_fallback_handshake_timeouts();
    } else if i == 4 {
        lemma_fallback_sni_rejected();
    } else if i == 5 {
        lemma_fallback_backend_errors();
    } else if i == 6 {
        lemma_fallback_backend_connect_timeouts();
    } else if i == 7 {
        lemma_fallback_certificate_reload_success();
    } else if i == 8 {
        lemma_fallback_certificate_reload_failure();
    } else if i == 9 {
        lemma_fallback_graceful_shutdown();
    } else if i == 10 {
        lemma_fallback_forced_shutdown_connections();
    } else if i == 11 {
        lemma_fallback_connections_active();
    }
}

/// The metrics of the fallback have names that a registry takes, each with a
/// number of its own, so that one registry can expose them.
pub proof fn law_fallback_metrics_are_exposable()
    ensures
        crate::instruments::exposable(crate::fallback::counters() + crate::fallback::gauges()),
{
    let all = crate::fallback::counters() + crate::fallback::gauges();
    assert forall|i: int| 0 <= i < all.len() implies crate::instruments::is_described(
        (#[trigger] all[i]).name@,
        all[i].help@,
    ) && fallback_place(crate::instruments::metric_id(all[i].name@)) == i by {
        lemma_fallback_told(i);
    }
}

} // verus!
