//! The numbers under which the registry files the families of the service: no
//! two are the same.
use vstd::prelude::*;
use crate::prom;

verus! {

/// The number of `firnflow_cache_hits_total`.
pub proof fn lemma_cache_hits()
    requires
        prom::is_name("firnflow_cache_hits_total"@, true),
    ensures
        prom::family_id("firnflow_cache_hits_total"@) == 0x271b_2d39_2047_5612,
{
    reveal_strlit("firnflow_cache_hits_total");
    prom::lemma_family_id("firnflow_cache_hits_total"@);
    reveal_with_fuel(prom::fnv_up_to, 26);
    assert({
        let h: u64 = 0xcbf2_9ce4_8422_2325;
        let h: u64 = prom::fnv_step(h, 102u8);
        let h: u64 = prom::fnv_step(h, 105u8);
        let h: u64 = prom::fnv_step(h, 114u8);
        let h: u64 = prom::fnv_step(h, 110u8);
        let h: u64 = prom::fnv_step(h, 102u8);
        let h: u64 = prom::fnv_step(h, 108u8);
        let h: u64 = prom::fnv_step(h, 111u8);
        let h: u64 = prom::fnv_step(h, 119u8);
        let h: u64 = prom::fnv_step(h, 95u8);
        let h: u64 = prom::fnv_step(h, 99u8);
        let h: u64 = prom::fnv_step(h, 97u8);
        let h: u64 = prom::fnv_step(h, 99u8);
        let h: u64 = prom::fnv_step(h, 104u8);
        let h: u64 = prom::fnv_step(h, 101u8);
        let h: u64 = prom::fnv_step(h, 95u8);
        let h: u64 = prom::fnv_step(h, 104u8);
        let h: u64 = prom::fnv_step(h, 105u8);
        let h: u64 = prom::fnv_step(h, 116u8);
        let h: u64 = prom::fnv_step(h, 115u8);
        let h: u64 = prom::fnv_step(h, 95u8);
        let h: u64 = prom::fnv_step(h, 116u8);
        let h: u64 = prom::fnv_step(h, 111u8);
        let h: u64 = prom::fnv_step(h, 116u8);
        let h: u64 = prom::fnv_step(h, 97u8);
        let h: u64 = prom::fnv_step(h, 108u8);
        prom::fnv_step(h, 255u8) == 0x271b_2d39_2047_5612u64
    }) by (bit_vector);
    assert("firnflow_cache_hits_total"@.len() == 25);
}

/// The number of `firnflow_cache_misses_total`.
pub proof fn lemma_cache_misses()
    requires
        prom::is_name("firnflow_cache_misses_total"@, true),
    ensures
        prom::family_id("firnflow_cache_misses_total"@) == 0x6977_fcae_a3be_50a4,
{
    reveal_strlit("firnflow_cache_misses_total");
    prom::lemma_family_id("firnflow_cache_misses_total"@);
    reveal_with_fuel(prom::fnv_up_to, 28);
    assert({
        let h: u64 = 0xcbf2_9ce4_8422_2325;
        let h: u64 = prom::fnv_step(h, 102u8);
        let h: u64 = prom::fnv_step(h, 105u8);
        let h: u64 = prom::fnv_step(h, 114u8);
        let h: u64 = prom::fnv_step(h, 110u8);
        let h: u64 = prom::fnv_step(h, 102u8);
        let h: u64 = prom::fnv_step(h, 108u8);
        let h: u64 = prom::fnv_step(h, 111u8);
        let h: u64 = prom::fnv_step(h, 119u8);
        let h: u64 = prom::fnv_step(h, 95u8);
        let h: u64 = prom::fnv_step(h, 99u8);
        let h: u64 = prom::fnv_step(h, 97u8);
        let h: u64 = prom::fnv_step(h, 99u8);
        let h: u64 = prom::fnv_step(h, 104u8);
        let h: u64 = prom::fnv_step(h, 101u8);
        let h: u64 = prom::fnv_step(h, 95u8);
        let h: u64 = prom::fnv_step(h, 109u8);
        let h: u64 = prom::fnv_step(h, 105u8);
        let h: u64 = prom::fnv_step(h, 115u8);
        let h: u64 = prom::fnv_step(h, 115u8);
        let h: u64 = prom::fnv_step(h, 101u8);
        let h: u64 = prom::fnv_step(h, 115u8);
        let h: u64 = prom::fnv_step(h, 95u8);
        let h: u64 = prom::fnv_step(h, 116u8);
        let h: u64 = prom::fnv_step(h, 111u8);
        let h: u64 = prom::fnv_step(h, 116u8);
        let h: u64 = prom::fnv_step(h, 97u8);
        let h: u64 = prom::fnv_step(h, 108u8);
        prom::fnv_step(h, 255u8) == 0x6977_fcae_a3be_50a4u64
    }) by (bit_vector);
    assert("firnflow_cache_misses_total"@.len() == 27);
}

/// The number of `firnflow_semantic_cache_hits_total`.
pub proof fn lemma_semantic_cache_hits()
    requires
        prom::is_name("firnflow_semantic_cache_hits_total"@, true),
    ensures
        prom::family_id("firnflow_semantic_cache_hits_total"@) == 0x96da_a479_5d24_d9fb,
{
    reveal_strlit("firnflow_semantic_cache_hits_total");
    prom::lemma_family_id("firnflow_semantic_cache_hits_total"@);
    reveal_with_fuel(prom::fnv_up_to, 35);
    assert({
        let h: u64 = 0xcbf2_9ce4_8422_2325;
        let h: u64 = prom::fnv_step(h, 102u8);
        let h: u64 = prom::fnv_step(h, 105u8);
        let h: u64 = prom::fnv_step(h, 114u8);
        let h: u64 = prom::fnv_step(h, 110u8);
        let h: u64 = prom::fnv_step(h, 102u8);
        let h: u64 = prom::fnv_step(h, 108u8);
        let h: u64 = prom::fnv_step(h, 111u8);
        let h: u64 = prom::fnv_step(h, 119u8);
        let h: u64 = prom::fnv_step(h, 95u8);
        let h: u64 = prom::fnv_step(h, 115u8);
        let h: u64 = prom::fnv_step(h, 101u8);
        let h: u64 = prom::fnv_step(h, 109u8);
        let h: u64 = prom::fnv_step(h, 97u8);
        let h: u64 = prom::fnv_step(h, 110u8);
        let h: u64 = prom::fnv_step(h, 116u8);
        let h: u64 = prom::fnv_step(h, 105u8);
        let h: u64 = prom::fnv_step(h, 99u8);
        let h: u64 = prom::fnv_step(h, 95u8);
        let h: u64 = prom::fnv_step(h, 99u8);
        let h: u64 = prom::fnv_step(h, 97u8);
        let h: u64 = prom::fnv_step(h, 99u8);
        let h: u64 = prom::fnv_step(h, 104u8);
        let h: u64 = prom::fnv_step(h, 101u8);
        let h: u64 = prom::fnv_step(h, 95u8);
        let h: u64 = prom::fnv_step(h, 104u8);
        let h: u64 = prom::fnv_step(h, 105u8);
        let h: u64 = prom::fnv_step(h, 116u8);
        let h: u64 = prom::fnv_step(h, 115u8);
        let h: u64 = prom::fnv_step(h, 95u8);
        let h: u64 = prom::fnv_step(h, 116u8);
        let h: u64 = prom::fnv_step(h, 111u8);
        let h: u64 = prom::fnv_step(h, 116u8);
        let h: u64 = prom::fnv_step(h, 97u8);
        let h: u64 = prom::fnv_step(h, 108u8);
        prom::fnv_step(h, 255u8) == 0x96da_a479_5d24_d9fbu64
    }) by (bit_vector);
    assert("firnflow_semantic_cache_hits_total"@.len() == 34);
}

/// The number of `firnflow_semantic_cache_misses_total`.
pub proof fn lemma_semantic_cache_misses()
    requires
        prom::is_name("firnflow_semantic_cache_misses_total"@, true),
    ensures
        prom::family_id("firnflow_semantic_cache_misses_total"@) == 0x6f9d_7bec_f791_f8d5,
{
    reveal_strlit("firnflow_semantic_cache_misses_total");
    prom::lemma_family_id("firnflow_semantic_cache_misses_total"@);
    reveal_with_fuel(prom::fnv_up_to, 37);
    assert({
        let h: u64 = 0xcbf2_9ce4_8422_2325;
        let h: u64 = prom::fnv_step(h, 102u8);
        let h: u64 = prom::fnv_step(h, 105u8);
        let h: u64 = prom::fnv_step(h, 114u8);
        let h: u64 = prom::fnv_step(h, 110u8);
        let h: u64 = prom::fnv_step(h, 102u8);
        let h: u64 = prom::fnv_step(h, 108u8);
        let h: u64 = prom::fnv_step(h, 111u8);
        let h: u64 = prom::fnv_step(h, 119u8);
        let h: u64 = prom::fnv_step(h, 95u8);
        let h: u64 = prom::fnv_step(h, 115u8);
        let h: u64 = prom::fnv_step(h, 101u8);
        let h: u64 = prom::fnv_step(h, 109u8);
        let h: u64 = prom::fnv_step(h, 97u8);
        let h: u64 = prom::fnv_step(h, 110u8);
        let h: u64 = prom::fnv_step(h, 116u8);
        let h: u64 = prom::fnv_step(h, 105u8);
        let h: u64 = prom::fnv_step(h, 99u8);
        let h: u64 = prom::fnv_step(h, 95u8);
        let h: u64 = prom::fnv_step(h, 99u8);
        let h: u64 = prom::fnv_step(h, 97u8);
        let h: u64 = prom::fnv_step(h, 99u8);
        let h: u64 = prom::fnv_step(h, 104u8);
        let h: u64 = prom::fnv_step(h, 101u8);
        let h: u64 = prom::fnv_step(h, 95u8);
        let h: u64 = prom::fnv_step(h, 109u8);
        let h: u64 = prom::fnv_step(h, 105u8);
        let h: u64 = prom::fnv_step(h, 115u8);
        let h: u64 = prom::fnv_step(h, 115u8);
        let h: u64 = prom::fnv_step(h, 101u8);
        let h: u64 = prom::fnv_step(h, 115u8);
        let h: u64 = prom::fnv_step(h, 95u8);
        let h: u64 = prom::fnv_step(h, 116u8);
        let h: u64 = prom::fnv_step(h, 111u8);
        let h: u64 = prom::fnv_step(h, 116u8);
        let h: u64 = prom::fnv_step(h, 97u8);
        let h: u64 = prom::fnv_step(h, 108u8);
        prom::fnv_step(h, 255u8) == 0x6f9d_7bec_f791_f8d5u64
    }) by (bit_vector);
    assert("firnflow_semantic_cache_misses_total"@.len() == 36);
}

/// The number of `firnflow_semantic_cache_rejections_total`.
pub proof fn lemma_semantic_cache_rejections()
    requires
        prom::is_name("firnflow_semantic_cache_rejections_total"@, true),
    ensures
        prom::family_id("firnflow_semantic_cache_rejections_total"@) == 0xa6d3_3934_85a2_a159,
{
    reveal_strlit("firnflow_semantic_cache_rejections_total");
    prom::lemma_family_id("firnflow_semantic_cache_rejections_total"@);
    reveal_with_fuel(prom::fnv_up_to, 41);
    assert({
        let h: u64 = 0xcbf2_9ce4_8422_2325;
        let h: u64 = prom::fnv_step(h, 102u8);
        let h: u64 = prom::fnv_step(h, 105u8);
        let h: u64 = prom::fnv_step(h, 114u8);
        let h: u64 = prom::fnv_step(h, 110u8);
        let h: u64 = prom::fnv_step(h, 102u8);
        let h: u64 = prom::fnv_step(h, 108u8);
        let h: u64 = prom::fnv_step(h, 111u8);
        let h: u64 = prom::fnv_step(h, 119u8);
        let h: u64 = prom::fnv_step(h, 95u8);
        let h: u64 = prom::fnv_step(h, 115u8);
        let h: u64 = prom::fnv_step(h, 101u8);
        let h: u64 = prom::fnv_step(h, 109u8);
        let h: u64 = prom::fnv_step(h, 97u8);
        let h: u64 = prom::fnv_step(h, 110u8);
        let h: u64 = prom::fnv_step(h, 116u8);
        let h: u64 = prom::fnv_step(h, 105u8);
        let h: u64 = prom::fnv_step(h, 99u8);
        let h: u64 = prom::fnv_step(h, 95u8);
        let h: u64 = prom::fnv_step(h, 99u8);
        let h: u64 = prom::fnv_step(h, 97u8);
        let h: u64 = prom::fnv_step(h, 99u8);
        let h: u64 = prom::fnv_step(h, 104u8);
        let h: u64 = prom::fnv_step(h, 101u8);
        let h: u64 = prom::fnv_step(h, 95u8);
        let h: u64 = prom::fnv_step(h, 114u8);
        let h: u64 = prom::fnv_step(h, 101u8);
        let h: u64 = prom::fnv_step(h, 106u8);
        let h: u64 = prom::fnv_step(h, 101u8);
        let h: u64 = prom::fnv_step(h, 99u8);
        let h: u64 = prom::fnv_step(h, 116u8);
        let h: u64 = prom::fnv_step(h, 105u8);
        let h: u64 = prom::fnv_step(h, 111u8);
        let h: u64 = prom::fnv_step(h, 110u8);
        let h: u64 = prom::fnv_step(h, 115u8);
        let h: u64 = prom::fnv_step(h, 95u8);
        let h: u64 = prom::fnv_step(h, 116u8);
        let h: u64 = prom::fnv_step(h, 111u8);
        let h: u64 = prom::fnv_step(h, 116u8);
        let h: u64 = prom::fnv_step(h, 97u8);
        let h: u64 = prom::fnv_step(h, 108u8);
        prom::fnv_step(h, 255u8) == 0xa6d3_3934_85a2_a159u64
    }) by (bit_vector);
    assert("firnflow_semantic_cache_rejections_total"@.len() == 40);
}

/// The number of `firnflow_query_duration_seconds`.
pub proof fn lemma_query_duration()
    requires
        prom::is_name("firnflow_query_duration_seconds"@, true),
    ensures
        prom::family_id("firnflow_query_duration_seconds"@) == 0x98b4_383c_19f4_3913,
{
    reveal_strlit("firnflow_query_duration_seconds");
    prom::lemma_family_id("firnflow_query_duration_seconds"@);
    reveal_with_fuel(prom::fnv_up_to, 32);
    assert({
        let h: u64 = 0xcbf2_9ce4_8422_2325;
        let h: u64 = prom::fnv_step(h, 102u8);
        let h: u64 = prom::fnv_step(h, 105u8);
        let h: u64 = prom::fnv_step(h, 114u8);
        let h: u64 = prom::fnv_step(h, 110u8);
        let h: u64 = prom::fnv_step(h, 102u8);
        let h: u64 = prom::fnv_step(h, 108u8);
        let h: u64 = prom::fnv_step(h, 111u8);
        let h: u64 = prom::fnv_step(h, 119u8);
        let h: u64 = prom::fnv_step(h, 95u8);
        let h: u64 = prom::fnv_step(h, 113u8);
        let h: u64 = prom::fnv_step(h, 117u8);
        let h: u64 = prom::fnv_step(h, 101u8);
        let h: u64 = prom::fnv_step(h, 114u8);
        let h: u64 = prom::fnv_step(h, 121u8);
        let h: u64 = prom::fnv_step(h, 95u8);
        let h: u64 = prom::fnv_step(h, 100u8);
        let h: u64 = prom::fnv_step(h, 117u8);
        let h: u64 = prom::fnv_step(h, 114u8);
        let h: u64 = prom::fnv_step(h, 97u8);
        let h: u64 = prom::fnv_step(h, 116u8);
        let h: u64 = prom::fnv_step(h, 105u8);
        let h: u64 = prom::fnv_step(h, 111u8);
        let h: u64 = prom::fnv_step(h, 110u8);
        let h: u64 = prom::fnv_step(h, 95u8);
        let h: u64 = prom::fnv_step(h, 115u8);
        let h: u64 = prom::fnv_step(h, 101u8);
        let h: u64 = prom::fnv_step(h, 99u8);
        let h: u64 = prom::fnv_step(h, 111u8);
        let h: u64 = prom::fnv_step(h, 110u8);
        let h: u64 = prom::fnv_step(h, 100u8);
        let h: u64 = prom::fnv_step(h, 115u8);
        prom::fnv_step(h, 255u8) == 0x98b4_383c_19f4_3913u64
    }) by (bit_vector);
    assert("firnflow_query_duration_seconds"@.len() == 31);
}

/// The number of `firnflow_write_duration_seconds`.
pub proof fn lemma_write_duration()
    requires
        prom::is_name("firnflow_write_duration_seconds"@, true),
    ensures
        prom::family_id("firnflow_write_duration_seconds"@) == 0x1f9e_0acf_e725_9280,
{
    reveal_strlit("firnflow_write_duration_seconds");
    prom::lemma_family_id("firnflow_write_duration_seconds"@);
    reveal_with_fuel(prom::fnv_up_to, 32);
    assert({
        let h: u64 = 0xcbf2_9ce4_8422_2325;
        let h: u64 = prom::fnv_step(h, 102u8);
        let h: u64 = prom::fnv_step(h, 105u8);
        let h: u64 = prom::fnv_step(h, 114u8);
        let h: u64 = prom::fnv_step(h, 110u8);
        let h: u64 = prom::fnv_step(h, 102u8);
        let h: u64 = prom::fnv_step(h, 108u8);
        let h: u64 = prom::fnv_step(h, 111u8);
        let h: u64 = prom::fnv_step(h, 119u8);
        let h: u64 = prom::fnv_step(h, 95u8);
        let h: u64 = prom::fnv_step(h, 119u8);
        let h: u64 = prom::fnv_step(h, 114u8);
        let h: u64 = prom::fnv_step(h, 105u8);
        let h: u64 = prom::fnv_step(h, 116u8);
        let h: u64 = prom::fnv_step(h, 101u8);
        let h: u64 = prom::fnv_step(h, 95u8);
        let h: u64 = prom::fnv_step(h, 100u8);
        let h: u64 = prom::fnv_step(h, 117u8);
        let h: u64 = prom::fnv_step(h, 114u8);
        let h: u64 = prom::fnv_step(h, 97u8);
        let h: u64 = prom::fnv_step(h, 116u8);
        let h: u64 = prom::fnv_step(h, 105u8);
        let h: u64 = prom::fnv_step(h, 111u8);
        let h: u64 = prom::fnv_step(h, 110u8);
        let h: u64 = prom::fnv_step(h, 95u8);
        let h: u64 = prom::fnv_step(h, 115u8);
        let h: u64 = prom::fnv_step(h, 101u8);
        let h: u64 = prom::fnv_step(h, 99u8);
        let h: u64 = prom::fnv_step(h, 111u8);
        let h: u64 = prom::fnv_step(h, 110u8);
        let h: u64 = prom::fnv_step(h, 100u8);
        let h: u64 = prom::fnv_step(h, 115u8);
        prom::fnv_step(h, 255u8) == 0x1f9e_0acf_e725_9280u64
    }) by (bit_vector);
    assert("firnflow_write_duration_seconds"@.len() == 31);
}

/// The number of `firnflow_active_namespaces`.
pub proof fn lemma_active_namespaces()
    requires
        prom::is_name("firnflow_active_namespaces"@, true),
    ensures
        prom::family_id("firnflow_active_namespaces"@) == 0xec14_2b87_dc47_ee39,
{
    reveal_strlit("firnflow_active_namespaces");
    prom::lemma_family_id("firnflow_active_namespaces"@);
    reveal_with_fuel(prom::fnv_up_to, 27);
    assert({
        let h: u64 = 0xcbf2_9ce4_8422_2325;
        let h: u64 = prom::fnv_step(h, 102u8);
        let h: u64 = prom::fnv_step(h, 105u8);
        let h: u64 = prom::fnv_step(h, 114u8);
        let h: u64 = prom::fnv_step(h, 110u8);
        let h: u64 = prom::fnv_step(h, 102u8);
        let h: u64 = prom::fnv_step(h, 108u8);
        let h: u64 = prom::fnv_step(h, 111u8);
        let h: u64 = prom::fnv_step(h, 119u8);
        let h: u64 = prom::fnv_step(h, 95u8);
        let h: u64 = prom::fnv_step(h, 97u8);
        let h: u64 = prom::fnv_step(h, 99u8);
        let h: u64 = prom::fnv_step(h, 116u8);
        let h: u64 = prom::fnv_step(h, 105u8);
        let h: u64 = prom::fnv_step(h, 118u8);
        let h: u64 = prom::fnv_step(h, 101u8);
        let h: u64 = prom::fnv_step(h, 95u8);
        let h: u64 = prom::fnv_step(h, 110u8);
        let h: u64 = prom::fnv_step(h, 97u8);
        let h: u64 = prom::fnv_step(h, 109u8);
        let h: u64 = prom::fnv_step(h, 101u8);
        let h: u64 = prom::fnv_step(h, 115u8);
        let h: u64 = prom::fnv_step(h, 112u8);
        let h: u64 = prom::fnv_step(h, 97u8);
        let h: u64 = prom::fnv_step(h, 99u8);
        let h: u64 = prom::fnv_step(h, 101u8);
        let h: u64 = prom::fnv_step(h, 115u8);
        prom::fnv_step(h, 255u8) == 0xec14_2b87_dc47_ee39u64
    }) by (bit_vector);
    assert("firnflow_active_namespaces"@.len() == 26);
}

/// The number of `firnflow_s3_requests_total`.
pub proof fn lemma_s3_requests()
    requires
        prom::is_name("firnflow_s3_requests_total"@, true),
    ensures
        prom::family_id("firnflow_s3_requests_total"@) == 0x858d_0c2b_a29c_8d80,
{
    reveal_strlit("firnflow_s3_requests_total");
    prom::lemma_family_id("firnflow_s3_requests_total"@);
    reveal_with_fuel(prom::fnv_up_to, 27);
    assert({
        let h: u64 = 0xcbf2_9ce4_8422_2325;
        let h: u64 = prom::fnv_step(h, 102u8);
        let h: u64 = prom::fnv_step(h, 105u8);
        let h: u64 = prom::fnv_step(h, 114u8);
        let h: u64 = prom::fnv_step(h, 110u8);
        let h: u64 = prom::fnv_step(h, 102u8);
        let h: u64 = prom::fnv_step(h, 108u8);
        let h: u64 = prom::fnv_step(h, 111u8);
        let h: u64 = prom::fnv_step(h, 119u8);
        let h: u64 = prom::fnv_step(h, 95u8);
        let h: u64 = prom::fnv_step(h, 115u8);
        let h: u64 = prom::fnv_step(h, 51u8);
        let h: u64 = prom::fnv_step(h, 95u8);
        let h: u64 = prom::fnv_step(h, 114u8);
        let h: u64 = prom::fnv_step(h, 101u8);
        let h: u64 = prom::fnv_step(h, 113u8);
        let h: u64 = prom::fnv_step(h, 117u8);
        let h: u64 = prom::fnv_step(h, 101u8);
        let h: u64 = prom::fnv_step(h, 115u8);
        let h: u64 = prom::fnv_step(h, 116u8);
        let h: u64 = prom::fnv_step(h, 115u8);
        let h: u64 = prom::fnv_step(h, 95u8);
        let h: u64 = prom::fnv_step(h, 116u8);
        let h: u64 = prom::fnv_step(h, 111u8);
        let h: u64 = prom::fnv_step(h, 116u8);
        let h: u64 = prom::fnv_step(h, 97u8);
        let h: u64 = prom::fnv_step(h, 108u8);
        prom::fnv_step(h, 255u8) == 0x858d_0c2b_a29c_8d80u64
    }) by (bit_vector);
    assert("firnflow_s3_requests_total"@.len() == 26);
}

/// The number of `firnflow_index_build_duration_seconds`.
pub proof fn lemma_index_build_duration()
    requires
        prom::is_name("firnflow_index_build_duration_seconds"@, true),
    ensures
        prom::family_id("firnflow_index_build_duration_seconds"@) == 0xa969_e333_364b_0410,
{
    reveal_strlit("firnflow_index_build_duration_seconds");
    prom::lemma_family_id("firnflow_index_build_duration_seconds"@);
    reveal_with_fuel(prom::fnv_up_to, 38);
    assert({
        let h: u64 = 0xcbf2_9ce4_8422_2325;
        let h: u64 = prom::fnv_step(h, 102u8);
        let h: u64 = prom::fnv_step(h, 105u8);
        let h: u64 = prom::fnv_step(h, 114u8);
        let h: u64 = prom::fnv_step(h, 110u8);
        let h: u64 = prom::fnv_step(h, 102u8);
        let h: u64 = prom::fnv_step(h, 108u8);
        let h: u64 = prom::fnv_step(h, 111u8);
        let h: u64 = prom::fnv_step(h, 119u8);
        let h: u64 = prom::fnv_step(h, 95u8);
        let h: u64 = prom::fnv_step(h, 105u8);
        let h: u64 = prom::fnv_step(h, 110u8);
        let h: u64 = prom::fnv_step(h, 100u8);
        let h: u64 = prom::fnv_step(h, 101u8);
        let h: u64 = prom::fnv_step(h, 120u8);
        let h: u64 = prom::fnv_step(h, 95u8);
        let h: u64 = prom::fnv_step(h, 98u8);
        let h: u64 = prom::fnv_step(h, 117u8);
        let h: u64 = prom::fnv_step(h, 105u8);
        let h: u64 = prom::fnv_step(h, 108u8);
        let h: u64 = prom::fnv_step(h, 100u8);
        let h: u64 = prom::fnv_step(h, 95u8);
        let h: u64 = prom::fnv_step(h, 100u8);
        let h: u64 = prom::fnv_step(h, 117u8);
        let h: u64 = prom::fnv_step(h, 114u8);
        let h: u64 = prom::fnv_step(h, 97u8);
        let h: u64 = prom::fnv_step(h, 116u8);
        let h: u64 = prom::fnv_step(h, 105u8);
        let h: u64 = prom::fnv_step(h, 111u8);
        let h: u64 = prom::fnv_step(h, 110u8);
        let h: u64 = prom::fnv_step(h, 95u8);
        let h: u64 = prom::fnv_step(h, 115u8);
        let h: u64 = prom::fnv_step(h, 101u8);
        let h: u64 = prom::fnv_step(h, 99u8);
        let h: u64 = prom::fnv_step(h, 111u8);
        let h: u64 = prom::fnv_step(h, 110u8);
        let h: u64 = prom::fnv_step(h, 100u8);
        let h: u64 = prom::fnv_step(h, 115u8);
        prom::fnv_step(h, 255u8) == 0xa969_e333_364b_0410u64
    }) by (bit_vector);
    assert("firnflow_index_build_duration_seconds"@.len() == 37);
}

/// The number of `firnflow_compaction_duration_seconds`.
pub proof fn lemma_compaction_duration()
    requires
        prom::is_name("firnflow_compaction_duration_seconds"@, true),
    ensures
        prom::family_id("firnflow_compaction_duration_seconds"@) == 0x6baa_c79a_bab1_85dc,
{
    reveal_strlit("firnflow_compaction_duration_seconds");
    prom::lemma_family_id("firnflow_compaction_duration_seconds"@);
    reveal_with_fuel(prom::fnv_up_to, 37);
    assert({
        let h: u64 = 0xcbf2_9ce4_8422_2325;
        let h: u64 = prom::fnv_step(h, 102u8);
        let h: u64 = prom::fnv_step(h, 105u8);
        let h: u64 = prom::fnv_step(h, 114u8);
        let h: u64 = prom::fnv_step(h, 110u8);
        let h: u64 = prom::fnv_step(h, 102u8);
        let h: u64 = prom::fnv_step(h, 108u8);
        let h: u64 = prom::fnv_step(h, 111u8);
        let h: u64 = prom::fnv_step(h, 119u8);
        let h: u64 = prom::fnv_step(h, 95u8);
        let h: u64 = prom::fnv_step(h, 99u8);
        let h: u64 = prom::fnv_step(h, 111u8);
        let h: u64 = prom::fnv_step(h, 109u8);
        let h: u64 = prom::fnv_step(h, 112u8);
        let h: u64 = prom::fnv_step(h, 97u8);
        let h: u64 = prom::fnv_step(h, 99u8);
        let h: u64 = prom::fnv_step(h, 116u8);
        let h: u64 = prom::fnv_step(h, 105u8);
        let h: u64 = prom::fnv_step(h, 111u8);
        let h: u64 = prom::fnv_step(h, 110u8);
        let h: u64 = prom::fnv_step(h, 95u8);
        let h: u64 = prom::fnv_step(h, 100u8);
        let h: u64 = prom::fnv_step(h, 117u8);
        let h: u64 = prom::fnv_step(h, 114u8);
        let h: u64 = prom::fnv_step(h, 97u8);
        let h: u64 = prom::fnv_step(h, 116u8);
        let h: u64 = prom::fnv_step(h, 105u8);
        let h: u64 = prom::fnv_step(h, 111u8);
        let h: u64 = prom::fnv_step(h, 110u8);
        let h: u64 = prom::fnv_step(h, 95u8);
        let h: u64 = prom::fnv_step(h, 115u8);
        let h: u64 = prom::fnv_step(h, 101u8);
        let h: u64 = prom::fnv_step(h, 99u8);
        let h: u64 = prom::fnv_step(h, 111u8);
        let h: u64 = prom::fnv_step(h, 110u8);
        let h: u64 = prom::fnv_step(h, 100u8);
        let h: u64 = prom::fnv_step(h, 115u8);
        prom::fnv_step(h, 255u8) == 0x6baa_c79a_bab1_85dcu64
    }) by (bit_vector);
    assert("firnflow_compaction_duration_seconds"@.len() == 36);
}

/// The number of `firnflow_cached_handles`.
pub proof fn lemma_cached_handles()
    requires
        prom::is_name("firnflow_cached_handles"@, true),
    ensures
        prom::family_id("firnflow_cached_handles"@) == 0xc88d_8016_a560_3f04,
{
    reveal_strlit("firnflow_cached_handles");
    prom::lemma_family_id("firnflow_cached_handles"@);
    reveal_with_fuel(prom::fnv_up_to, 24);
    assert({
        let h: u64 = 0xcbf2_9ce4_8422_2325;
        let h: u64 = prom::fnv_step(h, 102u8);
        let h: u64 = prom::fnv_step(h, 105u8);
        let h: u64 = prom::fnv_step(h, 114u8);
        let h: u64 = prom::fnv_step(h, 110u8);
        let h: u64 = prom::fnv_step(h, 102u8);
        let h: u64 = prom::fnv_step(h, 108u8);
        let h: u64 = prom::fnv_step(h, 111u8);
        let h: u64 = prom::fnv_step(h, 119u8);
        let h: u64 = prom::fnv_step(h, 95u8);
        let h: u64 = prom::fnv_step(h, 99u8);
        let h: u64 = prom::fnv_step(h, 97u8);
        let h: u64 = prom::fnv_step(h, 99u8);
        let h: u64 = prom::fnv_step(h, 104u8);
        let h: u64 = prom::fnv_step(h, 101u8);
        let h: u64 = prom::fnv_step(h, 100u8);
        let h: u64 = prom::fnv_step(h, 95u8);
        let h: u64 = prom::fnv_step(h, 104u8);
        let h: u64 = prom::fnv_step(h, 97u8);
        let h: u64 = prom::fnv_step(h, 110u8);
        let h: u64 = prom::fnv_step(h, 100u8);
        let h: u64 = prom::fnv_step(h, 108u8);
        let h: u64 = prom::fnv_step(h, 101u8);
        let h: u64 = prom::fnv_step(h, 115u8);
        prom::fnv_step(h, 255u8) == 0xc88d_8016_a560_3f04u64
    }) by (bit_vector);
    assert("firnflow_cached_handles"@.len() == 23);
}

/// The number of `firnflow_auth_rejections_total`.
pub proof fn lemma_auth_rejections()
    requires
        prom::is_name("firnflow_auth_rejections_total"@, true),
    ensures
        prom::family_id("firnflow_auth_rejections_total"@) == 0x9f97_ad1b_a276_ceea,
{
    reveal_strlit("firnflow_auth_rejections_total");
    prom::lemma_family_id("firnflow_auth_rejections_total"@);
    reveal_with_fuel(prom::fnv_up_to, 31);
    assert({
        let h: u64 = 0xcbf2_9ce4_8422_2325;
        let h: u64 = prom::fnv_step(h, 102u8);
        let h: u64 = prom::fnv_step(h, 105u8);
        let h: u64 = prom::fnv_step(h, 114u8);
        let h: u64 = prom::fnv_step(h, 110u8);
        let h: u64 = prom::fnv_step(h, 102u8);
        let h: u64 = prom::fnv_step(h, 108u8);
        let h: u64 = prom::fnv_step(h, 111u8);
        let h: u64 = prom::fnv_step(h, 119u8);
        let h: u64 = prom::fnv_step(h, 95u8);
        let h: u64 = prom::fnv_step(h, 97u8);
        let h: u64 = prom::fnv_step(h, 117u8);
        let h: u64 = prom::fnv_step(h, 116u8);
        let h: u64 = prom::fnv_step(h, 104u8);
        let h: u64 = prom::fnv_step(h, 95u8);
        let h: u64 = prom::fnv_step(h, 114u8);
        let h: u64 = prom::fnv_step(h, 101u8);
        let h: u64 = prom::fnv_step(h, 106u8);
        let h: u64 = prom::fnv_step(h, 101u8);
        let h: u64 = prom::fnv_step(h, 99u8);
        let h: u64 = prom::fnv_step(h, 116u8);
        let h: u64 = prom::fnv_step(h, 105u8);
        let h: u64 = prom::fnv_step(h, 111u8);
        let h: u64 = prom::fnv_step(h, 110u8);
        let h: u64 = prom::fnv_step(h, 115u8);
        let h: u64 = prom::fnv_step(h, 95u8);
        let h: u64 = prom::fnv_step(h, 116u8);
        let h: u64 = prom::fnv_step(h, 111u8);
        let h: u64 = prom::fnv_step(h, 116u8);
        let h: u64 = prom::fnv_step(h, 97u8);
        let h: u64 = prom::fnv_step(h, 108u8);
        prom::fnv_step(h, 255u8) == 0x9f97_ad1b_a276_ceeau64
    }) by (bit_vector);
    assert("firnflow_auth_rejections_total"@.len() == 30);
}

/// The number of `firnflow_object_cache_hits_total`.
pub proof fn lemma_object_hits()
    requires
        prom::is_name("firnflow_object_cache_hits_total"@, true),
    ensures
        prom::family_id("firnflow_object_cache_hits_total"@) == 0x88df_cff5_9279_0adc,
{
    reveal_strlit("firnflow_object_cache_hits_total");
    prom::lemma_family_id("firnflow_object_cache_hits_total"@);
    reveal_with_fuel(prom::fnv_up_to, 33);
    assert({
        let h: u64 = 0xcbf2_9ce4_8422_2325;
        let h: u64 = prom::fnv_step(h, 102u8);
        let h: u64 = prom::fnv_step(h, 105u8);
        let h: u64 = prom::fnv_step(h, 114u8);
        let h: u64 = prom::fnv_step(h, 110u8);
        let h: u64 = prom::fnv_step(h, 102u8);
        let h: u64 = prom::fnv_step(h, 108u8);
        let h: u64 = prom::fnv_step(h, 111u8);
        let h: u64 = prom::fnv_step(h, 119u8);
        let h: u64 = prom::fnv_step(h, 95u8);
        let h: u64 = prom::fnv_step(h, 111u8);
        let h: u64 = prom::fnv_step(h, 98u8);
        let h: u64 = prom::fnv_step(h, 106u8);
        let h: u64 = prom::fnv_step(h, 101u8);
        let h: u64 = prom::fnv_step(h, 99u8);
        let h: u64 = prom::fnv_step(h, 116u8);
        let h: u64 = prom::fnv_step(h, 95u8);
        let h: u64 = prom::fnv_step(h, 99u8);
        let h: u64 = prom::fnv_step(h, 97u8);
        let h: u64 = prom::fnv_step(h, 99u8);
        let h: u64 = prom::fnv_step(h, 104u8);
        let h: u64 = prom::fnv_step(h, 101u8);
        let h: u64 = prom::fnv_step(h, 95u8);
        let h: u64 = prom::fnv_step(h, 104u8);
        let h: u64 = prom::fnv_step(h, 105u8);
        let h: u64 = prom::fnv_step(h, 116u8);
        let h: u64 = prom::fnv_step(h, 115u8);
        let h: u64 = prom::fnv_step(h, 95u8);
        let h: u64 = prom::fnv_step(h, 116u8);
        let h: u64 = prom::fnv_step(h, 111u8);
        let h: u64 = prom::fnv_step(h, 116u8);
        let h: u64 = prom::fnv_step(h, 97u8);
        let h: u64 = prom::fnv_step(h, 108u8);
        prom::fnv_step(h, 255u8) == 0x88df_cff5_9279_0adcu64
    }) by (bit_vector);
    assert("firnflow_object_cache_hits_total"@.len() == 32);
}

/// The number of `firnflow_object_cache_misses_total`.
pub proof fn lemma_object_misses()
    requires
        prom::is_name("firnflow_object_cache_misses_total"@, true),
    ensures
        prom::family_id("firnflow_object_cache_misses_total"@) == 0xa7c8_0918_209f_7126,
{
    reveal_strlit("firnflow_object_cache_misses_total");
    prom::lemma_family_id("firnflow_object_cache_misses_total"@);
    reveal_with_fuel(prom::fnv_up_to, 35);
    assert({
        let h: u64 = 0xcbf2_9ce4_8422_2325;
        let h: u64 = prom::fnv_step(h, 102u8);
        let h: u64 = prom::fnv_step(h, 105u8);
        let h: u64 = prom::fnv_step(h, 114u8);
        let h: u64 = prom::fnv_step(h, 110u8);
        let h: u64 = prom::fnv_step(h, 102u8);
        let h: u64 = prom::fnv_step(h, 108u8);
        let h: u64 = prom::fnv_step(h, 111u8);
        let h: u64 = prom::fnv_step(h, 119u8);
        let h: u64 = prom::fnv_step(h, 95u8);
        let h: u64 = prom::fnv_step(h, 111u8);
        let h: u64 = prom::fnv_step(h, 98u8);
        let h: u64 = prom::fnv_step(h, 106u8);
        let h: u64 = prom::fnv_step(h, 101u8);
        let h: u64 = prom::fnv_step(h, 99u8);
        let h: u64 = prom::fnv_step(h, 116u8);
        let h: u64 = prom::fnv_step(h, 95u8);
        let h: u64 = prom::fnv_step(h, 99u8);
        let h: u64 = prom::fnv_step(h, 97u8);
        let h: u64 = prom::fnv_step(h, 99u8);
        let h: u64 = prom::fnv_step(h, 104u8);
        let h: u64 = prom::fnv_step(h, 101u8);
        let h: u64 = prom::fnv_step(h, 95u8);
        let h: u64 = prom::fnv_step(h, 109u8);
        let h: u64 = prom::fnv_step(h, 105u8);
        let h: u64 = prom::fnv_step(h, 115u8);
        let h: u64 = prom::fnv_step(h, 115u8);
        let h: u64 = prom::fnv_step(h, 101u8);
        let h: u64 = prom::fnv_step(h, 115u8);
        let h: u64 = prom::fnv_step(h, 95u8);
        let h: u64 = prom::fnv_step(h, 116u8);
        let h: u64 = prom::fnv_step(h, 111u8);
        let h: u64 = prom::fnv_step(h, 116u8);
        let h: u64 = prom::fnv_step(h, 97u8);
        let h: u64 = prom::fnv_step(h, 108u8);
        prom::fnv_step(h, 255u8) == 0xa7c8_0918_209f_7126u64
    }) by (bit_vector);
    assert("firnflow_object_cache_misses_total"@.len() == 34);
}

/// The number of `firnflow_object_cache_inner_gets_total`.
pub proof fn lemma_object_inner_gets()
    requires
        prom::is_name("firnflow_object_cache_inner_gets_total"@, true),
    ensures
        prom::family_id("firnflow_object_cache_inner_gets_total"@) == 0xc994_c7d2_c33c_a436,
{
    reveal_strlit("firnflow_object_cache_inner_gets_total");
    prom::lemma_family_id("firnflow_object_cache_inner_gets_total"@);
    reveal_with_fuel(prom::fnv_up_to, 39);
    assert({
        let h: u64 = 0xcbf2_9ce4_8422_2325;
        let h: u64 = prom::fnv_step(h, 102u8);
        let h: u64 = prom::fnv_step(h, 105u8);
        let h: u64 = prom::fnv_step(h, 114u8);
        let h: u64 = prom::fnv_step(h, 110u8);
        let h: u64 = prom::fnv_step(h, 102u8);
        let h: u64 = prom::fnv_step(h, 108u8);
        let h: u64 = prom::fnv_step(h, 111u8);
        let h: u64 = prom::fnv_step(h, 119u8);
        let h: u64 = prom::fnv_step(h, 95u8);
        let h: u64 = prom::fnv_step(h, 111u8);
        let h: u64 = prom::fnv_step(h, 98u8);
        let h: u64 = prom::fnv_step(h, 106u8);
        let h: u64 = prom::fnv_step(h, 101u8);
        let h: u64 = prom::fnv_step(h, 99u8);
        let h: u64 = prom::fnv_step(h, 116u8);
        let h: u64 = prom::fnv_step(h, 95u8);
        let h: u64 = prom::fnv_step(h, 99u8);
        let h: u64 = prom::fnv_step(h, 97u8);
        let h: u64 = prom::fnv_step(h, 99u8);
        let h: u64 = prom::fnv_step(h, 104u8);
        let h: u64 = prom::fnv_step(h, 101u8);
        let h: u64 = prom::fnv_step(h, 95u8);
        let h: u64 = prom::fnv_step(h, 105u8);
        let h: u64 = prom::fnv_step(h, 110u8);
        let h: u64 = prom::fnv_step(h, 110u8);
        let h: u64 = prom::fnv_step(h, 101u8);
        let h: u64 = prom::fnv_step(h, 114u8);
        let h: u64 = prom::fnv_step(h, 95u8);
        let h: u64 = prom::fnv_step(h, 103u8);
        let h: u64 = prom::fnv_step(h, 101u8);
        let h: u64 = prom::fnv_step(h, 116u8);
        let h: u64 = prom::fnv_step(h, 115u8);
        let h: u64 = prom::fnv_step(h, 95u8);
        let h: u64 = prom::fnv_step(h, 116u8);
        let h: u64 = prom::fnv_step(h, 111u8);
        let h: u64 = prom::fnv_step(h, 116u8);
        let h: u64 = prom::fnv_step(h, 97u8);
        let h: u64 = prom::fnv_step(h, 108u8);
        prom::fnv_step(h, 255u8) == 0xc994_c7d2_c33c_a436u64
    }) by (bit_vector);
    assert("firnflow_object_cache_inner_gets_total"@.len() == 38);
}

/// The number of `firnflow_object_cache_s3_bytes_total`.
pub proof fn lemma_object_s3_bytes()
    requires
        prom::is_name("firnflow_object_cache_s3_bytes_total"@, true),
    ensures
        prom::family_id("firnflow_object_cache_s3_bytes_total"@) == 0x4a56_39fa_e891_0a98,
{
    reveal_strlit("firnflow_object_cache_s3_bytes_total");
    prom::lemma_family_id("firnflow_object_cache_s3_bytes_total"@);
    reveal_with_fuel(prom::fnv_up_to, 37);
    assert({
        let h: u64 = 0xcbf2_9ce4_8422_2325;
        let h: u64 = prom::fnv_step(h, 102u8);
        let h: u64 = prom::fnv_step(h, 105u8);
        let h: u64 = prom::fnv_step(h, 114u8);
        let h: u64 = prom::fnv_step(h, 110u8);
        let h: u64 = prom::fnv_step(h, 102u8);
        let h: u64 = prom::fnv_step(h, 108u8);
        let h: u64 = prom::fnv_step(h, 111u8);
        let h: u64 = prom::fnv_step(h, 119u8);
        let h: u64 = prom::fnv_step(h, 95u8);
        let h: u64 = prom::fnv_step(h, 111u8);
        let h: u64 = prom::fnv_step(h, 98u8);
        let h: u64 = prom::fnv_step(h, 106u8);
        let h: u64 = prom::fnv_step(h, 101u8);
        let h: u64 = prom::fnv_step(h, 99u8);
        let h: u64 = prom::fnv_step(h, 116u8);
        let h: u64 = prom::fnv_step(h, 95u8);
        let h: u64 = prom::fnv_step(h, 99u8);
        let h: u64 = prom::fnv_step(h, 97u8);
        let h: u64 = prom::fnv_step(h, 99u8);
        let h: u64 = prom::fnv_step(h, 104u8);
        let h: u64 = prom::fnv_step(h, 101u8);
        let h: u64 = prom::fnv_step(h, 95u8);
        let h: u64 = prom::fnv_step(h, 115u8);
        let h: u64 = prom::fnv_step(h, 51u8);
        let h: u64 = prom::fnv_step(h, 95u8);
        let h: u64 = prom::fnv_step(h, 98u8);
        let h: u64 = prom::fnv_step(h, 121u8);
        let h: u64 = prom::fnv_step(h, 116u8);
        let h: u64 = prom::fnv_step(h, 101u8);
        let h: u64 = prom::fnv_step(h, 115u8);
        let h: u64 = prom::fnv_step(h, 95u8);
        let h: u64 = prom::fnv_step(h, 116u8);
        let h: u64 = prom::fnv_step(h, 111u8);
        let h: u64 = prom::fnv_step(h, 116u8);
        let h: u64 = prom::fnv_step(h, 97u8);
        let h: u64 = prom::fnv_step(h, 108u8);
        prom::fnv_step(h, 255u8) == 0x4a56_39fa_e891_0a98u64
    }) by (bit_vector);
    assert("firnflow_object_cache_s3_bytes_total"@.len() == 36);
}

/// The number of `firnflow_object_cache_evictions_total`.
pub proof fn lemma_object_evictions()
    requires
        prom::is_name("firnflow_object_cache_evictions_total"@, true),
    ensures
        prom::family_id("firnflow_object_cache_evictions_total"@) == 0xb8ae_4973_b771_b5b0,
{
    reveal_strlit("firnflow_object_cache_evictions_total");
    prom::lemma_family_id("firnflow_object_cache_evictions_total"@);
    reveal_with_fuel(prom::fnv_up_to, 38);
    assert({
        let h: u64 = 0xcbf2_9ce4_8422_2325;
        let h: u64 = prom::fnv_step(h, 102u8);
        let h: u64 = prom::fnv_step(h, 105u8);
        let h: u64 = prom::fnv_step(h, 114u8);
        let h: u64 = prom::fnv_step(h, 110u8);
        let h: u64 = prom::fnv_step(h, 102u8);
        let h: u64 = prom::fnv_step(h, 108u8);
        let h: u64 = prom::fnv_step(h, 111u8);
        let h: u64 = prom::fnv_step(h, 119u8);
        let h: u64 = prom::fnv_step(h, 95u8);
        let h: u64 = prom::fnv_step(h, 111u8);
        let h: u64 = prom::fnv_step(h, 98u8);
        let h: u64 = prom::fnv_step(h, 106u8);
        let h: u64 = prom::fnv_step(h, 101u8);
        let h: u64 = prom::fnv_step(h, 99u8);
        let h: u64 = prom::fnv_step(h, 116u8);
        let h: u64 = prom::fnv_step(h, 95u8);
        let h: u64 = prom::fnv_step(h, 99u8);
        let h: u64 = prom::fnv_step(h, 97u8);
        let h: u64 = prom::fnv_step(h, 99u8);
        let h: u64 = prom::fnv_step(h, 104u8);
        let h: u64 = prom::fnv_step(h, 101u8);
        let h: u64 = prom::fnv_step(h, 95u8);
        let h: u64 = prom::fnv_step(h, 101u8);
        let h: u64 = prom::fnv_step(h, 118u8);
        let h: u64 = prom::fnv_step(h, 105u8);
        let h: u64 = prom::fnv_step(h, 99u8);
        let h: u64 = prom::fnv_step(h, 116u8);
        let h: u64 = prom::fnv_step(h, 105u8);
        let h: u64 = prom::fnv_step(h, 111u8);
        let h: u64 = prom::fnv_step(h, 110u8);
        let h: u64 = prom::fnv_step(h, 115u8);
        let h: u64 = prom::fnv_step(h, 95u8);
        let h: u64 = prom::fnv_step(h, 116u8);
        let h: u64 = prom::fnv_step(h, 111u8);
        let h: u64 = prom::fnv_step(h, 116u8);
        let h: u64 = prom::fnv_step(h, 97u8);
        let h: u64 = prom::fnv_step(h, 108u8);
        prom::fnv_step(h, 255u8) == 0xb8ae_4973_b771_b5b0u64
    }) by (bit_vector);
    assert("firnflow_object_cache_evictions_total"@.len() == 37);
}

} // verus!
