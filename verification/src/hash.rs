//! Hashes that cache keys are made of.
use vstd::prelude::*;
use xxhash_rust::xxh3::xxh3_64;

verus! {

/// The 64-bit XXH3 hash of some bytes.
pub uninterp spec fn xxh3(bytes: Seq<u8>) -> u64;

/// `xxh3_64` hashes bytes; the hash depends on the bytes alone.
#[verifier::external_body]
pub(crate) fn hash_bytes(bytes: &Vec<u8>) -> (r: u64)
    ensures
        r == xxh3(bytes@),
{
    xxh3_64(bytes.as_slice())
}

/// The `width` low bytes of `n`, least significant first.
pub open spec fn le_bytes(n: nat, width: nat) -> Seq<u8>
    decreases width,
{
    if width == 0 {
        Seq::empty()
    } else {
        seq![(n % 256) as u8] + le_bytes(n / 256, (width - 1) as nat)
    }
}

/// Appends the `width` low bytes of `n`, least significant first.
pub fn push_le(out: &mut Vec<u8>, n: u128, width: u32)
    ensures
        final(out)@ == old(out)@ + le_bytes(n as nat, width as nat),
    decreases width,
{
    if width > 0 {
        out.push((n % 256) as u8);
        let ghost mid = out@;
        push_le(out, n / 256, width - 1);
        assert(out@ =~= old(out)@ + le_bytes(n as nat, width as nat));
    }
}

/// The cache generation of a table: its version and the time of its last
/// commit, hashed together.
pub open spec fn generation(version: u64, timestamp_nanos: u128) -> u64 {
    xxh3(le_bytes(version as nat, 8) + le_bytes(timestamp_nanos as nat, 16))
}

/// The cache generation of a table.
pub fn generation_of(version: u64, timestamp_nanos: u128) -> (r: u64)
    ensures
        r == generation(version, timestamp_nanos),
{
    let mut bytes: Vec<u8> = Vec::new();
    push_le(&mut bytes, version as u128, 8);
    push_le(&mut bytes, timestamp_nanos, 16);
    assert(bytes@ =~= le_bytes(version as nat, 8) + le_bytes(timestamp_nanos as nat, 16));
    hash_bytes(&bytes)
}

// ------------------------------------------------------------------ laws
proof fn lemma_le_injective(a: nat, b: nat, width: nat)
    requires
        le_bytes(a, width) == le_bytes(b, width),
        a < pow256(width),
        b < pow256(width),
    ensures
        a == b,
    decreases width,
{
    if width > 0 {
        let x = le_bytes(a, width);
        let y = le_bytes(b, width);
        assert(x[0] == (a % 256) as u8);
        assert(y[0] == (b % 256) as u8);
        assert(x.drop_first() =~= le_bytes(a / 256, (width - 1) as nat));
        assert(y.drop_first() =~= le_bytes(b / 256, (width - 1) as nat));
        lemma_le_injective(a / 256, b / 256, (width - 1) as nat);
    }
}

proof fn lemma_le_len(n: nat, width: nat)
    ensures
        le_bytes(n, width).len() == width,
    decreases width,
{
    if width > 0 {
        lemma_le_len(n / 256, (width - 1) as nat);
    }
}

/// `256` to the power of `n`.
pub open spec fn pow256(n: nat) -> nat
    decreases n,
{
    if n == 0 {
        1
    } else {
        256 * pow256((n - 1) as nat)
    }
}

/// What is hashed to a generation tells every version and commit time apart: a
/// later commit, and a namespace that was deleted and written again up to the
/// same version, are hashed from other bytes.
pub proof fn law_generation_input_tells_commits_apart(
    version: u64,
    nanos: u128,
    version2: u64,
    nanos2: u128,
)
    requires
        le_bytes(version as nat, 8) + le_bytes(nanos as nat, 16) == le_bytes(version2 as nat, 8)
            + le_bytes(nanos2 as nat, 16),
    ensures
        version == version2,
        nanos == nanos2,
{
    lemma_le_len(version as nat, 8);
    lemma_le_len(version2 as nat, 8);
    let x = le_bytes(version as nat, 8) + le_bytes(nanos as nat, 16);
    let y = le_bytes(version2 as nat, 8) + le_bytes(nanos2 as nat, 16);
    assert(x.take(8) =~= le_bytes(version as nat, 8));
    assert(y.take(8) =~= le_bytes(version2 as nat, 8));
    assert(x.skip(8) =~= le_bytes(nanos as nat, 16));
    assert(y.skip(8) =~= le_bytes(nanos2 as nat, 16));
    assert(pow256(8) == 0x1_0000_0000_0000_0000) by {
        reveal_with_fuel(pow256, 9);
    }
    assert(pow256(16) == 0x1_0000_0000_0000_0000 * 0x1_0000_0000_0000_0000) by {
        reveal_with_fuel(pow256, 17);
    }
    lemma_le_injective(version as nat, version2 as nat, 8);
    lemma_le_injective(nanos as nat, nanos2 as nat, 16);
}

/// The number that some bytes write, least significant first.
pub open spec fn le_value(s: Seq<u8>) -> nat
    decreases s.len(),
{
    if s.len() == 0 {
        0
    } else {
        s[0] as nat + 256 * le_value(s.drop_first())
    }
}

proof fn lemma_le_value(n: nat, width: nat)
    requires
        n < pow256(width),
    ensures
        le_bytes(n, width).len() == width,
        le_value(le_bytes(n, width)) == n,
    decreases width,
{
    if width > 0 {
        lemma_le_value(n / 256, (width - 1) as nat);
        assert(le_bytes(n, width).drop_first() =~= le_bytes(n / 256, (width - 1) as nat));
        assert(le_bytes(n, width)[0] == (n % 256) as u8);
    }
}

/// A generation is the hash of twenty-four bytes: eight that write the version of
/// the table, and sixteen that write the time of its last commit.
pub proof fn law_generations_hash_version_and_time(version: u64, nanos: u128)
    ensures
        exists|bytes: Seq<u8>|
            generation(version, nanos) == #[trigger] xxh3(bytes) && bytes.len() == 24 && le_value(
                bytes.take(8),
            ) == version && le_value(bytes.skip(8)) == nanos,
{
    assert(pow256(8) == 0x1_0000_0000_0000_0000) by {
        reveal_with_fuel(pow256, 9);
    }
    assert(pow256(16) == 0x1_0000_0000_0000_0000 * 0x1_0000_0000_0000_0000) by {
        reveal_with_fuel(pow256, 17);
    }
    lemma_le_value(version as nat, 8);
    lemma_le_value(nanos as nat, 16);
    let bytes = le_bytes(version as nat, 8) + le_bytes(nanos as nat, 16);
    assert(bytes.take(8) =~= le_bytes(version as nat, 8));
    assert(bytes.skip(8) =~= le_bytes(nanos as nat, 16));
    assert(generation(version, nanos) == xxh3(bytes));
}

} // verus!
