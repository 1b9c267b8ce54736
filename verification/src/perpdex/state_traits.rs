//! State locations and values shared by every VM of the parallel executor.
//!
//! A 64-bit location hash keeps the partition of its VM in its high 8 bits and
//! a base hash of the location in its low 56 bits, so that locations of two
//! partitions never share a hash.
use vstd::prelude::*;

verus! {

/// `2^56`: the weight of the partition byte in a location hash.
pub open spec fn partition_shift() -> nat {
    0x100_0000_0000_0000
}

/// The hash that carries `partition` in its high 8 bits and the low 56 bits
/// of `base`.
pub open spec fn spec_mix_hash(partition: u8, base: u64) -> nat {
    partition as nat * partition_shift() + base as nat % partition_shift()
}

/// VM partition identifier.
#[derive(Clone, Copy, Debug, PartialEq, Eq, Structural, Hash, PartialOrd, Ord)]
pub struct PartitionId(pub u8);

impl PartitionId {
    /// The partition that the high 8 bits of a hash name.
    pub open spec fn spec_from_hash(mixed_hash: u64) -> PartitionId {
        PartitionId((mixed_hash as nat / partition_shift()) as u8)
    }

    /// EVM partition (Ethereum Virtual Machine).
    pub fn evm() -> (r: PartitionId)
        ensures
            r.0 == 0,
    {
        PartitionId(0)
    }

    /// WASM partition (WebAssembly).
    pub fn wasm() -> (r: PartitionId)
        ensures
            r.0 == 1,
    {
        PartitionId(1)
    }

    /// PerpDex partition (perpetual DEX orderbook).
    pub fn perpdex() -> (r: PartitionId)
        ensures
            r.0 == 2,
    {
        PartitionId(2)
    }

    /// Mixes the partition into the high 8 bits of `base_hash`, keeping its
    /// low 56 bits.
    pub fn mix_hash(&self, base_hash: u64) -> (r: u64)
        ensures
            r as nat == spec_mix_hash(self.0, base_hash),
            r as nat / partition_shift() == self.0 as nat,
            r as nat % partition_shift() == base_hash as nat % partition_shift(),
    {
        let p: u64 = self.0 as u64;
        let r = (p << 56u64) | (base_hash & 0x00FF_FFFF_FFFF_FFFFu64);
        assert(r == p * 0x100_0000_0000_0000u64 + base_hash % 0x100_0000_0000_0000u64) by (bit_vector)
            requires
                r == (p << 56u64) | (base_hash & 0x00FF_FFFF_FFFF_FFFFu64),
                p < 256,
        ;
        proof {
            lemma_mix_parts(self.0, base_hash);
        }
        r
    }

    /// The partition named by the high 8 bits of a hash.
    pub fn from_hash(mixed_hash: u64) -> (r: PartitionId)
        ensures
            r == PartitionId::spec_from_hash(mixed_hash),
            r.0 as nat == mixed_hash as nat / partition_shift(),
    {
        let h = mixed_hash >> 56u64;
        assert(h == mixed_hash / 0x100_0000_0000_0000u64 && h < 256) by (bit_vector)
            requires
                h == mixed_hash >> 56u64,
        ;
        PartitionId(h as u8)
    }
}

proof fn lemma_mix_parts(p: u8, base: u64)
    ensures
        spec_mix_hash(p, base) / partition_shift() == p as nat,
        spec_mix_hash(p, base) % partition_shift() == base as nat % partition_shift(),
{
    let m = base as nat % partition_shift();
    vstd::arithmetic::div_mod::lemma_fundamental_div_mod_converse(
        spec_mix_hash(p, base) as int,
        partition_shift() as int,
        p as int,
        m as int,
    );
}

/// `from_hash` undoes `mix_hash`: the partition mixed into a hash is the one
/// read back from it.
pub proof fn law_from_hash_inverts_mix_hash(partition: PartitionId, base_hash: u64)
    ensures
        spec_mix_hash(partition.0, base_hash) < 0x1_0000_0000_0000_0000,
        PartitionId::spec_from_hash(spec_mix_hash(partition.0, base_hash) as u64) == partition,
{
    lemma_mix_parts(partition.0, base_hash);
}

/// Hashes mixed with two different partitions never collide, whatever the
/// base hashes.
pub proof fn law_partitions_never_collide(p: PartitionId, q: PartitionId, base_p: u64, base_q: u64)
    requires
        p != q,
    ensures
        spec_mix_hash(p.0, base_p) != spec_mix_hash(q.0, base_q),
{
    lemma_mix_parts(p.0, base_p);
    lemma_mix_parts(q.0, base_q);
}

/// A hash whose high byte names another partition than `q` is no hash mixed
/// with `q`: the hash of a location, whose high byte names its partition,
/// never collides with a hash of another VM's location.
pub proof fn law_hash_isolated_from_other_partitions(hash: u64, q: PartitionId, base: u64)
    requires
        PartitionId::spec_from_hash(hash) != q,
    ensures
        hash as nat != spec_mix_hash(q.0, base),
{
    lemma_mix_parts(q.0, base);
    assert(hash as nat / partition_shift() < 256);
}

/// Identifies state locations across VM types.
pub trait StateLocation: Sized {
    /// The partition of the VM that owns the location.
    spec fn spec_partition_id(&self) -> PartitionId;

    /// The location's hash; its high 8 bits name the location's partition.
    fn location_hash(&self) -> (r: u64)
        ensures
            PartitionId::spec_from_hash(r) == self.spec_partition_id(),
    ;

    /// The partition of the VM that owns the location.
    fn partition_id(&self) -> (r: PartitionId)
        ensures
            r == self.spec_partition_id(),
    ;
}

/// Values stored at state locations.
pub trait StateValue: Sized {
    /// Whether the value is evaluated lazily, at block finalization; by
    /// default no value is.
    fn is_lazy(&self) -> (r: bool)
        default_ensures
            !r,
    {
        false
    }

    /// Whether the value stands for deleted state; by default no value does.
    fn is_deleted(&self) -> (r: bool)
        default_ensures
            !r,
    {
        false
    }
}

} // verus!
