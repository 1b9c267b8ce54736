use pevm::perpdex::PartitionId;

#[test]
fn test_partition_hash_mixing() {
    let base_hash = 0x1234_5678_9ABC_DEF0u64;

    let evm_hash = PartitionId::evm().mix_hash(base_hash);
    let wasm_hash = PartitionId::wasm().mix_hash(base_hash);
    let perp_hash = PartitionId::perpdex().mix_hash(base_hash);

    // All should be different
    assert_ne!(evm_hash, wasm_hash);
    assert_ne!(evm_hash, perp_hash);
    assert_ne!(wasm_hash, perp_hash);

    // Partition IDs should be in high byte
    assert_eq!(evm_hash >> 56, 0);
    assert_eq!(wasm_hash >> 56, 1);
    assert_eq!(perp_hash >> 56, 2);

    // Low 56 bits should be preserved
    assert_eq!(evm_hash & 0x00FF_FFFF_FFFF_FFFF, base_hash & 0x00FF_FFFF_FFFF_FFFF);
}

#[test]
fn test_partition_from_hash() {
    let mixed_evm = PartitionId::evm().mix_hash(0x1234);
    let mixed_perp = PartitionId::perpdex().mix_hash(0x5678);

    assert_eq!(PartitionId::from_hash(mixed_evm), PartitionId::evm());
    assert_eq!(PartitionId::from_hash(mixed_perp), PartitionId::perpdex());
}

#[test]
fn partition_constants_are_numbered() {
    assert_eq!(PartitionId::evm(), PartitionId(0));
    assert_eq!(PartitionId::wasm(), PartitionId(1));
    assert_eq!(PartitionId::perpdex(), PartitionId(2));
}

#[test]
fn mix_hash_exact_value() {
    // The partition replaces the top byte; the low 56 bits are kept.
    assert_eq!(PartitionId::perpdex().mix_hash(0xFFFF_FFFF_FFFF_FFFF), 0x02FF_FFFF_FFFF_FFFF);
    assert_eq!(PartitionId(0xAB).mix_hash(0x0011_2233_4455_6677), 0xAB11_2233_4455_6677);
    assert_eq!(PartitionId::evm().mix_hash(0x7700_0000_0000_0001), 0x0000_0000_0000_0001);
}

#[test]
fn from_hash_inverts_mix_hash_on_every_partition() {
    let bases = [0u64, 1, 0x1234_5678_9ABC_DEF0, u64::MAX];
    for p in 0..=255u8 {
        for base in bases {
            let mixed = PartitionId(p).mix_hash(base);
            assert_eq!(PartitionId::from_hash(mixed), PartitionId(p));
        }
    }
}

#[test]
fn distinct_partitions_never_collide() {
    let base = 0x00AB_CDEF_0123_4567u64;
    for p in 0..=255u8 {
        for q in 0..=255u8 {
            if p != q {
                assert_ne!(PartitionId(p).mix_hash(base), PartitionId(q).mix_hash(u64::MAX - base));
                assert_ne!(PartitionId(p).mix_hash(base), PartitionId(q).mix_hash(base));
            }
        }
    }
}
