use vm_core::config::{
    pow2_u64, ExecutorName, MemoryConfig, Modulus, PersistenceType, VmConfig,
    DEFAULT_MAX_SEGMENT_LEN,
};

#[test]
fn test_memory_config_default() {
    let config = MemoryConfig::default();
    assert_eq!(config.as_height, 29);
    assert_eq!(config.pointer_max_bits, 29);
    assert_eq!(config.clk_max_bits, 29);
    assert_eq!(config.decomp, 16);
    assert_eq!(config.persistence_type, PersistenceType::Volatile);
}

#[test]
fn test_vm_config_presets() {
    let rv32i = VmConfig::rv32i();
    assert_eq!(rv32i.executors.len(), 12);
    assert_eq!(rv32i.memory_config.persistence_type, PersistenceType::Persistent);
    assert_eq!(rv32i.executors[0], ExecutorName::Phantom);

    let rv32im = VmConfig::rv32im();
    assert_eq!(rv32im.executors.len(), 15);
    assert_eq!(*rv32im.executors.last().unwrap(), ExecutorName::DivRemRv32);

    let aggregation = VmConfig::aggregation(4, 7);
    assert_eq!(aggregation.executors.len(), 7);
    assert_eq!(aggregation.num_public_values, 4);

    let default = VmConfig::default();
    assert_eq!(default.executors.len(), 0);
    assert_eq!(default.max_segment_len, DEFAULT_MAX_SEGMENT_LEN);
}

#[test]
fn test_add_executor_and_modulus() {
    let config = VmConfig::default().add_executor(ExecutorName::Jal);
    assert_eq!(config.executors, vec![ExecutorName::Jal]);
    let with_moduli = config.add_canonical_modulus();
    assert_eq!(with_moduli.supported_modulus.len(), 2);
    assert_eq!(with_moduli.supported_modulus[0], Modulus::Secp256k1Coord.prime_limbs());
}

#[test]
fn test_modulus_all_and_limbs() {
    let all = Modulus::all();
    assert_eq!(all.len(), 2);
    let coord = Modulus::Secp256k1Coord.prime_limbs();
    // 2^256 - 2^32 - 977, little-endian
    assert_eq!(coord[0], 0xFFFFFC2F);
    assert_eq!(coord[1], 0xFFFFFFFE);
    assert_eq!(coord[7], 0xFFFFFFFF);
    let scalar = Modulus::Secp256k1Scalar.prime_limbs();
    assert_eq!(scalar[0], 0xD0364141);
    assert_eq!(scalar[4], 0xFFFFFFFE);
}

#[test]
fn test_pow2_u64_values() {
    assert_eq!(pow2_u64(0), 1);
    assert_eq!(pow2_u64(10), 1024);
    assert_eq!(pow2_u64(32), 1u64 << 32);
}
