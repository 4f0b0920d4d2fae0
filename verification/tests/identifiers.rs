use hashpower::hash::H256;
use hashpower::hashpower_contract::{Environment, Module};

fn seed() -> [u8; 32] {
    let mut seed = [0u8; 32];
    for (i, byte) in seed.iter_mut().enumerate() {
        *byte = (i as u8).wrapping_mul(7).wrapping_add(3);
    }
    seed
}

fn payload(seed: &[u8; 32], nonce: u64, extrinsic_index: Option<u32>, block_number: u64) -> Vec<u8> {
    let mut bytes = seed.to_vec();
    bytes.extend_from_slice(&nonce.to_le_bytes());
    match extrinsic_index {
        Some(i) => {
            bytes.push(1);
            bytes.extend_from_slice(&i.to_le_bytes());
        }
        None => bytes.push(0),
    }
    bytes.extend_from_slice(&block_number.to_le_bytes());
    bytes
}

#[test]
fn random_number_is_the_digest_of_the_encoded_payload() {
    let env = Environment { random_seed: seed(), extrinsic_index: Some(3), block_number: 9 };
    let bytes = payload(&env.random_seed, 7, Some(3), 9);
    assert_eq!(bytes.len(), 32 + 8 + 5 + 8);
    let digest = sp_crypto_hashing::blake2_256(&bytes);
    assert_eq!(Module::random_number(7, &env), H256::from_bytes(&digest));
    assert_ne!(digest.to_vec(), bytes);
}

#[test]
fn random_number_without_extrinsic_index() {
    let env = Environment { random_seed: seed(), extrinsic_index: None, block_number: 0x0102030405060708 };
    let bytes = payload(&env.random_seed, u64::MAX, None, 0x0102030405060708);
    assert_eq!(bytes.len(), 32 + 8 + 1 + 8);
    let digest = sp_crypto_hashing::blake2_256(&bytes);
    assert_eq!(Module::random_number(u64::MAX, &env), H256::from_bytes(&digest));
}

#[test]
fn random_number_agrees_with_the_runtime_hash_of_the_tuple() {
    let env = Environment { random_seed: seed(), extrinsic_index: Some(42), block_number: 1000 };
    let tuple = (sp_core::H256(seed()), 5u64, Some(42u32), 1000u64);
    let expected = <sp_runtime::traits::BlakeTwo256 as sp_runtime::traits::Hash>::hash_of(&tuple);
    assert_eq!(Module::random_number(5, &env).to_bytes(), expected.0);
}

#[test]
fn random_number_depends_on_each_input() {
    let env = Environment { random_seed: seed(), extrinsic_index: Some(1), block_number: 2 };
    let id = Module::random_number(0, &env);
    assert_ne!(id, Module::random_number(1, &env));
    assert_ne!(id, Module::random_number(0, &Environment { block_number: 3, ..env }));
    assert_ne!(id, Module::random_number(0, &Environment { extrinsic_index: None, ..env }));
    assert_ne!(id, Module::random_number(0, &Environment { random_seed: [0u8; 32], ..env }));
    assert_eq!(id, Module::random_number(0, &env));
}

#[test]
fn from_low_u64_be_agrees_with_the_fixed_hash() {
    let ours = H256::from_low_u64_be(100);
    let theirs = sp_core::H256::from_low_u64_be(100);
    assert_eq!(ours.to_bytes(), theirs.0);
    assert_eq!(H256::from_bytes(&theirs.0), ours);
    assert_eq!(ours.words, (0, 0, 0, 100));
}

#[test]
fn bytes_are_big_endian() {
    let value = H256 {
        words: (0x0001020304050607, 0x08090a0b0c0d0e0f, 0x1011121314151617, 0x18191a1b1c1d1e1f),
    };
    let mut expected = [0u8; 32];
    for (i, byte) in expected.iter_mut().enumerate() {
        *byte = i as u8;
    }
    assert_eq!(value.to_bytes(), expected);
    assert_eq!(H256::from_bytes(&expected), value);
}

#[test]
fn bytes_round_trip() {
    let value = H256 { words: (u64::MAX, 0, 0x8000000000000001, 0x00ff00ff00ff00ff) };
    assert_eq!(H256::from_bytes(&value.to_bytes()), value);
    assert_eq!(H256::zero().to_bytes(), [0u8; 32]);
    assert_eq!(H256::zero(), H256::default());
}

#[test]
fn created_contracts_get_the_identifier_of_their_nonce() {
    let env = Environment { random_seed: seed(), extrinsic_index: Some(0), block_number: 12 };
    let mut module = Module::new();
    assert_eq!(module.nonce(), 0);
    assert_eq!(module.create_contract(5, 1234, 123, 456, 1, &env), Ok(()));
    assert_eq!(module.create_contract(6, 4321, 124, 457, 2, &env), Ok(()));
    assert_eq!(module.nonce(), 2);
    let first = Module::random_number(0, &env);
    let second = Module::random_number(1, &env);
    assert_ne!(first, second);
    assert_eq!(module.contract_at_index(0), first);
    assert_eq!(module.contract_at_index(1), second);
    let contract = module.contract(second);
    assert_eq!(contract.id, second);
    assert_eq!(contract.hash_power, 4321);
    assert_eq!(contract.start_date, 124);
    assert_eq!(contract.end_date, 457);
    assert_eq!(contract.service_provider, 2);
    assert_eq!(module.owner_of(second), Some(6));
}
