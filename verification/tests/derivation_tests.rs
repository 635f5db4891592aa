use service_registry::admin_ops::{change_multisig_permission, initialize};
use service_registry::agent_ops::register_agent_ids_to_service;
use service_registry::deploy_ops::deploy;
use service_registry::error::ErrorCode;
use service_registry::ledger::{BalanceEntry, Ledger};
use service_registry::pda::{
    operator_bond_pda, registry_wallet_pda, service_agent_slot_counter_pda, service_pda,
    verify_record_id,
};
use service_registry::register_ops::register_agents;
use service_registry::service_ops::{activate_registration, create};
use service_registry::state::AgentParams;

const REG_OWNER: u64 = 1;
const MANAGER: u64 = 10;
const DRAINER: u64 = 12;
const WALLET: u64 = 13;
const SVC_OWNER: u64 = 20;
const OPERATOR: u64 = 30;
const MSIG_IMPL: u64 = 77;

fn program_id() -> [u8; 32] {
    [3u8; 32]
}

#[test]
fn wallet_derivation_matches_chain_function() {
    // The library's wallet derivation must agree with the chain's own
    // key-derivation function on the same seeds.
    let registry_key = [9u8; 32];
    let pid_bytes = program_id();
    let pid = solana_pubkey::Pubkey::new_from_array(pid_bytes);
    let got = registry_wallet_pda(&registry_key, &pid_bytes);
    let want =
        solana_pubkey::Pubkey::try_find_program_address(&[b"registry_wallet", &registry_key], &pid);
    match (got, want) {
        (Some((addr, bump)), Some((pk, want_bump))) => {
            assert_eq!(addr, pk.to_bytes());
            assert_eq!(bump, want_bump);
        }
        (None, None) => {}
        _ => panic!("derivation disagrees with the chain function"),
    }
}

#[test]
fn service_derivation_uses_hash_prefix() {
    let mut config_hash = [0u8; 32];
    for (i, b) in config_hash.iter_mut().enumerate() {
        *b = i as u8 + 1;
    }
    let pid_bytes = program_id();
    let pid = solana_pubkey::Pubkey::new_from_array(pid_bytes);
    let got = service_pda(&config_hash, &pid_bytes);
    let want =
        solana_pubkey::Pubkey::try_find_program_address(&[b"service", &config_hash[..7]], &pid);
    match (got, want) {
        (Some((addr, bump)), Some((pk, want_bump))) => {
            assert_eq!(addr, pk.to_bytes());
            assert_eq!(bump, want_bump);
        }
        (None, None) => {}
        _ => panic!("derivation disagrees with the chain function"),
    }
}

#[test]
fn keyed_derivations_match_chain_function() {
    let pid_bytes = program_id();
    let pid = solana_pubkey::Pubkey::new_from_array(pid_bytes);
    let service_id: u128 = 42;
    let agent_id: u32 = 7;
    let got = service_agent_slot_counter_pda(service_id, agent_id, &pid_bytes);
    let want = solana_pubkey::Pubkey::try_find_program_address(
        &[
            b"service_agent_slot",
            &service_id.to_le_bytes(),
            &agent_id.to_le_bytes(),
        ],
        &pid,
    );
    match (got, want) {
        (Some((addr, bump)), Some((pk, want_bump))) => {
            assert_eq!(addr, pk.to_bytes());
            assert_eq!(bump, want_bump);
        }
        (None, None) => {}
        _ => panic!("derivation disagrees with the chain function"),
    }
    let operator: u64 = 30;
    let got = operator_bond_pda(service_id, operator, &pid_bytes);
    let want = solana_pubkey::Pubkey::try_find_program_address(
        &[
            b"operator_bond",
            &service_id.to_le_bytes(),
            &operator.to_le_bytes(),
        ],
        &pid,
    );
    match (got, want) {
        (Some((addr, bump)), Some((pk, want_bump))) => {
            assert_eq!(addr, pk.to_bytes());
            assert_eq!(bump, want_bump);
        }
        (None, None) => {}
        _ => panic!("derivation disagrees with the chain function"),
    }
}

#[test]
fn record_id_check_accepts_only_the_derived_address() {
    let registry_key = [9u8; 32];
    let pid_bytes = program_id();
    let derived = registry_wallet_pda(&registry_key, &pid_bytes);
    let addr = derived.expect("a bump seed exists for these seeds").0;
    assert_eq!(verify_record_id(&addr, &derived), Ok(()));
    let mut wrong = addr;
    wrong[0] = wrong[0].wrapping_add(1);
    assert_eq!(verify_record_id(&wrong, &derived), Err(ErrorCode::InvalidPda));
    assert_eq!(verify_record_id(&addr, &None), Err(ErrorCode::InvalidPda));
}

#[test]
fn deployment_key_matches_chain_derivation() {
    // Deployment derives the multisig key from the digest of the
    // concatenated instance identifiers; the registry keeps its first
    // eight bytes. Recompute the chain side independently.
    let mut reg = initialize(
        "registry".to_string(),
        "REG".to_string(),
        "https://registry.example/".to_string(),
        REG_OWNER,
        MANAGER,
        DRAINER,
        WALLET,
    );
    let mut h = [0u8; 32];
    h[0] = 7;
    create(&mut reg, MANAGER, h, SVC_OWNER, None).unwrap();
    let ids = vec![1];
    let params = vec![AgentParams {
        slots: 2,
        bond: 100,
    }];
    register_agent_ids_to_service(&mut reg, MANAGER, 1, SVC_OWNER, &ids, &params, Some(2)).unwrap();
    let mut ledger = Ledger {
        accounts: vec![BalanceEntry {
            id: MANAGER,
            balance: 10_000,
        }],
    };
    activate_registration(&mut reg, &mut ledger, MANAGER, 1, SVC_OWNER).unwrap();
    register_agents(&mut reg, &mut ledger, MANAGER, 1, OPERATOR, &vec![101, 102], &vec![1, 1])
        .unwrap();
    change_multisig_permission(&mut reg, REG_OWNER, MSIG_IMPL, true).unwrap();
    let (msig_id, record) =
        deploy(&mut reg, MANAGER, 1, SVC_OWNER, MSIG_IMPL, vec![4, 5], &program_id()).unwrap();
    assert_eq!(reg.services[0].account.multisig, msig_id);
    assert_eq!(record.agent_instances, vec![101, 102]);
    assert_eq!(record.threshold, 2);
    assert_eq!(record.data, vec![4, 5]);

    // Chain-side recomputation.
    let mut seed_data: Vec<u8> = Vec::new();
    seed_data.extend_from_slice(&101u64.to_le_bytes());
    seed_data.extend_from_slice(&102u64.to_le_bytes());
    let digest = solana_sha256_hasher::hash(&seed_data);
    let pid = solana_pubkey::Pubkey::new_from_array(program_id());
    let (pk, _bump) =
        solana_pubkey::Pubkey::try_find_program_address(&[b"multisig", digest.as_ref()], &pid)
            .expect("a bump seed exists for these seeds");
    let expected_id = u64::from_le_bytes(pk.to_bytes()[..8].try_into().unwrap());
    assert_eq!(msig_id, expected_id);
}

#[test]
fn deploy_needs_whitelisted_implementation() {
    let mut reg = initialize(
        "registry".to_string(),
        "REG".to_string(),
        "https://registry.example/".to_string(),
        REG_OWNER,
        MANAGER,
        DRAINER,
        WALLET,
    );
    let mut h = [0u8; 32];
    h[0] = 7;
    create(&mut reg, MANAGER, h, SVC_OWNER, None).unwrap();
    let r = deploy(&mut reg, MANAGER, 1, SVC_OWNER, MSIG_IMPL, vec![], &program_id());
    assert_eq!(r.err(), Some(ErrorCode::UnauthorizedMultisig));
}

#[test]
fn whitelist_is_bounded_and_revocable() {
    let mut reg = initialize(
        "registry".to_string(),
        "REG".to_string(),
        "https://registry.example/".to_string(),
        REG_OWNER,
        MANAGER,
        DRAINER,
        WALLET,
    );
    for m in 1..=32u64 {
        assert_eq!(change_multisig_permission(&mut reg, REG_OWNER, 1000 + m, true), Ok(()));
    }
    assert_eq!(
        change_multisig_permission(&mut reg, REG_OWNER, 2000, true),
        Err(ErrorCode::MaxMultiSigsReached)
    );
    assert_eq!(change_multisig_permission(&mut reg, REG_OWNER, 1005, false), Ok(()));
    assert_eq!(reg.registry_multisig.authorized_multisigs.len(), 31);
    // Re-adding an already present entry is idempotent.
    assert_eq!(change_multisig_permission(&mut reg, REG_OWNER, 1001, true), Ok(()));
    assert_eq!(reg.registry_multisig.authorized_multisigs.len(), 31);
}
