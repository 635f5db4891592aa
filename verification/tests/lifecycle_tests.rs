use service_registry::admin_ops::{change_drainer, change_manager, change_owner, initialize};
use service_registry::agent_ops::register_agent_ids_to_service;
use service_registry::error::ErrorCode;
use service_registry::ledger::{BalanceEntry, Ledger};
use service_registry::service_ops::{activate_registration, check_service, create, update};
use service_registry::service_state::ServiceState;
use service_registry::state::{AgentParams, ServiceRegistry};

const REG_OWNER: u64 = 1;
const MANAGER: u64 = 10;
const DRAINER: u64 = 12;
const WALLET: u64 = 13;
const SVC_OWNER: u64 = 20;

fn fresh_registry() -> ServiceRegistry {
    initialize(
        "registry".to_string(),
        "REG".to_string(),
        "https://registry.example/".to_string(),
        REG_OWNER,
        MANAGER,
        DRAINER,
        WALLET,
    )
}

fn nonzero_hash() -> [u8; 32] {
    let mut h = [0u8; 32];
    h[0] = 7;
    h
}

fn funded_ledger(account: u64, balance: u64) -> Ledger {
    Ledger {
        accounts: vec![BalanceEntry {
            id: account,
            balance,
        }],
    }
}

fn two_role_params() -> (Vec<u32>, Vec<AgentParams>) {
    (
        vec![1, 2],
        vec![
            AgentParams {
                slots: 3,
                bond: 100,
            },
            AgentParams {
                slots: 2,
                bond: 200,
            },
        ],
    )
}

#[test]
fn initialize_sets_roles_and_counters() {
    let reg = fresh_registry();
    assert_eq!(reg.owner, REG_OWNER);
    assert_eq!(reg.manager, MANAGER);
    assert_eq!(reg.drainer, DRAINER);
    assert_eq!(reg.wallet_key, WALLET);
    assert_eq!(reg.total_supply, 0);
    assert_eq!(reg.slashed_funds, 0);
    assert!(!reg.locked);
    assert_eq!(reg.version, "1.0.0");
    assert!(reg.services.is_empty());
}

#[test]
fn create_assigns_first_service_id() {
    let mut reg = fresh_registry();
    let r = create(&mut reg, MANAGER, nonzero_hash(), SVC_OWNER, None);
    assert_eq!(r, Ok(1));
    assert_eq!(reg.total_supply, 1);
    assert_eq!(reg.services.len(), 1);
    let acc = &reg.services[0].account;
    assert_eq!(acc.service_id, 1);
    assert_eq!(acc.service_owner, SVC_OWNER);
    assert_eq!(acc.state, ServiceState::PreRegistration);
    assert_eq!(acc.security_deposit, 0);
    assert_eq!(acc.max_num_agent_instances, 0);
    assert_eq!(acc.num_agent_instances, 0);
}

#[test]
fn create_rejects_zero_hash() {
    let mut reg = fresh_registry();
    let r = create(&mut reg, MANAGER, [0u8; 32], SVC_OWNER, None);
    assert_eq!(r, Err(ErrorCode::ZeroConfigHash));
}

#[test]
fn create_rejects_zero_owner() {
    let mut reg = fresh_registry();
    let r = create(&mut reg, MANAGER, nonzero_hash(), 0, None);
    assert_eq!(r, Err(ErrorCode::InvalidArgument));
}

#[test]
fn create_rejects_non_manager() {
    let mut reg = fresh_registry();
    let r = create(&mut reg, REG_OWNER, nonzero_hash(), SVC_OWNER, None);
    assert_eq!(r, Err(ErrorCode::InvalidAccountOwner));
}

#[test]
fn create_rejects_while_locked() {
    let mut reg = fresh_registry();
    reg.locked = true;
    let r = create(&mut reg, MANAGER, nonzero_hash(), SVC_OWNER, None);
    assert_eq!(r, Err(ErrorCode::ReentrancyGuard));
}

#[test]
fn create_rejects_exhausted_service_counter() {
    let mut reg = fresh_registry();
    reg.total_supply = u128::MAX;
    let r = create(&mut reg, MANAGER, nonzero_hash(), SVC_OWNER, None);
    assert_eq!(r, Err(ErrorCode::Overflow));
}

#[test]
fn duplicate_role_ids_rejected() {
    // A batch of role ids [1, 2, 2] holds a duplicate and is refused.
    let mut reg = fresh_registry();
    create(&mut reg, MANAGER, nonzero_hash(), SVC_OWNER, None).unwrap();
    let params = vec![
        AgentParams { slots: 1, bond: 1 },
        AgentParams { slots: 1, bond: 1 },
        AgentParams { slots: 1, bond: 1 },
    ];
    let r = register_agent_ids_to_service(
        &mut reg,
        MANAGER,
        1,
        SVC_OWNER,
        &vec![1, 2, 2],
        &params,
        Some(2),
    );
    assert_eq!(r, Err(ErrorCode::WrongAgentId));
}

#[test]
fn decreasing_role_ids_rejected() {
    // A batch of role ids [2, 1] is not increasing and is refused.
    let mut reg = fresh_registry();
    create(&mut reg, MANAGER, nonzero_hash(), SVC_OWNER, None).unwrap();
    let params = vec![
        AgentParams { slots: 1, bond: 1 },
        AgentParams { slots: 1, bond: 1 },
    ];
    let r = register_agent_ids_to_service(
        &mut reg,
        MANAGER,
        1,
        SVC_OWNER,
        &vec![2, 1],
        &params,
        Some(2),
    );
    assert_eq!(r, Err(ErrorCode::WrongAgentId));
}

#[test]
fn increasing_role_ids_accepted_with_totals() {
    // [1, 2] with (3 slots, bond 100) and (2 slots, bond 200) yields a
    // capacity of 5 and a security deposit of 200.
    let mut reg = fresh_registry();
    create(&mut reg, MANAGER, nonzero_hash(), SVC_OWNER, None).unwrap();
    let (ids, params) = two_role_params();
    let r = register_agent_ids_to_service(&mut reg, MANAGER, 1, SVC_OWNER, &ids, &params, Some(4));
    assert_eq!(r, Ok(()));
    let acc = &reg.services[0].account;
    assert_eq!(acc.max_num_agent_instances, 5);
    assert_eq!(acc.security_deposit, 200);
    assert_eq!(acc.threshold, 4);
    assert_eq!(reg.services[0].agent_ids_index.agent_ids.len(), 2);
}

#[test]
fn mixed_zero_pair_rejected() {
    let mut reg = fresh_registry();
    create(&mut reg, MANAGER, nonzero_hash(), SVC_OWNER, None).unwrap();
    let r = register_agent_ids_to_service(
        &mut reg,
        MANAGER,
        1,
        SVC_OWNER,
        &vec![1],
        &vec![AgentParams { slots: 0, bond: 5 }],
        Some(1),
    );
    assert_eq!(r, Err(ErrorCode::ZeroValue));
}

#[test]
fn empty_role_batch_rejected() {
    let mut reg = fresh_registry();
    create(&mut reg, MANAGER, nonzero_hash(), SVC_OWNER, None).unwrap();
    let r = register_agent_ids_to_service(&mut reg, MANAGER, 1, SVC_OWNER, &vec![], &vec![], None);
    assert_eq!(r, Err(ErrorCode::WrongArrayLength));
}

#[test]
fn role_batch_needs_manager() {
    let mut reg = fresh_registry();
    create(&mut reg, MANAGER, nonzero_hash(), SVC_OWNER, None).unwrap();
    let (ids, params) = two_role_params();
    let r = register_agent_ids_to_service(&mut reg, SVC_OWNER, 1, SVC_OWNER, &ids, &params, Some(4));
    assert_eq!(r, Err(ErrorCode::UninitializedAccount));
}

#[test]
fn threshold_below_quorum_rejected() {
    // With capacity 5 the quorum bound is ceil(11 / 3) = 4: threshold 2
    // fails, threshold 4 passes.
    let mut reg = fresh_registry();
    create(&mut reg, MANAGER, nonzero_hash(), SVC_OWNER, None).unwrap();
    let (ids, params) = two_role_params();
    let r = register_agent_ids_to_service(&mut reg, MANAGER, 1, SVC_OWNER, &ids, &params, Some(2));
    assert_eq!(r, Err(ErrorCode::WrongThreshold));
    let r = register_agent_ids_to_service(&mut reg, MANAGER, 1, SVC_OWNER, &ids, &params, Some(4));
    assert_eq!(r, Ok(()));
}

#[test]
fn threshold_above_capacity_rejected() {
    let mut reg = fresh_registry();
    create(&mut reg, MANAGER, nonzero_hash(), SVC_OWNER, None).unwrap();
    let (ids, params) = two_role_params();
    let r = register_agent_ids_to_service(&mut reg, MANAGER, 1, SVC_OWNER, &ids, &params, Some(6));
    assert_eq!(r, Err(ErrorCode::WrongThreshold2));
}

#[test]
fn role_deletion_shrinks_capacity() {
    let mut reg = fresh_registry();
    create(&mut reg, MANAGER, nonzero_hash(), SVC_OWNER, None).unwrap();
    let (ids, params) = two_role_params();
    register_agent_ids_to_service(&mut reg, MANAGER, 1, SVC_OWNER, &ids, &params, Some(4)).unwrap();
    // Deleting role 2 leaves 3 slots and a deposit of 100.
    let r = register_agent_ids_to_service(
        &mut reg,
        MANAGER,
        1,
        SVC_OWNER,
        &vec![2],
        &vec![AgentParams { slots: 0, bond: 0 }],
        Some(3),
    );
    assert_eq!(r, Ok(()));
    let acc = &reg.services[0].account;
    assert_eq!(acc.max_num_agent_instances, 3);
    assert_eq!(acc.security_deposit, 100);
    assert_eq!(reg.services[0].agent_ids_index.agent_ids.len(), 1);
}

#[test]
fn role_table_capacity_cap_enforced() {
    let mut reg = fresh_registry();
    create(&mut reg, MANAGER, nonzero_hash(), SVC_OWNER, None).unwrap();
    let n: u32 = 129;
    let ids: Vec<u32> = (1..=n).collect();
    let params: Vec<AgentParams> = (1..=n).map(|_| AgentParams { slots: 1, bond: 1 }).collect();
    let r = register_agent_ids_to_service(&mut reg, MANAGER, 1, SVC_OWNER, &ids, &params, Some(87));
    assert_eq!(r, Err(ErrorCode::MaxAgentIdPerServiceReached));
}

#[test]
fn update_only_in_pre_registration() {
    let mut reg = fresh_registry();
    create(&mut reg, MANAGER, nonzero_hash(), SVC_OWNER, None).unwrap();
    let (ids, params) = two_role_params();
    register_agent_ids_to_service(&mut reg, MANAGER, 1, SVC_OWNER, &ids, &params, Some(4)).unwrap();
    let mut ledger = funded_ledger(MANAGER, 1000);
    activate_registration(&mut reg, &mut ledger, MANAGER, 1, SVC_OWNER).unwrap();
    let mut h2 = nonzero_hash();
    h2[1] = 9;
    let r = update(&mut reg, MANAGER, 1, h2, SVC_OWNER, None);
    assert_eq!(r, Err(ErrorCode::WrongServiceState));
}

#[test]
fn update_replaces_hash_and_threshold() {
    let mut reg = fresh_registry();
    create(&mut reg, MANAGER, nonzero_hash(), SVC_OWNER, None).unwrap();
    let (ids, params) = two_role_params();
    register_agent_ids_to_service(&mut reg, MANAGER, 1, SVC_OWNER, &ids, &params, Some(4)).unwrap();
    let mut h2 = nonzero_hash();
    h2[1] = 9;
    let r = update(&mut reg, MANAGER, 1, h2, SVC_OWNER, Some(5));
    assert_eq!(r, Ok(()));
    assert_eq!(reg.services[0].account.config_hash, h2);
    assert_eq!(reg.services[0].account.threshold, 5);
}

#[test]
fn update_of_missing_service_rejected() {
    let mut reg = fresh_registry();
    let r = update(&mut reg, MANAGER, 9, nonzero_hash(), SVC_OWNER, None);
    assert_eq!(r, Err(ErrorCode::ServiceNotFound));
}

#[test]
fn activation_takes_exact_deposit() {
    // With a funded caller the deposit of 200 moves to the wallet and the
    // service becomes active.
    let mut reg = fresh_registry();
    create(&mut reg, MANAGER, nonzero_hash(), SVC_OWNER, None).unwrap();
    let (ids, params) = two_role_params();
    register_agent_ids_to_service(&mut reg, MANAGER, 1, SVC_OWNER, &ids, &params, Some(4)).unwrap();
    let mut ledger = funded_ledger(MANAGER, 1000);
    let r = activate_registration(&mut reg, &mut ledger, MANAGER, 1, SVC_OWNER);
    assert_eq!(r, Ok(()));
    assert_eq!(reg.services[0].account.state, ServiceState::ActiveRegistration);
    assert_eq!(ledger.balance_of(MANAGER), 800);
    assert_eq!(ledger.balance_of(WALLET), 200);
}

#[test]
fn activation_needs_funded_caller() {
    let mut reg = fresh_registry();
    create(&mut reg, MANAGER, nonzero_hash(), SVC_OWNER, None).unwrap();
    let (ids, params) = two_role_params();
    register_agent_ids_to_service(&mut reg, MANAGER, 1, SVC_OWNER, &ids, &params, Some(4)).unwrap();
    let mut ledger = funded_ledger(MANAGER, 150);
    let r = activate_registration(&mut reg, &mut ledger, MANAGER, 1, SVC_OWNER);
    assert_eq!(r, Err(ErrorCode::IncorrectRegistrationDepositValue));
    assert_eq!(reg.services[0].account.state, ServiceState::PreRegistration);
}

#[test]
fn activation_rejects_inexact_transfer() {
    // When the caller is the custodial wallet itself nothing can move, so
    // the observed balance delta is zero: a nonzero deposit is refused
    // even though the balance covers it.
    let mut reg = initialize(
        "registry".to_string(),
        "REG".to_string(),
        "https://registry.example/".to_string(),
        REG_OWNER,
        WALLET,
        DRAINER,
        WALLET,
    );
    create(&mut reg, WALLET, nonzero_hash(), SVC_OWNER, None).unwrap();
    let (ids, params) = two_role_params();
    register_agent_ids_to_service(&mut reg, WALLET, 1, SVC_OWNER, &ids, &params, Some(4)).unwrap();
    let mut ledger = funded_ledger(WALLET, 1000);
    let r = activate_registration(&mut reg, &mut ledger, WALLET, 1, SVC_OWNER);
    assert_eq!(r, Err(ErrorCode::IncorrectRegistrationDepositValue));
}

#[test]
fn activation_twice_rejected() {
    let mut reg = fresh_registry();
    create(&mut reg, MANAGER, nonzero_hash(), SVC_OWNER, None).unwrap();
    let (ids, params) = two_role_params();
    register_agent_ids_to_service(&mut reg, MANAGER, 1, SVC_OWNER, &ids, &params, Some(4)).unwrap();
    let mut ledger = funded_ledger(MANAGER, 1000);
    activate_registration(&mut reg, &mut ledger, MANAGER, 1, SVC_OWNER).unwrap();
    let r = activate_registration(&mut reg, &mut ledger, MANAGER, 1, SVC_OWNER);
    assert_eq!(r, Err(ErrorCode::ServiceMustBeInactive));
}

#[test]
fn check_service_wants_roles() {
    let mut reg = fresh_registry();
    create(&mut reg, MANAGER, nonzero_hash(), SVC_OWNER, None).unwrap();
    assert_eq!(check_service(&reg, 1), Err(ErrorCode::InvalidServiceAgentPda));
    let (ids, params) = two_role_params();
    register_agent_ids_to_service(&mut reg, MANAGER, 1, SVC_OWNER, &ids, &params, Some(4)).unwrap();
    assert_eq!(check_service(&reg, 1), Ok(()));
    assert_eq!(check_service(&reg, 2), Err(ErrorCode::ServiceNotFound));
}

#[test]
fn global_roles_change_hands() {
    let mut reg = fresh_registry();
    assert_eq!(change_drainer(&mut reg, MANAGER, 55), Err(ErrorCode::IllegalOwner));
    assert_eq!(change_drainer(&mut reg, REG_OWNER, 0), Err(ErrorCode::InvalidArgument));
    assert_eq!(change_drainer(&mut reg, REG_OWNER, 55), Ok(()));
    assert_eq!(reg.drainer, 55);
    assert_eq!(change_manager(&mut reg, REG_OWNER, 56), Ok(()));
    assert_eq!(reg.manager, 56);
    assert_eq!(change_owner(&mut reg, REG_OWNER, 57), Ok(()));
    assert_eq!(reg.owner, 57);
    // The old owner lost the role.
    assert_eq!(change_owner(&mut reg, REG_OWNER, 58), Err(ErrorCode::IllegalOwner));
}
