use service_registry::admin_ops::{initialize, set_base_uri};
use service_registry::agent_ops::{
    add_agent_id_to_service, delete_agent_id_to_service, register_agent_ids_to_service,
};
use service_registry::deploy_ops::change_multisig;
use service_registry::error::ErrorCode;
use service_registry::ledger::{BalanceEntry, Ledger};
use service_registry::register_ops::register_agents;
use service_registry::service_ops::{activate_registration, create};
use service_registry::state::{AgentParams, ServiceRegistry};

const REG_OWNER: u64 = 1;
const MANAGER: u64 = 10;
const DRAINER: u64 = 12;
const WALLET: u64 = 13;
const SVC_OWNER: u64 = 20;
const OPERATOR: u64 = 30;

fn fresh_registry() -> ServiceRegistry {
    initialize(
        "registry".to_string(),
        "REG".to_string(),
        "https://registry.example/".to_string(),
        REG_OWNER,
        MANAGER,
        DRAINER,
        WALLET,
    )
}

fn nonzero_hash() -> [u8; 32] {
    let mut h = [0u8; 32];
    h[0] = 7;
    h
}

#[test]
fn single_role_shorthands_work() {
    let mut reg = fresh_registry();
    create(&mut reg, MANAGER, nonzero_hash(), SVC_OWNER, None).unwrap();
    let r = add_agent_id_to_service(&mut reg, MANAGER, 1, SVC_OWNER, 4, 2, 150, Some(2));
    assert_eq!(r, Ok(()));
    assert_eq!(reg.services[0].account.max_num_agent_instances, 2);
    assert_eq!(reg.services[0].account.security_deposit, 150);
    // Adding a second role keeps the table sorted by role id.
    add_agent_id_to_service(&mut reg, MANAGER, 1, SVC_OWNER, 2, 1, 80, Some(3)).unwrap();
    assert_eq!(reg.services[0].agent_ids_index.agent_ids[0].agent_id, 2);
    assert_eq!(reg.services[0].agent_ids_index.agent_ids[1].agent_id, 4);
    assert_eq!(reg.services[0].account.max_num_agent_instances, 3);
    // Deleting one shrinks the table again.
    delete_agent_id_to_service(&mut reg, MANAGER, 1, SVC_OWNER, 4, Some(1)).unwrap();
    assert_eq!(reg.services[0].agent_ids_index.agent_ids.len(), 1);
    assert_eq!(reg.services[0].account.max_num_agent_instances, 1);
    assert_eq!(reg.services[0].account.security_deposit, 80);
}

#[test]
fn deleting_every_role_fails_the_quorum_bound() {
    // An empty table has capacity zero, and no threshold satisfies
    // quorum(0) = 1 while staying at most zero: the deletion is refused
    // and the table survives. The kept threshold of 2 clears the quorum
    // bound but exceeds the empty capacity.
    let mut reg = fresh_registry();
    create(&mut reg, MANAGER, nonzero_hash(), SVC_OWNER, None).unwrap();
    add_agent_id_to_service(&mut reg, MANAGER, 1, SVC_OWNER, 1, 2, 50, Some(2)).unwrap();
    let r = delete_agent_id_to_service(&mut reg, MANAGER, 1, SVC_OWNER, 1, None);
    assert_eq!(r, Err(ErrorCode::WrongThreshold2));
    assert_eq!(reg.services[0].agent_ids_index.agent_ids.len(), 1);
    let r = delete_agent_id_to_service(&mut reg, MANAGER, 1, SVC_OWNER, 1, Some(0));
    assert_eq!(r, Err(ErrorCode::WrongThreshold));
}

#[test]
fn capacity_saturates_at_the_counter_width() {
    // Slot counts add up saturating: two huge roles cap the capacity at
    // the largest u32 instead of wrapping.
    let mut reg = fresh_registry();
    create(&mut reg, MANAGER, nonzero_hash(), SVC_OWNER, None).unwrap();
    let ids = vec![1, 2];
    let params = vec![
        AgentParams {
            slots: u32::MAX,
            bond: 1,
        },
        AgentParams {
            slots: u32::MAX,
            bond: 2,
        },
    ];
    let r = register_agent_ids_to_service(
        &mut reg,
        MANAGER,
        1,
        SVC_OWNER,
        &ids,
        &params,
        Some(u32::MAX),
    );
    assert_eq!(r, Ok(()));
    assert_eq!(reg.services[0].account.max_num_agent_instances, u32::MAX);
    assert_eq!(reg.services[0].account.security_deposit, 2);
}

#[test]
fn operator_index_is_bounded() {
    // One operator may hold at most 192 instance entries per service.
    let mut reg = fresh_registry();
    create(&mut reg, MANAGER, nonzero_hash(), SVC_OWNER, None).unwrap();
    let ids = vec![1];
    let params = vec![AgentParams {
        slots: 300,
        bond: 1,
    }];
    register_agent_ids_to_service(&mut reg, MANAGER, 1, SVC_OWNER, &ids, &params, Some(201))
        .unwrap();
    let mut ledger = Ledger {
        accounts: vec![BalanceEntry {
            id: MANAGER,
            balance: 100_000,
        }],
    };
    activate_registration(&mut reg, &mut ledger, MANAGER, 1, SVC_OWNER).unwrap();
    let instances: Vec<u64> = (1000..1193).collect();
    let roles: Vec<u32> = instances.iter().map(|_| 1).collect();
    let r = register_agents(&mut reg, &mut ledger, MANAGER, 1, OPERATOR, &instances, &roles);
    assert_eq!(r, Err(ErrorCode::MaxAgentInstancesPerServiceReached));
    // The failing call left nothing behind; 192 instances fit.
    assert_eq!(reg.services[0].account.num_agent_instances, 0);
    let instances: Vec<u64> = (1000..1192).collect();
    let roles: Vec<u32> = instances.iter().map(|_| 1).collect();
    let r = register_agents(&mut reg, &mut ledger, MANAGER, 1, OPERATOR, &instances, &roles);
    assert_eq!(r, Ok(()));
    assert_eq!(reg.services[0].account.num_agent_instances, 192);
}

#[test]
fn base_uri_changes_for_the_owner_only() {
    let mut reg = fresh_registry();
    let r = set_base_uri(&mut reg, MANAGER, "https://elsewhere.example/".to_string());
    assert_eq!(r, Err(ErrorCode::IllegalOwner));
    let r = set_base_uri(&mut reg, REG_OWNER, String::new());
    assert_eq!(r, Err(ErrorCode::InvalidArgument));
    let r = set_base_uri(&mut reg, REG_OWNER, "https://elsewhere.example/".to_string());
    assert_eq!(r, Ok(()));
    assert_eq!(reg.base_uri, "https://elsewhere.example/");
}

#[test]
fn service_multisig_changes_for_its_owner_only() {
    let mut reg = fresh_registry();
    create(&mut reg, MANAGER, nonzero_hash(), SVC_OWNER, None).unwrap();
    assert_eq!(change_multisig(&mut reg, MANAGER, 1, 99), Err(ErrorCode::IllegalOwner));
    assert_eq!(change_multisig(&mut reg, SVC_OWNER, 1, 0), Err(ErrorCode::InvalidArgument));
    assert_eq!(change_multisig(&mut reg, SVC_OWNER, 1, 99), Ok(()));
    assert_eq!(reg.services[0].account.multisig, 99);
}
