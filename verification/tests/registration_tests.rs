use service_registry::admin_ops::initialize;
use service_registry::agent_ops::register_agent_ids_to_service;
use service_registry::error::ErrorCode;
use service_registry::ledger::{BalanceEntry, Ledger};
use service_registry::register_ops::register_agents;
use service_registry::service_ops::{activate_registration, create};
use service_registry::service_state::ServiceState;
use service_registry::state::{AgentParams, ServiceRegistry};

const REG_OWNER: u64 = 1;
const MANAGER: u64 = 10;
const DRAINER: u64 = 12;
const WALLET: u64 = 13;
const SVC_OWNER: u64 = 20;
const OPERATOR: u64 = 30;

fn nonzero_hash() -> [u8; 32] {
    let mut h = [0u8; 32];
    h[0] = 7;
    h
}

fn active_two_role_service() -> (ServiceRegistry, Ledger) {
    let mut reg = initialize(
        "registry".to_string(),
        "REG".to_string(),
        "https://registry.example/".to_string(),
        REG_OWNER,
        MANAGER,
        DRAINER,
        WALLET,
    );
    create(&mut reg, MANAGER, nonzero_hash(), SVC_OWNER, None).unwrap();
    let ids = vec![1, 2];
    let params = vec![
        AgentParams {
            slots: 3,
            bond: 100,
        },
        AgentParams {
            slots: 2,
            bond: 200,
        },
    ];
    register_agent_ids_to_service(&mut reg, MANAGER, 1, SVC_OWNER, &ids, &params, Some(4)).unwrap();
    let mut ledger = Ledger {
        accounts: vec![BalanceEntry {
            id: MANAGER,
            balance: 10_000,
        }],
    };
    activate_registration(&mut reg, &mut ledger, MANAGER, 1, SVC_OWNER).unwrap();
    (reg, ledger)
}

#[test]
fn registration_charges_summed_bond() {
    // Two instances against roles 1 and 2 charge 100 + 200 = 300.
    let (mut reg, mut ledger) = active_two_role_service();
    let wallet_before = ledger.balance_of(WALLET);
    let caller_before = ledger.balance_of(MANAGER);
    let r = register_agents(&mut reg, &mut ledger, MANAGER, 1, OPERATOR, &vec![101, 102], &vec![
        1, 2,
    ]);
    assert_eq!(r, Ok(()));
    assert_eq!(ledger.balance_of(WALLET), wallet_before + 300);
    assert_eq!(ledger.balance_of(MANAGER), caller_before - 300);
    assert_eq!(reg.services[0].account.num_agent_instances, 2);
    assert_eq!(reg.services[0].operator_bonds.len(), 1);
    assert_eq!(reg.services[0].operator_bonds[0].operator, OPERATOR);
    assert_eq!(reg.services[0].operator_bonds[0].bond, 300);
}

#[test]
fn full_staffing_finishes_registration() {
    // Five instances in total fill all slots and finish registration.
    let (mut reg, mut ledger) = active_two_role_service();
    register_agents(&mut reg, &mut ledger, MANAGER, 1, OPERATOR, &vec![101, 102], &vec![1, 2])
        .unwrap();
    assert_eq!(reg.services[0].account.state, ServiceState::ActiveRegistration);
    let r = register_agents(
        &mut reg,
        &mut ledger,
        MANAGER,
        1,
        OPERATOR,
        &vec![103, 104, 105],
        &vec![1, 1, 2],
    );
    assert_eq!(r, Ok(()));
    assert_eq!(reg.services[0].account.num_agent_instances, 5);
    assert_eq!(reg.services[0].account.state, ServiceState::FinishedRegistration);
    // The counters stay within each role's capacity.
    for c in &reg.services[0].slot_counters {
        let role = reg.services[0]
            .agent_ids_index
            .agent_ids
            .iter()
            .find(|p| p.agent_id == c.agent_id)
            .unwrap();
        assert!(c.counter.count <= role.slots);
    }
    // The instance count never exceeds the capacity.
    assert!(
        reg.services[0].account.num_agent_instances
            <= reg.services[0].account.max_num_agent_instances
    );
}

#[test]
fn unknown_role_rejected() {
    let (mut reg, mut ledger) = active_two_role_service();
    let r = register_agents(&mut reg, &mut ledger, MANAGER, 1, OPERATOR, &vec![101], &vec![9]);
    assert_eq!(r, Err(ErrorCode::AgentNotInService));
}

#[test]
fn overfull_role_rejected() {
    // Role 2 offers two slots; a third instance for it is refused and
    // nothing of the failing call sticks.
    let (mut reg, mut ledger) = active_two_role_service();
    let wallet_before = ledger.balance_of(WALLET);
    let r = register_agents(
        &mut reg,
        &mut ledger,
        MANAGER,
        1,
        OPERATOR,
        &vec![101, 102, 103],
        &vec![2, 2, 2],
    );
    assert_eq!(r, Err(ErrorCode::AgentInstancesSlotsFilled));
    assert_eq!(reg.services[0].account.num_agent_instances, 0);
    assert_eq!(ledger.balance_of(WALLET), wallet_before);
}

#[test]
fn duplicate_instance_rejected() {
    let (mut reg, mut ledger) = active_two_role_service();
    register_agents(&mut reg, &mut ledger, MANAGER, 1, OPERATOR, &vec![101], &vec![1]).unwrap();
    let r = register_agents(&mut reg, &mut ledger, MANAGER, 1, OPERATOR, &vec![101], &vec![2]);
    assert_eq!(r, Err(ErrorCode::AccountServiceAgentIdInstanceExists));
}

#[test]
fn instance_operator_pair_is_global() {
    // The same (instance, operator) pair may not recur even in another
    // service.
    let (mut reg, mut ledger) = active_two_role_service();
    register_agents(&mut reg, &mut ledger, MANAGER, 1, OPERATOR, &vec![101], &vec![1]).unwrap();
    let mut h2 = nonzero_hash();
    h2[2] = 5;
    create(&mut reg, MANAGER, h2, SVC_OWNER, None).unwrap();
    let ids = vec![1];
    let params = vec![AgentParams {
        slots: 3,
        bond: 50,
    }];
    register_agent_ids_to_service(&mut reg, MANAGER, 2, SVC_OWNER, &ids, &params, Some(3)).unwrap();
    activate_registration(&mut reg, &mut ledger, MANAGER, 2, SVC_OWNER).unwrap();
    let r = register_agents(&mut reg, &mut ledger, MANAGER, 2, OPERATOR, &vec![101], &vec![1]);
    assert_eq!(r, Err(ErrorCode::AccountAgentIdInstanceOperatorExists));
}

#[test]
fn operator_must_not_be_an_instance() {
    let (mut reg, mut ledger) = active_two_role_service();
    register_agents(&mut reg, &mut ledger, MANAGER, 1, OPERATOR, &vec![101], &vec![1]).unwrap();
    // The identifier 101 is now a recorded instance and may not operate.
    let r = register_agents(&mut reg, &mut ledger, MANAGER, 1, 101, &vec![102], &vec![1]);
    assert_eq!(r, Err(ErrorCode::WrongOperator));
}

#[test]
fn zero_operator_rejected() {
    let (mut reg, mut ledger) = active_two_role_service();
    let r = register_agents(&mut reg, &mut ledger, MANAGER, 1, 0, &vec![101], &vec![1]);
    assert_eq!(r, Err(ErrorCode::InvalidArgument));
}

#[test]
fn registration_needs_active_state() {
    let mut reg = initialize(
        "registry".to_string(),
        "REG".to_string(),
        "https://registry.example/".to_string(),
        REG_OWNER,
        MANAGER,
        DRAINER,
        WALLET,
    );
    create(&mut reg, MANAGER, nonzero_hash(), SVC_OWNER, None).unwrap();
    let mut ledger = Ledger {
        accounts: vec![BalanceEntry {
            id: MANAGER,
            balance: 1000,
        }],
    };
    let r = register_agents(&mut reg, &mut ledger, MANAGER, 1, OPERATOR, &vec![101], &vec![1]);
    assert_eq!(r, Err(ErrorCode::WrongServiceState));
}

#[test]
fn registration_needs_matching_arrays() {
    let (mut reg, mut ledger) = active_two_role_service();
    let r = register_agents(&mut reg, &mut ledger, MANAGER, 1, OPERATOR, &vec![101, 102], &vec![1]);
    assert_eq!(r, Err(ErrorCode::WrongArrayLength));
}

#[test]
fn registration_needs_funded_caller() {
    let (mut reg, mut ledger) = active_two_role_service();
    // Drain the caller below the 300 the call would charge.
    let b = ledger.balance_of(MANAGER);
    ledger.transfer(MANAGER, 99, b - 10).unwrap();
    let r = register_agents(&mut reg, &mut ledger, MANAGER, 1, OPERATOR, &vec![101, 102], &vec![
        1, 2,
    ]);
    assert_eq!(r, Err(ErrorCode::IncorrectRegistrationDepositValue));
}

#[test]
fn ledger_refuses_uncovered_transfer() {
    let mut ledger = Ledger {
        accounts: vec![BalanceEntry { id: 5, balance: 40 }],
    };
    assert_eq!(ledger.transfer(5, 6, 50), Err(ErrorCode::InsufficientFunds));
    assert_eq!(ledger.transfer(5, 6, 40), Ok((40, 0)));
    assert_eq!(ledger.balance_of(6), 40);
}
