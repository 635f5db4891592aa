use service_registry::admin_ops::{change_multisig_permission, initialize};
use service_registry::agent_ops::register_agent_ids_to_service;
use service_registry::deploy_ops::deploy;
use service_registry::error::ErrorCode;
use service_registry::funds_ops::{drain, slash};
use service_registry::ledger::{BalanceEntry, Ledger};
use service_registry::register_ops::register_agents;
use service_registry::service_ops::{activate_registration, create};
use service_registry::service_state::ServiceState;
use service_registry::state::{AgentParams, ServiceRegistry};
use service_registry::teardown_ops::{terminate, unbond};

const REG_OWNER: u64 = 1;
const MANAGER: u64 = 10;
const DRAINER: u64 = 12;
const WALLET: u64 = 13;
const SVC_OWNER: u64 = 20;
const OPERATOR: u64 = 30;
const MSIG_IMPL: u64 = 77;

fn nonzero_hash() -> [u8; 32] {
    let mut h = [0u8; 32];
    h[0] = 7;
    h
}

fn program_id() -> [u8; 32] {
    [3u8; 32]
}

/// A single-role service (1 slot, bond 100) staffed by one operator and
/// deployed to a multisig.
fn deployed_service() -> (ServiceRegistry, Ledger, u64) {
    let mut reg = initialize(
        "registry".to_string(),
        "REG".to_string(),
        "https://registry.example/".to_string(),
        REG_OWNER,
        MANAGER,
        DRAINER,
        WALLET,
    );
    create(&mut reg, MANAGER, nonzero_hash(), SVC_OWNER, None).unwrap();
    let ids = vec![1];
    let params = vec![AgentParams {
        slots: 1,
        bond: 100,
    }];
    register_agent_ids_to_service(&mut reg, MANAGER, 1, SVC_OWNER, &ids, &params, Some(1)).unwrap();
    let mut ledger = Ledger {
        accounts: vec![BalanceEntry {
            id: MANAGER,
            balance: 10_000,
        }],
    };
    activate_registration(&mut reg, &mut ledger, MANAGER, 1, SVC_OWNER).unwrap();
    register_agents(&mut reg, &mut ledger, MANAGER, 1, OPERATOR, &vec![101], &vec![1]).unwrap();
    assert_eq!(reg.services[0].account.state, ServiceState::FinishedRegistration);
    change_multisig_permission(&mut reg, REG_OWNER, MSIG_IMPL, true).unwrap();
    deploy(&mut reg, MANAGER, 1, SVC_OWNER, MSIG_IMPL, vec![], &program_id()).unwrap();
    assert_eq!(reg.services[0].account.state, ServiceState::Deployed);
    let msig = reg.services[0].account.multisig;
    (reg, ledger, msig)
}

#[test]
fn slash_caps_at_remaining_bond() {
    // Slashing 150 against a bond of 100 forfeits only 100, which lands
    // in the slashed pool; the wallet itself keeps its value.
    let (mut reg, ledger, msig) = deployed_service();
    let wallet_before = ledger.balance_of(WALLET);
    let r = slash(&mut reg, msig, 1, &vec![101], &vec![150]);
    assert_eq!(r, Ok(()));
    assert_eq!(reg.slashed_funds, 100);
    assert_eq!(reg.services[0].operator_bonds[0].bond, 0);
    assert_eq!(ledger.balance_of(WALLET), wallet_before);
}

#[test]
fn slash_takes_partial_amount() {
    let (mut reg, _ledger, msig) = deployed_service();
    let r = slash(&mut reg, msig, 1, &vec![101], &vec![40]);
    assert_eq!(r, Ok(()));
    assert_eq!(reg.slashed_funds, 40);
    assert_eq!(reg.services[0].operator_bonds[0].bond, 60);
}

#[test]
fn slash_rejects_foreign_caller() {
    let (mut reg, _ledger, msig) = deployed_service();
    let r = slash(&mut reg, msig + 1, 1, &vec![101], &vec![40]);
    assert_eq!(r, Err(ErrorCode::OnlyOwnServiceMultisig));
}

#[test]
fn slash_rejects_zero_amount() {
    let (mut reg, _ledger, msig) = deployed_service();
    let r = slash(&mut reg, msig, 1, &vec![101], &vec![0]);
    assert_eq!(r, Err(ErrorCode::InvalidSlashAmount));
}

#[test]
fn slash_rejects_exhausted_bond() {
    let (mut reg, _ledger, msig) = deployed_service();
    slash(&mut reg, msig, 1, &vec![101], &vec![100]).unwrap();
    let r = slash(&mut reg, msig, 1, &vec![101], &vec![1]);
    assert_eq!(r, Err(ErrorCode::IncorrectAgentBondingValue));
}

#[test]
fn slash_rejects_unknown_instance() {
    let (mut reg, _ledger, msig) = deployed_service();
    let r = slash(&mut reg, msig, 1, &vec![999], &vec![10]);
    assert_eq!(r, Err(ErrorCode::ServiceAgentDoesNotExist));
}

#[test]
fn drain_sweeps_exact_pool() {
    // A drain after a 100-unit slash moves exactly 100 to the drainer and
    // zeroes the pool.
    let (mut reg, mut ledger, msig) = deployed_service();
    slash(&mut reg, msig, 1, &vec![101], &vec![150]).unwrap();
    let drainer_before = ledger.balance_of(DRAINER);
    let wallet_before = ledger.balance_of(WALLET);
    let r = drain(&mut reg, &mut ledger, DRAINER);
    assert_eq!(r, Ok(100));
    assert_eq!(reg.slashed_funds, 0);
    assert_eq!(ledger.balance_of(DRAINER), drainer_before + 100);
    assert_eq!(ledger.balance_of(WALLET), wallet_before - 100);
    // A second drain finds an empty pool.
    let r = drain(&mut reg, &mut ledger, DRAINER);
    assert_eq!(r, Ok(0));
}

#[test]
fn drain_needs_the_drainer() {
    let (mut reg, mut ledger, msig) = deployed_service();
    slash(&mut reg, msig, 1, &vec![101], &vec![50]).unwrap();
    let r = drain(&mut reg, &mut ledger, MANAGER);
    assert_eq!(r, Err(ErrorCode::IllegalOwner));
    assert_eq!(reg.slashed_funds, 50);
}

#[test]
fn termination_refunds_deposit_once_and_purges() {
    // Terminating a staffed service refunds the deposit, purges the role
    // and instance records, and parks the service in TerminatedBonded.
    let (mut reg, mut ledger, _msig) = deployed_service();
    let owner_before = ledger.balance_of(SVC_OWNER);
    let wallet_before = ledger.balance_of(WALLET);
    let r = terminate(&mut reg, &mut ledger, MANAGER, 1, SVC_OWNER);
    assert_eq!(r, Ok(()));
    let e = &reg.services[0];
    assert_eq!(e.account.state, ServiceState::TerminatedBonded);
    assert_eq!(e.account.security_deposit, 0);
    assert!(e.agent_ids_index.agent_ids.is_empty());
    assert!(e.slot_counters.is_empty());
    assert!(e.instance_records.is_empty());
    assert!(e.instances_index.service_agent_instances.is_empty());
    assert_eq!(ledger.balance_of(SVC_OWNER), owner_before + 100);
    assert_eq!(ledger.balance_of(WALLET), wallet_before - 100);
    // A second termination is refused: the deposit cannot be refunded
    // twice.
    let r = terminate(&mut reg, &mut ledger, MANAGER, 1, SVC_OWNER);
    assert_eq!(r, Err(ErrorCode::WrongServiceState));
}

#[test]
fn unbond_returns_bond_and_reopens_service() {
    // Unbonding the sole operator refunds the full bond, subtracts the
    // operator's instances and returns the service to PreRegistration.
    let (mut reg, mut ledger, _msig) = deployed_service();
    terminate(&mut reg, &mut ledger, MANAGER, 1, SVC_OWNER).unwrap();
    let op_before = ledger.balance_of(OPERATOR);
    let wallet_before = ledger.balance_of(WALLET);
    let r = unbond(&mut reg, &mut ledger, MANAGER, 1, OPERATOR);
    assert_eq!(r, Ok(100));
    let e = &reg.services[0];
    assert_eq!(e.account.num_agent_instances, 0);
    assert_eq!(e.account.state, ServiceState::PreRegistration);
    assert!(e.operator_bonds.is_empty());
    assert!(e.operator_indexes.is_empty());
    assert!(reg.operator_agent_instances.is_empty());
    assert_eq!(ledger.balance_of(OPERATOR), op_before + 100);
    assert_eq!(ledger.balance_of(WALLET), wallet_before - 100);
}

#[test]
fn unbond_needs_terminated_service() {
    let (mut reg, mut ledger, _msig) = deployed_service();
    let r = unbond(&mut reg, &mut ledger, MANAGER, 1, OPERATOR);
    assert_eq!(r, Err(ErrorCode::WrongServiceState));
}

#[test]
fn unbond_needs_instances() {
    let (mut reg, mut ledger, _msig) = deployed_service();
    terminate(&mut reg, &mut ledger, MANAGER, 1, SVC_OWNER).unwrap();
    let r = unbond(&mut reg, &mut ledger, MANAGER, 1, 999);
    assert_eq!(r, Err(ErrorCode::OperatorHasNoInstances));
}

#[test]
fn slashed_bond_reduces_unbond_refund() {
    // A slash of 60 leaves 40 to refund at unbonding.
    let (mut reg, mut ledger, msig) = deployed_service();
    slash(&mut reg, msig, 1, &vec![101], &vec![60]).unwrap();
    terminate(&mut reg, &mut ledger, MANAGER, 1, SVC_OWNER).unwrap();
    let r = unbond(&mut reg, &mut ledger, MANAGER, 1, OPERATOR);
    assert_eq!(r, Ok(40));
    // The forfeited 60 are still in the pool for the drainer.
    assert_eq!(reg.slashed_funds, 60);
    let r = drain(&mut reg, &mut ledger, DRAINER);
    assert_eq!(r, Ok(60));
}

#[test]
fn wallet_always_covers_deposits_bonds_and_pool() {
    // The custodial wallet holds at least the held deposit, every bond and
    // the slashed pool, at every step of the lifecycle.
    let (mut reg, mut ledger, msig) = deployed_service();
    let covers = |reg: &ServiceRegistry, ledger: &Ledger| {
        let e = &reg.services[0];
        let deposit = match e.account.state {
            ServiceState::ActiveRegistration
            | ServiceState::FinishedRegistration
            | ServiceState::Deployed => e.account.security_deposit,
            _ => 0,
        };
        let bonds: u64 = e.operator_bonds.iter().map(|b| b.bond).sum();
        assert!(ledger.balance_of(WALLET) >= deposit + bonds + reg.slashed_funds);
    };
    covers(&reg, &ledger);
    slash(&mut reg, msig, 1, &vec![101], &vec![150]).unwrap();
    covers(&reg, &ledger);
    drain(&mut reg, &mut ledger, DRAINER).unwrap();
    covers(&reg, &ledger);
    terminate(&mut reg, &mut ledger, MANAGER, 1, SVC_OWNER).unwrap();
    covers(&reg, &ledger);
    unbond(&mut reg, &mut ledger, MANAGER, 1, OPERATOR).unwrap();
    covers(&reg, &ledger);
}
