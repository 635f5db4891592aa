use vstd::prelude::*;

use crate::error::ErrorCode;
use crate::ledger::Ledger;
use crate::service_state::ServiceState;
use crate::state::{
    liability_fn, unchanged_core, ServiceAccount, ServiceAgentIdsIndex, ServiceAgentInstancesIndex,
    ServiceEntry, ServiceRegistry,
};
use crate::sums::{lemma_sum_by_push, lemma_sum_by_update};

verus! {

/// The Byzantine-quorum lower bound on a service's threshold:
/// `ceil((2 * max + 1) / 3)`.
pub open spec fn quorum(max: int) -> int {
    (2 * max + 3) / 3
}

/// True when a configuration hash is all zero and therefore refused.
pub open spec fn is_zero_hash(h: [u8; 32]) -> bool {
    forall|i: int| 0 <= i < 32 ==> h@[i] == 0
}

/// Whether a configuration hash is all zero.
pub fn zero_hash(h: &[u8; 32]) -> (r: bool)
    ensures
        r == is_zero_hash(*h),
{
    let mut i: usize = 0;
    while i < 32
        invariant
            i <= 32,
            forall|j: int| 0 <= j < i ==> h@[j] == 0,
        decreases 32 - i,
    {
        if h[i] != 0 {
            return false;
        }
        i = i + 1;
    }
    true
}

impl ServiceRegistry {
    /// Install the supplied threshold, if any, and check the service's
    /// threshold against its capacity: it must lie in
    /// `[quorum(max), max]`.
    pub fn validate_threshold(service: &mut ServiceAccount, threshold: Option<u32>) -> (r: Result<
        (),
        ErrorCode,
    >)
        ensures
            ({
                let t = match threshold {
                    Option::Some(v) => v,
                    Option::None => old(service).threshold,
                };
                match r {
                    Ok(()) => {
                        &&& quorum(old(service).max_num_agent_instances as int) <= t
                        &&& t <= old(service).max_num_agent_instances
                        &&& *final(service) == (ServiceAccount { threshold: t, ..*old(service) })
                    },
                    Err(e) => {
                        &&& *final(service) == *old(service)
                        &&& (e == ErrorCode::WrongThreshold <==> t < quorum(
                            old(service).max_num_agent_instances as int,
                        ))
                        &&& (e == ErrorCode::WrongThreshold2 <==> (t >= quorum(
                            old(service).max_num_agent_instances as int,
                        ) && t > old(service).max_num_agent_instances))
                        &&& (e == ErrorCode::WrongThreshold || e == ErrorCode::WrongThreshold2)
                    },
                }
            }),
    {
        let t: u32 = match threshold {
            Some(v) => v,
            None => service.threshold,
        };
        let max = service.max_num_agent_instances;
        let check_threshold: u64 = (2 * (max as u64) + 1 + 2) / 3;
        if (t as u64) < check_threshold {
            return Err(ErrorCode::WrongThreshold);
        }
        if t > max {
            return Err(ErrorCode::WrongThreshold2);
        }
        service.threshold = t;
        Ok(())
    }
}

/// Create a new service in `PreRegistration` and return its id, the next
/// value of the service counter.
///
/// Only the manager may create services; the owner must be nonzero and the
/// configuration hash must not be all zero. The threshold, when supplied,
/// is stored unvalidated: it is checked against capacity once the role
/// table is first populated.
pub fn create(
    registry: &mut ServiceRegistry,
    caller: u64,
    config_hash: [u8; 32],
    service_owner: u64,
    threshold: Option<u32>,
) -> (r: Result<u128, ErrorCode>)
    requires
        old(registry).wf(),
    ensures
        final(registry).wf(),
        final(registry).liabilities() == old(registry).liabilities(),
        match r {
            Ok(id) => {
                &&& !old(registry).locked
                &&& caller == old(registry).manager
                &&& service_owner != 0
                &&& !is_zero_hash(config_hash)
                &&& old(registry).total_supply < u128::MAX
                &&& id == old(registry).total_supply + 1
                &&& final(registry).total_supply == id
                &&& final(registry).services@.len() == old(registry).services@.len() + 1
                &&& final(registry).services@ =~= old(registry).services@.push(
                    final(registry).services@.last(),
                )
                &&& ({
                    let e = final(registry).services@.last();
                    &&& e.account.service_id == id
                    &&& e.account.service_owner == service_owner
                    &&& e.account.security_deposit == 0
                    &&& e.account.multisig == 0
                    &&& e.account.config_hash == config_hash
                    &&& e.account.threshold == (match threshold {
                        Option::Some(t) => t,
                        Option::None => 0u32,
                    })
                    &&& e.account.max_num_agent_instances == 0
                    &&& e.account.num_agent_instances == 0
                    &&& e.account.state == ServiceState::PreRegistration
                    &&& e.roles().len() == 0
                    &&& e.slot_counters@.len() == 0
                    &&& e.instances_index.service_agent_instances@.len() == 0
                    &&& e.instance_records@.len() == 0
                    &&& e.operator_indexes@.len() == 0
                    &&& e.operator_bonds@.len() == 0
                })
                &&& final(registry).slashed_funds == old(registry).slashed_funds
                &&& final(registry).operator_agent_instances@ == old(
                    registry,
                ).operator_agent_instances@
                &&& final(registry).manager == old(registry).manager
                &&& final(registry).owner == old(registry).owner
                &&& final(registry).drainer == old(registry).drainer
                &&& final(registry).wallet_key == old(registry).wallet_key
                &&& final(registry).locked == old(registry).locked
            },
            Err(e) => {
                &&& *final(registry) == *old(registry)
                &&& (e == ErrorCode::ReentrancyGuard || e == ErrorCode::InvalidAccountOwner || e
                    == ErrorCode::InvalidArgument || e == ErrorCode::ZeroConfigHash || e
                    == ErrorCode::Overflow)
                &&& (e == ErrorCode::ReentrancyGuard <==> old(registry).locked)
                &&& (e == ErrorCode::InvalidAccountOwner <==> (!old(registry).locked && caller
                    != old(registry).manager))
                &&& (e == ErrorCode::InvalidArgument <==> (!old(registry).locked && caller == old(
                    registry,
                ).manager && service_owner == 0))
                &&& (e == ErrorCode::ZeroConfigHash <==> (!old(registry).locked && caller == old(
                    registry,
                ).manager && service_owner != 0 && is_zero_hash(config_hash)))
                &&& (e == ErrorCode::Overflow <==> (!old(registry).locked && caller == old(
                    registry,
                ).manager && service_owner != 0 && !is_zero_hash(config_hash) && old(
                    registry,
                ).total_supply == u128::MAX))
            },
        },
        r is Ok <==> (!old(registry).locked && caller == old(registry).manager && service_owner
            != 0 && !is_zero_hash(config_hash) && old(registry).total_supply < u128::MAX),
{
    if registry.locked {
        return Err(ErrorCode::ReentrancyGuard);
    }
    if caller != registry.manager {
        return Err(ErrorCode::InvalidAccountOwner);
    }
    if service_owner == 0 {
        return Err(ErrorCode::InvalidArgument);
    }
    if zero_hash(&config_hash) {
        return Err(ErrorCode::ZeroConfigHash);
    }
    if registry.total_supply == u128::MAX {
        return Err(ErrorCode::Overflow);
    }
    let service_id = registry.total_supply + 1;
    let threshold_value: u32 = match threshold {
        Some(t) => t,
        None => 0,
    };
    let entry = ServiceEntry {
        account: ServiceAccount {
            service_id,
            service_owner,
            security_deposit: 0,
            multisig: 0,
            config_hash,
            threshold: threshold_value,
            max_num_agent_instances: 0,
            num_agent_instances: 0,
            state: ServiceState::PreRegistration,
        },
        agent_ids_index: ServiceAgentIdsIndex { agent_ids: Vec::new() },
        slot_counters: Vec::new(),
        instances_index: ServiceAgentInstancesIndex { service_agent_instances: Vec::new() },
        instance_records: Vec::new(),
        operator_indexes: Vec::new(),
        operator_bonds: Vec::new(),
    };
    let ghost s0 = registry.services@;
    let ghost e_ghost = entry;
    registry.services.push(entry);
    registry.total_supply = service_id;
    proof {
        lemma_sum_by_push(s0, e_ghost, liability_fn());
        assert(liability_fn()(e_ghost) == 0);
    }
    Ok(service_id)
}

/// Re-validate and update a service's configuration while it is still in
/// `PreRegistration`: only the manager may do so, the supplied owner must
/// match, the new hash must not be all zero, and the threshold must satisfy
/// the quorum bounds against the current capacity.
pub fn update(
    registry: &mut ServiceRegistry,
    caller: u64,
    service_id: u128,
    config_hash: [u8; 32],
    service_owner: u64,
    threshold: Option<u32>,
) -> (r: Result<(), ErrorCode>)
    requires
        old(registry).wf(),
    ensures
        final(registry).wf(),
        final(registry).liabilities() == old(registry).liabilities(),
        unchanged_core(final(registry), old(registry)),
        final(registry).slashed_funds == old(registry).slashed_funds,
        final(registry).operator_agent_instances@ == old(registry).operator_agent_instances@,
        ({
            let found = old(registry).has_service(service_id);
            let e0 = old(registry).service(service_id);
            let t = match threshold {
                Option::Some(v) => v,
                Option::None => e0.account.threshold,
            };
            match r {
                Ok(()) => {
                    &&& caller == old(registry).manager
                    &&& found
                    &&& e0.account.service_owner == service_owner
                    &&& e0.account.state == ServiceState::PreRegistration
                    &&& !is_zero_hash(config_hash)
                    &&& quorum(e0.account.max_num_agent_instances as int) <= t
                    &&& t <= e0.account.max_num_agent_instances
                    &&& final(registry).services@ =~= old(registry).services@.update(
                        old(registry).service_index(service_id),
                        final(registry).service(service_id),
                    )
                    &&& final(registry).service(service_id).account == (ServiceAccount {
                        config_hash,
                        threshold: t,
                        ..e0.account
                    })
                    &&& final(registry).service(service_id).agent_ids_index.agent_ids@
                        == e0.agent_ids_index.agent_ids@
                    &&& final(registry).service(service_id).slot_counters == e0.slot_counters
                    &&& final(registry).service(service_id).instances_index
                        == e0.instances_index
                    &&& final(registry).service(service_id).instance_records
                        == e0.instance_records
                    &&& final(registry).service(service_id).operator_indexes
                        == e0.operator_indexes
                    &&& final(registry).service(service_id).operator_bonds@ == e0.operator_bonds@
                },
                Err(e) => {
                    &&& *final(registry) == *old(registry)
                    &&& (e == ErrorCode::InvalidAccountOwner || e == ErrorCode::ServiceNotFound
                        || e == ErrorCode::InvalidArgument || e == ErrorCode::WrongServiceState
                        || e == ErrorCode::ZeroConfigHash || e == ErrorCode::WrongThreshold || e
                        == ErrorCode::WrongThreshold2)
                    &&& (e == ErrorCode::InvalidAccountOwner <==> caller != old(registry).manager)
                    &&& (e == ErrorCode::ServiceNotFound <==> (caller == old(registry).manager
                        && !found))
                    &&& (e == ErrorCode::InvalidArgument <==> (caller == old(registry).manager
                        && found && e0.account.service_owner != service_owner))
                    &&& (e == ErrorCode::WrongServiceState <==> (caller == old(registry).manager
                        && found && e0.account.service_owner == service_owner && e0.account.state
                        != ServiceState::PreRegistration))
                    &&& (e == ErrorCode::ZeroConfigHash <==> (caller == old(registry).manager
                        && found && e0.account.service_owner == service_owner && e0.account.state
                        == ServiceState::PreRegistration && is_zero_hash(config_hash)))
                    &&& (e == ErrorCode::WrongThreshold <==> (caller == old(registry).manager
                        && found && e0.account.service_owner == service_owner && e0.account.state
                        == ServiceState::PreRegistration && !is_zero_hash(config_hash) && t
                        < quorum(e0.account.max_num_agent_instances as int)))
                    &&& (e == ErrorCode::WrongThreshold2 <==> (caller == old(registry).manager
                        && found && e0.account.service_owner == service_owner && e0.account.state
                        == ServiceState::PreRegistration && !is_zero_hash(config_hash) && t
                        >= quorum(e0.account.max_num_agent_instances as int) && t
                        > e0.account.max_num_agent_instances))
                },
            }
        }),
{
    if caller != registry.manager {
        return Err(ErrorCode::InvalidAccountOwner);
    }
    let i = match registry.find_service(service_id) {
        Some(i) => i,
        None => {
            return Err(ErrorCode::ServiceNotFound);
        },
    };
    proof {
        registry.lemma_service_at(i as int);
    }
    if registry.services[i].account.service_owner != service_owner {
        return Err(ErrorCode::InvalidArgument);
    }
    if registry.services[i].account.state != ServiceState::PreRegistration {
        return Err(ErrorCode::WrongServiceState);
    }
    if zero_hash(&config_hash) {
        return Err(ErrorCode::ZeroConfigHash);
    }
    let mut account = registry.services[i].account;
    match ServiceRegistry::validate_threshold(&mut account, threshold) {
        Ok(()) => {},
        Err(e) => {
            return Err(e);
        },
    }
    account.config_hash = config_hash;
    let ghost s0 = registry.services@;
    let entry = &mut registry.services[i];
    entry.account = account;
    proof {
        let k = i as int;
        assert(final(registry).services@ =~= s0.update(k, final(registry).services@[k]));
        final(registry).lemma_service_at(k);
        lemma_sum_by_update(s0, k, final(registry).services@[k], liability_fn());
        assert(liability_fn()(final(registry).services@[k]) == liability_fn()(s0[k]));
    }
    Ok(())
}

/// Report whether a service is properly set up: it must exist and its role
/// table must not be empty.
pub fn check_service(registry: &ServiceRegistry, service_id: u128) -> (r: Result<(), ErrorCode>)
    requires
        registry.wf(),
    ensures
        match r {
            Ok(()) => registry.has_service(service_id) && registry.service(
                service_id,
            ).roles().len() > 0,
            Err(e) => {
                &&& (e == ErrorCode::ServiceNotFound || e == ErrorCode::InvalidServiceAgentPda)
                &&& (e == ErrorCode::ServiceNotFound <==> !registry.has_service(service_id))
                &&& (e == ErrorCode::InvalidServiceAgentPda <==> (registry.has_service(service_id)
                    && registry.service(service_id).roles().len() == 0))
            },
        },
        r is Ok <==> (registry.has_service(service_id) && registry.service(service_id).roles().len()
            > 0),
{
    let i = match registry.find_service(service_id) {
        Some(i) => i,
        None => {
            return Err(ErrorCode::ServiceNotFound);
        },
    };
    proof {
        registry.lemma_service_at(i as int);
    }
    if registry.services[i].agent_ids_index.agent_ids.len() == 0 {
        return Err(ErrorCode::InvalidServiceAgentPda);
    }
    Ok(())
}

/// Move a `PreRegistration` service to `ActiveRegistration` by taking the
/// exact security deposit from the caller into the custodial wallet.
///
/// Only the manager may activate; the transfer must move exactly the
/// deposit, verified against the caller's pre and post balances.
pub fn activate_registration(
    registry: &mut ServiceRegistry,
    ledger: &mut Ledger,
    caller: u64,
    service_id: u128,
    service_owner: u64,
) -> (r: Result<(), ErrorCode>)
    requires
        old(registry).wf(),
        old(ledger).wf(),
        old(registry).liabilities() <= old(ledger).bal(old(registry).wallet_key),
    ensures
        final(registry).wf(),
        final(ledger).wf(),
        final(registry).liabilities() <= final(ledger).bal(final(registry).wallet_key),
        unchanged_core(final(registry), old(registry)),
        final(registry).slashed_funds == old(registry).slashed_funds,
        final(registry).operator_agent_instances@ == old(registry).operator_agent_instances@,
        ({
            let found = old(registry).has_service(service_id);
            let e0 = old(registry).service(service_id);
            let deposit = e0.account.security_deposit;
            let wallet = old(registry).wallet_key;
            match r {
                Ok(()) => {
                    &&& caller == old(registry).manager
                    &&& service_owner != 0
                    &&& found
                    &&& e0.account.state == ServiceState::PreRegistration
                    &&& old(ledger).bal(caller) >= deposit
                    &&& final(registry).services@ =~= old(registry).services@.update(
                        old(registry).service_index(service_id),
                        final(registry).service(service_id),
                    )
                    &&& final(registry).service(service_id).account == (ServiceAccount {
                        state: ServiceState::ActiveRegistration,
                        ..e0.account
                    })
                    &&& final(registry).service(service_id).agent_ids_index
                        == e0.agent_ids_index
                    &&& final(registry).service(service_id).slot_counters == e0.slot_counters
                    &&& final(registry).service(service_id).instances_index
                        == e0.instances_index
                    &&& final(registry).service(service_id).instance_records
                        == e0.instance_records
                    &&& final(registry).service(service_id).operator_indexes
                        == e0.operator_indexes
                    &&& final(registry).service(service_id).operator_bonds@ == e0.operator_bonds@
                    &&& if caller != wallet {
                        &&& final(ledger).bal(caller) == old(ledger).bal(caller) - deposit
                        &&& final(ledger).bal(wallet) == old(ledger).bal(wallet) + deposit
                        &&& forall|a: u64|
                            a != caller && a != wallet ==> final(ledger).bal(a) == old(ledger).bal(
                                a,
                            )
                    } else {
                        &&& deposit == 0
                        &&& forall|a: u64| final(ledger).bal(a) == old(ledger).bal(a)
                    }
                },
                Err(e) => {
                    &&& *final(registry) == *old(registry)
                    &&& *final(ledger) == *old(ledger)
                    &&& (e == ErrorCode::InvalidAccountOwner || e == ErrorCode::InvalidArgument
                        || e == ErrorCode::ServiceNotFound || e == ErrorCode::ServiceMustBeInactive
                        || e == ErrorCode::IncorrectRegistrationDepositValue || e
                        == ErrorCode::Overflow)
                    &&& (e == ErrorCode::InvalidAccountOwner <==> caller != old(registry).manager)
                    &&& (e == ErrorCode::InvalidArgument <==> (caller == old(registry).manager
                        && service_owner == 0))
                    &&& (e == ErrorCode::ServiceNotFound <==> (caller == old(registry).manager
                        && service_owner != 0 && !found))
                    &&& (e == ErrorCode::ServiceMustBeInactive <==> (caller == old(registry).manager
                        && service_owner != 0 && found && e0.account.state
                        != ServiceState::PreRegistration))
                    &&& (e == ErrorCode::IncorrectRegistrationDepositValue <==> (caller == old(
                        registry,
                    ).manager && service_owner != 0 && found && e0.account.state
                        == ServiceState::PreRegistration && (old(ledger).bal(caller) < deposit || (
                        old(ledger).bal(caller) >= deposit && caller == wallet && deposit > 0))))
                    &&& (e == ErrorCode::Overflow <==> (caller == old(registry).manager
                        && service_owner != 0 && found && e0.account.state
                        == ServiceState::PreRegistration && old(ledger).bal(caller) >= deposit
                        && caller != wallet && old(ledger).bal(wallet) + deposit > u64::MAX))
                },
            }
        }),
{
    if caller != registry.manager {
        return Err(ErrorCode::InvalidAccountOwner);
    }
    if service_owner == 0 {
        return Err(ErrorCode::InvalidArgument);
    }
    let i = match registry.find_service(service_id) {
        Some(i) => i,
        None => {
            return Err(ErrorCode::ServiceNotFound);
        },
    };
    proof {
        registry.lemma_service_at(i as int);
    }
    if registry.services[i].account.state != ServiceState::PreRegistration {
        return Err(ErrorCode::ServiceMustBeInactive);
    }
    let deposit = registry.services[i].account.security_deposit;
    let user_pre_balance = ledger.balance_of(caller);
    if user_pre_balance < deposit {
        return Err(ErrorCode::IncorrectRegistrationDepositValue);
    }
    let (pre, post) = match ledger.transfer(caller, registry.wallet_key, deposit) {
        Ok(pp) => pp,
        Err(e) => {
            return Err(e);
        },
    };
    if pre - post != deposit {
        // The ledger moved something other than the exact deposit; with
        // `caller == wallet` nothing moves, so a nonzero deposit is refused.
        return Err(ErrorCode::IncorrectRegistrationDepositValue);
    }
    let ghost s0 = registry.services@;
    let entry = &mut registry.services[i];
    entry.account.state = ServiceState::ActiveRegistration;
    proof {
        let k = i as int;
        assert(final(registry).services@ =~= s0.update(k, final(registry).services@[k]));
        final(registry).lemma_service_at(k);
        lemma_sum_by_update(s0, k, final(registry).services@[k], liability_fn());
        assert(liability_fn()(final(registry).services@[k]) == liability_fn()(s0[k]) + deposit);
    }
    Ok(())
}

} // verus!
