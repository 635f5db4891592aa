use vstd::prelude::*;

use crate::agent_ops::set_roles_outcome;
use crate::ledger::Ledger;
use crate::service_ops::quorum;
use crate::state::{AgentParams, ServiceRegistry};

verus! {

/// Every successful role-table update leaves the threshold inside the
/// Byzantine-quorum window: at least `ceil((2 * capacity + 1) / 3)` and at
/// most the capacity.
pub proof fn lemma_threshold_in_quorum_window(
    registry: ServiceRegistry,
    caller: u64,
    service_id: u128,
    service_owner: u64,
    ids: Seq<u32>,
    params: Seq<AgentParams>,
    threshold: Option<u32>,
)
    requires
        set_roles_outcome(registry, caller, service_id, service_owner, ids, params, threshold)
            is Ok,
    ensures
        ({
            let u = set_roles_outcome(
                registry,
                caller,
                service_id,
                service_owner,
                ids,
                params,
                threshold,
            )->Ok_0;
            quorum(u.max_num) <= u.threshold && u.threshold <= u.max_num
        }),
{
}

/// In every well-formed registry, each slot counter stays within its
/// role's capacity: occupied slots never exceed the slots the role offers.
pub proof fn lemma_slot_counter_within_capacity(
    registry: ServiceRegistry,
    service_id: u128,
    agent_id: u32,
)
    requires
        registry.wf(),
        registry.has_service(service_id),
        registry.service(service_id).has_role(agent_id),
    ensures
        0 <= registry.service(service_id).slot_count(agent_id),
        registry.service(service_id).slot_count(agent_id) <= registry.service(service_id).role(
            agent_id,
        ).slots,
{
    let e = registry.service(service_id);
    let idx = registry.service_index(service_id);
    assert(registry.services@[idx].wf());
    let counters = e.slot_counters@;
    if exists|i: int| 0 <= i < counters.len() && (#[trigger] counters[i]).agent_id == agent_id {
        let i = choose|i: int|
            0 <= i < counters.len() && (#[trigger] counters[i]).agent_id == agent_id;
        e.lemma_slot_count_at(i);
        let j = choose|j: int|
            0 <= j < e.roles().len() && (#[trigger] e.roles()[j]).agent_id == counters[i].agent_id
                && counters[i].counter.count <= e.roles()[j].slots;
        e.lemma_role_at(j);
    } else {
        e.lemma_slot_count_absent(agent_id);
        let j = e.role_index(agent_id);
        assert(0 <= j < e.roles().len() && e.roles()[j].agent_id == agent_id);
    }
}

/// In every well-formed registry whose custodial wallet covers its
/// liabilities, the bonds of a service never exceed the wallet's balance:
/// staked value is always backed by value actually held.
pub proof fn lemma_bonds_backed_by_wallet(
    registry: ServiceRegistry,
    ledger: Ledger,
    service_id: u128,
)
    requires
        registry.wf(),
        registry.has_service(service_id),
        registry.liabilities() <= ledger.bal(registry.wallet_key),
    ensures
        registry.service(service_id).bonds_total() <= ledger.bal(registry.wallet_key),
        registry.slashed_funds + registry.service(service_id).bonds_total() <= ledger.bal(
            registry.wallet_key,
        ),
{
    let idx = registry.service_index(service_id);
    crate::state::lemma_liability_bound(&registry, idx);
}

/// In every well-formed registry, the number of registered instances of a
/// service never exceeds its total slot capacity.
pub proof fn lemma_instances_within_capacity(registry: ServiceRegistry, service_id: u128)
    requires
        registry.wf(),
        registry.has_service(service_id),
    ensures
        registry.service(service_id).account.num_agent_instances <= registry.service(
            service_id,
        ).account.max_num_agent_instances,
{
    let idx = registry.service_index(service_id);
    assert(registry.services@[idx].wf());
}

} // verus!
