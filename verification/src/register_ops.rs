use vstd::prelude::*;

use crate::error::ErrorCode;
use crate::service_state::ServiceState;
use crate::state::{
    bonds_ok, count_fn, counters_ok, op_records_ok, records_ok, AgentParamAccount,
    OperatorAgentInstanceAccount, OperatorBondAccount, ServiceAgentInstanceAccount,
    ServiceRegistry, SlotCounterEntry, ServiceAgentSlotCounterAccount,
    MAX_AGENT_INSTANCES_PER_SERVICE,
};
use crate::agent_ops::{table_has_role, table_role_index, table_sorted, table_nonzero};
use crate::sums::{lemma_sum_by_push, lemma_sum_by_single, lemma_sum_by_update, lemma_sum_by_zero, sum_by};

verus! {

/// True when a counter for this role exists.
pub open spec fn has_counter(s: Seq<SlotCounterEntry>, agent_id: u32) -> bool {
    exists|i: int| 0 <= i < s.len() && s[i].agent_id == agent_id
}

/// Index of the counter for this role (meaningful only when present).
pub open spec fn counter_index(s: Seq<SlotCounterEntry>, agent_id: u32) -> int {
    choose|i: int| 0 <= i < s.len() && s[i].agent_id == agent_id
}

/// Number of occupied slots of a role; a missing counter counts as zero.
pub open spec fn counter_count(s: Seq<SlotCounterEntry>, agent_id: u32) -> int {
    sum_by(s, count_fn(agent_id))
}

/// The counters after one more instance fills a slot of this role: the
/// existing counter is incremented, or a fresh counter at one is added.
pub open spec fn bump_counter(s: Seq<SlotCounterEntry>, agent_id: u32) -> Seq<SlotCounterEntry> {
    if has_counter(s, agent_id) {
        let i = counter_index(s, agent_id);
        s.update(
            i,
            SlotCounterEntry {
                agent_id,
                counter: ServiceAgentSlotCounterAccount { count: (s[i].counter.count + 1) as u32 },
            },
        )
    } else {
        s.push(
            SlotCounterEntry { agent_id, counter: ServiceAgentSlotCounterAccount { count: 1 } },
        )
    }
}

/// True when an ownership record for this instance exists.
pub open spec fn records_have_instance(s: Seq<ServiceAgentInstanceAccount>, instance: u64) -> bool {
    exists|i: int| 0 <= i < s.len() && s[i].agent_instance == instance
}

/// True when an (instance, operator) record exists.
pub open spec fn op_records_have(
    s: Seq<OperatorAgentInstanceAccount>,
    instance: u64,
    operator: u64,
) -> bool {
    exists|i: int|
        0 <= i < s.len() && s[i].agent_instance == instance && s[i].operator == operator
}

/// The per-service registration state one instance registration reads and
/// writes.
pub struct RegView {
    /// Slot counters of the service.
    pub counters: Seq<SlotCounterEntry>,
    /// The service's instance index.
    pub instances: Seq<u64>,
    /// The service's ownership records.
    pub records: Seq<ServiceAgentInstanceAccount>,
    /// The registry-wide (instance, operator) records.
    pub op_records: Seq<OperatorAgentInstanceAccount>,
    /// The registering operator's instance index.
    pub op_index: Seq<u64>,
    /// The service's instance count.
    pub num: int,
}

/// Registering one instance against one role: all capacity and uniqueness
/// checks, then the bookkeeping a success performs.
pub open spec fn reg_step(
    roles: Seq<AgentParamAccount>,
    service_id: u128,
    operator: u64,
    max: u32,
    v: RegView,
    agent_id: u32,
    instance: u64,
) -> Result<RegView, ErrorCode> {
    let role = roles[table_role_index(roles, agent_id)];
    if counter_count(v.counters, agent_id) >= role.slots {
        Err(ErrorCode::AgentInstancesSlotsFilled)
    } else if records_have_instance(v.records, instance) {
        Err(ErrorCode::AccountServiceAgentIdInstanceExists)
    } else if op_records_have(v.op_records, instance, operator) {
        Err(ErrorCode::AccountAgentIdInstanceOperatorExists)
    } else if v.num + 1 > max {
        Err(ErrorCode::IncorrectAgentInstances)
    } else if v.op_index.len() >= MAX_AGENT_INSTANCES_PER_SERVICE {
        Err(ErrorCode::MaxAgentInstancesPerServiceReached)
    } else {
        Ok(
            RegView {
                counters: bump_counter(v.counters, agent_id),
                instances: v.instances.push(instance),
                records: v.records.push(
                    ServiceAgentInstanceAccount { service_id, agent_id, agent_instance: instance },
                ),
                op_records: v.op_records.push(
                    OperatorAgentInstanceAccount { operator, agent_instance: instance },
                ),
                op_index: v.op_index.push(instance),
                num: v.num + 1,
            },
        )
    }
}

/// The registration state after the first `k` instances of a batch.
pub open spec fn reg_batch(
    roles: Seq<AgentParamAccount>,
    service_id: u128,
    operator: u64,
    max: u32,
    v: RegView,
    ids: Seq<u32>,
    instances: Seq<u64>,
    k: int,
) -> Result<RegView, ErrorCode>
    decreases k,
{
    if k <= 0 {
        Ok(v)
    } else {
        match reg_batch(roles, service_id, operator, max, v, ids, instances, k - 1) {
            Ok(prev) => reg_step(
                roles,
                service_id,
                operator,
                max,
                prev,
                ids[k - 1],
                instances[k - 1],
            ),
            Err(e) => Err(e),
        }
    }
}

/// Total bond the first `k` requested roles charge, or the error the
/// lookup earns: every requested role must exist with nonzero slots, and
/// the running sum must fit in a `u64`.
pub open spec fn roles_bond(roles: Seq<AgentParamAccount>, ids: Seq<u32>, k: int) -> Result<
    int,
    ErrorCode,
>
    decreases k,
{
    if k <= 0 {
        Ok(0int)
    } else {
        match roles_bond(roles, ids, k - 1) {
            Ok(total) => {
                let id = ids[k - 1];
                if !table_has_role(roles, id) || roles[table_role_index(roles, id)].slots == 0 {
                    Err(ErrorCode::AgentNotInService)
                } else if total + roles[table_role_index(roles, id)].bond > u64::MAX {
                    Err(ErrorCode::Overflow)
                } else {
                    Ok(total + roles[table_role_index(roles, id)].bond)
                }
            },
            Err(e) => Err(e),
        }
    }
}

/// The operator bonds after one registration call: the operator's record
/// grows by the call's total bond, or a fresh record holding it is added.
pub open spec fn bond_upsert(
    s: Seq<OperatorBondAccount>,
    service_id: u128,
    operator: u64,
    total: u64,
) -> Seq<OperatorBondAccount> {
    if exists|i: int| 0 <= i < s.len() && s[i].operator == operator {
        let i = choose|i: int| 0 <= i < s.len() && s[i].operator == operator;
        s.update(
            i,
            OperatorBondAccount { service_id, operator, bond: (s[i].bond + total) as u64 },
        )
    } else {
        s.push(OperatorBondAccount { service_id, operator, bond: total })
    }
}

/// Once the bond lookup fails, it fails the same way for every longer
/// prefix.
pub proof fn lemma_roles_bond_err_persists(
    roles: Seq<AgentParamAccount>,
    ids: Seq<u32>,
    k: int,
    m: int,
    e: ErrorCode,
)
    requires
        0 <= k <= m,
        roles_bond(roles, ids, k) == Err::<int, ErrorCode>(e),
    ensures
        roles_bond(roles, ids, m) == Err::<int, ErrorCode>(e),
    decreases m - k,
{
    if m > k {
        lemma_roles_bond_err_persists(roles, ids, k, m - 1, e);
    }
}

/// A successful bond lookup pins every requested role: each exists with
/// nonzero slots.
pub proof fn lemma_roles_bond_ok(roles: Seq<AgentParamAccount>, ids: Seq<u32>, k: int)
    requires
        0 <= k <= ids.len(),
        roles_bond(roles, ids, k) is Ok,
    ensures
        forall|j: int|
            0 <= j < k ==> table_has_role(roles, #[trigger] ids[j]) && roles[table_role_index(
                roles,
                ids[j],
            )].slots > 0,
    decreases k,
{
    if k > 0 {
        assert(roles_bond(roles, ids, k - 1) is Ok);
        lemma_roles_bond_ok(roles, ids, k - 1);
    }
}

/// Once a registration step fails, the batch fails the same way for every
/// longer prefix.
pub proof fn lemma_reg_batch_err_persists(
    roles: Seq<AgentParamAccount>,
    service_id: u128,
    operator: u64,
    max: u32,
    v: RegView,
    ids: Seq<u32>,
    instances: Seq<u64>,
    k: int,
    m: int,
    e: ErrorCode,
)
    requires
        0 <= k <= m,
        reg_batch(roles, service_id, operator, max, v, ids, instances, k) == Err::<
            RegView,
            ErrorCode,
        >(e),
    ensures
        reg_batch(roles, service_id, operator, max, v, ids, instances, m) == Err::<
            RegView,
            ErrorCode,
        >(e),
    decreases m - k,
{
    if m > k {
        lemma_reg_batch_err_persists(
            roles,
            service_id,
            operator,
            max,
            v,
            ids,
            instances,
            k,
            m - 1,
            e,
        );
    }
}

/// With uniquely keyed counters, the counter found at `k` is the one the
/// spec-level lookup denotes.
proof fn lemma_counter_index_unique(s: Seq<SlotCounterEntry>, agent_id: u32, k: int)
    requires
        forall|i: int, j: int| 0 <= i < j < s.len() ==> s[i].agent_id != s[j].agent_id,
        0 <= k < s.len(),
        s[k].agent_id == agent_id,
    ensures
        has_counter(s, agent_id),
        counter_index(s, agent_id) == k,
        counter_count(s, agent_id) == s[k].counter.count,
{
    assert(has_counter(s, agent_id));
    let i0 = counter_index(s, agent_id);
    if i0 != k {
        if i0 < k {
            assert(s[i0].agent_id != s[k].agent_id);
        } else {
            assert(s[k].agent_id != s[i0].agent_id);
        }
    }
    lemma_sum_by_single(s, k, count_fn(agent_id));
}

/// A role without a counter has a zero count.
proof fn lemma_counter_absent(s: Seq<SlotCounterEntry>, agent_id: u32)
    requires
        forall|j: int| 0 <= j < s.len() ==> (#[trigger] s[j]).agent_id != agent_id,
    ensures
        counter_count(s, agent_id) == 0,
{
    lemma_sum_by_zero(s, count_fn(agent_id));
}

impl ServiceRegistry {
    /// Access and state checks of an instance registration: the caller must
    /// be the manager, the arrays must match in length, and the service
    /// must be accepting registrations.
    pub fn check_access_and_state(
        registry: &ServiceRegistry,
        caller: u64,
        service_state: &ServiceState,
        agent_instances: &Vec<u64>,
        agent_ids: &Vec<u32>,
    ) -> (r: Result<(), ErrorCode>)
        ensures
            match r {
                Ok(()) => caller == registry.manager && agent_instances@.len() == agent_ids@.len()
                    && *service_state == ServiceState::ActiveRegistration,
                Err(e) => {
                    &&& (e == ErrorCode::InvalidAccountOwner || e == ErrorCode::WrongArrayLength
                        || e == ErrorCode::WrongServiceState)
                    &&& (e == ErrorCode::InvalidAccountOwner <==> caller != registry.manager)
                    &&& (e == ErrorCode::WrongArrayLength <==> (caller == registry.manager
                        && agent_instances@.len() != agent_ids@.len()))
                    &&& (e == ErrorCode::WrongServiceState <==> (caller == registry.manager
                        && agent_instances@.len() == agent_ids@.len() && *service_state
                        != ServiceState::ActiveRegistration))
                },
            },
    {
        if caller != registry.manager {
            return Err(ErrorCode::InvalidAccountOwner);
        }
        if agent_instances.len() != agent_ids.len() {
            return Err(ErrorCode::WrongArrayLength);
        }
        if *service_state != ServiceState::ActiveRegistration {
            return Err(ErrorCode::WrongServiceState);
        }
        Ok(())
    }

    /// Look up the requested roles and add up the bond the call charges:
    /// one bond per requested role, each of which must exist with nonzero
    /// slots.
    pub fn load_and_validate_agent_params(
        roles: &Vec<AgentParamAccount>,
        agent_ids: &Vec<u32>,
    ) -> (r: Result<(Vec<AgentParamAccount>, u64), ErrorCode>)
        requires
            table_sorted(roles@),
        ensures
            match r {
                Ok(p) => {
                    &&& roles_bond(roles@, agent_ids@, agent_ids@.len() as int) == Ok::<
                        int,
                        ErrorCode,
                    >(p.1 as int)
                    &&& p.0@.len() == agent_ids@.len()
                    &&& forall|k: int|
                        0 <= k < agent_ids@.len() ==> (#[trigger] p.0@[k])
                            == roles@[table_role_index(roles@, agent_ids@[k])]
                },
                Err(e) => roles_bond(roles@, agent_ids@, agent_ids@.len() as int) == Err::<
                    int,
                    ErrorCode,
                >(e),
            },
    {
        let n = agent_ids.len();
        let mut agent_params: Vec<AgentParamAccount> = Vec::new();
        let mut total_bond: u64 = 0;
        let mut k: usize = 0;
        while k < n
            invariant
                k <= n,
                n == agent_ids@.len(),
                table_sorted(roles@),
                agent_params@.len() == k,
                roles_bond(roles@, agent_ids@, k as int) == Ok::<int, ErrorCode>(
                    total_bond as int,
                ),
                forall|j: int|
                    0 <= j < k ==> (#[trigger] agent_params@[j]) == roles@[table_role_index(
                        roles@,
                        agent_ids@[j],
                    )],
            decreases n - k,
        {
            let id = agent_ids[k];
            let found = crate::state::find_role_in(roles, id);
            match found {
                Some(ri) => {
                    proof {
                        crate::agent_ops::lemma_table_index_unique(roles@, id, ri as int);
                    }
                    let param = roles[ri];
                    if param.slots == 0 {
                        proof {
                            assert(roles_bond(roles@, agent_ids@, k as int + 1) == Err::<
                                int,
                                ErrorCode,
                            >(ErrorCode::AgentNotInService));
                            lemma_roles_bond_err_persists(
                                roles@,
                                agent_ids@,
                                k as int + 1,
                                n as int,
                                ErrorCode::AgentNotInService,
                            );
                        }
                        return Err(ErrorCode::AgentNotInService);
                    }
                    if param.bond > u64::MAX - total_bond {
                        proof {
                            assert(roles_bond(roles@, agent_ids@, k as int + 1) == Err::<
                                int,
                                ErrorCode,
                            >(ErrorCode::Overflow));
                            lemma_roles_bond_err_persists(
                                roles@,
                                agent_ids@,
                                k as int + 1,
                                n as int,
                                ErrorCode::Overflow,
                            );
                        }
                        return Err(ErrorCode::Overflow);
                    }
                    total_bond = total_bond + param.bond;
                    let ghost pp = agent_params@;
                    agent_params.push(param);
                    proof {
                        assert(roles_bond(roles@, agent_ids@, k as int + 1) == Ok::<
                            int,
                            ErrorCode,
                        >(total_bond as int));
                        assert forall|j: int| 0 <= j < k as int + 1 implies (
                        #[trigger] agent_params@[j]) == roles@[table_role_index(
                            roles@,
                            agent_ids@[j],
                        )] by {
                            if j < k as int {
                                assert(agent_params@[j] == pp[j]);
                            } else {
                                assert(agent_params@[j] == param);
                            }
                        }
                    }
                },
                None => {
                    proof {
                        assert(!table_has_role(roles@, id));
                        assert(roles_bond(roles@, agent_ids@, k as int + 1) == Err::<
                            int,
                            ErrorCode,
                        >(ErrorCode::AgentNotInService));
                        lemma_roles_bond_err_persists(
                            roles@,
                            agent_ids@,
                            k as int + 1,
                            n as int,
                            ErrorCode::AgentNotInService,
                        );
                    }
                    return Err(ErrorCode::AgentNotInService);
                },
            }
            k = k + 1;
        }
        Ok((agent_params, total_bond))
    }

    /// Check the registering operator: the zero account is refused, and an
    /// identifier already recorded as an agent instance may not act as an
    /// operator.
    pub fn validate_operator(registry: &ServiceRegistry, operator: u64) -> (r: Result<
        (),
        ErrorCode,
    >)
        ensures
            match r {
                Ok(()) => operator != 0 && !registry.is_recorded_instance(operator),
                Err(e) => {
                    &&& (e == ErrorCode::InvalidArgument || e == ErrorCode::WrongOperator)
                    &&& (e == ErrorCode::InvalidArgument <==> operator == 0)
                    &&& (e == ErrorCode::WrongOperator <==> (operator != 0
                        && registry.is_recorded_instance(operator)))
                },
            },
    {
        if operator == 0 {
            return Err(ErrorCode::InvalidArgument);
        }
        if registry.recorded_as_instance(operator) {
            return Err(ErrorCode::WrongOperator);
        }
        Ok(())
    }
}


impl ServiceRegistry {
    /// Register one instance against one role: bump the role's slot
    /// counter within its capacity, refuse an instance already claimed
    /// here or already tied to this operator, and append the bookkeeping
    /// records.
    #[verifier::rlimit(30)]
    pub fn register_single_instance(
        service_id: u128,
        operator: u64,
        roles: &Vec<AgentParamAccount>,
        max: u32,
        counters: &mut Vec<SlotCounterEntry>,
        instances: &mut Vec<u64>,
        records: &mut Vec<ServiceAgentInstanceAccount>,
        op_records: &mut Vec<OperatorAgentInstanceAccount>,
        op_index: &mut Vec<u64>,
        num: &mut u32,
        agent_id: u32,
        agent_instance: u64,
    ) -> (r: Result<(), ErrorCode>)
        requires
            table_sorted(roles@),
            table_nonzero(roles@),
            table_has_role(roles@, agent_id),
            counters_ok(old(counters)@, roles@),
            records_ok(old(records)@, service_id),
            op_records_ok(old(op_records)@),
        ensures
            ({
                let v0 = RegView {
                    counters: old(counters)@,
                    instances: old(instances)@,
                    records: old(records)@,
                    op_records: old(op_records)@,
                    op_index: old(op_index)@,
                    num: *old(num) as int,
                };
                let st = reg_step(roles@, service_id, operator, max, v0, agent_id, agent_instance);
                match r {
                    Ok(()) => {
                        &&& st == Ok::<RegView, ErrorCode>(
                            RegView {
                                counters: final(counters)@,
                                instances: final(instances)@,
                                records: final(records)@,
                                op_records: final(op_records)@,
                                op_index: final(op_index)@,
                                num: *final(num) as int,
                            },
                        )
                        &&& counters_ok(final(counters)@, roles@)
                        &&& records_ok(final(records)@, service_id)
                        &&& op_records_ok(final(op_records)@)
                        &&& *final(num) <= max
                        &&& final(op_index)@.len() <= MAX_AGENT_INSTANCES_PER_SERVICE
                    },
                    Err(e) => {
                        &&& st == Err::<RegView, ErrorCode>(e)
                        &&& final(counters)@ == old(counters)@
                        &&& final(instances)@ == old(instances)@
                        &&& final(records)@ == old(records)@
                        &&& final(op_records)@ == old(op_records)@
                        &&& final(op_index)@ == old(op_index)@
                        &&& *final(num) == *old(num)
                    },
                }
            }),
    {
        let ri = match crate::state::find_role_in(roles, agent_id) {
            Some(ri) => ri,
            None => {
                // Unreachable: the precondition guarantees the role exists.
                proof {
                    assert(false);
                }
                return Err(ErrorCode::AgentNotInService);
            },
        };
        proof {
            crate::agent_ops::lemma_table_index_unique(roles@, agent_id, ri as int);
        }
        let role = roles[ri];

        // Slot counter: find, check capacity, bump or create.
        let n_counters = counters.len();
        let mut ci_found: Option<usize> = None;
        let mut i: usize = 0;
        while i < n_counters
            invariant
                i <= n_counters,
                n_counters == counters@.len(),
                counters@ == old(counters)@,
                match ci_found {
                    Some(c) => c < i && counters@[c as int].agent_id == agent_id,
                    None => forall|j: int|
                        0 <= j < i ==> (#[trigger] counters@[j]).agent_id != agent_id,
                },
            decreases n_counters - i,
        {
            if counters[i].agent_id == agent_id {
                ci_found = Some(i);
            }
            i = i + 1;
        }
        let current_count: u32 = match ci_found {
            Some(c) => {
                proof {
                    lemma_counter_index_unique(counters@, agent_id, c as int);
                }
                counters[c].counter.count
            },
            None => {
                proof {
                    lemma_counter_absent(counters@, agent_id);
                }
                0
            },
        };
        if current_count >= role.slots {
            return Err(ErrorCode::AgentInstancesSlotsFilled);
        }

        // The instance must not already be claimed in this service.
        let n_records = records.len();
        let mut rec_exists = false;
        i = 0;
        while i < n_records
            invariant
                i <= n_records,
                n_records == records@.len(),
                records@ == old(records)@,
                rec_exists <==> exists|j: int|
                    0 <= j < i && (#[trigger] records@[j]).agent_instance == agent_instance,
            decreases n_records - i,
        {
            if records[i].agent_instance == agent_instance {
                rec_exists = true;
            }
            i = i + 1;
        }
        if rec_exists {
            return Err(ErrorCode::AccountServiceAgentIdInstanceExists);
        }
        proof {
            assert(!records_have_instance(records@, agent_instance));
        }

        // The (instance, operator) pair must be new.
        let n_oprec = op_records.len();
        let mut pair_exists = false;
        i = 0;
        while i < n_oprec
            invariant
                i <= n_oprec,
                n_oprec == op_records@.len(),
                op_records@ == old(op_records)@,
                pair_exists <==> exists|j: int|
                    0 <= j < i && (#[trigger] op_records@[j]).agent_instance == agent_instance
                        && op_records@[j].operator == operator,
            decreases n_oprec - i,
        {
            let rec = op_records[i];
            if rec.agent_instance == agent_instance && rec.operator == operator {
                pair_exists = true;
            }
            i = i + 1;
        }
        if pair_exists {
            return Err(ErrorCode::AccountAgentIdInstanceOperatorExists);
        }
        proof {
            assert(!op_records_have(op_records@, agent_instance, operator));
        }

        // Capacity of the whole service.
        if *num >= max {
            return Err(ErrorCode::IncorrectAgentInstances);
        }

        // Bound on the operator's index.
        if op_index.len() >= MAX_AGENT_INSTANCES_PER_SERVICE {
            return Err(ErrorCode::MaxAgentInstancesPerServiceReached);
        }

        // All checks passed: apply the step.
        let ghost c0 = counters@;
        match ci_found {
            Some(c) => {
                counters[c] = SlotCounterEntry {
                    agent_id,
                    counter: ServiceAgentSlotCounterAccount { count: current_count + 1 },
                };
                proof {
                    assert(counters@ == bump_counter(c0, agent_id));
                    assert forall|ii: int| 0 <= ii < counters@.len() implies {
                        let cc = #[trigger] counters@[ii];
                        exists|j: int|
                            0 <= j < roles@.len() && (#[trigger] roles@[j]).agent_id == cc.agent_id
                                && cc.counter.count <= roles@[j].slots
                    } by {
                        if ii == c as int {
                            assert(roles@[ri as int].agent_id == agent_id);
                            assert(counters@[ii].counter.count <= roles@[ri as int].slots);
                        } else {
                            assert(c0[ii] == counters@[ii]);
                        }
                    }
                }
            },
            None => {
                counters.push(
                    SlotCounterEntry {
                        agent_id,
                        counter: ServiceAgentSlotCounterAccount { count: 1 },
                    },
                );
                proof {
                    assert(counters@ == bump_counter(c0, agent_id));
                    assert forall|ii: int| 0 <= ii < counters@.len() implies {
                        let cc = #[trigger] counters@[ii];
                        exists|j: int|
                            0 <= j < roles@.len() && (#[trigger] roles@[j]).agent_id == cc.agent_id
                                && cc.counter.count <= roles@[j].slots
                    } by {
                        if ii == c0.len() {
                            assert(roles@[ri as int].agent_id == agent_id);
                            assert(roles@[ri as int].slots >= 1);
                        } else {
                            assert(c0[ii] == counters@[ii]);
                        }
                    }
                }
            },
        }
        instances.push(agent_instance);
        records.push(
            ServiceAgentInstanceAccount { service_id, agent_id, agent_instance },
        );
        op_records.push(OperatorAgentInstanceAccount { operator, agent_instance });
        op_index.push(agent_instance);
        *num = *num + 1;
        Ok(())
    }

    /// Stake the call's total bond for an operator: grow the operator's
    /// bond record by the total, creating the record if it is the
    /// operator's first.
    pub fn update_operator_bond(
        bonds: &mut Vec<OperatorBondAccount>,
        service_id: u128,
        operator: u64,
        total_bond: u64,
    ) -> (r: Result<(), ErrorCode>)
        requires
            forall|i: int, j: int|
                0 <= i < j < old(bonds)@.len() ==> (#[trigger] old(bonds)@[i]).operator != (
                #[trigger] old(bonds)@[j]).operator,
        ensures
            match r {
                Ok(()) => {
                    &&& sum_by(old(bonds)@, crate::state::bond_fn(operator)) + total_bond
                        <= u64::MAX
                    &&& final(bonds)@ == bond_upsert(old(bonds)@, service_id, operator, total_bond)
                    &&& ({
                        let nb = final(bonds)@;
                        forall|i: int, j: int|
                            0 <= i < j < nb.len() ==> (#[trigger] nb[i]).operator != (
                            #[trigger] nb[j]).operator
                    })
                    &&& sum_by(final(bonds)@, crate::state::bond_total_fn()) == sum_by(
                        old(bonds)@,
                        crate::state::bond_total_fn(),
                    ) + total_bond
                    &&& sum_by(final(bonds)@, crate::state::bond_fn(operator)) == sum_by(
                        old(bonds)@,
                        crate::state::bond_fn(operator),
                    ) + total_bond
                    &&& ({
                        let nb = final(bonds)@;
                        forall|i: int|
                            0 <= i < nb.len() ==> ((#[trigger] nb[i]).service_id == service_id
                                || exists|j: int|
                                0 <= j < old(bonds)@.len() && (#[trigger] old(bonds)@[j]) == nb[i])
                    })
                },
                Err(e) => {
                    &&& e == ErrorCode::Overflow
                    &&& final(bonds)@ == old(bonds)@
                    &&& sum_by(old(bonds)@, crate::state::bond_fn(operator)) + total_bond
                        > u64::MAX
                },
            },
    {
        let n = bonds.len();
        let mut i: usize = 0;
        while i < n
            invariant
                i <= n,
                n == bonds@.len(),
                bonds@ == old(bonds)@,
                forall|i2: int, j2: int|
                    0 <= i2 < j2 < bonds@.len() ==> (#[trigger] bonds@[i2]).operator != (
                    #[trigger] bonds@[j2]).operator,
                forall|j: int| 0 <= j < i ==> (#[trigger] bonds@[j]).operator != operator,
            decreases n - i,
        {
            if bonds[i].operator == operator {
                let b = bonds[i].bond;
                proof {
                    lemma_sum_by_single(bonds@, i as int, crate::state::bond_fn(operator));
                }
                if total_bond > u64::MAX - b {
                    return Err(ErrorCode::Overflow);
                }
                let ghost b0 = bonds@;
                let updated = OperatorBondAccount { service_id, operator, bond: b + total_bond };
                bonds[i] = updated;
                proof {
                    assert((choose|k: int| 0 <= k < b0.len() && b0[k].operator == operator) == i as int) by {
                        let k0 = choose|k: int| 0 <= k < b0.len() && b0[k].operator == operator;
                        assert(0 <= k0 < b0.len() && b0[k0].operator == operator);
                        if k0 != i as int {
                            if k0 < i as int {
                                assert(b0[k0].operator != b0[i as int].operator);
                            } else {
                                assert(b0[i as int].operator != b0[k0].operator);
                            }
                        }
                    }
                    assert(final(bonds)@ == bond_upsert(b0, service_id, operator, total_bond));
                    lemma_sum_by_update(b0, i as int, updated, crate::state::bond_total_fn());
                    lemma_sum_by_update(b0, i as int, updated, crate::state::bond_fn(operator));
                }
                return Ok(());
            }
            i = i + 1;
        }
        proof {
            lemma_sum_by_zero(bonds@, crate::state::bond_fn(operator));
        }
        let ghost b0 = bonds@;
        let fresh = OperatorBondAccount { service_id, operator, bond: total_bond };
        bonds.push(fresh);
        proof {
            assert(!(exists|k: int| 0 <= k < b0.len() && b0[k].operator == operator));
            assert(final(bonds)@ == bond_upsert(b0, service_id, operator, total_bond));
            lemma_sum_by_push(b0, fresh, crate::state::bond_total_fn());
            lemma_sum_by_push(b0, fresh, crate::state::bond_fn(operator));
        }
        Ok(())
    }

    /// Move the exact bond amount from the caller into the custodial
    /// wallet, verified against the caller's pre and post balances.
    pub fn transfer_bond(
        ledger: &mut crate::ledger::Ledger,
        caller: u64,
        wallet_key: u64,
        transfer_amount: u64,
    ) -> (r: Result<(), ErrorCode>)
        requires
            old(ledger).wf(),
        ensures
            final(ledger).wf(),
            match r {
                Ok(()) => {
                    &&& old(ledger).bal(caller) >= transfer_amount
                    &&& if caller == wallet_key {
                        transfer_amount == 0 && *final(ledger) == *old(ledger)
                    } else {
                        &&& final(ledger).bal(caller) == old(ledger).bal(caller) - transfer_amount
                        &&& final(ledger).bal(wallet_key) == old(ledger).bal(wallet_key)
                            + transfer_amount
                        &&& forall|a: u64|
                            a != caller && a != wallet_key ==> final(ledger).bal(a) == old(
                                ledger,
                            ).bal(a)
                    }
                },
                Err(e) => {
                    &&& *final(ledger) == *old(ledger)
                    &&& (e == ErrorCode::IncorrectRegistrationDepositValue <==> (old(ledger).bal(
                        caller,
                    ) < transfer_amount || (old(ledger).bal(caller) >= transfer_amount && caller
                        == wallet_key && transfer_amount > 0)))
                    &&& (e == ErrorCode::Overflow <==> (old(ledger).bal(caller) >= transfer_amount
                        && caller != wallet_key && old(ledger).bal(wallet_key) + transfer_amount
                        > u64::MAX))
                },
            },
            r is Ok <==> (old(ledger).bal(caller) >= transfer_amount && (caller == wallet_key
                ==> transfer_amount == 0) && (caller != wallet_key ==> old(ledger).bal(wallet_key)
                + transfer_amount <= u64::MAX)),
    {
        let user_pre_balance = ledger.balance_of(caller);
        if user_pre_balance < transfer_amount {
            return Err(ErrorCode::IncorrectRegistrationDepositValue);
        }
        let (pre, post) = match ledger.transfer(caller, wallet_key, transfer_amount) {
            Ok(pp) => pp,
            Err(e) => {
                return Err(e);
            },
        };
        if pre - post != transfer_amount {
            return Err(ErrorCode::IncorrectRegistrationDepositValue);
        }
        Ok(())
    }
}


/// The instances an operator has registered in a service, in order; empty
/// when the operator has no index yet.
pub open spec fn operator_index_seq(e: crate::state::ServiceEntry, operator: u64) -> Seq<u64> {
    if exists|i: int|
        0 <= i < e.operator_indexes@.len() && (#[trigger] e.operator_indexes@[i]).operator
            == operator {
        let i = choose|i: int|
            0 <= i < e.operator_indexes@.len() && (#[trigger] e.operator_indexes@[i]).operator
                == operator;
        e.operator_indexes@[i].index.operator_agent_instances@
    } else {
        Seq::empty()
    }
}

/// The exact outcome of an instance registration on given inputs: the final
/// registration state, the operator's bond table, and the total bond
/// charged; or the error the inputs earn.
pub open spec fn register_agents_outcome(
    registry: ServiceRegistry,
    ledger: crate::ledger::Ledger,
    caller: u64,
    service_id: u128,
    operator: u64,
    agent_instances: Seq<u64>,
    agent_ids: Seq<u32>,
) -> Result<(RegView, Seq<OperatorBondAccount>, int), ErrorCode> {
    if caller != registry.manager {
        Err(ErrorCode::InvalidAccountOwner)
    } else if agent_instances.len() != agent_ids.len() {
        Err(ErrorCode::WrongArrayLength)
    } else if !registry.has_service(service_id) {
        Err(ErrorCode::ServiceNotFound)
    } else {
        let e0 = registry.service(service_id);
        if e0.account.state != ServiceState::ActiveRegistration {
            Err(ErrorCode::WrongServiceState)
        } else {
            match roles_bond(e0.roles(), agent_ids, agent_ids.len() as int) {
                Err(e) => Err(e),
                Ok(total) => {
                    let wallet = registry.wallet_key;
                    if ledger.bal(caller) < total {
                        Err(ErrorCode::IncorrectRegistrationDepositValue)
                    } else if caller != wallet && ledger.bal(wallet) + total > u64::MAX {
                        Err(ErrorCode::Overflow)
                    } else if caller == wallet && total > 0 {
                        Err(ErrorCode::IncorrectRegistrationDepositValue)
                    } else if operator == 0 {
                        Err(ErrorCode::InvalidArgument)
                    } else if registry.is_recorded_instance(operator) {
                        Err(ErrorCode::WrongOperator)
                    } else {
                        let v0 = RegView {
                            counters: e0.slot_counters@,
                            instances: e0.instances_index.service_agent_instances@,
                            records: e0.instance_records@,
                            op_records: registry.operator_agent_instances@,
                            op_index: operator_index_seq(e0, operator),
                            num: e0.account.num_agent_instances as int,
                        };
                        match reg_batch(
                            e0.roles(),
                            service_id,
                            operator,
                            e0.account.max_num_agent_instances,
                            v0,
                            agent_ids,
                            agent_instances,
                            agent_ids.len() as int,
                        ) {
                            Err(e) => Err(e),
                            Ok(v) => {
                                if e0.bond_of(operator) + total > u64::MAX {
                                    Err(ErrorCode::Overflow)
                                } else {
                                    Ok(
                                        (
                                            v,
                                            bond_upsert(
                                                e0.operator_bonds@,
                                                service_id,
                                                operator,
                                                total as u64,
                                            ),
                                            total,
                                        ),
                                    )
                                }
                            },
                        }
                    }
                }
            }
        }
    }
}

/// Register a batch of agent instances for an operator against the given
/// roles of a service in `ActiveRegistration`, charging the operator's
/// total bond into the custodial wallet.
///
/// Only the manager may register; each requested role must exist with a
/// free slot; each instance must be new to the service and to the
/// operator; the operator must not itself be recorded as an instance; and
/// the exact total bond must move from the caller into the wallet. When
/// the service reaches its full capacity the state advances to
/// `FinishedRegistration`. On any failure nothing is changed.
#[verifier::rlimit(60)]
pub fn register_agents(
    registry: &mut ServiceRegistry,
    ledger: &mut crate::ledger::Ledger,
    caller: u64,
    service_id: u128,
    operator: u64,
    agent_instances: &Vec<u64>,
    agent_ids: &Vec<u32>,
) -> (r: Result<(), ErrorCode>)
    requires
        old(registry).wf(),
        old(ledger).wf(),
        old(registry).liabilities() <= old(ledger).bal(old(registry).wallet_key),
    ensures
        final(registry).wf(),
        final(ledger).wf(),
        final(registry).liabilities() <= final(ledger).bal(final(registry).wallet_key),
        crate::state::unchanged_core(final(registry), old(registry)),
        final(registry).slashed_funds == old(registry).slashed_funds,
        ({
            let oc = register_agents_outcome(
                *old(registry),
                *old(ledger),
                caller,
                service_id,
                operator,
                agent_instances@,
                agent_ids@,
            );
            match r {
                Ok(()) => {
                    &&& oc is Ok
                    &&& ({
                        let v = oc->Ok_0.0;
                        let bonds1 = oc->Ok_0.1;
                        let total = oc->Ok_0.2;
                        let idx = old(registry).service_index(service_id);
                        let e0 = old(registry).service(service_id);
                        let e1 = final(registry).service(service_id);
                        let wallet = old(registry).wallet_key;
                        &&& final(registry).services@ =~= old(registry).services@.update(idx, e1)
                        &&& e1.slot_counters@ == v.counters
                        &&& e1.instances_index.service_agent_instances@ == v.instances
                        &&& e1.instance_records@ == v.records
                        &&& e1.operator_bonds@ == bonds1
                        &&& operator_index_seq(e1, operator) == v.op_index
                        &&& e1.bond_of(operator) == e0.bond_of(operator) + total
                        &&& e1.account.num_agent_instances == v.num
                        &&& e1.account.state == (if v.num
                            == e0.account.max_num_agent_instances as int {
                            ServiceState::FinishedRegistration
                        } else {
                            ServiceState::ActiveRegistration
                        })
                        &&& e1.account == (crate::state::ServiceAccount {
                            num_agent_instances: e1.account.num_agent_instances,
                            state: e1.account.state,
                            ..e0.account
                        })
                        &&& e1.agent_ids_index.agent_ids@ == e0.agent_ids_index.agent_ids@
                        &&& final(registry).operator_agent_instances@ == v.op_records
                        &&& if caller != wallet {
                            &&& final(ledger).bal(caller) == old(ledger).bal(caller) - total
                            &&& final(ledger).bal(wallet) == old(ledger).bal(wallet) + total
                            &&& forall|a: u64|
                                a != caller && a != wallet ==> final(ledger).bal(a) == old(
                                    ledger,
                                ).bal(a)
                        } else {
                            *final(ledger) == *old(ledger)
                        }
                    })
                },
                Err(e) => {
                    &&& *final(registry) == *old(registry)
                    &&& *final(ledger) == *old(ledger)
                    &&& oc == Err::<(RegView, Seq<OperatorBondAccount>, int), ErrorCode>(e)
                },
            }
        }),
{
    if caller != registry.manager {
        return Err(ErrorCode::InvalidAccountOwner);
    }
    if agent_instances.len() != agent_ids.len() {
        return Err(ErrorCode::WrongArrayLength);
    }
    let i = match registry.find_service(service_id) {
        Some(i) => i,
        None => {
            return Err(ErrorCode::ServiceNotFound);
        },
    };
    proof {
        registry.lemma_service_at(i as int);
    }
    let state_now = registry.services[i].account.state;
    match ServiceRegistry::check_access_and_state(
        registry,
        caller,
        &state_now,
        agent_instances,
        agent_ids,
    ) {
        Ok(()) => {},
        Err(e) => {
            return Err(e);
        },
    }
    let ghost e0 = registry.services@[i as int];
    let ghost roles0 = e0.agent_ids_index.agent_ids@;
    let n = agent_ids.len();

    // Total bond for the call.
    let total_bond: u64 =
        match ServiceRegistry::load_and_validate_agent_params(
        &registry.services[i].agent_ids_index.agent_ids,
        agent_ids,
    ) {
        Ok(p) => p.1,
        Err(e) => {
            return Err(e);
        },
    };
    proof {
        lemma_roles_bond_ok(roles0, agent_ids@, n as int);
    }

    // Funds checks; the move itself happens once everything else passed.
    let wallet = registry.wallet_key;
    let caller_balance = ledger.balance_of(caller);
    if caller_balance < total_bond {
        return Err(ErrorCode::IncorrectRegistrationDepositValue);
    }
    if caller != wallet {
        let wallet_balance = ledger.balance_of(wallet);
        if wallet_balance > u64::MAX - total_bond {
            return Err(ErrorCode::Overflow);
        }
    } else {
        if total_bond > 0 {
            return Err(ErrorCode::IncorrectRegistrationDepositValue);
        }
    }

    // Operator checks.
    match ServiceRegistry::validate_operator(registry, operator) {
        Ok(()) => {},
        Err(e) => {
            return Err(e);
        },
    }

    // Work on copies so that a failing item leaves everything untouched.
    let mut counters = crate::state::copy_vec(&registry.services[i].slot_counters);
    let mut instances = crate::state::copy_vec(
        &registry.services[i].instances_index.service_agent_instances,
    );
    let mut records = crate::state::copy_vec(&registry.services[i].instance_records);
    let mut op_records = crate::state::copy_vec(&registry.operator_agent_instances);
    let oi_found = registry.services[i].find_operator_index(operator);
    let mut op_index: Vec<u64> = match oi_found {
        Some(oi) => crate::state::copy_vec(
            &registry.services[i].operator_indexes[oi].index.operator_agent_instances,
        ),
        None => Vec::new(),
    };
    proof {
        match oi_found {
            Some(oi) => {
                let ois = e0.operator_indexes@;
                assert(exists|x: int|
                    0 <= x < ois.len() && (#[trigger] ois[x]).operator == operator);
                let x0 = choose|x: int|
                    0 <= x < ois.len() && (#[trigger] ois[x]).operator == operator;
                if x0 != oi as int {
                    if x0 < oi as int {
                        assert(ois[x0].operator != ois[oi as int].operator);
                    } else {
                        assert(ois[oi as int].operator != ois[x0].operator);
                    }
                }
                assert(op_index@ == operator_index_seq(e0, operator));
            },
            None => {
                assert(op_index@ == operator_index_seq(e0, operator));
            },
        }
    }
    let mut num: u32 = registry.services[i].account.num_agent_instances;
    let max: u32 = registry.services[i].account.max_num_agent_instances;
    let ghost v0 = RegView {
        counters: counters@,
        instances: instances@,
        records: records@,
        op_records: op_records@,
        op_index: op_index@,
        num: num as int,
    };

    let mut k: usize = 0;
    while k < n
        invariant
            k <= n,
            n == agent_ids@.len(),
            n == agent_instances@.len(),
            table_sorted(roles0),
            table_nonzero(roles0),
            forall|j: int|
                0 <= j < n ==> table_has_role(roles0, #[trigger] agent_ids@[j]),
            counters_ok(counters@, roles0),
            records_ok(records@, service_id),
            op_records_ok(op_records@),
            num <= max,
            op_index@.len() <= MAX_AGENT_INSTANCES_PER_SERVICE,
            service_id == e0.account.service_id,
            *registry == *old(registry),
            *ledger == *old(ledger),
            i < registry.services@.len(),
            registry.services@[i as int] == e0,
            roles0 == e0.agent_ids_index.agent_ids@,
            old(registry).wf(),
            old(ledger).wf(),
            old(registry).liabilities() <= old(ledger).bal(old(registry).wallet_key),
            caller == old(registry).manager,
            old(registry).has_service(service_id),
            old(registry).service_index(service_id) == i as int,
            old(registry).service(service_id) == e0,
            e0.account.state == ServiceState::ActiveRegistration,
            e0.wf(),
            roles_bond(roles0, agent_ids@, n as int) == Ok::<int, ErrorCode>(total_bond as int),
            wallet == old(registry).wallet_key,
            old(ledger).bal(caller) >= total_bond,
            caller != wallet ==> old(ledger).bal(wallet) + total_bond <= u64::MAX,
            caller == wallet ==> total_bond == 0,
            operator != 0,
            !old(registry).is_recorded_instance(operator),
            max == e0.account.max_num_agent_instances,
            v0 == (RegView {
                counters: e0.slot_counters@,
                instances: e0.instances_index.service_agent_instances@,
                records: e0.instance_records@,
                op_records: old(registry).operator_agent_instances@,
                op_index: operator_index_seq(e0, operator),
                num: e0.account.num_agent_instances as int,
            }),
            reg_batch(roles0, service_id, operator, max, v0, agent_ids@, agent_instances@, k as int)
                == Ok::<RegView, ErrorCode>(
                RegView {
                    counters: counters@,
                    instances: instances@,
                    records: records@,
                    op_records: op_records@,
                    op_index: op_index@,
                    num: num as int,
                },
            ),
        decreases n - k,
    {
        let roles_ref = &registry.services[i].agent_ids_index.agent_ids;
        match ServiceRegistry::register_single_instance(
            service_id,
            operator,
            roles_ref,
            max,
            &mut counters,
            &mut instances,
            &mut records,
            &mut op_records,
            &mut op_index,
            &mut num,
            agent_ids[k],
            agent_instances[k],
        ) {
            Ok(()) => {},
            Err(e) => {
                proof {
                    assert(reg_batch(
                        roles0,
                        service_id,
                        operator,
                        max,
                        v0,
                        agent_ids@,
                        agent_instances@,
                        k as int + 1,
                    ) == Err::<RegView, ErrorCode>(e));
                    lemma_reg_batch_err_persists(
                        roles0,
                        service_id,
                        operator,
                        max,
                        v0,
                        agent_ids@,
                        agent_instances@,
                        k as int + 1,
                        n as int,
                        e,
                    );
                }
                return Err(e);
            },
        }
        proof {
            assert(reg_batch(
                roles0,
                service_id,
                operator,
                max,
                v0,
                agent_ids@,
                agent_instances@,
                k as int + 1,
            ) == Ok::<RegView, ErrorCode>(
                RegView {
                    counters: counters@,
                    instances: instances@,
                    records: records@,
                    op_records: op_records@,
                    op_index: op_index@,
                    num: num as int,
                },
            ));
        }
        k = k + 1;
    }

    // Update the operator's bond, still on a copy.
    let mut bonds = crate::state::copy_vec(&registry.services[i].operator_bonds);
    match ServiceRegistry::update_operator_bond(&mut bonds, service_id, operator, total_bond) {
        Ok(()) => {},
        Err(e) => {
            return Err(e);
        },
    }

    // Move the bond; the funds checks above make this succeed.
    match ServiceRegistry::transfer_bond(ledger, caller, wallet, total_bond) {
        Ok(()) => {},
        Err(e) => {
            // Unreachable: the caller's balance and the wallet's headroom
            // were checked before anything was registered.
            proof {
                assert(false);
            }
            return Err(e);
        },
    }

    // Commit.
    let ghost s0 = registry.services@;
    let ghost v_final = RegView {
        counters: counters@,
        instances: instances@,
        records: records@,
        op_records: op_records@,
        op_index: op_index@,
        num: num as int,
    };
    let entry = &mut registry.services[i];
    entry.slot_counters = counters;
    entry.instances_index.service_agent_instances = instances;
    entry.instance_records = records;
    entry.operator_bonds = bonds;
    entry.account.num_agent_instances = num;
    if num == entry.account.max_num_agent_instances {
        entry.account.state = ServiceState::FinishedRegistration;
    }
    match oi_found {
        Some(oi) => {
            let oe = &mut registry.services[i].operator_indexes[oi];
            oe.index.operator_agent_instances = op_index;
        },
        None => {
            registry.services[i].operator_indexes.push(
                crate::state::OperatorIndexEntry {
                    operator,
                    index: crate::state::OperatorAgentInstanceIndex {
                        operator_agent_instances: op_index,
                    },
                },
            );
        },
    }
    registry.operator_agent_instances = op_records;
    proof {
        let kx = i as int;
        let e1 = final(registry).services@[kx];
        assert(final(registry).services@ =~= s0.update(kx, e1));
        final(registry).lemma_service_at(kx);
        crate::sums::lemma_sum_by_update(s0, kx, e1, crate::state::liability_fn());
        let ois1 = e1.operator_indexes@;
        match oi_found {
            Some(oi) => {
                assert(exists|x: int|
                    0 <= x < ois1.len() && (#[trigger] ois1[x]).operator == operator);
                let x0 = choose|x: int|
                    0 <= x < ois1.len() && (#[trigger] ois1[x]).operator == operator;
                if x0 != oi as int {
                    if x0 < oi as int {
                        assert(ois1[x0].operator != ois1[oi as int].operator);
                    } else {
                        assert(ois1[oi as int].operator != ois1[x0].operator);
                    }
                }
                assert(operator_index_seq(e1, operator) == v_final.op_index);
            },
            None => {
                let x1 = ois1.len() - 1;
                assert(ois1[x1].operator == operator);
                assert(exists|x: int|
                    0 <= x < ois1.len() && (#[trigger] ois1[x]).operator == operator);
                let x0 = choose|x: int|
                    0 <= x < ois1.len() && (#[trigger] ois1[x]).operator == operator;
                if x0 != x1 {
                    assert(e0.operator_indexes@[x0].operator != operator);
                }
                assert(operator_index_seq(e1, operator) == v_final.op_index);
            },
        }
        assert(e1.liability() == liability_of_updated(e0, total_bond as int));
        assert(e1.wf());
    }
    Ok(())
}

/// The liability of a service after a registration that charged `total`.
pub open spec fn liability_of_updated(e0: crate::state::ServiceEntry, total: int) -> int {
    e0.liability() + total
}

} // verus!
