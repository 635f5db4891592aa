use vstd::prelude::*;

use crate::error::ErrorCode;
use crate::service_state::ServiceState;
use crate::service_ops::quorum;
use crate::state::{
    copy_vec, liability_fn, unchanged_core, AgentParamAccount, AgentParams, ServiceAccount,
    ServiceRegistry, MAX_AGENT_IDS_PER_SERVICE,
};
use crate::sums::{lemma_sum_by_update, max_by, sum_by};

verus! {

/// The ids of a batch are strictly increasing (hence duplicate-free).
pub open spec fn ids_strictly_increasing(ids: Seq<u32>) -> bool {
    forall|i: int, j: int| 0 <= i < j < ids.len() ==> ids[i] < ids[j]
}

/// Some slot/bond pair of the batch is half zero, which is refused: a pair
/// must be both zero (deletion) or both nonzero (upsert).
pub open spec fn has_mixed_zero_pair(params: Seq<AgentParams>) -> bool {
    exists|k: int|
        0 <= k < params.len() && ((#[trigger] params[k]).slots == 0) != (params[k].bond == 0)
}

/// A role table is strictly increasing by role id.
pub open spec fn table_sorted(s: Seq<AgentParamAccount>) -> bool {
    forall|i: int, j: int| 0 <= i < j < s.len() ==> s[i].agent_id < s[j].agent_id
}

/// Every stored role has nonzero slots and bond.
pub open spec fn table_nonzero(s: Seq<AgentParamAccount>) -> bool {
    forall|i: int| 0 <= i < s.len() ==> (#[trigger] s[i]).slots > 0 && s[i].bond > 0
}

/// True when the table holds a role with this id.
pub open spec fn table_has_role(s: Seq<AgentParamAccount>, agent_id: u32) -> bool {
    exists|i: int| 0 <= i < s.len() && s[i].agent_id == agent_id
}

/// Index of the role with this id (meaningful only when present).
pub open spec fn table_role_index(s: Seq<AgentParamAccount>, agent_id: u32) -> int {
    choose|i: int| 0 <= i < s.len() && s[i].agent_id == agent_id
}

/// `p` is the unique position at which a new role with this id keeps the
/// table sorted.
pub open spec fn is_insert_pos(s: Seq<AgentParamAccount>, agent_id: u32, p: int) -> bool {
    &&& 0 <= p <= s.len()
    &&& forall|j: int| 0 <= j < p ==> s[j].agent_id < agent_id
    &&& forall|j: int| p <= j < s.len() ==> s[j].agent_id > agent_id
}

/// The position at which a new role with this id keeps the table sorted
/// (meaningful when the table is sorted and free of this id).
pub open spec fn insert_pos(s: Seq<AgentParamAccount>, agent_id: u32) -> int {
    choose|p: int| is_insert_pos(s, agent_id, p)
}

/// One role-table update step: a zero pair deletes the entry, a nonzero
/// pair replaces it or inserts it at its sorted position.
pub open spec fn role_step(s: Seq<AgentParamAccount>, agent_id: u32, p: AgentParams) -> Seq<
    AgentParamAccount,
> {
    if p.slots == 0 {
        if table_has_role(s, agent_id) {
            s.remove(table_role_index(s, agent_id))
        } else {
            s
        }
    } else {
        let entry = AgentParamAccount { agent_id, slots: p.slots, bond: p.bond };
        if table_has_role(s, agent_id) {
            s.update(table_role_index(s, agent_id), entry)
        } else {
            s.insert(insert_pos(s, agent_id), entry)
        }
    }
}

/// The role table after applying the first `k` entries of a batch.
pub open spec fn updated_roles(
    s: Seq<AgentParamAccount>,
    ids: Seq<u32>,
    params: Seq<AgentParams>,
    k: int,
) -> Seq<AgentParamAccount>
    decreases k,
{
    if k <= 0 {
        s
    } else {
        role_step(updated_roles(s, ids, params, k - 1), ids[k - 1], params[k - 1])
    }
}

/// The slot contribution of one role entry.
pub open spec fn slots_fn() -> spec_fn(AgentParamAccount) -> int {
    |r: AgentParamAccount| r.slots as int
}

/// The bond contribution of one role entry.
pub open spec fn bond_val_fn() -> spec_fn(AgentParamAccount) -> int {
    |r: AgentParamAccount| r.bond as int
}

/// Saturate an unbounded count at the largest `u32`.
pub open spec fn cap_u32(v: int) -> int {
    if v > u32::MAX {
        u32::MAX as int
    } else {
        v
    }
}

/// Everything a successful role-table update installs: the new table, the
/// recomputed capacity and security deposit, and the validated threshold.
pub struct RoleTableUpdate {
    /// The updated role table.
    pub table: Seq<AgentParamAccount>,
    /// New total slot capacity: the saturating sum of all slot counts.
    pub max_num: int,
    /// New security deposit: the largest bond across the roles.
    pub deposit: int,
    /// The threshold in force after the update.
    pub threshold: u32,
}

/// The exact outcome of a role-table update on given inputs: either the
/// update a success installs, or the error the inputs earn.
pub open spec fn set_roles_outcome(
    registry: ServiceRegistry,
    caller: u64,
    service_id: u128,
    service_owner: u64,
    ids: Seq<u32>,
    params: Seq<AgentParams>,
    threshold: Option<u32>,
) -> Result<RoleTableUpdate, ErrorCode> {
    if ids.len() == 0 || params.len() != ids.len() {
        Err(ErrorCode::WrongArrayLength)
    } else if !ids_strictly_increasing(ids) {
        Err(ErrorCode::WrongAgentId)
    } else if has_mixed_zero_pair(params) {
        Err(ErrorCode::ZeroValue)
    } else if caller != registry.manager {
        Err(ErrorCode::UninitializedAccount)
    } else if !registry.has_service(service_id) {
        Err(ErrorCode::ServiceNotFound)
    } else {
        let e0 = registry.service(service_id);
        if e0.account.service_owner != service_owner {
            Err(ErrorCode::InvalidAccountOwner)
        } else if e0.account.state != ServiceState::PreRegistration {
            Err(ErrorCode::WrongServiceState)
        } else {
            let nt = updated_roles(e0.roles(), ids, params, ids.len() as int);
            let m = cap_u32(sum_by(nt, slots_fn()));
            let d = max_by(nt, bond_val_fn());
            let t = match threshold {
                Option::Some(v) => v,
                Option::None => e0.account.threshold,
            };
            if nt.len() > MAX_AGENT_IDS_PER_SERVICE {
                Err(ErrorCode::MaxAgentIdPerServiceReached)
            } else if (t as int) < quorum(m) {
                Err(ErrorCode::WrongThreshold)
            } else if (t as int) > m {
                Err(ErrorCode::WrongThreshold2)
            } else {
                Ok(RoleTableUpdate { table: nt, max_num: m, deposit: d, threshold: t })
            }
        }
    }
}

/// Strictly increasing adjacent pairs make the whole sequence strictly
/// increasing.
proof fn lemma_adjacent_increasing(ids: Seq<u32>, i: int, j: int)
    requires
        forall|k: int| 0 <= k < ids.len() - 1 ==> #[trigger] ids[k] < ids[k + 1],
        0 <= i < j < ids.len(),
    ensures
        ids[i] < ids[j],
    decreases j - i,
{
    if j > i + 1 {
        lemma_adjacent_increasing(ids, i, j - 1);
    }
}

impl ServiceRegistry {
    /// Check the shape of a role-table batch: the arrays must be non-empty
    /// and of equal length, the ids strictly increasing, and every
    /// slot/bond pair both zero or both nonzero.
    pub fn initial_checks(agent_ids: &Vec<u32>, agent_params: &Vec<AgentParams>) -> (r: Result<
        (),
        ErrorCode,
    >)
        ensures
            match r {
                Ok(()) => agent_ids@.len() > 0 && agent_params@.len() == agent_ids@.len()
                    && ids_strictly_increasing(agent_ids@) && !has_mixed_zero_pair(agent_params@),
                Err(e) => {
                    &&& (e == ErrorCode::WrongArrayLength || e == ErrorCode::WrongAgentId || e
                        == ErrorCode::ZeroValue)
                    &&& (e == ErrorCode::WrongArrayLength <==> (agent_ids@.len() == 0
                        || agent_params@.len() != agent_ids@.len()))
                    &&& (e == ErrorCode::WrongAgentId <==> (agent_ids@.len() > 0
                        && agent_params@.len() == agent_ids@.len() && !ids_strictly_increasing(
                        agent_ids@,
                    )))
                    &&& (e == ErrorCode::ZeroValue <==> (agent_ids@.len() > 0 && agent_params@.len()
                        == agent_ids@.len() && ids_strictly_increasing(agent_ids@)
                        && has_mixed_zero_pair(agent_params@)))
                },
            },
    {
        let n = agent_ids.len();
        if n == 0 || n != agent_params.len() {
            return Err(ErrorCode::WrongArrayLength);
        }
        let mut i: usize = 1;
        while i < n
            invariant
                1 <= i <= n,
                n == agent_ids@.len(),
                n == agent_params@.len(),
                n > 0,
                forall|k: int| 0 <= k < i - 1 ==> #[trigger] agent_ids@[k] < agent_ids@[k + 1],
            decreases n - i,
        {
            if agent_ids[i] <= agent_ids[i - 1] {
                proof {
                    assert(agent_ids@[i as int] <= agent_ids@[i as int - 1]);
                    assert(!ids_strictly_increasing(agent_ids@));
                }
                return Err(ErrorCode::WrongAgentId);
            }
            i = i + 1;
        }
        proof {
            assert forall|a: int, b: int| 0 <= a < b < agent_ids@.len() implies agent_ids@[a]
                < agent_ids@[b] by {
                lemma_adjacent_increasing(agent_ids@, a, b);
            }
        }
        let mut k: usize = 0;
        while k < n
            invariant
                k <= n,
                n == agent_params@.len(),
                n == agent_ids@.len(),
                n > 0,
                ids_strictly_increasing(agent_ids@),
                forall|j: int|
                    0 <= j < k ==> ((#[trigger] agent_params@[j]).slots == 0) == (
                    agent_params@[j].bond == 0),
            decreases n - k,
        {
            let p = agent_params[k];
            if (p.slots == 0 && p.bond != 0) || (p.slots != 0 && p.bond == 0) {
                proof {
                    assert(((agent_params@[k as int]).slots == 0) != (agent_params@[k as int].bond
                        == 0));
                    assert(has_mixed_zero_pair(agent_params@));
                }
                return Err(ErrorCode::ZeroValue);
            }
            k = k + 1;
        }
        Ok(())
    }

    /// Replace the entry with the parameter's role id or insert it at its
    /// sorted position.
    pub fn upsert_agent_param_index(
        vec: &mut Vec<AgentParamAccount>,
        param: &AgentParamAccount,
    )
        requires
            table_sorted(old(vec)@),
            table_nonzero(old(vec)@),
            param.slots > 0,
            param.bond > 0,
        ensures
            final(vec)@ == role_step(
                old(vec)@,
                param.agent_id,
                AgentParams { slots: param.slots, bond: param.bond },
            ),
            table_sorted(final(vec)@),
            table_nonzero(final(vec)@),
    {
        let n = vec.len();
        let mut i: usize = 0;
        while i < n
            invariant
                i <= n,
                n == vec@.len(),
                vec@ == old(vec)@,
                table_sorted(vec@),
                table_nonzero(vec@),
                param.slots > 0,
                param.bond > 0,
                forall|j: int| 0 <= j < i ==> (#[trigger] vec@[j]).agent_id < param.agent_id,
            decreases n - i,
        {
            if vec[i].agent_id == param.agent_id {
                let ghost s0 = vec@;
                vec[i] = *param;
                proof {
                    let s1 = final(vec)@;
                    assert(table_has_role(s0, param.agent_id));
                    lemma_table_index_unique(s0, param.agent_id, i as int);
                    assert forall|a: int, b: int|
                        0 <= a < b < s1.len() implies s1[a].agent_id < s1[b].agent_id by {
                        assert(s0[a].agent_id < s0[b].agent_id);
                    }
                }
                return ;
            }
            if vec[i].agent_id > param.agent_id {
                let ghost s0 = vec@;
                vec.insert(i, *param);
                proof {
                    assert(forall|j: int|
                        i <= j < s0.len() ==> (#[trigger] s0[j]).agent_id > param.agent_id) by {
                        assert forall|j: int|
                            i <= j < s0.len() implies (#[trigger] s0[j]).agent_id
                            > param.agent_id by {
                            if j > i {
                                assert(s0[i as int].agent_id < s0[j].agent_id);
                            }
                        }
                    }
                    assert(!table_has_role(s0, param.agent_id));
                    lemma_insert_pos_unique(s0, param.agent_id, i as int);
                    lemma_insert_preserves_sorted(s0, param.agent_id, *param, i as int);
                }
                return ;
            }
            i = i + 1;
        }
        let ghost s0 = vec@;
        vec.push(*param);
        proof {
            assert(!table_has_role(s0, param.agent_id));
            lemma_insert_pos_unique(s0, param.agent_id, n as int);
            assert(s0.insert(n as int, *param) =~= s0.push(*param));
            lemma_insert_preserves_sorted(s0, param.agent_id, *param, n as int);
        }
    }

    /// Remove the entry with this role id, if one exists.
    pub fn delete_agent_param_index(vec: &mut Vec<AgentParamAccount>, agent_id: u32)
        requires
            table_sorted(old(vec)@),
            table_nonzero(old(vec)@),
        ensures
            final(vec)@ == role_step(old(vec)@, agent_id, AgentParams { slots: 0, bond: 0 }),
            table_sorted(final(vec)@),
            table_nonzero(final(vec)@),
    {
        let n = vec.len();
        let mut i: usize = 0;
        while i < n
            invariant
                i <= n,
                n == vec@.len(),
                vec@ == old(vec)@,
                table_sorted(vec@),
                table_nonzero(vec@),
                forall|j: int| 0 <= j < i ==> (#[trigger] vec@[j]).agent_id != agent_id,
            decreases n - i,
        {
            if vec[i].agent_id == agent_id {
                let ghost s0 = vec@;
                vec.remove(i);
                proof {
                    let s1 = final(vec)@;
                    assert(table_has_role(s0, agent_id));
                    lemma_table_index_unique(s0, agent_id, i as int);
                    assert forall|a: int, b: int|
                        0 <= a < b < s1.len() implies s1[a].agent_id < s1[b].agent_id by {
                        let a0 = if a < i { a } else { a + 1 };
                        let b0 = if b < i { b } else { b + 1 };
                        assert(s0[a0].agent_id < s0[b0].agent_id);
                    }
                }
                return ;
            }
            i = i + 1;
        }
        proof {
            assert(!table_has_role(vec@, agent_id));
        }
    }
}

/// In a sorted table, the entry at `k` is the one the spec-level role
/// lookup denotes.
pub proof fn lemma_table_index_unique(s: Seq<AgentParamAccount>, agent_id: u32, k: int)
    requires
        table_sorted(s),
        0 <= k < s.len(),
        s[k].agent_id == agent_id,
    ensures
        table_has_role(s, agent_id),
        table_role_index(s, agent_id) == k,
{
    assert(table_has_role(s, agent_id));
    let i0 = table_role_index(s, agent_id);
    if i0 != k {
        if i0 < k {
            assert(s[i0].agent_id < s[k].agent_id);
        } else {
            assert(s[k].agent_id < s[i0].agent_id);
        }
    }
}

/// In a sorted table free of `agent_id`, position `p` with everything
/// smaller before it and everything larger from it on is the spec-level
/// insertion position.
proof fn lemma_insert_pos_unique(s: Seq<AgentParamAccount>, agent_id: u32, p: int)
    requires
        is_insert_pos(s, agent_id, p),
    ensures
        insert_pos(s, agent_id) == p,
{
    let q = insert_pos(s, agent_id);
    assert(is_insert_pos(s, agent_id, q));
    if q != p {
        if q < p {
            assert(s[q].agent_id < agent_id);
            assert(s[q].agent_id > agent_id);
        } else {
            assert(s[p].agent_id < agent_id);
            assert(s[p].agent_id > agent_id);
        }
    }
}

/// Inserting a new entry at its insertion position keeps the table sorted.
proof fn lemma_insert_preserves_sorted(
    s: Seq<AgentParamAccount>,
    agent_id: u32,
    entry: AgentParamAccount,
    p: int,
)
    requires
        table_sorted(s),
        is_insert_pos(s, agent_id, p),
        entry.agent_id == agent_id,
    ensures
        table_sorted(s.insert(p, entry)),
{
    let t = s.insert(p, entry);
    assert forall|a: int, b: int| 0 <= a < b < t.len() implies t[a].agent_id < t[b].agent_id by {
        if a < p && b < p {
            assert(t[a] == s[a] && t[b] == s[b]);
        } else if a < p && b == p {
            assert(t[a] == s[a]);
        } else if a < p && b > p {
            assert(t[a] == s[a] && t[b] == s[b - 1]);
            assert(s[b - 1].agent_id > agent_id);
        } else if a == p && b > p {
            assert(t[b] == s[b - 1]);
        } else {
            assert(t[a] == s[a - 1] && t[b] == s[b - 1]);
        }
    }
}


/// Install, replace or delete role entries of a service in one batch, then
/// recompute its capacity and security deposit and re-validate the
/// threshold.
///
/// Only the manager may update the role table, only while the service is in
/// `PreRegistration`, and only on behalf of the recorded owner. The batch's
/// role ids must be strictly increasing; a pair with zero slots and zero
/// bond deletes its role, a pair with both nonzero inserts or replaces it,
/// and a half-zero pair is refused. After the batch, the capacity is the
/// saturating sum of all slot counts, the security deposit is the largest
/// role bond, and the threshold (the supplied one, or else the stored one)
/// must lie in `[quorum(capacity), capacity]`. On any failure nothing is
/// changed.
pub fn register_agent_ids_to_service(
    registry: &mut ServiceRegistry,
    caller: u64,
    service_id: u128,
    service_owner: u64,
    agent_ids: &Vec<u32>,
    agent_params: &Vec<AgentParams>,
    threshold: Option<u32>,
) -> (r: Result<(), ErrorCode>)
    requires
        old(registry).wf(),
    ensures
        final(registry).wf(),
        final(registry).liabilities() == old(registry).liabilities(),
        unchanged_core(final(registry), old(registry)),
        final(registry).slashed_funds == old(registry).slashed_funds,
        final(registry).operator_agent_instances@ == old(registry).operator_agent_instances@,
        ({
            let oc = set_roles_outcome(
                *old(registry),
                caller,
                service_id,
                service_owner,
                agent_ids@,
                agent_params@,
                threshold,
            );
            match r {
                Ok(()) => {
                    &&& oc is Ok
                    &&& ({
                        let u = oc->Ok_0;
                        let idx = old(registry).service_index(service_id);
                        let e0 = old(registry).service(service_id);
                        let e1 = final(registry).service(service_id);
                        &&& final(registry).services@ =~= old(registry).services@.update(idx, e1)
                        &&& e1.agent_ids_index.agent_ids@ == u.table
                        &&& e1.account == (ServiceAccount {
                            max_num_agent_instances: u.max_num as u32,
                            security_deposit: u.deposit as u64,
                            threshold: u.threshold,
                            ..e0.account
                        })
                        &&& e1.slot_counters == e0.slot_counters
                        &&& e1.instances_index.service_agent_instances
                            == e0.instances_index.service_agent_instances
                        &&& e1.instance_records == e0.instance_records
                        &&& e1.operator_indexes == e0.operator_indexes
                        &&& e1.operator_bonds == e0.operator_bonds
                        &&& quorum(u.max_num) <= u.threshold <= u.max_num
                    })
                },
                Err(e) => *final(registry) == *old(registry) && oc == Err::<
                    RoleTableUpdate,
                    ErrorCode,
                >(e),
            }
        }),
{
    match ServiceRegistry::initial_checks(agent_ids, agent_params) {
        Ok(()) => {},
        Err(e) => {
            return Err(e);
        },
    }
    if caller != registry.manager {
        return Err(ErrorCode::UninitializedAccount);
    }
    let i = match registry.find_service(service_id) {
        Some(i) => i,
        None => {
            return Err(ErrorCode::ServiceNotFound);
        },
    };
    proof {
        registry.lemma_service_at(i as int);
    }
    if registry.services[i].account.service_owner != service_owner {
        return Err(ErrorCode::InvalidAccountOwner);
    }
    if registry.services[i].account.state != ServiceState::PreRegistration {
        return Err(ErrorCode::WrongServiceState);
    }
    let ghost e0 = registry.services@[i as int];
    let ghost roles0 = e0.agent_ids_index.agent_ids@;

    let n = agent_ids.len();
    let mut working: Vec<AgentParamAccount> = copy_vec(&registry.services[i].agent_ids_index.agent_ids);
    let mut k: usize = 0;
    while k < n
        invariant
            k <= n,
            n == agent_ids@.len(),
            n == agent_params@.len(),
            ids_strictly_increasing(agent_ids@),
            !has_mixed_zero_pair(agent_params@),
            table_sorted(working@),
            table_nonzero(working@),
            working@ == updated_roles(roles0, agent_ids@, agent_params@, k as int),
        decreases n - k,
    {
        let id = agent_ids[k];
        let p = agent_params[k];
        proof {
            assert(((agent_params@[k as int]).slots == 0) == (agent_params@[k as int].bond == 0));
        }
        if p.slots == 0 {
            ServiceRegistry::delete_agent_param_index(&mut working, id);
            proof {
                assert(p == (AgentParams { slots: 0u32, bond: 0u64 }));
            }
        } else {
            let entry = AgentParamAccount { agent_id: id, slots: p.slots, bond: p.bond };
            ServiceRegistry::upsert_agent_param_index(&mut working, &entry);
            proof {
                assert(p == (AgentParams { slots: p.slots, bond: p.bond }));
            }
        }
        proof {
            assert(working@ == updated_roles(roles0, agent_ids@, agent_params@, k as int + 1));
        }
        k = k + 1;
    }
    proof {
        assert(working@ == updated_roles(roles0, agent_ids@, agent_params@, n as int));
    }
    if working.len() > MAX_AGENT_IDS_PER_SERVICE {
        return Err(ErrorCode::MaxAgentIdPerServiceReached);
    }
    let m = working.len();
    let mut new_max: u32 = 0;
    let mut new_dep: u64 = 0;
    let mut j: usize = 0;
    while j < m
        invariant
            j <= m,
            m == working@.len(),
            new_max as int == cap_u32(sum_by(working@.take(j as int), slots_fn())),
            new_dep as int == max_by(working@.take(j as int), bond_val_fn()),
        decreases m - j,
    {
        let s = working[j].slots;
        let b = working[j].bond;
        proof {
            assert(working@.take(j as int + 1).drop_last() =~= working@.take(j as int));
            assert(working@.take(j as int + 1).last() == working@[j as int]);
        }
        if s > u32::MAX - new_max {
            new_max = u32::MAX;
        } else {
            new_max = new_max + s;
        }
        if b > new_dep {
            new_dep = b;
        }
        j = j + 1;
    }
    proof {
        assert(working@.take(m as int) =~= working@);
    }
    let mut account = registry.services[i].account;
    account.max_num_agent_instances = new_max;
    account.security_deposit = new_dep;
    match ServiceRegistry::validate_threshold(&mut account, threshold) {
        Ok(()) => {},
        Err(e) => {
            return Err(e);
        },
    }
    let ghost s0 = registry.services@;
    let entry = &mut registry.services[i];
    entry.account = account;
    entry.agent_ids_index.agent_ids = working;
    proof {
        let kx = i as int;
        let e1 = final(registry).services@[kx];
        assert(final(registry).services@ =~= s0.update(kx, e1));
        final(registry).lemma_service_at(kx);
        lemma_sum_by_update(s0, kx, e1, liability_fn());
        assert(liability_fn()(e1) == liability_fn()(s0[kx]));
        assert(e1.wf());
    }
    Ok(())
}

/// Delete one role from a service's table: shorthand for a one-entry batch
/// whose slot/bond pair is zero.
pub fn delete_agent_id_to_service(
    registry: &mut ServiceRegistry,
    caller: u64,
    service_id: u128,
    service_owner: u64,
    agent_id: u32,
    threshold: Option<u32>,
) -> (r: Result<(), ErrorCode>)
    requires
        old(registry).wf(),
    ensures
        final(registry).wf(),
        final(registry).liabilities() == old(registry).liabilities(),
        unchanged_core(final(registry), old(registry)),
        final(registry).slashed_funds == old(registry).slashed_funds,
        final(registry).operator_agent_instances@ == old(registry).operator_agent_instances@,
        ({
            let oc = set_roles_outcome(
                *old(registry),
                caller,
                service_id,
                service_owner,
                seq![agent_id],
                seq![AgentParams { slots: 0u32, bond: 0u64 }],
                threshold,
            );
            match r {
                Ok(()) => {
                    &&& oc is Ok
                    &&& ({
                        let u = oc->Ok_0;
                        let e0 = old(registry).service(service_id);
                        let e1 = final(registry).service(service_id);
                        &&& final(registry).services@ =~= old(registry).services@.update(
                            old(registry).service_index(service_id),
                            e1,
                        )
                        &&& e1.agent_ids_index.agent_ids@ == u.table
                        &&& e1.account == (ServiceAccount {
                            max_num_agent_instances: u.max_num as u32,
                            security_deposit: u.deposit as u64,
                            threshold: u.threshold,
                            ..e0.account
                        })
                    })
                },
                Err(e) => *final(registry) == *old(registry) && oc == Err::<
                    RoleTableUpdate,
                    ErrorCode,
                >(e),
            }
        }),
{
    let agent_ids_vec: Vec<u32> = vec![agent_id];
    let agent_params_vec: Vec<AgentParams> = vec![AgentParams { slots: 0, bond: 0 }];
    proof {
        assert(agent_ids_vec@ =~= seq![agent_id]);
        assert(agent_params_vec@ =~= seq![AgentParams { slots: 0u32, bond: 0u64 }]);
    }
    register_agent_ids_to_service(
        registry,
        caller,
        service_id,
        service_owner,
        &agent_ids_vec,
        &agent_params_vec,
        threshold,
    )
}

/// Insert or replace one role of a service's table: shorthand for a
/// one-entry batch.
pub fn add_agent_id_to_service(
    registry: &mut ServiceRegistry,
    caller: u64,
    service_id: u128,
    service_owner: u64,
    agent_id: u32,
    slots: u32,
    bond: u64,
    threshold: Option<u32>,
) -> (r: Result<(), ErrorCode>)
    requires
        old(registry).wf(),
    ensures
        final(registry).wf(),
        final(registry).liabilities() == old(registry).liabilities(),
        unchanged_core(final(registry), old(registry)),
        final(registry).slashed_funds == old(registry).slashed_funds,
        final(registry).operator_agent_instances@ == old(registry).operator_agent_instances@,
        ({
            let oc = set_roles_outcome(
                *old(registry),
                caller,
                service_id,
                service_owner,
                seq![agent_id],
                seq![AgentParams { slots, bond }],
                threshold,
            );
            match r {
                Ok(()) => {
                    &&& oc is Ok
                    &&& ({
                        let u = oc->Ok_0;
                        let e0 = old(registry).service(service_id);
                        let e1 = final(registry).service(service_id);
                        &&& final(registry).services@ =~= old(registry).services@.update(
                            old(registry).service_index(service_id),
                            e1,
                        )
                        &&& e1.agent_ids_index.agent_ids@ == u.table
                        &&& e1.account == (ServiceAccount {
                            max_num_agent_instances: u.max_num as u32,
                            security_deposit: u.deposit as u64,
                            threshold: u.threshold,
                            ..e0.account
                        })
                    })
                },
                Err(e) => *final(registry) == *old(registry) && oc == Err::<
                    RoleTableUpdate,
                    ErrorCode,
                >(e),
            }
        }),
{
    let agent_ids_vec: Vec<u32> = vec![agent_id];
    let agent_params_vec: Vec<AgentParams> = vec![AgentParams { slots, bond }];
    proof {
        assert(agent_ids_vec@ =~= seq![agent_id]);
        assert(agent_params_vec@ =~= seq![AgentParams { slots, bond }]);
    }
    register_agent_ids_to_service(
        registry,
        caller,
        service_id,
        service_owner,
        &agent_ids_vec,
        &agent_params_vec,
        threshold,
    )
}

} // verus!
