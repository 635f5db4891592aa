use vstd::prelude::*;

use crate::service_state::ServiceState;
use crate::sums::{lemma_sum_by_single, lemma_sum_by_zero, sum_by};

verus! {

/// Maximum number of role entries a service's role table may hold.
pub const MAX_AGENT_IDS_PER_SERVICE: usize = 128;

/// Maximum number of instance entries an operator's per-service index may
/// hold.
pub const MAX_AGENT_INSTANCES_PER_SERVICE: usize = 192;

/// Maximum number of whitelisted multisig implementations.
pub const MAX_MULTISIGS: usize = 32;

/// A slot/bond pair supplied to a role-table update.
#[derive(Clone, Copy, Debug, PartialEq, Eq, Structural)]
pub struct AgentParams {
    /// Number of instance slots the role offers.
    pub slots: u32,
    /// Bond an operator stakes per instance filling this role.
    pub bond: u64,
}

/// A role entry of a service: its id, slot capacity and per-instance bond.
#[derive(Clone, Copy, Debug, PartialEq, Eq, Structural)]
pub struct AgentParamAccount {
    /// Role id, unique within the service's table.
    pub agent_id: u32,
    /// Number of instance slots; strictly positive for a stored entry.
    pub slots: u32,
    /// Bond per instance; strictly positive for a stored entry.
    pub bond: u64,
}

/// The ordered role table of one service, unique and strictly increasing by
/// role id.
pub struct ServiceAgentIdsIndex {
    /// The role entries, sorted by `agent_id`.
    pub agent_ids: Vec<AgentParamAccount>,
}

/// Counter of occupied slots for one role of one service.
#[derive(Clone, Copy, Debug, PartialEq, Eq, Structural)]
pub struct ServiceAgentSlotCounterAccount {
    /// Number of instances currently occupying the role's slots.
    pub count: u32,
}

/// A slot counter keyed by its role id.
#[derive(Clone, Copy, Debug, PartialEq, Eq, Structural)]
pub struct SlotCounterEntry {
    /// The role the counter belongs to.
    pub agent_id: u32,
    /// The counter record.
    pub counter: ServiceAgentSlotCounterAccount,
}

/// Index of every agent instance registered in a service, in registration
/// order.
pub struct ServiceAgentInstancesIndex {
    /// The registered instance identifiers.
    pub service_agent_instances: Vec<u64>,
}

/// Ownership record binding one instance to one role of one service.
#[derive(Clone, Copy, Debug, PartialEq, Eq, Structural)]
pub struct ServiceAgentInstanceAccount {
    /// The service the instance belongs to.
    pub service_id: u128,
    /// The role the instance fills.
    pub agent_id: u32,
    /// The instance identifier.
    pub agent_instance: u64,
}

/// Record proving that an instance was registered by an operator; prevents
/// one instance from being claimed twice.
#[derive(Clone, Copy, Debug, PartialEq, Eq, Structural)]
pub struct OperatorAgentInstanceAccount {
    /// The operator who registered the instance.
    pub operator: u64,
    /// The instance identifier.
    pub agent_instance: u64,
}

/// The instances one operator has registered in one service.
pub struct OperatorAgentInstanceIndex {
    /// Instance identifiers, in registration order.
    pub operator_agent_instances: Vec<u64>,
}

/// An operator's per-service instance index keyed by the operator.
pub struct OperatorIndexEntry {
    /// The operator owning the index.
    pub operator: u64,
    /// The index record.
    pub index: OperatorAgentInstanceIndex,
}

/// Cumulative bond one operator has staked in one service.
#[derive(Clone, Copy, Debug, PartialEq, Eq, Structural)]
pub struct OperatorBondAccount {
    /// The service the bond belongs to.
    pub service_id: u128,
    /// The operator who staked the bond.
    pub operator: u64,
    /// The staked value still held.
    pub bond: u64,
}

/// The scalar state of one service.
#[derive(Clone, Copy, Debug)]
pub struct ServiceAccount {
    /// Unique, monotonically assigned identifier.
    pub service_id: u128,
    /// The service owner's account.
    pub service_owner: u64,
    /// Owner-side stake, equal to the largest role bond.
    pub security_deposit: u64,
    /// The governing multisig, set at deployment.
    pub multisig: u64,
    /// Opaque 256-bit content identifier; never all zero.
    pub config_hash: [u8; 32],
    /// Number of instances required to authorize multisig actions.
    pub threshold: u32,
    /// Total slot capacity over all roles.
    pub max_num_agent_instances: u32,
    /// Number of currently registered instances.
    pub num_agent_instances: u32,
    /// Lifecycle state.
    pub state: ServiceState,
}

/// One service together with all of its sub-records.
pub struct ServiceEntry {
    /// The scalar state.
    pub account: ServiceAccount,
    /// The role table.
    pub agent_ids_index: ServiceAgentIdsIndex,
    /// Slot counters, keyed by role id; a missing counter counts as zero.
    pub slot_counters: Vec<SlotCounterEntry>,
    /// All registered instances, in registration order.
    pub instances_index: ServiceAgentInstancesIndex,
    /// Ownership records, one per registered instance.
    pub instance_records: Vec<ServiceAgentInstanceAccount>,
    /// Per-operator instance indexes.
    pub operator_indexes: Vec<OperatorIndexEntry>,
    /// Per-operator bond records.
    pub operator_bonds: Vec<OperatorBondAccount>,
}

/// The set of whitelisted multisig implementations.
pub struct RegistryMultisig {
    /// The whitelisted identifiers, without duplicates.
    pub authorized_multisigs: Vec<u64>,
}

/// The record handed to a freshly created multisig at deployment.
pub struct MultisigAccount {
    /// The final instance list the multisig governs.
    pub agent_instances: Vec<u64>,
    /// The authorization threshold.
    pub threshold: u32,
    /// Opaque payload forwarded to the multisig implementation.
    pub data: Vec<u8>,
}

/// The process-wide registry aggregate.
pub struct ServiceRegistry {
    /// Display name.
    pub name: String,
    /// Display symbol.
    pub symbol: String,
    /// Base URI for service metadata.
    pub base_uri: String,
    /// Registry implementation version.
    pub version: String,
    /// May change global roles and the multisig whitelist.
    pub owner: u64,
    /// May run service lifecycle operations.
    pub manager: u64,
    /// May sweep accumulated slashed funds.
    pub drainer: u64,
    /// The custodial wallet holding all deposits and bonds.
    pub wallet_key: u64,
    /// Forfeited bond value not yet swept by the drainer.
    pub slashed_funds: u64,
    /// Number of services ever created; also the next service id.
    pub total_supply: u128,
    /// Reentrancy flag; held only within a guarded operation.
    pub locked: bool,
    /// All services, sorted by service id.
    pub services: Vec<ServiceEntry>,
    /// The multisig whitelist.
    pub registry_multisig: RegistryMultisig,
    /// (instance, operator) records across all services.
    pub operator_agent_instances: Vec<OperatorAgentInstanceAccount>,
}

/// Index of the role entry with this id in a role table, if one exists.
pub fn find_role_in(roles: &Vec<AgentParamAccount>, agent_id: u32) -> (r: Option<usize>)
    ensures
        match r {
            Some(i) => i < roles@.len() && roles@[i as int].agent_id == agent_id,
            None => forall|j: int| 0 <= j < roles@.len() ==> (#[trigger] roles@[j]).agent_id != agent_id,
        },
{
    let n = roles.len();
    let mut i: usize = 0;
    while i < n
        invariant
            i <= n,
            n == roles@.len(),
            forall|j: int| 0 <= j < i ==> (#[trigger] roles@[j]).agent_id != agent_id,
        decreases n - i,
    {
        if roles[i].agent_id == agent_id {
            return Some(i);
        }
        i = i + 1;
    }
    None
}

/// Each service's liability is nonnegative and bounded by the registry's
/// total liabilities (beyond the slashed-funds pool).
pub proof fn lemma_liability_bound(registry: &ServiceRegistry, i: int)
    requires
        0 <= i < registry.services@.len(),
    ensures
        0 <= registry.services@[i].bonds_total(),
        registry.services@[i].bonds_total() <= registry.services@[i].liability(),
        registry.slashed_funds + registry.services@[i].liability() <= registry.liabilities(),
{
    assert forall|j: int|
        0 <= j < registry.services@.len() implies liability_fn()(
        #[trigger] registry.services@[j]) >= 0 by {
        let e = registry.services@[j];
        assert(forall|b: int|
            0 <= b < e.operator_bonds@.len() ==> bond_total_fn()(#[trigger] e.operator_bonds@[b])
                >= 0);
        crate::sums::lemma_sum_by_nonneg(e.operator_bonds@, bond_total_fn());
    }
    crate::sums::lemma_sum_by_element_bound(registry.services@, i, liability_fn());
    let e = registry.services@[i];
    assert(forall|b: int|
        0 <= b < e.operator_bonds@.len() ==> bond_total_fn()(#[trigger] e.operator_bonds@[b])
            >= 0);
    crate::sums::lemma_sum_by_nonneg(e.operator_bonds@, bond_total_fn());
}

/// A fresh copy of a vector of plain values.
pub fn copy_vec<T: Copy>(v: &Vec<T>) -> (r: Vec<T>)
    ensures
        r@ == v@,
{
    let mut r: Vec<T> = Vec::new();
    let mut i: usize = 0;
    while i < v.len()
        invariant
            i <= v@.len(),
            r@ == v@.take(i as int),
        decreases v@.len() - i,
    {
        r.push(v[i]);
        proof {
            assert(v@.take(i as int).push(v@[i as int]) =~= v@.take(i as int + 1));
        }
        i = i + 1;
    }
    proof {
        assert(v@.take(v@.len() as int) =~= v@);
    }
    r
}

/// The registry fields a service-level operation leaves untouched: all but
/// the service table, the slashed-funds pool and the (instance, operator)
/// records.
pub open spec fn unchanged_core(a: &ServiceRegistry, b: &ServiceRegistry) -> bool {
    &&& a.name == b.name
    &&& a.symbol == b.symbol
    &&& a.base_uri == b.base_uri
    &&& a.version == b.version
    &&& a.owner == b.owner
    &&& a.manager == b.manager
    &&& a.drainer == b.drainer
    &&& a.wallet_key == b.wallet_key
    &&& a.total_supply == b.total_supply
    &&& a.locked == b.locked
    &&& a.registry_multisig.authorized_multisigs@ == b.registry_multisig.authorized_multisigs@
}

/// Slot counters that fit a role table: uniquely keyed, each belonging to
/// a stored role and within its capacity.
pub open spec fn counters_ok(counters: Seq<SlotCounterEntry>, roles: Seq<AgentParamAccount>) -> bool {
    &&& forall|i: int, j: int|
        0 <= i < j < counters.len() ==> counters[i].agent_id != counters[j].agent_id
    &&& forall|i: int|
        0 <= i < counters.len() ==> {
            let c = #[trigger] counters[i];
            exists|j: int|
                0 <= j < roles.len() && (#[trigger] roles[j]).agent_id == c.agent_id
                    && c.counter.count <= roles[j].slots
        }
}

/// Ownership records that fit their service: uniquely keyed by instance
/// and carrying the service's id.
pub open spec fn records_ok(records: Seq<ServiceAgentInstanceAccount>, service_id: u128) -> bool {
    &&& forall|i: int, j: int|
        0 <= i < j < records.len() ==> (#[trigger] records[i]).agent_instance != (
        #[trigger] records[j]).agent_instance
    &&& forall|i: int| 0 <= i < records.len() ==> (#[trigger] records[i]).service_id == service_id
}

/// Pairwise distinct (instance, operator) records.
pub open spec fn op_records_ok(s: Seq<OperatorAgentInstanceAccount>) -> bool {
    forall|i: int, j: int| 0 <= i < j < s.len() ==> (#[trigger] s[i]) != (#[trigger] s[j])
}

/// Operator indexes that fit their service: uniquely keyed by operator and
/// within the per-operator size bound.
pub open spec fn opindexes_ok(s: Seq<OperatorIndexEntry>) -> bool {
    &&& forall|i: int, j: int|
        0 <= i < j < s.len() ==> (#[trigger] s[i]).operator != (#[trigger] s[j]).operator
    &&& forall|i: int|
        0 <= i < s.len() ==> (#[trigger] s[i]).index.operator_agent_instances@.len()
            <= MAX_AGENT_INSTANCES_PER_SERVICE
}

/// Bond records that fit their service: uniquely keyed by operator and
/// carrying the service's id.
pub open spec fn bonds_ok(s: Seq<OperatorBondAccount>, service_id: u128) -> bool {
    &&& forall|i: int, j: int|
        0 <= i < j < s.len() ==> (#[trigger] s[i]).operator != (#[trigger] s[j]).operator
    &&& forall|i: int| 0 <= i < s.len() ==> (#[trigger] s[i]).service_id == service_id
}

/// The contribution of one slot counter to the count of role `agent_id`.
pub open spec fn count_fn(agent_id: u32) -> spec_fn(SlotCounterEntry) -> int {
    |c: SlotCounterEntry|
        if c.agent_id == agent_id {
            c.counter.count as int
        } else {
            0
        }
}

/// The contribution of one bond record to the bond of `operator`.
pub open spec fn bond_fn(operator: u64) -> spec_fn(OperatorBondAccount) -> int {
    |b: OperatorBondAccount|
        if b.operator == operator {
            b.bond as int
        } else {
            0
        }
}

/// The contribution of one bond record to a service's total bond.
pub open spec fn bond_total_fn() -> spec_fn(OperatorBondAccount) -> int {
    |b: OperatorBondAccount| b.bond as int
}

/// The contribution of one operator index to `operator`'s instance count.
pub open spec fn opcount_fn(operator: u64) -> spec_fn(OperatorIndexEntry) -> int {
    |e: OperatorIndexEntry|
        if e.operator == operator {
            e.index.operator_agent_instances@.len() as int
        } else {
            0
        }
}

/// The liability of one service against the custodial wallet.
pub open spec fn liability_fn() -> spec_fn(ServiceEntry) -> int {
    |e: ServiceEntry| e.liability()
}

impl ServiceEntry {
    /// The role table as a sequence.
    pub open spec fn roles(&self) -> Seq<AgentParamAccount> {
        self.agent_ids_index.agent_ids@
    }

    /// True when the table holds a role with this id.
    pub open spec fn has_role(&self, agent_id: u32) -> bool {
        exists|i: int| 0 <= i < self.roles().len() && self.roles()[i].agent_id == agent_id
    }

    /// Index of the role with this id (meaningful only when `has_role`).
    pub open spec fn role_index(&self, agent_id: u32) -> int {
        choose|i: int| 0 <= i < self.roles().len() && self.roles()[i].agent_id == agent_id
    }

    /// The role entry with this id (meaningful only when `has_role`).
    pub open spec fn role(&self, agent_id: u32) -> AgentParamAccount {
        self.roles()[self.role_index(agent_id)]
    }

    /// Number of occupied slots of a role; a missing counter counts as zero.
    pub open spec fn slot_count(&self, agent_id: u32) -> int {
        sum_by(self.slot_counters@, count_fn(agent_id))
    }

    /// The bond an operator currently has staked in this service; zero when
    /// no bond record exists.
    pub open spec fn bond_of(&self, operator: u64) -> int {
        sum_by(self.operator_bonds@, bond_fn(operator))
    }

    /// Total bond staked by all operators of this service.
    pub open spec fn bonds_total(&self) -> int {
        sum_by(self.operator_bonds@, bond_total_fn())
    }

    /// Number of instances an operator has registered here; zero when the
    /// operator has no index.
    pub open spec fn operator_instance_count(&self, operator: u64) -> int {
        sum_by(self.operator_indexes@, opcount_fn(operator))
    }

    /// True when some registered instance of this service has this
    /// identifier.
    pub open spec fn has_instance(&self, instance: u64) -> bool {
        exists|i: int|
            0 <= i < self.instance_records@.len() && self.instance_records@[i].agent_instance
                == instance
    }

    /// Value of this service's liabilities against the custodial wallet:
    /// the held security deposit plus every operator bond.
    pub open spec fn liability(&self) -> int {
        (if self.account.state.deposit_held() {
            self.account.security_deposit as int
        } else {
            0
        }) + self.bonds_total()
    }

    /// The role table is strictly increasing by role id, within its size
    /// bound, and every stored entry has nonzero slots and bond.
    pub open spec fn wf_roles(&self) -> bool {
        &&& forall|i: int, j: int|
            0 <= i < j < self.roles().len() ==> self.roles()[i].agent_id
                < self.roles()[j].agent_id
        &&& self.roles().len() <= MAX_AGENT_IDS_PER_SERVICE
        &&& forall|i: int|
            0 <= i < self.roles().len() ==> (#[trigger] self.roles()[i]).slots > 0
                && self.roles()[i].bond > 0
    }

    /// Every slot counter belongs to a stored role and stays within that
    /// role's capacity.
    pub open spec fn wf_counters(&self) -> bool {
        counters_ok(self.slot_counters@, self.roles())
    }

    /// Bookkeeping sub-records are keyed uniquely and consistently.
    pub open spec fn wf_records(&self) -> bool {
        &&& records_ok(self.instance_records@, self.account.service_id)
        &&& opindexes_ok(self.operator_indexes@)
        &&& bonds_ok(self.operator_bonds@, self.account.service_id)
    }

    /// Well-formedness of one service and its sub-records.
    pub open spec fn wf(&self) -> bool {
        &&& self.wf_roles()
        &&& self.wf_counters()
        &&& self.wf_records()
        &&& self.account.num_agent_instances <= self.account.max_num_agent_instances
        &&& self.account.state != ServiceState::NonExistent
        &&& self.account.service_id >= 1
        &&& self.account.state == ServiceState::PreRegistration ==> {
            &&& self.account.num_agent_instances == 0
            &&& self.slot_counters@.len() == 0
            &&& self.instance_records@.len() == 0
            &&& self.instances_index.service_agent_instances@.len() == 0
        }
        &&& self.account.state == ServiceState::TerminatedBonded ==> {
            &&& self.slot_counters@.len() == 0
            &&& self.instance_records@.len() == 0
            &&& self.instances_index.service_agent_instances@.len() == 0
        }
    }
}

impl ServiceRegistry {
    /// True when the registry holds a service with this id.
    pub open spec fn has_service(&self, service_id: u128) -> bool {
        exists|i: int|
            0 <= i < self.services@.len() && (#[trigger] self.services@[i]).account.service_id
                == service_id
    }

    /// Index of the service with this id (meaningful only when
    /// `has_service`).
    pub open spec fn service_index(&self, service_id: u128) -> int {
        choose|i: int|
            0 <= i < self.services@.len() && (#[trigger] self.services@[i]).account.service_id
                == service_id
    }

    /// The service entry with this id (meaningful only when `has_service`).
    pub open spec fn service(&self, service_id: u128) -> ServiceEntry {
        self.services@[self.service_index(service_id)]
    }

    /// True when this (instance, operator) pair is recorded.
    pub open spec fn has_operator_instance(&self, instance: u64, operator: u64) -> bool {
        exists|i: int|
            0 <= i < self.operator_agent_instances@.len() && (
            #[trigger] self.operator_agent_instances@[i]).agent_instance == instance
                && self.operator_agent_instances@[i].operator == operator
    }

    /// True when this identifier is recorded as an instance, for any
    /// operator.
    pub open spec fn is_recorded_instance(&self, instance: u64) -> bool {
        exists|i: int|
            0 <= i < self.operator_agent_instances@.len() && (
            #[trigger] self.operator_agent_instances@[i]).agent_instance == instance
    }

    /// Total value the custodial wallet owes: unswept slashed funds plus
    /// every service's held deposit and operator bonds.
    pub open spec fn liabilities(&self) -> int {
        self.slashed_funds + sum_by(self.services@, liability_fn())
    }

    /// Index of the entry for a service, if one exists.
    pub fn find_service(&self, service_id: u128) -> (r: Option<usize>)
        ensures
            match r {
                Some(i) => i < self.services@.len() && self.services@[i as int].account.service_id
                    == service_id && self.has_service(service_id),
                None => !self.has_service(service_id),
            },
    {
        let n = self.services.len();
        let mut i: usize = 0;
        while i < n
            invariant
                i <= n,
                n == self.services@.len(),
                forall|j: int|
                    0 <= j < i ==> (#[trigger] self.services@[j]).account.service_id != service_id,
            decreases n - i,
        {
            if self.services[i].account.service_id == service_id {
                return Some(i);
            }
            i = i + 1;
        }
        None
    }

    /// With uniquely keyed services, the service found at `k` is the one the
    /// spec-level lookup denotes.
    pub proof fn lemma_service_at(&self, k: int)
        requires
            forall|i: int, j: int|
                0 <= i < j < self.services@.len() ==> (
                #[trigger] self.services@[i]).account.service_id != (
                #[trigger] self.services@[j]).account.service_id,
            0 <= k < self.services@.len(),
        ensures
            self.has_service(self.services@[k].account.service_id),
            self.service_index(self.services@[k].account.service_id) == k,
            self.service(self.services@[k].account.service_id) == self.services@[k],
    {
        let id = self.services@[k].account.service_id;
        assert(self.has_service(id));
        let i0 = self.service_index(id);
        assert(0 <= i0 < self.services@.len() && self.services@[i0].account.service_id == id);
        if i0 != k {
            if i0 < k {
                assert(self.services@[i0].account.service_id != self.services@[k].account.service_id);
            } else {
                assert(self.services@[k].account.service_id != self.services@[i0].account.service_id);
            }
        }
    }

    /// Index of the record for an (instance, operator) pair, if one exists.
    pub fn find_operator_instance(&self, instance: u64, operator: u64) -> (r: Option<usize>)
        ensures
            match r {
                Some(i) => {
                    &&& i < self.operator_agent_instances@.len()
                    &&& self.operator_agent_instances@[i as int].agent_instance == instance
                    &&& self.operator_agent_instances@[i as int].operator == operator
                    &&& self.has_operator_instance(instance, operator)
                },
                None => !self.has_operator_instance(instance, operator),
            },
    {
        let n = self.operator_agent_instances.len();
        let mut i: usize = 0;
        while i < n
            invariant
                i <= n,
                n == self.operator_agent_instances@.len(),
                forall|j: int|
                    0 <= j < i ==> !((#[trigger] self.operator_agent_instances@[j]).agent_instance
                        == instance && self.operator_agent_instances@[j].operator == operator),
            decreases n - i,
        {
            let rec = self.operator_agent_instances[i];
            if rec.agent_instance == instance && rec.operator == operator {
                return Some(i);
            }
            i = i + 1;
        }
        None
    }

    /// Whether this identifier is recorded as an instance for any operator.
    pub fn recorded_as_instance(&self, instance: u64) -> (r: bool)
        ensures
            r == self.is_recorded_instance(instance),
    {
        let n = self.operator_agent_instances.len();
        let mut i: usize = 0;
        while i < n
            invariant
                i <= n,
                n == self.operator_agent_instances@.len(),
                forall|j: int|
                    0 <= j < i ==> (#[trigger] self.operator_agent_instances@[j]).agent_instance
                        != instance,
            decreases n - i,
        {
            if self.operator_agent_instances[i].agent_instance == instance {
                return true;
            }
            i = i + 1;
        }
        false
    }

    /// Whether a multisig implementation is whitelisted.
    pub fn is_authorized(&self, multisig: u64) -> (r: bool)
        ensures
            r == self.registry_multisig.authorized_multisigs@.contains(multisig),
    {
        let n = self.registry_multisig.authorized_multisigs.len();
        let mut i: usize = 0;
        while i < n
            invariant
                i <= n,
                n == self.registry_multisig.authorized_multisigs@.len(),
                forall|j: int|
                    0 <= j < i ==> self.registry_multisig.authorized_multisigs@[j] != multisig,
            decreases n - i,
        {
            if self.registry_multisig.authorized_multisigs[i] == multisig {
                return true;
            }
            i = i + 1;
        }
        false
    }

    /// Well-formedness of the whole registry aggregate.
    pub open spec fn wf(&self) -> bool {
        &&& forall|i: int| 0 <= i < self.services@.len() ==> (#[trigger] self.services@[i]).wf()
        &&& forall|i: int, j: int|
            0 <= i < j < self.services@.len() ==> (
            #[trigger] self.services@[i]).account.service_id != (
            #[trigger] self.services@[j]).account.service_id
        &&& forall|i: int|
            0 <= i < self.services@.len() ==> (#[trigger] self.services@[i]).account.service_id
                <= self.total_supply
        &&& forall|i: int, j: int|
            0 <= i < j < self.registry_multisig.authorized_multisigs@.len()
                ==> self.registry_multisig.authorized_multisigs@[i]
                != self.registry_multisig.authorized_multisigs@[j]
        &&& self.registry_multisig.authorized_multisigs@.len() <= MAX_MULTISIGS
        &&& op_records_ok(self.operator_agent_instances@)
    }
}

impl ServiceEntry {
    /// Index of the role entry with this id, if one exists.
    pub fn find_role(&self, agent_id: u32) -> (r: Option<usize>)
        ensures
            match r {
                Some(i) => i < self.roles().len() && self.roles()[i as int].agent_id == agent_id
                    && self.has_role(agent_id),
                None => !self.has_role(agent_id),
            },
    {
        let n = self.agent_ids_index.agent_ids.len();
        let mut i: usize = 0;
        while i < n
            invariant
                i <= n,
                n == self.roles().len(),
                forall|j: int| 0 <= j < i ==> (#[trigger] self.roles()[j]).agent_id != agent_id,
            decreases n - i,
        {
            if self.agent_ids_index.agent_ids[i].agent_id == agent_id {
                return Some(i);
            }
            i = i + 1;
        }
        None
    }

    /// With a strictly increasing role table, the role found at `k` is the
    /// one the spec-level lookup denotes.
    pub proof fn lemma_role_at(&self, k: int)
        requires
            self.wf_roles(),
            0 <= k < self.roles().len(),
        ensures
            self.has_role(self.roles()[k].agent_id),
            self.role_index(self.roles()[k].agent_id) == k,
            self.role(self.roles()[k].agent_id) == self.roles()[k],
    {
        let id = self.roles()[k].agent_id;
        assert(self.has_role(id));
        let i0 = self.role_index(id);
        if i0 != k {
            if i0 < k {
                assert(self.roles()[i0].agent_id < self.roles()[k].agent_id);
            } else {
                assert(self.roles()[k].agent_id < self.roles()[i0].agent_id);
            }
        }
    }

    /// Index of the slot counter for a role, if one exists.
    pub fn find_counter(&self, agent_id: u32) -> (r: Option<usize>)
        ensures
            match r {
                Some(i) => i < self.slot_counters@.len() && self.slot_counters@[i as int].agent_id
                    == agent_id,
                None => forall|j: int|
                    0 <= j < self.slot_counters@.len() ==> (
                    #[trigger] self.slot_counters@[j]).agent_id != agent_id,
            },
    {
        let n = self.slot_counters.len();
        let mut i: usize = 0;
        while i < n
            invariant
                i <= n,
                n == self.slot_counters@.len(),
                forall|j: int|
                    0 <= j < i ==> (#[trigger] self.slot_counters@[j]).agent_id != agent_id,
            decreases n - i,
        {
            if self.slot_counters[i].agent_id == agent_id {
                return Some(i);
            }
            i = i + 1;
        }
        None
    }

    /// With uniquely keyed counters, the counter at `k` carries the whole
    /// count of its role.
    pub proof fn lemma_slot_count_at(&self, k: int)
        requires
            forall|i: int, j: int|
                0 <= i < j < self.slot_counters@.len() ==> self.slot_counters@[i].agent_id
                    != self.slot_counters@[j].agent_id,
            0 <= k < self.slot_counters@.len(),
        ensures
            self.slot_count(self.slot_counters@[k].agent_id)
                == self.slot_counters@[k].counter.count,
    {
        let id = self.slot_counters@[k].agent_id;
        lemma_sum_by_single(self.slot_counters@, k, count_fn(id));
    }

    /// A role without a counter has a zero count.
    pub proof fn lemma_slot_count_absent(&self, agent_id: u32)
        requires
            forall|j: int|
                0 <= j < self.slot_counters@.len() ==> (#[trigger] self.slot_counters@[j]).agent_id
                    != agent_id,
        ensures
            self.slot_count(agent_id) == 0,
    {
        lemma_sum_by_zero(self.slot_counters@, count_fn(agent_id));
    }

    /// Index of the bond record of an operator, if one exists.
    pub fn find_bond(&self, operator: u64) -> (r: Option<usize>)
        ensures
            match r {
                Some(i) => i < self.operator_bonds@.len() && self.operator_bonds@[i as int].operator
                    == operator,
                None => forall|j: int|
                    0 <= j < self.operator_bonds@.len() ==> (
                    #[trigger] self.operator_bonds@[j]).operator != operator,
            },
    {
        let n = self.operator_bonds.len();
        let mut i: usize = 0;
        while i < n
            invariant
                i <= n,
                n == self.operator_bonds@.len(),
                forall|j: int|
                    0 <= j < i ==> (#[trigger] self.operator_bonds@[j]).operator != operator,
            decreases n - i,
        {
            if self.operator_bonds[i].operator == operator {
                return Some(i);
            }
            i = i + 1;
        }
        None
    }

    /// With uniquely keyed bond records, the record at `k` carries the whole
    /// bond of its operator.
    pub proof fn lemma_bond_at(&self, k: int)
        requires
            forall|i: int, j: int|
                0 <= i < j < self.operator_bonds@.len() ==> (
                #[trigger] self.operator_bonds@[i]).operator != (
                #[trigger] self.operator_bonds@[j]).operator,
            0 <= k < self.operator_bonds@.len(),
        ensures
            self.bond_of(self.operator_bonds@[k].operator) == self.operator_bonds@[k].bond,
    {
        let op = self.operator_bonds@[k].operator;
        lemma_sum_by_single(self.operator_bonds@, k, bond_fn(op));
    }

    /// An operator without a bond record has a zero bond.
    pub proof fn lemma_bond_absent(&self, operator: u64)
        requires
            forall|j: int|
                0 <= j < self.operator_bonds@.len() ==> (
                #[trigger] self.operator_bonds@[j]).operator != operator,
        ensures
            self.bond_of(operator) == 0,
    {
        lemma_sum_by_zero(self.operator_bonds@, bond_fn(operator));
    }

    /// Index of the instance index of an operator, if one exists.
    pub fn find_operator_index(&self, operator: u64) -> (r: Option<usize>)
        ensures
            match r {
                Some(i) => i < self.operator_indexes@.len()
                    && self.operator_indexes@[i as int].operator == operator,
                None => forall|j: int|
                    0 <= j < self.operator_indexes@.len() ==> (
                    #[trigger] self.operator_indexes@[j]).operator != operator,
            },
    {
        let n = self.operator_indexes.len();
        let mut i: usize = 0;
        while i < n
            invariant
                i <= n,
                n == self.operator_indexes@.len(),
                forall|j: int|
                    0 <= j < i ==> (#[trigger] self.operator_indexes@[j]).operator != operator,
            decreases n - i,
        {
            if self.operator_indexes[i].operator == operator {
                return Some(i);
            }
            i = i + 1;
        }
        None
    }

    /// With uniquely keyed indexes, the index at `k` carries the whole
    /// instance count of its operator.
    pub proof fn lemma_opcount_at(&self, k: int)
        requires
            forall|i: int, j: int|
                0 <= i < j < self.operator_indexes@.len() ==> (
                #[trigger] self.operator_indexes@[i]).operator != (
                #[trigger] self.operator_indexes@[j]).operator,
            0 <= k < self.operator_indexes@.len(),
        ensures
            self.operator_instance_count(self.operator_indexes@[k].operator)
                == self.operator_indexes@[k].index.operator_agent_instances@.len(),
    {
        let op = self.operator_indexes@[k].operator;
        lemma_sum_by_single(self.operator_indexes@, k, opcount_fn(op));
    }

    /// An operator without an index has no instances.
    pub proof fn lemma_opcount_absent(&self, operator: u64)
        requires
            forall|j: int|
                0 <= j < self.operator_indexes@.len() ==> (
                #[trigger] self.operator_indexes@[j]).operator != operator,
        ensures
            self.operator_instance_count(operator) == 0,
    {
        lemma_sum_by_zero(self.operator_indexes@, opcount_fn(operator));
    }

    /// Index of the ownership record of an instance, if one exists.
    pub fn find_instance_record(&self, instance: u64) -> (r: Option<usize>)
        ensures
            match r {
                Some(i) => i < self.instance_records@.len()
                    && self.instance_records@[i as int].agent_instance == instance
                    && self.has_instance(instance),
                None => !self.has_instance(instance),
            },
    {
        let n = self.instance_records.len();
        let mut i: usize = 0;
        while i < n
            invariant
                i <= n,
                n == self.instance_records@.len(),
                forall|j: int|
                    0 <= j < i ==> (#[trigger] self.instance_records@[j]).agent_instance
                        != instance,
            decreases n - i,
        {
            if self.instance_records[i].agent_instance == instance {
                return Some(i);
            }
            i = i + 1;
        }
        None
    }
}

} // verus!
