use vstd::prelude::*;

use crate::error::ErrorCode;
use crate::ledger::Ledger;
use crate::service_state::ServiceState;
use crate::state::{
    bond_fn, bond_total_fn, copy_vec, liability_fn, unchanged_core, OperatorBondAccount,
    OperatorIndexEntry, ServiceRegistry,
};
use crate::sums::{
    lemma_sum_by_single, lemma_sum_by_update, lemma_sum_by_zero, sum_by,
};

verus! {

/// The operator owning an instance of a service, resolved through the
/// per-operator instance indexes in order; `None` when no index lists the
/// instance.
pub open spec fn resolve_operator(ois: Seq<OperatorIndexEntry>, instance: u64) -> Option<u64>
    decreases ois.len(),
{
    if ois.len() == 0 {
        Option::None
    } else if ois[0].index.operator_agent_instances@.contains(instance) {
        Option::Some(ois[0].operator)
    } else {
        resolve_operator(ois.drop_first(), instance)
    }
}

/// One slashing step: resolve the instance's operator, require a positive
/// amount against a positive bond, and forfeit the smaller of the two.
pub open spec fn slash_step(
    ois: Seq<OperatorIndexEntry>,
    bonds: Seq<OperatorBondAccount>,
    slashed: int,
    instance: u64,
    amount: u64,
) -> Result<(Seq<OperatorBondAccount>, int), ErrorCode> {
    match resolve_operator(ois, instance) {
        Option::None => Err(ErrorCode::ServiceAgentDoesNotExist),
        Option::Some(operator) => {
            if amount == 0 {
                Err(ErrorCode::InvalidSlashAmount)
            } else if sum_by(bonds, bond_fn(operator)) == 0 {
                Err(ErrorCode::IncorrectAgentBondingValue)
            } else {
                let i = choose|i: int| 0 <= i < bonds.len() && bonds[i].operator == operator;
                let current = bonds[i].bond;
                let d = if current < amount {
                    current as int
                } else {
                    amount as int
                };
                Ok(
                    (
                        bonds.update(
                            i,
                            OperatorBondAccount { bond: (current - d) as u64, ..bonds[i] },
                        ),
                        slashed + d,
                    ),
                )
            }
        },
    }
}

/// The bonds and slashed pool after the first `k` slashing items.
pub open spec fn slash_batch(
    ois: Seq<OperatorIndexEntry>,
    bonds: Seq<OperatorBondAccount>,
    slashed: int,
    instances: Seq<u64>,
    amounts: Seq<u64>,
    k: int,
) -> Result<(Seq<OperatorBondAccount>, int), ErrorCode>
    decreases k,
{
    if k <= 0 {
        Ok((bonds, slashed))
    } else {
        match slash_batch(ois, bonds, slashed, instances, amounts, k - 1) {
            Ok(prev) => slash_step(ois, prev.0, prev.1, instances[k - 1], amounts[k - 1]),
            Err(e) => Err(e),
        }
    }
}

/// Once a slashing step fails, the batch fails the same way for every
/// longer prefix.
pub proof fn lemma_slash_batch_err_persists(
    ois: Seq<OperatorIndexEntry>,
    bonds: Seq<OperatorBondAccount>,
    slashed: int,
    instances: Seq<u64>,
    amounts: Seq<u64>,
    k: int,
    m: int,
    e: ErrorCode,
)
    requires
        0 <= k <= m,
        slash_batch(ois, bonds, slashed, instances, amounts, k) == Err::<
            (Seq<OperatorBondAccount>, int),
            ErrorCode,
        >(e),
    ensures
        slash_batch(ois, bonds, slashed, instances, amounts, m) == Err::<
            (Seq<OperatorBondAccount>, int),
            ErrorCode,
        >(e),
    decreases m - k,
{
    if m > k {
        lemma_slash_batch_err_persists(ois, bonds, slashed, instances, amounts, k, m - 1, e);
    }
}

/// The exact outcome of a slashing call on given inputs: the service's
/// final bond table and the registry's slashed pool; or the error the
/// inputs earn.
pub open spec fn slash_outcome(
    registry: ServiceRegistry,
    caller: u64,
    service_id: u128,
    agent_instances: Seq<u64>,
    amounts: Seq<u64>,
) -> Result<(Seq<OperatorBondAccount>, int), ErrorCode> {
    if !registry.has_service(service_id) {
        Err(ErrorCode::ServiceNotFound)
    } else {
        let e0 = registry.service(service_id);
        if e0.account.state != ServiceState::Deployed {
            Err(ErrorCode::WrongServiceState)
        } else if agent_instances.len() != amounts.len() {
            Err(ErrorCode::WrongArrayLength)
        } else if caller != e0.account.multisig {
            Err(ErrorCode::OnlyOwnServiceMultisig)
        } else {
            slash_batch(
                e0.operator_indexes@,
                e0.operator_bonds@,
                registry.slashed_funds as int,
                agent_instances,
                amounts,
                agent_instances.len() as int,
            )
        }
    }
}

/// Whether one operator index lists an instance.
fn index_contains(index: &Vec<u64>, instance: u64) -> (r: bool)
    ensures
        r == index@.contains(instance),
{
    let n = index.len();
    let mut i: usize = 0;
    while i < n
        invariant
            i <= n,
            n == index@.len(),
            forall|j: int| 0 <= j < i ==> index@[j] != instance,
        decreases n - i,
    {
        if index[i] == instance {
            return true;
        }
        i = i + 1;
    }
    false
}

/// The operator owning an instance, per the per-operator indexes.
fn find_instance_operator(ois: &Vec<OperatorIndexEntry>, instance: u64) -> (r: Option<u64>)
    ensures
        r == resolve_operator(ois@, instance),
{
    let n = ois.len();
    let mut i: usize = 0;
    proof {
        assert(ois@.skip(0) =~= ois@);
    }
    while i < n
        invariant
            i <= n,
            n == ois@.len(),
            resolve_operator(ois@, instance) == resolve_operator(
                ois@.skip(i as int),
                instance,
            ),
        decreases n - i,
    {
        let c = index_contains(&ois[i].index.operator_agent_instances, instance);
        proof {
            assert(ois@.skip(i as int)[0] == ois@[i as int]);
            assert(ois@.skip(i as int).drop_first() =~= ois@.skip(i as int + 1));
        }
        if c {
            return Some(ois[i].operator);
        }
        i = i + 1;
    }
    proof {
        assert(ois@.skip(n as int) =~= Seq::<OperatorIndexEntry>::empty());
    }
    None
}

/// Forfeit bond from the operators owning the given instances of a
/// deployed service: for each (instance, amount) pair, the smaller of the
/// amount and the operator's remaining bond moves from the bond to the
/// registry's slashed pool. No value leaves the custodial wallet.
///
/// Only the service's own multisig may slash, the arrays must match in
/// length, each amount must be positive and each targeted operator must
/// still hold bond. On any failure nothing is changed.
pub fn slash(
    registry: &mut ServiceRegistry,
    caller: u64,
    service_id: u128,
    agent_instances: &Vec<u64>,
    amounts: &Vec<u64>,
) -> (r: Result<(), ErrorCode>)
    requires
        old(registry).wf(),
        old(registry).liabilities() <= u64::MAX,
    ensures
        final(registry).wf(),
        final(registry).liabilities() == old(registry).liabilities(),
        unchanged_core(final(registry), old(registry)),
        final(registry).operator_agent_instances@ == old(registry).operator_agent_instances@,
        ({
            let oc = slash_outcome(*old(registry), caller, service_id, agent_instances@, amounts@);
            match r {
                Ok(()) => {
                    &&& oc is Ok
                    &&& ({
                        let bonds1 = oc->Ok_0.0;
                        let slashed1 = oc->Ok_0.1;
                        let e1 = final(registry).service(service_id);
                        &&& final(registry).services@ =~= old(registry).services@.update(
                            old(registry).service_index(service_id),
                            e1,
                        )
                        &&& e1.operator_bonds@ == bonds1
                        &&& final(registry).slashed_funds == slashed1
                        &&& e1.account == old(registry).service(service_id).account
                        &&& e1.agent_ids_index.agent_ids@ == old(registry).service(
                            service_id,
                        ).agent_ids_index.agent_ids@
                        &&& e1.operator_indexes@ == old(registry).service(
                            service_id,
                        ).operator_indexes@
                        &&& e1.slot_counters == old(registry).service(service_id).slot_counters
                        &&& e1.instances_index == old(registry).service(service_id).instances_index
                        &&& e1.instance_records == old(registry).service(
                            service_id,
                        ).instance_records
                    })
                },
                Err(e) => *final(registry) == *old(registry) && oc == Err::<
                    (Seq<OperatorBondAccount>, int),
                    ErrorCode,
                >(e),
            }
        }),
{
    let i = match registry.find_service(service_id) {
        Some(i) => i,
        None => {
            return Err(ErrorCode::ServiceNotFound);
        },
    };
    proof {
        registry.lemma_service_at(i as int);
    }
    let ghost e0 = registry.services@[i as int];
    if registry.services[i].account.state != ServiceState::Deployed {
        return Err(ErrorCode::WrongServiceState);
    }
    let n = agent_instances.len();
    if n != amounts.len() {
        return Err(ErrorCode::WrongArrayLength);
    }
    if caller != registry.services[i].account.multisig {
        return Err(ErrorCode::OnlyOwnServiceMultisig);
    }

    let mut bonds = copy_vec(&registry.services[i].operator_bonds);
    let mut slashed: u64 = registry.slashed_funds;
    let ghost slashed0 = registry.slashed_funds as int;
    let ghost ois0 = e0.operator_indexes@;
    let ghost bonds0 = e0.operator_bonds@;
    proof {
        crate::state::lemma_liability_bound(registry, i as int);
    }

    let mut k: usize = 0;
    while k < n
        invariant
            k <= n,
            n == agent_instances@.len(),
            n == amounts@.len(),
            *registry == *old(registry),
            i < registry.services@.len(),
            registry.services@[i as int] == e0,
            ois0 == e0.operator_indexes@,
            bonds0 == e0.operator_bonds@,
            slashed0 == old(registry).slashed_funds as int,
            old(registry).wf(),
            old(registry).has_service(service_id),
            old(registry).service_index(service_id) == i as int,
            old(registry).service(service_id) == e0,
            e0.account.state == ServiceState::Deployed,
            caller == e0.account.multisig,
            forall|x: int, y: int|
                0 <= x < y < bonds@.len() ==> (#[trigger] bonds@[x]).operator != (
                #[trigger] bonds@[y]).operator,
            forall|x: int|
                0 <= x < bonds@.len() ==> (#[trigger] bonds@[x]).service_id
                    == e0.account.service_id,
            slashed as int + sum_by(bonds@, bond_total_fn()) == slashed0 + sum_by(
                bonds0,
                bond_total_fn(),
            ),
            slashed0 + sum_by(bonds0, bond_total_fn()) <= u64::MAX,
            sum_by(bonds@, bond_total_fn()) >= 0,
            slash_batch(ois0, bonds0, slashed0, agent_instances@, amounts@, k as int) == Ok::<
                (Seq<OperatorBondAccount>, int),
                ErrorCode,
            >((bonds@, slashed as int)),
        decreases n - k,
    {
        let instance = agent_instances[k];
        let amount = amounts[k];
        let operator = match find_instance_operator(
            &registry.services[i].operator_indexes,
            instance,
        ) {
            Some(op) => op,
            None => {
                proof {
                    lemma_slash_batch_err_persists(
                        ois0,
                        bonds0,
                        slashed0,
                        agent_instances@,
                        amounts@,
                        k as int + 1,
                        n as int,
                        ErrorCode::ServiceAgentDoesNotExist,
                    );
                }
                return Err(ErrorCode::ServiceAgentDoesNotExist);
            },
        };
        if amount == 0 {
            proof {
                lemma_slash_batch_err_persists(
                    ois0,
                    bonds0,
                    slashed0,
                    agent_instances@,
                    amounts@,
                    k as int + 1,
                    n as int,
                    ErrorCode::InvalidSlashAmount,
                );
            }
            return Err(ErrorCode::InvalidSlashAmount);
        }
        let nb = bonds.len();
        let mut bi_found: Option<usize> = None;
        let mut x: usize = 0;
        while x < nb
            invariant
                x <= nb,
                nb == bonds@.len(),
                match bi_found {
                    Some(b) => b < x && bonds@[b as int].operator == operator,
                    None => forall|y: int|
                        0 <= y < x ==> (#[trigger] bonds@[y]).operator != operator,
                },
            decreases nb - x,
        {
            if bonds[x].operator == operator {
                bi_found = Some(x);
            }
            x = x + 1;
        }
        let bi = match bi_found {
            Some(b) => {
                proof {
                    lemma_sum_by_single(bonds@, b as int, bond_fn(operator));
                }
                b
            },
            None => {
                proof {
                    lemma_sum_by_zero(bonds@, bond_fn(operator));
                    lemma_slash_batch_err_persists(
                        ois0,
                        bonds0,
                        slashed0,
                        agent_instances@,
                        amounts@,
                        k as int + 1,
                        n as int,
                        ErrorCode::IncorrectAgentBondingValue,
                    );
                }
                return Err(ErrorCode::IncorrectAgentBondingValue);
            },
        };
        let current_bond = bonds[bi].bond;
        if current_bond == 0 {
            proof {
                lemma_slash_batch_err_persists(
                    ois0,
                    bonds0,
                    slashed0,
                    agent_instances@,
                    amounts@,
                    k as int + 1,
                    n as int,
                    ErrorCode::IncorrectAgentBondingValue,
                );
            }
            return Err(ErrorCode::IncorrectAgentBondingValue);
        }
        let slashed_amount = if current_bond < amount {
            current_bond
        } else {
            amount
        };
        let ghost b0 = bonds@;
        let updated = OperatorBondAccount {
            service_id: bonds[bi].service_id,
            operator: bonds[bi].operator,
            bond: current_bond - slashed_amount,
        };
        proof {
            assert((choose|y: int| 0 <= y < b0.len() && b0[y].operator == operator) == bi as int)
                by {
                let y0 = choose|y: int| 0 <= y < b0.len() && b0[y].operator == operator;
                assert(0 <= y0 < b0.len() && b0[y0].operator == operator);
                if y0 != bi as int {
                    if y0 < bi as int {
                        assert(b0[y0].operator != b0[bi as int].operator);
                    } else {
                        assert(b0[bi as int].operator != b0[y0].operator);
                    }
                }
            }
            lemma_sum_by_update(b0, bi as int, updated, bond_total_fn());
            crate::sums::lemma_sum_by_element_bound(b0, bi as int, bond_total_fn());
        }
        bonds[bi] = updated;
        slashed = slashed + slashed_amount;
        proof {
            assert(slash_batch(
                ois0,
                bonds0,
                slashed0,
                agent_instances@,
                amounts@,
                k as int + 1,
            ) == Ok::<(Seq<OperatorBondAccount>, int), ErrorCode>((bonds@, slashed as int)));
        }
        k = k + 1;
    }

    // Commit.
    let ghost s0 = registry.services@;
    let ghost bonds_final = bonds@;
    let entry = &mut registry.services[i];
    entry.operator_bonds = bonds;
    registry.slashed_funds = slashed;
    proof {
        let kx = i as int;
        let e1 = final(registry).services@[kx];
        assert(final(registry).services@ =~= s0.update(kx, e1));
        final(registry).lemma_service_at(kx);
        lemma_sum_by_update(s0, kx, e1, liability_fn());
        assert(e1.wf());
    }
    Ok(())
}

/// Sweep the accumulated slashed funds: zero the pool and move its whole
/// value from the custodial wallet to the drainer. Only the drainer may
/// sweep; a zero pool sweeps nothing.
pub fn drain(registry: &mut ServiceRegistry, ledger: &mut Ledger, caller: u64) -> (r: Result<
    u64,
    ErrorCode,
>)
    requires
        old(registry).wf(),
        old(ledger).wf(),
        old(registry).liabilities() <= old(ledger).bal(old(registry).wallet_key),
    ensures
        final(registry).wf(),
        final(ledger).wf(),
        final(registry).liabilities() <= final(ledger).bal(final(registry).wallet_key),
        unchanged_core(final(registry), old(registry)),
        final(registry).services == old(registry).services,
        final(registry).operator_agent_instances@ == old(registry).operator_agent_instances@,
        ({
            let amount = old(registry).slashed_funds;
            let wallet = old(registry).wallet_key;
            let drainer = old(registry).drainer;
            match r {
                Ok(a) => {
                    &&& !old(registry).locked
                    &&& caller == drainer
                    &&& a == amount
                    &&& final(registry).slashed_funds == 0
                    &&& if amount > 0 && wallet != drainer {
                        &&& final(ledger).bal(wallet) == old(ledger).bal(wallet) - amount
                        &&& final(ledger).bal(drainer) == old(ledger).bal(drainer) + amount
                        &&& forall|a2: u64|
                            a2 != wallet && a2 != drainer ==> final(ledger).bal(a2) == old(
                                ledger,
                            ).bal(a2)
                    } else {
                        *final(ledger) == *old(ledger)
                    }
                },
                Err(e) => {
                    &&& *final(registry) == *old(registry)
                    &&& *final(ledger) == *old(ledger)
                    &&& (e == ErrorCode::ReentrancyGuard || e == ErrorCode::IllegalOwner || e
                        == ErrorCode::Overflow)
                    &&& (e == ErrorCode::ReentrancyGuard <==> old(registry).locked)
                    &&& (e == ErrorCode::IllegalOwner <==> (!old(registry).locked && caller
                        != drainer))
                    &&& (e == ErrorCode::Overflow <==> (!old(registry).locked && caller == drainer
                        && amount > 0 && wallet != drainer && old(ledger).bal(drainer) + amount
                        > u64::MAX))
                },
            }
        }),
{
    if registry.locked {
        return Err(ErrorCode::ReentrancyGuard);
    }
    if caller != registry.drainer {
        return Err(ErrorCode::IllegalOwner);
    }
    let amount = registry.slashed_funds;
    if amount > 0 {
        proof {
            assert forall|j: int|
                0 <= j < registry.services@.len() implies liability_fn()(
                #[trigger] registry.services@[j]) >= 0 by {
                let e = registry.services@[j];
                assert(forall|b: int|
                    0 <= b < e.operator_bonds@.len() ==> bond_total_fn()(
                        #[trigger] e.operator_bonds@[b],
                    ) >= 0);
                crate::sums::lemma_sum_by_nonneg(e.operator_bonds@, bond_total_fn());
            }
            crate::sums::lemma_sum_by_nonneg(registry.services@, liability_fn());
        }
        let wallet_balance = ledger.balance_of(registry.wallet_key);
        if wallet_balance < amount {
            // Unreachable while the wallet covers the registry's
            // liabilities, which the precondition guarantees.
            proof {
                assert(false);
            }
            return Err(ErrorCode::InsufficientFunds);
        }
        registry.slashed_funds = 0;
        match ledger.transfer(registry.wallet_key, registry.drainer, amount) {
            Ok(_) => {},
            Err(e) => {
                registry.slashed_funds = amount;
                return Err(e);
            },
        }
    }
    Ok(amount)
}

} // verus!
