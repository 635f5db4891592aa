use vstd::prelude::*;

use crate::error::ErrorCode;
use crate::ledger::Ledger;
use crate::service_state::ServiceState;
use crate::state::{
    copy_vec, liability_fn, unchanged_core, op_records_ok, OperatorAgentInstanceAccount,
    ServiceAccount, ServiceRegistry,
};
use crate::sums::{lemma_sum_by_remove, lemma_sum_by_update, lemma_sum_by_zero};

verus! {

/// The (instance, operator) records left once an operator's instances of
/// one service are closed: every record of this operator whose instance is
/// in `insts` goes; the rest keep their order.
pub open spec fn remove_op_records(
    s: Seq<OperatorAgentInstanceAccount>,
    operator: u64,
    insts: Seq<u64>,
) -> Seq<OperatorAgentInstanceAccount>
    decreases s.len(),
{
    if s.len() == 0 {
        s
    } else {
        let rest = remove_op_records(s.drop_last(), operator, insts);
        if s.last().operator == operator && insts.contains(s.last().agent_instance) {
            rest
        } else {
            rest.push(s.last())
        }
    }
}

/// Removing an operator's records keeps the rest distinct and adds
/// nothing.
pub proof fn lemma_remove_op_records_ok(
    s: Seq<OperatorAgentInstanceAccount>,
    operator: u64,
    insts: Seq<u64>,
)
    requires
        op_records_ok(s),
    ensures
        op_records_ok(remove_op_records(s, operator, insts)),
        forall|r: OperatorAgentInstanceAccount|
            remove_op_records(s, operator, insts).contains(r) ==> s.contains(r),
    decreases s.len(),
{
    if s.len() > 0 {
        let rest = remove_op_records(s.drop_last(), operator, insts);
        assert(op_records_ok(s.drop_last()));
        lemma_remove_op_records_ok(s.drop_last(), operator, insts);
        assert forall|r: OperatorAgentInstanceAccount| rest.contains(r) implies s.contains(r) by {
            assert(s.drop_last().contains(r));
            let j = choose|j: int| 0 <= j < s.drop_last().len() && s.drop_last()[j] == r;
            assert(s[j] == r);
        }
        if !(s.last().operator == operator && insts.contains(s.last().agent_instance)) {
            let out = rest.push(s.last());
            assert forall|i: int, j: int| 0 <= i < j < out.len() implies (#[trigger] out[i]) != (
            #[trigger] out[j]) by {
                if j == out.len() - 1 {
                    if out[i] == s.last() {
                        assert(rest.contains(out[i]));
                        assert(s.drop_last().contains(out[i]));
                        let x = choose|x: int|
                            0 <= x < s.drop_last().len() && s.drop_last()[x] == out[i];
                        assert(s[x] == s[s.len() - 1]);
                    }
                }
            }
            assert forall|r: OperatorAgentInstanceAccount| out.contains(r) implies s.contains(
                r,
            ) by {
                let j = choose|j: int| 0 <= j < out.len() && out[j] == r;
                if j == out.len() - 1 {
                    assert(s[s.len() - 1] == r);
                } else {
                    assert(rest.contains(r));
                }
            }
        }
    }
}

/// Terminate a service: refund the owner's security deposit once, purge
/// the role table, slot counters and instance records, and move to
/// `TerminatedBonded` while operator bonds remain, else back to
/// `PreRegistration`.
///
/// Only the manager may terminate, on behalf of the recorded owner, and
/// not while the service is in `PreRegistration` or already
/// `TerminatedBonded`. On any failure nothing is changed.
pub fn terminate(
    registry: &mut ServiceRegistry,
    ledger: &mut Ledger,
    caller: u64,
    service_id: u128,
    service_owner: u64,
) -> (r: Result<(), ErrorCode>)
    requires
        old(registry).wf(),
        old(ledger).wf(),
        old(registry).liabilities() <= old(ledger).bal(old(registry).wallet_key),
    ensures
        final(registry).wf(),
        final(ledger).wf(),
        final(registry).liabilities() <= final(ledger).bal(final(registry).wallet_key),
        unchanged_core(final(registry), old(registry)),
        final(registry).slashed_funds == old(registry).slashed_funds,
        final(registry).operator_agent_instances@ == old(registry).operator_agent_instances@,
        ({
            let found = old(registry).has_service(service_id);
            let e0 = old(registry).service(service_id);
            let refund = e0.account.security_deposit;
            let wallet = old(registry).wallet_key;
            let owner = e0.account.service_owner;
            match r {
                Ok(()) => {
                    &&& !old(registry).locked
                    &&& caller == old(registry).manager
                    &&& found
                    &&& owner == service_owner
                    &&& e0.account.state != ServiceState::PreRegistration
                    &&& e0.account.state != ServiceState::TerminatedBonded
                    &&& ({
                        let e1 = final(registry).service(service_id);
                        &&& final(registry).services@ =~= old(registry).services@.update(
                            old(registry).service_index(service_id),
                            e1,
                        )
                        &&& e1.account == (ServiceAccount {
                            security_deposit: 0u64,
                            state: (if e0.account.num_agent_instances > 0 {
                                ServiceState::TerminatedBonded
                            } else {
                                ServiceState::PreRegistration
                            }),
                            ..e0.account
                        })
                        &&& e1.agent_ids_index.agent_ids@.len() == 0
                        &&& e1.slot_counters@.len() == 0
                        &&& e1.instance_records@.len() == 0
                        &&& e1.instances_index.service_agent_instances@.len() == 0
                        &&& e1.operator_indexes@ == e0.operator_indexes@
                        &&& e1.operator_bonds@ == e0.operator_bonds@
                    })
                    &&& if refund > 0 && wallet != owner {
                        &&& final(ledger).bal(wallet) == old(ledger).bal(wallet) - refund
                        &&& final(ledger).bal(owner) == old(ledger).bal(owner) + refund
                        &&& forall|a: u64|
                            a != wallet && a != owner ==> final(ledger).bal(a) == old(ledger).bal(
                                a,
                            )
                    } else {
                        *final(ledger) == *old(ledger)
                    }
                },
                Err(e) => {
                    &&& *final(registry) == *old(registry)
                    &&& *final(ledger) == *old(ledger)
                    &&& (e == ErrorCode::ReentrancyGuard || e == ErrorCode::InvalidAccountOwner
                        || e == ErrorCode::ServiceNotFound || e == ErrorCode::InvalidArgument || e
                        == ErrorCode::WrongServiceState || e == ErrorCode::Overflow)
                    &&& (e == ErrorCode::ReentrancyGuard <==> old(registry).locked)
                    &&& (e == ErrorCode::InvalidAccountOwner <==> (!old(registry).locked && caller
                        != old(registry).manager))
                    &&& (e == ErrorCode::ServiceNotFound <==> (!old(registry).locked && caller
                        == old(registry).manager && !found))
                    &&& (e == ErrorCode::InvalidArgument <==> (!old(registry).locked && caller
                        == old(registry).manager && found && owner != service_owner))
                    &&& (e == ErrorCode::WrongServiceState <==> (!old(registry).locked && caller
                        == old(registry).manager && found && owner == service_owner && (
                        e0.account.state == ServiceState::PreRegistration || e0.account.state
                            == ServiceState::TerminatedBonded)))
                    &&& (e == ErrorCode::Overflow <==> (!old(registry).locked && caller == old(
                        registry,
                    ).manager && found && owner == service_owner && e0.account.state
                        != ServiceState::PreRegistration && e0.account.state
                        != ServiceState::TerminatedBonded && refund > 0 && wallet != owner && old(
                        ledger,
                    ).bal(owner) + refund > u64::MAX))
                },
            }
        }),
{
    if registry.locked {
        return Err(ErrorCode::ReentrancyGuard);
    }
    if caller != registry.manager {
        return Err(ErrorCode::InvalidAccountOwner);
    }
    let i = match registry.find_service(service_id) {
        Some(i) => i,
        None => {
            return Err(ErrorCode::ServiceNotFound);
        },
    };
    proof {
        registry.lemma_service_at(i as int);
    }
    let ghost e0 = registry.services@[i as int];
    if registry.services[i].account.service_owner != service_owner {
        return Err(ErrorCode::InvalidArgument);
    }
    let state0 = registry.services[i].account.state;
    if state0 == ServiceState::PreRegistration || state0 == ServiceState::TerminatedBonded {
        return Err(ErrorCode::WrongServiceState);
    }

    // Refund the security deposit before mutating anything.
    let refund = registry.services[i].account.security_deposit;
    let owner = registry.services[i].account.service_owner;
    let wallet = registry.wallet_key;
    if refund > 0 {
        proof {
            crate::state::lemma_liability_bound(registry, i as int);
        }
        let wallet_balance = ledger.balance_of(wallet);
        if wallet_balance < refund {
            // Unreachable while the wallet covers the registry's
            // liabilities, which the precondition guarantees.
            proof {
                assert(false);
            }
            return Err(ErrorCode::InsufficientFunds);
        }
        match ledger.transfer(wallet, owner, refund) {
            Ok(_) => {},
            Err(e) => {
                return Err(e);
            },
        }
    }

    let ghost s0 = registry.services@;
    let entry = &mut registry.services[i];
    entry.account.security_deposit = 0;
    if entry.account.num_agent_instances > 0 {
        entry.account.state = ServiceState::TerminatedBonded;
    } else {
        entry.account.state = ServiceState::PreRegistration;
    }
    entry.agent_ids_index.agent_ids = Vec::new();
    entry.slot_counters = Vec::new();
    entry.instance_records = Vec::new();
    entry.instances_index.service_agent_instances = Vec::new();
    proof {
        let kx = i as int;
        let e1 = final(registry).services@[kx];
        assert(final(registry).services@ =~= s0.update(kx, e1));
        final(registry).lemma_service_at(kx);
        lemma_sum_by_update(s0, kx, e1, liability_fn());
        assert(e1.liability() == e0.liability() - refund);
        assert(e1.wf());
    }
    Ok(())
}

/// Return an operator's full bond for a terminated service, close the
/// operator's records, and subtract the operator's instances from the
/// service; when no instances remain the service returns to
/// `PreRegistration`.
///
/// Only the manager may unbond, only in `TerminatedBonded`, and only for
/// an operator who still owns instances there. On any failure nothing is
/// changed.
pub fn unbond(
    registry: &mut ServiceRegistry,
    ledger: &mut Ledger,
    caller: u64,
    service_id: u128,
    operator: u64,
) -> (r: Result<u64, ErrorCode>)
    requires
        old(registry).wf(),
        old(ledger).wf(),
        old(registry).liabilities() <= old(ledger).bal(old(registry).wallet_key),
    ensures
        final(registry).wf(),
        final(ledger).wf(),
        final(registry).liabilities() <= final(ledger).bal(final(registry).wallet_key),
        unchanged_core(final(registry), old(registry)),
        final(registry).slashed_funds == old(registry).slashed_funds,
        ({
            let found = old(registry).has_service(service_id);
            let e0 = old(registry).service(service_id);
            let wallet = old(registry).wallet_key;
            let count = crate::register_ops::operator_index_seq(e0, operator).len();
            match r {
                Ok(refund) => {
                    &&& !old(registry).locked
                    &&& caller == old(registry).manager
                    &&& operator != 0
                    &&& found
                    &&& e0.account.state == ServiceState::TerminatedBonded
                    &&& count > 0
                    &&& refund == e0.bond_of(operator)
                    &&& ({
                        let e1 = final(registry).service(service_id);
                        let num1 = (if e0.account.num_agent_instances >= count {
                            e0.account.num_agent_instances - count
                        } else {
                            0
                        });
                        &&& final(registry).services@ =~= old(registry).services@.update(
                            old(registry).service_index(service_id),
                            e1,
                        )
                        &&& e1.account == (ServiceAccount {
                            num_agent_instances: num1 as u32,
                            state: (if num1 == 0 {
                                ServiceState::PreRegistration
                            } else {
                                ServiceState::TerminatedBonded
                            }),
                            ..e0.account
                        })
                        &&& e1.bond_of(operator) == 0
                        &&& crate::register_ops::operator_index_seq(e1, operator).len() == 0
                        &&& ({
                            let ois0 = e0.operator_indexes@;
                            let oidx = choose|x: int|
                                0 <= x < ois0.len() && (#[trigger] ois0[x]).operator == operator;
                            e1.operator_indexes@ == ois0.remove(oidx)
                        })
                        &&& ({
                            let b0 = e0.operator_bonds@;
                            if exists|x: int|
                                0 <= x < b0.len() && (#[trigger] b0[x]).operator == operator {
                                let bidx = choose|x: int|
                                    0 <= x < b0.len() && (#[trigger] b0[x]).operator == operator;
                                e1.operator_bonds@ == b0.remove(bidx)
                            } else {
                                e1.operator_bonds@ == b0
                            }
                        })
                        &&& e1.agent_ids_index.agent_ids@ == e0.agent_ids_index.agent_ids@
                        &&& final(registry).operator_agent_instances@ == remove_op_records(
                            old(registry).operator_agent_instances@,
                            operator,
                            crate::register_ops::operator_index_seq(e0, operator),
                        )
                    })
                    &&& if refund > 0 && wallet != operator {
                        &&& final(ledger).bal(wallet) == old(ledger).bal(wallet) - refund
                        &&& final(ledger).bal(operator) == old(ledger).bal(operator) + refund
                        &&& forall|a: u64|
                            a != wallet && a != operator ==> final(ledger).bal(a) == old(
                                ledger,
                            ).bal(a)
                    } else {
                        *final(ledger) == *old(ledger)
                    }
                },
                Err(e) => {
                    &&& *final(registry) == *old(registry)
                    &&& *final(ledger) == *old(ledger)
                    &&& (e == ErrorCode::ReentrancyGuard || e == ErrorCode::ServiceNotFound || e
                        == ErrorCode::InvalidAccountOwner || e == ErrorCode::InvalidArgument || e
                        == ErrorCode::WrongServiceState || e == ErrorCode::OperatorHasNoInstances
                        || e == ErrorCode::Overflow)
                    &&& (e == ErrorCode::ReentrancyGuard <==> old(registry).locked)
                    &&& (e == ErrorCode::ServiceNotFound <==> (!old(registry).locked && !found))
                    &&& (e == ErrorCode::InvalidAccountOwner <==> (!old(registry).locked && found
                        && caller != old(registry).manager))
                    &&& (e == ErrorCode::InvalidArgument <==> (!old(registry).locked && found
                        && caller == old(registry).manager && operator == 0))
                    &&& (e == ErrorCode::WrongServiceState <==> (!old(registry).locked && found
                        && caller == old(registry).manager && operator != 0 && e0.account.state
                        != ServiceState::TerminatedBonded))
                    &&& (e == ErrorCode::OperatorHasNoInstances <==> (!old(registry).locked
                        && found && caller == old(registry).manager && operator != 0
                        && e0.account.state == ServiceState::TerminatedBonded && count == 0))
                    &&& (e == ErrorCode::Overflow <==> (!old(registry).locked && found && caller
                        == old(registry).manager && operator != 0 && e0.account.state
                        == ServiceState::TerminatedBonded && count > 0 && e0.bond_of(operator) > 0
                        && wallet != operator && old(ledger).bal(operator) + e0.bond_of(operator)
                        > u64::MAX))
                },
            }
        }),
{
    if registry.locked {
        return Err(ErrorCode::ReentrancyGuard);
    }
    let i = match registry.find_service(service_id) {
        Some(i) => i,
        None => {
            return Err(ErrorCode::ServiceNotFound);
        },
    };
    proof {
        registry.lemma_service_at(i as int);
    }
    let ghost e0 = registry.services@[i as int];
    if caller != registry.manager {
        return Err(ErrorCode::InvalidAccountOwner);
    }
    if operator == 0 {
        return Err(ErrorCode::InvalidArgument);
    }
    if registry.services[i].account.state != ServiceState::TerminatedBonded {
        return Err(ErrorCode::WrongServiceState);
    }

    // The operator's instance index; missing or empty means nothing to
    // unbond.
    let oi_found = registry.services[i].find_operator_index(operator);
    let ghost ois0 = e0.operator_indexes@;
    proof {
        match oi_found {
            Some(oi) => {
                let x0 = choose|x: int|
                    0 <= x < ois0.len() && (#[trigger] ois0[x]).operator == operator;
                assert(exists|x: int|
                    0 <= x < ois0.len() && (#[trigger] ois0[x]).operator == operator);
                if x0 != oi as int {
                    if x0 < oi as int {
                        assert(ois0[x0].operator != ois0[oi as int].operator);
                    } else {
                        assert(ois0[oi as int].operator != ois0[x0].operator);
                    }
                }
            },
            None => {
                assert(crate::register_ops::operator_index_seq(e0, operator) =~= Seq::empty());
            },
        }
    }
    let num_instances: usize = match oi_found {
        Some(oi) => registry.services[i].operator_indexes[oi].index.operator_agent_instances.len(),
        None => 0,
    };
    if num_instances == 0 {
        return Err(ErrorCode::OperatorHasNoInstances);
    }
    let oi = match oi_found {
        Some(oi) => oi,
        None => {
            // Unreachable: a nonzero instance count implies an index.
            proof {
                assert(false);
            }
            return Err(ErrorCode::OperatorHasNoInstances);
        },
    };

    // The bond to refund; a missing record holds nothing.
    let bi_found = registry.services[i].find_bond(operator);
    let refund: u64 = match bi_found {
        Some(bi) => {
            proof {
                registry.services@[i as int].lemma_bond_at(bi as int);
            }
            registry.services[i].operator_bonds[bi].bond
        },
        None => {
            proof {
                registry.services@[i as int].lemma_bond_absent(operator);
            }
            0
        },
    };

    // Refund before mutating anything.
    let wallet = registry.wallet_key;
    if refund > 0 {
        proof {
            crate::state::lemma_liability_bound(registry, i as int);
            match bi_found {
                Some(bi) => {
                    assert(forall|b: int|
                        0 <= b < e0.operator_bonds@.len() ==> crate::state::bond_total_fn()(
                            #[trigger] e0.operator_bonds@[b],
                        ) >= 0);
                    crate::sums::lemma_sum_by_element_bound(
                        e0.operator_bonds@,
                        bi as int,
                        crate::state::bond_total_fn(),
                    );
                },
                None => {},
            }
        }
        let wallet_balance = ledger.balance_of(wallet);
        if wallet_balance < refund {
            // Unreachable while the wallet covers the registry's
            // liabilities, which the precondition guarantees.
            proof {
                assert(false);
            }
            return Err(ErrorCode::InsufficientFunds);
        }
        match ledger.transfer(wallet, operator, refund) {
            Ok(_) => {},
            Err(e) => {
                return Err(e);
            },
        }
    }

    // Close the operator's (instance, operator) records.
    let insts = copy_vec(
        &registry.services[i].operator_indexes[oi].index.operator_agent_instances,
    );
    let old_records = &registry.operator_agent_instances;
    let m = old_records.len();
    let mut kept: Vec<OperatorAgentInstanceAccount> = Vec::new();
    let mut j: usize = 0;
    while j < m
        invariant
            j <= m,
            m == registry.operator_agent_instances@.len(),
            *registry == *old(registry),
            kept@ == remove_op_records(
                registry.operator_agent_instances@.take(j as int),
                operator,
                insts@,
            ),
            insts@ == crate::register_ops::operator_index_seq(
                old(registry).service(service_id),
                operator,
            ),
        decreases m - j,
    {
        let rec = registry.operator_agent_instances[j];
        let mut is_mine = false;
        if rec.operator == operator {
            let ni = insts.len();
            let mut x: usize = 0;
            while x < ni
                invariant
                    x <= ni,
                    ni == insts@.len(),
                    is_mine <==> exists|y: int| 0 <= y < x && insts@[y] == rec.agent_instance,
                decreases ni - x,
            {
                if insts[x] == rec.agent_instance {
                    is_mine = true;
                }
                x = x + 1;
            }
        }
        proof {
            let t0 = registry.operator_agent_instances@.take(j as int);
            let t1 = registry.operator_agent_instances@.take(j as int + 1);
            assert(t1.drop_last() =~= t0);
            assert(t1.last() == registry.operator_agent_instances@[j as int]);
            assert(is_mine == (rec.operator == operator && insts@.contains(rec.agent_instance)));
        }
        if !is_mine {
            kept.push(rec);
        }
        j = j + 1;
    }
    proof {
        assert(registry.operator_agent_instances@.take(m as int) =~= registry
            .operator_agent_instances@);
    }

    // Commit.
    let ghost s0 = registry.services@;
    let entry = &mut registry.services[i];
    let count32: u32 = if num_instances > u32::MAX as usize {
        u32::MAX
    } else {
        num_instances as u32
    };
    let num0 = entry.account.num_agent_instances;
    let num1: u32 = if num0 >= count32 {
        num0 - count32
    } else {
        0
    };
    entry.account.num_agent_instances = num1;
    if num1 == 0 {
        entry.account.state = ServiceState::PreRegistration;
    }
    match bi_found {
        Some(bi) => {
            proof {
                let b0 = e0.operator_bonds@;
                assert((choose|x: int|
                    0 <= x < b0.len() && (#[trigger] b0[x]).operator == operator) == bi as int)
                    by {
                    let x0 = choose|x: int|
                        0 <= x < b0.len() && (#[trigger] b0[x]).operator == operator;
                    if x0 != bi as int {
                        if x0 < bi as int {
                            assert(b0[x0].operator != b0[bi as int].operator);
                        } else {
                            assert(b0[bi as int].operator != b0[x0].operator);
                        }
                    }
                }
            }
            entry.operator_bonds.remove(bi);
        },
        None => {
            proof {
                let b0 = e0.operator_bonds@;
                assert(!(exists|x: int|
                    0 <= x < b0.len() && (#[trigger] b0[x]).operator == operator));
            }
        },
    }
    proof {
        let ois0 = e0.operator_indexes@;
        assert((choose|x: int|
            0 <= x < ois0.len() && (#[trigger] ois0[x]).operator == operator) == oi as int) by {
            let x0 = choose|x: int|
                0 <= x < ois0.len() && (#[trigger] ois0[x]).operator == operator;
            if x0 != oi as int {
                if x0 < oi as int {
                    assert(ois0[x0].operator != ois0[oi as int].operator);
                } else {
                    assert(ois0[oi as int].operator != ois0[x0].operator);
                }
            }
        }
    }
    registry.services[i].operator_indexes.remove(oi);
    registry.operator_agent_instances = kept;
    proof {
        let kx = i as int;
        let e1 = final(registry).services@[kx];
        assert(final(registry).services@ =~= s0.update(kx, e1));
        final(registry).lemma_service_at(kx);
        lemma_sum_by_update(s0, kx, e1, liability_fn());
        match bi_found {
            Some(bi) => {
                lemma_sum_by_remove(e0.operator_bonds@, bi as int, crate::state::bond_total_fn());
                lemma_sum_by_remove(e0.operator_bonds@, bi as int, crate::state::bond_fn(operator));
                assert forall|jj: int|
                    0 <= jj < e1.operator_bonds@.len() implies crate::state::bond_fn(operator)(
                    #[trigger] e1.operator_bonds@[jj]) == 0 by {
                    let j0 = if jj < bi as int {
                        jj
                    } else {
                        jj + 1
                    };
                    assert(e1.operator_bonds@[jj] == e0.operator_bonds@[j0]);
                }
                lemma_sum_by_zero(e1.operator_bonds@, crate::state::bond_fn(operator));
            },
            None => {
                lemma_sum_by_zero(e1.operator_bonds@, crate::state::bond_fn(operator));
            },
        }
        assert(e1.liability() == e0.liability() - refund);
        lemma_remove_op_records_ok(old(registry).operator_agent_instances@, operator, insts@);
        assert forall|x: int, y: int|
            0 <= x < y < e1.operator_indexes@.len() implies (
        #[trigger] e1.operator_indexes@[x]).operator != (
        #[trigger] e1.operator_indexes@[y]).operator by {
            let x0 = if x < oi as int {
                x
            } else {
                x + 1
            };
            let y0 = if y < oi as int {
                y
            } else {
                y + 1
            };
            assert(ois0[x0].operator != ois0[y0].operator);
        }
        assert forall|x: int|
            0 <= x < e1.operator_indexes@.len() implies (
        #[trigger] e1.operator_indexes@[x]).operator != operator by {
            let x0 = if x < oi as int {
                x
            } else {
                x + 1
            };
            assert(e1.operator_indexes@[x] == ois0[x0]);
            if ois0[x0].operator == operator {
                if x0 < oi as int {
                    assert(ois0[x0].operator != ois0[oi as int].operator);
                } else {
                    assert(ois0[oi as int].operator != ois0[x0].operator);
                }
            }
        }
        assert(crate::register_ops::operator_index_seq(e1, operator) =~= Seq::empty());
        assert(e1.wf());
    }
    Ok(refund)
}

} // verus!
