use vstd::prelude::*;
use vstd::string::StringSliceAdditionalSpecFns;

use crate::error::ErrorCode;
use crate::pda::{derived_address, seeds_of, sha256_of};
use crate::service_state::ServiceState;
use crate::state::{
    copy_vec, liability_fn, unchanged_core, MultisigAccount, ServiceAccount, ServiceRegistry,
};
use crate::sums::lemma_sum_by_update;

verus! {

/// The concatenation of the byte encodings of the instance identifiers, in
/// order: the seed material of the deployment key.
pub open spec fn instances_seed(instances: Seq<u64>) -> Seq<u8>
    decreases instances.len(),
{
    if instances.len() == 0 {
        Seq::empty()
    } else {
        instances_seed(instances.drop_last()).add(
            vstd::bytes::spec_u64_to_le_bytes(instances.last()),
        )
    }
}

/// The deployment key of an instance list: the address derived from the
/// digest of the concatenated instance identifiers.
pub open spec fn multisig_address(instances: Seq<u64>, program_id: Seq<u8>) -> Option<
    (Seq<u8>, u8),
> {
    derived_address(seeds_of("multisig", seq![sha256_of(instances_seed(instances))]), program_id)
}

/// The multisig identifier carried by the registry for a deployment key:
/// the first eight bytes of the derived address, read little endian.
pub open spec fn multisig_id_of(address: Seq<u8>) -> u64 {
    vstd::bytes::spec_u64_from_le_bytes(address.take(8))
}

impl ServiceRegistry {
    /// Build the multisig deployment record for a service's final instance
    /// list: a deterministic deployment key is derived from the
    /// concatenated instance identifiers, and the record carries the list,
    /// the threshold and the opaque payload for the multisig
    /// implementation.
    ///
    /// The threshold must be positive and at most the number of instances.
    pub fn create_multisig(
        multisig_implementation: u64,
        agent_instances: &Vec<u64>,
        threshold: u32,
        data: Vec<u8>,
        program_id: &[u8; 32],
    ) -> (r: Result<(u64, MultisigAccount), ErrorCode>)
        ensures
            match r {
                Ok(p) => {
                    &&& threshold > 0
                    &&& threshold <= agent_instances@.len()
                    &&& multisig_address(agent_instances@, program_id@) matches Some(d) && p.0
                        == multisig_id_of(d.0)
                    &&& p.1.agent_instances@ == agent_instances@
                    &&& p.1.threshold == threshold
                    &&& p.1.data == data
                },
                Err(e) => {
                    &&& (e == ErrorCode::WrongThreshold <==> (threshold == 0 || threshold
                        > agent_instances@.len()))
                    &&& (e == ErrorCode::InvalidPda <==> (threshold > 0 && threshold
                        <= agent_instances@.len() && multisig_address(
                        agent_instances@,
                        program_id@,
                    ) is None))
                    &&& (e == ErrorCode::WrongThreshold || e == ErrorCode::InvalidPda)
                },
            },
            r is Ok <==> (threshold > 0 && threshold <= agent_instances@.len() && multisig_address(
                agent_instances@,
                program_id@,
            ) is Some),
    {
        let n = agent_instances.len();
        if threshold == 0 || threshold as usize > n {
            return Err(ErrorCode::WrongThreshold);
        }

        // Concatenate the instance identifiers into the seed material.
        let mut seed_data: Vec<u8> = Vec::new();
        let mut i: usize = 0;
        while i < n
            invariant
                i <= n,
                n == agent_instances@.len(),
                seed_data@ == instances_seed(agent_instances@.take(i as int)),
            decreases n - i,
        {
            let mut enc = vstd::bytes::u64_to_le_bytes(agent_instances[i]);
            seed_data.append(&mut enc);
            proof {
                let t1 = agent_instances@.take(i as int + 1);
                assert(t1.drop_last() =~= agent_instances@.take(i as int));
                assert(t1.last() == agent_instances@[i as int]);
            }
            i = i + 1;
        }
        proof {
            assert(agent_instances@.take(n as int) =~= agent_instances@);
        }

        let digest = crate::pda::sha256(&seed_data);
        let mut digest_vec: Vec<u8> = Vec::new();
        let mut j: usize = 0;
        while j < 32
            invariant
                j <= 32,
                digest_vec@ == digest@.take(j as int),
            decreases 32 - j,
        {
            digest_vec.push(digest[j]);
            proof {
                assert(digest@.take(j as int).push(digest@[j as int]) =~= digest@.take(
                    j as int + 1,
                ));
            }
            j = j + 1;
        }
        proof {
            assert(digest@.take(32) =~= digest@);
        }
        let parts: Vec<Vec<u8>> = vec![digest_vec];
        proof {
            assert(parts.deep_view() =~~= seq![sha256_of(seed_data@)]);
        }
        let (address, _bump) = match crate::pda::derive("multisig", parts, program_id) {
            Some(p) => p,
            None => {
                return Err(ErrorCode::InvalidPda);
            },
        };

        // The registry-side identifier: the address's first eight bytes.
        let mut head: Vec<u8> = Vec::new();
        let mut k: usize = 0;
        while k < 8
            invariant
                k <= 8,
                head@ == address@.take(k as int),
            decreases 8 - k,
        {
            head.push(address[k]);
            proof {
                assert(address@.take(k as int).push(address@[k as int]) =~= address@.take(
                    k as int + 1,
                ));
            }
            k = k + 1;
        }
        let multisig_id = vstd::bytes::u64_from_le_bytes(head.as_slice());
        let record = MultisigAccount {
            agent_instances: copy_vec(agent_instances),
            threshold,
            data,
        };
        Ok((multisig_id, record))
    }
}

/// Hand a fully staffed service to a threshold multisig: derive the
/// deployment key over the service's final instance list, record the
/// multisig on the service, and move to `Deployed`.
///
/// Only the manager may deploy, on behalf of the recorded owner, only from
/// `FinishedRegistration`, and only with a whitelisted multisig
/// implementation. The built multisig record is returned for the external
/// multisig implementation to consume. On any failure nothing is changed.
pub fn deploy(
    registry: &mut ServiceRegistry,
    caller: u64,
    service_id: u128,
    service_owner: u64,
    multisig_implementation: u64,
    data: Vec<u8>,
    program_id: &[u8; 32],
) -> (r: Result<(u64, MultisigAccount), ErrorCode>)
    requires
        old(registry).wf(),
    ensures
        final(registry).wf(),
        final(registry).liabilities() == old(registry).liabilities(),
        unchanged_core(final(registry), old(registry)),
        final(registry).slashed_funds == old(registry).slashed_funds,
        final(registry).operator_agent_instances@ == old(registry).operator_agent_instances@,
        ({
            let found = old(registry).has_service(service_id);
            let e0 = old(registry).service(service_id);
            let whitelisted = old(registry).registry_multisig.authorized_multisigs@.contains(
                multisig_implementation,
            );
            let instances = e0.instances_index.service_agent_instances@;
            match r {
                Ok(p) => {
                    &&& !old(registry).locked
                    &&& caller == old(registry).manager
                    &&& found
                    &&& e0.account.service_owner == service_owner
                    &&& whitelisted
                    &&& e0.account.state == ServiceState::FinishedRegistration
                    &&& e0.account.threshold > 0
                    &&& e0.account.threshold <= instances.len()
                    &&& multisig_address(instances, program_id@) matches Some(d) && p.0
                        == multisig_id_of(d.0)
                    &&& p.1.agent_instances@ == instances
                    &&& p.1.threshold == e0.account.threshold
                    &&& p.1.data == data
                    &&& ({
                        let e1 = final(registry).service(service_id);
                        &&& final(registry).services@ =~= old(registry).services@.update(
                            old(registry).service_index(service_id),
                            e1,
                        )
                        &&& e1.account == (ServiceAccount {
                            multisig: p.0,
                            state: ServiceState::Deployed,
                            ..e0.account
                        })
                        &&& e1.operator_bonds@ == e0.operator_bonds@
                        &&& e1.operator_indexes@ == e0.operator_indexes@
                        &&& e1.agent_ids_index.agent_ids@ == e0.agent_ids_index.agent_ids@
                        &&& e1.slot_counters == e0.slot_counters
                        &&& e1.instances_index == e0.instances_index
                        &&& e1.instance_records == e0.instance_records
                    })
                },
                Err(e) => {
                    &&& *final(registry) == *old(registry)
                    &&& (e == ErrorCode::ReentrancyGuard || e == ErrorCode::InvalidAccountOwner
                        || e == ErrorCode::ServiceNotFound || e == ErrorCode::InvalidArgument || e
                        == ErrorCode::UnauthorizedMultisig || e == ErrorCode::WrongServiceState
                        || e == ErrorCode::WrongThreshold || e == ErrorCode::InvalidPda)
                    &&& (e == ErrorCode::ReentrancyGuard <==> old(registry).locked)
                    &&& (e == ErrorCode::InvalidAccountOwner <==> (!old(registry).locked && caller
                        != old(registry).manager))
                    &&& (e == ErrorCode::ServiceNotFound <==> (!old(registry).locked && caller
                        == old(registry).manager && !found))
                    &&& (e == ErrorCode::InvalidArgument <==> (!old(registry).locked && caller
                        == old(registry).manager && found && e0.account.service_owner
                        != service_owner))
                    &&& (e == ErrorCode::UnauthorizedMultisig <==> (!old(registry).locked && caller
                        == old(registry).manager && found && e0.account.service_owner
                        == service_owner && !whitelisted))
                    &&& (e == ErrorCode::WrongServiceState <==> (!old(registry).locked && caller
                        == old(registry).manager && found && e0.account.service_owner
                        == service_owner && whitelisted && e0.account.state
                        != ServiceState::FinishedRegistration))
                    &&& (e == ErrorCode::WrongThreshold <==> (!old(registry).locked && caller
                        == old(registry).manager && found && e0.account.service_owner
                        == service_owner && whitelisted && e0.account.state
                        == ServiceState::FinishedRegistration && (e0.account.threshold == 0
                        || e0.account.threshold > instances.len())))
                    &&& (e == ErrorCode::InvalidPda <==> (!old(registry).locked && caller == old(
                        registry,
                    ).manager && found && e0.account.service_owner == service_owner && whitelisted
                        && e0.account.state == ServiceState::FinishedRegistration
                        && e0.account.threshold > 0 && e0.account.threshold <= instances.len()
                        && multisig_address(instances, program_id@) is None))
                },
            }
        }),
{
    if registry.locked {
        return Err(ErrorCode::ReentrancyGuard);
    }
    if caller != registry.manager {
        return Err(ErrorCode::InvalidAccountOwner);
    }
    let i = match registry.find_service(service_id) {
        Some(i) => i,
        None => {
            return Err(ErrorCode::ServiceNotFound);
        },
    };
    proof {
        registry.lemma_service_at(i as int);
    }
    let ghost e0 = registry.services@[i as int];
    if registry.services[i].account.service_owner != service_owner {
        return Err(ErrorCode::InvalidArgument);
    }
    if !registry.is_authorized(multisig_implementation) {
        return Err(ErrorCode::UnauthorizedMultisig);
    }
    if registry.services[i].account.state != ServiceState::FinishedRegistration {
        return Err(ErrorCode::WrongServiceState);
    }
    let threshold = registry.services[i].account.threshold;
    let (multisig_id, record) = match ServiceRegistry::create_multisig(
        multisig_implementation,
        &registry.services[i].instances_index.service_agent_instances,
        threshold,
        data,
        program_id,
    ) {
        Ok(p) => p,
        Err(e) => {
            return Err(e);
        },
    };
    let ghost s0 = registry.services@;
    let entry = &mut registry.services[i];
    entry.account.multisig = multisig_id;
    entry.account.state = ServiceState::Deployed;
    proof {
        let kx = i as int;
        let e1 = final(registry).services@[kx];
        assert(final(registry).services@ =~= s0.update(kx, e1));
        final(registry).lemma_service_at(kx);
        lemma_sum_by_update(s0, kx, e1, liability_fn());
        assert(liability_fn()(e1) == liability_fn()(s0[kx]));
        assert(e1.wf());
    }
    Ok((multisig_id, record))
}

/// Point a service at another multisig; only the service owner may do so,
/// and the zero account is refused.
pub fn change_multisig(
    registry: &mut ServiceRegistry,
    caller: u64,
    service_id: u128,
    new_multisig: u64,
) -> (r: Result<(), ErrorCode>)
    requires
        old(registry).wf(),
    ensures
        final(registry).wf(),
        final(registry).liabilities() == old(registry).liabilities(),
        unchanged_core(final(registry), old(registry)),
        final(registry).slashed_funds == old(registry).slashed_funds,
        final(registry).operator_agent_instances@ == old(registry).operator_agent_instances@,
        ({
            let found = old(registry).has_service(service_id);
            let e0 = old(registry).service(service_id);
            match r {
                Ok(()) => {
                    &&& found
                    &&& caller == e0.account.service_owner
                    &&& new_multisig != 0
                    &&& final(registry).services@ =~= old(registry).services@.update(
                        old(registry).service_index(service_id),
                        final(registry).service(service_id),
                    )
                    &&& final(registry).service(service_id).account == (ServiceAccount {
                        multisig: new_multisig,
                        ..e0.account
                    })
                    &&& final(registry).service(service_id).agent_ids_index
                        == e0.agent_ids_index
                    &&& final(registry).service(service_id).slot_counters == e0.slot_counters
                    &&& final(registry).service(service_id).instances_index
                        == e0.instances_index
                    &&& final(registry).service(service_id).instance_records
                        == e0.instance_records
                    &&& final(registry).service(service_id).operator_indexes
                        == e0.operator_indexes
                    &&& final(registry).service(service_id).operator_bonds@ == e0.operator_bonds@
                },
                Err(e) => {
                    &&& *final(registry) == *old(registry)
                    &&& (e == ErrorCode::ServiceNotFound || e == ErrorCode::IllegalOwner || e
                        == ErrorCode::InvalidArgument)
                    &&& (e == ErrorCode::ServiceNotFound <==> !found)
                    &&& (e == ErrorCode::IllegalOwner <==> (found && caller
                        != e0.account.service_owner))
                    &&& (e == ErrorCode::InvalidArgument <==> (found && caller
                        == e0.account.service_owner && new_multisig == 0))
                },
            }
        }),
{
    let i = match registry.find_service(service_id) {
        Some(i) => i,
        None => {
            return Err(ErrorCode::ServiceNotFound);
        },
    };
    proof {
        registry.lemma_service_at(i as int);
    }
    if caller != registry.services[i].account.service_owner {
        return Err(ErrorCode::IllegalOwner);
    }
    if new_multisig == 0 {
        return Err(ErrorCode::InvalidArgument);
    }
    let ghost s0 = registry.services@;
    let entry = &mut registry.services[i];
    entry.account.multisig = new_multisig;
    proof {
        let kx = i as int;
        let e1 = final(registry).services@[kx];
        assert(final(registry).services@ =~= s0.update(kx, e1));
        final(registry).lemma_service_at(kx);
        lemma_sum_by_update(s0, kx, e1, liability_fn());
        assert(liability_fn()(e1) == liability_fn()(s0[kx]));
    }
    Ok(())
}

} // verus!
