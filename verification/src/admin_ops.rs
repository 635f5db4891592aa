use vstd::prelude::*;

use crate::error::ErrorCode;
use crate::state::{ServiceRegistry, RegistryMultisig, MAX_MULTISIGS};

verus! {

broadcast use vstd::string::to_string_from_display_ensures_for_str;

/// Create the registry aggregate with its global roles and custodial
/// wallet.
///
/// The caller becomes the registry owner.
pub fn initialize(
    name: String,
    symbol: String,
    base_uri: String,
    caller: u64,
    manager: u64,
    drainer: u64,
    wallet_key: u64,
) -> (r: ServiceRegistry)
    ensures
        r.wf(),
        r.name == name,
        r.symbol == symbol,
        r.base_uri == base_uri,
        r.version@ == "1.0.0"@,
        r.owner == caller,
        r.manager == manager,
        r.drainer == drainer,
        r.wallet_key == wallet_key,
        r.slashed_funds == 0,
        r.total_supply == 0,
        !r.locked,
        r.services@.len() == 0,
        r.registry_multisig.authorized_multisigs@.len() == 0,
        r.operator_agent_instances@.len() == 0,
        r.liabilities() == 0,
{
    ServiceRegistry {
        name,
        symbol,
        base_uri,
        version: "1.0.0".to_string(),
        owner: caller,
        manager,
        drainer,
        wallet_key,
        slashed_funds: 0,
        total_supply: 0,
        locked: false,
        services: Vec::new(),
        registry_multisig: RegistryMultisig { authorized_multisigs: Vec::new() },
        operator_agent_instances: Vec::new(),
    }
}

/// Point the drainer role at a new account; only the registry owner may do
/// so, and the zero account is refused.
pub fn change_drainer(registry: &mut ServiceRegistry, caller: u64, new_drainer: u64) -> (r: Result<
    (),
    ErrorCode,
>)
    ensures
        match r {
            Ok(()) => caller == old(registry).owner && new_drainer != 0 && *final(registry)
                == (ServiceRegistry { drainer: new_drainer, ..*old(registry) }),
            Err(e) => {
                &&& *final(registry) == *old(registry)
                &&& (e == ErrorCode::IllegalOwner || e == ErrorCode::InvalidArgument)
                &&& (e == ErrorCode::IllegalOwner <==> caller != old(registry).owner)
                &&& e == ErrorCode::InvalidArgument <==> (caller == old(registry).owner
                    && new_drainer == 0)
            },
        },
{
    if caller != registry.owner {
        return Err(ErrorCode::IllegalOwner);
    }
    if new_drainer == 0 {
        return Err(ErrorCode::InvalidArgument);
    }
    registry.drainer = new_drainer;
    Ok(())
}

/// Hand the registry to a new owner; only the current owner may do so, and
/// the zero account is refused.
pub fn change_owner(registry: &mut ServiceRegistry, caller: u64, new_owner: u64) -> (r: Result<
    (),
    ErrorCode,
>)
    ensures
        match r {
            Ok(()) => caller == old(registry).owner && new_owner != 0 && *final(registry)
                == (ServiceRegistry { owner: new_owner, ..*old(registry) }),
            Err(e) => {
                &&& *final(registry) == *old(registry)
                &&& (e == ErrorCode::IllegalOwner || e == ErrorCode::InvalidArgument)
                &&& (e == ErrorCode::IllegalOwner <==> caller != old(registry).owner)
                &&& e == ErrorCode::InvalidArgument <==> (caller == old(registry).owner
                    && new_owner == 0)
            },
        },
{
    if caller != registry.owner {
        return Err(ErrorCode::IllegalOwner);
    }
    if new_owner == 0 {
        return Err(ErrorCode::InvalidArgument);
    }
    registry.owner = new_owner;
    Ok(())
}

/// Point the manager role at a new account; only the registry owner may do
/// so, and the zero account is refused.
pub fn change_manager(registry: &mut ServiceRegistry, caller: u64, new_manager: u64) -> (r: Result<
    (),
    ErrorCode,
>)
    ensures
        match r {
            Ok(()) => caller == old(registry).owner && new_manager != 0 && *final(registry)
                == (ServiceRegistry { manager: new_manager, ..*old(registry) }),
            Err(e) => {
                &&& *final(registry) == *old(registry)
                &&& (e == ErrorCode::IllegalOwner || e == ErrorCode::InvalidArgument)
                &&& (e == ErrorCode::IllegalOwner <==> caller != old(registry).owner)
                &&& e == ErrorCode::InvalidArgument <==> (caller == old(registry).owner
                    && new_manager == 0)
            },
        },
{
    if caller != registry.owner {
        return Err(ErrorCode::IllegalOwner);
    }
    if new_manager == 0 {
        return Err(ErrorCode::InvalidArgument);
    }
    registry.manager = new_manager;
    Ok(())
}

/// Replace the registry's base URI; only the registry owner may do so, and
/// the empty string is refused.
pub fn set_base_uri(registry: &mut ServiceRegistry, caller: u64, new_base_uri: String) -> (r:
    Result<(), ErrorCode>)
    ensures
        match r {
            Ok(()) => caller == old(registry).owner && new_base_uri@.len() > 0 && *final(registry)
                == (ServiceRegistry { base_uri: new_base_uri, ..*old(registry) }),
            Err(e) => {
                &&& *final(registry) == *old(registry)
                &&& (e == ErrorCode::IllegalOwner || e == ErrorCode::InvalidArgument)
                &&& (e == ErrorCode::IllegalOwner <==> caller != old(registry).owner)
                &&& e == ErrorCode::InvalidArgument <==> (caller == old(registry).owner
                    && new_base_uri@.len() == 0)
            },
        },
{
    if caller != registry.owner {
        return Err(ErrorCode::IllegalOwner);
    }
    if new_base_uri.as_str().is_empty() {
        return Err(ErrorCode::InvalidArgument);
    }
    registry.base_uri = new_base_uri;
    Ok(())
}

/// Whitelist or un-whitelist a multisig implementation; only the registry
/// owner may do so.
///
/// Granting permission appends the identifier unless it is already present;
/// a full whitelist refuses any grant. Revoking removes the identifier if
/// present and is otherwise a no-op.
pub fn change_multisig_permission(
    registry: &mut ServiceRegistry,
    caller: u64,
    multisig: u64,
    permission: bool,
) -> (r: Result<(), ErrorCode>)
    requires
        old(registry).wf(),
    ensures
        final(registry).wf(),
        final(registry).services == old(registry).services,
        final(registry).slashed_funds == old(registry).slashed_funds,
        final(registry).liabilities() == old(registry).liabilities(),
        match r {
            Ok(()) => {
                &&& caller == old(registry).owner
                &&& multisig != 0
                &&& final(registry).registry_multisig.authorized_multisigs@.contains(multisig)
                    <==> permission
                &&& permission
                    ==> if old(registry).registry_multisig.authorized_multisigs@.contains(
                    multisig,
                ) {
                    final(registry).registry_multisig == old(registry).registry_multisig
                } else {
                    final(registry).registry_multisig.authorized_multisigs@ == old(
                        registry,
                    ).registry_multisig.authorized_multisigs@.push(multisig)
                }
                &&& !permission ==> forall|m: u64|
                    m != multisig ==> (
                    final(registry).registry_multisig.authorized_multisigs@.contains(m) <==> old(
                        registry,
                    ).registry_multisig.authorized_multisigs@.contains(m))
            },
            Err(e) => {
                &&& *final(registry) == *old(registry)
                &&& (e == ErrorCode::IllegalOwner || e == ErrorCode::InvalidArgument || e
                    == ErrorCode::MaxMultiSigsReached)
                &&& (e == ErrorCode::IllegalOwner <==> caller != old(registry).owner)
                &&& (e == ErrorCode::InvalidArgument <==> caller == old(registry).owner && multisig
                    == 0)
                &&& e == ErrorCode::MaxMultiSigsReached <==> (caller == old(registry).owner
                    && multisig != 0 && permission && old(
                    registry,
                ).registry_multisig.authorized_multisigs@.len() >= MAX_MULTISIGS)
            },
        },
{
    if caller != registry.owner {
        return Err(ErrorCode::IllegalOwner);
    }
    if multisig == 0 {
        return Err(ErrorCode::InvalidArgument);
    }
    let n = registry.registry_multisig.authorized_multisigs.len();
    if permission && n >= MAX_MULTISIGS {
        return Err(ErrorCode::MaxMultiSigsReached);
    }
    let mut found: Option<usize> = None;
    let mut i: usize = 0;
    while i < n
        invariant
            i <= n,
            n == registry.registry_multisig.authorized_multisigs@.len(),
            match found {
                Some(k) => k < i && registry.registry_multisig.authorized_multisigs@[k as int]
                    == multisig,
                None => forall|j: int|
                    0 <= j < i ==> registry.registry_multisig.authorized_multisigs@[j] != multisig,
            },
        decreases n - i,
    {
        if registry.registry_multisig.authorized_multisigs[i] == multisig {
            found = Some(i);
        }
        i = i + 1;
    }
    if permission {
        if found.is_none() {
            registry.registry_multisig.authorized_multisigs.push(multisig);
            proof {
                assert(final(registry).registry_multisig.authorized_multisigs@.last() == multisig);
            }
        }
    } else {
        match found {
            Some(k) => {
                registry.registry_multisig.authorized_multisigs.remove(k);
                proof {
                    let s0 = old(registry).registry_multisig.authorized_multisigs@;
                    let s1 = final(registry).registry_multisig.authorized_multisigs@;
                    assert(forall|j: int| 0 <= j < s0.len() && j != k ==> s0[j] != multisig);
                    assert forall|m: u64| m != multisig && s0.contains(m) implies s1.contains(
                        m,
                    ) by {
                        let j = choose|j: int| 0 <= j < s0.len() && s0[j] == m;
                        if j < k {
                            assert(s1[j] == m);
                        } else {
                            assert(s1[j - 1] == m);
                        }
                    }
                    assert forall|m: u64| m != multisig && s1.contains(m) implies s0.contains(
                        m,
                    ) by {
                        let j = choose|j: int| 0 <= j < s1.len() && s1[j] == m;
                        if j < k {
                            assert(s0[j] == m);
                        } else {
                            assert(s0[j + 1] == m);
                        }
                    }
                    assert(forall|j: int| 0 <= j < s1.len() ==> #[trigger] s1[j] != multisig);
                    assert(!s1.contains(multisig));
                }
            },
            None => {},
        }
    }
    Ok(())
}

} // verus!
