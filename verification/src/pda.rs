use vstd::prelude::*;
use vstd::string::StringSliceAdditionalSpecFns;

verus! {

/// The address and bump that the chain's key-derivation function returns
/// for a seed list and program id, when one exists: a pure function of its
/// arguments.
pub uninterp spec fn derived_address(seeds: Seq<Seq<u8>>, program_id: Seq<u8>) -> Option<
    (Seq<u8>, u8),
>;

/// The SHA-256 digest of a byte string: a pure function of its argument.
pub uninterp spec fn sha256_of(bytes: Seq<u8>) -> Seq<u8>;

/// Relies on `solana_pubkey::Pubkey::try_find_program_address`: the
/// derived address and bump seed depend on the seed list and the program
/// id alone, and `None` comes back when no bump yields a valid address.
#[verifier::external_body]
fn find_derived_address(seeds: &Vec<Vec<u8>>, program_id: &[u8; 32]) -> (r: Option<([u8; 32], u8)>)
    ensures
        match r {
            Some(p) => derived_address(seeds.deep_view(), program_id@) == Some((p.0@, p.1)),
            None => derived_address(seeds.deep_view(), program_id@) is None,
        },
{
    let seed_refs: Vec<&[u8]> = seeds.iter().map(|s| s.as_slice()).collect();
    let pid = solana_pubkey::Pubkey::new_from_array(*program_id);
    solana_pubkey::Pubkey::try_find_program_address(&seed_refs, &pid).map(
        |p: (solana_pubkey::Pubkey, u8)| (p.0.to_bytes(), p.1),
    )
}

/// Relies on `solana_sha256_hasher::hash`: the 32-byte digest depends on
/// the input bytes alone.
#[verifier::external_body]
pub(crate) fn sha256(bytes: &Vec<u8>) -> (r: [u8; 32])
    ensures
        r@ == sha256_of(bytes@),
{
    solana_sha256_hasher::hash(bytes.as_slice()).to_bytes()
}

/// The seed list of a one-tag, many-parts derivation.
pub open spec fn seeds_of(tag: &str, parts: Seq<Seq<u8>>) -> Seq<Seq<u8>> {
    seq![tag.spec_bytes()].add(parts)
}

/// Derive the record address for a tag and its key parts.
pub(crate) fn derive(tag: &str, parts: Vec<Vec<u8>>, program_id: &[u8; 32]) -> (r: Option<([u8; 32], u8)>)
    ensures
        match r {
            Some(p) => derived_address(seeds_of(tag, parts.deep_view()), program_id@) == Some(
                (p.0@, p.1),
            ),
            None => derived_address(seeds_of(tag, parts.deep_view()), program_id@) is None,
        },
{
    let mut seeds: Vec<Vec<u8>> = Vec::new();
    let tag_bytes = tag.as_bytes();
    let mut tag_vec: Vec<u8> = Vec::new();
    let n = tag_bytes.len();
    let mut i: usize = 0;
    while i < n
        invariant
            i <= n,
            n == tag_bytes@.len(),
            tag_bytes@ == tag.spec_bytes(),
            tag_vec@ == tag.spec_bytes().take(i as int),
        decreases n - i,
    {
        tag_vec.push(tag_bytes[i]);
        proof {
            assert(tag.spec_bytes().take(i as int).push(tag.spec_bytes()[i as int]) =~= tag
                .spec_bytes().take(i as int + 1));
        }
        i = i + 1;
    }
    proof {
        assert(tag.spec_bytes().take(n as int) =~= tag.spec_bytes());
    }
    seeds.push(tag_vec);
    let mut j: usize = 0;
    let m = parts.len();
    let ghost pv = parts.deep_view();
    proof {
        assert(seeds.deep_view() =~~= seq![tag.spec_bytes()].add(pv.take(0)));
    }
    while j < m
        invariant
            j <= m,
            m == parts@.len(),
            pv == parts.deep_view(),
            seeds.deep_view() =~~= seq![tag.spec_bytes()].add(pv.take(j as int)),
        decreases m - j,
    {
        let ghost before = seeds.deep_view();
        let part = crate::state::copy_vec(&parts[j]);
        seeds.push(part);
        proof {
            assert(seeds.deep_view() =~~= before.push(pv[j as int]));
            assert(seq![tag.spec_bytes()].add(pv.take(j as int)).push(pv[j as int]) =~= seq![
                tag.spec_bytes(),
            ].add(pv.take(j as int + 1)));
        }
        j = j + 1;
    }
    proof {
        assert(pv.take(m as int) =~= pv);
        assert(seeds.deep_view() =~~= seeds_of(tag, pv));
    }
    find_derived_address(&seeds, program_id)
}

/// The custodial wallet address of a registry.
pub fn registry_wallet_pda(registry_key: &[u8; 32], program_id: &[u8; 32]) -> (r: Option<
    ([u8; 32], u8),
>)
    ensures
        match r {
            Some(p) => derived_address(
                seeds_of("registry_wallet", seq![registry_key@]),
                program_id@,
            ) == Some((p.0@, p.1)),
            None => derived_address(seeds_of("registry_wallet", seq![registry_key@]), program_id@)
                is None,
        },
{
    let mut key: Vec<u8> = Vec::new();
    let mut i: usize = 0;
    while i < 32
        invariant
            i <= 32,
            key@ == registry_key@.take(i as int),
        decreases 32 - i,
    {
        key.push(registry_key[i]);
        proof {
            assert(registry_key@.take(i as int).push(registry_key@[i as int]) =~= registry_key@
                .take(i as int + 1));
        }
        i = i + 1;
    }
    proof {
        assert(registry_key@.take(32) =~= registry_key@);
    }
    let parts: Vec<Vec<u8>> = vec![key];
    proof {
        assert(parts.deep_view() =~~= seq![registry_key@]);
    }
    derive("registry_wallet", parts, program_id)
}

/// The role-entry record address of a (service, role) pair.
pub fn agent_param_pda(service_id: u128, agent_id: u32, program_id: &[u8; 32]) -> (r: Option<
    ([u8; 32], u8),
>)
    ensures
        match r {
            Some(p) => derived_address(
                seeds_of(
                    "agent_param",
                    seq![
                        vstd::bytes::spec_u128_to_le_bytes(service_id),
                        vstd::bytes::spec_u32_to_le_bytes(agent_id),
                    ],
                ),
                program_id@,
            ) == Some((p.0@, p.1)),
            None => derived_address(
                seeds_of(
                    "agent_param",
                    seq![
                        vstd::bytes::spec_u128_to_le_bytes(service_id),
                        vstd::bytes::spec_u32_to_le_bytes(agent_id),
                    ],
                ),
                program_id@,
            ) is None,
        },
{
    let parts: Vec<Vec<u8>> = vec![
        vstd::bytes::u128_to_le_bytes(service_id),
        vstd::bytes::u32_to_le_bytes(agent_id),
    ];
    proof {
        assert(parts.deep_view() =~~= seq![
            vstd::bytes::spec_u128_to_le_bytes(service_id),
            vstd::bytes::spec_u32_to_le_bytes(agent_id),
        ]);
    }
    derive("agent_param", parts, program_id)
}

/// The service record address of a configuration hash: keyed by the
/// hash's first seven bytes.
pub fn service_pda(config_hash: &[u8; 32], program_id: &[u8; 32]) -> (r: Option<([u8; 32], u8)>)
    ensures
        match r {
            Some(p) => derived_address(
                seeds_of("service", seq![config_hash@.take(7)]),
                program_id@,
            ) == Some((p.0@, p.1)),
            None => derived_address(seeds_of("service", seq![config_hash@.take(7)]), program_id@)
                is None,
        },
{
    let mut key: Vec<u8> = Vec::new();
    let mut i: usize = 0;
    while i < 7
        invariant
            i <= 7,
            key@ == config_hash@.take(i as int),
        decreases 7 - i,
    {
        key.push(config_hash[i]);
        proof {
            assert(config_hash@.take(i as int).push(config_hash@[i as int]) =~= config_hash@.take(
                i as int + 1,
            ));
        }
        i = i + 1;
    }
    let parts: Vec<Vec<u8>> = vec![key];
    proof {
        assert(parts.deep_view() =~~= seq![config_hash@.take(7)]);
    }
    derive("service", parts, program_id)
}

/// The role-table index address of a service.
pub fn service_agent_ids_index_pda(service_id: u128, program_id: &[u8; 32]) -> (r: Option<
    ([u8; 32], u8),
>)
    ensures
        match r {
            Some(p) => derived_address(
                seeds_of(
                    "service_agent_ids_index",
                    seq![vstd::bytes::spec_u128_to_le_bytes(service_id)],
                ),
                program_id@,
            ) == Some((p.0@, p.1)),
            None => derived_address(
                seeds_of(
                    "service_agent_ids_index",
                    seq![vstd::bytes::spec_u128_to_le_bytes(service_id)],
                ),
                program_id@,
            ) is None,
        },
{
    let parts: Vec<Vec<u8>> = vec![vstd::bytes::u128_to_le_bytes(service_id)];
    proof {
        assert(parts.deep_view() =~~= seq![vstd::bytes::spec_u128_to_le_bytes(service_id)]);
    }
    derive("service_agent_ids_index", parts, program_id)
}

/// The slot-counter record address of a (service, role) pair.
pub fn service_agent_slot_counter_pda(service_id: u128, agent_id: u32, program_id: &[u8; 32]) -> (r:
    Option<([u8; 32], u8)>)
    ensures
        match r {
            Some(p) => derived_address(
                seeds_of(
                    "service_agent_slot",
                    seq![
                        vstd::bytes::spec_u128_to_le_bytes(service_id),
                        vstd::bytes::spec_u32_to_le_bytes(agent_id),
                    ],
                ),
                program_id@,
            ) == Some((p.0@, p.1)),
            None => derived_address(
                seeds_of(
                    "service_agent_slot",
                    seq![
                        vstd::bytes::spec_u128_to_le_bytes(service_id),
                        vstd::bytes::spec_u32_to_le_bytes(agent_id),
                    ],
                ),
                program_id@,
            ) is None,
        },
{
    let parts: Vec<Vec<u8>> = vec![
        vstd::bytes::u128_to_le_bytes(service_id),
        vstd::bytes::u32_to_le_bytes(agent_id),
    ];
    proof {
        assert(parts.deep_view() =~~= seq![
            vstd::bytes::spec_u128_to_le_bytes(service_id),
            vstd::bytes::spec_u32_to_le_bytes(agent_id),
        ]);
    }
    derive("service_agent_slot", parts, program_id)
}

/// The instance-index record address of a service.
pub fn agent_instances_index_pda(service_id: u128, program_id: &[u8; 32]) -> (r: Option<
    ([u8; 32], u8),
>)
    ensures
        match r {
            Some(p) => derived_address(
                seeds_of(
                    "agent_instances_index",
                    seq![vstd::bytes::spec_u128_to_le_bytes(service_id)],
                ),
                program_id@,
            ) == Some((p.0@, p.1)),
            None => derived_address(
                seeds_of(
                    "agent_instances_index",
                    seq![vstd::bytes::spec_u128_to_le_bytes(service_id)],
                ),
                program_id@,
            ) is None,
        },
{
    let parts: Vec<Vec<u8>> = vec![vstd::bytes::u128_to_le_bytes(service_id)];
    proof {
        assert(parts.deep_view() =~~= seq![vstd::bytes::spec_u128_to_le_bytes(service_id)]);
    }
    derive("agent_instances_index", parts, program_id)
}

/// The record address probing whether an operator account is itself
/// registered as an agent instance.
pub fn operator_as_agent_index_pda(operator: u64, program_id: &[u8; 32]) -> (r: Option<
    ([u8; 32], u8),
>)
    ensures
        match r {
            Some(p) => derived_address(
                seeds_of(
                    "agent_instances_index",
                    seq![vstd::bytes::spec_u64_to_le_bytes(operator)],
                ),
                program_id@,
            ) == Some((p.0@, p.1)),
            None => derived_address(
                seeds_of(
                    "agent_instances_index",
                    seq![vstd::bytes::spec_u64_to_le_bytes(operator)],
                ),
                program_id@,
            ) is None,
        },
{
    let parts: Vec<Vec<u8>> = vec![vstd::bytes::u64_to_le_bytes(operator)];
    proof {
        assert(parts.deep_view() =~~= seq![vstd::bytes::spec_u64_to_le_bytes(operator)]);
    }
    derive("agent_instances_index", parts, program_id)
}

/// The ownership record address of a (service, role, instance) triple.
pub fn service_agent_instance_pda(
    service_id: u128,
    agent_id: u32,
    agent_instance: u64,
    program_id: &[u8; 32],
) -> (r: Option<([u8; 32], u8)>)
    ensures
        match r {
            Some(p) => derived_address(
                seeds_of(
                    "service_agent_instance_account",
                    seq![
                        vstd::bytes::spec_u128_to_le_bytes(service_id),
                        vstd::bytes::spec_u32_to_le_bytes(agent_id),
                        vstd::bytes::spec_u64_to_le_bytes(agent_instance),
                    ],
                ),
                program_id@,
            ) == Some((p.0@, p.1)),
            None => derived_address(
                seeds_of(
                    "service_agent_instance_account",
                    seq![
                        vstd::bytes::spec_u128_to_le_bytes(service_id),
                        vstd::bytes::spec_u32_to_le_bytes(agent_id),
                        vstd::bytes::spec_u64_to_le_bytes(agent_instance),
                    ],
                ),
                program_id@,
            ) is None,
        },
{
    let parts: Vec<Vec<u8>> = vec![
        vstd::bytes::u128_to_le_bytes(service_id),
        vstd::bytes::u32_to_le_bytes(agent_id),
        vstd::bytes::u64_to_le_bytes(agent_instance),
    ];
    proof {
        assert(parts.deep_view() =~~= seq![
            vstd::bytes::spec_u128_to_le_bytes(service_id),
            vstd::bytes::spec_u32_to_le_bytes(agent_id),
            vstd::bytes::spec_u64_to_le_bytes(agent_instance),
        ]);
    }
    derive("service_agent_instance_account", parts, program_id)
}

/// The (instance, operator) record address.
pub fn operator_agent_instance_pda(agent_instance: u64, operator: u64, program_id: &[u8; 32]) -> (r:
    Option<([u8; 32], u8)>)
    ensures
        match r {
            Some(p) => derived_address(
                seeds_of(
                    "operator_agent_instance",
                    seq![
                        vstd::bytes::spec_u64_to_le_bytes(agent_instance),
                        vstd::bytes::spec_u64_to_le_bytes(operator),
                    ],
                ),
                program_id@,
            ) == Some((p.0@, p.1)),
            None => derived_address(
                seeds_of(
                    "operator_agent_instance",
                    seq![
                        vstd::bytes::spec_u64_to_le_bytes(agent_instance),
                        vstd::bytes::spec_u64_to_le_bytes(operator),
                    ],
                ),
                program_id@,
            ) is None,
        },
{
    let parts: Vec<Vec<u8>> = vec![
        vstd::bytes::u64_to_le_bytes(agent_instance),
        vstd::bytes::u64_to_le_bytes(operator),
    ];
    proof {
        assert(parts.deep_view() =~~= seq![
            vstd::bytes::spec_u64_to_le_bytes(agent_instance),
            vstd::bytes::spec_u64_to_le_bytes(operator),
        ]);
    }
    derive("operator_agent_instance", parts, program_id)
}

/// The per-operator instance-index record address of a (service, operator)
/// pair.
pub fn operator_agent_instance_index_pda(
    service_id: u128,
    operator: u64,
    program_id: &[u8; 32],
) -> (r: Option<([u8; 32], u8)>)
    ensures
        match r {
            Some(p) => derived_address(
                seeds_of(
                    "operator_agent_instance_index",
                    seq![
                        vstd::bytes::spec_u128_to_le_bytes(service_id),
                        vstd::bytes::spec_u64_to_le_bytes(operator),
                    ],
                ),
                program_id@,
            ) == Some((p.0@, p.1)),
            None => derived_address(
                seeds_of(
                    "operator_agent_instance_index",
                    seq![
                        vstd::bytes::spec_u128_to_le_bytes(service_id),
                        vstd::bytes::spec_u64_to_le_bytes(operator),
                    ],
                ),
                program_id@,
            ) is None,
        },
{
    let parts: Vec<Vec<u8>> = vec![
        vstd::bytes::u128_to_le_bytes(service_id),
        vstd::bytes::u64_to_le_bytes(operator),
    ];
    proof {
        assert(parts.deep_view() =~~= seq![
            vstd::bytes::spec_u128_to_le_bytes(service_id),
            vstd::bytes::spec_u64_to_le_bytes(operator),
        ]);
    }
    derive("operator_agent_instance_index", parts, program_id)
}

/// The bond record address of a (service, operator) pair.
pub fn operator_bond_pda(service_id: u128, operator: u64, program_id: &[u8; 32]) -> (r: Option<
    ([u8; 32], u8),
>)
    ensures
        match r {
            Some(p) => derived_address(
                seeds_of(
                    "operator_bond",
                    seq![
                        vstd::bytes::spec_u128_to_le_bytes(service_id),
                        vstd::bytes::spec_u64_to_le_bytes(operator),
                    ],
                ),
                program_id@,
            ) == Some((p.0@, p.1)),
            None => derived_address(
                seeds_of(
                    "operator_bond",
                    seq![
                        vstd::bytes::spec_u128_to_le_bytes(service_id),
                        vstd::bytes::spec_u64_to_le_bytes(operator),
                    ],
                ),
                program_id@,
            ) is None,
        },
{
    let parts: Vec<Vec<u8>> = vec![
        vstd::bytes::u128_to_le_bytes(service_id),
        vstd::bytes::u64_to_le_bytes(operator),
    ];
    proof {
        assert(parts.deep_view() =~~= seq![
            vstd::bytes::spec_u128_to_le_bytes(service_id),
            vstd::bytes::spec_u64_to_le_bytes(operator),
        ]);
    }
    derive("operator_bond", parts, program_id)
}

/// Check that a supplied record identifier equals the address derived from
/// its logical key, as every sub-record of the registry must.
pub fn verify_record_id(
    expected: &[u8; 32],
    derived: &Option<([u8; 32], u8)>,
) -> (r: Result<(), crate::error::ErrorCode>)
    ensures
        r is Ok <==> (derived matches Some(p) && p.0@ == expected@),
        r is Err ==> r == Err::<(), crate::error::ErrorCode>(crate::error::ErrorCode::InvalidPda),
{
    match derived {
        Some((addr, _bump)) => {
            let mut all_eq = true;
            let mut i: usize = 0;
            while i < 32
                invariant
                    i <= 32,
                    all_eq <==> (forall|j: int| 0 <= j < i ==> addr@[j] == expected@[j]),
                decreases 32 - i,
            {
                if addr[i] != expected[i] {
                    all_eq = false;
                }
                i = i + 1;
            }
            if all_eq {
                proof {
                    assert(addr@ =~= expected@);
                }
                Ok(())
            } else {
                Err(crate::error::ErrorCode::InvalidPda)
            }
        },
        None => Err(crate::error::ErrorCode::InvalidPda),
    }
}

} // verus!
