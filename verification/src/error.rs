use vstd::prelude::*;

verus! {

/// Error kinds reported by the registry's operations.
///
/// Every fallible operation of this crate aborts with one of these kinds and
/// leaves all of its state untouched (all-or-nothing semantics).
#[derive(Clone, Copy, Debug, PartialEq, Eq, Structural)]
pub enum ErrorCode {
    /// No service with the requested id exists.
    ServiceNotFound,
    /// A record would not fit in its allotted space.
    NotEnoughSpace,
    /// The configuration hash was all zero.
    ZeroConfigHash,
    /// A role's slot count and bond were not both zero or both nonzero.
    ZeroValue,
    /// A role id batch was empty or its arrays disagreed in length.
    WrongArrayLength,
    /// Role ids were not strictly increasing.
    WrongAgentId,
    /// The threshold was below the Byzantine-quorum bound.
    WrongThreshold,
    /// The threshold exceeded the total slot capacity.
    WrongThreshold2,
    /// A guarded operation was re-entered while the lock was held.
    ReentrancyGuard,
    /// The operation is not valid in the service's current state.
    WrongServiceState,
    /// A supplied record identifier did not match its derivation.
    InvalidPda,
    /// The requested service/agent pairing does not exist.
    ServiceAgentDoesNotExist,
    /// The service/agent record was invalid.
    InvalidServiceAgentPda,
    /// The requested role entry does not exist.
    AgentParamDoesNotExist,
    /// The role entry record was invalid.
    InvalidAgentParamPda,
    /// The caller was not the account expected to own this operation.
    InvalidAccountOwner,
    /// The service must be in `PreRegistration` for this operation.
    ServiceMustBeInactive,
    /// The registration deposit did not match the expected exact value.
    IncorrectRegistrationDepositValue,
    /// A requested role is not part of the service.
    AgentNotInService,
    /// An operator's bond value was not as required.
    IncorrectAgentBondingValue,
    /// The instance count disagreed with the service's capacity.
    IncorrectAgentInstances,
    /// The operator identity was not acceptable.
    WrongOperator,
    /// The role table already holds the maximum number of entries.
    MaxAgentIdPerServiceReached,
    /// An operator's instance index already holds the maximum number of entries.
    MaxAgentInstancesPerServiceReached,
    /// The (service, role, instance) ownership record already exists.
    AccountServiceAgentIdInstanceExists,
    /// The (instance, operator) record already exists.
    AccountAgentIdInstanceOperatorExists,
    /// Every slot of the requested role is already occupied.
    AgentInstancesSlotsFilled,
    /// The supplied wallet was not the registry's custodial wallet.
    WrongRegistryWallet,
    /// A counter or balance computation would overflow.
    Overflow,
    /// The operator owns no instances in this service.
    OperatorHasNoInstances,
    /// An account's balance cannot cover the requested amount.
    InsufficientFunds,
    /// Only the service's own multisig may slash it.
    OnlyOwnServiceMultisig,
    /// A slash amount must be strictly positive.
    InvalidSlashAmount,
    /// A record that must be written was not writable.
    AccountNotWritable,
    /// The multisig implementation is not whitelisted.
    UnauthorizedMultisig,
    /// The multisig whitelist already holds the maximum number of entries.
    MaxMultiSigsReached,
    /// The multisig record required for deployment was missing.
    MissingMultisigAccount,
    /// The caller does not hold the role required for this operation.
    IllegalOwner,
    /// An argument was empty or otherwise invalid.
    InvalidArgument,
    /// The caller was not the registry's manager.
    UninitializedAccount,
}

} // verus!
