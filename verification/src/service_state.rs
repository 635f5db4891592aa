use vstd::prelude::*;

verus! {

/// Lifecycle states of a service.
///
/// The reachable transitions are
/// `PreRegistration -> ActiveRegistration -> FinishedRegistration -> Deployed`,
/// with `TerminatedBonded` reachable from every state but `PreRegistration`
/// and looping back to `PreRegistration` once all operators have unbonded.
#[derive(Clone, Copy, Debug, PartialEq, Eq, Structural)]
pub enum ServiceState {
    /// The service record has not been created.
    NonExistent,
    /// Created; roles and threshold may still be configured.
    PreRegistration,
    /// The owner's deposit is held; operators may register instances.
    ActiveRegistration,
    /// Every slot is filled; the service awaits deployment.
    FinishedRegistration,
    /// A multisig governs the service.
    Deployed,
    /// Terminated while operator bonds remain to be returned.
    TerminatedBonded,
}

impl ServiceState {
    /// True in the states during which the owner's security deposit is held
    /// in the custodial wallet.
    pub open spec fn deposit_held(self) -> bool {
        self == ServiceState::ActiveRegistration || self == ServiceState::FinishedRegistration
            || self == ServiceState::Deployed
    }
}

} // verus!
