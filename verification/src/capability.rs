use vstd::prelude::*;
use crate::address::Address;

verus! {

/// Why a capability operation was refused; the meaning of each refusal
/// belongs to the host that implements the capability.
#[derive(Clone, Copy, Debug, PartialEq, Eq, Structural)]
pub enum CapabilityError {
    Refused,
}

/// Routes earned rewards to a destination.  Declared for hosts to
/// implement; this core ships no implementation.
pub trait RewardRouter {
    fn initialize(&mut self, authority: &Address) -> Result<(), CapabilityError>;

    fn update_authority(&mut self, new_authority: &Address) -> Result<(), CapabilityError>;

    fn route_rewards(&mut self, amount: u64, destination: &Address) -> Result<(), CapabilityError>;
}

/// Manages the lifecycle of bounties.  Declared for hosts to implement;
/// this core ships no implementation.
pub trait BountyManager {
    fn create_bounty(&mut self, amount: u64, description: String) -> Result<(), CapabilityError>;

    fn submit_bounty(&mut self, bounty_id: &Address, submission: String) -> Result<
        (),
        CapabilityError,
    >;

    fn approve_bounty(&mut self, bounty_id: &Address) -> Result<(), CapabilityError>;
}

/// Manages referral codes and their rewards.  Declared for hosts to
/// implement; this core ships no implementation.
pub trait ReferralManager {
    fn create_referral_code(&mut self, code: String) -> Result<(), CapabilityError>;

    fn register_referral(&mut self, referrer: &Address, code: String) -> Result<
        (),
        CapabilityError,
    >;

    fn claim_referral_reward(&mut self, code: String) -> Result<(), CapabilityError>;
}

} // verus!
