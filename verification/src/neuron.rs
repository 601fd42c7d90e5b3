use vstd::prelude::*;

verus! {

/// Seconds in one month: a twelfth of a year of 365.25 days.
pub const ONE_MONTH_SECONDS: u64 = 2_629_800;

/// Width of one dissolve delay bucket: six months.
pub const DISSOLVE_DELAY_BUCKET_SECONDS: u64 = 6 * ONE_MONTH_SECONDS;

/// The state of a neuron at the moment the metrics are computed.
#[derive(Clone, Copy, Debug, PartialEq, Eq, Structural)]
pub enum NeuronState {
    Unspecified,
    NotDissolving,
    Dissolving,
    Dissolved,
    Spawning,
}

/// What the metrics read of one neuron, taken at the moment the metrics are
/// computed.
#[derive(Clone, Copy, Debug, PartialEq, Eq, Structural)]
pub struct Neuron {
    /// The stake as last seen on the ledger.
    pub cached_neuron_stake_e8s: u64,
    /// The cached stake minus the fees the neuron owes.
    pub minted_stake_e8s: u64,
    pub staked_maturity_e8s_equivalent: Option<u64>,
    pub maturity_e8s_equivalent: u64,
    pub joined_community_fund_timestamp_seconds: Option<u64>,
    /// The dissolve delay at that moment (zero once dissolved).
    pub dissolve_delay_seconds: u64,
    pub state: NeuronState,
    /// Whether the neuron may be moved out of the heap (garbage collected).
    pub is_inactive: bool,
    pub is_seed_neuron: bool,
    pub is_ect_neuron: bool,
    pub voting_power: u64,
    /// Whether the neuron's controller is a self-authenticating principal
    /// (a user rather than, say, a canister).
    pub controller_is_self_authenticating: bool,
}

/// The dissolve delay bucket of a neuron: its dissolve delay divided by six
/// months, rounded down.
pub open spec fn bucket_of(n: Neuron) -> u64 {
    n.dissolve_delay_seconds / DISSOLVE_DELAY_BUCKET_SECONDS
}

/// Number of whole six-month periods in a dissolve delay.
pub fn dissolve_delay_bucket(dissolve_delay_seconds: u64) -> (bucket: u64)
    ensures
        bucket == dissolve_delay_seconds / DISSOLVE_DELAY_BUCKET_SECONDS,
{
    dissolve_delay_seconds / DISSOLVE_DELAY_BUCKET_SECONDS
}

/// The staked maturity of a neuron, zero where it has none.
pub open spec fn staked_maturity_of(n: Neuron) -> u64 {
    match n.staked_maturity_e8s_equivalent {
        Some(v) => v,
        None => 0,
    }
}

/// A neuron's minted stake, as an amount to sum.
pub open spec fn minted_stake() -> spec_fn(Neuron) -> nat {
    |n: Neuron| n.minted_stake_e8s as nat
}

/// A neuron's cached stake, as an amount to sum.
pub open spec fn cached_stake() -> spec_fn(Neuron) -> nat {
    |n: Neuron| n.cached_neuron_stake_e8s as nat
}

/// A neuron's staked maturity (zero where it has none), as an amount to sum.
pub open spec fn staked_maturity() -> spec_fn(Neuron) -> nat {
    |n: Neuron| staked_maturity_of(n) as nat
}

/// A neuron's maturity, as an amount to sum.
pub open spec fn maturity() -> spec_fn(Neuron) -> nat {
    |n: Neuron| n.maturity_e8s_equivalent as nat
}

/// A neuron's voting power, as an amount to sum.
pub open spec fn voting_power() -> spec_fn(Neuron) -> nat {
    |n: Neuron| n.voting_power as nat
}

} // verus!
