//! Plain parts of a policy model and its optimizer that training state carries.
use crate::world::copy_vec;
use vstd::prelude::*;

verus! {

/// Shape of the policy model that training state is checked against.
#[derive(Clone, Copy, Debug, PartialEq, Eq, Structural)]
pub struct ModelShape {
    pub schema_version: u32,
    pub schema_hash: u64,
    pub parameter_count: usize,
    pub maximum_batch: usize,
}

/// Exact parameters of one policy at one moment.
#[derive(Clone, Copy, Debug, PartialEq, Eq, Structural)]
pub struct PolicyIdentity {
    pub instance: u64,
    pub revision: u64,
}

/// Optimizer lineage and the policy that it updates.
#[derive(Clone, Copy, Debug, PartialEq, Eq, Structural)]
pub struct OptimizerBinding {
    pub lineage: u64,
    pub policy: PolicyIdentity,
}

/// Optimizer settings as single-precision bits.
#[derive(Debug, PartialEq, Eq)]
pub struct AdamConfig {
    pub settings: Vec<u32>,
}

/// Optimizer moments, step, and binding; moments as single-precision bits.
#[derive(Debug, PartialEq, Eq)]
pub struct AdamState {
    pub config: AdamConfig,
    pub first_moment: Vec<u32>,
    pub second_moment: Vec<u32>,
    pub step: u64,
    pub binding: OptimizerBinding,
}

impl AdamState {
    /// Same settings, moments, step, and binding.
    pub open spec fn same(self, other: AdamState) -> bool {
        &&& self.config.settings@ == other.config.settings@
        &&& self.first_moment@ == other.first_moment@
        &&& self.second_moment@ == other.second_moment@
        &&& self.step == other.step
        &&& self.binding == other.binding
    }

    /// Owned copy of the optimizer state.
    pub fn duplicate(&self) -> (r: Self)
        ensures
            r.same(*self),
    {
        AdamState {
            config: AdamConfig { settings: copy_vec(&self.config.settings) },
            first_moment: copy_vec(&self.first_moment),
            second_moment: copy_vec(&self.second_moment),
            step: self.step,
            binding: self.binding,
        }
    }
}

/// Parameters, as single-precision bits, and the optimizer state that belongs to them.
#[derive(Debug, PartialEq, Eq)]
pub struct ModelAdamSnapshot {
    pub parameters: Vec<u32>,
    pub adam: AdamState,
}

impl ModelAdamSnapshot {
    /// Same parameters and optimizer state.
    pub open spec fn same(self, other: ModelAdamSnapshot) -> bool {
        self.parameters@ == other.parameters@ && self.adam.same(other.adam)
    }

    /// Owned copy of the snapshot.
    pub fn duplicate(&self) -> (r: Self)
        ensures
            r.same(*self),
    {
        ModelAdamSnapshot { parameters: copy_vec(&self.parameters), adam: self.adam.duplicate() }
    }
}

} // verus!
