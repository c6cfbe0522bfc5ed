//! Performance optimization configuration.

use vstd::prelude::*;

use crate::types::Error;

verus! {

/// Optimization profile.
#[derive(Debug, Clone, Copy, PartialEq, Eq, Structural)]
pub enum OptimizationProfile {
    /// Fast compilation, basic optimizations.
    Fast,
    /// Balanced compilation/performance.
    Balanced,
    /// Maximum performance, slower compilation.
    Aggressive,
}

/// Optimizer for performance tuning.
pub struct Optimizer {
    profile: OptimizationProfile,
    gpu_enabled: bool,
}

impl Optimizer {
    /// The configured profile.
    pub closed spec fn profile_spec(&self) -> OptimizationProfile {
        self.profile
    }

    /// Whether GPU acceleration is enabled.
    pub closed spec fn gpu_spec(&self) -> bool {
        self.gpu_enabled
    }

    /// Create a new optimizer with the given profile.
    pub fn new(profile: OptimizationProfile) -> (r: Optimizer)
        ensures
            r.profile_spec() == profile,
            !r.gpu_spec(),
    {
        Optimizer { profile, gpu_enabled: false }
    }

    /// Enable or disable GPU acceleration.
    pub fn with_gpu(self, enabled: bool) -> (r: Optimizer)
        ensures
            r.profile_spec() == self.profile_spec(),
            r.gpu_spec() == enabled,
    {
        Optimizer { profile: self.profile, gpu_enabled: enabled }
    }

    /// The configured profile.
    pub fn profile(&self) -> (r: OptimizationProfile)
        ensures
            r == self.profile_spec(),
    {
        self.profile
    }

    /// Whether GPU acceleration is enabled.
    pub fn gpu_enabled(&self) -> (r: bool)
        ensures
            r == self.gpu_spec(),
    {
        self.gpu_enabled
    }

    /// Optimize the given code.  The optimization passes are not
    /// wired up yet: every input yields the placeholder output.
    pub fn optimize(&self, code: &str) -> (r: Result<String, Error>)
        ensures
            r is Ok,
            r->Ok_0@ == "// Optimized code placeholder"@,
    {
        let _ = code;
        let mut out = String::new();
        out.append("// Optimized code placeholder");
        Ok(out)
    }
}

} // verus!
