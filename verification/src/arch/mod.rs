//! CPU profiles: which CPUID data a guest sees, so that it can move between hosts.

pub mod cpu_profile;
pub mod cpu_profile_generation;
pub mod cpu_profile_laws;
pub mod cpuid;
pub mod cpuid_definitions;
pub mod range_specs;
