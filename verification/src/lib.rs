//! Verified core of a desktop manager for containers and Linux VMs.
use vstd::prelude::*;
use crate::store::Platform;

pub mod text;
pub mod validation;
pub mod hypervisor;
pub mod store;
pub mod vm;
pub mod plugin;
pub mod docker_auth;
pub mod images;
pub mod k3s;
pub mod runtime;
pub mod cli;
pub mod desktop;
pub mod hyperv;
pub mod vz_runner;
pub mod guest_agent;
pub mod daemon;
pub mod boot;
pub mod backends;
pub mod vcpu;
pub mod engine;
pub mod portfwd;
pub mod logs;

verus! {

/// The hypervisor implementation that serves VMs on a platform.
#[derive(Debug, Clone, Copy, PartialEq, Eq, Structural)]
pub enum HypervisorBackend {
    /// Apple Virtualization.framework (Rosetta and VirtioFS).
    VirtualizationFramework,
    /// KVM via rust-vmm (VirtioFS via virtiofsd).
    Kvm,
    /// Hyper-V (SMB sharing).
    HyperV,
    /// The stub hypervisor, for platforms without a backend.
    Stub,
}

/// The platform-appropriate hypervisor implementation.
pub fn create_hypervisor(platform: Platform) -> (b: HypervisorBackend)
    ensures
        b == match platform {
            Platform::MacOs => HypervisorBackend::VirtualizationFramework,
            Platform::Linux => HypervisorBackend::Kvm,
            Platform::Windows => HypervisorBackend::HyperV,
            Platform::Other => HypervisorBackend::Stub,
        },
{
    match platform {
        Platform::MacOs => HypervisorBackend::VirtualizationFramework,
        Platform::Linux => HypervisorBackend::Kvm,
        Platform::Windows => HypervisorBackend::HyperV,
        Platform::Other => HypervisorBackend::Stub,
    }
}

/// The platform information string.
pub open spec fn platform_info_text(platform: Platform) -> Seq<char> {
    match platform {
        Platform::MacOs => "macOS (Virtualization.framework)"@,
        Platform::Linux => "Linux (KVM)"@,
        Platform::Windows => "Windows (Hyper-V)"@,
        Platform::Other => "Unknown (Stub)"@,
    }
}

/// A one-line description of the virtualization stack on a platform.
pub fn platform_info(platform: Platform) -> (s: &'static str)
    ensures
        s@ == platform_info_text(platform),
        s@.len() > 0,
{
    proof {
        reveal_strlit("macOS (Virtualization.framework)");
        reveal_strlit("Linux (KVM)");
        reveal_strlit("Windows (Hyper-V)");
        reveal_strlit("Unknown (Stub)");
    }
    match platform {
        Platform::MacOs => "macOS (Virtualization.framework)",
        Platform::Linux => "Linux (KVM)",
        Platform::Windows => "Windows (Hyper-V)",
        Platform::Other => "Unknown (Stub)",
    }
}

} // verus!
