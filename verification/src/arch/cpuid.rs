//! CPUID data as a hypervisor reports it.

use vstd::prelude::*;

verus! {

/// An output register of the CPUID instruction.
#[derive(Debug, Clone, Copy, PartialEq, Eq, Structural)]
pub enum CpuidReg {
    EAX,
    EBX,
    ECX,
    EDX,
}

/// What the CPUID instruction gives for one leaf and sub-leaf.
#[derive(Debug, Clone, Copy, PartialEq, Eq, Structural)]
pub struct CpuIdEntry {
    /// The leaf.
    pub function: u32,
    /// The sub-leaf.
    pub index: u32,
    pub flags: u32,
    pub eax: u32,
    pub ebx: u32,
    pub ecx: u32,
    pub edx: u32,
}

/// Maker of a CPU.
#[derive(Debug, Clone, Copy, PartialEq, Eq, Structural)]
pub enum CpuVendor {
    Unknown,
    Intel,
    AMD,
}

/// Kind of a hypervisor.
#[derive(Debug, Clone, Copy, PartialEq, Eq, Structural)]
pub enum HypervisorType {
    Kvm,
    Mshv,
}

impl CpuIdEntry {
    /// What `register` holds.
    pub open spec fn spec_register(self, register: CpuidReg) -> u32 {
        match register {
            CpuidReg::EAX => self.eax,
            CpuidReg::EBX => self.ebx,
            CpuidReg::ECX => self.ecx,
            CpuidReg::EDX => self.edx,
        }
    }

    /// What `register` holds.
    pub fn register(&self, register: CpuidReg) -> (value: u32)
        ensures
            value == self.spec_register(register),
            register is EAX ==> value == self.eax,
            register is EBX ==> value == self.ebx,
            register is ECX ==> value == self.ecx,
            register is EDX ==> value == self.edx,
    {
        match register {
            CpuidReg::EAX => self.eax,
            CpuidReg::EBX => self.ebx,
            CpuidReg::ECX => self.ecx,
            CpuidReg::EDX => self.edx,
        }
    }
}

} // verus!
