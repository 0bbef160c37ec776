//! CPU profiles and their use on a host.

use vstd::prelude::*;

use crate::arch::cpuid::{CpuIdEntry, CpuVendor, CpuidReg, HypervisorType};
use crate::arch::cpuid_definitions::{Parameters, ParametersView};

verus! {

/// The CPU that a guest is to see.
#[derive(Debug, Clone, Copy, PartialEq, Eq, Structural)]
pub enum CpuProfile {
    /// The CPU of the host, as it is.
    Host,
    /// A profile for development.
    DevLaptop,
    Skylake,
    SapphireRapids,
}

impl Default for CpuProfile {
    fn default() -> (profile: Self)
        ensures
            profile == CpuProfile::Host,
    {
        CpuProfile::Host
    }
}

impl CpuProfile {
    /// Name of the file that holds the data of the profile. The profile of the host
    /// has no data; every other profile has.
    pub fn data_file(&self) -> (file: Option<&'static str>)
        ensures
            match self {
                CpuProfile::Host => file is None,
                CpuProfile::DevLaptop => file matches Some(name) && name@ == "dev_profile.json"@,
                CpuProfile::Skylake => file matches Some(name) && name@
                    == "skylake-profile.json"@,
                CpuProfile::SapphireRapids => file matches Some(name) && name@
                    == "sapphire-rapids.json"@,
            },
    {
        match self {
            CpuProfile::Host => None,
            CpuProfile::DevLaptop => Some("dev_profile.json"),
            CpuProfile::Skylake => Some("skylake-profile.json"),
            CpuProfile::SapphireRapids => Some("sapphire-rapids.json"),
        }
    }
}

/// The data of a profile.
#[derive(Debug)]
pub struct CpuProfileData {
    /// The hypervisor under which the profile was generated.
    pub hypervisor: HypervisorType,
    /// Maker of the CPU on which the profile was generated.
    pub cpu_vendor: CpuVendor,
    /// What it takes to make the CPUID data of a host those of the profile.
    pub adjustments: Vec<(Parameters, CpuidOutputRegisterAdjustments)>,
    /// The CPUID data of the host on which the profile was generated, adjusted.
    pub compatibility_target: Vec<CpuIdEntry>,
}

/// Adjustment of an output register.
#[derive(Debug, Clone, Copy, PartialEq, Eq, Structural)]
pub struct CpuidOutputRegisterAdjustments {
    /// The bits that are set.
    pub replacements: u32,
    /// The bits of the host that stay.
    pub mask: u32,
}

/// Adjustments as the contracts speak of them.
pub open spec fn adjustment_views(
    adjustments: Seq<(Parameters, CpuidOutputRegisterAdjustments)>,
) -> Seq<(ParametersView, CpuidOutputRegisterAdjustments)> {
    adjustments.map_values(|a: (Parameters, CpuidOutputRegisterAdjustments)| (a.0@, a.1))
}

impl CpuProfileData {
    /// No range of sub-leaves was iterated over.
    pub open spec fn wf(self) -> bool {
        forall|i: int| 0 <= i < self.adjustments@.len() ==> (#[trigger] self.adjustments@[i]).0.wf()
    }
}

impl Clone for CpuProfileData {
    fn clone(&self) -> (copy: Self)
        ensures
            copy.hypervisor == self.hypervisor,
            copy.cpu_vendor == self.cpu_vendor,
            copy.compatibility_target@ == self.compatibility_target@,
            copy.adjustments@.len() == self.adjustments@.len(),
            self.wf() ==> copy.wf() && adjustment_views(copy.adjustments@) == adjustment_views(
                self.adjustments@,
            ),
    {
        let mut adjustments: Vec<(Parameters, CpuidOutputRegisterAdjustments)> = Vec::new();
        let mut i: usize = 0;
        while i < self.adjustments.len()
            invariant
                0 <= i <= self.adjustments@.len(),
                adjustments@.len() == i,
                self.wf() ==> forall|j: int|
                    0 <= j < i ==> (#[trigger] adjustments@[j]).0.wf() && adjustments@[j].0@
                        == self.adjustments@[j].0@ && adjustments@[j].1 == self.adjustments@[j].1,
            decreases self.adjustments@.len() - i,
        {
            let entry: &(Parameters, CpuidOutputRegisterAdjustments) = &self.adjustments[i];
            assert(self.wf() ==> self.adjustments@[i as int].0.wf());
            adjustments.push((entry.0.clone(), entry.1));
            i = i + 1;
        }
        let mut compatibility_target: Vec<CpuIdEntry> = Vec::new();
        compatibility_target.extend_from_slice(self.compatibility_target.as_slice());
        assert(compatibility_target@ =~= self.compatibility_target@);
        proof {
            if self.wf() {
                assert(adjustment_views(adjustments@) =~= adjustment_views(self.adjustments@));
            }
        }
        CpuProfileData {
            hypervisor: self.hypervisor,
            cpu_vendor: self.cpu_vendor,
            adjustments,
            compatibility_target,
        }
    }
}

/// `parameters` speak of `register` of an entry for `function` and `index`.
pub open spec fn parameters_match(
    parameters: ParametersView,
    function: u32,
    index: u32,
    register: CpuidReg,
) -> bool {
    &&& parameters.leaf == function
    &&& crate::arch::cpuid_definitions::range_contains(parameters.sub_leaf, index)
    &&& parameters.register == register
}

/// The adjustment of `register` of an entry: the first that matches. Without one, the
/// whole register is cleared.
pub open spec fn find_adjustment(
    adjustments: Seq<(ParametersView, CpuidOutputRegisterAdjustments)>,
    function: u32,
    index: u32,
    register: CpuidReg,
) -> CpuidOutputRegisterAdjustments
    decreases adjustments.len(),
{
    if adjustments.len() == 0 {
        CpuidOutputRegisterAdjustments { mask: 0, replacements: 0 }
    } else if parameters_match(adjustments[0].0, function, index, register) {
        adjustments[0].1
    } else {
        find_adjustment(adjustments.drop_first(), function, index, register)
    }
}

/// `register` of `entry`, adjusted.
pub open spec fn adjusted_register(
    entry: CpuIdEntry,
    adjustments: Seq<(ParametersView, CpuidOutputRegisterAdjustments)>,
    register: CpuidReg,
) -> u32 {
    find_adjustment(adjustments, entry.function, entry.index, register).spec_adjust(
        entry.spec_register(register),
    )
}

/// `entry` with all its registers adjusted.
pub open spec fn adjusted_entry(
    entry: CpuIdEntry,
    adjustments: Seq<(ParametersView, CpuidOutputRegisterAdjustments)>,
) -> CpuIdEntry {
    CpuIdEntry {
        eax: adjusted_register(entry, adjustments, CpuidReg::EAX),
        ebx: adjusted_register(entry, adjustments, CpuidReg::EBX),
        ecx: adjusted_register(entry, adjustments, CpuidReg::ECX),
        edx: adjusted_register(entry, adjustments, CpuidReg::EDX),
        ..entry
    }
}

impl CpuidOutputRegisterAdjustments {
    /// `value`, adjusted: what the mask keeps of it, and the replacements.
    pub open spec fn spec_adjust(self, value: u32) -> u32 {
        (value & self.mask) | self.replacements
    }

    /// Adjusts a register.
    pub fn adjust(self, cpuid_output_register: &mut u32)
        ensures
            *final(cpuid_output_register) == self.spec_adjust(*old(cpuid_output_register)),
            *final(cpuid_output_register) == (*old(cpuid_output_register) & self.mask)
                | self.replacements,
    {
        *cpuid_output_register = (*cpuid_output_register & self.mask) | self.replacements;
    }

    /// The adjustment of `register` of an entry.
    fn find(
        adjustments: &[(Parameters, Self)],
        function: u32,
        index: u32,
        register: CpuidReg,
    ) -> (adjustment: Self)
        ensures
            adjustment == find_adjustment(
                adjustment_views(adjustments@),
                function,
                index,
                register,
            ),
    {
        let ghost views = adjustment_views(adjustments@);
        let mut i: usize = 0;
        assert(views.skip(0) =~= views);
        while i < adjustments.len()
            invariant
                0 <= i <= adjustments@.len(),
                views == adjustment_views(adjustments@),
                find_adjustment(views, function, index, register) == find_adjustment(
                    views.skip(i as int),
                    function,
                    index,
                    register,
                ),
            decreases adjustments@.len() - i,
        {
            let candidate = &adjustments[i];
            assert(views.skip(i as int)[0] == views[i as int]);
            assert(views.skip(i as int).drop_first() =~= views.skip(i + 1));
            if candidate.0.leaf == function && candidate.0.sub_leaf.contains(&index)
                && candidate.0.register == register {
                return candidate.1;
            }
            i = i + 1;
        }
        CpuidOutputRegisterAdjustments { mask: 0, replacements: 0 }
    }

    /// Adjusts all entries.
    pub fn adjust_cpuid_entries(
        cpuid: Vec<CpuIdEntry>,
        adjustments: &[(Parameters, Self)],
    ) -> (adjusted: Vec<CpuIdEntry>)
        ensures
            adjusted@ == cpuid@.map_values(
                |entry: CpuIdEntry| adjusted_entry(entry, adjustment_views(adjustments@)),
            ),
            adjusted@.len() == cpuid@.len(),
            forall|i: int|
                0 <= i < cpuid@.len() ==> (#[trigger] adjusted@[i]).function == cpuid@[i].function
                    && adjusted@[i].index == cpuid@[i].index && adjusted@[i].flags
                    == cpuid@[i].flags,
    {
        let ghost views = adjustment_views(adjustments@);
        let mut adjusted: Vec<CpuIdEntry> = Vec::new();
        let mut i: usize = 0;
        while i < cpuid.len()
            invariant
                0 <= i <= cpuid@.len(),
                views == adjustment_views(adjustments@),
                adjusted@.len() == i,
                forall|j: int|
                    0 <= j < i ==> #[trigger] adjusted@[j] == adjusted_entry(cpuid@[j], views),
            decreases cpuid@.len() - i,
        {
            let mut entry: CpuIdEntry = cpuid[i];
            let function: u32 = entry.function;
            let index: u32 = entry.index;
            Self::find(adjustments, function, index, CpuidReg::EAX).adjust(&mut entry.eax);
            Self::find(adjustments, function, index, CpuidReg::EBX).adjust(&mut entry.ebx);
            Self::find(adjustments, function, index, CpuidReg::ECX).adjust(&mut entry.ecx);
            Self::find(adjustments, function, index, CpuidReg::EDX).adjust(&mut entry.edx);
            adjusted.push(entry);
            i = i + 1;
        }
        assert(adjusted@ =~= cpuid@.map_values(
            |entry: CpuIdEntry| adjusted_entry(entry, views),
        ));
        adjusted
    }
}

/// Adjusting what was adjusted changes nothing.
pub proof fn law_adjust_is_idempotent(adjustment: CpuidOutputRegisterAdjustments, value: u32)
    ensures
        adjustment.spec_adjust(adjustment.spec_adjust(value)) == adjustment.spec_adjust(value),
{
    let m = adjustment.mask;
    let r = adjustment.replacements;
    assert((((value & m) | r) & m) | r == (value & m) | r) by (bit_vector);
}

/// Two hosts that use one profile agree on every bit that the profile does not take
/// from the host.
pub proof fn law_hosts_agree_outside_mask(
    adjustment: CpuidOutputRegisterAdjustments,
    one: u32,
    other: u32,
)
    ensures
        adjustment.spec_adjust(one) & !adjustment.mask == adjustment.spec_adjust(other)
            & !adjustment.mask,
{
    let m = adjustment.mask;
    let r = adjustment.replacements;
    assert(((one & m) | r) & !m == ((other & m) | r) & !m) by (bit_vector);
}

/// An adjusted entry stays as it is when it is adjusted again.
pub proof fn law_adjusted_entry_is_stable(
    entry: CpuIdEntry,
    adjustments: Seq<(ParametersView, CpuidOutputRegisterAdjustments)>,
)
    ensures
        adjusted_entry(adjusted_entry(entry, adjustments), adjustments) == adjusted_entry(
            entry,
            adjustments,
        ),
{
    let f = entry.function;
    let i = entry.index;
    law_adjust_is_idempotent(find_adjustment(adjustments, f, i, CpuidReg::EAX), entry.eax);
    law_adjust_is_idempotent(find_adjustment(adjustments, f, i, CpuidReg::EBX), entry.ebx);
    law_adjust_is_idempotent(find_adjustment(adjustments, f, i, CpuidReg::ECX), entry.ecx);
    law_adjust_is_idempotent(find_adjustment(adjustments, f, i, CpuidReg::EDX), entry.edx);
}

/// A register that no adjustment speaks of is cleared.
pub proof fn law_unlisted_register_is_cleared(
    entry: CpuIdEntry,
    adjustments: Seq<(ParametersView, CpuidOutputRegisterAdjustments)>,
    register: CpuidReg,
)
    requires
        forall|i: int|
            0 <= i < adjustments.len() ==> !parameters_match(
                (#[trigger] adjustments[i]).0,
                entry.function,
                entry.index,
                register,
            ),
    ensures
        adjusted_register(entry, adjustments, register) == 0,
    decreases adjustments.len(),
{
    if adjustments.len() > 0 {
        let rest = adjustments.drop_first();
        assert forall|i: int| 0 <= i < rest.len() implies !parameters_match(
            (#[trigger] rest[i]).0,
            entry.function,
            entry.index,
            register,
        ) by {
            assert(rest[i] == adjustments[i + 1]);
        }
        law_unlisted_register_is_cleared(entry, rest, register);
    } else {
        let value = entry.spec_register(register);
        assert((value & 0u32) | 0u32 == 0) by (bit_vector);
    }
}

/// Every register of an adjusted entry is that register of the entry, adjusted on its own:
/// no register gets what is meant for another. The leaf, the sub-leaf and the flags stay.
pub proof fn law_registers_are_adjusted_apart(
    entry: CpuIdEntry,
    adjustments: Seq<(ParametersView, CpuidOutputRegisterAdjustments)>,
)
    ensures
        forall|register: CpuidReg| #[trigger]
            adjusted_entry(entry, adjustments).spec_register(register) == adjusted_register(
                entry,
                adjustments,
                register,
            ),
        adjusted_entry(entry, adjustments).function == entry.function,
        adjusted_entry(entry, adjustments).index == entry.index,
        adjusted_entry(entry, adjustments).flags == entry.flags,
        entry.spec_register(CpuidReg::EAX) == entry.eax,
        entry.spec_register(CpuidReg::EBX) == entry.ebx,
        entry.spec_register(CpuidReg::ECX) == entry.ecx,
        entry.spec_register(CpuidReg::EDX) == entry.edx,
{
}

/// The adjustment is for this leaf, this sub-leaf and this register.
spec fn speaks_of(
    parameters: ParametersView,
    function: u32,
    index: u32,
    register: CpuidReg,
) -> bool {
    &&& parameters.leaf == function
    &&& parameters.sub_leaf.start <= index <= parameters.sub_leaf.end
    &&& parameters.register == register
}

/// The first adjustment that is for the leaf, the sub-leaf and the register is the one that
/// counts: what it keeps of the register stays, and its replacements are set.
pub proof fn law_first_adjustment_counts(
    entry: CpuIdEntry,
    adjustments: Seq<(ParametersView, CpuidOutputRegisterAdjustments)>,
    k: int,
)
    requires
        0 <= k < adjustments.len(),
        forall|j: int|
            0 <= j < adjustments.len() ==> !(#[trigger] adjustments[j]).0.sub_leaf.exhausted,
        adjustments[k].0.leaf == entry.function,
        adjustments[k].0.sub_leaf.start <= entry.index <= adjustments[k].0.sub_leaf.end,
        forall|j: int|
            0 <= j < k ==> !((#[trigger] adjustments[j]).0.leaf == entry.function
                && adjustments[j].0.sub_leaf.start <= entry.index
                <= adjustments[j].0.sub_leaf.end && adjustments[j].0.register
                == adjustments[k].0.register),
    ensures
        ({
            let a = adjustments[k].1;
            let t = adjusted_entry(entry, adjustments);
            match adjustments[k].0.register {
                CpuidReg::EAX => t.eax == (entry.eax & a.mask) | a.replacements,
                CpuidReg::EBX => t.ebx == (entry.ebx & a.mask) | a.replacements,
                CpuidReg::ECX => t.ecx == (entry.ecx & a.mask) | a.replacements,
                CpuidReg::EDX => t.edx == (entry.edx & a.mask) | a.replacements,
            }
        }),
{
    lemma_find_first(
        adjustments,
        entry.function,
        entry.index,
        adjustments[k].0.register,
        k,
    );
}

/// A search finds the first that matches.
proof fn lemma_find_first(
    adjustments: Seq<(ParametersView, CpuidOutputRegisterAdjustments)>,
    function: u32,
    index: u32,
    register: CpuidReg,
    k: int,
)
    requires
        0 <= k < adjustments.len(),
        forall|j: int|
            0 <= j < adjustments.len() ==> !(#[trigger] adjustments[j]).0.sub_leaf.exhausted,
        speaks_of(adjustments[k].0, function, index, register),
        forall|j: int|
            0 <= j < k ==> !speaks_of((#[trigger] adjustments[j]).0, function, index, register),
    ensures
        find_adjustment(adjustments, function, index, register) == adjustments[k].1,
    decreases k,
{
    if k > 0 {
        let rest = adjustments.drop_first();
        assert(!speaks_of(adjustments[0].0, function, index, register));
        assert forall|j: int| 0 <= j < rest.len() implies !(
        #[trigger] rest[j]).0.sub_leaf.exhausted by {
            assert(rest[j] == adjustments[j + 1]);
        }
        assert forall|j: int| 0 <= j < k - 1 implies !speaks_of(
            (#[trigger] rest[j]).0,
            function,
            index,
            register,
        ) by {
            assert(rest[j] == adjustments[j + 1]);
        }
        lemma_find_first(rest, function, index, register, k - 1);
    }
}

/// A register that no adjustment is for is zero in the adjusted entry.
pub proof fn law_other_registers_are_zero(
    entry: CpuIdEntry,
    adjustments: Seq<(ParametersView, CpuidOutputRegisterAdjustments)>,
    register: CpuidReg,
)
    requires
        forall|j: int|
            0 <= j < adjustments.len() ==> !(#[trigger] adjustments[j]).0.sub_leaf.exhausted && !(
            adjustments[j].0.leaf == entry.function && adjustments[j].0.sub_leaf.start
                <= entry.index <= adjustments[j].0.sub_leaf.end && adjustments[j].0.register
                == register),
    ensures
        register is EAX ==> adjusted_entry(entry, adjustments).eax == 0,
        register is EBX ==> adjusted_entry(entry, adjustments).ebx == 0,
        register is ECX ==> adjusted_entry(entry, adjustments).ecx == 0,
        register is EDX ==> adjusted_entry(entry, adjustments).edx == 0,
{
    assert forall|i: int| 0 <= i < adjustments.len() implies !parameters_match(
        (#[trigger] adjustments[i]).0,
        entry.function,
        entry.index,
        register,
    ) by {}
    law_unlisted_register_is_cleared(entry, adjustments, register);
}

/// A bit of an adjusted value is set where the replacements set it, or where the mask keeps
/// it and it was set.
pub proof fn law_adjusted_bits(adjustment: CpuidOutputRegisterAdjustments, value: u32, i: u32)
    requires
        i < 32,
    ensures
        ((adjustment.spec_adjust(value) >> i) & 1 == 1) == ((adjustment.replacements >> i) & 1 == 1
            || ((adjustment.mask >> i) & 1 == 1 && (value >> i) & 1 == 1)),
{
    let m = adjustment.mask;
    let r = adjustment.replacements;
    assert(((((value & m) | r) >> i) & 1 == 1) == ((r >> i) & 1 == 1 || ((m >> i) & 1 == 1 && (value
        >> i) & 1 == 1))) by (bit_vector);
}

/// Adjustments are seen one by one, as they are.
pub proof fn law_adjustments_as_they_are(
    adjustments: Seq<(Parameters, CpuidOutputRegisterAdjustments)>,
)
    ensures
        adjustment_views(adjustments).len() == adjustments.len(),
        forall|i: int|
            0 <= i < adjustments.len() ==> {
                let seen = #[trigger] adjustment_views(adjustments)[i];
                &&& seen.0.leaf == adjustments[i].0.leaf
                &&& seen.0.sub_leaf == adjustments[i].0.sub_leaf@
                &&& seen.0.register == adjustments[i].0.register
                &&& seen.1 == adjustments[i].1
            },
{
}

} // verus!
