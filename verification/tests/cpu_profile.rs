use cloud_vmm::arch::cpu_profile::{CpuProfile, CpuidOutputRegisterAdjustments};
use cloud_vmm::arch::cpu_profile_generation::{
    bit_range_mask, extract_parameter_matches, generate_cpu_profile_data_with, sort_entries,
};
use cloud_vmm::arch::cpuid::{CpuIdEntry, CpuVendor, CpuidReg, HypervisorType};
use cloud_vmm::arch::cpuid_definitions::{
    CpuidDefinitions, MigrationCompatibilityRequirement, Parameters, ProfilePolicy,
    ValueDefinition, ValueDefinitions,
};

fn entry(function: u32, index: u32, eax: u32) -> CpuIdEntry {
    CpuIdEntry {
        function,
        index,
        flags: 0,
        eax,
        ebx: eax + 1,
        ecx: eax + 2,
        edx: eax + 3,
    }
}

fn parameters(leaf: u32, first: u32, last: u32, register: CpuidReg) -> Parameters {
    Parameters {
        leaf,
        sub_leaf: first..=last,
        register,
    }
}

const fn value(first: u8, last: u8, policy: ProfilePolicy) -> ValueDefinition {
    ValueDefinition {
        short: "value",
        description: "a value",
        bits_range: (first, last),
        policy,
        migration_compatibility_req: MigrationCompatibilityRequirement::Ignore,
    }
}

const LAYOUT: &[ValueDefinition] = &[
    value(0, 7, ProfilePolicy::Inherit),
    value(8, 15, ProfilePolicy::Passthrough),
    value(16, 19, ProfilePolicy::Overwrite(0x5)),
];

const ONE: &[ValueDefinition] = &[value(0, 31, ProfilePolicy::Overwrite(1))];

const TWO: &[ValueDefinition] = &[value(0, 31, ProfilePolicy::Overwrite(2))];

#[test]
fn masks_of_bit_ranges() {
    assert_eq!(bit_range_mask(0, 31), 0xFFFF_FFFF);
    assert_eq!(bit_range_mask(0, 0), 1);
    assert_eq!(bit_range_mask(31, 31), 0x8000_0000);
    assert_eq!(bit_range_mask(4, 7), 0xF0);
}

#[test]
fn adjust_keeps_the_mask_and_sets_the_replacements() {
    let adjustment = CpuidOutputRegisterAdjustments {
        mask: 0x0000_FF00,
        replacements: 0x0005_0012,
    };
    let mut register = 0xABCD_EF01u32;
    adjustment.adjust(&mut register);
    assert_eq!(register, 0x0005_EF12);
    adjustment.adjust(&mut register);
    assert_eq!(register, 0x0005_EF12);
}

#[test]
fn hosts_agree_outside_the_mask() {
    let adjustment = CpuidOutputRegisterAdjustments {
        mask: 0xF0,
        replacements: 0x0F,
    };
    let mut one = 0x1234_5678u32;
    let mut other = 0x8765_4321u32;
    adjustment.adjust(&mut one);
    adjustment.adjust(&mut other);
    assert_eq!(one & !0xF0, other & !0xF0);
    assert_ne!(one, other);
}

#[test]
fn first_adjustment_wins_and_others_clear() {
    let adjustments = [
        (
            parameters(7, 0, 3, CpuidReg::EAX),
            CpuidOutputRegisterAdjustments { mask: 0xFF, replacements: 0x100 },
        ),
        (
            parameters(7, 2, 9, CpuidReg::EAX),
            CpuidOutputRegisterAdjustments { mask: 0, replacements: 0x200 },
        ),
    ];
    let adjusted = CpuidOutputRegisterAdjustments::adjust_cpuid_entries(
        vec![entry(7, 2, 0x1234), entry(7, 9, 0x1234), entry(8, 2, 0x1234)],
        &adjustments,
    );
    assert_eq!(adjusted[0].eax, 0x134);
    assert_eq!(adjusted[1].eax, 0x200);
    assert_eq!(adjusted[2].eax, 0);
    for a in adjusted {
        assert_eq!((a.ebx, a.ecx, a.edx), (0, 0, 0));
    }
}

#[test]
fn adjusted_entries_are_stable() {
    let adjustments = [(
        parameters(1, 0, 0, CpuidReg::ECX),
        CpuidOutputRegisterAdjustments { mask: 0xF, replacements: 0xF0 },
    )];
    let once =
        CpuidOutputRegisterAdjustments::adjust_cpuid_entries(vec![entry(1, 0, 5)], &adjustments);
    let twice = CpuidOutputRegisterAdjustments::adjust_cpuid_entries(once.clone(), &adjustments);
    assert_eq!(once, twice);
    assert_eq!(once[0].ecx, 0xF7);
}

#[test]
fn entries_are_sorted_by_leaf_and_sub_leaf() {
    let sorted = sort_entries(vec![
        entry(7, 1, 1),
        entry(0, 0, 2),
        entry(7, 0, 3),
        entry(7, 1, 4),
        entry(4, 9, 5),
    ]);
    let keys: Vec<(u32, u32, u32)> = sorted.iter().map(|e| (e.function, e.index, e.eax)).collect();
    assert_eq!(
        keys,
        vec![(0, 0, 2), (4, 9, 5), (7, 0, 3), (7, 1, 1), (7, 1, 4)]
    );
    assert_eq!(sort_entries(Vec::new()), Vec::new());
}

#[test]
fn matches_partition_the_range() {
    let entries = [entry(3, 1, 9), entry(4, 2, 10), entry(4, 3, 20), entry(4, 7, 30), entry(5, 4, 40)];
    let matches = extract_parameter_matches(&parameters(4, 1, 8, CpuidReg::EBX), &entries);
    assert_eq!(
        matches,
        vec![
            (1..=1, None),
            (2..=2, Some(11)),
            (3..=3, Some(21)),
            (4..=6, None),
            (7..=7, Some(31)),
            (8..=8, None),
        ]
    );
}

#[test]
fn matches_end_with_the_range() {
    let entries = [entry(4, 0, 10), entry(4, 1, 20)];
    assert_eq!(
        extract_parameter_matches(&parameters(4, 0, 1, CpuidReg::EAX), &entries),
        vec![(0..=0, Some(10)), (1..=1, Some(20))]
    );
    assert_eq!(
        extract_parameter_matches(&parameters(4, 1, u32::MAX, CpuidReg::EDX), &entries),
        vec![(1..=1, Some(23)), (2..=u32::MAX, None)]
    );
    assert_eq!(
        extract_parameter_matches(&parameters(9, 0, 5, CpuidReg::EAX), &entries),
        vec![(0..=5, None)]
    );
}

#[test]
fn policies_make_the_profile() {
    let processor = CpuidDefinitions([(
        parameters(1, 0, 0, CpuidReg::EAX),
        ValueDefinitions::new(LAYOUT),
    )]);
    let hypervisor = CpuidDefinitions([(
        parameters(0x4000_0000, 0, 0, CpuidReg::EAX),
        ValueDefinitions::new(LAYOUT),
    )]);
    let data = generate_cpu_profile_data_with(
        HypervisorType::Kvm,
        CpuVendor::Intel,
        vec![entry(1, 0, 0xFFFF_FF42)],
        &processor,
        &hypervisor,
    );
    assert_eq!(data.hypervisor, HypervisorType::Kvm);
    assert_eq!(data.cpu_vendor, CpuVendor::Intel);
    assert_eq!(data.adjustments.len(), 2);
    assert_eq!(data.adjustments[0].0, parameters(1, 0, 0, CpuidReg::EAX));
    assert_eq!(
        data.adjustments[0].1,
        CpuidOutputRegisterAdjustments { mask: 0xFF00, replacements: 0x0005_0042 }
    );
    assert_eq!(
        data.adjustments[1].1,
        CpuidOutputRegisterAdjustments { mask: 0xFF00, replacements: 0x0005_0000 }
    );
    assert_eq!(data.compatibility_target.len(), 1);
    assert_eq!(data.compatibility_target[0].eax, 0x0005_FF42);
    assert_eq!(data.compatibility_target[0].ebx, 0);

    let other = CpuidOutputRegisterAdjustments::adjust_cpuid_entries(
        vec![entry(1, 0, 0x1111_AB77)],
        &data.adjustments,
    );
    assert_eq!(other[0].eax, 0x0005_AB42);
}

#[test]
fn descriptions_with_ranges_are_split() {
    let processor = CpuidDefinitions([(
        parameters(4, 0, 3, CpuidReg::EAX),
        ValueDefinitions::new(LAYOUT),
    )]);
    let none: CpuidDefinitions<0> = CpuidDefinitions([]);
    let data = generate_cpu_profile_data_with(
        HypervisorType::Mshv,
        CpuVendor::AMD,
        vec![entry(4, 1, 0x11)],
        &processor,
        &none,
    );
    let ranges: Vec<(u32, u32, u32)> = data
        .adjustments
        .iter()
        .map(|(p, a)| (*p.sub_leaf.start(), *p.sub_leaf.end(), a.replacements))
        .collect();
    assert_eq!(
        ranges,
        vec![(0, 0, 0x5_0000), (1, 1, 0x5_0011), (2, 3, 0x5_0000)]
    );
}

#[test]
fn earlier_descriptions_come_first() {
    let processor = CpuidDefinitions([(
        parameters(4, 0, 3, CpuidReg::EAX),
        ValueDefinitions::new(ONE),
    )]);
    let hypervisor = CpuidDefinitions([(
        parameters(4, 2, 9, CpuidReg::EAX),
        ValueDefinitions::new(TWO),
    )]);
    let data = generate_cpu_profile_data_with(
        HypervisorType::Kvm,
        CpuVendor::Unknown,
        vec![entry(4, 2, 7), entry(4, 5, 7)],
        &processor,
        &hypervisor,
    );
    assert_eq!(data.compatibility_target[0].eax, 1);
    assert_eq!(data.compatibility_target[1].eax, 2);
}

#[test]
fn definitions_give_their_values_back() {
    let definitions = ValueDefinitions::new(LAYOUT);
    assert_eq!(definitions.as_slice().len(), 3);
    assert_eq!(definitions.as_slice()[2].policy, ProfilePolicy::Overwrite(5));
}

#[test]
fn profiles_and_their_files() {
    assert_eq!(CpuProfile::default(), CpuProfile::Host);
    assert_eq!(CpuProfile::Host.data_file(), None);
    assert_eq!(CpuProfile::DevLaptop.data_file(), Some("dev_profile.json"));
    assert_eq!(CpuProfile::Skylake.data_file(), Some("skylake-profile.json"));
    assert_eq!(CpuProfile::SapphireRapids.data_file(), Some("sapphire-rapids.json"));
}

#[test]
fn cloned_parameters_are_equal() {
    let original = parameters(7, 2, 5, CpuidReg::EDX);
    let copy = original.clone();
    assert_eq!(copy, original);
    assert_eq!(copy.sub_leaf, 2..=5);
}

#[test]
fn registers_of_an_entry() {
    let e = entry(1, 2, 10);
    assert_eq!(e.register(CpuidReg::EAX), 10);
    assert_eq!(e.register(CpuidReg::EBX), 11);
    assert_eq!(e.register(CpuidReg::ECX), 12);
    assert_eq!(e.register(CpuidReg::EDX), 13);
}

#[test]
fn hosts_agree_but_for_what_passes_through() {
    let processor = CpuidDefinitions([(
        parameters(1, 0, 0, CpuidReg::EAX),
        ValueDefinitions::new(LAYOUT),
    )]);
    let none: CpuidDefinitions<0> = CpuidDefinitions([]);
    let data = generate_cpu_profile_data_with(
        HypervisorType::Kvm,
        CpuVendor::Intel,
        vec![entry(1, 0, 0x42)],
        &processor,
        &none,
    );
    let hosts = CpuidOutputRegisterAdjustments::adjust_cpuid_entries(
        vec![entry(1, 0, 0x1234_5678), entry(1, 0, 0x8765_4321), entry(2, 0, 9), entry(2, 0, 8)],
        &data.adjustments,
    );
    assert_eq!(hosts[0].eax & !0xFF00, hosts[1].eax & !0xFF00);
    assert_eq!(hosts[0].eax, 0x0005_5642);
    assert_eq!(hosts[1].eax, 0x0005_4342);
    assert_eq!(hosts[2], hosts[3]);
}

#[test]
fn first_of_several_entries_counts() {
    let processor = CpuidDefinitions([(
        parameters(1, 0, 3, CpuidReg::EAX),
        ValueDefinitions::new(LAYOUT),
    )]);
    let none: CpuidDefinitions<0> = CpuidDefinitions([]);
    let data = generate_cpu_profile_data_with(
        HypervisorType::Kvm,
        CpuVendor::Intel,
        vec![entry(1, 1, 0x11), entry(1, 1, 0x22)],
        &processor,
        &none,
    );
    assert_eq!(data.compatibility_target[0].eax, 0x0005_0011);
    assert_eq!(data.compatibility_target[1].eax, 0x0005_0011);
}

#[test]
fn profile_data_are_cloned() {
    let processor = CpuidDefinitions([(
        parameters(4, 0, 3, CpuidReg::EAX),
        ValueDefinitions::new(LAYOUT),
    )]);
    let none: CpuidDefinitions<0> = CpuidDefinitions([]);
    let data = generate_cpu_profile_data_with(
        HypervisorType::Kvm,
        CpuVendor::AMD,
        vec![entry(4, 1, 0x11)],
        &processor,
        &none,
    );
    let copy = data.clone();
    assert_eq!(copy.hypervisor, data.hypervisor);
    assert_eq!(copy.cpu_vendor, data.cpu_vendor);
    assert_eq!(copy.adjustments, data.adjustments);
    assert_eq!(copy.adjustments.len(), 3);
    assert_eq!(copy.compatibility_target, data.compatibility_target);
}
