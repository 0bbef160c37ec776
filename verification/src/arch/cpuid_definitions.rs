//! Descriptions of CPUID data, and of how CPU profiles treat them.

use std::ops::RangeInclusive;
use vstd::prelude::*;
use vstd::std_specs::range::RangeInclusiveView;

use crate::arch::cpuid::CpuidReg;

verus! {

/// A CPUID output register for a leaf and a range of its sub-leaves.
#[derive(Debug, Eq, PartialEq)]
pub struct Parameters {
    /// The leaf, which CPUID takes in EAX.
    pub leaf: u32,
    /// The sub-leaves, which CPUID takes in ECX.
    pub sub_leaf: RangeInclusive<u32>,
    /// The output register.
    pub register: CpuidReg,
}

/// [`Parameters`] as the contracts speak of them.
pub struct ParametersView {
    pub leaf: u32,
    pub sub_leaf: RangeInclusiveView<u32>,
    pub register: CpuidReg,
}

/// `index` lies in the range.
pub open spec fn range_contains(range: RangeInclusiveView<u32>, index: u32) -> bool {
    range.start <= index && if range.exhausted {
        index < range.end
    } else {
        index <= range.end
    }
}

/// The range from `start` to `end`, both included.
pub open spec fn inclusive(start: u32, end: u32) -> RangeInclusiveView<u32> {
    RangeInclusiveView { start, end, exhausted: false }
}

impl View for Parameters {
    type V = ParametersView;

    open spec fn view(&self) -> ParametersView {
        ParametersView { leaf: self.leaf, sub_leaf: self.sub_leaf@, register: self.register }
    }
}

impl Parameters {
    /// The range of sub-leaves was not iterated over.
    pub open spec fn wf(self) -> bool {
        !self.sub_leaf@.exhausted
    }
}

impl Clone for Parameters {
    fn clone(&self) -> (copy: Self)
        ensures
            self.wf() ==> copy@ == self@,
    {
        Parameters {
            leaf: self.leaf,
            sub_leaf: self.sub_leaf.clone(),
            register: self.register,
        }
    }
}

/// How a profile treats a value.
#[derive(Debug, Copy, Clone, Eq, PartialEq, Structural)]
pub enum ProfilePolicy {
    /// The profile stores the value of the host that it was generated on, and sets it
    /// wherever it is used.
    Inherit,
    /// The profile stores nothing: wherever it is used, the value of the host there
    /// stays. For data without effect on migration, and for data that a guest needs
    /// but that has to match the host.
    Passthrough,
    /// The profile sets this value, for features that do not go well with live
    /// migration.
    Overwrite(u32),
}

/// How the values of two hosts have to relate for a guest to move between them.
#[derive(Debug, Copy, Clone, Eq, PartialEq, Structural)]
pub enum MigrationCompatibilityRequirement {
    /// The values are equal.
    Eq,
    /// The target has at least the bits of the source.
    ContainsBits,
    /// The value of the target is greater than that of the source, or equal.
    GtEq,
    /// The value of the target is less than that of the source, or equal.
    LtEq,
    /// The values are not compared.
    Ignore,
}

/// A value within an output register.
#[derive(Clone, Copy)]
pub struct ValueDefinition {
    /// Short name of the value.
    pub short: &'static str,
    /// Description of the value.
    pub description: &'static str,
    /// First and last bit of the value.
    pub bits_range: (u8, u8),
    /// How profiles treat the value.
    pub policy: ProfilePolicy,
    pub migration_compatibility_req: MigrationCompatibilityRequirement,
}

impl ValueDefinition {
    /// The bits lie in a register, first before last.
    pub open spec fn wf(self) -> bool {
        self.bits_range.0 <= self.bits_range.1 < 32
    }
}

/// The values within an output register.
pub struct ValueDefinitions(&'static [ValueDefinition]);

impl View for ValueDefinitions {
    type V = Seq<ValueDefinition>;

    closed spec fn view(&self) -> Seq<ValueDefinition> {
        self.0@
    }
}

impl ValueDefinitions {
    /// The values of a register.
    pub fn new(cpuid_descriptions: &'static [ValueDefinition]) -> (definitions: Self)
        ensures
            definitions@ == cpuid_descriptions@,
    {
        ValueDefinitions(cpuid_descriptions)
    }

    /// The values, to be read.
    pub fn as_slice(&self) -> (definitions: &'static [ValueDefinition])
        ensures
            definitions@ == self@,
    {
        self.0
    }
}

/// Several output registers, each with the values in it.
pub struct CpuidDefinitions<const NUM_PARAMETERS: usize>(
    pub [(Parameters, ValueDefinitions); NUM_PARAMETERS],
);

/// An output register and its values, as the contracts speak of them.
pub struct RegisterDefinition {
    pub parameters: ParametersView,
    pub values: Seq<ValueDefinition>,
}

/// The description of one output register is in order.
pub open spec fn definition_wf(definition: (Parameters, ValueDefinitions)) -> bool {
    definition.0.wf() && forall|i: int|
        0 <= i < definition.1@.len() ==> (#[trigger] definition.1@[i]).wf()
}

impl<const NUM_PARAMETERS: usize> View for CpuidDefinitions<NUM_PARAMETERS> {
    type V = Seq<RegisterDefinition>;

    open spec fn view(&self) -> Seq<RegisterDefinition> {
        self.0@.map_values(
            |d: (Parameters, ValueDefinitions)|
                RegisterDefinition { parameters: d.0@, values: d.1@ },
        )
    }
}

impl<const NUM_PARAMETERS: usize> CpuidDefinitions<NUM_PARAMETERS> {
    /// Every description is in order.
    pub open spec fn wf(self) -> bool {
        forall|i: int| 0 <= i < NUM_PARAMETERS ==> definition_wf(#[trigger] self.0@[i])
    }
}

/// Parameters are seen as they are.
pub proof fn law_parameters_as_they_are(parameters: Parameters)
    ensures
        parameters@.leaf == parameters.leaf,
        parameters@.sub_leaf == parameters.sub_leaf@,
        parameters@.register == parameters.register,
{
}

/// A range that was not iterated over holds its two ends and all between them, and nothing
/// else; the range of one number holds that number alone.
pub proof fn law_ranges(start: u32, end: u32, index: u32)
    ensures
        range_contains(inclusive(start, end), index) <==> start <= index <= end,
        inclusive(start, end).start == start,
        inclusive(start, end).end == end,
        !inclusive(start, end).exhausted,
{
}

/// Descriptions are in order exactly where no range was iterated over, and the bits of
/// every value lie in a register of 32 bits, the first not behind the last.
pub proof fn law_descriptions_in_order(definition: (Parameters, ValueDefinitions))
    ensures
        definition_wf(definition) <==> !definition.0.sub_leaf@.exhausted && forall|i: int|
            0 <= i < definition.1@.len() ==> (#[trigger] definition.1@[i]).bits_range.0
                <= definition.1@[i].bits_range.1 < 32,
{
    if !definition.0.sub_leaf@.exhausted && forall|i: int|
        0 <= i < definition.1@.len() ==> (#[trigger] definition.1@[i]).bits_range.0
            <= definition.1@[i].bits_range.1 < 32 {
        assert forall|i: int| 0 <= i < definition.1@.len() implies (
        #[trigger] definition.1@[i]).wf() by {}
    }
    if definition_wf(definition) {
        assert forall|i: int| 0 <= i < definition.1@.len() implies (
        #[trigger] definition.1@[i]).bits_range.0 <= definition.1@[i].bits_range.1 < 32 by {
            assert(definition.1@[i].wf());
        }
    }
}

} // verus!
