//! Generation of CPU profiles from the CPUID data of a host.

use std::ops::RangeInclusive;
use vstd::prelude::*;
use vstd::std_specs::range::RangeInclusiveView;

use crate::arch::cpu_profile::{CpuProfileData, CpuidOutputRegisterAdjustments};
use crate::arch::cpuid::{CpuIdEntry, CpuVendor, CpuidReg, HypervisorType};
use crate::arch::cpuid_definitions::{
    CpuidDefinitions, Parameters, ParametersView, ProfilePolicy, RegisterDefinition,
    ValueDefinition, ValueDefinitions,
};

verus! {

/// Bit `i` of `value`.
pub open spec fn bit(value: u32, i: u32) -> bool {
    (value >> i) & 1 == 1
}

/// The number whose bits from `first` to `last` are set, and no others.
pub open spec fn field_mask(first: u8, last: u8) -> u32 {
    (u32::MAX >> ((31 - last) as u32)) & !(((1u32 << (first as u32)) - 1) as u32)
}

/// A field mask has exactly the bits of its field.
pub proof fn law_field_mask(first: u8, last: u8)
    requires
        first <= last < 32,
    ensures
        forall|i: u32| i < 32 ==> #[trigger] bit(field_mask(first, last), i) == (first <= i <= last),
{
    let down = (31 - last) as u32;
    let f = first as u32;
    let l = last as u32;
    let low = ((1u32 << f) - 1) as u32;
    assert((1u32 << f) >= 1) by (bit_vector)
        requires
            f < 32,
    ;
    let one = 1u32 << f;
    assert forall|i: u32| i < 32 implies #[trigger] bit(field_mask(first, last), i) == (first <= i
        <= last) by {
        let mask = (u32::MAX >> down) & !low;
        assert(((mask >> i) & 1 == 1) == (f <= i && i <= l)) by (bit_vector)
            requires
                f <= l,
                l < 32,
                i < 32,
                down + l == 31,
                low + 1 == (1u32 << f),
                mask == (0xFFFF_FFFFu32 >> down) & !low,
        ;
    }
}

/// The number whose bits from `first_bit_pos` to `last_bit_pos` are set, and no
/// others.
pub fn bit_range_mask(first_bit_pos: u8, last_bit_pos: u8) -> (mask: u32)
    requires
        first_bit_pos <= last_bit_pos < 32,
    ensures
        mask == field_mask(first_bit_pos, last_bit_pos),
        forall|i: u32|
            i < 32 ==> #[trigger] bit(mask, i) == (first_bit_pos <= i <= last_bit_pos),
        forall|i: u32|
            i < 32 ==> (#[trigger] (mask >> i) & 1 == 1) == (first_bit_pos <= i <= last_bit_pos),
{
    proof {
        law_field_mask(first_bit_pos, last_bit_pos);
        let f = first_bit_pos as u32;
        assert((1u32 << f) >= 1) by (bit_vector)
            requires
                f < 32,
        ;
    }
    let up_to_last: u32 = u32::MAX >> ((31 - last_bit_pos) as u32);
    let below_first: u32 = (1u32 << (first_bit_pos as u32)) - 1;
    let mask: u32 = up_to_last & !below_first;
    assert(mask == field_mask(first_bit_pos, last_bit_pos));
    assert forall|i: u32| i < 32 implies (#[trigger] (mask >> i) & 1 == 1) == (first_bit_pos <= i
        <= last_bit_pos) by {
        assert(bit(mask, i) == (first_bit_pos <= i <= last_bit_pos));
    }
    mask
}

/// `a` comes before `b`, or they are for one leaf and sub-leaf.
pub open spec fn entry_le(a: CpuIdEntry, b: CpuIdEntry) -> bool {
    a.function < b.function || (a.function == b.function && a.index <= b.index)
}

/// Entries in the order of their leaves, and of the sub-leaves within a leaf.
pub open spec fn entries_sorted(entries: Seq<CpuIdEntry>) -> bool {
    forall|i: int, j: int| 0 <= i <= j < entries.len() ==> entry_le(entries[i], entries[j])
}

/// The entries for one leaf and sub-leaf, in their order.
pub open spec fn entries_of(entries: Seq<CpuIdEntry>, function: u32, index: u32) -> Seq<
    CpuIdEntry,
> {
    entries.filter(|e: CpuIdEntry| e.function == function && e.index == index)
}

/// Putting an entry behind all that come before it or are for the same leaf and
/// sub-leaf keeps the order and the entries of every leaf and sub-leaf.
proof fn lemma_insert(entries: Seq<CpuIdEntry>, at: int, entry: CpuIdEntry)
    requires
        0 <= at <= entries.len(),
        entries_sorted(entries),
        forall|i: int| 0 <= i < at ==> entry_le(#[trigger] entries[i], entry),
        forall|i: int| at <= i < entries.len() ==> !entry_le(#[trigger] entries[i], entry),
    ensures
        entries_sorted(entries.insert(at, entry)),
        forall|f: u32, i: u32|
            #![trigger entries_of(entries.insert(at, entry), f, i)]
            entries_of(entries.insert(at, entry), f, i) == entries_of(entries.push(entry), f, i),
{
    let before = entries.take(at);
    let after = entries.skip(at);
    assert(entries.insert(at, entry) =~= before + (seq![entry] + after));
    assert(entries.push(entry) =~= before + (after + seq![entry]));
    assert forall|f: u32, i: u32| #![trigger entries_of(entries.insert(at, entry), f, i)]
        entries_of(entries.insert(at, entry), f, i) == entries_of(entries.push(entry), f, i) by {
        let pred = |e: CpuIdEntry| e.function == f && e.index == i;
        Seq::filter_distributes_over_add(before, seq![entry] + after, pred);
        Seq::filter_distributes_over_add(seq![entry], after, pred);
        Seq::filter_distributes_over_add(before, after + seq![entry], pred);
        Seq::filter_distributes_over_add(after, seq![entry], pred);
        if entry.function == f && entry.index == i {
            lemma_filter_none(after, pred);
        } else {
            lemma_filter_none(seq![entry], pred);
        }
        assert(seq![entry].filter(pred) + after.filter(pred) =~= after.filter(pred)
            + seq![entry].filter(pred));
    }
}

/// Nothing is left where no entry is wanted.
proof fn lemma_filter_none(entries: Seq<CpuIdEntry>, pred: spec_fn(CpuIdEntry) -> bool)
    requires
        forall|i: int| 0 <= i < entries.len() ==> !pred(#[trigger] entries[i]),
    ensures
        entries.filter(pred) == Seq::<CpuIdEntry>::empty(),
    decreases entries.len(),
{
    reveal(Seq::filter);
    if entries.len() > 0 {
        lemma_filter_none(entries.drop_last(), pred);
    }
}

/// Sorts entries by leaf and sub-leaf. Entries for one leaf and sub-leaf keep their
/// order.
pub fn sort_entries(cpuid: Vec<CpuIdEntry>) -> (sorted: Vec<CpuIdEntry>)
    ensures
        sorted@.len() == cpuid@.len(),
        entries_sorted(sorted@),
        forall|function: u32, index: u32|
            #![trigger entries_of(sorted@, function, index)]
            entries_of(sorted@, function, index) == entries_of(cpuid@, function, index),
        forall|i: int, j: int|
            0 <= i <= j < sorted@.len() ==> (#[trigger] sorted@[i]).function < (
            #[trigger] sorted@[j]).function || (sorted@[i].function == sorted@[j].function
                && sorted@[i].index <= sorted@[j].index),
{
    let mut sorted: Vec<CpuIdEntry> = Vec::new();
    let mut next: usize = 0;
    assert(cpuid@.take(0) =~= sorted@);
    while next < cpuid.len()
        invariant
            0 <= next <= cpuid@.len(),
            sorted@.len() == next,
            entries_sorted(sorted@),
            forall|f: u32, i: u32|
                #![trigger entries_of(sorted@, f, i)]
                entries_of(sorted@, f, i) == entries_of(cpuid@.take(next as int), f, i),
        decreases cpuid@.len() - next,
    {
        let entry: CpuIdEntry = cpuid[next];
        let mut at: usize = sorted.len();
        while at > 0 && !(sorted[at - 1].function < entry.function || (sorted[at - 1].function
            == entry.function && sorted[at - 1].index <= entry.index))
            invariant
                0 <= at <= sorted@.len(),
                forall|i: int| at <= i < sorted@.len() ==> !entry_le(#[trigger] sorted@[i], entry),
            decreases at,
        {
            at = at - 1;
        }
        let ghost before = sorted@;
        proof {
            assert forall|i: int| 0 <= i < at implies entry_le(#[trigger] before[i], entry) by {
                assert(entry_le(before[i], before[at - 1]));
            }
            lemma_insert(before, at as int, entry);
            assert forall|f: u32, i: u32| #![trigger entries_of(before.insert(at as int, entry), f, i)]
                entries_of(before.insert(at as int, entry), f, i) == entries_of(
                cpuid@.take(next + 1),
                f,
                i,
            ) by {
                let pred = |e: CpuIdEntry| e.function == f && e.index == i;
                assert(entries_of(before, f, i) == entries_of(cpuid@.take(next as int), f, i));
                assert(before.push(entry) =~= before + seq![entry]);
                assert(cpuid@.take(next + 1) =~= cpuid@.take(next as int) + seq![entry]);
                Seq::filter_distributes_over_add(before, seq![entry], pred);
                Seq::filter_distributes_over_add(cpuid@.take(next as int), seq![entry], pred);
            }
        }
        sorted.insert(at, entry);
        next = next + 1;
    }
    assert(cpuid@.take(cpuid@.len() as int) =~= cpuid@);
    assert forall|i: int, j: int| 0 <= i <= j < sorted@.len() implies (
    #[trigger] sorted@[i]).function < (#[trigger] sorted@[j]).function || (sorted@[i].function
        == sorted@[j].function && sorted@[i].index <= sorted@[j].index) by {
        assert(entry_le(sorted@[i], sorted@[j]));
    }
    sorted
}

/// The entries for one leaf and sub-leaf are those of a list that are for them, one after
/// the other: each entry that the list ends with comes last among them, or not at all.
pub proof fn law_entries_of(entries: Seq<CpuIdEntry>, entry: CpuIdEntry, function: u32, index: u32)
    ensures
        entries_of(Seq::empty(), function, index) == Seq::<CpuIdEntry>::empty(),
        entries_of(entries.push(entry), function, index) == (if entry.function == function
            && entry.index == index {
            entries_of(entries, function, index).push(entry)
        } else {
            entries_of(entries, function, index)
        }),
{
    let pred = |e: CpuIdEntry| e.function == function && e.index == index;
    reveal(Seq::filter);
    assert(entries.push(entry).drop_last() =~= entries);
    assert(Seq::<CpuIdEntry>::empty().filter(pred) =~= Seq::empty());
}

/// A range of sub-leaves, and what the register that is looked for holds there. The
/// range without a value has no entries.
pub struct SubLeafMatch {
    pub range: RangeInclusiveView<u32>,
    pub value: Option<u32>,
}

/// Matches as the contracts speak of them.
pub open spec fn match_views(matches: Seq<(RangeInclusive<u32>, Option<u32>)>) -> Seq<
    SubLeafMatch,
> {
    matches.map_values(
        |m: (RangeInclusive<u32>, Option<u32>)| SubLeafMatch { range: m.0@, value: m.1 },
    )
}

/// `entry` is for the leaf and one of the sub-leaves of `parameters`.
pub open spec fn entry_matches(parameters: ParametersView, entry: CpuIdEntry) -> bool {
    entry.function == parameters.leaf && crate::arch::cpuid_definitions::range_contains(
        parameters.sub_leaf,
        entry.index,
    )
}

/// The sub-leaves from `from` up to `at`, which no entry is for, as one range; nothing
/// where there are none.
pub open spec fn gap_before(from: u32, at: u32) -> Seq<SubLeafMatch> {
    if from < at {
        seq![
            SubLeafMatch {
                range: crate::arch::cpuid_definitions::inclusive(from, (at - 1) as u32),
                value: None,
            },
        ]
    } else {
        Seq::empty()
    }
}

/// The sub-leaf of `entry`, with the value of `register`.
pub open spec fn entry_match(entry: CpuIdEntry, register: CpuidReg) -> SubLeafMatch {
    SubLeafMatch {
        range: crate::arch::cpuid_definitions::inclusive(entry.index, entry.index),
        value: Some(entry.spec_register(register)),
    }
}

/// The matches of `parameters` in `entries`, for the sub-leaves from `from` on: before
/// each entry that matches, the sub-leaves that it leaves out, then the entry, and
/// after the last one the sub-leaves up to the end of the range.
pub open spec fn matches_from(
    parameters: ParametersView,
    entries: Seq<CpuIdEntry>,
    from: u32,
) -> Seq<SubLeafMatch>
    decreases entries.len(), 0nat,
{
    if entries.len() == 0 {
        seq![
            SubLeafMatch {
                range: crate::arch::cpuid_definitions::inclusive(from, parameters.sub_leaf.end),
                value: None,
            },
        ]
    } else if !entry_matches(parameters, entries[0]) {
        matches_from(parameters, entries.drop_first(), from)
    } else {
        gap_before(from, entries[0].index) + seq![entry_match(entries[0], parameters.register)]
            + matches_behind(parameters, entries.drop_first(), entries[0].index)
    }
}

/// The matches of `parameters` in `entries`, for the sub-leaves behind `at`; none where
/// the range ends there.
pub open spec fn matches_behind(
    parameters: ParametersView,
    entries: Seq<CpuIdEntry>,
    at: u32,
) -> Seq<SubLeafMatch>
    decreases entries.len(), 1nat,
{
    if at == parameters.sub_leaf.end {
        Seq::empty()
    } else {
        matches_from(parameters, entries, (at + 1) as u32)
    }
}

/// What stands behind a match, put as the next step of the search.
pub(crate) proof fn lemma_matches_behind(
    parameters: ParametersView,
    entries: Seq<CpuIdEntry>,
    at: u32,
)
    ensures
        matches_behind(parameters, entries, at) == (if at == parameters.sub_leaf.end {
            Seq::<SubLeafMatch>::empty()
        } else {
            matches_from(parameters, entries, (at + 1) as u32)
        }),
{
}

/// The matches of `parameters` in `entries`.
pub open spec fn sub_leaf_matches(
    parameters: ParametersView,
    entries: Seq<CpuIdEntry>,
) -> Seq<SubLeafMatch> {
    matches_from(parameters, entries, parameters.sub_leaf.start)
}

/// Appends a match.
fn push_match(
    out: &mut Vec<(RangeInclusive<u32>, Option<u32>)>,
    start: u32,
    end: u32,
    value: Option<u32>,
)
    ensures
        match_views(final(out)@) == match_views(old(out)@).push(
            SubLeafMatch {
                range: crate::arch::cpuid_definitions::inclusive(start, end),
                value,
            },
        ),
{
    out.push((RangeInclusive::new(start, end), value));
    assert(match_views(out@) =~= match_views(old(out)@).push(
        SubLeafMatch { range: crate::arch::cpuid_definitions::inclusive(start, end), value },
    ));
}

/// The sub-leaves of `param` that have an entry, each on its own and with the value of
/// its register, and between them the ranges of those that have none.
pub fn extract_parameter_matches(
    param: &Parameters,
    supported_cpuid_sorted: &[CpuIdEntry],
) -> (matches: Vec<(RangeInclusive<u32>, Option<u32>)>)
    requires
        param.wf(),
    ensures
        match_views(matches@) == sub_leaf_matches(param@, supported_cpuid_sorted@),
        matches@.len() == sub_leaf_matches(param@, supported_cpuid_sorted@).len(),
        forall|i: int|
            0 <= i < matches@.len() ==> (#[trigger] matches@[i]).0@ == sub_leaf_matches(
                param@,
                supported_cpuid_sorted@,
            )[i].range && matches@[i].1 == sub_leaf_matches(
                param@,
                supported_cpuid_sorted@,
            )[i].value,
{
    let ghost entries = supported_cpuid_sorted@;
    let ghost all = sub_leaf_matches(param@, entries);
    let mut out: Vec<(RangeInclusive<u32>, Option<u32>)> = Vec::new();
    let mut from: u32 = *param.sub_leaf.start();
    let end: u32 = *param.sub_leaf.end();
    let mut i: usize = 0;
    assert(entries.skip(0) =~= entries);
    assert(match_views(out@) + matches_from(param@, entries, from) =~= all);
    while i < supported_cpuid_sorted.len()
        invariant
            0 <= i <= entries.len(),
            entries == supported_cpuid_sorted@,
            param.wf(),
            end == param@.sub_leaf.end,
            all == sub_leaf_matches(param@, entries),
            match_views(out@) + matches_from(param@, entries.skip(i as int), from) == all,
        decreases entries.len() - i,
    {
        let entry: CpuIdEntry = supported_cpuid_sorted[i];
        let ghost before = match_views(out@);
        let ghost rest = entries.skip(i as int);
        assert(rest[0] == entry);
        assert(rest.drop_first() =~= entries.skip(i + 1));
        if entry.function == param.leaf && param.sub_leaf.contains(&entry.index) {
            let at: u32 = entry.index;
            proof {
                lemma_matches_behind(param@, rest.drop_first(), at);
            }
            if from < at {
                push_match(&mut out, from, at - 1, None);
            }
            push_match(&mut out, at, at, Some(entry.register(param.register)));
            if at == end {
                assert(match_views(out@) =~= before + matches_from(param@, rest, from));
                return out;
            }
            assert(match_views(out@) + matches_from(param@, rest.drop_first(), (at + 1) as u32)
                =~= before + matches_from(param@, rest, from));
            from = at + 1;
        }
        i = i + 1;
    }
    push_match(&mut out, from, end, None);
    assert(match_views(out@) =~= all);
    out
}

/// What the values of a register make of it: the mask keeps those that pass through,
/// and the replacements hold those that are overwritten, moved to their place, and
/// those of `target`, the register of the host that the profile is generated on.
pub open spec fn values_adjustment(
    values: Seq<ValueDefinition>,
    target: Option<u32>,
) -> CpuidOutputRegisterAdjustments
    decreases values.len(),
{
    if values.len() == 0 {
        CpuidOutputRegisterAdjustments { mask: 0, replacements: 0 }
    } else {
        let others = values_adjustment(values.drop_last(), target);
        let value = values.last();
        let field = field_mask(value.bits_range.0, value.bits_range.1);
        match value.policy {
            ProfilePolicy::Passthrough => CpuidOutputRegisterAdjustments {
                mask: others.mask | field,
                ..others
            },
            ProfilePolicy::Overwrite(overwrite) => CpuidOutputRegisterAdjustments {
                replacements: others.replacements | (overwrite << (value.bits_range.0 as u32)),
                ..others
            },
            ProfilePolicy::Inherit => match target {
                Some(register) => CpuidOutputRegisterAdjustments {
                    replacements: others.replacements | (register & field),
                    ..others
                },
                None => others,
            },
        }
    }
}

/// The adjustments for one description: one for each match of its parameters.
pub open spec fn definition_adjustments(
    definition: RegisterDefinition,
    entries: Seq<CpuIdEntry>,
) -> Seq<(ParametersView, CpuidOutputRegisterAdjustments)> {
    sub_leaf_matches(definition.parameters, entries).map_values(
        |m: SubLeafMatch|
            (
                ParametersView { sub_leaf: m.range, ..definition.parameters },
                values_adjustment(definition.values, m.value),
            ),
    )
}

/// The adjustments for all descriptions, in order.
pub open spec fn all_adjustments(
    definitions: Seq<RegisterDefinition>,
    entries: Seq<CpuIdEntry>,
) -> Seq<(ParametersView, CpuidOutputRegisterAdjustments)>
    decreases definitions.len(),
{
    if definitions.len() == 0 {
        Seq::empty()
    } else {
        all_adjustments(definitions.drop_last(), entries) + definition_adjustments(
            definitions.last(),
            entries,
        )
    }
}

/// What the values of a register make of it.
fn adjustment_of(values: &ValueDefinitions, target: Option<u32>) -> (adjustment:
    CpuidOutputRegisterAdjustments)
    requires
        forall|i: int| 0 <= i < values@.len() ==> (#[trigger] values@[i]).wf(),
    ensures
        adjustment == values_adjustment(values@, target),
{
    let slice = values.as_slice();
    let mut mask: u32 = 0;
    let mut replacements: u32 = 0;
    let mut i: usize = 0;
    assert(slice@.take(0) =~= Seq::empty());
    while i < slice.len()
        invariant
            0 <= i <= slice@.len(),
            slice@ == values@,
            forall|j: int| 0 <= j < slice@.len() ==> (#[trigger] slice@[j]).wf(),
            (CpuidOutputRegisterAdjustments { mask, replacements }) == values_adjustment(
                slice@.take(i as int),
                target,
            ),
        decreases slice@.len() - i,
    {
        let value: ValueDefinition = slice[i];
        assert(slice@[i as int].wf());
        assert(slice@.take(i + 1).drop_last() =~= slice@.take(i as int));
        let (first_bit_pos, last_bit_pos) = value.bits_range;
        match value.policy {
            ProfilePolicy::Passthrough => {
                mask = mask | bit_range_mask(first_bit_pos, last_bit_pos);
            },
            ProfilePolicy::Overwrite(overwrite) => {
                replacements = replacements | (overwrite << (first_bit_pos as u32));
            },
            ProfilePolicy::Inherit => {
                match target {
                    Some(register) => {
                        replacements = replacements | (register & bit_range_mask(
                            first_bit_pos,
                            last_bit_pos,
                        ));
                    },
                    None => {},
                }
            },
        }
        i = i + 1;
    }
    assert(slice@.take(slice@.len() as int) =~= slice@);
    CpuidOutputRegisterAdjustments { mask, replacements }
}

/// Appends the adjustments for one description.
fn push_definition(
    adjustments: &mut Vec<(Parameters, CpuidOutputRegisterAdjustments)>,
    definition: &(Parameters, ValueDefinitions),
    entries: &[CpuIdEntry],
)
    requires
        crate::arch::cpuid_definitions::definition_wf(*definition),
    ensures
        crate::arch::cpu_profile::adjustment_views(final(adjustments)@)
            == crate::arch::cpu_profile::adjustment_views(old(adjustments)@)
            + definition_adjustments(
            RegisterDefinition { parameters: definition.0@, values: definition.1@ },
            entries@,
        ),
{
    let ghost described = RegisterDefinition {
        parameters: definition.0@,
        values: definition.1@,
    };
    let ghost wanted = definition_adjustments(described, entries@);
    let ghost before = crate::arch::cpu_profile::adjustment_views(adjustments@);
    let matches: Vec<(RangeInclusive<u32>, Option<u32>)> = extract_parameter_matches(
        &definition.0,
        entries,
    );
    let mut i: usize = 0;
    assert(before + wanted.take(0) =~= before);
    while i < matches.len()
        invariant
            0 <= i <= matches@.len(),
            crate::arch::cpuid_definitions::definition_wf(*definition),
            described == (RegisterDefinition {
                parameters: definition.0@,
                values: definition.1@,
            }),
            wanted == definition_adjustments(described, entries@),
            match_views(matches@) == sub_leaf_matches(definition.0@, entries@),
            crate::arch::cpu_profile::adjustment_views(adjustments@) == before + wanted.take(
                i as int,
            ),
        decreases matches@.len() - i,
    {
        let value: Option<u32> = matches[i].1;
        let ghost so_far = crate::arch::cpu_profile::adjustment_views(adjustments@);
        let parameters = Parameters {
            leaf: definition.0.leaf,
            sub_leaf: matches[i].0.clone(),
            register: definition.0.register,
        };
        let adjustment = adjustment_of(&definition.1, value);
        assert(match_views(matches@)[i as int] == SubLeafMatch {
            range: matches@[i as int].0@,
            value,
        });
        proof {
            lemma_matches_fresh(
                definition.0@,
                entries@,
                definition.0@.sub_leaf.start,
                i as int,
            );
        }
        assert(wanted[i as int] == (parameters@, adjustment));
        adjustments.push((parameters, adjustment));
        assert(crate::arch::cpu_profile::adjustment_views(adjustments@) =~= so_far.push(
            (parameters@, adjustment),
        ));
        assert(wanted.take(i + 1) =~= wanted.take(i as int).push(wanted[i as int]));
        i = i + 1;
    }
    assert(wanted.take(wanted.len() as int) =~= wanted);
}

/// The ranges of matches were not iterated over.
proof fn lemma_matches_fresh(
    parameters: ParametersView,
    entries: Seq<CpuIdEntry>,
    from: u32,
    i: int,
)
    requires
        0 <= i < matches_from(parameters, entries, from).len(),
    ensures
        !matches_from(parameters, entries, from)[i].range.exhausted,
    decreases entries.len(),
{
    if entries.len() > 0 {
        if !entry_matches(parameters, entries[0]) {
            lemma_matches_fresh(parameters, entries.drop_first(), from, i);
        } else {
            let at = entries[0].index;
            lemma_matches_behind(parameters, entries.drop_first(), at);
            let skipped: int = if from < at {
                2
            } else {
                1
            };
            if i >= skipped {
                lemma_matches_fresh(
                    parameters,
                    entries.drop_first(),
                    (at + 1) as u32,
                    i - skipped,
                );
            }
        }
    }
}

/// Appends the adjustments for all descriptions.
fn push_definitions<const N: usize>(
    adjustments: &mut Vec<(Parameters, CpuidOutputRegisterAdjustments)>,
    definitions: &CpuidDefinitions<N>,
    entries: &[CpuIdEntry],
)
    requires
        definitions.wf(),
    ensures
        crate::arch::cpu_profile::adjustment_views(final(adjustments)@)
            == crate::arch::cpu_profile::adjustment_views(old(adjustments)@) + all_adjustments(
            definitions@,
            entries@,
        ),
{
    let ghost before = crate::arch::cpu_profile::adjustment_views(adjustments@);
    let mut i: usize = 0;
    assert(definitions@.take(0) =~= Seq::empty());
    assert(before + all_adjustments(Seq::empty(), entries@) =~= before);
    while i < N
        invariant
            0 <= i <= N,
            definitions.wf(),
            crate::arch::cpu_profile::adjustment_views(adjustments@) == before + all_adjustments(
                definitions@.take(i as int),
                entries@,
            ),
        decreases N - i,
    {
        let ghost so_far = definitions@.take(i as int);
        assert(definitions@.take(i + 1).drop_last() =~= so_far);
        assert(definitions@.take(i + 1).last() == definitions@[i as int]);
        assert(crate::arch::cpuid_definitions::definition_wf(definitions.0@[i as int]));
        push_definition(adjustments, &definitions.0[i], entries);
        assert(before + all_adjustments(so_far, entries@) + definition_adjustments(
            definitions@[i as int],
            entries@,
        ) =~= before + all_adjustments(definitions@.take(i + 1), entries@));
        i = i + 1;
    }
    assert(definitions@.take(N as int) =~= definitions@);
}

/// The ranges of adjustments were not iterated over.
proof fn lemma_adjustments_fresh(
    definitions: Seq<RegisterDefinition>,
    entries: Seq<CpuIdEntry>,
    i: int,
)
    requires
        0 <= i < all_adjustments(definitions, entries).len(),
    ensures
        !all_adjustments(definitions, entries)[i].0.sub_leaf.exhausted,
    decreases definitions.len(),
{
    if definitions.len() > 0 {
        let others = all_adjustments(definitions.drop_last(), entries);
        let parameters = definitions.last().parameters;
        if i < others.len() {
            lemma_adjustments_fresh(definitions.drop_last(), entries, i);
        } else {
            lemma_matches_fresh(parameters, entries, parameters.sub_leaf.start, i - others.len());
        }
    }
}

/// Generates the data of a profile from the CPUID data of a host, sorted by leaf and
/// sub-leaf: the adjustments that the descriptions ask for, first those of the
/// processor and then those of the hypervisor, and the host's own data, adjusted.
pub fn generate_cpu_profile_data_with<const N: usize, const M: usize>(
    hypervisor_type: HypervisorType,
    cpu_vendor: CpuVendor,
    supported_cpuid_sorted: Vec<CpuIdEntry>,
    processor_cpuid_definitions: &CpuidDefinitions<N>,
    hypervisor_cpuid_definitions: &CpuidDefinitions<M>,
) -> (data: CpuProfileData)
    requires
        processor_cpuid_definitions.wf(),
        hypervisor_cpuid_definitions.wf(),
    ensures
        data.hypervisor == hypervisor_type,
        data.cpu_vendor == cpu_vendor,
        data.wf(),
        crate::arch::cpu_profile::adjustment_views(data.adjustments@) == all_adjustments(
            processor_cpuid_definitions@,
            supported_cpuid_sorted@,
        ) + all_adjustments(hypervisor_cpuid_definitions@, supported_cpuid_sorted@),
        data.compatibility_target@ == supported_cpuid_sorted@.map_values(
            |entry: CpuIdEntry|
                crate::arch::cpu_profile::adjusted_entry(
                    entry,
                    crate::arch::cpu_profile::adjustment_views(data.adjustments@),
                ),
        ),
{
    let mut adjustments: Vec<(Parameters, CpuidOutputRegisterAdjustments)> = Vec::new();
    assert(crate::arch::cpu_profile::adjustment_views(adjustments@) =~= Seq::empty());
    push_definitions(
        &mut adjustments,
        processor_cpuid_definitions,
        supported_cpuid_sorted.as_slice(),
    );
    push_definitions(
        &mut adjustments,
        hypervisor_cpuid_definitions,
        supported_cpuid_sorted.as_slice(),
    );
    assert(crate::arch::cpu_profile::adjustment_views(adjustments@) =~= all_adjustments(
        processor_cpuid_definitions@,
        supported_cpuid_sorted@,
    ) + all_adjustments(hypervisor_cpuid_definitions@, supported_cpuid_sorted@));
    proof {
        let entries = supported_cpuid_sorted@;
        let ours = all_adjustments(processor_cpuid_definitions@, entries);
        assert forall|i: int| 0 <= i < adjustments@.len() implies (
        #[trigger] adjustments@[i]).0.wf() by {
            let views = crate::arch::cpu_profile::adjustment_views(adjustments@);
            assert(views[i].0 == adjustments@[i].0@);
            if i < ours.len() {
                lemma_adjustments_fresh(processor_cpuid_definitions@, entries, i);
            } else {
                lemma_adjustments_fresh(hypervisor_cpuid_definitions@, entries, i - ours.len());
            }
        }
    }
    let compatibility_target: Vec<CpuIdEntry> =
        CpuidOutputRegisterAdjustments::adjust_cpuid_entries(
        supported_cpuid_sorted,
        adjustments.as_slice(),
    );
    CpuProfileData { hypervisor: hypervisor_type, cpu_vendor, adjustments, compatibility_target }
}

} // verus!
