//! What holds of generated profiles, wherever they are used.

use vstd::prelude::*;

use crate::arch::cpu_profile::CpuidOutputRegisterAdjustments;
use crate::arch::cpu_profile_generation::SubLeafMatch;
use crate::arch::cpuid::{CpuIdEntry, CpuidReg};
use crate::arch::cpuid_definitions::{
    ParametersView, ProfilePolicy, RegisterDefinition, ValueDefinition,
};

verus! {

/// Entries in the order of their leaves and sub-leaves, one for each.
pub open spec fn entries_strictly_sorted(entries: Seq<CpuIdEntry>) -> bool {
    forall|i: int, j: int|
        0 <= i < j < entries.len() ==> {
            ||| (#[trigger] entries[i]).function < (#[trigger] entries[j]).function
            ||| entries[i].function == entries[j].function && entries[i].index < entries[j].index
        }
}

/// What `register` holds in the first entry for `function` and `index`, where there is
/// one.
pub open spec fn register_value(
    entries: Seq<CpuIdEntry>,
    function: u32,
    index: u32,
    register: CpuidReg,
) -> Option<u32>
    decreases entries.len(),
{
    if entries.len() == 0 {
        None
    } else if entries[0].function == function && entries[0].index == index {
        Some(entries[0].spec_register(register))
    } else {
        register_value(entries.drop_first(), function, index, register)
    }
}

/// `matches` cover the sub-leaves from `from` to `end`, each once and in order.
pub open spec fn matches_cover(matches: Seq<SubLeafMatch>, from: u32, end: u32) -> bool {
    &&& matches.len() > 0
    &&& matches[0].range.start == from
    &&& matches.last().range.end == end
    &&& forall|i: int|
        0 <= i < matches.len() ==> (#[trigger] matches[i]).range.start <= matches[i].range.end
            && !matches[i].range.exhausted
    &&& forall|i: int, j: int|
        0 <= i < matches.len() && j == i + 1 && j < matches.len() ==> (
        #[trigger] matches[i]).range.end + 1 == (#[trigger] matches[j]).range.start
}

/// A match with a value is one sub-leaf, with the value of its entry; one without a
/// value has no entry.
pub open spec fn match_true(
    m: SubLeafMatch,
    parameters: ParametersView,
    entries: Seq<CpuIdEntry>,
) -> bool {
    match m.value {
        Some(value) => m.range.start == m.range.end && register_value(
            entries,
            parameters.leaf,
            m.range.start,
            parameters.register,
        ) == Some(value),
        None => forall|index: u32|
            m.range.start <= index <= m.range.end ==> (#[trigger] register_value(
                entries,
                parameters.leaf,
                index,
                parameters.register,
            )) is None,
    }
}

/// Every match tells the truth.
pub open spec fn matches_true(
    matches: Seq<SubLeafMatch>,
    parameters: ParametersView,
    entries: Seq<CpuIdEntry>,
) -> bool {
    forall|i: int|
        0 <= i < matches.len() ==> match_true(#[trigger] matches[i], parameters, entries)
}

/// Entries behind the first are for later leaves and sub-leaves.
proof fn lemma_tail(entries: Seq<CpuIdEntry>)
    requires
        entries.len() > 0,
        entries_strictly_sorted(entries),
    ensures
        entries_strictly_sorted(entries.drop_first()),
        forall|i: int|
            0 <= i < entries.drop_first().len() ==> {
                ||| entries[0].function < (#[trigger] entries.drop_first()[i]).function
                ||| entries[0].function == entries.drop_first()[i].function && entries[0].index
                    < entries.drop_first()[i].index
            },
{
    let rest = entries.drop_first();
    assert forall|i: int, j: int| 0 <= i < j < rest.len() implies {
        ||| (#[trigger] rest[i]).function < (#[trigger] rest[j]).function
        ||| rest[i].function == rest[j].function && rest[i].index < rest[j].index
    } by {
        assert(rest[i] == entries[i + 1]);
        assert(rest[j] == entries[j + 1]);
    }
    assert forall|i: int| 0 <= i < rest.len() implies {
        ||| entries[0].function < (#[trigger] rest[i]).function
        ||| entries[0].function == rest[i].function && entries[0].index < rest[i].index
    } by {
        assert(rest[i] == entries[i + 1]);
    }
}

/// There is no value for a sub-leaf that all entries of its leaf lie behind.
proof fn lemma_no_value_before(
    entries: Seq<CpuIdEntry>,
    function: u32,
    index: u32,
    register: CpuidReg,
)
    requires
        forall|i: int|
            0 <= i < entries.len() ==> (#[trigger] entries[i]).function != function
                || entries[i].index > index,
    ensures
        register_value(entries, function, index, register) is None,
    decreases entries.len(),
{
    if entries.len() > 0 {
        let rest = entries.drop_first();
        assert forall|i: int| 0 <= i < rest.len() implies (#[trigger] rest[i]).function != function
            || rest[i].index > index by {
            assert(rest[i] == entries[i + 1]);
        }
        lemma_no_value_before(rest, function, index, register);
    }
}

/// The matches from some sub-leaf on cover what is left of the range, and tell the
/// truth about it.
proof fn lemma_matches_from(parameters: ParametersView, entries: Seq<CpuIdEntry>, from: u32)
    requires
        entries_strictly_sorted(entries),
        !parameters.sub_leaf.exhausted,
        parameters.sub_leaf.start <= from <= parameters.sub_leaf.end,
        forall|i: int|
            0 <= i < entries.len() && crate::arch::cpu_profile_generation::entry_matches(
                parameters,
                #[trigger] entries[i],
            ) ==> entries[i].index >= from,
    ensures
        matches_cover(
            crate::arch::cpu_profile_generation::matches_from(parameters, entries, from),
            from,
            parameters.sub_leaf.end,
        ),
        matches_true(
            crate::arch::cpu_profile_generation::matches_from(parameters, entries, from),
            parameters,
            entries,
        ),
        forall|i: int|
            0 <= i < crate::arch::cpu_profile_generation::matches_from(
                parameters,
                entries,
                from,
            ).len() ==> (#[trigger] crate::arch::cpu_profile_generation::matches_from(
                parameters,
                entries,
                from,
            )[i]).range.start >= from,
    decreases entries.len(),
{
    let matches = crate::arch::cpu_profile_generation::matches_from(parameters, entries, from);
    let leaf = parameters.leaf;
    let register = parameters.register;
    if entries.len() == 0 {
    } else {
        let rest = entries.drop_first();
        let first = entries[0];
        lemma_tail(entries);
        if !crate::arch::cpu_profile_generation::entry_matches(parameters, first) {
            assert forall|i: int|
                0 <= i < rest.len() && crate::arch::cpu_profile_generation::entry_matches(
                    parameters,
                    #[trigger] rest[i],
                ) implies rest[i].index >= from by {
                assert(rest[i] == entries[i + 1]);
            }
            lemma_matches_from(parameters, rest, from);
            lemma_matches_within(parameters, rest, from);
            assert forall|i: int| 0 <= i < matches.len() implies match_true(
                #[trigger] matches[i],
                parameters,
                entries,
            ) by {
                let m = matches[i];
                assert(m.range.start >= from);
                assert forall|index: u32| m.range.start <= index <= m.range.end implies
                    #[trigger] register_value(entries, leaf, index, register)
                    == register_value(rest, leaf, index, register) by {
                    assert(index <= parameters.sub_leaf.end);
                }
            }
        } else {
            let at = first.index;
            assert(at >= from);
            crate::arch::cpu_profile_generation::lemma_matches_behind(parameters, rest, at);
            let gap = crate::arch::cpu_profile_generation::gap_before(from, at);
            let hit = crate::arch::cpu_profile_generation::entry_match(first, register);
            assert forall|index: u32| index < at implies #[trigger] register_value(
                entries,
                leaf,
                index,
                register,
            ) is None by {
                assert forall|i: int| 0 <= i < entries.len() implies (
                #[trigger] entries[i]).function != leaf || entries[i].index > index by {
                    if i > 0 {
                        assert(entries[i] == rest[i - 1]);
                    }
                }
                lemma_no_value_before(entries, leaf, index, register);
            }
            if at == parameters.sub_leaf.end {
                assert(matches =~= gap + seq![hit]);
                if from < at {
                    assert(matches[0] == gap[0]);
                    assert(matches[1] == hit);
                } else {
                    assert(matches[0] == hit);
                }
            } else {
                let tail = crate::arch::cpu_profile_generation::matches_from(
                    parameters,
                    rest,
                    (at + 1) as u32,
                );
                assert(matches =~= gap + seq![hit] + tail);
                lemma_matches_from(parameters, rest, (at + 1) as u32);
                lemma_matches_within(parameters, rest, (at + 1) as u32);
                let k = gap.len() as int;
                assert(matches[k] == hit);
                assert forall|i: int| k + 1 <= i < matches.len() implies #[trigger] matches[i]
                    == tail[i - k - 1] by {}
                assert forall|index: u32| index > at implies #[trigger] register_value(
                    entries,
                    leaf,
                    index,
                    register,
                ) == register_value(rest, leaf, index, register) by {}
                assert forall|i: int| 0 <= i < matches.len() implies match_true(
                #[trigger] matches[i],
                parameters,
                entries,
            ) by {
                    if i > k {
                        let m = tail[i - k - 1];
                        assert(m.range.start >= at + 1);
                        if m.value is None {
                            assert forall|index: u32|
                                m.range.start <= index <= m.range.end implies (
                            #[trigger] register_value(entries, leaf, index, register)) is None by {
                                assert(register_value(rest, leaf, index, register) is None);
                            }
                        }
                    }
                }
                assert(matches.last() == tail.last());
                assert forall|i: int, j: int|
                    0 <= i < matches.len() && j == i + 1 && j < matches.len() implies (
                #[trigger] matches[i]).range.end + 1 == (#[trigger] matches[j]).range.start by {
                    if i > k {
                        assert(matches[i] == tail[i - k - 1]);
                        assert(matches[j] == tail[j - k - 1]);
                    } else if i == k {
                        assert(matches[j] == tail[0]);
                    }
                }
            }
        }
    }
}

/// No match reaches beyond the range that is looked at.
proof fn lemma_matches_within(parameters: ParametersView, entries: Seq<CpuIdEntry>, from: u32)
    requires
        !parameters.sub_leaf.exhausted,
    ensures
        forall|i: int|
            0 <= i < crate::arch::cpu_profile_generation::matches_from(
                parameters,
                entries,
                from,
            ).len() ==> (#[trigger] crate::arch::cpu_profile_generation::matches_from(
                parameters,
                entries,
                from,
            )[i]).range.end <= parameters.sub_leaf.end,
    decreases entries.len(),
{
    if entries.len() > 0 {
        crate::arch::cpu_profile_generation::lemma_matches_behind(
            parameters,
            entries.drop_first(),
            entries[0].index,
        );
        lemma_matches_within(parameters, entries.drop_first(), from);
        if crate::arch::cpu_profile_generation::entry_matches(parameters, entries[0])
            && entries[0].index < parameters.sub_leaf.end {
            lemma_matches_within(parameters, entries.drop_first(), (entries[0].index + 1) as u32);
        }
    }
}

/// Of two neighbours at least one has a value.
pub open spec fn gaps_are_whole(matches: Seq<SubLeafMatch>) -> bool {
    forall|i: int, j: int|
        0 <= i < matches.len() && j == i + 1 && j < matches.len() ==> (
        #[trigger] matches[i]).value is Some || (#[trigger] matches[j]).value is Some
}

/// The sub-leaves between two entries are one range.
proof fn lemma_gaps_are_whole(parameters: ParametersView, entries: Seq<CpuIdEntry>, from: u32)
    ensures
        gaps_are_whole(
            crate::arch::cpu_profile_generation::matches_from(parameters, entries, from),
        ),
    decreases entries.len(),
{
    let matches = crate::arch::cpu_profile_generation::matches_from(parameters, entries, from);
    if entries.len() > 0 {
        let rest = entries.drop_first();
        if !crate::arch::cpu_profile_generation::entry_matches(parameters, entries[0]) {
            lemma_gaps_are_whole(parameters, rest, from);
        } else {
            let at = entries[0].index;
            crate::arch::cpu_profile_generation::lemma_matches_behind(parameters, rest, at);
            let k: int = if from < at {
                1
            } else {
                0
            };
            assert(matches[k].value is Some);
            if at != parameters.sub_leaf.end {
                let tail = crate::arch::cpu_profile_generation::matches_from(
                    parameters,
                    rest,
                    (at + 1) as u32,
                );
                lemma_gaps_are_whole(parameters, rest, (at + 1) as u32);
                assert(matches.len() == k + 1 + tail.len());
                assert forall|i: int| k + 1 <= i < matches.len() implies #[trigger] matches[i]
                    == tail[i - k - 1] by {}
                assert forall|i: int, j: int|
                    0 <= i < matches.len() && j == i + 1 && j < matches.len() implies (
                #[trigger] matches[i]).value is Some || (
                #[trigger] matches[j]).value is Some by {
                    if i > k {
                        assert(matches[i] == tail[i - k - 1]);
                        assert(matches[j] == tail[j - k - 1]);
                    }
                }
            }
        }
    }
}

/// The matches of a register cover its sub-leaves, each once and in order. Those that
/// have an entry stand alone, with its value; the ranges between have no entries, and
/// no two of them touch. For entries that are sorted, with one for each leaf and
/// sub-leaf.
pub proof fn law_matches_partition(parameters: ParametersView, entries: Seq<CpuIdEntry>)
    requires
        entries_strictly_sorted(entries),
        !parameters.sub_leaf.exhausted,
        parameters.sub_leaf.start <= parameters.sub_leaf.end,
    ensures
        matches_cover(
            crate::arch::cpu_profile_generation::sub_leaf_matches(parameters, entries),
            parameters.sub_leaf.start,
            parameters.sub_leaf.end,
        ),
        matches_true(
            crate::arch::cpu_profile_generation::sub_leaf_matches(parameters, entries),
            parameters,
            entries,
        ),
        gaps_are_whole(
            crate::arch::cpu_profile_generation::sub_leaf_matches(parameters, entries),
        ),
{
    lemma_matches_from(parameters, entries, parameters.sub_leaf.start);
    lemma_gaps_are_whole(parameters, entries, parameters.sub_leaf.start);
}

/// Bit `i` belongs to the field of `value`.
pub open spec fn covers(value: ValueDefinition, i: u32) -> bool {
    value.bits_range.0 <= i <= value.bits_range.1
}

/// A value that a profile sets fits into its field.
pub open spec fn overwrite_fits(value: ValueDefinition) -> bool {
    value.policy matches ProfilePolicy::Overwrite(overwrite) ==> overwrite
        <= crate::arch::cpu_profile_generation::field_mask(
        value.bits_range.0,
        value.bits_range.1,
    ) >> (value.bits_range.0 as u32)
}

/// No bit belongs to two values.
pub open spec fn fields_disjoint(values: Seq<ValueDefinition>) -> bool {
    forall|j: int, k: int, i: u32|
        0 <= j < k < values.len() && #[trigger] covers(values[j], i) ==> !(#[trigger] covers(
            values[k],
            i,
        ))
}

/// `value` sets bit `i` of the register.
spec fn sets_bit(value: ValueDefinition, target: Option<u32>, i: u32) -> bool {
    match value.policy {
        ProfilePolicy::Passthrough => false,
        ProfilePolicy::Overwrite(overwrite) => crate::arch::cpu_profile_generation::bit(
            overwrite << (value.bits_range.0 as u32),
            i,
        ),
        ProfilePolicy::Inherit => match target {
            Some(register) => covers(value, i) && crate::arch::cpu_profile_generation::bit(
                register,
                i,
            ),
            None => false,
        },
    }
}

/// `value` keeps bit `i` of the host.
spec fn keeps_bit(value: ValueDefinition, i: u32) -> bool {
    value.policy is Passthrough && covers(value, i)
}

/// Bits of combined numbers.
proof fn lemma_bits(a: u32, b: u32, i: u32)
    requires
        i < 32,
    ensures
        crate::arch::cpu_profile_generation::bit(a | b, i) == (
        crate::arch::cpu_profile_generation::bit(a, i) || crate::arch::cpu_profile_generation::bit(
            b,
            i,
        )),
        crate::arch::cpu_profile_generation::bit(a & b, i) == (
        crate::arch::cpu_profile_generation::bit(a, i) && crate::arch::cpu_profile_generation::bit(
            b,
            i,
        )),
        !crate::arch::cpu_profile_generation::bit(0, i),
{
    assert((((a | b) >> i) & 1 == 1) == ((a >> i) & 1 == 1 || (b >> i) & 1 == 1)) by (bit_vector);
    assert((((a & b) >> i) & 1 == 1) == ((a >> i) & 1 == 1 && (b >> i) & 1 == 1)) by (bit_vector);
    assert((0u32 >> i) & 1 == 0) by (bit_vector)
        requires
            i < 32,
    ;
}

/// Bits of a number that was moved to the place of its field, and that fits there.
proof fn lemma_overwrite_bits(overwrite: u32, first: u8, last: u8, i: u32)
    requires
        first <= last < 32,
        i < 32,
        overwrite <= crate::arch::cpu_profile_generation::field_mask(first, last) >> (
        first as u32),
    ensures
        crate::arch::cpu_profile_generation::bit(overwrite << (first as u32), i) == (first <= i
            <= last && crate::arch::cpu_profile_generation::bit(overwrite, (i - first) as u32)),
{
    let f = first as u32;
    let l = last as u32;
    let down = (31 - last) as u32;
    let low = ((1u32 << f) - 1) as u32;
    assert((1u32 << f) >= 1) by (bit_vector)
        requires
            f < 32,
    ;
    let mask = crate::arch::cpu_profile_generation::field_mask(first, last);
    assert((((overwrite << f) >> i) & 1 == 1) ==> f <= i && i <= l) by (bit_vector)
        requires
            f <= l,
            l < 32,
            i < 32,
            down + l == 31,
            low + 1 == (1u32 << f),
            mask == (0xFFFF_FFFFu32 >> down) & !low,
            overwrite <= mask >> f,
    ;
    if f <= i {
        let d = (i - f) as u32;
        assert((((overwrite << f) >> i) & 1 == 1) == ((overwrite >> d) & 1 == 1)) by (bit_vector)
            requires
                f <= i,
                i < 32,
                d + f == i,
        ;
    }
}

/// Bit by bit, what the values of a register make of it.
proof fn lemma_values_bits(values: Seq<ValueDefinition>, target: Option<u32>, i: u32)
    requires
        i < 32,
        forall|k: int| 0 <= k < values.len() ==> (#[trigger] values[k]).wf(),
    ensures
        crate::arch::cpu_profile_generation::bit(
            crate::arch::cpu_profile_generation::values_adjustment(values, target).mask,
            i,
        ) == exists|k: int| 0 <= k < values.len() && keeps_bit(#[trigger] values[k], i),
        crate::arch::cpu_profile_generation::bit(
            crate::arch::cpu_profile_generation::values_adjustment(values, target).replacements,
            i,
        ) == exists|k: int| 0 <= k < values.len() && sets_bit(#[trigger] values[k], target, i),
    decreases values.len(),
{
    lemma_bits(0, 0, i);
    if values.len() > 0 {
        let others = values.drop_last();
        let value = values.last();
        let n = values.len() - 1;
        assert forall|k: int| 0 <= k < others.len() implies (#[trigger] others[k]).wf() by {
            assert(others[k] == values[k]);
        }
        lemma_values_bits(others, target, i);
        assert(values[n].wf());
        let so_far = crate::arch::cpu_profile_generation::values_adjustment(others, target);
        let field = crate::arch::cpu_profile_generation::field_mask(
            value.bits_range.0,
            value.bits_range.1,
        );
        crate::arch::cpu_profile_generation::law_field_mask(
            value.bits_range.0,
            value.bits_range.1,
        );
        assert(crate::arch::cpu_profile_generation::bit(field, i) == covers(value, i));
        lemma_bits(so_far.mask, field, i);
        match value.policy {
            ProfilePolicy::Overwrite(overwrite) => {
                lemma_bits(so_far.replacements, overwrite << (value.bits_range.0 as u32), i);
            },
            ProfilePolicy::Inherit => {
                if let Some(register) = target {
                    lemma_bits(register, field, i);
                    lemma_bits(so_far.replacements, register & field, i);
                }
            },
            ProfilePolicy::Passthrough => {},
        }
        let keeps_before = exists|k: int|
            0 <= k < others.len() && keeps_bit(#[trigger] others[k], i);
        let keeps_now = exists|k: int| 0 <= k < values.len() && keeps_bit(#[trigger] values[k], i);
        assert(keeps_now == (keeps_before || keeps_bit(value, i))) by {
            if keeps_before {
                let k = choose|k: int| 0 <= k < others.len() && keeps_bit(#[trigger] others[k], i);
                assert(keeps_bit(values[k], i));
            }
            if keeps_bit(value, i) {
                assert(keeps_bit(values[n], i));
            }
            if keeps_now {
                let k = choose|k: int| 0 <= k < values.len() && keeps_bit(#[trigger] values[k], i);
                if k < n {
                    assert(keeps_bit(others[k], i));
                }
            }
        }
        let sets_before = exists|k: int|
            0 <= k < others.len() && sets_bit(#[trigger] others[k], target, i);
        let sets_now = exists|k: int|
            0 <= k < values.len() && sets_bit(#[trigger] values[k], target, i);
        assert(sets_now == (sets_before || sets_bit(value, target, i))) by {
            if sets_before {
                let k = choose|k: int|
                    0 <= k < others.len() && sets_bit(#[trigger] others[k], target, i);
                assert(sets_bit(values[k], target, i));
            }
            if sets_bit(value, target, i) {
                assert(sets_bit(values[n], target, i));
            }
            if sets_now {
                let k = choose|k: int|
                    0 <= k < values.len() && sets_bit(#[trigger] values[k], target, i);
                if k < n {
                    assert(sets_bit(others[k], target, i));
                }
            }
        }
    }
}

/// What a profile does to a value, bit by bit, wherever it is used: a value that
/// passes through is that of the host there; a value that is overwritten is the one
/// that the description gives; a value that is inherited is that of the host which the
/// profile was generated on, and zero where that host had none. For descriptions
/// whose fields do not overlap, and whose values fit into them.
pub proof fn law_policies(
    values: Seq<ValueDefinition>,
    target: Option<u32>,
    host: u32,
    k: int,
    i: u32,
)
    requires
        forall|j: int| 0 <= j < values.len() ==> (#[trigger] values[j]).wf() && overwrite_fits(
            values[j],
        ),
        fields_disjoint(values),
        0 <= k < values.len(),
        covers(values[k], i),
    ensures
        crate::arch::cpu_profile_generation::bit(
            crate::arch::cpu_profile_generation::values_adjustment(values, target).spec_adjust(
                host,
            ),
            i,
        ) == match values[k].policy {
            ProfilePolicy::Passthrough => crate::arch::cpu_profile_generation::bit(host, i),
            ProfilePolicy::Overwrite(overwrite) => crate::arch::cpu_profile_generation::bit(
                overwrite,
                (i - values[k].bits_range.0) as u32,
            ),
            ProfilePolicy::Inherit => match target {
                Some(register) => crate::arch::cpu_profile_generation::bit(register, i),
                None => false,
            },
        },
{
    assert(values[k].wf());
    let adjustment = crate::arch::cpu_profile_generation::values_adjustment(values, target);
    lemma_values_bits(values, target, i);
    lemma_bits(host, adjustment.mask, i);
    lemma_bits(host & adjustment.mask, adjustment.replacements, i);
    assert forall|j: int| 0 <= j < values.len() && j != k implies !keeps_bit(
        #[trigger] values[j],
        i,
    ) && !sets_bit(values[j], target, i) by {
        assert(values[j].wf() && overwrite_fits(values[j]));
        assert(!covers(values[j], i));
        if let ProfilePolicy::Overwrite(overwrite) = values[j].policy {
            lemma_overwrite_bits(
                overwrite,
                values[j].bits_range.0,
                values[j].bits_range.1,
                i,
            );
        }
    }
    assert(overwrite_fits(values[k]));
    if let ProfilePolicy::Overwrite(overwrite) = values[k].policy {
        lemma_overwrite_bits(overwrite, values[k].bits_range.0, values[k].bits_range.1, i);
    }
    assert(keeps_bit(values[k], i) == (exists|j: int|
        0 <= j < values.len() && keeps_bit(#[trigger] values[j], i)));
    assert(sets_bit(values[k], target, i) == (exists|j: int|
        0 <= j < values.len() && sets_bit(#[trigger] values[j], target, i)));
}

/// A bit that no description covers is cleared, wherever the profile is used. For
/// descriptions whose values fit into their fields.
pub proof fn law_undescribed_bits_are_cleared(
    values: Seq<ValueDefinition>,
    target: Option<u32>,
    host: u32,
    i: u32,
)
    requires
        i < 32,
        forall|j: int|
            0 <= j < values.len() ==> (#[trigger] values[j]).wf() && overwrite_fits(values[j])
                && !covers(values[j], i),
    ensures
        !crate::arch::cpu_profile_generation::bit(
            crate::arch::cpu_profile_generation::values_adjustment(values, target).spec_adjust(
                host,
            ),
            i,
        ),
{
    let adjustment = crate::arch::cpu_profile_generation::values_adjustment(values, target);
    lemma_values_bits(values, target, i);
    lemma_bits(host, adjustment.mask, i);
    lemma_bits(host & adjustment.mask, adjustment.replacements, i);
    assert forall|j: int| 0 <= j < values.len() implies !keeps_bit(#[trigger] values[j], i)
        && !sets_bit(values[j], target, i) by {
        if let ProfilePolicy::Overwrite(overwrite) = values[j].policy {
            lemma_overwrite_bits(
                overwrite,
                values[j].bits_range.0,
                values[j].bits_range.1,
                i,
            );
        }
    }
}

/// The first of `matches` that holds `index`.
spec fn first_match(matches: Seq<SubLeafMatch>, index: u32) -> Option<Option<u32>>
    decreases matches.len(),
{
    if matches.len() == 0 {
        None
    } else if crate::arch::cpuid_definitions::range_contains(matches[0].range, index) {
        Some(matches[0].value)
    } else {
        first_match(matches.drop_first(), index)
    }
}

/// Searching two lists is searching the first and then the second.
proof fn lemma_first_match_concat(one: Seq<SubLeafMatch>, two: Seq<SubLeafMatch>, index: u32)
    ensures
        first_match(one + two, index) == (if first_match(one, index) is Some {
            first_match(one, index)
        } else {
            first_match(two, index)
        }),
    decreases one.len(),
{
    if one.len() == 0 {
        assert(one + two =~= two);
    } else {
        assert((one + two).drop_first() =~= one.drop_first() + two);
        lemma_first_match_concat(one.drop_first(), two, index);
    }
}

/// The match of a sub-leaf tells what its entry holds.
proof fn lemma_first_match(
    parameters: ParametersView,
    entries: Seq<CpuIdEntry>,
    from: u32,
    index: u32,
)
    requires
        crate::arch::cpu_profile_generation::entries_sorted(entries),
        !parameters.sub_leaf.exhausted,
        parameters.sub_leaf.start <= from <= index <= parameters.sub_leaf.end,
    ensures
        first_match(
            crate::arch::cpu_profile_generation::matches_from(parameters, entries, from),
            index,
        ) == Some(register_value(entries, parameters.leaf, index, parameters.register)),
    decreases entries.len(),
{
    let matches = crate::arch::cpu_profile_generation::matches_from(parameters, entries, from);
    if entries.len() > 0 {
        let rest = entries.drop_first();
        let first = entries[0];
        assert(crate::arch::cpu_profile_generation::entries_sorted(rest)) by {
            assert forall|i: int, j: int| 0 <= i <= j < rest.len() implies
                crate::arch::cpu_profile_generation::entry_le(rest[i], rest[j]) by {
                assert(rest[i] == entries[i + 1]);
                assert(rest[j] == entries[j + 1]);
            }
        }
        if !crate::arch::cpu_profile_generation::entry_matches(parameters, first) {
            lemma_first_match(parameters, rest, from, index);
        } else {
            let at = first.index;
            let gap = crate::arch::cpu_profile_generation::gap_before(from, at);
            let hit = seq![
                crate::arch::cpu_profile_generation::entry_match(first, parameters.register),
            ];
            let tail = crate::arch::cpu_profile_generation::matches_behind(parameters, rest, at);
            assert(matches == gap + hit + tail);
            lemma_first_match_concat(gap + hit, tail, index);
            lemma_first_match_concat(gap, hit, index);
            assert(gap.len() > 0 ==> first_match(gap.drop_first(), index) is None);
            assert(first_match(hit.drop_first(), index) is None);
            if index < at {
                assert forall|i: int| 0 <= i < entries.len() implies (
                #[trigger] entries[i]).function != parameters.leaf || entries[i].index > index by {
                    assert(crate::arch::cpu_profile_generation::entry_le(entries[0], entries[i]));
                }
                lemma_no_value_before(entries, parameters.leaf, index, parameters.register);
            } else if index > at {
                lemma_first_match(parameters, rest, (at + 1) as u32, index);
            }
        }
    } else {
        assert(matches.len() == 1);
    }
}

/// Some adjustment in the list speaks of the register.
spec fn any_match(
    adjustments: Seq<(ParametersView, CpuidOutputRegisterAdjustments)>,
    function: u32,
    index: u32,
    register: CpuidReg,
) -> bool
    decreases adjustments.len(),
{
    adjustments.len() > 0 && (crate::arch::cpu_profile::parameters_match(
        adjustments[0].0,
        function,
        index,
        register,
    ) || any_match(adjustments.drop_first(), function, index, register))
}

/// Searching two lists of adjustments is searching the first and then the second.
proof fn lemma_find_concat(
    one: Seq<(ParametersView, CpuidOutputRegisterAdjustments)>,
    two: Seq<(ParametersView, CpuidOutputRegisterAdjustments)>,
    function: u32,
    index: u32,
    register: CpuidReg,
)
    ensures
        crate::arch::cpu_profile::find_adjustment(one + two, function, index, register) == (
        if any_match(one, function, index, register) {
            crate::arch::cpu_profile::find_adjustment(one, function, index, register)
        } else {
            crate::arch::cpu_profile::find_adjustment(two, function, index, register)
        }),
        any_match(one + two, function, index, register) == (any_match(
            one,
            function,
            index,
            register,
        ) || any_match(two, function, index, register)),
    decreases one.len(),
{
    if one.len() == 0 {
        assert(one + two =~= two);
    } else {
        assert((one + two).drop_first() =~= one.drop_first() + two);
        lemma_find_concat(one.drop_first(), two, function, index, register);
    }
}

/// The adjustments for the matches of one description are found as the matches are.
proof fn lemma_find_definition(
    definition: RegisterDefinition,
    matches: Seq<SubLeafMatch>,
    function: u32,
    index: u32,
    register: CpuidReg,
)
    ensures
        ({
            let adjustments = matches.map_values(
                |m: SubLeafMatch|
                    (
                        ParametersView { sub_leaf: m.range, ..definition.parameters },
                        crate::arch::cpu_profile_generation::values_adjustment(
                            definition.values,
                            m.value,
                        ),
                    ),
            );
            let wanted = definition.parameters.leaf == function
                && definition.parameters.register == register;
            &&& any_match(adjustments, function, index, register) == (wanted && first_match(
                matches,
                index,
            ) is Some)
            &&& wanted && first_match(matches, index) is Some
                ==> crate::arch::cpu_profile::find_adjustment(
                adjustments,
                function,
                index,
                register,
            ) == crate::arch::cpu_profile_generation::values_adjustment(
                definition.values,
                first_match(matches, index).unwrap(),
            )
        }),
    decreases matches.len(),
{
    let f = |m: SubLeafMatch|
        (
            ParametersView { sub_leaf: m.range, ..definition.parameters },
            crate::arch::cpu_profile_generation::values_adjustment(definition.values, m.value),
        );
    let adjustments = matches.map_values(f);
    if matches.len() > 0 {
        assert(adjustments.drop_first() =~= matches.drop_first().map_values(f));
        lemma_find_definition(definition, matches.drop_first(), function, index, register);
    }
}

/// A sub-leaf outside the range has no match.
proof fn lemma_no_match_outside(
    parameters: ParametersView,
    entries: Seq<CpuIdEntry>,
    from: u32,
    index: u32,
)
    requires
        !parameters.sub_leaf.exhausted,
        parameters.sub_leaf.start <= from,
        !crate::arch::cpuid_definitions::range_contains(parameters.sub_leaf, index),
    ensures
        first_match(
            crate::arch::cpu_profile_generation::matches_from(parameters, entries, from),
            index,
        ) is None,
    decreases entries.len(),
{
    let matches = crate::arch::cpu_profile_generation::matches_from(parameters, entries, from);
    if entries.len() > 0 {
        let rest = entries.drop_first();
        if !crate::arch::cpu_profile_generation::entry_matches(parameters, entries[0]) {
            lemma_no_match_outside(parameters, rest, from, index);
        } else {
            let at = entries[0].index;
            let gap = crate::arch::cpu_profile_generation::gap_before(from, at);
            let hit = seq![
                crate::arch::cpu_profile_generation::entry_match(entries[0], parameters.register),
            ];
            let tail = crate::arch::cpu_profile_generation::matches_behind(parameters, rest, at);
            assert(matches == gap + hit + tail);
            lemma_first_match_concat(gap + hit, tail, index);
            lemma_first_match_concat(gap, hit, index);
            assert(gap.len() > 0 ==> first_match(gap.drop_first(), index) is None);
            assert(first_match(hit.drop_first(), index) is None);
            if at != parameters.sub_leaf.end {
                lemma_no_match_outside(parameters, rest, (at + 1) as u32, index);
            }
        }
    } else {
        assert(first_match(matches.drop_first(), index) is None);
    }
}

/// The adjustments for a list of descriptions, searched.
proof fn lemma_find_all(
    definitions: Seq<RegisterDefinition>,
    entries: Seq<CpuIdEntry>,
    d: int,
    function: u32,
    index: u32,
    register: CpuidReg,
)
    requires
        crate::arch::cpu_profile_generation::entries_sorted(entries),
        forall|j: int|
            0 <= j < definitions.len() ==> !(
            #[trigger] definitions[j]).parameters.sub_leaf.exhausted,
        0 <= d <= definitions.len(),
        forall|j: int|
            0 <= j < d ==> !crate::arch::cpu_profile::parameters_match(
                (#[trigger] definitions[j]).parameters,
                function,
                index,
                register,
            ),
        d < definitions.len() ==> crate::arch::cpu_profile::parameters_match(
            definitions[d].parameters,
            function,
            index,
            register,
        ),
    ensures
        ({
            let adjustments = crate::arch::cpu_profile_generation::all_adjustments(
                definitions,
                entries,
            );
            &&& any_match(adjustments, function, index, register) == (d < definitions.len())
            &&& d < definitions.len() ==> crate::arch::cpu_profile::find_adjustment(
                adjustments,
                function,
                index,
                register,
            ) == crate::arch::cpu_profile_generation::values_adjustment(
                definitions[d].values,
                register_value(entries, function, index, register),
            )
        }),
    decreases definitions.len(),
{
    if definitions.len() > 0 {
        let n = definitions.len() - 1;
        let others = definitions.drop_last();
        let last = definitions.last();
        assert(last == definitions[n]);
        assert forall|j: int| 0 <= j < others.len() implies !(
        #[trigger] others[j]).parameters.sub_leaf.exhausted by {
            assert(others[j] == definitions[j]);
        }
        assert forall|j: int| 0 <= j < d && j < others.len() implies
            !crate::arch::cpu_profile::parameters_match(
            (#[trigger] others[j]).parameters,
            function,
            index,
            register,
        ) by {
            assert(others[j] == definitions[j]);
        }
        let e: int = if d < n {
            d
        } else {
            n as int
        };
        assert(d < n ==> others[d] == definitions[d]);
        lemma_find_all(others, entries, e, function, index, register);
        let matches = crate::arch::cpu_profile_generation::sub_leaf_matches(
            last.parameters,
            entries,
        );
        lemma_find_concat(
            crate::arch::cpu_profile_generation::all_adjustments(others, entries),
            crate::arch::cpu_profile_generation::definition_adjustments(last, entries),
            function,
            index,
            register,
        );
        lemma_find_definition(last, matches, function, index, register);
        if d >= n {
            if crate::arch::cpuid_definitions::range_contains(last.parameters.sub_leaf, index) {
                lemma_first_match(
                    last.parameters,
                    entries,
                    last.parameters.sub_leaf.start,
                    index,
                );
            } else {
                lemma_no_match_outside(
                    last.parameters,
                    entries,
                    last.parameters.sub_leaf.start,
                    index,
                );
            }
        }
    }
}

/// A generated profile treats a register, on every host, by the first description
/// that speaks of it: it is adjusted as the values of that description ask for, with
/// what the register holds in the entries that the profile was generated from. Those
/// entries are sorted; where several are for one leaf and sub-leaf, the first counts.
pub proof fn law_profile_follows_description(
    definitions: Seq<RegisterDefinition>,
    entries: Seq<CpuIdEntry>,
    host: CpuIdEntry,
    d: int,
    register: CpuidReg,
)
    requires
        crate::arch::cpu_profile_generation::entries_sorted(entries),
        forall|j: int|
            0 <= j < definitions.len() ==> !(
            #[trigger] definitions[j]).parameters.sub_leaf.exhausted,
        0 <= d < definitions.len(),
        crate::arch::cpu_profile::parameters_match(
            definitions[d].parameters,
            host.function,
            host.index,
            register,
        ),
        forall|j: int|
            0 <= j < d ==> !crate::arch::cpu_profile::parameters_match(
                (#[trigger] definitions[j]).parameters,
                host.function,
                host.index,
                register,
            ),
    ensures
        crate::arch::cpu_profile::adjusted_register(
            host,
            crate::arch::cpu_profile_generation::all_adjustments(definitions, entries),
            register,
        ) == crate::arch::cpu_profile_generation::values_adjustment(
            definitions[d].values,
            register_value(entries, host.function, host.index, register),
        ).spec_adjust(host.spec_register(register)),
{
    lemma_find_all(definitions, entries, d, host.function, host.index, register);
}

/// A list that speaks of no such register has no adjustment for it but the one that
/// clears it.
proof fn lemma_find_nothing(
    adjustments: Seq<(ParametersView, CpuidOutputRegisterAdjustments)>,
    function: u32,
    index: u32,
    register: CpuidReg,
)
    requires
        !any_match(adjustments, function, index, register),
    ensures
        crate::arch::cpu_profile::find_adjustment(adjustments, function, index, register) == (
        CpuidOutputRegisterAdjustments { mask: 0, replacements: 0 }),
    decreases adjustments.len(),
{
    if adjustments.len() > 0 {
        lemma_find_nothing(adjustments.drop_first(), function, index, register);
    }
}

/// Hosts that use one generated profile agree, whatever their CPUs: on every leaf and
/// sub-leaf, every bit of every register is the same on both, but for the bits that
/// the first description of the register lets pass through.
pub proof fn law_hosts_agree(
    definitions: Seq<RegisterDefinition>,
    entries: Seq<CpuIdEntry>,
    one: CpuIdEntry,
    other: CpuIdEntry,
    register: CpuidReg,
    d: int,
    i: u32,
)
    requires
        crate::arch::cpu_profile_generation::entries_sorted(entries),
        forall|j: int|
            0 <= j < definitions.len() ==> !(
            #[trigger] definitions[j]).parameters.sub_leaf.exhausted,
        one.function == other.function,
        one.index == other.index,
        i < 32,
        0 <= d <= definitions.len(),
        forall|j: int|
            0 <= j < d ==> !crate::arch::cpu_profile::parameters_match(
                (#[trigger] definitions[j]).parameters,
                one.function,
                one.index,
                register,
            ),
        d < definitions.len() ==> crate::arch::cpu_profile::parameters_match(
            definitions[d].parameters,
            one.function,
            one.index,
            register,
        ),
        d < definitions.len() ==> forall|k: int|
            0 <= k < definitions[d].values.len() ==> (#[trigger] definitions[d].values[k]).wf()
                && !(definitions[d].values[k].policy is Passthrough && covers(
                definitions[d].values[k],
                i,
            )),
    ensures
        ({
            let adjustments = crate::arch::cpu_profile_generation::all_adjustments(
                definitions,
                entries,
            );
            crate::arch::cpu_profile_generation::bit(
                crate::arch::cpu_profile::adjusted_register(one, adjustments, register),
                i,
            ) == crate::arch::cpu_profile_generation::bit(
                crate::arch::cpu_profile::adjusted_register(other, adjustments, register),
                i,
            )
        }),
{
    let adjustments = crate::arch::cpu_profile_generation::all_adjustments(definitions, entries);
    lemma_find_all(definitions, entries, d, one.function, one.index, register);
    let adjustment = crate::arch::cpu_profile::find_adjustment(
        adjustments,
        one.function,
        one.index,
        register,
    );
    lemma_bits(0, 0, i);
    if d < definitions.len() {
        let target = register_value(entries, one.function, one.index, register);
        lemma_values_bits(definitions[d].values, target, i);
    } else {
        lemma_find_nothing(adjustments, one.function, one.index, register);
    }
    let a = one.spec_register(register);
    let b = other.spec_register(register);
    lemma_bits(a, adjustment.mask, i);
    lemma_bits(b, adjustment.mask, i);
    lemma_bits(a & adjustment.mask, adjustment.replacements, i);
    lemma_bits(b & adjustment.mask, adjustment.replacements, i);
}

/// A profile that is generated from two lists of descriptions is the one that is
/// generated from the two lists as one.
pub proof fn law_descriptions_concatenate(
    processor: Seq<RegisterDefinition>,
    hypervisor: Seq<RegisterDefinition>,
    entries: Seq<CpuIdEntry>,
)
    ensures
        crate::arch::cpu_profile_generation::all_adjustments(processor + hypervisor, entries)
            == crate::arch::cpu_profile_generation::all_adjustments(processor, entries)
            + crate::arch::cpu_profile_generation::all_adjustments(hypervisor, entries),
    decreases hypervisor.len(),
{
    let whole = processor + hypervisor;
    let left = crate::arch::cpu_profile_generation::all_adjustments(processor, entries);
    if hypervisor.len() == 0 {
        assert(whole =~= processor);
        assert(left + crate::arch::cpu_profile_generation::all_adjustments(hypervisor, entries)
            =~= left);
    } else {
        law_descriptions_concatenate(processor, hypervisor.drop_last(), entries);
        assert(whole.drop_last() =~= processor + hypervisor.drop_last());
        assert(crate::arch::cpu_profile_generation::all_adjustments(whole, entries) =~= left
            + crate::arch::cpu_profile_generation::all_adjustments(hypervisor, entries));
    }
}

/// What a register holds for a leaf and a sub-leaf is what the first entry for them says,
/// and nothing where no entry is for them.
pub proof fn law_register_value(entries: Seq<CpuIdEntry>, function: u32, index: u32, m: int)
    ensures
        0 <= m < entries.len() && entries[m].function == function && entries[m].index == index && (
        forall|j: int|
            0 <= j < m ==> (#[trigger] entries[j]).function != function || entries[j].index
                != index) ==> {
            &&& register_value(entries, function, index, CpuidReg::EAX) == Some(entries[m].eax)
            &&& register_value(entries, function, index, CpuidReg::EBX) == Some(entries[m].ebx)
            &&& register_value(entries, function, index, CpuidReg::ECX) == Some(entries[m].ecx)
            &&& register_value(entries, function, index, CpuidReg::EDX) == Some(entries[m].edx)
        },
        (forall|j: int|
            0 <= j < entries.len() ==> (#[trigger] entries[j]).function != function
                || entries[j].index != index) ==> forall|register: CpuidReg|
            register_value(entries, function, index, register) is None,
    decreases entries.len(),
{
    if entries.len() > 0 {
        let rest = entries.drop_first();
        law_register_value(rest, function, index, m - 1);
        if 0 < m < entries.len() && entries[m].function == function && entries[m].index == index && (
        forall|j: int|
            0 <= j < m ==> (#[trigger] entries[j]).function != function || entries[j].index
                != index) {
            assert(entries[0].function != function || entries[0].index != index);
            assert(rest[m - 1] == entries[m]);
            assert forall|j: int| 0 <= j < m - 1 implies (#[trigger] rest[j]).function != function
                || rest[j].index != index by {
                assert(rest[j] == entries[j + 1]);
            }
        }
        if forall|j: int|
            0 <= j < entries.len() ==> (#[trigger] entries[j]).function != function
                || entries[j].index != index {
            assert(entries[0].function != function || entries[0].index != index);
            assert forall|j: int| 0 <= j < rest.len() implies (#[trigger] rest[j]).function
                != function || rest[j].index != index by {
                assert(rest[j] == entries[j + 1]);
            }
        }
    }
}

/// A generated profile, from the description to the entries of a host. Take the first
/// description that is for the leaf, the sub-leaf and a register of the host's entry, and
/// a bit of one of its values. In the adjusted entry that bit of that register is the
/// host's, where the value passes through; the one that the description sets, where it is
/// overwritten; and the one that the first entry for this leaf and sub-leaf had when the
/// profile was generated, where it is inherited, or zero where there was none. For
/// descriptions whose fields do not overlap, and whose values fit into them.
pub proof fn law_generated_profile(
    definitions: Seq<RegisterDefinition>,
    entries: Seq<CpuIdEntry>,
    host: CpuIdEntry,
    d: int,
    k: int,
    i: u32,
)
    requires
        crate::arch::cpu_profile_generation::entries_sorted(entries),
        forall|j: int|
            0 <= j < definitions.len() ==> !(
            #[trigger] definitions[j]).parameters.sub_leaf.exhausted,
        0 <= d < definitions.len(),
        definitions[d].parameters.leaf == host.function,
        definitions[d].parameters.sub_leaf.start <= host.index
            <= definitions[d].parameters.sub_leaf.end,
        forall|j: int|
            0 <= j < d ==> !((#[trigger] definitions[j]).parameters.leaf == host.function
                && definitions[j].parameters.sub_leaf.start <= host.index
                <= definitions[j].parameters.sub_leaf.end && definitions[j].parameters.register
                == definitions[d].parameters.register),
        forall|j: int|
            0 <= j < definitions[d].values.len() ==> (#[trigger] definitions[d].values[j]).wf()
                && overwrite_fits(definitions[d].values[j]),
        fields_disjoint(definitions[d].values),
        0 <= k < definitions[d].values.len(),
        definitions[d].values[k].bits_range.0 <= i <= definitions[d].values[k].bits_range.1,
    ensures
        ({
            let register = definitions[d].parameters.register;
            let value = definitions[d].values[k];
            let profile = crate::arch::cpu_profile_generation::all_adjustments(
                definitions,
                entries,
            );
            let adjusted = crate::arch::cpu_profile::adjusted_entry(host, profile);
            let seen = match register {
                CpuidReg::EAX => adjusted.eax,
                CpuidReg::EBX => adjusted.ebx,
                CpuidReg::ECX => adjusted.ecx,
                CpuidReg::EDX => adjusted.edx,
            };
            let own = match register {
                CpuidReg::EAX => host.eax,
                CpuidReg::EBX => host.ebx,
                CpuidReg::ECX => host.ecx,
                CpuidReg::EDX => host.edx,
            };
            ((seen >> i) & 1 == 1) == match value.policy {
                ProfilePolicy::Passthrough => (own >> i) & 1 == 1,
                ProfilePolicy::Overwrite(overwrite) => (overwrite >> ((i
                    - value.bits_range.0) as u32)) & 1 == 1,
                ProfilePolicy::Inherit => match register_value(
                    entries,
                    host.function,
                    host.index,
                    register,
                ) {
                    Some(stored) => (stored >> i) & 1 == 1,
                    None => false,
                },
            }
        }),
{
    let register = definitions[d].parameters.register;
    assert forall|j: int| 0 <= j < d implies !crate::arch::cpu_profile::parameters_match(
        (#[trigger] definitions[j]).parameters,
        host.function,
        host.index,
        register,
    ) by {}
    law_profile_follows_description(definitions, entries, host, d, register);
    let profile = crate::arch::cpu_profile_generation::all_adjustments(definitions, entries);
    crate::arch::cpu_profile::law_registers_are_adjusted_apart(host, profile);
    assert(crate::arch::cpu_profile::adjusted_entry(host, profile).spec_register(register)
        == crate::arch::cpu_profile::adjusted_register(host, profile, register));
    law_policies(
        definitions[d].values,
        register_value(entries, host.function, host.index, register),
        host.spec_register(register),
        k,
        i,
    );
}

/// Descriptions are seen one by one, as they are.
pub proof fn law_definitions_as_they_are<const N: usize>(
    definitions: crate::arch::cpuid_definitions::CpuidDefinitions<N>,
    i: int,
)
    requires
        0 <= i < N,
    ensures
        definitions@.len() == N,
        definitions@[i].parameters.leaf == definitions.0@[i].0.leaf,
        definitions@[i].parameters.sub_leaf == definitions.0@[i].0.sub_leaf@,
        definitions@[i].parameters.register == definitions.0@[i].0.register,
        definitions@[i].values == definitions.0@[i].1@,
{
}

/// A generated profile clears the bits that no value of a description covers, and every
/// register that no description is for. For descriptions whose values fit into their
/// fields.
pub proof fn law_generated_profile_clears(
    definitions: Seq<RegisterDefinition>,
    entries: Seq<CpuIdEntry>,
    host: CpuIdEntry,
    register: CpuidReg,
    d: int,
    i: u32,
)
    requires
        crate::arch::cpu_profile_generation::entries_sorted(entries),
        forall|j: int|
            0 <= j < definitions.len() ==> !(
            #[trigger] definitions[j]).parameters.sub_leaf.exhausted,
        i < 32,
        0 <= d <= definitions.len(),
        forall|j: int|
            0 <= j < d ==> !((#[trigger] definitions[j]).parameters.leaf == host.function
                && definitions[j].parameters.sub_leaf.start <= host.index
                <= definitions[j].parameters.sub_leaf.end && definitions[j].parameters.register
                == register),
        d < definitions.len() ==> {
            &&& definitions[d].parameters.leaf == host.function
            &&& definitions[d].parameters.sub_leaf.start <= host.index
                <= definitions[d].parameters.sub_leaf.end
            &&& definitions[d].parameters.register == register
            &&& forall|j: int|
                0 <= j < definitions[d].values.len() ==> (
                #[trigger] definitions[d].values[j]).wf() && overwrite_fits(
                    definitions[d].values[j],
                ) && !(definitions[d].values[j].bits_range.0 <= i
                    <= definitions[d].values[j].bits_range.1)
        },
    ensures
        ({
            let profile = crate::arch::cpu_profile_generation::all_adjustments(
                definitions,
                entries,
            );
            let adjusted = crate::arch::cpu_profile::adjusted_entry(host, profile);
            let seen = match register {
                CpuidReg::EAX => adjusted.eax,
                CpuidReg::EBX => adjusted.ebx,
                CpuidReg::ECX => adjusted.ecx,
                CpuidReg::EDX => adjusted.edx,
            };
            (seen >> i) & 1 == 0
        }),
{
    let profile = crate::arch::cpu_profile_generation::all_adjustments(definitions, entries);
    let own = host.spec_register(register);
    assert forall|j: int| 0 <= j < d implies !crate::arch::cpu_profile::parameters_match(
        (#[trigger] definitions[j]).parameters,
        host.function,
        host.index,
        register,
    ) by {}
    crate::arch::cpu_profile::law_registers_are_adjusted_apart(host, profile);
    assert(crate::arch::cpu_profile::adjusted_entry(host, profile).spec_register(register)
        == crate::arch::cpu_profile::adjusted_register(host, profile, register));
    let result = crate::arch::cpu_profile::adjusted_register(host, profile, register);
    if d < definitions.len() {
        law_profile_follows_description(definitions, entries, host, d, register);
        law_undescribed_bits_are_cleared(
            definitions[d].values,
            register_value(entries, host.function, host.index, register),
            own,
            i,
        );
    } else {
        lemma_find_all(definitions, entries, d, host.function, host.index, register);
        lemma_find_nothing(profile, host.function, host.index, register);
        assert((own & 0u32) | 0u32 == 0) by (bit_vector);
        lemma_bits(0, 0, i);
    }
    assert(!crate::arch::cpu_profile_generation::bit(result, i));
    assert((result >> i) & 1 == 0 || (result >> i) & 1 == 1) by (bit_vector);
}

} // verus!
