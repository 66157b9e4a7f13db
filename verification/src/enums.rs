//! Values and representation of enums.
//!
//! Entries without a value of their own get the value of the entry before them plus
//! one; an enum is then taken for a set of flags where its values collide or are
//! mostly powers of two, unless they form one unbroken run.

use vstd::prelude::*;
use std::collections::HashSet;
use crate::api_parser::ApiParser;
use crate::model::{Enum, EnumEntry, EnumType};

verus! {

broadcast use vstd::std_specs::hash::group_hash_axioms;

/// The value that marks an entry as having no value of its own.
pub const UNASSIGNED: u64 = u64::MAX;

/// Whether the values form one unbroken run that counts up from the first.
pub open spec fn is_sequential(values: Seq<u64>) -> bool {
    values.len() > 0 && forall|i: int| 0 <= i < values.len() ==> #[trigger] values[i] == values[0] + i
}

/// Whether two entries share a value.
pub open spec fn is_overlapping(values: Seq<u64>) -> bool {
    exists|i: int, j: int| 0 <= i < j < values.len() && values[i] == values[j]
}

/// Whether exactly one bit of `value` is set.
pub open spec fn is_power_of_two(value: u64) -> bool {
    value != 0 && value & ((value - 1) as u64) == 0
}

/// How many of the values are powers of two.
pub open spec fn power_of_two_count(values: Seq<u64>) -> nat
    decreases values.len(),
{
    if values.len() == 0 {
        0
    } else {
        power_of_two_count(values.drop_last()) + if is_power_of_two(values.last()) {
            1nat
        } else {
            0nat
        }
    }
}

/// Whether more than half of the values are powers of two.
pub open spec fn is_power_of_two_majority(values: Seq<u64>) -> bool {
    2 * power_of_two_count(values) > values.len()
}

/// The representation of an enum with these values.
pub open spec fn enum_type_of(values: Seq<u64>) -> EnumType {
    if is_sequential(values) && !is_overlapping(values) {
        EnumType::Regular
    } else if is_power_of_two_majority(values) || is_overlapping(values) {
        EnumType::Bitflags
    } else {
        EnumType::Regular
    }
}

/// Values that form one unbroken run never collide: an enum with such values is an
/// ordinary enumeration.
pub proof fn lemma_sequential_is_regular(values: Seq<u64>)
    requires
        is_sequential(values),
    ensures
        !is_overlapping(values),
        enum_type_of(values) == EnumType::Regular,
{
    assert forall|i: int, j: int| 0 <= i < j < values.len() implies values[i] != values[j] by {
        assert(values[i] == values[0] + i);
        assert(values[j] == values[0] + j);
    }
}

/// The value of entry `i` where `raw` holds the values as written, with
/// [`UNASSIGNED`] for an entry without one: its own value, or one more than the
/// value of the entry before it, or zero for the first.
pub open spec fn assigned_value(raw: Seq<u64>, i: int) -> int
    decreases i,
{
    if i < 0 || i >= raw.len() {
        0
    } else if raw[i] != UNASSIGNED {
        raw[i] as int
    } else if i == 0 {
        0
    } else {
        assigned_value(raw, i - 1) + 1
    }
}

/// The first entry whose value would not stay below [`UNASSIGNED`], from `i` on;
/// the number of entries where every value does.
pub open spec fn first_unassignable(raw: Seq<u64>, i: int) -> int
    decreases raw.len() - i,
{
    if i < 0 || i >= raw.len() {
        raw.len() as int
    } else if assigned_value(raw, i) >= UNASSIGNED {
        i
    } else {
        first_unassignable(raw, i + 1)
    }
}

/// Whether every one of the values is a value proper: none is [`UNASSIGNED`].
pub open spec fn all_assigned(values: Seq<u64>) -> bool {
    forall|i: int| 0 <= i < values.len() ==> #[trigger] values[i] != UNASSIGNED
}

/// The values of `entries`, in order.
pub open spec fn values_of(entries: Seq<EnumEntry>) -> Seq<u64> {
    Seq::new(entries.len(), |i: int| entries[i].value)
}

/// No entry is given a negative value.
pub proof fn lemma_assigned_nonnegative(raw: Seq<u64>, i: int)
    ensures
        0 <= assigned_value(raw, i),
    decreases i,
{
    if 0 < i < raw.len() && raw[i] == UNASSIGNED {
        lemma_assigned_nonnegative(raw, i - 1);
    }
}

/// No entry before the first unassignable one is unassignable.
pub proof fn lemma_first_unassignable(raw: Seq<u64>, i: int)
    requires
        0 <= i <= raw.len(),
    ensures
        i <= first_unassignable(raw, i) <= raw.len(),
        forall|k: int| i <= k < first_unassignable(raw, i) ==> assigned_value(raw, k) < UNASSIGNED,
        first_unassignable(raw, i) < raw.len() ==> assigned_value(raw, first_unassignable(raw, i))
            >= UNASSIGNED,
    decreases raw.len() - i,
{
    if i < raw.len() && assigned_value(raw, i) < UNASSIGNED {
        lemma_first_unassignable(raw, i + 1);
    }
}

impl ApiParser {
    /// Gives every entry its value. Returns the index of the first entry that cannot
    /// get one, because the values below [`UNASSIGNED`] are used up; the entries from
    /// that one on are left as they were.
    pub fn assign_values(entries: &mut Vec<EnumEntry>) -> (stuck: Option<usize>)
        ensures
            final(entries)@.len() == old(entries)@.len(),
            match stuck {
                Some(at) => at < old(entries)@.len() && at == first_unassignable(
                    values_of(old(entries)@),
                    0,
                ),
                None => first_unassignable(values_of(old(entries)@), 0) == old(entries)@.len(),
            },
            forall|i: int|
                0 <= i < old(entries)@.len() ==> (#[trigger] final(entries)@[i]).name == old(
                    entries,
                )@[i].name && final(entries)@[i].doc_comments == old(entries)@[i].doc_comments,
            forall|i: int|
                0 <= i < first_unassignable(values_of(old(entries)@), 0) ==> (
                #[trigger] final(entries)@[i]).value == assigned_value(values_of(old(entries)@), i),
            forall|i: int|
                first_unassignable(values_of(old(entries)@), 0) <= i < old(entries)@.len() ==> (
                #[trigger] final(entries)@[i]).value == old(entries)@[i].value,
    {
        let ghost raw = values_of(entries@);
        let n = entries.len();
        let mut counter: u64 = 0;
        let mut i: usize = 0;
        while i < n
            invariant
                i <= n,
                n == entries@.len(),
                n == old(entries)@.len(),
                raw == values_of(old(entries)@),
                first_unassignable(raw, i as int) == first_unassignable(raw, 0),
                counter == (if i == 0 {
                    0
                } else {
                    assigned_value(raw, i - 1) + 1
                }),
                forall|k: int|
                    0 <= k < n ==> (#[trigger] entries@[k]).name == old(entries)@[k].name
                        && entries@[k].doc_comments == old(entries)@[k].doc_comments,
                forall|k: int|
                    0 <= k < i ==> (#[trigger] entries@[k]).value == assigned_value(raw, k),
                forall|k: int| i <= k < n ==> (#[trigger] entries@[k]).value == raw[k],
            decreases n - i,
        {
            assert(entries@[i as int].value == raw[i as int]);
            if entries[i].value == UNASSIGNED {
                if counter == UNASSIGNED {
                    proof {
                        lemma_first_unassignable(raw, i as int);
                    }
                    return Some(i);
                }
                entries[i].value = counter;
                counter = counter + 1;
            } else {
                counter = entries[i].value + 1;
            }
            i += 1;
        }
        None
    }

    /// Whether the values of the enum form one unbroken run.
    pub fn check_sequential(enum_def: &Enum) -> (res: bool)
        ensures
            res == is_sequential(enum_def@.values()),
    {
        let ghost values = enum_def@.values();
        let n = enum_def.entries.len();
        if n == 0 {
            return false;
        }
        let mut current: u64 = enum_def.entries[0].value;
        let mut i: usize = 0;
        while i < n
            invariant
                0 < n,
                i <= n,
                n == enum_def.entries@.len(),
                values == enum_def@.values(),
                i < n ==> current == values[0] + i,
                forall|k: int| 0 <= k < i ==> #[trigger] values[k] == values[0] + k,
            decreases n - i,
        {
            if enum_def.entries[i].value != current {
                assert(values[i as int] != values[0] + i);
                return false;
            }
            i += 1;
            if i < n {
                if current == u64::MAX {
                    assert(values[i as int] != values[0] + i);
                    return false;
                }
                current = current + 1;
            }
        }
        true
    }

    /// Whether two entries of the enum share a value.
    pub fn check_overlapping(enum_def: &Enum) -> (res: bool)
        ensures
            res == is_overlapping(enum_def@.values()),
    {
        let ghost values = enum_def@.values();
        let mut seen = HashSet::<u64>::new();
        let n = enum_def.entries.len();
        let mut i: usize = 0;
        while i < n
            invariant
                i <= n,
                n == enum_def.entries@.len(),
                values == enum_def@.values(),
                forall|v: u64|
                    seen@.contains(v) <==> exists|k: int| 0 <= k < i && #[trigger] values[k] == v,
                forall|a: int, b: int| 0 <= a < b < i ==> values[a] != values[b],
            decreases n - i,
        {
            let value = enum_def.entries[i].value;
            assert(values[i as int] == value);
            if seen.contains(&value) {
                let ghost k = choose|k: int| 0 <= k < i && #[trigger] values[k] == value;
                assert(0 <= k < i < values.len() && values[k] == values[i as int]);
                return true;
            } else {
                seen.insert(value);
            }
            i += 1;
        }
        false
    }

    /// Whether more than half of the values of the enum are powers of two.
    pub fn check_power_of_two(enum_def: &Enum) -> (res: bool)
        ensures
            res == is_power_of_two_majority(enum_def@.values()),
    {
        let ghost values = enum_def@.values();
        let n = enum_def.entries.len();
        let mut count: usize = 0;
        let mut i: usize = 0;
        while i < n
            invariant
                i <= n,
                n == enum_def.entries@.len(),
                values == enum_def@.values(),
                count == power_of_two_count(values.take(i as int)),
                count <= i,
            decreases n - i,
        {
            let value = enum_def.entries[i].value;
            assert(values.take(i + 1).drop_last() =~= values.take(i as int));
            assert(values.take(i + 1).last() == value);
            if value != 0 && value & (value - 1) == 0 {
                count += 1;
            }
            i += 1;
        }
        assert(values.take(n as int) =~= values);
        count > n - count
    }

    /// The representation of the enum: an ordinary enumeration where its values form
    /// one unbroken run without a collision; else a set of flags where two values
    /// collide or more than half of them are powers of two; else an ordinary
    /// enumeration.
    pub fn determine_enum_type(enum_def: &Enum) -> (res: EnumType)
        ensures
            res == enum_type_of(enum_def@.values()),
    {
        let sequential = Self::check_sequential(enum_def);
        let overlapping = Self::check_overlapping(enum_def);
        let power_of_two = Self::check_power_of_two(enum_def);
        if sequential && !overlapping {
            return EnumType::Regular;
        }
        if power_of_two || overlapping {
            EnumType::Bitflags
        } else {
            EnumType::Regular
        }
    }
}

} // verus!
