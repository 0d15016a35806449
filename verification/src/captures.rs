//! The span of a match, and the flat buffer of slots that holds the spans of
//! all capture groups of one match.

use crate::engine::{
    captures_of, engine_captures_len, engine_locations, engine_locations_pos,
    engine_read_captures_at, location_groups,
};
use crate::pattern::Regex;
use regex::bytes::Locations;
use core::ops::Deref;
use vstd::prelude::*;

verus! {

/// The half-open byte range `[start, end)` of a match in its haystack.
#[allow(non_camel_case_types)]
#[derive(Clone, Copy, Debug, PartialEq, Eq, Structural)]
pub struct rure_match {
    pub start: usize,
    pub end: usize,
}

/// The slots of one match: slot `2 * i` is the start of group `i` and slot
/// `2 * i + 1` its end, each unset where the group took no part.
pub struct Captures(Vec<Option<usize>>);

impl View for Captures {
    type V = Seq<Option<usize>>;

    closed spec fn view(&self) -> Seq<Option<usize>> {
        self.0@
    }
}

/// `n` groups, all unset.
pub open spec fn unset_slots(groups: nat) -> Seq<Option<usize>> {
    Seq::new(2 * groups, |j: int| None::<usize>)
}

/// The span of group `i` in a sequence of slots: both of its slots, if both
/// are set.
pub open spec fn group_of(slots: Seq<Option<usize>>, i: int) -> Option<rure_match> {
    if 0 <= i && 2 * i + 1 < slots.len() {
        match (slots[2 * i], slots[2 * i + 1]) {
            (Some(start), Some(end)) => Some(rure_match { start, end }),
            _ => None,
        }
    } else {
        None
    }
}

/// The two slots of one group.
pub open spec fn slot_of(group: Option<(usize, usize)>, odd: bool) -> Option<usize> {
    match group {
        Some((start, end)) => Some(
            if odd {
                end
            } else {
                start
            },
        ),
        None => None,
    }
}

/// The slots that hold a sequence of groups: two per group, start then end.
pub open spec fn flatten(groups: Seq<Option<(usize, usize)>>) -> Seq<Option<usize>> {
    Seq::new(2 * groups.len(), |j: int| slot_of(groups[j / 2], j % 2 == 1))
}

/// The groups that a search with captures finds at or after `start`; none
/// begins beyond the end of the haystack.
pub open spec fn captures_at(re: &Regex, haystack: Seq<u8>, start: usize) -> Option<
    Seq<Option<(usize, usize)>>,
> {
    if start <= haystack.len() {
        captures_of(re.engine(), haystack, start)
    } else {
        None
    }
}

impl Captures {
    /// Whether the buffer has two slots for each capture group of `re`, as a
    /// buffer that was made for `re` has.
    pub fn fits(&self, re: &Regex) -> (r: bool)
        ensures
            r == (self@.len() == 2 * re.group_count()),
    {
        let groups = engine_captures_len(re.deref());
        let len = self.0.len();
        len % 2 == 0 && len / 2 == groups
    }

    /// Copies the groups that the engine left in its locations into the slots.
    pub(crate) fn load(&mut self, locs: &Locations)
        requires
            old(self)@.len() == 2 * location_groups(*locs).len(),
        ensures
            final(self)@ == flatten(location_groups(*locs)),
    {
        let ghost groups = location_groups(*locs);
        let n = self.0.len() / 2;
        let mut i: usize = 0;
        while i < n
            invariant
                i <= n,
                n == groups.len(),
                groups == location_groups(*locs),
                self@.len() == 2 * n,
                forall|j: int| 0 <= j < 2 * i ==> self@[j] == flatten(groups)[j],
            decreases n - i,
        {
            let group = engine_locations_pos(locs, i);
            self.set_group(i, group);
            i += 1;
        }
        assert(self@ =~= flatten(groups));
    }

    /// Sets both slots of group `i`, or unsets both.
    pub fn set_group(&mut self, i: usize, group: Option<(usize, usize)>)
        requires
            2 * i + 1 < old(self)@.len(),
        ensures
            final(self)@ == old(self)@.update(2 * i, slot_of(group, false)).update(
                2 * i + 1,
                slot_of(group, true),
            ),
    {
        let len = self.0.len();
        assert(2 * i + 1 < len);
        match group {
            Some((start, end)) => {
                self.0[2 * i] = Some(start);
                self.0[2 * i + 1] = Some(end);
            },
            None => {
                self.0[2 * i] = None;
                self.0[2 * i + 1] = None;
            },
        }
    }
}

/// A buffer for the groups of `re`: two unset slots for each.
pub fn rure_captures_new(re: &Regex) -> (c: Captures)
    ensures
        c@ == unset_slots(re.group_count()),
{
    let n = engine_captures_len(re.deref());
    let mut slots: Vec<Option<usize>> = Vec::new();
    let mut i: usize = 0;
    while i < n
        invariant
            i <= n,
            slots@.len() == 2 * i,
            forall|j: int| 0 <= j < slots@.len() ==> slots@[j] is None,
        decreases n - i,
    {
        slots.push(None);
        slots.push(None);
        i += 1;
    }
    assert(slots@ =~= unset_slots(re.group_count()));
    Captures(slots)
}

/// The span of group `i`, if the group is there and both of its slots are set.
pub fn rure_captures_at(captures: &Captures, i: usize) -> (r: Option<rure_match>)
    ensures
        r == group_of(captures@, i as int),
{
    if i >= captures.0.len() / 2 {
        return None;
    }
    match (captures.0[i * 2], captures.0[i * 2 + 1]) {
        (Some(start), Some(end)) => Some(rure_match { start, end }),
        _ => None,
    }
}

/// The number of groups that the buffer holds: half the number of its slots.
pub fn rure_captures_len(captures: &Captures) -> (r: usize)
    ensures
        r == captures@.len() / 2,
{
    captures.0.len() / 2
}

/// Searches as [`crate::pattern::rure_find`] does, and finds a match exactly
/// when that does. On a match the buffer is filled with the spans of all
/// groups, and its first group is the match that `rure_find` finds. Without a
/// match the buffer is left as it was. The buffer is one that was made for
/// this pattern.
pub fn rure_find_captures(re: &Regex, haystack: &[u8], start: usize, captures: &mut Captures) -> (r:
    bool)
    requires
        old(captures)@.len() == 2 * re.group_count(),
    ensures
        r == re.find_at(haystack@, start).is_some(),
        r == re.is_match_at(haystack@, start),
        match captures_at(re, haystack@, start) {
            Some(groups) => r && final(captures)@ == flatten(groups),
            None => !r && final(captures)@ == old(captures)@,
        },
        r ==> group_of(final(captures)@, 0) == re.find_at(haystack@, start),
        final(captures)@.len() == old(captures)@.len(),
{
    if start > haystack.len() {
        return false;
    }
    let mut locs = engine_locations(re.deref());
    match engine_read_captures_at(re.deref(), &mut locs, haystack, start) {
        None => false,
        Some(_) => {
            captures.load(&locs);
            proof {
                lemma_group_of_flatten(location_groups(locs), 0);
            }
            true
        },
    }
}

/// Reading group `i` out of the slots that hold a sequence of groups gives
/// that group back.
pub proof fn lemma_group_of_flatten(groups: Seq<Option<(usize, usize)>>, i: int)
    requires
        0 <= i < groups.len(),
    ensures
        group_of(flatten(groups), i) == match groups[i] {
            Some((start, end)) => Some(rure_match { start, end }),
            None => None,
        },
{
    assert((2 * i) / 2 == i && (2 * i + 1) / 2 == i && (2 * i) % 2 == 0 && (2 * i + 1) % 2 == 1);
}

/// A buffer of unset slots holds no group.
pub proof fn lemma_unset_slots_hold_no_group(groups: nat, i: int)
    ensures
        unset_slots(groups).len() == 2 * groups,
        group_of(unset_slots(groups), i) is None,
{
}

} // verus!
