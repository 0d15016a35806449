//! The cursor over the names of a pattern's capture groups.

use crate::captures::unset_slots;
use crate::engine::engine_capture_names;
use crate::names::name_views;
use crate::pattern::Regex;
use core::ops::Deref;
use vstd::prelude::*;

verus! {

/// A cursor over the names of the capture groups of one pattern, in group
/// order. The names are copied when the cursor is made, so the cursor may
/// outlive the pattern.
pub struct IterCaptureNames {
    names: Vec<Option<String>>,
    next: usize,
}

/// What the cursor hands out for a group: its name, or the empty string for a
/// group without one.
pub open spec fn name_or_empty(name: Option<Seq<char>>) -> Seq<char> {
    match name {
        Some(n) => n,
        None => Seq::empty(),
    }
}

/// One step of a cursor that stands at `position` in `names`: the name it
/// hands out, if a group is left, and where it stands afterwards.
pub open spec fn next_name(names: Seq<Option<Seq<char>>>, position: nat) -> (
    Option<Seq<char>>,
    nat,
) {
    if position < names.len() {
        (Some(name_or_empty(names[position as int])), position + 1)
    } else {
        (None, position)
    }
}

/// The names that the first `n` steps of a cursor hand out, or all of them if
/// it is exhausted earlier.
pub open spec fn handed_out(names: Seq<Option<Seq<char>>>, position: nat, n: nat) -> Seq<
    Seq<char>,
>
    decreases n,
{
    if n == 0 {
        Seq::empty()
    } else {
        match next_name(names, position) {
            (Some(name), next) => seq![name] + handed_out(names, next, (n - 1) as nat),
            (None, _) => Seq::empty(),
        }
    }
}

impl IterCaptureNames {
    /// The names that the cursor walks, one entry per group.
    pub closed spec fn names(&self) -> Seq<Option<Seq<char>>> {
        name_views(self.names@)
    }

    /// The number of names handed out so far.
    pub closed spec fn position(&self) -> nat {
        self.next as nat
    }
}

/// A cursor at the first group of `re`, which is the unnamed whole match.
pub fn rure_iter_capture_names_new(re: &Regex) -> (it: IterCaptureNames)
    ensures
        it.names() == re.group_names(),
        it.position() == 0,
{
    IterCaptureNames { names: engine_capture_names(re.deref()), next: 0 }
}

/// Hands out the name of the next group and moves on: the name of a named
/// group, the empty string for an unnamed one. Once every group has been
/// visited it hands out `None` and the cursor stays where it is.
pub fn rure_iter_capture_names_next(it: &mut IterCaptureNames) -> (r: Option<String>)
    ensures
        final(it).names() == old(it).names(),
        final(it).position() == next_name(old(it).names(), old(it).position()).1,
        match next_name(old(it).names(), old(it).position()).0 {
            Some(name) => r is Some && r.unwrap()@ == name,
            None => r is None,
        },
{
    if it.next >= it.names.len() {
        return None;
    }
    let name = match &it.names[it.next] {
        Some(name) => name.clone(),
        None => String::new(),
    };
    it.next += 1;
    Some(name)
}

/// A cursor that is advanced often enough hands out one name for each group
/// that is left, in group order, and nothing more.
pub proof fn lemma_handed_out_all(names: Seq<Option<Seq<char>>>, position: nat, n: nat)
    requires
        position <= names.len(),
        n >= names.len() - position,
    ensures
        handed_out(names, position, n) == Seq::new(
            (names.len() - position) as nat,
            |i: int| name_or_empty(names[position + i]),
        ),
    decreases n,
{
    let all = Seq::new(
        (names.len() - position) as nat,
        |i: int| name_or_empty(names[position + i]),
    );
    if position < names.len() {
        lemma_handed_out_all(names, position + 1, (n - 1) as nat);
    }
    assert(handed_out(names, position, n) =~= all);
}

/// A fresh buffer for a pattern holds as many groups as a fresh cursor over
/// the pattern's names hands out names, the unnamed whole match included.
pub proof fn lemma_captures_len_is_names_handed_out(re: Regex, n: nat)
    requires
        n >= re.group_count(),
    ensures
        unset_slots(re.group_count()).len() / 2 == handed_out(re.group_names(), 0, n).len(),
{
    lemma_handed_out_all(re.group_names(), 0, n);
}

} // verus!
