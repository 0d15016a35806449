//! The cursor over the successive matches of a pattern in a haystack.
//!
//! A cursor remembers where the next search starts and where the last match
//! ended. Each advance asks the engine for the next match and moves on; an
//! empty match that ends where the last match ended is passed over.

use crate::captures::{flatten, group_of, lemma_group_of_flatten, rure_match, Captures};
use crate::engine::{
    captures_of, engine_find_at, engine_locations, engine_read_captures_at, find_of,
    location_groups,
};
use crate::pattern::Regex;
use core::ops::Deref;
use vstd::prelude::*;

verus! {

/// What a cursor remembers: the offset at which the next search starts, and
/// the end of the last match that a search reported, if any.
pub struct Cursor {
    pub last_end: int,
    pub last_match: Option<usize>,
}

/// An emitted match: its span, and the offset at which the search that found
/// it started.
pub struct Emission {
    pub at: int,
    pub span: rure_match,
}

/// What one search does to a cursor.
#[derive(Clone, Copy, Debug, PartialEq, Eq, Structural)]
pub enum Step {
    /// The engine found nothing: the cursor is exhausted.
    Done,
    /// The engine found an empty match where the last match ended: it is
    /// passed over, and the search goes on one byte further.
    Skip,
    /// The match is handed to the caller.
    Emit(rure_match),
}

/// The last match ended no later than where the next search starts.
pub open spec fn cursor_wf(c: Cursor) -> bool {
    c.last_match matches Some(m) ==> m <= c.last_end
}

/// The cursor of a fresh iterator.
pub open spec fn cursor_start() -> Cursor {
    Cursor { last_end: 0, last_match: None }
}

/// One transition of a cursor on what the engine found at `last_end`.
///
/// Nothing found: done. A match that is not empty is emitted and the next
/// search starts at its end. An empty match moves the next search one byte
/// past it, and is emitted unless it ends where the last match ended.
pub open spec fn advance_spec(c: Cursor, found: Option<(usize, usize)>) -> (Step, Cursor) {
    match found {
        None => (Step::Done, c),
        Some((s, e)) => if s != e {
            (
                Step::Emit(rure_match { start: s, end: e }),
                Cursor { last_end: e as int, last_match: Some(e) },
            )
        } else if c.last_match == Some(e) {
            (Step::Skip, Cursor { last_end: e + 1, last_match: c.last_match })
        } else {
            (
                Step::Emit(rure_match { start: s, end: e }),
                Cursor { last_end: e + 1, last_match: Some(e) },
            )
        },
    }
}

/// A whole advance of a cursor over a haystack of length `len`, where
/// `finder` says what a search that starts at an offset finds: the match that
/// is emitted, if any, and the cursor afterwards.
///
/// A cursor beyond the end of the haystack is exhausted, and so is one whose
/// search finds nothing, or anything but a range of the haystack at or after
/// the offset at which it started. Searches repeat while they are passed over.
pub open spec fn next_from(
    finder: spec_fn(int) -> Option<(usize, usize)>,
    len: int,
    c: Cursor,
) -> (Option<Emission>, Cursor)
    decreases len + 1 - c.last_end,
{
    if c.last_end > len {
        (None, c)
    } else {
        let found = finder(c.last_end);
        if found matches Some((s, e)) && !(c.last_end <= s <= e <= len) {
            (None, c)
        } else {
            let (step, next) = advance_spec(c, found);
            match step {
                Step::Done => (None, next),
                Step::Emit(span) => (Some(Emission { at: c.last_end, span }), next),
                Step::Skip => next_from(finder, len, next),
            }
        }
    }
}

/// What a plain search of `re` in `haystack` finds from each offset.
pub open spec fn find_from(re: &Regex, haystack: Seq<u8>) -> spec_fn(int) -> Option<
    (usize, usize),
> {
    |at: int|
        if 0 <= at <= haystack.len() {
            find_of(re.engine(), haystack, at as usize)
        } else {
            None
        }
}

/// The first `n` matches that a cursor emits, or all of them if there are
/// fewer.
pub open spec fn emissions(
    finder: spec_fn(int) -> Option<(usize, usize)>,
    len: int,
    c: Cursor,
    n: nat,
) -> Seq<Emission>
    decreases n,
{
    if n == 0 {
        Seq::empty()
    } else {
        let (r, next) = next_from(finder, len, c);
        match r {
            None => Seq::empty(),
            Some(em) => seq![em] + emissions(finder, len, next, (n - 1) as nat),
        }
    }
}

/// A cursor over the matches of one pattern. The pattern is borrowed, not
/// owned.
pub struct Iter<'a> {
    re: &'a Regex,
    last_end: usize,
    last_match: Option<usize>,
}

impl<'a> Iter<'a> {
    #[verifier::type_invariant]
    spec fn inv(&self) -> bool {
        cursor_wf(self.cursor())
    }

    /// The pattern that this cursor searches with.
    pub closed spec fn regex(&self) -> &Regex {
        self.re
    }

    /// What this cursor remembers.
    pub closed spec fn cursor(&self) -> Cursor {
        Cursor { last_end: self.last_end as int, last_match: self.last_match }
    }

    /// The offset at which the next search starts.
    pub fn last_end(&self) -> (r: usize)
        ensures
            r == self.cursor().last_end,
    {
        self.last_end
    }

    /// The end of the last match that a search reported.
    pub fn last_match(&self) -> (r: Option<usize>)
        ensures
            r == self.cursor().last_match,
            cursor_wf(self.cursor()),
    {
        proof {
            use_type_invariant(self);
        }
        self.last_match
    }

    /// Moves the cursor on what the engine found at `last_end`, and says what
    /// becomes of the match.
    pub fn advance(&mut self, found: Option<(usize, usize)>) -> (step: Step)
        requires
            found matches Some((s, e)) ==> s != e || e < usize::MAX,
        ensures
            (step, final(self).cursor()) == advance_spec(old(self).cursor(), found),
            final(self).regex() == old(self).regex(),
    {
        match found {
            None => Step::Done,
            Some((s, e)) => {
                if s != e {
                    *self = Iter { re: self.re, last_end: e, last_match: Some(e) };
                    Step::Emit(rure_match { start: s, end: e })
                } else if self.last_match == Some(e) {
                    self.last_end = e + 1;
                    Step::Skip
                } else {
                    *self = Iter { re: self.re, last_end: e + 1, last_match: Some(e) };
                    Step::Emit(rure_match { start: s, end: e })
                }
            },
        }
    }
}

/// A cursor at the start: the next search starts at offset 0 and no match has
/// been reported.
pub fn rure_iter_new<'a>(re: &'a Regex) -> (it: Iter<'a>)
    ensures
        it.regex() == re,
        it.cursor() == cursor_start(),
{
    Iter { re, last_end: 0, last_match: None }
}

/// Advances the cursor to the next match in `haystack` and hands it out, or
/// `None` when the cursor is exhausted.
///
/// The cursor never moves backwards and moves forwards with every match; a
/// match that is handed out ends after the last match that a search reported.
/// The haystack is shorter than the largest `usize`, as every slice in memory
/// is, so that the cursor can stand one byte past its end.
pub fn rure_iter_next(it: &mut Iter, haystack: &[u8]) -> (r: Option<rure_match>)
    requires
        haystack@.len() < usize::MAX,
    ensures
        final(it).regex() == old(it).regex(),
        ({
            let next = next_from(
                find_from(old(it).regex(), haystack@),
                haystack@.len() as int,
                old(it).cursor(),
            );
            &&& final(it).cursor() == next.1
            &&& r == match next.0 {
                Some(em) => Some(em.span),
                None => None,
            }
        }),
        old(it).cursor().last_end <= final(it).cursor().last_end,
        r matches Some(m) ==> {
            &&& old(it).cursor().last_end <= m.start <= m.end <= haystack@.len()
            &&& old(it).cursor().last_end < final(it).cursor().last_end
            &&& final(it).cursor().last_match == Some(m.end)
            &&& old(it).cursor().last_match matches Some(p) ==> p < m.end
        },
{
    let ghost finder = find_from(it.regex(), haystack@);
    let ghost len = haystack@.len() as int;
    proof {
        use_type_invariant(&*it);
    }
    loop
        invariant
            haystack@.len() < usize::MAX,
            len == haystack@.len(),
            it.regex() == old(it).regex(),
            cursor_wf(old(it).cursor()),
            finder == find_from(it.regex(), haystack@),
            next_from(finder, len, it.cursor()) == next_from(finder, len, old(it).cursor()),
        decreases len + 1 - it.cursor().last_end,
    {
        proof {
            lemma_next_from_progress(finder, len, old(it).cursor());
        }
        if it.last_end > haystack.len() {
            return None;
        }
        let found = engine_find_at(it.re.deref(), haystack, it.last_end);
        match it.advance(found) {
            Step::Done => {
                return None;
            },
            Step::Emit(m) => {
                return Some(m);
            },
            Step::Skip => {},
        }
    }
}

/// Advances the cursor exactly as [`rure_iter_next`] does, with searches that
/// also find the groups: on a match the buffer holds the spans of all groups
/// of the match that is emitted, the first of which is that match, and
/// without one it is left as it was. The buffer is one that was made for the
/// cursor's pattern.
pub fn rure_iter_next_captures(it: &mut Iter, haystack: &[u8], captures: &mut Captures) -> (r: bool)
    requires
        haystack@.len() < usize::MAX,
        old(captures)@.len() == 2 * old(it).regex().group_count(),
    ensures
        final(it).regex() == old(it).regex(),
        ({
            let next = next_from(
                find_from(old(it).regex(), haystack@),
                haystack@.len() as int,
                old(it).cursor(),
            );
            &&& final(it).cursor() == next.1
            &&& match next.0 {
                Some(em) => {
                    &&& r
                    &&& captures_of(old(it).regex().engine(), haystack@, em.at as usize) is Some
                    &&& final(captures)@ == flatten(
                        captures_of(old(it).regex().engine(), haystack@, em.at as usize).unwrap(),
                    )
                    &&& group_of(final(captures)@, 0) == Some(em.span)
                },
                None => !r && final(captures)@ == old(captures)@,
            }
        }),
        final(captures)@.len() == old(captures)@.len(),
        old(it).cursor().last_end <= final(it).cursor().last_end,
        r ==> old(it).cursor().last_end < final(it).cursor().last_end,
{
    let ghost finder = find_from(it.regex(), haystack@);
    let ghost len = haystack@.len() as int;
    proof {
        use_type_invariant(&*it);
    }
    loop
        invariant
            haystack@.len() < usize::MAX,
            len == haystack@.len(),
            it.regex() == old(it).regex(),
            cursor_wf(old(it).cursor()),
            captures@ == old(captures)@,
            captures@.len() == 2 * it.regex().group_count(),
            finder == find_from(it.regex(), haystack@),
            next_from(finder, len, it.cursor()) == next_from(finder, len, old(it).cursor()),
        decreases len + 1 - it.cursor().last_end,
    {
        proof {
            lemma_next_from_progress(finder, len, old(it).cursor());
        }
        if it.last_end > haystack.len() {
            return false;
        }
        let mut locs = engine_locations(it.re.deref());
        let found = engine_read_captures_at(it.re.deref(), &mut locs, haystack, it.last_end);
        match it.advance(found) {
            Step::Done => {
                return false;
            },
            Step::Emit(_) => {
                captures.load(&locs);
                proof {
                    lemma_group_of_flatten(location_groups(locs), 0);
                }
                return true;
            },
            Step::Skip => {},
        }
    }
}

/// What one advance does to a cursor, for any engine.
///
/// The cursor stays well formed and never moves backwards. A match that is
/// emitted moves it forwards. The match was found by a search that started at
/// or after the cursor, lies at or after the start of that search and within
/// the haystack, and ends after the last match reported before; the cursor
/// then remembers its end and stands at its end, or one byte further if the
/// match is empty. A cursor
/// that emits nothing is exhausted for good: advancing it again emits nothing
/// and leaves it where it is.
pub proof fn lemma_next_from_progress(
    finder: spec_fn(int) -> Option<(usize, usize)>,
    len: int,
    c: Cursor,
)
    requires
        cursor_wf(c),
    ensures
        cursor_wf(next_from(finder, len, c).1),
        c.last_end <= next_from(finder, len, c).1.last_end,
        match next_from(finder, len, c).0 {
            Some(em) => {
                let after = next_from(finder, len, c).1;
                &&& c.last_end <= em.at <= em.span.start <= em.span.end <= len
                &&& c.last_end < after.last_end
                &&& finder(em.at) == Some((em.span.start, em.span.end))
                &&& after.last_match == Some(em.span.end)
                &&& after.last_end == if em.span.start == em.span.end {
                    em.span.end + 1
                } else {
                    em.span.end as int
                }
                &&& c.last_match matches Some(p) ==> p < em.span.end
            },
            None => {
                let after = next_from(finder, len, c).1;
                &&& after.last_match == c.last_match
                &&& next_from(finder, len, after) == (None::<Emission>, after)
            },
        },
    decreases len + 1 - c.last_end,
{
    if c.last_end <= len {
        let found = finder(c.last_end);
        if found matches Some((s, e)) && !(c.last_end <= s <= e <= len) {
        } else {
            let (step, next) = advance_spec(c, found);
            if step is Skip {
                lemma_next_from_progress(finder, len, next);
            }
        }
    }
}

/// Two advances in a row never emit the same match: the second match starts
/// after the start of the first, no earlier than its end, and ends after its
/// end.
pub proof fn lemma_next_never_revisits(
    finder: spec_fn(int) -> Option<(usize, usize)>,
    len: int,
    c: Cursor,
)
    requires
        cursor_wf(c),
    ensures
        ({
            let first = next_from(finder, len, c);
            let second = next_from(finder, len, first.1);
            first.0 is Some && second.0 is Some ==> {
                let a = first.0.unwrap().span;
                let b = second.0.unwrap().span;
                &&& a.start < b.start
                &&& a.end <= b.start
                &&& a.end < b.end
                &&& a != b
            }
        }),
{
    lemma_next_from_progress(finder, len, c);
    lemma_next_from_progress(finder, len, next_from(finder, len, c).1);
}

/// Every match among the emissions of a cursor lies at or after the cursor and
/// ends after the last match reported before.
pub proof fn lemma_emissions_bounds(
    finder: spec_fn(int) -> Option<(usize, usize)>,
    len: int,
    c: Cursor,
    n: nat,
    i: int,
)
    requires
        cursor_wf(c),
        0 <= i < emissions(finder, len, c, n).len(),
    ensures
        c.last_end <= emissions(finder, len, c, n)[i].span.start,
        emissions(finder, len, c, n)[i].span.end <= len,
        c.last_match matches Some(p) ==> p < emissions(finder, len, c, n)[i].span.end,
    decreases n,
{
    lemma_next_from_progress(finder, len, c);
    let (r, next) = next_from(finder, len, c);
    if i > 0 {
        let rest = emissions(finder, len, next, (n - 1) as nat);
        assert(emissions(finder, len, c, n)[i] == rest[i - 1]);
        lemma_emissions_bounds(finder, len, next, (n - 1) as nat, i - 1);
    }
}

/// However often a cursor is advanced, it never emits a match twice: of any
/// two emissions the later one starts after the start of the earlier, no
/// earlier than its end, and ends after its end.
pub proof fn lemma_emissions_never_revisit(
    finder: spec_fn(int) -> Option<(usize, usize)>,
    len: int,
    c: Cursor,
    n: nat,
    i: int,
    j: int,
)
    requires
        cursor_wf(c),
        0 <= i < j < emissions(finder, len, c, n).len(),
    ensures
        emissions(finder, len, c, n)[i].span.start < emissions(finder, len, c, n)[j].span.start,
        emissions(finder, len, c, n)[i].span.end <= emissions(finder, len, c, n)[j].span.start,
        emissions(finder, len, c, n)[i].span.end < emissions(finder, len, c, n)[j].span.end,
        emissions(finder, len, c, n)[i].span != emissions(finder, len, c, n)[j].span,
    decreases n,
{
    lemma_next_from_progress(finder, len, c);
    let (r, next) = next_from(finder, len, c);
    let rest = emissions(finder, len, next, (n - 1) as nat);
    assert(emissions(finder, len, c, n)[j] == rest[j - 1]);
    if i == 0 {
        lemma_emissions_bounds(finder, len, next, (n - 1) as nat, j - 1);
    } else {
        assert(emissions(finder, len, c, n)[i] == rest[i - 1]);
        lemma_emissions_never_revisit(finder, len, next, (n - 1) as nat, i - 1, j - 1);
    }
}

} // verus!
