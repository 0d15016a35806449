//! A set of patterns compiled into one matcher that tells which of them
//! match, without positions or captures.

use crate::encoding::{decode, valid_prefix_len};
use crate::engine::{
    any_true, compiled_set, engine_compile_set, engine_error_message, engine_set_is_match_at,
    compiled_each, engine_set_read_matches_at, error_message_of, is_match_of, marks_matches,
    marks_tell_members, set_len_of, set_matches_of, string_views,
};
use crate::error::{Error, ErrorKind, ErrorView};
use crate::flags::{decode_flags, flags_of};
use crate::options::{Options, DEFAULT_DFA_SIZE_LIMIT, DEFAULT_SIZE_LIMIT};
use crate::pattern::limits_of;
use regex::bytes::Regex as EngineRegex;
use regex::bytes::RegexSet as EngineSet;
use regex::Error as EngineError;
use vstd::prelude::*;
use vstd::utf8::{decode_utf8, valid_utf8};

verus! {

/// A compiled set of patterns: the engine's matcher and the number of
/// patterns it was made from. It does not change once it is made.
///
/// For the contracts it also remembers what the engine makes of each of its
/// patterns alone.
pub struct RegexSet {
    re: EngineSet,
    pattern_count: usize,
    members: Ghost<Seq<Result<EngineRegex, EngineError>>>,
}

/// Every pattern is valid UTF-8.
pub open spec fn all_valid(patterns: Seq<&[u8]>) -> bool {
    forall|i: int| 0 <= i < patterns.len() ==> valid_utf8(#[trigger] patterns[i]@)
}

/// Pattern `k` is the first that is not valid UTF-8.
pub open spec fn first_invalid(patterns: Seq<&[u8]>, k: int) -> bool {
    &&& 0 <= k < patterns.len()
    &&& !valid_utf8(patterns[k]@)
    &&& forall|i: int| 0 <= i < k ==> valid_utf8(#[trigger] patterns[i]@)
}

/// The strings that the patterns encode.
pub open spec fn decoded(patterns: Seq<&[u8]>) -> Seq<Seq<char>> {
    Seq::new(patterns.len(), |i: int| decode_utf8(patterns[i]@))
}

/// What the engine makes of a list of patterns under a flag word and options.
pub open spec fn compiled_set_with(
    patterns: Seq<Seq<char>>,
    flags: u32,
    options: Option<&Options>,
) -> Result<EngineSet, EngineError> {
    let f = flags_of(flags);
    let limits = limits_of(options);
    compiled_set(
        patterns,
        limits.0,
        limits.1,
        f.case_insensitive,
        f.multi_line,
        f.dot_matches_new_line,
        f.swap_greed,
        f.ignore_whitespace,
        f.unicode,
    )
}

/// What the engine makes of each pattern of a list when it compiles the
/// pattern on its own, under a flag word and options.
pub open spec fn compiled_each_with(
    patterns: Seq<Seq<char>>,
    flags: u32,
    options: Option<&Options>,
) -> Seq<Result<EngineRegex, EngineError>> {
    let f = flags_of(flags);
    let limits = limits_of(options);
    compiled_each(
        patterns,
        limits.0,
        limits.1,
        f.case_insensitive,
        f.multi_line,
        f.dot_matches_new_line,
        f.swap_greed,
        f.ignore_whitespace,
        f.unicode,
    )
}

/// Each mark says whether the pattern at its place, compiled on its own,
/// has a match at or after `start`; none has beyond the end of the haystack.
/// `members` holds what each pattern compiles to on its own.
pub open spec fn marks_agree(
    marks: Seq<bool>,
    members: Seq<Result<EngineRegex, EngineError>>,
    haystack: Seq<u8>,
    start: usize,
) -> bool {
    forall|i: int|
        0 <= i < marks.len() && i < members.len() && members[i] is Ok ==> #[trigger] marks[i] == (
        start <= haystack.len() && is_match_of(members[i]->Ok_0, haystack, start))
}

/// `n` marks, none set.
pub open spec fn no_marks(n: nat) -> Seq<bool> {
    Seq::new(n, |i: int| false)
}

impl RegexSet {
    #[verifier::type_invariant]
    spec fn inv(&self) -> bool {
        &&& self.pattern_count == set_len_of(self.re)
        &&& self.members@.len() == self.pattern_count
        &&& marks_tell_members(self.re, self.members@)
    }

    /// What the engine makes of each pattern of the set when it compiles the
    /// pattern on its own, under the limits and flags of the set.
    pub closed spec fn members(&self) -> Seq<Result<EngineRegex, EngineError>> {
        self.members@
    }

    /// The engine's matcher.
    pub closed spec fn engine(&self) -> EngineSet {
        self.re
    }

    /// The number of patterns in the set.
    pub closed spec fn pattern_count(&self) -> nat {
        self.pattern_count as nat
    }

    /// For each pattern of the set, whether it matches at or after `start`;
    /// none does beyond the end of the haystack.
    pub open spec fn matches_at(&self, haystack: Seq<u8>, start: usize) -> Seq<bool> {
        if start <= haystack.len() {
            set_matches_of(self.engine(), haystack, start)
        } else {
            no_marks(self.pattern_count())
        }
    }

    /// Whether any pattern of the set matches at or after `start`.
    pub open spec fn is_match_at(&self, haystack: Seq<u8>, start: usize) -> bool {
        any_true(self.matches_at(haystack, start))
    }
}

impl core::ops::Deref for RegexSet {
    type Target = EngineSet;

    /// The engine's matcher, borrowed.
    fn deref(&self) -> (r: &EngineSet)
        ensures
            *r == self.engine(),
    {
        &self.re
    }
}

/// Compiles patterns given as bytes into one set, under a shared flag word and
/// optional limits.
///
/// The patterns are read in order; the first that is not UTF-8 ends the
/// construction, with the length of its longest valid prefix. With all of them
/// valid the engine decides: its matcher is wrapped, with the number of
/// patterns, or its diagnostic is handed back.
pub fn rure_compile_set(patterns: &[&[u8]], flags: u32, options: Option<&Options>) -> (r: Result<
    RegexSet,
    Error,
>)
    ensures
        forall|k: int|
            first_invalid(patterns@, k) ==> r is Err && r->Err_0@ == ErrorView::InvalidUtf8(
                valid_prefix_len(patterns@[k]@) as usize,
            ),
        all_valid(patterns@) ==> match compiled_set_with(decoded(patterns@), flags, options) {
            Ok(set) => {
                &&& r is Ok
                &&& r->Ok_0.engine() == set
                &&& r->Ok_0.pattern_count() == patterns@.len()
                &&& r->Ok_0.members() == compiled_each_with(decoded(patterns@), flags, options)
            },
            Err(err) => r is Err && r->Err_0@ == ErrorView::Compile(error_message_of(err)),
        },
        r is Ok ==> all_valid(patterns@),
{
    let mut pats: Vec<String> = Vec::new();
    let mut i: usize = 0;
    while i < patterns.len()
        invariant
            i <= patterns@.len(),
            pats@.len() == i,
            forall|j: int| 0 <= j < i ==> valid_utf8(#[trigger] patterns@[j]@),
            forall|j: int| 0 <= j < i ==> (#[trigger] pats@[j])@ == decode_utf8(patterns@[j]@),
        decreases patterns@.len() - i,
    {
        match decode(patterns[i]) {
            Ok(pat) => {
                pats.push(pat.to_owned());
            },
            Err(offset) => {
                return Err(Error::new(ErrorKind::InvalidUtf8(offset)));
            },
        }
        i += 1;
    }
    assert(string_views(pats@) =~= decoded(patterns@));
    let pattern_count = pats.len();
    let (size_limit, dfa_size_limit) = match options {
        Some(o) => (o.size_limit, o.dfa_size_limit),
        None => (DEFAULT_SIZE_LIMIT, DEFAULT_DFA_SIZE_LIMIT),
    };
    let f = decode_flags(flags);
    match engine_compile_set(
        &pats,
        size_limit,
        dfa_size_limit,
        f.case_insensitive,
        f.multi_line,
        f.dot_matches_new_line,
        f.swap_greed,
        f.ignore_whitespace,
        f.unicode,
    ) {
        Ok(re) => Ok(
            RegexSet {
                re,
                pattern_count,
                members: Ghost(compiled_each_with(decoded(patterns@), flags, options)),
            },
        ),
        Err(err) => Err(Error::new(ErrorKind::Compile(engine_error_message(&err)))),
    }
}

/// Whether any pattern of the set matches at or after `start`: what
/// [`rure_set_matches`] returns there. The set is only read.
///
/// From the start of the haystack the engine answers directly; from a later
/// start the answer is whether its search for the patterns that match marks
/// one.
pub fn rure_set_is_match(re: &RegexSet, haystack: &[u8], start: usize) -> (r: bool)
    ensures
        r == re.is_match_at(haystack@, start),
{
    if start > haystack.len() {
        return false;
    }
    if start == 0 {
        engine_set_is_match_at(&re.re, haystack, start)
    } else {
        let mut marks: Vec<bool> = Vec::new();
        rure_set_matches(re, haystack, start, &mut marks)
    }
}

/// Tells which patterns of the set match at or after `start`: `matches` is
/// made one mark per pattern, all cleared, and the engine then sets the mark
/// of each pattern that matches. Returns whether any mark is set.
///
/// The marks agree with searching for each pattern alone: where a pattern of
/// the set, compiled on its own under the same flags and limits, gives a
/// matcher, its mark says whether that matcher has a match at or after
/// `start`.
pub fn rure_set_matches(re: &RegexSet, haystack: &[u8], start: usize, matches: &mut Vec<bool>) -> (r:
    bool)
    ensures
        final(matches)@ == re.matches_at(haystack@, start),
        final(matches)@.len() == re.pattern_count(),
        r == any_true(final(matches)@),
        r == re.is_match_at(haystack@, start),
        marks_agree(final(matches)@, re.members(), haystack@, start),
{
    proof {
        use_type_invariant(re);
    }
    matches.clear();
    let mut i: usize = 0;
    while i < re.pattern_count
        invariant
            i <= re.pattern_count,
            matches@.len() == i,
            forall|j: int| 0 <= j < i ==> !matches@[j],
        decreases re.pattern_count - i,
    {
        matches.push(false);
        i += 1;
    }
    if start > haystack.len() {
        assert(matches@ =~= no_marks(re.pattern_count()));
        return false;
    }
    let ghost cleared = matches@;
    assert(cleared =~= no_marks(cleared.len()));
    let any = engine_set_read_matches_at(&re.re, matches, haystack, start);
    proof {
        lemma_cleared_marks_are_exact(
            cleared,
            matches@,
            set_matches_of(re.engine(), haystack@, start),
        );
    }
    any
}

/// Why the marks are cleared before the engine sees them: a search may leave
/// the mark of a pattern that does not match as it was, so only marks that
/// were all cleared tell afterwards exactly which patterns matched.
pub proof fn lemma_cleared_marks_are_exact(before: Seq<bool>, after: Seq<bool>, found: Seq<bool>)
    requires
        marks_matches(before, after, found),
        before == no_marks(before.len()),
    ensures
        after == found,
{
    assert(after =~= found);
}

/// The number of patterns in the set.
pub fn rure_set_len(re: &RegexSet) -> (r: usize)
    ensures
        r == re.pattern_count(),
{
    re.pattern_count
}

} // verus!
