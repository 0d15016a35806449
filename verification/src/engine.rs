//! Everything this library takes on trust from the `regex` crate: its types,
//! a name for what each of its functions returns, and one wrapper per function.
//! Nothing here is proved; each contract states what the engine's source shows.

use regex::bytes::Locations;
use regex::bytes::Regex as EngineRegex;
use regex::bytes::RegexSet as EngineSet;
use regex::Error as EngineError;
use crate::names::name_views;
use vstd::prelude::*;

verus! {

#[verifier::external_type_specification]
#[verifier::external_body]
pub struct ExRegex(EngineRegex);

#[verifier::external_type_specification]
#[verifier::external_body]
pub struct ExRegexSet(EngineSet);

#[verifier::external_type_specification]
#[verifier::external_body]
pub struct ExLocations(Locations);

#[verifier::external_type_specification]
#[verifier::external_body]
pub struct ExError(EngineError);

/// The views of a list of strings.
pub open spec fn string_views(strings: Seq<String>) -> Seq<Seq<char>> {
    Seq::new(strings.len(), |i: int| strings[i]@)
}

/// What `regex::bytes::RegexBuilder::build` returns for a pattern, the two
/// size limits and the six flags, in one build of the engine.
pub uninterp spec fn compiled(
    pattern: Seq<char>,
    size_limit: usize,
    dfa_size_limit: usize,
    case_insensitive: bool,
    multi_line: bool,
    dot_matches_new_line: bool,
    swap_greed: bool,
    ignore_whitespace: bool,
    unicode: bool,
) -> Result<EngineRegex, EngineError>;

/// What `regex::bytes::RegexSetBuilder::build` returns for a list of
/// patterns, the two size limits and the six flags, in one build of the
/// engine.
pub uninterp spec fn compiled_set(
    patterns: Seq<Seq<char>>,
    size_limit: usize,
    dfa_size_limit: usize,
    case_insensitive: bool,
    multi_line: bool,
    dot_matches_new_line: bool,
    swap_greed: bool,
    ignore_whitespace: bool,
    unicode: bool,
) -> Result<EngineSet, EngineError>;

/// The text that `regex::Error` displays.
pub uninterp spec fn error_message_of(e: EngineError) -> Seq<char>;

/// The names of a pattern's capture groups in group order, as
/// `regex::bytes::Regex::capture_names` yields them.
pub uninterp spec fn capture_names_of(re: EngineRegex) -> Seq<Option<Seq<char>>>;

/// What `regex::bytes::Regex::is_match_at` returns: whether the pattern has a
/// match in the haystack at or after `start`.
pub uninterp spec fn is_match_of(re: EngineRegex, haystack: Seq<u8>, start: usize) -> bool;

/// What `regex::bytes::Regex::find_at` returns, as start and end offsets.
pub uninterp spec fn find_of(re: EngineRegex, haystack: Seq<u8>, start: usize) -> Option<
    (usize, usize),
>;

/// The groups that `regex::bytes::Regex::read_captures_at` leaves in a set of
/// locations made for the pattern when it finds a match; `None` when it finds
/// none.
pub uninterp spec fn captures_of(
    re: EngineRegex,
    haystack: Seq<u8>,
    start: usize,
) -> Option<Seq<Option<(usize, usize)>>>;

/// What a set of locations holds: for each group what `regex::bytes::Locations::pos`
/// reports, the span of the group or `None`.
pub uninterp spec fn location_groups(locs: Locations) -> Seq<Option<(usize, usize)>>;

/// The number of patterns in a set, as `regex::bytes::RegexSet::len` returns it.
pub uninterp spec fn set_len_of(set: EngineSet) -> nat;

/// For each pattern of a set, whether `regex::bytes::RegexSet::read_matches_at`
/// finds that it matches.
pub uninterp spec fn set_matches_of(
    set: EngineSet,
    haystack: Seq<u8>,
    start: usize,
) -> Seq<bool>;

/// What a multi-pattern search does to a vector of marks, given which patterns
/// it found: the length stays, each pattern found is marked, and no entry
/// becomes marked unless its pattern was found.
pub open spec fn marks_matches(before: Seq<bool>, after: Seq<bool>, found: Seq<bool>) -> bool {
    &&& after.len() == before.len()
    &&& found.len() == before.len()
    &&& forall|i: int| 0 <= i < after.len() && found[i] ==> #[trigger] after[i]
    &&& forall|i: int| 0 <= i < after.len() && #[trigger] after[i] ==> before[i] || found[i]
}

/// Whether some entry is marked.
pub open spec fn any_true(marks: Seq<bool>) -> bool {
    exists|i: int| 0 <= i < marks.len() && #[trigger] marks[i]
}

/// What the engine makes of each pattern of a list when it compiles the
/// pattern on its own, under the same limits and flags.
pub open spec fn compiled_each(
    patterns: Seq<Seq<char>>,
    size_limit: usize,
    dfa_size_limit: usize,
    case_insensitive: bool,
    multi_line: bool,
    dot_matches_new_line: bool,
    swap_greed: bool,
    ignore_whitespace: bool,
    unicode: bool,
) -> Seq<Result<EngineRegex, EngineError>> {
    Seq::new(
        patterns.len(),
        |i: int|
            compiled(
                patterns[i],
                size_limit,
                dfa_size_limit,
                case_insensitive,
                multi_line,
                dot_matches_new_line,
                swap_greed,
                ignore_whitespace,
                unicode,
            ),
    )
}

/// What the engine documents of a set: a search of it reports which of its
/// patterns match, as compiling each pattern on its own and searching with
/// that would. `members` holds what each pattern compiles to on its own.
pub open spec fn marks_tell_members(
    set: EngineSet,
    members: Seq<Result<EngineRegex, EngineError>>,
) -> bool {
    forall|i: int, haystack: Seq<u8>, start: usize|
        0 <= i < members.len() && start <= haystack.len() && members[i] is Ok ==> #[trigger] set_matches_of(
            set,
            haystack,
            start,
        )[i] == is_match_of(members[i]->Ok_0, haystack, start)
}

/// `regex::bytes::RegexBuilder`: `new`, the eight setters and `build`. The
/// outcome is the one named by [`compiled`].
#[verifier::external_body]
pub(crate) fn engine_compile(
    pattern: &str,
    size_limit: usize,
    dfa_size_limit: usize,
    case_insensitive: bool,
    multi_line: bool,
    dot_matches_new_line: bool,
    swap_greed: bool,
    ignore_whitespace: bool,
    unicode: bool,
) -> (r: Result<EngineRegex, EngineError>)
    ensures
        r == compiled(
            pattern@,
            size_limit,
            dfa_size_limit,
            case_insensitive,
            multi_line,
            dot_matches_new_line,
            swap_greed,
            ignore_whitespace,
            unicode,
        ),
{
    regex::bytes::RegexBuilder::new(pattern)
        .size_limit(size_limit)
        .dfa_size_limit(dfa_size_limit)
        .case_insensitive(case_insensitive)
        .multi_line(multi_line)
        .dot_matches_new_line(dot_matches_new_line)
        .swap_greed(swap_greed)
        .ignore_whitespace(ignore_whitespace)
        .unicode(unicode)
        .build()
}

/// `regex::bytes::RegexSetBuilder`: `new`, the eight setters and `build`. The
/// outcome is the one named by [`compiled_set`]. A set that was built holds
/// as many patterns as were given, and its searches report of each whether it
/// matches, as the same pattern compiled on its own would.
#[verifier::external_body]
pub(crate) fn engine_compile_set(
    patterns: &Vec<String>,
    size_limit: usize,
    dfa_size_limit: usize,
    case_insensitive: bool,
    multi_line: bool,
    dot_matches_new_line: bool,
    swap_greed: bool,
    ignore_whitespace: bool,
    unicode: bool,
) -> (r: Result<EngineSet, EngineError>)
    ensures
        r == compiled_set(
            string_views(patterns@),
            size_limit,
            dfa_size_limit,
            case_insensitive,
            multi_line,
            dot_matches_new_line,
            swap_greed,
            ignore_whitespace,
            unicode,
        ),
        r matches Ok(set) ==> set_len_of(set) == patterns@.len(),
        r matches Ok(set) ==> marks_tell_members(
            set,
            compiled_each(
                string_views(patterns@),
                size_limit,
                dfa_size_limit,
                case_insensitive,
                multi_line,
                dot_matches_new_line,
                swap_greed,
                ignore_whitespace,
                unicode,
            ),
        ),
{
    regex::bytes::RegexSetBuilder::new(patterns)
        .size_limit(size_limit)
        .dfa_size_limit(dfa_size_limit)
        .case_insensitive(case_insensitive)
        .multi_line(multi_line)
        .dot_matches_new_line(dot_matches_new_line)
        .swap_greed(swap_greed)
        .ignore_whitespace(ignore_whitespace)
        .unicode(unicode)
        .build()
}

/// `Display` of `regex::Error`: the engine's diagnostic, as a string.
#[verifier::external_body]
pub(crate) fn engine_error_message(e: &EngineError) -> (r: String)
    ensures
        r@ == error_message_of(*e),
{
    format!("{}", e)
}

/// `regex::bytes::Regex::capture_names`, collected: one entry per group, in
/// group order, the name of a named group and `None` for an unnamed one.
#[verifier::external_body]
pub(crate) fn engine_capture_names(re: &EngineRegex) -> (r: Vec<Option<String>>)
    ensures
        name_views(r@) == capture_names_of(*re),
{
    re.capture_names().map(|name| name.map(|s| s.to_owned())).collect()
}

/// `regex::bytes::Regex::captures_len`: the length of the list that
/// `capture_names` walks.
#[verifier::external_body]
pub(crate) fn engine_captures_len(re: &EngineRegex) -> (r: usize)
    ensures
        r == capture_names_of(*re).len(),
{
    re.captures_len()
}

/// `regex::bytes::Regex::shortest_match_at` from the start of the haystack:
/// the end of some match, if the pattern has one, which may lie before the end
/// of the leftmost-first match. Which end it is can differ from call to call,
/// since the engine changes its method when its cache overflows. From a later
/// start the engine, for a pattern anchored at its end, indexes beyond the
/// haystack, so `start` is 0.
#[verifier::external_body]
pub(crate) fn engine_shortest_match_at(
    re: &EngineRegex,
    haystack: &[u8],
    start: usize,
) -> (r: Option<usize>)
    requires
        start == 0,
    ensures
        r is Some <==> is_match_of(*re, haystack@, start),
        r matches Some(e) ==> start <= e <= haystack@.len(),
{
    re.shortest_match_at(haystack, start)
}

/// `regex::bytes::Regex::is_match_at` from the start of the haystack. The
/// engine defines it as `shortest_match_at(..).is_some()`, so here too `start`
/// is 0.
#[verifier::external_body]
pub(crate) fn engine_is_match_at(re: &EngineRegex, haystack: &[u8], start: usize) -> (r:
    bool)
    requires
        start == 0,
    ensures
        r == is_match_of(*re, haystack@, start),
{
    re.is_match_at(haystack, start)
}

/// `regex::bytes::Regex::find_at`: the leftmost-first match at or after
/// `start`, as its start and end, and `None` exactly when the pattern has no
/// match there. The match is a byte range of the haystack that begins no
/// earlier than `start`. The engine slices the haystack at `start`, so `start`
/// may not lie beyond its end.
#[verifier::external_body]
pub(crate) fn engine_find_at(re: &EngineRegex, haystack: &[u8], start: usize) -> (r:
    Option<(usize, usize)>)
    requires
        start <= haystack@.len(),
    ensures
        r == find_of(*re, haystack@, start),
        r is Some <==> is_match_of(*re, haystack@, start),
        r matches Some((s, e)) ==> start <= s <= e <= haystack@.len(),
{
    re.find_at(haystack, start).map(|m| (m.start(), m.end()))
}

/// `regex::bytes::Regex::locations`: one unset entry per capture group.
#[verifier::external_body]
pub(crate) fn engine_locations(re: &EngineRegex) -> (r: Locations)
    ensures
        location_groups(r) == Seq::new(
            capture_names_of(*re).len(),
            |i: int| None::<(usize, usize)>,
        ),
{
    re.locations()
}

/// `regex::bytes::Regex::read_captures_at` on locations made for this pattern.
/// It returns the leftmost-first match, as `find_at` does. On a match the
/// locations hold the groups named by [`captures_of`], one per capture group,
/// and the first of them is the match returned. Without a match the number of
/// groups is all that is known of the locations.
#[verifier::external_body]
pub(crate) fn engine_read_captures_at(
    re: &EngineRegex,
    locs: &mut Locations,
    haystack: &[u8],
    start: usize,
) -> (r: Option<(usize, usize)>)
    requires
        start <= haystack@.len(),
        location_groups(*old(locs)).len() == capture_names_of(*re).len(),
    ensures
        location_groups(*final(locs)).len() == location_groups(*old(locs)).len(),
        r == find_of(*re, haystack@, start),
        r is Some <==> is_match_of(*re, haystack@, start),
        r is Some <==> captures_of(*re, haystack@, start) is Some,
        r matches Some((s, e)) ==> {
            &&& location_groups(*final(locs)) == captures_of(*re, haystack@, start).unwrap()
            &&& location_groups(*final(locs)).len() > 0
            &&& location_groups(*final(locs))[0] == Some((s, e))
            &&& start <= s <= e <= haystack@.len()
        },
{
    re.read_captures_at(locs, haystack, start).map(|m| (m.start(), m.end()))
}

/// `regex::bytes::Locations::pos`: the span of group `i`, or `None` when the
/// group is unset or `i` is not a group. The engine doubles `i`, so `i` is
/// kept below the number of groups.
#[verifier::external_body]
pub(crate) fn engine_locations_pos(locs: &Locations, i: usize) -> (r: Option<
    (usize, usize),
>)
    requires
        i < location_groups(*locs).len(),
    ensures
        r == location_groups(*locs)[i as int],
{
    locs.pos(i)
}

/// `regex::bytes::RegexSet::is_match_at` from the start of the haystack:
/// whether any pattern of the set matches, which is whether
/// `read_matches_at` finds one that does. From a later start the engine, for a
/// set of one pattern anchored at its end, indexes beyond the haystack, so
/// `start` is 0.
#[verifier::external_body]
pub(crate) fn engine_set_is_match_at(
    set: &EngineSet,
    haystack: &[u8],
    start: usize,
) -> (r: bool)
    requires
        start == 0,
    ensures
        r == any_true(set_matches_of(*set, haystack@, start)),
{
    set.is_match_at(haystack, start)
}

/// `regex::bytes::RegexSet::read_matches_at` on a vector with one entry per
/// pattern. The engine sets the entry of each pattern that matches and may
/// leave the others as they were; it returns whether any pattern matched. The
/// engine slices the haystack at `start`, so `start` may not lie beyond its
/// end.
#[verifier::external_body]
pub(crate) fn engine_set_read_matches_at(
    set: &EngineSet,
    matches: &mut Vec<bool>,
    haystack: &[u8],
    start: usize,
) -> (r: bool)
    requires
        start <= haystack@.len(),
        old(matches)@.len() == set_len_of(*set),
    ensures
        marks_matches(old(matches)@, final(matches)@, set_matches_of(*set, haystack@, start)),
        r == any_true(set_matches_of(*set, haystack@, start)),
{
    set.read_matches_at(matches.as_mut_slice(), haystack, start)
}

} // verus!
