//! A compiled pattern and the searches that start at a given offset.

use crate::captures::rure_match;
use crate::encoding::{decode, valid_prefix_len};
use crate::engine::{
    capture_names_of, compiled, engine_capture_names, engine_compile, engine_error_message,
    engine_find_at, engine_is_match_at, engine_shortest_match_at, error_message_of, find_of,
    is_match_of,
};
use crate::error::{Error, ErrorKind, ErrorView};
use crate::flags::{decode_flags, flags_of};
use crate::names::{name_indices, NameTable};
use crate::options::{Options, DEFAULT_DFA_SIZE_LIMIT, DEFAULT_SIZE_LIMIT};
use regex::bytes::Regex as EngineRegex;
use regex::Error as EngineError;
use vstd::prelude::*;
use vstd::utf8::{decode_utf8, valid_utf8};

verus! {

/// A compiled pattern: the engine's matcher and the table from the names of
/// its capture groups to their indices. It does not change once it is made.
pub struct Regex {
    re: EngineRegex,
    capture_names: NameTable,
}

/// The two size limits that a compilation uses: those of the options given,
/// or the defaults.
pub open spec fn limits_of(options: Option<&Options>) -> (usize, usize) {
    match options {
        Some(o) => (o.size_limit, o.dfa_size_limit),
        None => (DEFAULT_SIZE_LIMIT, DEFAULT_DFA_SIZE_LIMIT),
    }
}

/// What the engine makes of a pattern under a flag word and options.
pub open spec fn compiled_with(pattern: Seq<char>, flags: u32, options: Option<&Options>) -> Result<
    EngineRegex,
    EngineError,
> {
    let f = flags_of(flags);
    let limits = limits_of(options);
    compiled(
        pattern,
        limits.0,
        limits.1,
        f.case_insensitive,
        f.multi_line,
        f.dot_matches_new_line,
        f.swap_greed,
        f.ignore_whitespace,
        f.unicode,
    )
}

/// The index that a table gives for a name handed over as bytes: that of the
/// name they encode, and -1 where they are not UTF-8 or the name is unbound.
pub open spec fn name_index(table: Map<Seq<char>, i32>, name: Seq<u8>) -> i32 {
    if valid_utf8(name) && table.contains_key(decode_utf8(name)) {
        table[decode_utf8(name)]
    } else {
        -1i32
    }
}

impl Regex {
    #[verifier::type_invariant]
    spec fn inv(&self) -> bool {
        self.capture_names@ == name_indices(capture_names_of(self.re))
    }

    /// The engine's matcher.
    pub closed spec fn engine(&self) -> EngineRegex {
        self.re
    }

    /// The names of the capture groups in group order; the first is the whole
    /// match.
    pub open spec fn group_names(&self) -> Seq<Option<Seq<char>>> {
        capture_names_of(self.engine())
    }

    /// The number of capture groups, the whole match included.
    pub open spec fn group_count(&self) -> nat {
        self.group_names().len()
    }

    /// Whether a match begins at or after `start`; none begins beyond the end
    /// of the haystack.
    pub open spec fn is_match_at(&self, haystack: Seq<u8>, start: usize) -> bool {
        start <= haystack.len() && is_match_of(self.engine(), haystack, start)
    }

    /// The leftmost match at or after `start`; none begins beyond the end of
    /// the haystack.
    pub open spec fn find_at(&self, haystack: Seq<u8>, start: usize) -> Option<rure_match> {
        if start <= haystack.len() {
            match find_of(self.engine(), haystack, start) {
                Some((s, e)) => Some(rure_match { start: s, end: e }),
                None => None,
            }
        } else {
            None
        }
    }

    /// Wraps a matcher that the engine built, with the table of its group
    /// names.
    fn from_engine(re: EngineRegex) -> (r: Regex)
        ensures
            r.engine() == re,
    {
        let names = engine_capture_names(&re);
        let capture_names = NameTable::from_names(&names);
        Regex { re, capture_names }
    }
}

impl core::ops::Deref for Regex {
    type Target = EngineRegex;

    /// The engine's matcher, borrowed.
    fn deref(&self) -> (r: &EngineRegex)
        ensures
            *r == self.engine(),
    {
        &self.re
    }
}

/// Compiles a pattern given as bytes under a flag word and optional limits.
///
/// Bytes that are not UTF-8 are refused before the engine sees them, with the
/// length of their longest valid prefix. Otherwise the engine decides: its
/// matcher is wrapped, or its diagnostic is handed back.
pub fn rure_compile(pattern: &[u8], flags: u32, options: Option<&Options>) -> (r: Result<
    Regex,
    Error,
>)
    ensures
        !valid_utf8(pattern@) ==> r is Err && r->Err_0@ == ErrorView::InvalidUtf8(
            valid_prefix_len(pattern@) as usize,
        ),
        valid_utf8(pattern@) ==> match compiled_with(decode_utf8(pattern@), flags, options) {
            Ok(engine) => r is Ok && r->Ok_0.engine() == engine,
            Err(err) => r is Err && r->Err_0@ == ErrorView::Compile(error_message_of(err)),
        },
{
    let pat = match decode(pattern) {
        Ok(pat) => pat,
        Err(offset) => {
            return Err(Error::new(ErrorKind::InvalidUtf8(offset)));
        },
    };
    let (size_limit, dfa_size_limit) = match options {
        Some(o) => (o.size_limit, o.dfa_size_limit),
        None => (DEFAULT_SIZE_LIMIT, DEFAULT_DFA_SIZE_LIMIT),
    };
    let f = decode_flags(flags);
    match engine_compile(
        pat,
        size_limit,
        dfa_size_limit,
        f.case_insensitive,
        f.multi_line,
        f.dot_matches_new_line,
        f.swap_greed,
        f.ignore_whitespace,
        f.unicode,
    ) {
        Ok(re) => Ok(Regex::from_engine(re)),
        Err(err) => Err(Error::new(ErrorKind::Compile(engine_error_message(&err)))),
    }
}

/// Whether a match begins at or after `start`. The pattern is only read.
///
/// From the start of the haystack the engine answers directly; from a later
/// start the answer is whether its search for the leftmost match finds one.
pub fn rure_is_match(re: &Regex, haystack: &[u8], start: usize) -> (r: bool)
    ensures
        r == re.is_match_at(haystack@, start),
{
    if start > haystack.len() {
        return false;
    }
    if start == 0 {
        engine_is_match_at(&re.re, haystack, start)
    } else {
        engine_find_at(&re.re, haystack, start).is_some()
    }
}

/// The leftmost match at or after `start`: a range of the haystack that
/// begins no earlier than `start`. There is one exactly when a match begins
/// at or after `start`.
pub fn rure_find(re: &Regex, haystack: &[u8], start: usize) -> (r: Option<rure_match>)
    ensures
        r == re.find_at(haystack@, start),
        r is Some <==> re.is_match_at(haystack@, start),
        r matches Some(m) ==> start <= m.start <= m.end <= haystack@.len(),
{
    if start > haystack.len() {
        return None;
    }
    match engine_find_at(&re.re, haystack, start) {
        Some((s, e)) => Some(rure_match { start: s, end: e }),
        None => None,
    }
}

/// The end of a match at or after `start`, if a match begins there.
///
/// From the start of the haystack it is the end at which the engine first
/// knows of a match, which may lie before the end of the leftmost match and
/// need not be the same at every call. From a later start it is the end of
/// the leftmost match.
pub fn rure_shortest_match(re: &Regex, haystack: &[u8], start: usize) -> (r: Option<usize>)
    ensures
        r is Some <==> re.is_match_at(haystack@, start),
        r matches Some(e) ==> start <= e <= haystack@.len(),
        start > 0 ==> r == match re.find_at(haystack@, start) {
            Some(m) => Some(m.end),
            None => None,
        },
{
    if start > haystack.len() {
        return None;
    }
    if start == 0 {
        engine_shortest_match_at(&re.re, haystack, start)
    } else {
        match engine_find_at(&re.re, haystack, start) {
            Some((_, e)) => Some(e),
            None => None,
        }
    }
}

/// The index of the capture group that bears a name, given as bytes; -1 where
/// the bytes are not UTF-8 or no group bears the name.
pub fn rure_capture_name_index(re: &Regex, name: &[u8]) -> (r: i32)
    ensures
        r == name_index(name_indices(re.group_names()), name@),
{
    proof {
        use_type_invariant(re);
    }
    let name = match decode(name) {
        Err(_) => {
            return -1;
        },
        Ok(name) => name,
    };
    match re.capture_names.get(name) {
        Some(i) => i,
        None => -1,
    }
}

/// Asking twice gives the same answer: whether a pattern matches, and where
/// its leftmost match lies, depends on nothing but its matcher, the haystack
/// and the start, and asking leaves all three as they were. Beyond the end of
/// the haystack there is no match.
pub proof fn lemma_is_match_repeats(
    first: Regex,
    second: Regex,
    haystack: Seq<u8>,
    again: Seq<u8>,
    start: usize,
)
    requires
        first.engine() == second.engine(),
        haystack =~= again,
    ensures
        first.is_match_at(haystack, start) == second.is_match_at(again, start),
        first.find_at(haystack, start) == second.find_at(again, start),
        start > haystack.len() ==> !first.is_match_at(haystack, start),
{
}

} // verus!
