//! The flag bits that select how a pattern is compiled.

use vstd::prelude::*;

verus! {

/// Letters match both cases.
pub const RURE_FLAG_CASEI: u32 = 1;

/// `^` and `$` match at line boundaries.
pub const RURE_FLAG_MULTI: u32 = 2;

/// `.` matches a new line too.
pub const RURE_FLAG_DOTNL: u32 = 4;

/// Greedy and lazy repetition change places.
pub const RURE_FLAG_SWAP_GREED: u32 = 8;

/// White space in the pattern is ignored.
pub const RURE_FLAG_SPACE: u32 = 16;

/// Classes such as `\w` are Unicode-aware.
pub const RURE_FLAG_UNICODE: u32 = 32;

/// The flags of a pattern compiled without a choice of flags.
pub const RURE_DEFAULT_FLAGS: u32 = RURE_FLAG_UNICODE;

/// The six switches that a flag word selects.
#[derive(Clone, Copy, Debug, PartialEq, Eq, Structural)]
pub struct Flags {
    pub case_insensitive: bool,
    pub multi_line: bool,
    pub dot_matches_new_line: bool,
    pub swap_greed: bool,
    pub ignore_whitespace: bool,
    pub unicode: bool,
}

/// Whether a flag word has any bit of `bit` set.
pub open spec fn has_flag(bits: u32, bit: u32) -> bool {
    bits & bit > 0
}

/// The switches that a flag word selects: each is on exactly when its bit is set.
pub open spec fn flags_of(bits: u32) -> Flags {
    Flags {
        case_insensitive: has_flag(bits, RURE_FLAG_CASEI),
        multi_line: has_flag(bits, RURE_FLAG_MULTI),
        dot_matches_new_line: has_flag(bits, RURE_FLAG_DOTNL),
        swap_greed: has_flag(bits, RURE_FLAG_SWAP_GREED),
        ignore_whitespace: has_flag(bits, RURE_FLAG_SPACE),
        unicode: has_flag(bits, RURE_FLAG_UNICODE),
    }
}

/// Reads the six switches out of a flag word. Bits beyond the six are ignored.
pub fn decode_flags(bits: u32) -> (f: Flags)
    ensures
        f == flags_of(bits),
{
    Flags {
        case_insensitive: bits & RURE_FLAG_CASEI > 0,
        multi_line: bits & RURE_FLAG_MULTI > 0,
        dot_matches_new_line: bits & RURE_FLAG_DOTNL > 0,
        swap_greed: bits & RURE_FLAG_SWAP_GREED > 0,
        ignore_whitespace: bits & RURE_FLAG_SPACE > 0,
        unicode: bits & RURE_FLAG_UNICODE > 0,
    }
}

/// Flags combine with `|`: a switch is on in the union of two flag words
/// exactly when it is on in one of them.
pub proof fn lemma_flags_combine(a: u32, b: u32)
    ensures
        flags_of(a | b) == (Flags {
            case_insensitive: flags_of(a).case_insensitive || flags_of(b).case_insensitive,
            multi_line: flags_of(a).multi_line || flags_of(b).multi_line,
            dot_matches_new_line: flags_of(a).dot_matches_new_line || flags_of(
                b,
            ).dot_matches_new_line,
            swap_greed: flags_of(a).swap_greed || flags_of(b).swap_greed,
            ignore_whitespace: flags_of(a).ignore_whitespace || flags_of(b).ignore_whitespace,
            unicode: flags_of(a).unicode || flags_of(b).unicode,
        }),
{
    assert(forall|m: u32| ((a | b) & m > 0) == ((a & m > 0) || (b & m > 0))) by (bit_vector);
}

/// The default flag word switches on Unicode and nothing else.
pub proof fn lemma_default_flags()
    ensures
        flags_of(RURE_DEFAULT_FLAGS) == (Flags {
            case_insensitive: false,
            multi_line: false,
            dot_matches_new_line: false,
            swap_greed: false,
            ignore_whitespace: false,
            unicode: true,
        }),
{
    assert(32u32 & 1 == 0 && 32u32 & 2 == 0 && 32u32 & 4 == 0 && 32u32 & 8 == 0 && 32u32 & 16 == 0
        && 32u32 & 32 == 32) by (bit_vector);
}

} // verus!
