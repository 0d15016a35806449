use vstd::prelude::*;

verus! {

/// The engine's default bound on the size of a compiled program: 10 MiB.
pub const DEFAULT_SIZE_LIMIT: usize = 10485760;

/// The engine's default bound on the size of its lazy DFA cache: 2 MiB.
pub const DEFAULT_DFA_SIZE_LIMIT: usize = 2097152;

/// Size limits that are read, and not kept, when a pattern is compiled.
#[derive(Clone, Copy, Debug, PartialEq, Eq)]
pub struct Options {
    pub size_limit: usize,
    pub dfa_size_limit: usize,
}

impl Default for Options {
    fn default() -> (o: Options)
        ensures
            o.size_limit == DEFAULT_SIZE_LIMIT,
            o.dfa_size_limit == DEFAULT_DFA_SIZE_LIMIT,
    {
        Options { size_limit: DEFAULT_SIZE_LIMIT, dfa_size_limit: DEFAULT_DFA_SIZE_LIMIT }
    }
}

/// A fresh set of options holding the defaults.
pub fn rure_options_new() -> (o: Options)
    ensures
        o.size_limit == DEFAULT_SIZE_LIMIT,
        o.dfa_size_limit == DEFAULT_DFA_SIZE_LIMIT,
{
    Options::default()
}

/// Sets the bound on the size of a compiled program; nothing else changes.
pub fn rure_options_size_limit(options: &mut Options, limit: usize)
    ensures
        final(options).size_limit == limit,
        final(options).dfa_size_limit == old(options).dfa_size_limit,
{
    options.size_limit = limit;
}

/// Sets the bound on the size of the DFA cache; nothing else changes.
pub fn rure_options_dfa_size_limit(options: &mut Options, limit: usize)
    ensures
        final(options).dfa_size_limit == limit,
        final(options).size_limit == old(options).size_limit,
{
    options.dfa_size_limit = limit;
}

} // verus!
