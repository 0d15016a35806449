//! UTF-8 validation of byte input, with the offset up to which it was valid.

use vstd::prelude::*;
use vstd::string::StringSliceAdditionalSpecFns;
use vstd::utf8::{decode_utf8, encode_utf8_decode_utf8, valid_utf8};

verus! {

#[verifier::external_type_specification]
#[verifier::external_body]
pub struct ExUtf8Error(core::str::Utf8Error);

/// What `Utf8Error::valid_up_to` returns for an error value.
pub uninterp spec fn utf8_error_offset(e: core::str::Utf8Error) -> usize;

/// `n` is the length of the longest prefix of `bytes` that is valid UTF-8.
pub open spec fn is_valid_prefix_len(bytes: Seq<u8>, n: int) -> bool {
    &&& 0 <= n <= bytes.len()
    &&& valid_utf8(bytes.subrange(0, n))
    &&& forall|m: int| n < m <= bytes.len() ==> !valid_utf8(#[trigger] bytes.subrange(0, m))
}

/// The length of the longest prefix of `bytes` that is valid UTF-8.
pub open spec fn valid_prefix_len(bytes: Seq<u8>) -> int {
    choose|n: int| is_valid_prefix_len(bytes, n)
}

/// `core::str::from_utf8`: succeeds exactly on valid UTF-8 and then hands back
/// the same bytes as a string; an error stands for the longest valid prefix.
pub assume_specification<'a>[ core::str::from_utf8 ](v: &'a [u8]) -> (r: Result<
    &'a str,
    core::str::Utf8Error,
>)
    ensures
        r is Ok <==> valid_utf8(v@),
        r matches Ok(s) ==> s.spec_bytes() == v@,
        r matches Err(e) ==> is_valid_prefix_len(v@, utf8_error_offset(e) as int),
;

/// `Utf8Error::valid_up_to`: the index up to which the input was valid.
pub assume_specification[ core::str::Utf8Error::valid_up_to ](e: &core::str::Utf8Error) -> (r:
    usize)
    ensures
        r == utf8_error_offset(*e),
;

/// At most one length is that of the longest valid prefix.
pub proof fn lemma_valid_prefix_len_unique(bytes: Seq<u8>, n: int, m: int)
    requires
        is_valid_prefix_len(bytes, n),
        is_valid_prefix_len(bytes, m),
    ensures
        n == m,
{
    if n < m {
        assert(!valid_utf8(bytes.subrange(0, m)));
    } else if m < n {
        assert(!valid_utf8(bytes.subrange(0, n)));
    }
}

/// Reads bytes as a string. Valid UTF-8 gives the string they encode; anything
/// else gives the length of the longest valid prefix.
pub fn decode<'a>(bytes: &'a [u8]) -> (r: Result<&'a str, usize>)
    ensures
        match r {
            Ok(s) => valid_utf8(bytes@) && s@ == decode_utf8(bytes@),
            Err(n) => !valid_utf8(bytes@) && n == valid_prefix_len(bytes@),
        },
{
    match core::str::from_utf8(bytes) {
        Ok(s) => {
            proof {
                encode_utf8_decode_utf8(s@);
            }
            Ok(s)
        },
        Err(e) => {
            let n = e.valid_up_to();
            proof {
                lemma_valid_prefix_len_unique(bytes@, n as int, valid_prefix_len(bytes@));
            }
            Err(n)
        },
    }
}

} // verus!
