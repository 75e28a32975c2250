//! Text helpers shared by the other modules.

use vstd::prelude::*;
use vstd::string::StringSliceAdditionalSpecFns;
use vstd::utf8::encode_utf8;
use vstd::utf8::encode_utf8_decode_utf8;
use vstd::utf8::valid_utf8;

verus! {

/// The lower-case form of a text, as `str::to_lowercase` of the standard
/// library gives it: each character replaced by its Unicode lower-case
/// mapping. The mapping itself is not spelled out here.
pub uninterp spec fn lowercase(s: Seq<char>) -> Seq<char>;

/// Calls `str::to_lowercase`. Trusted: the result is the lower-case form of
/// the argument, which depends on the argument alone.
#[verifier::external_body]
pub(crate) fn to_lowercase(s: &str) -> (lower: String)
    ensures
        lower@ == lowercase(s@),
{
    s.to_lowercase()
}

/// Calls `str::from_utf8` of the standard library. Trusted: the bytes are
/// returned as text where they are valid UTF-8, and nothing is returned where
/// they are not.
#[verifier::external_body]
pub(crate) fn utf8_text(bytes: &[u8]) -> (text: Option<&str>)
    ensures
        match text {
            Some(s) => valid_utf8(bytes@) && s.spec_bytes() == bytes@,
            None => !valid_utf8(bytes@),
        },
{
    core::str::from_utf8(bytes).ok()
}

/// Whether two texts are the same once letter case is set aside.
pub open spec fn same_ignoring_case(a: Seq<char>, b: Seq<char>) -> bool {
    lowercase(a) == lowercase(b)
}

/// Setting letter case aside is an equivalence: every text is the same as
/// itself, and the relation runs both ways and carries over a chain.
pub proof fn lemma_same_ignoring_case_is_equivalence(a: Seq<char>, b: Seq<char>, c: Seq<char>)
    ensures
        same_ignoring_case(a, a),
        same_ignoring_case(a, b) == same_ignoring_case(b, a),
        same_ignoring_case(a, b) && same_ignoring_case(b, c) ==> same_ignoring_case(a, c),
{
}

/// Compares two strings without regard to letter case.
pub fn eq_ignoring_case(a: &str, b: &str) -> (same: bool)
    ensures
        same == same_ignoring_case(a@, b@),
{
    let x = to_lowercase(a);
    let y = to_lowercase(b);
    same_text(x.as_str(), y.as_str())
}

/// Whether two strings hold the same characters.
pub fn same_text(a: &str, b: &str) -> (same: bool)
    ensures
        same == (a@ == b@),
{
    let x = a.as_bytes();
    let y = b.as_bytes();
    if x.len() != y.len() {
        return false;
    }
    let mut i: usize = 0;
    while i < x.len()
        invariant
            i <= x.len(),
            x.len() == y.len(),
            x@ == encode_utf8(a@),
            y@ == encode_utf8(b@),
            forall|j: int| 0 <= j < i ==> x@[j] == y@[j],
        decreases x.len() - i,
    {
        if x[i] != y[i] {
            return false;
        }
        i = i + 1;
    }
    proof {
        assert(x@ =~= y@);
        encode_utf8_decode_utf8(a@);
        encode_utf8_decode_utf8(b@);
    }
    true
}

} // verus!
