use vstd::prelude::*;

verus! {

/// The standard base64 text (RFC 4648 alphabet, with `=` padding) of a byte sequence.
pub uninterp spec fn base64_of(bytes: Seq<u8>) -> Seq<char>;

/// Length of the padded base64 text of `n` bytes: four characters per started group of three.
pub open spec fn base64_len(n: int) -> int {
    4 * ((n + 2) / 3)
}

/// Relies on `base64::engine::general_purpose::STANDARD.encode`: the padded standard
/// encoding, whose length is given by `base64::encoded_len`. It panics only when that
/// length overflows `usize`, which `requires` rules out.
#[verifier::external_body]
pub(crate) fn encode_base64(bytes: &[u8]) -> (r: String)
    requires
        base64_len(bytes@.len() as int) <= usize::MAX,
    ensures
        r@ == base64_of(bytes@),
        r@.len() == base64_len(bytes@.len() as int),
{
    <base64::engine::GeneralPurpose as base64::Engine>::encode(&base64::engine::general_purpose::STANDARD, bytes)
}

/// A shorter input never has a longer encoding.
pub proof fn lemma_base64_len_monotonic(a: int, b: int)
    requires
        0 <= a <= b,
    ensures
        base64_len(a) <= base64_len(b),
{
}

} // verus!
