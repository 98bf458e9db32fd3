//! Identifiers: random 128-bit UUIDs, held as `u128` (`Uuid::as_u128`).
use vstd::prelude::*;

verus! {

/// The lower-case hexadecimal digit of `d` (`0 <= d < 16`).
pub open spec fn hex_digit(d: nat) -> char {
    if d < 10 {
        (48 + d) as char
    } else {
        (87 + d) as char
    }
}

/// The `k`-th hexadecimal digit of `v`, most significant first (`0 <= k < 32`).
pub open spec fn nibble(v: u128, k: int) -> nat {
    ((v as nat) / vstd::arithmetic::power2::pow2((4 * (31 - k)) as nat)) % 16
}

/// The text of a UUID in the hyphenated form `8-4-4-4-12`, lower case.
pub open spec fn uuid_text(v: u128) -> Seq<char> {
    Seq::new(
        36,
        |j: int|
            if j == 8 || j == 13 || j == 18 || j == 23 {
                '-'
            } else {
                let k = if j < 8 {
                    j
                } else if j < 13 {
                    j - 1
                } else if j < 18 {
                    j - 2
                } else if j < 23 {
                    j - 3
                } else {
                    j - 4
                };
                hex_digit(nibble(v, k))
            },
    )
}

/// `Uuid::new_v4()` as a `u128`: a random id. The uuid crate sets the
/// version nibble to 4 and the variant bits to `10`; nothing else about
/// the value is promised.
#[verifier::external_body]
pub(crate) fn new_id() -> (r: u128)
    ensures
        (r >> 76u128) & 0xfu128 == 4,
        (r >> 62u128) & 0x3u128 == 2,
{
    uuid::Uuid::new_v4().as_u128()
}

/// The `Display` text of `Uuid::from_u128(id)`: its hyphenated lower-case
/// hexadecimal form.
#[verifier::external_body]
pub(crate) fn id_to_string(id: u128) -> (r: String)
    ensures
        r@ == uuid_text(id),
{
    uuid::Uuid::from_u128(id).to_string()
}

/// An id made by `new_id` is never zero.
pub proof fn lemma_new_id_nonzero(r: u128)
    requires
        (r >> 76u128) & 0xfu128 == 4,
    ensures
        r != 0,
{
    assert(r == 0 ==> (r >> 76u128) & 0xfu128 == 0) by (bit_vector);
}

} // verus!
