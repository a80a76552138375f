//! Fresh identifiers, drawn from the `uuid` crate.
use vstd::prelude::*;

verus! {

/// The lower-case hexadecimal digit of value `n` (`0 <= n < 16`).
pub open spec fn hex_digit(n: int) -> char {
    seq!['0', '1', '2', '3', '4', '5', '6', '7', '8', '9', 'a', 'b', 'c', 'd', 'e', 'f'][n]
}

/// The `i`-th 4-bit group of `x`, counted from the least significant.
pub open spec fn nibble(x: u128, i: nat) -> int {
    (x as int / vstd::arithmetic::power::pow(16, i)) % 16
}

/// Position `j` of the hyphenated form holds a `-`.
pub open spec fn is_hyphen_position(j: int) -> bool {
    j == 8 || j == 13 || j == 18 || j == 23
}

/// How many digits stand before position `j` of the hyphenated form.
pub open spec fn digits_before(j: int) -> int {
    j - (if j > 23 {
        4int
    } else if j > 18 {
        3int
    } else if j > 13 {
        2int
    } else if j > 8 {
        1int
    } else {
        0int
    })
}

/// The hyphenated lower-case form of the UUID with 128-bit value `x`: its 32
/// hexadecimal digits, most significant first, in groups of 8-4-4-4-12.
pub open spec fn uuid_hyphenated(x: u128) -> Seq<char> {
    Seq::new(
        36,
        |j: int|
            if is_hyphen_position(j) {
                '-'
            } else {
                hex_digit(nibble(x, (31 - digits_before(j)) as nat))
            },
    )
}

/// A UUID of version 4 (random) and of the RFC 9562 variant.
pub open spec fn is_v4(x: u128) -> bool {
    (x >> 76u128) & 0xFu128 == 4 && (x >> 62u128) & 0x3u128 == 2
}

/// Relies on `uuid::Uuid::new_v4`, which draws random bits and then sets the
/// version bits to 4 and the variant bits to `0b10`, and on `Uuid::as_u128`.
#[verifier::external_body]
pub(crate) fn random_uuid() -> (r: u128)
    ensures
        is_v4(r),
{
    uuid::Uuid::new_v4().as_u128()
}

/// Relies on `uuid::Uuid::from_u128` and the `Display` of `uuid::Uuid`,
/// which writes the hyphenated lower-case form.
#[verifier::external_body]
pub(crate) fn uuid_text(x: u128) -> (r: String)
    ensures
        r@ == uuid_hyphenated(x),
{
    uuid::Uuid::from_u128(x).to_string()
}

/// No character of the hyphenated form is a `/` or a `.`.
pub proof fn lemma_uuid_text_chars(x: u128)
    ensures
        uuid_hyphenated(x).len() == 36,
        !uuid_hyphenated(x).contains('/'),
        !uuid_hyphenated(x).contains('.'),
{
    let s = uuid_hyphenated(x);
    let h = seq!['0', '1', '2', '3', '4', '5', '6', '7', '8', '9', 'a', 'b', 'c', 'd', 'e', 'f'];
    assert forall|n: int| 0 <= n < 16 implies h[n] != '/' && h[n] != '.' by {
        assert(h[n] == hex_digit(n));
    }
    if s.contains('/') || s.contains('.') {
        let j = choose|j: int| 0 <= j < s.len() && (s[j] == '/' || s[j] == '.');
        if !is_hyphen_position(j) {
            let n = nibble(x, (31 - digits_before(j)) as nat);
            assert(s[j] == h[n]);
        }
    }
}

} // verus!
