//! Scan identifiers: 128-bit random values with a canonical textual form.

use vstd::prelude::*;

verus! {

/// The lower-case hexadecimal digit that stands for `n`, for `0 <= n < 16`.
pub open spec fn hex_digit(n: int) -> char {
    seq!['0', '1', '2', '3', '4', '5', '6', '7', '8', '9', 'a', 'b', 'c', 'd', 'e', 'f'][n]
}

/// The `k`-th group of four bits of `bits`, counted from the most
/// significant end, for `0 <= k < 32`.
pub open spec fn nibble(bits: u128, k: int) -> int {
    ((bits as int) / vstd::arithmetic::power::pow(16, (31 - k) as nat)) % 16
}

/// The canonical text of an identifier: its 32 hexadecimal digits in lower
/// case, most significant first, in groups of 8, 4, 4, 4 and 12 that are
/// separated by hyphens.
pub open spec fn hyphenated(bits: u128) -> Seq<char> {
    Seq::new(
        36,
        |i: int|
            if i == 8 || i == 13 || i == 18 || i == 23 {
                '-'
            } else if i < 8 {
                hex_digit(nibble(bits, i))
            } else if i < 13 {
                hex_digit(nibble(bits, i - 1))
            } else if i < 18 {
                hex_digit(nibble(bits, i - 2))
            } else if i < 23 {
                hex_digit(nibble(bits, i - 3))
            } else {
                hex_digit(nibble(bits, i - 4))
            },
    )
}

/// Whether `bits` carries the marks of a randomly generated identifier:
/// version 4 in bits 76 to 79 and the variant `10` in bits 62 and 63.
pub open spec fn random_marks(bits: u128) -> bool {
    (bits >> 76u128) & 0xfu128 == 4u128 && (bits >> 62u128) & 0x3u128 == 2u128
}

/// Draws a fresh identifier from `uuid::Uuid::new_v4` and hands out its 128
/// bits. Trusted: that function masks the version and variant fields into
/// the random bits, which is all that is claimed of the result.
/// `Uuid::new_v4` panics if the operating system fails to give random
/// numbers.
#[verifier::external_body]
fn random_bits() -> (bits: u128)
    ensures
        random_marks(bits),
{
    uuid::Uuid::new_v4().as_u128()
}

/// Formats `bits` through `uuid::Uuid`'s `Display`, which writes the
/// lower-case hyphenated form. Trusted to equal [`hyphenated`].
#[verifier::external_body]
fn bits_to_text(bits: u128) -> (s: String)
    ensures
        s@ == hyphenated(bits),
{
    uuid::Uuid::from_u128(bits).to_string()
}

/// Unique identifier of a scan session.
#[derive(Clone, Copy, Debug, PartialEq, Eq, Hash, Structural)]
pub struct ScanId(pub u128);

impl ScanId {
    /// The text under which the identifier is known to callers.
    pub open spec fn text(self) -> Seq<char> {
        hyphenated(self.0)
    }

    /// A fresh random identifier.
    ///
    /// Panics if the operating system fails to give random numbers.
    pub fn new() -> (id: Self)
        ensures
            random_marks(id.0),
    {
        ScanId(random_bits())
    }

    /// The canonical text of the identifier.
    pub fn to_string(&self) -> (s: String)
        ensures
            s@ == self.text(),
            s@.len() == 36,
    {
        bits_to_text(self.0)
    }
}

impl Default for ScanId {
    /// Panics if the operating system fails to give random numbers.
    fn default() -> (id: Self)
        ensures
            random_marks(id.0),
    {
        ScanId::new()
    }
}

} // verus!
