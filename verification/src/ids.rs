//! Universally unique identifiers of commits and manifest files.

use vstd::arithmetic::power::pow;
use vstd::prelude::*;

verus! {

/// A UUID, held as the 128-bit number that its sixteen bytes spell in big-endian order.
#[derive(Clone, Copy, Debug, PartialEq, Eq, Structural)]
pub struct Uuid {
    pub bits: u128,
}

impl Uuid {
    /// Whether the version field holds 7 and the variant field holds the bits `10`.
    pub open spec fn is_version_7(self) -> bool {
        &&& (self.bits as int / pow(2, 76)) % 16 == 7
        &&& (self.bits as int / pow(2, 62)) % 4 == 2
    }

    /// The hexadecimal digit at position `k`, counted from the most significant of the
    /// thirty-two.
    pub open spec fn nibble(self, k: int) -> int {
        (self.bits as int / pow(16, (31 - k) as nat)) % 16
    }

    /// The text form: groups of 8, 4, 4, 4 and 12 lower-case hexadecimal digits, joined by
    /// hyphens.
    pub open spec fn hyphenated(self) -> Seq<char> {
        Seq::new(
            36,
            |i: int|
                if i < 8 {
                    hex_digit(self.nibble(i))
                } else if i == 8 || i == 13 || i == 18 || i == 23 {
                    '-'
                } else if i < 13 {
                    hex_digit(self.nibble(i - 1))
                } else if i < 18 {
                    hex_digit(self.nibble(i - 2))
                } else if i < 23 {
                    hex_digit(self.nibble(i - 3))
                } else {
                    hex_digit(self.nibble(i - 4))
                },
        )
    }
}

/// The lower-case hexadecimal digit of `d`.
pub open spec fn hex_digit(d: int) -> char {
    if d < 10 {
        ('0' as int + d) as char
    } else {
        ('a' as int + (d - 10)) as char
    }
}

/// Calls `uuid::Uuid::now_v7`, which makes a version 7 UUID from the system clock, a counter of
/// the process and random bits.
///
/// Taken on trust: the version and variant fields are those of a version 7 UUID. Nothing is
/// claimed of the other bits, which time and chance decide. The call panics where the clock
/// stands before 1970 or the system gives no random bytes.
#[verifier::external_body]
pub(crate) fn now_v7() -> (id: Uuid)
    ensures
        id.is_version_7(),
{
    Uuid { bits: uuid::Uuid::now_v7().as_u128() }
}

/// Calls `to_string` on the `uuid::Uuid` that `uuid::Uuid::from_u128` makes of the same 128 bits.
///
/// Taken on trust: the text is the lower-case hyphenated form.
#[verifier::external_body]
pub(crate) fn uuid_text(id: Uuid) -> (text: String)
    ensures
        text@ == id.hyphenated(),
{
    uuid::Uuid::from_u128(id.bits).to_string()
}

} // verus!
