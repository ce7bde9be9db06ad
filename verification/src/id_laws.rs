//! What the text of an identifier says.

use vstd::arithmetic::div_mod::{lemma_div_denominator, lemma_fundamental_div_mod};
use vstd::arithmetic::power::{lemma_pow_adds, lemma_pow_positive, pow};
use vstd::prelude::*;

use crate::ids::Uuid;

verus! {

/// Where the text of an identifier holds its hexadecimal digit `k`: behind one hyphen more from
/// the digits 8, 12, 16 and 20 on.
pub open spec fn place(k: int) -> int {
    if k < 8 {
        k
    } else if k < 12 {
        k + 1
    } else if k < 16 {
        k + 2
    } else if k < 20 {
        k + 3
    } else {
        k + 4
    }
}

/// The value of a lower-case hexadecimal digit.
pub open spec fn digit_value(c: char) -> int {
    if '0' <= c <= '9' {
        c as int - '0' as int
    } else {
        c as int - 'a' as int + 10
    }
}

/// The number that the first `m` hexadecimal digits of a text spell.
pub open spec fn spelled(text: Seq<char>, m: nat) -> int
    decreases m,
{
    if m == 0 {
        0
    } else {
        16 * spelled(text, (m - 1) as nat) + digit_value(text[place(m - 1)])
    }
}

proof fn lemma_nibble(id: Uuid, k: int)
    requires
        0 <= k < 32,
    ensures
        0 <= id.nibble(k) < 16,
        id.hyphenated()[place(k)] == crate::ids::hex_digit(id.nibble(k)),
        digit_value(id.hyphenated()[place(k)]) == id.nibble(k),
        '0' <= id.hyphenated()[place(k)] <= '9' || 'a' <= id.hyphenated()[place(k)] <= 'f',
{
    lemma_pow_positive(16, (31 - k) as nat);
    lemma_fundamental_div_mod(id.bits as int / pow(16, (31 - k) as nat), 16);
    let d = id.nibble(k);
    assert(0 <= d < 16);
}

proof fn lemma_spelled(id: Uuid, m: nat)
    requires
        m <= 32,
    ensures
        spelled(id.hyphenated(), m) == id.bits as int / pow(16, (32 - m) as nat),
    decreases m,
{
    let bits = id.bits as int;
    if m == 0 {
        reveal_with_fuel(pow, 33);
        assert(bits < pow(16, 32));
        assert(bits / pow(16, 32) == 0) by {
            vstd::arithmetic::div_mod::lemma_basic_div(bits, pow(16, 32));
        }
    } else {
        lemma_spelled(id, (m - 1) as nat);
        lemma_nibble(id, m - 1);
        let unit = pow(16, (32 - m) as nat);
        lemma_pow_positive(16, (32 - m) as nat);
        lemma_pow_adds(16, (32 - m) as nat, 1);
        reveal_with_fuel(pow, 2);
        assert(pow(16, 1) == 16);
        assert(pow(16, (33 - m) as nat) == unit * 16);
        lemma_div_denominator(bits, unit, 16);
        let x = bits / unit;
        lemma_fundamental_div_mod(x, 16);
        assert(bits / pow(16, (33 - m) as nat) == x / 16);
        assert(id.nibble(m - 1) == x % 16);
    }
}

/// The text of an identifier has 36 characters: hyphens at the places 8, 13, 18 and 23, and
/// lower-case hexadecimal digits elsewhere, which spell its 128 bits.
pub proof fn law_text_spells_the_bits(id: Uuid)
    ensures
        id.hyphenated().len() == 36,
        forall|i: int|
            0 <= i < 36 ==> if i == 8 || i == 13 || i == 18 || i == 23 {
                #[trigger] id.hyphenated()[i] == '-'
            } else {
                '0' <= id.hyphenated()[i] <= '9' || 'a' <= id.hyphenated()[i] <= 'f'
            },
        spelled(id.hyphenated(), 32) == id.bits,
{
    lemma_spelled(id, 32);
    reveal_with_fuel(pow, 1);
    assert(pow(16, 0) == 1);
    assert forall|i: int|
        0 <= i < 36 && !(i == 8 || i == 13 || i == 18 || i == 23) implies '0'
        <= #[trigger] id.hyphenated()[i] <= '9' || 'a' <= id.hyphenated()[i] <= 'f' by {
        let k = if i < 8 {
            i
        } else if i < 13 {
            i - 1
        } else if i < 18 {
            i - 2
        } else if i < 23 {
            i - 3
        } else {
            i - 4
        };
        assert(place(k) == i);
        lemma_nibble(id, k);
    }
}

/// Two identifiers that differ name two different manifests.
pub proof fn law_identifiers_name_different_manifests(location: Seq<char>, one: Uuid, other: Uuid)
    requires
        one != other,
    ensures
        crate::operation::rewritten_manifest_path(location, one)
            != crate::operation::rewritten_manifest_path(location, other),
{
    law_text_spells_the_bits(one);
    law_text_spells_the_bits(other);
    let front = location + "/metadata/"@;
    let back = "-m-overwrite.avro"@;
    let n = front.len() as int;
    let path = crate::operation::rewritten_manifest_path(location, one);
    let second = crate::operation::rewritten_manifest_path(location, other);
    if path == second {
        assert(path.subrange(n, n + 36) =~= one.hyphenated());
        assert(second.subrange(n, n + 36) =~= other.hyphenated());
        assert(one.bits == other.bits);
    }
}

/// An identifier of version 7 shows its version and its variant in the text: the digit 12 is 7,
/// and the digit 16 is one of 8, 9, a and b.
pub proof fn law_version_7_shows_in_the_text(id: Uuid)
    requires
        id.is_version_7(),
    ensures
        id.hyphenated()[14] == '7',
        id.hyphenated()[19] == '8' || id.hyphenated()[19] == '9' || id.hyphenated()[19] == 'a'
            || id.hyphenated()[19] == 'b',
{
    let bits = id.bits as int;
    lemma_nibble(id, 12);
    lemma_nibble(id, 16);
    reveal_with_fuel(pow, 77);
    assert(pow(16, 19) == pow(2, 76));
    assert(pow(16, 15) * 4 == pow(2, 62));
    lemma_pow_positive(16, 15);
    lemma_div_denominator(bits, pow(16, 15), 4);
    let x = bits / pow(16, 15);
    assert((x / 4) % 4 == 2);
    assert(8 <= x % 16 <= 11);
}

} // verus!
