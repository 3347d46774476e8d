//! Puzzle, tile and request ids: RFC 4122 UUIDs, held as the 128-bit number
//! that they encode (most significant byte first).
use vstd::arithmetic::power::pow;
use vstd::prelude::*;

verus! {

/// The lower-case hexadecimal digit for `n` (0 to 15).
pub open spec fn hex_char(n: int) -> char {
    if n < 10 {
        (48 + n) as char
    } else {
        (87 + n) as char
    }
}

/// The `i`-th of the 32 hexadecimal digits of `id`, most significant first.
pub open spec fn uuid_nibble(id: u128, i: int) -> int {
    (id as int / pow(16, (31 - i) as nat)) % 16
}

/// The 32 lower-case hexadecimal digits of `id`, most significant first.
pub open spec fn uuid_digits(id: u128) -> Seq<char> {
    Seq::new(32, |i: int| hex_char(uuid_nibble(id, i)))
}

/// The hyphenated text form of a UUID: its digits in groups of 8, 4, 4, 4 and
/// 12, joined by '-'.
pub open spec fn spec_hyphenated(id: u128) -> Seq<char> {
    let d = uuid_digits(id);
    d.subrange(0, 8) + seq!['-'] + d.subrange(8, 12) + seq!['-'] + d.subrange(12, 16) + seq!['-']
        + d.subrange(16, 20) + seq!['-'] + d.subrange(20, 32)
}

/// `id` is a random (version 4, RFC 4122 variant) UUID.
pub open spec fn is_random_uuid(id: u128) -> bool {
    (id >> 76u128) & 0xfu128 == 4 && (id >> 62u128) & 0x3u128 == 2
}

proof fn lemma_quotient_step(x: int, j: nat)
    requires
        0 <= x,
    ensures
        x / pow(16, j) == (x / pow(16, (j + 1) as nat)) * 16 + (x / pow(16, j)) % 16,
{
    vstd::arithmetic::power::lemma_pow_positive(16, j);
    vstd::arithmetic::power::lemma_pow_adds(16, j, 1);
    vstd::arithmetic::power::lemma_pow1(16);
    let m = pow(16, j);
    vstd::arithmetic::div_mod::lemma_div_denominator(x, m, 16);
    vstd::arithmetic::div_mod::lemma_fundamental_div_mod(x / m, 16);
}

proof fn lemma_nibbles_determine(a: u128, b: u128, k: nat)
    requires
        k <= 32,
        forall|i: int| 0 <= i < 32 ==> #[trigger] uuid_nibble(a, i) == uuid_nibble(b, i),
    ensures
        a as int / pow(16, (32 - k) as nat) == b as int / pow(16, (32 - k) as nat),
    decreases k,
{
    if k == 0 {
        assert(pow(16, 32) == 0x1_0000_0000_0000_0000_0000_0000_0000_0000int) by {
            reveal_with_fuel(pow, 33);
        }
        vstd::arithmetic::div_mod::lemma_basic_div(a as int, pow(16, 32));
        vstd::arithmetic::div_mod::lemma_basic_div(b as int, pow(16, 32));
    } else {
        lemma_nibbles_determine(a, b, (k - 1) as nat);
        let j = (32 - k) as nat;
        lemma_quotient_step(a as int, j);
        lemma_quotient_step(b as int, j);
        assert(uuid_nibble(a, k - 1) == uuid_nibble(b, k - 1));
    }
}

proof fn lemma_hex_char_injective(m: int, n: int)
    requires
        0 <= m < 16,
        0 <= n < 16,
        hex_char(m) == hex_char(n),
    ensures
        m == n,
{
    assert(hex_char(m) as int == if m < 10 {
        48 + m
    } else {
        87 + m
    });
    assert(hex_char(n) as int == if n < 10 {
        48 + n
    } else {
        87 + n
    });
}

/// Different ids have different text: the hyphenated form of a UUID names
/// it alone.
pub proof fn lemma_hyphenated_injective(a: u128, b: u128)
    requires
        spec_hyphenated(a) == spec_hyphenated(b),
    ensures
        a == b,
{
    let da = uuid_digits(a);
    let db = uuid_digits(b);
    let ha = spec_hyphenated(a);
    let hb = spec_hyphenated(b);
    assert forall|i: int| 0 <= i < 32 implies #[trigger] uuid_nibble(a, i) == uuid_nibble(b, i) by {
        let p = if i < 8 {
            i
        } else if i < 12 {
            i + 1
        } else if i < 16 {
            i + 2
        } else if i < 20 {
            i + 3
        } else {
            i + 4
        };
        assert(ha[p] == da[i]);
        assert(hb[p] == db[i]);
        vstd::arithmetic::power::lemma_pow_positive(16, (31 - i) as nat);
        lemma_hex_char_injective(uuid_nibble(a, i), uuid_nibble(b, i));
    }
    lemma_nibbles_determine(a, b, 32);
    vstd::arithmetic::power::lemma_pow0(16);
}

/// What `uuid::Uuid::parse_str` gives for a text: the UUID it spells, in any
/// of the forms that the uuid crate accepts, or nothing.
pub uninterp spec fn spec_parse_uuid(text: Seq<char>) -> Option<u128>;

/// A new random UUID: `uuid::Uuid::new_v4`. The uuid crate masks random bits
/// so that the version is 4 and the variant is RFC 4122; nothing else is
/// claimed of the outcome.
#[verifier::external_body]
pub(crate) fn new_v4() -> (id: u128)
    ensures
        is_random_uuid(id),
{
    uuid::Uuid::new_v4().as_u128()
}

/// The text form of a UUID: `uuid::Uuid`'s `Display`, which writes the
/// hyphenated lower-case form.
#[verifier::external_body]
pub(crate) fn uuid_to_string(id: u128) -> (s: String)
    ensures
        s@ == spec_hyphenated(id),
{
    uuid::Uuid::from_u128(id).to_string()
}

/// Parses a UUID from text: `uuid::Uuid::parse_str`. The result is named;
/// of it only this is claimed, which the uuid crate documents: the
/// hyphenated form that `uuid_to_string` writes is read back as the same id.
#[verifier::external_body]
pub(crate) fn parse_uuid(text: &str) -> (r: Option<u128>)
    ensures
        r == spec_parse_uuid(text@),
        forall|id: u128| #[trigger] spec_hyphenated(id) == text@ ==> r == Some(id),
{
    uuid::Uuid::parse_str(text).ok().map(|id| id.as_u128())
}

} // verus!
