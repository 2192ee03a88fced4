//! Session identifiers: 128-bit values, written as UUID text.
use vstd::prelude::*;
use vstd::arithmetic::power::pow;

verus! {

#[verifier::external_type_specification]
#[verifier::external_body]
pub struct ExUuidError(uuid::Error);

/// The lowercase hexadecimal digit for `n` in `0..16`.
pub open spec fn hex_digit(n: int) -> char {
    if n < 10 {
        (48 + n) as char
    } else {
        (87 + n) as char
    }
}

/// The `k`-th hexadecimal digit of `id`, counted from the most significant one.
pub open spec fn nibble(id: u128, k: int) -> int {
    (id as int / pow(16, (31 - k) as nat)) % 16
}

/// The digits `from..to` of `id`.
pub open spec fn hex_run(id: u128, from: int, to: int) -> Seq<char> {
    Seq::new((to - from) as nat, |i: int| hex_digit(nibble(id, from + i)))
}

/// The hyphenated lowercase text of an identifier, such as
/// `67e55044-10b1-426f-9247-bb680e5fe0c8`.
pub open spec fn hyphenated(id: u128) -> Seq<char> {
    hex_run(id, 0, 8) + seq!['-'] + hex_run(id, 8, 12) + seq!['-'] + hex_run(id, 12, 16)
        + seq!['-'] + hex_run(id, 16, 20) + seq!['-'] + hex_run(id, 20, 32)
}

/// The identifier that `uuid::Uuid::parse_str` reads from a text, if any.
pub uninterp spec fn uuid_parse(text: Seq<char>) -> Option<u128>;

/// Calls `uuid::Uuid::to_string` on the identifier. The crate's `Display`
/// writes the hyphenated lowercase form, which is what the contract claims.
#[verifier::external_body]
pub(crate) fn uuid_text(id: u128) -> (s: String)
    ensures
        s@ == hyphenated(id),
{
    uuid::Uuid::from_u128(id).to_string()
}

/// Calls `uuid::Uuid::parse_str`. The contract ties the result to the name
/// `uuid_parse`, and claims the documented fact that the hyphenated form of
/// an identifier reads back as that identifier.
#[verifier::external_body]
pub(crate) fn parse_uuid(text: &str) -> (r: Result<u128, uuid::Error>)
    ensures
        match r {
            Ok(u) => uuid_parse(text@) == Some(u),
            Err(_) => uuid_parse(text@) is None,
        },
        forall|u: u128| text@ == hyphenated(u) ==> (r is Ok && r->Ok_0 == u),
{
    match uuid::Uuid::parse_str(text) {
        Ok(u) => Ok(u.as_u128()),
        Err(e) => Err(e),
    }
}

/// Calls `uuid::Uuid::new_v4`. The value is random; the contract claims only
/// its version nibble (4) and its variant bits (`10`), which the crate sets.
#[verifier::external_body]
pub(crate) fn new_uuid() -> (id: u128)
    ensures
        (id >> 76u128) & 0xfu128 == 4u128,
        (id >> 62u128) & 3u128 == 2u128,
{
    uuid::Uuid::new_v4().as_u128()
}

/// The value of the first `k` hexadecimal digits of `id`.
spec fn high_digits(id: u128, k: nat) -> int {
    id as int / pow(16, (32 - k) as nat)
}

proof fn lemma_high_digits_step(id: u128, k: nat)
    requires
        k < 32,
    ensures
        high_digits(id, k + 1) == high_digits(id, k) * 16 + nibble(id, k as int),
{
    let c = pow(16, (31 - k) as nat);
    vstd::arithmetic::power::lemma_pow_positive(16, (31 - k) as nat);
    assert(pow(16, (32 - k) as nat) == 16 * c) by {
        reveal(pow);
    }
    let x = id as int / c;
    vstd::arithmetic::div_mod::lemma_fundamental_div_mod(x, 16);
    vstd::arithmetic::div_mod::lemma_div_denominator(id as int, c, 16);
    vstd::arithmetic::mul::lemma_mul_is_commutative(c, 16);
    assert(high_digits(id, k) == x / 16);
    assert(high_digits(id, k + 1) == x);
}

proof fn lemma_high_digits_agree(a: u128, b: u128, k: nat)
    requires
        k <= 32,
        forall|j: int| 0 <= j < k ==> nibble(a, j) == nibble(b, j),
    ensures
        high_digits(a, k) == high_digits(b, k),
    decreases k,
{
    if k == 0 {
        assert(pow(16, 32) == 0x1_0000_0000_0000_0000_0000_0000_0000_0000) by {
            reveal_with_fuel(pow, 33);
        }
        vstd::arithmetic::div_mod::lemma_basic_div(a as int, pow(16, 32));
        vstd::arithmetic::div_mod::lemma_basic_div(b as int, pow(16, 32));
    } else {
        lemma_high_digits_agree(a, b, (k - 1) as nat);
        lemma_high_digits_step(a, (k - 1) as nat);
        lemma_high_digits_step(b, (k - 1) as nat);
    }
}

/// The hexadecimal digit of each value below sixteen is its own.
proof fn lemma_hex_digit_injective(x: int, y: int)
    requires
        0 <= x < 16,
        0 <= y < 16,
        hex_digit(x) == hex_digit(y),
    ensures
        x == y,
{
    assert(hex_digit(x) as int == if x < 10 { 48 + x } else { 87 + x });
    assert(hex_digit(y) as int == if y < 10 { 48 + y } else { 87 + y });
}

/// Distinct identifiers have distinct texts: the text of an identifier
/// names it alone.
pub proof fn lemma_hyphenated_injective(a: u128, b: u128)
    requires
        hyphenated(a) == hyphenated(b),
    ensures
        a == b,
{
    assert forall|k: int| 0 <= k < 32 implies nibble(a, k) == nibble(b, k) by {
        let p = if k < 8 { k } else if k < 12 { k + 1 } else if k < 16 { k + 2 } else if k < 20 { k + 3 } else { k + 4 };
        assert(hyphenated(a)[p] == hex_digit(nibble(a, k)));
        assert(hyphenated(b)[p] == hex_digit(nibble(b, k)));
        lemma_hex_digit_injective(nibble(a, k), nibble(b, k));
    }
    lemma_high_digits_agree(a, b, 32);
    assert(pow(16, 0) == 1) by {
        reveal(pow);
    }
}

} // verus!
