//! The suffix of an identifier: a 128-bit number written as 22 base-62 digits.

use vstd::prelude::*;

verus! {

/// Number of bytes in a suffix.
pub const SUFFIX_LEN: usize = 22;

/// The 62 bytes a suffix may hold: the ASCII digits, then the upper-case and
/// the lower-case letters.
pub open spec fn is_alphabet_byte(byte: u8) -> bool {
    ||| 0x30 <= byte <= 0x39
    ||| 0x41 <= byte <= 0x5a
    ||| 0x61 <= byte <= 0x7a
}

/// The byte that stands for the base-62 digit `d`: `0`-`9` for 0 to 9, `A`-`Z`
/// for 10 to 35, `a`-`z` for 36 to 61.
pub open spec fn digit_symbol(d: nat) -> u8
    recommends
        d < 62,
{
    if d < 10 {
        (0x30 + d) as u8
    } else if d < 36 {
        (0x41 + (d - 10)) as u8
    } else {
        (0x61 + (d - 36)) as u8
    }
}

/// The base-62 numeral of `n`, most significant digit first, without leading
/// zeros; the numeral of zero is the single digit `0`.
pub open spec fn base62_digits(n: nat) -> Seq<u8>
    decreases n,
{
    if n < 62 {
        seq![digit_symbol(n)]
    } else {
        base62_digits(n / 62).push(digit_symbol(n % 62))
    }
}

/// The suffix that stands for `value`: its base-62 numeral, filled up on the
/// left with the digit `0` to 22 bytes.
pub open spec fn suffix_of(value: u128) -> Seq<u8> {
    let digits = base62_digits(value as nat);
    Seq::new((SUFFIX_LEN - digits.len()) as nat, |i: int| 0x30u8) + digits
}

/// Whether every byte of `bytes` is one of the 62 of the alphabet.
pub open spec fn all_alphabet(bytes: Seq<u8>) -> bool {
    forall|i: int| 0 <= i < bytes.len() ==> is_alphabet_byte(#[trigger] bytes[i])
}

/// 62 to the power `k`.
spec fn pow62(k: nat) -> nat
    decreases k,
{
    if k == 0 {
        1
    } else {
        62 * pow62((k - 1) as nat)
    }
}

/// A number below 62^k has at most `k` base-62 digits, and at least one.
proof fn lemma_digits_len(n: nat, k: nat)
    requires
        k >= 1,
        n < pow62(k),
    ensures
        1 <= base62_digits(n).len() <= k,
    decreases k,
{
    if n >= 62 {
        assert(pow62(1) == 62) by {
            reveal_with_fuel(pow62, 2);
        }
        lemma_digits_len(n / 62, (k - 1) as nat);
    }
}

/// Every 128-bit number has between 1 and 22 base-62 digits.
pub proof fn lemma_digits_fit(value: u128)
    ensures
        1 <= base62_digits(value as nat).len() <= SUFFIX_LEN,
{
    assert(pow62(22) == 2_707_803_647_802_660_400_290_261_537_185_326_956_544) by {
        reveal_with_fuel(pow62, 23);
    }
    lemma_digits_len(value as nat, 22);
}

/// Every digit of a base-62 numeral is a byte of the alphabet.
pub proof fn lemma_digits_alphabet(n: nat)
    ensures
        all_alphabet(base62_digits(n)),
    decreases n,
{
    if n >= 62 {
        lemma_digits_alphabet(n / 62);
    }
}

/// Every suffix is 22 bytes of the alphabet.
pub proof fn lemma_suffix_alphabet(value: u128)
    ensures
        suffix_of(value).len() == SUFFIX_LEN,
        all_alphabet(suffix_of(value)),
{
    lemma_digits_fit(value);
    lemma_digits_alphabet(value as nat);
}

/// Tells whether `byte` may stand in the suffix of an identifier.
pub fn is_valid_suffix_byte(byte: u8) -> (valid: bool)
    ensures
        valid == is_alphabet_byte(byte),
{
    (0x30 <= byte && byte <= 0x39) || (0x41 <= byte && byte <= 0x5a) || (0x61 <= byte && byte
        <= 0x7a)
}

/// `base62::EncodeError`, the error of `base62::encode_bytes`. Nothing is
/// read from a value of it.
#[verifier::external_type_specification]
#[verifier::external_body]
pub struct ExEncodeError(base62::EncodeError);

/// `rand::random::<u128>()`: a number drawn from the thread-local generator.
/// Nothing is claimed of the number. The call panics if the generator cannot
/// be seeded from the operating system.
#[verifier::external_body]
fn random_u128() -> (value: u128) {
    rand::random::<u128>()
}

/// `base62::encode_bytes`: writes the base-62 numeral of `num` to the front
/// of `buf` and returns the number of bytes written; the rest of `buf` is
/// left as it was. If `buf` is shorter than the numeral, nothing is written
/// and an error is returned.
///
/// The contract takes the numeral to be the one of [`base62_digits`]: digits
/// in the order `0`-`9`, `A`-`Z`, `a`-`z`, the most significant first, none
/// of them a leading zero, and the single digit `0` for zero.
#[verifier::external_body]
fn base62_encode_bytes(num: u128, buf: &mut [u8]) -> (written: Result<usize, base62::EncodeError>)
    ensures
        match written {
            Ok(count) => {
                &&& count == base62_digits(num as nat).len()
                &&& count <= old(buf)@.len()
                &&& final(buf)@ == base62_digits(num as nat) + old(buf)@.subrange(
                    count as int,
                    old(buf)@.len() as int,
                )
            },
            Err(_) => {
                &&& old(buf)@.len() < base62_digits(num as nat).len()
                &&& final(buf)@ == old(buf)@
            },
        },
{
    base62::encode_bytes(num, buf)
}

/// Writes `value` as a suffix: 22 base-62 digits, most significant first,
/// with `0` in the places that the numeral of `value` does not fill.
pub fn encode(value: u128) -> (suffix: [u8; 22])
    ensures
        suffix@ == suffix_of(value),
        all_alphabet(suffix@),
{
    proof {
        lemma_digits_fit(value);
        lemma_suffix_alphabet(value);
    }
    let mut numeral: [u8; 22] = [0x30u8; 22];
    let count: usize = match base62_encode_bytes(value, &mut numeral) {
        Ok(count) => count,
        Err(_) => vstd::pervasive::unreached(),
    };
    let pad: usize = SUFFIX_LEN - count;
    let mut suffix: [u8; 22] = [0x30u8; 22];
    let mut i: usize = 0;
    while i < count
        invariant
            i <= count <= 22,
            pad == 22 - count,
            forall|j: int| 0 <= j < pad ==> suffix@[j] == 0x30u8,
            forall|j: int| 0 <= j < i ==> suffix@[pad + j] == numeral@[j],
        decreases count - i,
    {
        suffix[pad + i] = numeral[i];
        i += 1;
    }
    assert forall|j: int| 0 <= j < SUFFIX_LEN implies suffix@[j] == suffix_of(value)[j] by {
        if j >= pad {
            assert(suffix@[pad + (j - pad)] == numeral@[j - pad]);
        }
    }
    suffix
}

/// Writes the suffix that stands for `value` to the first 22 bytes of `buf`
/// and leaves the bytes after them as they were.
pub fn encode_into(value: u128, buf: &mut [u8])
    requires
        old(buf)@.len() >= SUFFIX_LEN,
    ensures
        final(buf)@.len() == old(buf)@.len(),
        final(buf)@.subrange(0, SUFFIX_LEN as int) == suffix_of(value),
        forall|i: int| SUFFIX_LEN <= i < old(buf)@.len() ==> final(buf)@[i] == old(buf)@[i],
{
    let suffix: [u8; 22] = encode(value);
    let mut i: usize = 0;
    while i < SUFFIX_LEN
        invariant
            i <= SUFFIX_LEN <= buf@.len(),
            buf@.len() == old(buf)@.len(),
            forall|j: int| 0 <= j < i ==> buf@[j] == suffix@[j],
            forall|j: int| i <= j < buf@.len() ==> buf@[j] == old(buf)@[j],
        decreases SUFFIX_LEN - i,
    {
        buf[i] = suffix[i];
        i += 1;
    }
}

/// Draws a fresh 128-bit number and writes the suffix that stands for it to
/// the first 22 bytes of `buf`; the bytes after them stay as they were.
pub fn encode_suffix(buf: &mut [u8])
    requires
        old(buf)@.len() >= SUFFIX_LEN,
    ensures
        final(buf)@.len() == old(buf)@.len(),
        exists|value: u128| final(buf)@.subrange(0, SUFFIX_LEN as int) == #[trigger] suffix_of(value),
        all_alphabet(final(buf)@.subrange(0, SUFFIX_LEN as int)),
        forall|i: int| SUFFIX_LEN <= i < old(buf)@.len() ==> final(buf)@[i] == old(buf)@[i],
{
    let value: u128 = random_u128();
    encode_into(value, buf);
    proof {
        lemma_suffix_alphabet(value);
    }
}

} // verus!
