//! The layout of an identifier in bytes: prefix, separator, suffix; and what
//! parsing a text against that layout gives.

use crate::error::Error;
use crate::suffix::{all_alphabet, is_alphabet_byte, is_valid_suffix_byte, SUFFIX_LEN};
use vstd::prelude::*;

verus! {

/// The byte between prefix and suffix: an underscore.
pub const SEPARATOR: u8 = 0x5f;

/// Whether `bytes` is an identifier with the prefix `prefix`: the prefix,
/// which is not empty and holds ASCII bytes other than the separator, then
/// the separator, then 22 bytes of the alphabet.
pub open spec fn is_puid(prefix: Seq<u8>, bytes: Seq<u8>) -> bool {
    &&& prefix.len() >= 1
    &&& forall|i: int| 0 <= i < prefix.len() ==> prefix[i] < 0x80 && prefix[i] != SEPARATOR
    &&& bytes.len() == prefix.len() + 1 + SUFFIX_LEN
    &&& bytes.subrange(0, prefix.len() as int) == prefix
    &&& bytes[prefix.len() as int] == SEPARATOR
    &&& all_alphabet(bytes.subrange(prefix.len() as int + 1, bytes.len() as int))
}

/// The first byte of `bytes` that is not of the alphabet, if there is one.
pub open spec fn first_foreign(bytes: Seq<u8>) -> Option<u8>
    decreases bytes.len(),
{
    if bytes.len() == 0 {
        None
    } else if !is_alphabet_byte(bytes[0]) {
        Some(bytes[0])
    } else {
        first_foreign(bytes.drop_first())
    }
}

/// What parsing `text` as an identifier with the prefix `prefix` gives: the
/// bytes of the identifier, or the error of the first check that fails. The
/// checks are made in this order: length, prefix, separator, suffix bytes
/// from left to right. The bytes of the identifier are the prefix, the
/// separator and the suffix of `text`.
pub open spec fn parse(prefix: Seq<u8>, text: Seq<u8>) -> Result<Seq<u8>, Error> {
    if text.len() != prefix.len() + 1 + SUFFIX_LEN {
        Err(Error::InvalidLength)
    } else if text.subrange(0, prefix.len() as int) != prefix {
        Err(Error::InvalidPrefix)
    } else if text[prefix.len() as int] != SEPARATOR {
        Err(Error::InvalidFormat)
    } else {
        let suffix = text.subrange(prefix.len() as int + 1, text.len() as int);
        match first_foreign(suffix) {
            Some(byte) => Err(Error::InvalidSuffixChar(byte)),
            None => Ok(prefix + seq![SEPARATOR] + suffix),
        }
    }
}

/// Bytes of the alphabet at the front of `bytes` do not change which byte is
/// its first foreign one.
pub proof fn lemma_first_foreign_skip(bytes: Seq<u8>, n: int)
    requires
        0 <= n <= bytes.len(),
        all_alphabet(bytes.subrange(0, n)),
    ensures
        first_foreign(bytes) == first_foreign(bytes.subrange(n, bytes.len() as int)),
    decreases n,
{
    if n == 0 {
        assert(bytes.subrange(0, bytes.len() as int) =~= bytes);
    } else {
        assert(bytes.subrange(0, n)[0] == bytes[0]);
        let rest = bytes.drop_first();
        assert(rest.subrange(0, n - 1) =~= bytes.subrange(0, n).drop_first());
        lemma_first_foreign_skip(rest, n - 1);
        assert(rest.subrange(n - 1, rest.len() as int) =~= bytes.subrange(n, bytes.len() as int));
    }
}

/// There is no foreign byte exactly when every byte is of the alphabet; and
/// the first foreign byte, if there is one, is a byte of `bytes` that is not
/// of the alphabet.
pub proof fn lemma_first_foreign(bytes: Seq<u8>)
    ensures
        first_foreign(bytes) is None <==> all_alphabet(bytes),
        first_foreign(bytes) matches Some(byte) ==> !is_alphabet_byte(byte) && bytes.contains(byte),
    decreases bytes.len(),
{
    if bytes.len() > 0 {
        let rest = bytes.drop_first();
        lemma_first_foreign(rest);
        if is_alphabet_byte(bytes[0]) && all_alphabet(rest) {
            assert forall|i: int| 0 <= i < bytes.len() implies is_alphabet_byte(
                #[trigger] bytes[i],
            ) by {
                if i > 0 {
                    assert(bytes[i] == rest[i - 1]);
                }
            }
        }
    }
}

/// Which error a text gets: a text of the wrong length is of invalid length,
/// whatever else is wrong with it; one of the right length that does not
/// begin with the prefix has an invalid prefix; one of the right length and
/// prefix without the separator after it has an invalid format; and one with
/// length, prefix and separator in order, but a byte in its suffix that is
/// not of the alphabet, has an invalid suffix character, namely the first
/// such byte.
pub proof fn lemma_rejection_order(prefix: Seq<u8>, text: Seq<u8>)
    ensures
        text.len() != prefix.len() + 1 + SUFFIX_LEN ==> parse(prefix, text) == Err::<Seq<u8>, Error>(
            Error::InvalidLength,
        ),
        text.len() == prefix.len() + 1 + SUFFIX_LEN && text.subrange(0, prefix.len() as int)
            != prefix ==> parse(prefix, text) == Err::<Seq<u8>, Error>(Error::InvalidPrefix),
        text.len() == prefix.len() + 1 + SUFFIX_LEN && text.subrange(0, prefix.len() as int)
            == prefix && text[prefix.len() as int] != SEPARATOR ==> parse(prefix, text) == Err::<
            Seq<u8>,
            Error,
        >(Error::InvalidFormat),
        forall|k: int|
            text.len() == prefix.len() + 1 + SUFFIX_LEN && text.subrange(0, prefix.len() as int)
                == prefix && text[prefix.len() as int] == SEPARATOR && prefix.len() < k < text.len()
                && !is_alphabet_byte(#[trigger] text[k]) && all_alphabet(
                text.subrange(prefix.len() as int + 1, k),
            ) ==> parse(prefix, text) == Err::<Seq<u8>, Error>(Error::InvalidSuffixChar(text[k])),
{
    assert forall|k: int|
        text.len() == prefix.len() + 1 + SUFFIX_LEN && text.subrange(0, prefix.len() as int)
            == prefix && text[prefix.len() as int] == SEPARATOR && prefix.len() < k < text.len()
            && !is_alphabet_byte(#[trigger] text[k]) && all_alphabet(
            text.subrange(prefix.len() as int + 1, k),
        ) implies parse(prefix, text) == Err::<Seq<u8>, Error>(Error::InvalidSuffixChar(text[k])) by {
        let suffix = text.subrange(prefix.len() as int + 1, text.len() as int);
        let seen = k - prefix.len() - 1;
        lemma_first_foreign_skip(suffix, seen);
    }
}

/// Parsing succeeds on the identifiers with the prefix and on no other text,
/// and gives the text back.
pub proof fn lemma_parse_accepts(prefix: Seq<u8>, text: Seq<u8>)
    requires
        prefix.len() >= 1,
        forall|i: int| 0 <= i < prefix.len() ==> prefix[i] < 0x80 && prefix[i] != SEPARATOR,
    ensures
        parse(prefix, text) is Ok <==> is_puid(prefix, text),
        parse(prefix, text) is Ok ==> parse(prefix, text) == Ok::<Seq<u8>, Error>(text),
{
    if text.len() == prefix.len() + 1 + SUFFIX_LEN {
        let suffix = text.subrange(prefix.len() as int + 1, text.len() as int);
        lemma_first_foreign(suffix);
        if parse(prefix, text) is Ok {
            assert(text =~= prefix + seq![SEPARATOR] + suffix);
        }
    }
}

/// Tells whether `text` begins with `prefix`.
pub fn starts_with(text: &[u8], prefix: &[u8]) -> (found: bool)
    ensures
        found == (prefix@.len() <= text@.len() && text@.subrange(0, prefix@.len() as int)
            == prefix@),
{
    if text.len() < prefix.len() {
        return false;
    }
    let mut i: usize = 0;
    while i < prefix.len()
        invariant
            i <= prefix@.len() <= text@.len(),
            text@.subrange(0, i as int) == prefix@.subrange(0, i as int),
        decreases prefix@.len() - i,
    {
        if text[i] != prefix[i] {
            return false;
        }
        i += 1;
    }
    assert(prefix@.subrange(0, prefix@.len() as int) =~= prefix@);
    true
}

/// Finds the first byte of `bytes` that is not of the alphabet.
pub fn find_foreign(bytes: &[u8]) -> (found: Option<u8>)
    ensures
        found == first_foreign(bytes@),
{
    let mut i: usize = 0;
    while i < bytes.len()
        invariant
            i <= bytes@.len(),
            all_alphabet(bytes@.subrange(0, i as int)),
        decreases bytes@.len() - i,
    {
        let byte: u8 = bytes[i];
        if !is_valid_suffix_byte(byte) {
            proof {
                lemma_first_foreign_skip(bytes@, i as int);
            }
            return Some(byte);
        }
        i += 1;
    }
    proof {
        assert(bytes@.subrange(0, bytes@.len() as int) =~= bytes@);
        lemma_first_foreign(bytes@);
    }
    None
}

} // verus!
