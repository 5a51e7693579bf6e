//! Identifier types and the identifiers of a type.

use crate::error::Error;
use crate::layout::{
    find_foreign, is_puid, lemma_first_foreign, lemma_parse_accepts, parse, starts_with,
    SEPARATOR,
};
use crate::suffix::{all_alphabet, encode, encode_suffix, suffix_of, SUFFIX_LEN};
use crate::text::{
    ascii_bytes, ascii_chars, decimal, push_decimal, snake_case, snake_case_name,
};
use vstd::prelude::*;
use vstd::string::{StringExecFns, StringSliceAdditionalSpecFns};
use vstd::utf8::{is_ascii_chars, is_ascii_chars_encode_utf8};

verus! {

/// What a prefix has to be: not empty, ASCII, free of underscores, and short
/// enough for the length of an identifier to fit in a `usize`.
pub open spec fn valid_prefix(prefix: Seq<char>) -> bool {
    &&& 1 <= prefix.len()
    &&& prefix.len() + 1 + SUFFIX_LEN <= usize::MAX
    &&& is_ascii_chars(prefix)
    &&& forall|i: int| 0 <= i < prefix.len() ==> prefix[i] != '_'
}

/// A type of identifiers: its name and the prefix that its identifiers begin
/// with.
#[derive(Debug, PartialEq, Eq)]
pub struct IdType {
    name: String,
    prefix: String,
}

impl IdType {
    /// Every identifier type has a valid prefix.
    #[verifier::type_invariant]
    pub closed spec fn wf(&self) -> bool {
        valid_prefix(self.prefix@)
    }

    /// The name of the type.
    pub closed spec fn spec_name(&self) -> Seq<char> {
        self.name@
    }

    /// The prefix of the type.
    pub closed spec fn spec_prefix(&self) -> Seq<char> {
        self.prefix@
    }

    /// The bytes of the prefix.
    pub open spec fn prefix_bytes(&self) -> Seq<u8> {
        ascii_bytes(self.spec_prefix())
    }

    /// The length in bytes of every identifier of the type.
    pub open spec fn spec_len(&self) -> nat {
        self.spec_prefix().len() + 1 + SUFFIX_LEN as nat
    }

    /// Defines the identifier type `name` with the prefix `prefix`, if the
    /// prefix is valid.
    pub fn new(name: &str, prefix: &str) -> (ty: Option<IdType>)
        ensures
            ty is Some <==> valid_prefix(prefix@),
            ty matches Some(t) ==> t.wf() && t.spec_name() == name@ && t.spec_prefix() == prefix@,
    {
        if !prefix.is_ascii() {
            return None;
        }
        broadcast use vstd::string::is_ascii_spec_bytes;

        let bytes: &[u8] = prefix.as_bytes();
        let len: usize = bytes.len();
        if len == 0 || len > usize::MAX - 1 - SUFFIX_LEN {
            return None;
        }
        let mut i: usize = 0;
        while i < len
            invariant
                i <= len,
                len == bytes@.len(),
                bytes@ == ascii_bytes(prefix@),
                is_ascii_chars(prefix@),
                forall|j: int| 0 <= j < i ==> prefix@[j] != '_',
            decreases len - i,
        {
            if bytes[i] == SEPARATOR {
                return None;
            }
            i += 1;
        }
        Some(IdType { name: name.to_owned(), prefix: prefix.to_owned() })
    }

    /// The name of the type.
    pub fn name(&self) -> (name: &str)
        ensures
            name@ == self.spec_name(),
    {
        self.name.as_str()
    }

    /// The prefix of the type.
    pub fn prefix(&self) -> (prefix: &str)
        ensures
            prefix@ == self.spec_prefix(),
            prefix.spec_bytes() == self.prefix_bytes(),
            valid_prefix(prefix@),
    {
        let prefix: &str = self.prefix.as_str();
        proof {
            use_type_invariant(self);
            is_ascii_chars_encode_utf8(prefix@);
        }
        prefix
    }

    /// The length in bytes of every identifier of the type.
    pub fn len(&self) -> (len: usize)
        ensures
            len == self.spec_len(),
    {
        let prefix: &str = self.prefix.as_str();
        proof {
            use_type_invariant(self);
            is_ascii_chars_encode_utf8(prefix@);
        }
        prefix.len() + 1 + SUFFIX_LEN
    }
}

impl Clone for IdType {
    fn clone(&self) -> (copy: Self)
        ensures
            copy == *self,
    {
        proof {
            use_type_invariant(self);
        }
        IdType { name: self.name.clone(), prefix: self.prefix.clone() }
    }
}

/// The text of the statement that defines the domain of the identifiers of
/// the type `name` with the prefix `prefix`: a `CHAR` of the identifiers'
/// length, checked against their pattern.
pub open spec fn domain_text(name: Seq<char>, prefix: Seq<char>) -> Seq<char> {
    "CREATE DOMAIN "@ + snake_case(name) + " AS CHAR("@ + decimal(
        prefix.len() + 1 + SUFFIX_LEN as nat,
    ) + ") CHECK (VALUE ~ '^"@ + prefix + "_[0-9A-Za-z]{22}$');"@
}

/// An identifier: the prefix of its type, the separator and a suffix of 22
/// bytes of the alphabet. Identifiers are ordered as their bytes are.
#[derive(Debug, PartialEq, Eq, PartialOrd, Ord, Hash)]
pub struct Puid {
    text: String,
}

impl View for Puid {
    type V = Seq<u8>;

    /// The bytes of the identifier.
    open spec fn view(&self) -> Seq<u8> {
        ascii_bytes(self.rendering())
    }
}

impl Puid {
    /// The identifier as text.
    pub closed spec fn rendering(&self) -> Seq<char> {
        self.text@
    }

    /// The prefix of the identifier: its bytes before the separator.
    pub open spec fn prefix(&self) -> Seq<u8> {
        self@.subrange(0, self@.len() - 1 - SUFFIX_LEN)
    }

    /// The suffix of the identifier: its last 22 bytes.
    pub open spec fn suffix(&self) -> Seq<u8> {
        self@.subrange(self@.len() - SUFFIX_LEN, self@.len() as int)
    }

    /// Every identifier is ASCII text laid out as prefix, separator and
    /// suffix.
    #[verifier::type_invariant]
    pub open spec fn wf(&self) -> bool {
        &&& is_ascii_chars(self.rendering())
        &&& is_puid(self.prefix(), self@)
    }

    /// Puts the prefix of `ty`, the separator and `suffix` together.
    fn assemble(ty: &IdType, suffix: &[u8]) -> (id: Puid)
        requires
            suffix@.len() == SUFFIX_LEN,
            all_alphabet(suffix@),
        ensures
            id.wf(),
            id.prefix() == ty.prefix_bytes(),
            id.suffix() == suffix@,
            id@ == ty.prefix_bytes() + seq![SEPARATOR] + suffix@,
    {
        proof {
            use_type_invariant(ty);
        }
        let mut text: String = ty.prefix.clone();
        text.push('_');
        let mut i: usize = 0;
        while i < SUFFIX_LEN
            invariant
                i <= SUFFIX_LEN,
                suffix@.len() == SUFFIX_LEN,
                text@ == ty.prefix@ + seq!['_'] + ascii_chars(suffix@.subrange(0, i as int)),
            decreases SUFFIX_LEN - i,
        {
            text.push(suffix[i] as char);
            i += 1;
        }
        Puid { text }
    }

    /// The identifier of type `ty` whose suffix stands for `value`.
    pub fn from_value(ty: &IdType, value: u128) -> (id: Puid)
        ensures
            id.wf(),
            id.prefix() == ty.prefix_bytes(),
            id.suffix() == suffix_of(value),
            id@ == ty.prefix_bytes() + seq![SEPARATOR] + suffix_of(value),
    {
        let suffix: [u8; 22] = encode(value);
        Puid::assemble(ty, suffix.as_slice())
    }

    /// A fresh identifier of type `ty`: its suffix stands for a 128-bit number
    /// drawn from the thread-local random generator.
    pub fn new(ty: &IdType) -> (id: Puid)
        ensures
            id.wf(),
            id.prefix() == ty.prefix_bytes(),
            all_alphabet(id.suffix()),
            exists|value: u128| id.suffix() == #[trigger] suffix_of(value),
    {
        let mut suffix: [u8; 22] = [0x30u8; 22];
        encode_suffix(&mut suffix);
        assert(suffix@.subrange(0, SUFFIX_LEN as int) =~= suffix@);
        Puid::assemble(ty, suffix.as_slice())
    }

    /// Parses `s` as an identifier of type `ty`. The checks are made in this
    /// order: the length of `s`, its prefix, the separator, and the bytes of
    /// its suffix from left to right; the first that fails gives the error.
    pub fn from_str(ty: &IdType, s: &str) -> (parsed: Result<Puid, Error>)
        ensures
            match parsed {
                Ok(id) => {
                    &&& parse(ty.prefix_bytes(), s.spec_bytes()) == Ok::<Seq<u8>, Error>(id@)
                    &&& id@ == s.spec_bytes()
                    &&& id.prefix() == ty.prefix_bytes()
                    &&& id.wf()
                },
                Err(error) => parse(ty.prefix_bytes(), s.spec_bytes()) == Err::<Seq<u8>, Error>(
                    error,
                ),
            },
    {
        let prefix: &[u8] = ty.prefix.as_str().as_bytes();
        let text: &[u8] = s.as_bytes();
        proof {
            use_type_invariant(ty);
            is_ascii_chars_encode_utf8(ty.prefix@);
            assert(prefix@ =~= ty.prefix_bytes());
        }
        let prefix_len: usize = prefix.len();
        let len: usize = prefix_len + 1 + SUFFIX_LEN;
        if text.len() != len {
            return Err(Error::InvalidLength);
        }
        if !starts_with(text, prefix) {
            return Err(Error::InvalidPrefix);
        }
        if text[prefix_len] != SEPARATOR {
            return Err(Error::InvalidFormat);
        }
        let suffix: &[u8] = vstd::slice::slice_subrange(text, prefix_len + 1, len);
        match find_foreign(suffix) {
            Some(byte) => Err(Error::InvalidSuffixChar(byte)),
            None => {
                proof {
                    lemma_first_foreign(suffix@);
                }
                Ok(Puid::assemble(ty, suffix))
            },
        }
    }

    /// The statement that defines the domain of the identifiers of `ty` in a
    /// database: the domain is named by the snake-case form of the type's
    /// name, and its values are texts of fixed length, the length of the
    /// identifiers, that match the prefix, the separator and 22 characters of
    /// the alphabet.
    pub fn create_domain(ty: &IdType) -> (sql: String)
        ensures
            sql@ == domain_text(ty.spec_name(), ty.spec_prefix()),
    {
        let mut sql: String = String::from_str("CREATE DOMAIN ");
        let name: String = snake_case_name(ty.name());
        sql.append(name.as_str());
        sql.append(" AS CHAR(");
        push_decimal(&mut sql, ty.len());
        sql.append(") CHECK (VALUE ~ '^");
        sql.append(ty.prefix());
        sql.append("_[0-9A-Za-z]{22}$');");
        sql
    }

    /// The identifier as text; the text borrows from the identifier.
    pub fn as_str(&self) -> (text: &str)
        ensures
            text@ == self.rendering(),
            text.spec_bytes() == self@,
            self.wf(),
    {
        let text: &str = self.text.as_str();
        proof {
            use_type_invariant(self);
            is_ascii_chars_encode_utf8(text@);
        }
        text
    }

    /// The identifier as an owned text.
    pub fn to_string(&self) -> (text: String)
        ensures
            text@ == self.rendering(),
    {
        self.text.clone()
    }
}

impl Clone for Puid {
    fn clone(&self) -> (copy: Self)
        ensures
            copy == *self,
    {
        proof {
            use_type_invariant(self);
        }
        Puid { text: self.text.clone() }
    }
}

/// Parsing the text of an identifier of a type gives the identifier back:
/// for every identifier `id` of type `ty`, `from_str(ty, id.as_str())`
/// succeeds with the bytes of `id`.
pub proof fn lemma_round_trip(ty: IdType, id: Puid)
    requires
        ty.wf(),
        id.wf(),
        id.prefix() == ty.prefix_bytes(),
    ensures
        parse(ty.prefix_bytes(), id@) == Ok::<Seq<u8>, Error>(id@),
{
    lemma_parse_accepts(ty.prefix_bytes(), id@);
}

/// The text of an identifier has the length of its type, begins with the
/// prefix of its type followed by the separator, and ends with 22 bytes of
/// the alphabet.
pub proof fn lemma_layout(ty: IdType, id: Puid)
    requires
        ty.wf(),
        id.wf(),
        id.prefix() == ty.prefix_bytes(),
    ensures
        id@.len() == ty.spec_len(),
        id.rendering().len() == ty.spec_len(),
        id@.subrange(0, ty.spec_prefix().len() as int + 1) == ty.prefix_bytes().push(SEPARATOR),
        id.rendering().subrange(0, ty.spec_prefix().len() as int + 1) == ty.spec_prefix().push('_'),
        all_alphabet(id.suffix()),
{
    let n = ty.spec_prefix().len() as int;
    assert(id@.subrange(0, n + 1) =~= ty.prefix_bytes().push(SEPARATOR));
    assert(id.rendering().subrange(0, n + 1) =~= ty.spec_prefix().push('_')) by {
        assert forall|i: int| 0 <= i < n implies id.rendering()[i] == ty.spec_prefix()[i] by {
            assert(ty.prefix_bytes()[i] == ty.spec_prefix()[i] as u8);
        }
    }
}

/// Identifiers with the same bytes have the same text: what `as_str` returns
/// depends on the bytes of the identifier alone.
pub proof fn lemma_rendering_by_bytes(a: Puid, b: Puid)
    requires
        a.wf(),
        b.wf(),
        a@ == b@,
    ensures
        a.rendering() == b.rendering(),
{
    assert forall|i: int| 0 <= i < a.rendering().len() implies a.rendering()[i] == b.rendering()[i] by {
        assert(b@[i] == b.rendering()[i] as u8);
    }
}

} // verus!
