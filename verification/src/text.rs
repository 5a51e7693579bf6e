//! Text that the library renders: ASCII bytes as characters, decimal
//! numbers and the snake-case form of a type's name.

use vstd::prelude::*;

verus! {

/// `String::push` appends one character to the end of the string.
pub assume_specification[ String::push ](s: &mut String, ch: char)
    ensures
        final(s)@ == old(s)@.push(ch),
;

/// The bytes of an ASCII text, one for each character.
pub open spec fn ascii_bytes(chars: Seq<char>) -> Seq<u8> {
    Seq::new(chars.len(), |i: int| chars[i] as u8)
}

/// The text whose characters are the given ASCII bytes.
pub open spec fn ascii_chars(bytes: Seq<u8>) -> Seq<char> {
    Seq::new(bytes.len(), |i: int| bytes[i] as char)
}

/// The character that stands for the decimal digit `d`.
pub open spec fn decimal_digit(d: nat) -> char
    recommends
        d < 10,
{
    (0x30 + d) as u8 as char
}

/// The decimal numeral of `n`, without leading zeros.
pub open spec fn decimal(n: nat) -> Seq<char>
    decreases n,
{
    if n < 10 {
        seq![decimal_digit(n)]
    } else {
        decimal(n / 10).push(decimal_digit(n % 10))
    }
}

/// Appends the decimal numeral of `n` to `out`.
pub fn push_decimal(out: &mut String, n: usize)
    ensures
        final(out)@ == old(out)@ + decimal(n as nat),
    decreases n,
{
    if n >= 10 {
        push_decimal(out, n / 10);
    }
    let digit: u8 = (n % 10) as u8;
    out.push((0x30 + digit) as char);
}

/// Whether `c` is one of the letters `A` to `Z`.
pub open spec fn is_upper(c: char) -> bool {
    'A' <= c <= 'Z'
}

/// The lower-case letter of the upper-case letter `c`.
pub open spec fn lower(c: char) -> char
    recommends
        is_upper(c),
{
    (c as u8 + 32) as u8 as char
}

/// What one character of a name becomes: an upper-case letter becomes an
/// underscore and its lower-case letter, any other character stays.
pub open spec fn expand(c: char) -> Seq<char> {
    if is_upper(c) {
        seq!['_', lower(c)]
    } else {
        seq![c]
    }
}

/// `name` with each of its characters expanded.
pub open spec fn expand_all(name: Seq<char>) -> Seq<char>
    decreases name.len(),
{
    if name.len() == 0 {
        Seq::empty()
    } else {
        expand_all(name.drop_last()) + expand(name.last())
    }
}

/// `s` without the underscores that it begins with.
pub open spec fn trim_underscores(s: Seq<char>) -> Seq<char>
    decreases s.len(),
{
    if s.len() > 0 && s[0] == '_' {
        trim_underscores(s.drop_first())
    } else {
        s
    }
}

/// The snake-case form of a name: every upper-case letter `A` to `Z` gives
/// way to an underscore and its lower-case letter, and the underscores at the
/// front of what results are dropped.
pub open spec fn snake_case(name: Seq<char>) -> Seq<char> {
    trim_underscores(expand_all(name))
}

/// Trimming a concatenation: while the first part trims to nothing, the
/// second part is trimmed; otherwise the second part stays whole.
pub proof fn lemma_trim_concat(a: Seq<char>, b: Seq<char>)
    ensures
        trim_underscores(a + b) == if trim_underscores(a).len() == 0 {
            trim_underscores(b)
        } else {
            trim_underscores(a) + b
        },
    decreases a.len(),
{
    if a.len() > 0 && a[0] == '_' {
        assert((a + b).drop_first() =~= a.drop_first() + b);
        lemma_trim_concat(a.drop_first(), b);
    }
}

/// Trimming what one character expands to: an upper-case letter leaves its
/// lower-case letter, an underscore leaves nothing, any other character
/// leaves itself.
pub proof fn lemma_trim_expand(c: char)
    ensures
        trim_underscores(expand(c)) == if is_upper(c) {
            seq![lower(c)]
        } else if c == '_' {
            Seq::empty()
        } else {
            seq![c]
        },
{
    reveal_with_fuel(trim_underscores, 3);
}

/// Renders the snake-case form of `name`.
pub fn snake_case_name(name: &str) -> (snake: String)
    ensures
        snake@ == snake_case(name@),
{
    let mut snake = String::new();
    let mut started: bool = false;
    for c in it: name.chars()
        invariant
            it.seq() == name@,
            started == (snake@.len() > 0),
            snake@ == snake_case(name@.take(it.index() as int)),
    {
        proof {
            let done = name@.take(it.index() as int);
            let next = name@.take(it.index() + 1);
            assert(next.drop_last() =~= done);
            lemma_trim_concat(expand_all(done), expand(c));
            lemma_trim_expand(c);
        }
        if 'A' <= c && c <= 'Z' {
            if started {
                snake.push('_');
            }
            snake.push((c as u8 + 32) as char);
            started = true;
        } else if c == '_' {
            if started {
                snake.push('_');
            }
        } else {
            snake.push(c);
            started = true;
        }
    }
    assert(name@.take(name@.len() as int) =~= name@);
    snake
}

} // verus!
