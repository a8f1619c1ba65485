//! Helpers on text: whitespace and words, prefixes and equality, texts that may be
//! absent, and the lossy decoding of bytes.

use vstd::prelude::*;
use vstd::std_specs::iter::IteratorSpec;
use vstd::string::StringExecFns;

verus! {

/// Whether a character has the Unicode `White_Space` property: the tab, the
/// line feed, the vertical tab, the form feed, the carriage return, the space,
/// the next line, the no-break space, the Ogham space mark, the spaces from the
/// en quad to the hair space, the line and paragraph separators, the narrow
/// no-break space, the medium mathematical space and the ideographic space.
pub open spec fn is_whitespace(c: char) -> bool {
    let code = c as u32;
    ||| 0x0009 <= code <= 0x000D
    ||| code == 0x0020
    ||| code == 0x0085
    ||| code == 0x00A0
    ||| code == 0x1680
    ||| 0x2000 <= code <= 0x200A
    ||| code == 0x2028
    ||| code == 0x2029
    ||| code == 0x202F
    ||| code == 0x205F
    ||| code == 0x3000
}

/// `char::is_whitespace` of the standard library, which tells whether a
/// character has the `White_Space` property. The contract lists the 25
/// characters that have it.
#[verifier::external_body]
pub(crate) fn char_is_whitespace(c: char) -> (b: bool)
    ensures
        b == is_whitespace(c),
{
    c.is_whitespace()
}

/// A line is blank when every character of it is whitespace (the empty line included).
pub open spec fn is_blank(s: Seq<char>) -> bool {
    forall|i: int| 0 <= i < s.len() ==> is_whitespace(#[trigger] s[i])
}

/// Position `i` begins a word: it holds a non-whitespace character that stands
/// first in the text or directly after whitespace.
pub open spec fn starts_word(s: Seq<char>, i: int) -> bool {
    &&& 0 <= i < s.len()
    &&& !is_whitespace(s[i])
    &&& (i == 0 || is_whitespace(s[i - 1]))
}

/// Number of words among the first `n` characters of `s`, a word being a maximal
/// run of non-whitespace characters.
pub open spec fn words_before(s: Seq<char>, n: nat) -> nat
    decreases n,
{
    if n == 0 {
        0
    } else {
        words_before(s, (n - 1) as nat) + if starts_word(s, n - 1) {
            1nat
        } else {
            0nat
        }
    }
}

/// Number of whitespace-separated words of `s`.
pub open spec fn word_count(s: Seq<char>) -> nat {
    words_before(s, s.len())
}

/// There are no more words than characters.
pub proof fn lemma_words_before_bound(s: Seq<char>, n: nat)
    ensures
        words_before(s, n) <= n,
    decreases n,
{
    if n > 0 {
        lemma_words_before_bound(s, (n - 1) as nat);
    }
}

/// Whether every character of `s` is whitespace.
pub fn is_blank_line(s: &str) -> (b: bool)
    ensures
        b == is_blank(s@),
{
    let mut it = s.chars();
    let ghost mut seen: int = 0;
    loop
        invariant
            0 <= seen <= s@.len(),
            it.remaining() == s@.subrange(seen, s@.len() as int),
            it.obeys_prophetic_iter_laws(),
            forall|i: int| 0 <= i < seen ==> is_whitespace(#[trigger] s@[i]),
        decreases s@.len() - seen,
    {
        match it.next() {
            None => {
                return true;
            },
            Some(c) => {
                if !char_is_whitespace(c) {
                    assert(c == s@[seen]);
                    return false;
                }
                proof {
                    seen = seen + 1;
                }
            },
        }
    }
}

/// Number of whitespace-separated words of `s`, reduced modulo 2^32 as a
/// conversion of the full count to `u32` reduces it.
pub fn count_words(s: &str) -> (n: u32)
    ensures
        n as int == word_count(s@) % 0x1_0000_0000,
        s@.len() <= u32::MAX ==> n as nat == word_count(s@),
{
    let mut it = s.chars();
    let mut count: u32 = 0;
    let mut after_space: bool = true;
    let ghost mut seen: nat = 0;
    loop
        invariant
            seen <= s@.len(),
            it.remaining() == s@.subrange(seen as int, s@.len() as int),
            it.obeys_prophetic_iter_laws(),
            count as int == words_before(s@, seen) % 0x1_0000_0000,
            after_space == (seen == 0 || is_whitespace(s@[seen - 1])),
        decreases s@.len() - seen,
    {
        match it.next() {
            None => {
                proof {
                    lemma_words_before_bound(s@, seen);
                }
                return count;
            },
            Some(c) => {
                assert(c == s@[seen as int]);
                let space = char_is_whitespace(c);
                if after_space && !space {
                    assert(starts_word(s@, seen as int));
                    count = if count == u32::MAX {
                        0
                    } else {
                        count + 1
                    };
                }
                after_space = space;
                proof {
                    seen = seen + 1;
                }
            },
        }
    }
}

/// Whether `s` begins with `prefix`.
pub fn starts_with(s: &str, prefix: &str) -> (b: bool)
    ensures
        b == prefix@.is_prefix_of(s@),
{
    let mut text = s.chars();
    let mut want = prefix.chars();
    let ghost mut seen: int = 0;
    loop
        invariant
            0 <= seen <= s@.len(),
            seen <= prefix@.len(),
            text.remaining() == s@.subrange(seen, s@.len() as int),
            want.remaining() == prefix@.subrange(seen, prefix@.len() as int),
            text.obeys_prophetic_iter_laws(),
            want.obeys_prophetic_iter_laws(),
            s@.subrange(0, seen) == prefix@.subrange(0, seen),
        decreases prefix@.len() - seen,
    {
        match want.next() {
            None => {
                assert(prefix@.subrange(0, seen) == prefix@);
                return true;
            },
            Some(p) => {
                assert(p == prefix@[seen]);
                match text.next() {
                    None => {
                        return false;
                    },
                    Some(c) => {
                        assert(c == s@[seen]);
                        if c != p {
                            assert(prefix@.is_prefix_of(s@) ==> s@.subrange(
                                0,
                                prefix@.len() as int,
                            )[seen] == prefix@[seen]);
                            return false;
                        }
                        assert(s@.subrange(0, seen + 1) == s@.subrange(0, seen).push(c));
                        assert(prefix@.subrange(0, seen + 1) == prefix@.subrange(0, seen).push(p));
                        proof {
                            seen = seen + 1;
                        }
                    },
                }
            },
        }
    }
}

/// Whether two strings hold the same characters.
pub fn same_text(a: &str, b: &str) -> (same: bool)
    ensures
        same == (a@ == b@),
{
    let mut left = a.chars();
    let mut right = b.chars();
    let ghost mut seen: int = 0;
    loop
        invariant
            0 <= seen <= a@.len(),
            seen <= b@.len(),
            left.remaining() == a@.subrange(seen, a@.len() as int),
            right.remaining() == b@.subrange(seen, b@.len() as int),
            left.obeys_prophetic_iter_laws(),
            right.obeys_prophetic_iter_laws(),
            a@.subrange(0, seen) == b@.subrange(0, seen),
        decreases a@.len() - seen,
    {
        match left.next() {
            None => {
                let rest = right.next();
                assert(a@.subrange(0, seen) == a@);
                if rest.is_none() {
                    assert(b@.subrange(0, seen) == b@);
                }
                return rest.is_none();
            },
            Some(c) => {
                assert(c == a@[seen]);
                match right.next() {
                    None => {
                        return false;
                    },
                    Some(d) => {
                        assert(d == b@[seen]);
                        if c != d {
                            return false;
                        }
                        assert(a@.subrange(0, seen + 1) == a@.subrange(0, seen).push(c));
                        assert(b@.subrange(0, seen + 1) == b@.subrange(0, seen).push(d));
                        proof {
                            seen = seen + 1;
                        }
                    },
                }
            },
        }
    }
}

/// The rest of `s` after `prefix`, or `None` where `s` does not begin with it.
pub fn strip_prefix<'a>(s: &'a str, prefix: &str) -> (rest: Option<&'a str>)
    ensures
        rest is Some <==> prefix@.is_prefix_of(s@),
        rest matches Some(r) ==> r@ == s@.subrange(prefix@.len() as int, s@.len() as int),
{
    if starts_with(s, prefix) {
        let from: usize = prefix.unicode_len();
        let to: usize = s.unicode_len();
        Some(s.substring_char(from, to))
    } else {
        None
    }
}

/// The characters of a text that may be absent.
pub open spec fn chars_of(text: Option<String>) -> Option<Seq<char>> {
    match text {
        Some(s) => Some(s@),
        None => None,
    }
}

/// The characters of a borrowed text that may be absent.
pub open spec fn str_chars(text: Option<&str>) -> Option<Seq<char>> {
    match text {
        Some(s) => Some(s@),
        None => None,
    }
}

/// A borrowed form of a text that may be absent.
pub fn borrow_text(text: &Option<String>) -> (borrowed: Option<&str>)
    ensures
        str_chars(borrowed) == chars_of(*text),
{
    match text {
        Some(s) => Some(s.as_str()),
        None => None,
    }
}

/// A copy of a text that may be absent.
pub fn copy_text(text: &Option<String>) -> (copy: Option<String>)
    ensures
        chars_of(copy) == chars_of(*text),
{
    match text {
        Some(s) => Some(s.clone()),
        None => None,
    }
}

/// The text `first` followed by `second`.
pub fn join(first: &str, second: &str) -> (text: String)
    ensures
        text@ == first@ + second@,
{
    String::from_str(first).concat(second)
}

/// The text that a lossy UTF-8 decoding of `bytes` yields, well-formed
/// sequences decoded and ill-formed ones replaced by U+FFFD: what
/// `String::from_utf8_lossy` returns for them.
pub uninterp spec fn utf8_lossy(bytes: Seq<u8>) -> Seq<char>;

/// `String::from_utf8_lossy` of the standard library, with the result owned.
/// The result depends on the bytes alone; the contract names it and says no
/// more of it.
#[verifier::external_body]
pub(crate) fn decode_lossy(bytes: &[u8]) -> (text: String)
    ensures
        text@ == utf8_lossy(bytes@),
{
    String::from_utf8_lossy(bytes).into_owned()
}

} // verus!
