//! The words of a text: its runs of characters between white space.
use crate::utils::decimal::{decimal_u64, parse_u64};
use vstd::prelude::*;

verus! {

/// The character has Unicode's white-space property.
pub open spec fn is_whitespace(c: char) -> bool {
    let u = c as u32;
    ||| 0x09 <= u <= 0x0D
    ||| u == 0x20
    ||| u == 0x85
    ||| u == 0xA0
    ||| u == 0x1680
    ||| 0x2000 <= u <= 0x200A
    ||| u == 0x2028
    ||| u == 0x2029
    ||| u == 0x202F
    ||| u == 0x205F
    ||| u == 0x3000
}

/// How many characters come before the first white space of `s`.
pub open spec fn word_len(s: Seq<char>) -> int
    decreases s.len(),
{
    if s.len() == 0 || is_whitespace(s[0]) {
        0
    } else {
        1 + word_len(s.drop_first())
    }
}

/// The words of a text, in their order: the longest runs of characters
/// that hold no white space. A text of white space alone has no words.
pub open spec fn words(s: Seq<char>) -> Seq<Seq<char>>
    decreases s.len(),
{
    if s.len() == 0 {
        Seq::empty()
    } else if is_whitespace(s[0]) {
        words(s.drop_first())
    } else {
        let n = word_len(s);
        if 0 < n <= s.len() {
            seq![s.take(n)] + words(s.skip(n))
        } else {
            seq![s]
        }
    }
}

/// The word as bytes, if each of its characters is an ASCII character.
pub open spec fn ascii_bytes(word: Seq<char>) -> Option<Seq<u8>> {
    if forall|i: int| 0 <= i < word.len() ==> (#[trigger] word[i]) as u32 <= 127 {
        Some(word.map_values(|c: char| c as u8))
    } else {
        None
    }
}

/// The number that a word denotes in decimal, if it denotes one.
pub open spec fn decimal_u64_word(word: Seq<char>) -> Option<u64> {
    match ascii_bytes(word) {
        Some(bytes) => decimal_u64(bytes),
        None => None,
    }
}

/// Where the first white space of a text is, given that none comes
/// earlier.
pub proof fn lemma_word_len(s: Seq<char>, k: int)
    requires
        0 <= k <= s.len(),
        forall|i: int| 0 <= i < k ==> !is_whitespace(s[i]),
        k < s.len() ==> is_whitespace(s[k]),
    ensures
        word_len(s) == k,
    decreases k,
{
    if k > 0 {
        let rest = s.drop_first();
        assert forall|i: int| 0 <= i < k - 1 implies !is_whitespace(rest[i]) by {
            assert(rest[i] == s[i + 1]);
        }
        lemma_word_len(rest, k - 1);
    }
}

/// Whether the character is white space.
pub fn is_whitespace_char(c: char) -> (b: bool)
    ensures
        b == is_whitespace(c),
{
    let u: u32 = c as u32;
    (0x09 <= u && u <= 0x0D) || u == 0x20 || u == 0x85 || u == 0xA0 || u == 0x1680 || (0x2000 <= u
        && u <= 0x200A) || u == 0x2028 || u == 0x2029 || u == 0x202F || u == 0x205F || u == 0x3000
}

/// The characters of a text.
pub fn characters(text: &str) -> (chars: Vec<char>)
    ensures
        chars@ == text@,
{
    let mut chars: Vec<char> = Vec::new();
    for c in it: text.chars()
        invariant
            chars@ == it.seq().take(it.index() as int),
            it.seq() == text@,
    {
        chars.push(c);
    }
    chars
}

/// Splits a text into its words.
pub fn split_whitespace(text: &str) -> (parts: Vec<Vec<char>>)
    ensures
        parts@.len() == words(text@).len(),
        forall|i: int| 0 <= i < parts@.len() ==> (#[trigger] parts@[i])@ == words(text@)[i],
{
    let chars = characters(text);
    let mut parts: Vec<Vec<char>> = Vec::new();
    let ghost mut done: Seq<Seq<char>> = Seq::empty();
    let mut i: usize = 0;
    assert(chars@.skip(0) =~= chars@);
    while i < chars.len()
        invariant
            i <= chars@.len(),
            chars@ == text@,
            parts@.len() == done.len(),
            forall|k: int| 0 <= k < parts@.len() ==> (#[trigger] parts@[k])@ == done[k],
            words(text@) == done + words(chars@.skip(i as int)),
        decreases chars@.len() - i,
    {
        let ghost rest = chars@.skip(i as int);
        assert(rest[0] == chars@[i as int]);
        if is_whitespace_char(chars[i]) {
            assert(rest.drop_first() =~= chars@.skip(i + 1));
            i = i + 1;
        } else {
            let mut word: Vec<char> = Vec::new();
            let start: usize = i;
            while i < chars.len() && !is_whitespace_char(chars[i])
                invariant
                    start <= i <= chars@.len(),
                    word@ == chars@.subrange(start as int, i as int),
                    forall|k: int| start <= k < i ==> !is_whitespace(chars@[k]),
                decreases chars@.len() - i,
            {
                word.push(chars[i]);
                assert(word@ =~= chars@.subrange(start as int, i + 1));
                i = i + 1;
            }
            proof {
                let n = i - start;
                assert forall|k: int| 0 <= k < n implies !is_whitespace(rest[k]) by {
                    assert(rest[k] == chars@[start + k]);
                }
                if n < rest.len() {
                    assert(rest[n] == chars@[i as int]);
                }
                lemma_word_len(rest, n);
                assert(rest.take(n) =~= word@);
                assert(rest.skip(n) =~= chars@.skip(i as int));
                assert(words(rest) == seq![word@] + words(chars@.skip(i as int)));
                assert(done + words(rest) =~= done.push(word@) + words(chars@.skip(i as int)));
                done = done.push(word@);
            }
            parts.push(word);
        }
    }
    proof {
        assert(chars@.skip(i as int) =~= Seq::<char>::empty());
        assert(words(text@) =~= done);
    }
    parts
}

/// Reads a number from a word in decimal.
pub fn parse_u64_word(word: &Vec<char>) -> (r: Option<u64>)
    ensures
        r == decimal_u64_word(word@),
{
    let mut bytes: Vec<u8> = Vec::new();
    let mut i: usize = 0;
    while i < word.len()
        invariant
            i <= word@.len(),
            bytes@.len() == i,
            forall|k: int| 0 <= k < i ==> (#[trigger] word@[k]) as u32 <= 127,
            forall|k: int| 0 <= k < i ==> bytes@[k] == (#[trigger] word@[k]) as u8,
        decreases word@.len() - i,
    {
        let c: char = word[i];
        if c as u32 > 127 {
            return None;
        }
        bytes.push(c as u8);
        i = i + 1;
    }
    assert(bytes@ =~= word@.map_values(|c: char| c as u8));
    parse_u64(bytes.as_slice())
}

} // verus!
