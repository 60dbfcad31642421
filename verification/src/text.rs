//! Character classes, word counting and decimal numbers.

use vstd::prelude::*;
use vstd::std_specs::iter::IteratorSpec;

verus! {

/// The characters that separate words: those with the Unicode property
/// `White_Space`.
pub open spec fn is_whitespace(c: char) -> bool {
    let u = c as u32;
    ||| 0x09 <= u <= 0x0D
    ||| u == 0x20
    ||| u == 0x85
    ||| u == 0xA0
    ||| u == 0x1680
    ||| 0x2000 <= u <= 0x200A
    ||| u == 0x2028
    ||| u == 0x2029
    ||| u == 0x202F
    ||| u == 0x205F
    ||| u == 0x3000
}

/// The control characters: Unicode general category `Cc`.
pub open spec fn is_control(c: char) -> bool {
    let u = c as u32;
    u <= 0x1F || 0x7F <= u <= 0x9F
}

/// The ten ASCII digits.
pub open spec fn is_ascii_digit(c: char) -> bool {
    '0' <= c <= '9'
}

/// Tells whether `c` separates words.
pub fn char_is_whitespace(c: char) -> (r: bool)
    ensures
        r == is_whitespace(c),
{
    let u: u32 = c as u32;
    (0x09 <= u && u <= 0x0D) || u == 0x20 || u == 0x85 || u == 0xA0 || u == 0x1680 || (0x2000 <= u
        && u <= 0x200A) || u == 0x2028 || u == 0x2029 || u == 0x202F || u == 0x205F || u == 0x3000
}

/// Tells whether `c` is a control character.
pub fn char_is_control(c: char) -> (r: bool)
    ensures
        r == is_control(c),
{
    let u: u32 = c as u32;
    u <= 0x1F || (0x7F <= u && u <= 0x9F)
}

/// Tells whether `c` is an ASCII digit.
pub fn char_is_ascii_digit(c: char) -> (r: bool)
    ensures
        r == is_ascii_digit(c),
{
    '0' <= c && c <= '9'
}

/// `String::push` of std: the string gains `ch` as its last character and is
/// otherwise unchanged.
pub assume_specification[ String::push ](s: &mut String, ch: char)
    ensures
        final(s)@ == old(s)@.push(ch),
;

/// `String::pop` of std: an empty string stays as it is and yields nothing;
/// any other loses its last character, which is returned.
pub assume_specification[ String::pop ](s: &mut String) -> (r: Option<char>)
    ensures
        old(s)@.len() == 0 ==> r is None && final(s)@ == old(s)@,
        old(s)@.len() > 0 ==> r == Some(old(s)@.last()) && final(s)@ == old(s)@.drop_last(),
;

/// A word starts at `i` where a character that is no whitespace stands at
/// the head of the text or behind a whitespace character.
pub open spec fn is_word_start(s: Seq<char>, i: int) -> bool {
    &&& 0 <= i < s.len()
    &&& !is_whitespace(s[i])
    &&& (i == 0 || is_whitespace(s[i - 1]))
}

/// Number of words in `s`: the maximal runs of characters that hold no
/// whitespace, counted by the places where one starts.
pub open spec fn word_count(s: Seq<char>) -> nat
    decreases s.len(),
{
    if s.len() == 0 {
        0
    } else {
        word_count(s.drop_last()) + if is_word_start(s, s.len() - 1) {
            1nat
        } else {
            0nat
        }
    }
}

/// A text holds no more words than characters.
pub proof fn lemma_word_count_bound(s: Seq<char>)
    ensures
        word_count(s) <= s.len(),
    decreases s.len(),
{
    if s.len() > 0 {
        lemma_word_count_bound(s.drop_last());
    }
}

/// Whether `s` holds no whitespace.
pub open spec fn no_whitespace(s: Seq<char>) -> bool {
    forall|i: int| 0 <= i < s.len() ==> !is_whitespace(#[trigger] s[i])
}

/// A text without whitespace that is not empty is one word.
pub proof fn lemma_word_count_of_word(s: Seq<char>)
    requires
        s.len() > 0,
        no_whitespace(s),
    ensures
        word_count(s) == 1,
    decreases s.len(),
{
    let head = s.drop_last();
    if head.len() > 0 {
        assert(forall|i: int| 0 <= i < head.len() ==> head[i] == s[i]);
        lemma_word_count_of_word(head);
        assert(!is_whitespace(s[s.len() - 2]));
    } else {
        assert(word_count(head) == 0);
    }
}

/// A whitespace character parts a text in two whose words add up: the
/// words of a text are its maximal runs of characters that are no
/// whitespace.
pub proof fn lemma_word_count_split(a: Seq<char>, blank: char, b: Seq<char>)
    requires
        is_whitespace(blank),
    ensures
        word_count(a.push(blank) + b) == word_count(a) + word_count(b),
    decreases b.len(),
{
    let whole = a.push(blank) + b;
    if b.len() == 0 {
        assert(whole =~= a.push(blank));
        assert(whole.drop_last() =~= a);
    } else {
        assert(whole.drop_last() =~= a.push(blank) + b.drop_last());
        lemma_word_count_split(a, blank, b.drop_last());
        assert(whole[whole.len() - 1] == b[b.len() - 1]);
        if b.len() > 1 {
            assert(whole[whole.len() - 2] == b[b.len() - 2]);
        } else {
            assert(whole[whole.len() - 2] == blank);
        }
    }
}

/// Counts the words of `s`.
pub fn count_words(s: &str) -> (n: usize)
    ensures
        n == word_count(s@),
{
    let total: usize = s.unicode_len();
    let mut rest = s.chars();
    let mut n: usize = 0;
    let mut in_word: bool = false;
    let ghost mut seen: Seq<char> = Seq::empty();
    loop
        invariant
            s@ == seen + rest.remaining(),
            total == s@.len(),
            n == word_count(seen),
            in_word == (seen.len() > 0 && !is_whitespace(seen.last())),
        decreases total - seen.len(),
    {
        match rest.next() {
            None => {
                assert(seen =~= s@);
                return n;
            },
            Some(c) => {
                let blank = char_is_whitespace(c);
                proof {
                    let grown = seen.push(c);
                    assert(grown.drop_last() =~= seen);
                    assert(grown + rest.remaining() =~= s@);
                    lemma_word_count_bound(grown);
                    seen = grown;
                }
                if !blank && !in_word {
                    n = n + 1;
                }
                in_word = !blank;
            },
        }
    }
}

/// Worth of the digit `c`.
pub open spec fn digit_value(c: char) -> nat {
    (c as u32 - '0' as u32) as nat
}

/// Whether `s` holds ASCII digits only.
pub open spec fn all_digits(s: Seq<char>) -> bool {
    forall|i: int| 0 <= i < s.len() ==> is_ascii_digit(#[trigger] s[i])
}

/// Tells whether `s` holds ASCII digits only.
pub fn is_all_digits(s: &str) -> (r: bool)
    ensures
        r == all_digits(s@),
{
    let total: usize = s.unicode_len();
    let mut rest = s.chars();
    let ghost mut seen: Seq<char> = Seq::empty();
    loop
        invariant
            s@ == seen + rest.remaining(),
            total == s@.len(),
            all_digits(seen),
        decreases total - seen.len(),
    {
        match rest.next() {
            None => {
                assert(seen =~= s@);
                return true;
            },
            Some(c) => {
                proof {
                    assert(s@[seen.len() as int] == c);
                    assert(seen.push(c) + rest.remaining() =~= s@);
                }
                if !char_is_ascii_digit(c) {
                    return false;
                }
                proof {
                    seen = seen.push(c);
                }
            },
        }
    }
}

/// The number that the digits of `s` write in base ten.
pub open spec fn decimal_value(s: Seq<char>) -> nat
    decreases s.len(),
{
    if s.len() == 0 {
        0
    } else {
        decimal_value(s.drop_last()) * 10 + digit_value(s.last())
    }
}

/// Digits that follow never make a number smaller.
pub proof fn lemma_decimal_value_grows(a: Seq<char>, b: Seq<char>)
    ensures
        decimal_value(a) <= decimal_value(a + b),
    decreases b.len(),
{
    if b.len() == 0 {
        assert(a + b =~= a);
    } else {
        lemma_decimal_value_grows(a, b.drop_last());
        assert((a + b).drop_last() =~= a + b.drop_last());
    }
}

/// What a string of digits means as a `u64`: the number it writes, where
/// the string is not empty, holds digits only and the number fits.
pub open spec fn parsed_decimal(s: Seq<char>) -> Option<u64> {
    if s.len() > 0 && all_digits(s) && decimal_value(s) <= u64::MAX {
        Some(decimal_value(s) as u64)
    } else {
        None
    }
}

/// Reads `s` as a decimal number.
pub fn parse_decimal(s: &str) -> (r: Option<u64>)
    ensures
        r == parsed_decimal(s@),
{
    let total: usize = s.unicode_len();
    if total == 0 {
        return None;
    }
    let mut rest = s.chars();
    let mut value: u64 = 0;
    let ghost mut seen: Seq<char> = Seq::empty();
    loop
        invariant
            s@ == seen + rest.remaining(),
            total == s@.len(),
            total > 0,
            all_digits(seen),
            value == decimal_value(seen),
        decreases total - seen.len(),
    {
        match rest.next() {
            None => {
                assert(seen =~= s@);
                return Some(value);
            },
            Some(c) => {
                let ghost grown = seen.push(c);
                proof {
                    assert(grown.drop_last() =~= seen);
                    assert(grown + rest.remaining() =~= s@);
                    assert(s@[seen.len() as int] == c);
                    lemma_decimal_value_grows(grown, rest.remaining());
                }
                if !char_is_ascii_digit(c) {
                    return None;
                }
                let digit: u64 = (c as u32 - '0' as u32) as u64;
                if value > (u64::MAX - digit) / 10 {
                    return None;
                }
                value = value * 10 + digit;
                proof {
                    seen = grown;
                }
            },
        }
    }
}

/// The digit that writes `d`, for `d` below ten.
pub open spec fn digit_char(d: nat) -> char {
    ('0' as u32 + d) as char
}

/// The digits of `n` in base ten, the most significant first, without
/// leading zeros.
pub open spec fn decimal(n: nat) -> Seq<char>
    decreases n,
{
    if n < 10 {
        seq![digit_char(n)]
    } else {
        decimal(n / 10).push(digit_char(n % 10))
    }
}

/// `count` zeros.
pub open spec fn zeros(count: nat) -> Seq<char> {
    Seq::new(count, |i: int| '0')
}

/// The digits of `n`, with zeros in front where they are fewer than `width`.
pub open spec fn zero_padded(n: nat, width: nat) -> Seq<char> {
    if decimal(n).len() >= width {
        decimal(n)
    } else {
        zeros((width - decimal(n).len()) as nat) + decimal(n)
    }
}

/// Ten to the power of `k`.
pub open spec fn pow10(k: nat) -> nat
    decreases k,
{
    if k == 0 {
        1
    } else {
        10 * pow10((k - 1) as nat)
    }
}

/// A number below ten to the power of `digits` has at most `digits` digits.
pub proof fn lemma_decimal_len(n: nat, digits: nat)
    requires
        digits >= 1,
        n < pow10(digits),
    ensures
        1 <= decimal(n).len() <= digits,
    decreases n,
{
    if n >= 10 {
        if digits == 1 {
            assert(pow10(1) == 10) by {
                reveal_with_fuel(pow10, 2);
            }
        } else {
            lemma_decimal_len(n / 10, (digits - 1) as nat);
        }
    }
}

/// Number of digits of `n`.
pub fn decimal_len(n: u128) -> (len: usize)
    ensures
        len == decimal(n as nat).len(),
        1 <= len <= 39,
    decreases n,
{
    proof {
        assert(pow10(39) == 1_000_000_000_000_000_000_000_000_000_000_000_000_000) by {
            reveal_with_fuel(pow10, 40);
        }
        lemma_decimal_len(n as nat, 39);
    }
    if n < 10 {
        1
    } else {
        decimal_len(n / 10) + 1
    }
}

/// Appends the digits of `n` to `out`.
pub fn push_decimal(out: &mut String, n: u128)
    ensures
        final(out)@ == old(out)@ + decimal(n as nat),
    decreases n,
{
    if n >= 10 {
        push_decimal(out, n / 10);
    }
    let digit: char = (48u8 + (n % 10) as u8) as char;
    out.push(digit);
}

/// Appends the digits of `n` to `out`, with zeros in front where they are
/// fewer than `width`.
pub fn push_zero_padded(out: &mut String, n: u128, width: usize)
    ensures
        final(out)@ == old(out)@ + zero_padded(n as nat, width as nat),
{
    let len: usize = decimal_len(n);
    let ghost start = out@;
    let mut written: usize = len;
    while written < width
        invariant
            len <= written,
            len < width ==> written <= width,
            len >= width ==> written == len,
            out@ == start + zeros((written - len) as nat),
        decreases width - written,
    {
        out.push('0');
        written = written + 1;
        assert(out@ =~= start + zeros((written - len) as nat));
    }
    let ghost pad = zeros((written - len) as nat);
    push_decimal(out, n);
    assert(out@ == start + pad + decimal(n as nat));
    assert(start + pad + decimal(n as nat) =~= start + (pad + decimal(n as nat)));
    assert(pad + decimal(n as nat) =~= zero_padded(n as nat, width as nat));
}

} // verus!
