//! Character-level text helpers with their meaning stated over character
//! sequences: prefixes, substrings, leading whitespace, ASCII case folding.
use vstd::prelude::*;

use crate::order::chars_of;

verus! {

/// `prefix` begins `s`.
pub open spec fn seq_starts_with(s: Seq<char>, prefix: Seq<char>) -> bool {
    prefix.len() <= s.len() && s.subrange(0, prefix.len() as int) == prefix
}

/// `needle` occurs in `s` at position `i`.
pub open spec fn occurs_at(s: Seq<char>, needle: Seq<char>, i: int) -> bool {
    0 <= i && i + needle.len() <= s.len() && s.subrange(i, i + needle.len()) == needle
}

/// `needle` occurs somewhere in `s` (the empty needle always does).
pub open spec fn seq_contains(s: Seq<char>, needle: Seq<char>) -> bool {
    exists|i: int| occurs_at(s, needle, i)
}

/// Unicode `White_Space`, the property `char::is_whitespace` tests.
pub open spec fn is_whitespace(c: char) -> bool {
    ('\u{9}' <= c && c <= '\u{d}') || c == ' ' || c == '\u{85}' || c == '\u{a0}' || c == '\u{1680}'
        || ('\u{2000}' <= c && c <= '\u{200a}') || c == '\u{2028}' || c == '\u{2029}' || c
        == '\u{202f}' || c == '\u{205f}' || c == '\u{3000}'
}

/// Number of leading whitespace characters of `s`.
pub open spec fn leading_whitespace(s: Seq<char>) -> nat
    decreases s.len(),
{
    if s.len() > 0 && is_whitespace(s[0]) {
        1 + leading_whitespace(s.drop_first())
    } else {
        0
    }
}

/// `s` without its leading whitespace.
pub open spec fn trim_start(s: Seq<char>) -> Seq<char> {
    s.skip(leading_whitespace(s) as int)
}

/// ASCII upper-case letters folded to lower case; everything else kept.
pub open spec fn ascii_lower_char(c: char) -> char {
    if 'A' <= c && c <= 'Z' {
        ((c as u32) + 32) as char
    } else {
        c
    }
}

pub open spec fn ascii_lower(s: Seq<char>) -> Seq<char> {
    s.map_values(|c: char| ascii_lower_char(c))
}

pub fn is_whitespace_char(c: char) -> (r: bool)
    ensures
        r == is_whitespace(c),
{
    ('\u{9}' <= c && c <= '\u{d}') || c == ' ' || c == '\u{85}' || c == '\u{a0}' || c == '\u{1680}'
        || ('\u{2000}' <= c && c <= '\u{200a}') || c == '\u{2028}' || c == '\u{2029}' || c
        == '\u{202f}' || c == '\u{205f}' || c == '\u{3000}'
}

proof fn lemma_leading_whitespace_bound(s: Seq<char>)
    ensures
        leading_whitespace(s) <= s.len(),
        forall|j: int| 0 <= j < leading_whitespace(s) ==> is_whitespace(#[trigger] s[j]),
        leading_whitespace(s) < s.len() ==> !is_whitespace(s[leading_whitespace(s) as int]),
    decreases s.len(),
{
    if s.len() > 0 && is_whitespace(s[0]) {
        lemma_leading_whitespace_bound(s.drop_first());
        assert forall|j: int| 0 <= j < leading_whitespace(s) implies is_whitespace(#[trigger] s[j]) by {
            if j > 0 {
                assert(s[j] == s.drop_first()[j - 1]);
            }
        }
    }
}

proof fn lemma_leading_whitespace_is(s: Seq<char>, n: nat)
    requires
        n <= s.len(),
        forall|j: int| 0 <= j < n ==> is_whitespace(#[trigger] s[j]),
        n < s.len() ==> !is_whitespace(s[n as int]),
    ensures
        leading_whitespace(s) == n,
    decreases n,
{
    if n > 0 {
        assert(is_whitespace(s[0]));
        assert forall|j: int| 0 <= j < n - 1 implies is_whitespace(#[trigger] s.drop_first()[j]) by {
            assert(s.drop_first()[j] == s[j + 1]);
        }
        if n - 1 < s.drop_first().len() {
            assert(s.drop_first()[n - 1] == s[n as int]);
        }
        lemma_leading_whitespace_is(s.drop_first(), (n - 1) as nat);
    }
}

/// `s` without its leading whitespace.
pub fn trim_start_chars(s: &Vec<char>) -> (r: Vec<char>)
    ensures
        r@ == trim_start(s@),
{
    let mut n: usize = 0;
    while n < s.len() && is_whitespace_char(s[n])
        invariant
            n <= s@.len(),
            forall|j: int| 0 <= j < n ==> is_whitespace(#[trigger] s@[j]),
        decreases s.len() - n,
    {
        n = n + 1;
    }
    proof {
        lemma_leading_whitespace_is(s@, n as nat);
    }
    let mut out: Vec<char> = Vec::new();
    let mut i = n;
    while i < s.len()
        invariant
            n <= i <= s@.len(),
            out@ == s@.subrange(n as int, i as int),
        decreases s.len() - i,
    {
        out.push(s[i]);
        proof {
            assert(out@ =~= s@.subrange(n as int, i + 1));
        }
        i = i + 1;
    }
    proof {
        assert(out@ =~= s@.skip(n as int));
    }
    out
}

/// Whether `prefix` begins `s`.
pub fn starts_with_chars(s: &Vec<char>, prefix: &Vec<char>) -> (r: bool)
    ensures
        r == seq_starts_with(s@, prefix@),
{
    if prefix.len() > s.len() {
        return false;
    }
    let mut i: usize = 0;
    while i < prefix.len()
        invariant
            prefix@.len() <= s@.len(),
            i <= prefix@.len(),
            forall|j: int| 0 <= j < i ==> s@[j] == prefix@[j],
        decreases prefix.len() - i,
    {
        if s[i] != prefix[i] {
            proof {
                assert(s@.subrange(0, prefix@.len() as int)[i as int] != prefix@[i as int]);
            }
            return false;
        }
        i = i + 1;
    }
    proof {
        assert(s@.subrange(0, prefix@.len() as int) =~= prefix@);
    }
    true
}

/// Whether the text begins with the literal prefix.
pub fn starts_with_str(s: &Vec<char>, prefix: &str) -> (r: bool)
    ensures
        r == seq_starts_with(s@, prefix@),
{
    let p = chars_of(prefix);
    starts_with_chars(s, &p)
}

/// Whether `needle` occurs at position `at` of `s`.
fn occurs_at_exec(s: &Vec<char>, needle: &Vec<char>, at: usize) -> (r: bool)
    requires
        at + needle@.len() <= s@.len(),
    ensures
        r == occurs_at(s@, needle@, at as int),
{
    let mut i: usize = 0;
    while i < needle.len()
        invariant
            at + needle@.len() <= s@.len(),
            s@.len() == s.len(),
            i <= needle@.len(),
            forall|j: int| 0 <= j < i ==> s@[at + j] == needle@[j],
        decreases needle.len() - i,
    {
        if s[at + i] != needle[i] {
            proof {
                assert(s@.subrange(at as int, at + needle@.len())[i as int] != needle@[i as int]);
            }
            return false;
        }
        i = i + 1;
    }
    proof {
        assert(s@.subrange(at as int, at + needle@.len()) =~= needle@);
    }
    true
}

/// Whether `needle` occurs in `s`.
pub fn contains_chars(s: &Vec<char>, needle: &Vec<char>) -> (r: bool)
    ensures
        r == seq_contains(s@, needle@),
{
    if needle.len() > s.len() {
        proof {
            assert forall|i: int| !occurs_at(s@, needle@, i) by {}
        }
        return false;
    }
    let last = s.len() - needle.len();
    let mut at: usize = 0;
    loop
        invariant
            last == s@.len() - needle@.len(),
            needle@.len() <= s@.len(),
            at <= last,
            forall|i: int| 0 <= i < at ==> !occurs_at(s@, needle@, i),
        decreases last - at,
    {
        if occurs_at_exec(s, needle, at) {
            return true;
        }
        if at == last {
            proof {
                assert forall|i: int| !occurs_at(s@, needle@, i) by {
                    if i < 0 || i > last {
                    } else if i < at {
                    } else {
                        assert(i == at);
                    }
                }
            }
            return false;
        }
        at = at + 1;
    }
}

/// Whether the literal occurs in the text.
pub fn contains_str(s: &Vec<char>, needle: &str) -> (r: bool)
    ensures
        r == seq_contains(s@, needle@),
{
    let n = chars_of(needle);
    contains_chars(s, &n)
}

/// ASCII case folding of one character.
pub fn ascii_lower_char_exec(c: char) -> (r: char)
    ensures
        r == ascii_lower_char(c),
{
    if 'A' <= c && c <= 'Z' {
        let code = (c as u32) + 32;
        let lowered = char_from_ascii_code(code);
        lowered
    } else {
        c
    }
}

/// The character with an ASCII lower-case letter's code.
fn char_from_ascii_code(code: u32) -> (r: char)
    requires
        97 <= code <= 122,
    ensures
        r == code as char,
{
    let b: u8 = code as u8;
    b as char
}

/// ASCII case folding of a text.
pub fn ascii_lower_chars(s: &Vec<char>) -> (r: Vec<char>)
    ensures
        r@ == ascii_lower(s@),
{
    let mut out: Vec<char> = Vec::new();
    for i in 0..s.len()
        invariant
            out@ == ascii_lower(s@.subrange(0, i as int)),
    {
        out.push(ascii_lower_char_exec(s[i]));
        proof {
            assert(out@ =~= ascii_lower(s@.subrange(0, i + 1)));
        }
    }
    proof {
        assert(s@.subrange(0, s@.len() as int) =~= s@);
    }
    out
}


/// The lower-case form `char::to_lowercase` gives, as far as matching ASCII
/// needles goes: ASCII capitals and the Kelvin sign become ASCII letters.
/// One more character lowers to text holding an ASCII letter: 'İ' (U+0130)
/// becomes 'i' followed by a combining dot above (U+0307). It is kept as it
/// is here, which gives the same matches for every needle that does not end
/// in 'i', since the combining dot stops any longer match. Every other
/// character either stays as it is or lowers to non-ASCII text, which no
/// ASCII needle can match.
pub open spec fn fold_lower_char(c: char) -> char {
    if c == '\u{212a}' {
        'k'
    } else {
        ascii_lower_char(c)
    }
}

pub open spec fn fold_lower(s: Seq<char>) -> Seq<char> {
    s.map_values(|c: char| fold_lower_char(c))
}

/// Lower-case folding of a text for matching against ASCII needles.
pub fn fold_lower_chars(s: &Vec<char>) -> (r: Vec<char>)
    ensures
        r@ == fold_lower(s@),
{
    let mut out: Vec<char> = Vec::new();
    for i in 0..s.len()
        invariant
            out@ == fold_lower(s@.subrange(0, i as int)),
    {
        let c = s[i];
        let lowered = if c == '\u{212a}' {
            'k'
        } else {
            ascii_lower_char_exec(c)
        };
        out.push(lowered);
        proof {
            assert(out@ =~= fold_lower(s@.subrange(0, i + 1)));
        }
    }
    proof {
        assert(s@.subrange(0, s@.len() as int) =~= s@);
    }
    out
}

// ─── decimal numerals ────────────────────────────────────────────────────────

pub open spec fn digit_char(d: nat) -> char {
    if d == 0 {
        '0'
    } else if d == 1 {
        '1'
    } else if d == 2 {
        '2'
    } else if d == 3 {
        '3'
    } else if d == 4 {
        '4'
    } else if d == 5 {
        '5'
    } else if d == 6 {
        '6'
    } else if d == 7 {
        '7'
    } else if d == 8 {
        '8'
    } else {
        '9'
    }
}

/// The decimal numeral of `n`, without leading zeros.
pub open spec fn decimal(n: nat) -> Seq<char>
    decreases n,
{
    if n < 10 {
        seq![digit_char(n)]
    } else {
        decimal(n / 10).push(digit_char(n % 10))
    }
}

/// The one-digit numeral of `d`.
fn digit_str(d: u64) -> (r: &'static str)
    requires
        d < 10,
    ensures
        r@ == seq![digit_char(d as nat)],
{
    if d == 0 {
        proof { reveal_strlit("0"); }
        "0"
    } else if d == 1 {
        proof { reveal_strlit("1"); }
        "1"
    } else if d == 2 {
        proof { reveal_strlit("2"); }
        "2"
    } else if d == 3 {
        proof { reveal_strlit("3"); }
        "3"
    } else if d == 4 {
        proof { reveal_strlit("4"); }
        "4"
    } else if d == 5 {
        proof { reveal_strlit("5"); }
        "5"
    } else if d == 6 {
        proof { reveal_strlit("6"); }
        "6"
    } else if d == 7 {
        proof { reveal_strlit("7"); }
        "7"
    } else if d == 8 {
        proof { reveal_strlit("8"); }
        "8"
    } else {
        proof { reveal_strlit("9"); }
        "9"
    }
}

/// The decimal numeral of `n`, as `format!("{}", n)` writes it.
pub fn decimal_string(n: u64) -> (r: String)
    ensures
        r@ == decimal(n as nat),
    decreases n,
{
    if n < 10 {
        String::from_str(digit_str(n))
    } else {
        let mut s = decimal_string(n / 10);
        s.append(digit_str(n % 10));
        s
    }
}

} // verus!
