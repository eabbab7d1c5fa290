//! Tokenizing queries and identifiers: splitting text into alphanumeric
//! words, breaking identifiers at camel-case and digit boundaries, and
//! lower-casing the pieces.
use vstd::prelude::*;

use crate::handler::{trim, trim_str};
use crate::order::{has_text, lemma_strictly_sorted_no_dups, sorted_unique_strings, strictly_sorted, text_lt};
use crate::search::byte_len;
use crate::text::ascii_lower;

verus! {

// ─── Unicode character classes and case ──────────────────────────────────────

/// What `char::is_alphanumeric` answers for `c` (Unicode Alphabetic or
/// Numeric).
pub uninterp spec fn unicode_alphanumeric(c: char) -> bool;

/// What `str::to_lowercase` gives for a text (Unicode lower-case mapping).
pub uninterp spec fn unicode_lowercase(s: Seq<char>) -> Seq<char>;

/// `char::is_alphanumeric`. Its documentation defines it as Unicode
/// Alphabetic or Numeric; the contract names that answer and states the
/// ASCII part: letters and digits are alphanumeric, other ASCII characters
/// are not.
#[verifier::external_body]
fn is_alphanumeric(c: char) -> (r: bool)
    ensures
        r == unicode_alphanumeric(c),
        (('a' <= c && c <= 'z') || ('A' <= c && c <= 'Z') || ('0' <= c && c <= '9')) ==> r,
        (c <= '\u{7f}' && !(('a' <= c && c <= 'z') || ('A' <= c && c <= 'Z') || ('0' <= c && c
            <= '9'))) ==> !r,
{
    c.is_alphanumeric()
}

/// `str::to_lowercase`: the Unicode lower-case mapping of the text, as a new
/// string. The contract names the result and states the ASCII part: a text
/// of ASCII characters only lowers to its ASCII lower-case form (capitals
/// `A`-`Z` become `a`-`z`, everything else stays). Of other text it states
/// nothing more than the name.
#[verifier::external_body]
pub(crate) fn to_lowercase(s: &str) -> (r: String)
    ensures
        r@ == unicode_lowercase(s@),
        (forall|i: int| 0 <= i < s@.len() ==> #[trigger] s@[i] <= '\u{7f}') ==> r@ == ascii_lower(s@),
{
    s.to_lowercase()
}

// ─── identifier tokens ───────────────────────────────────────────────────────

/// Class of a character for identifier splitting: 1 lower-case ASCII
/// letter, 2 upper-case ASCII letter, 3 ASCII digit, 0 anything else.
pub open spec fn char_class(c: char) -> int {
    if 'a' <= c && c <= 'z' {
        1
    } else if 'A' <= c && c <= 'Z' {
        2
    } else if '0' <= c && c <= '9' {
        3
    } else {
        0
    }
}

fn char_class_exec(c: char) -> (r: u8)
    ensures
        r as int == char_class(c),
{
    if 'a' <= c && c <= 'z' {
        1
    } else if 'A' <= c && c <= 'Z' {
        2
    } else if '0' <= c && c <= '9' {
        3
    } else {
        0
    }
}

/// A word breaks before position `i`: lower then upper, digit then letter,
/// or the last upper-case letter of an upper-case run followed by a
/// lower-case one.
pub open spec fn boundary(w: Seq<char>, i: int) -> bool {
    let prev = char_class(w[i - 1]);
    let cur = char_class(w[i]);
    let next = if i + 1 < w.len() { char_class(w[i + 1]) } else { 0 };
    (prev == 1 && cur == 2) || (prev == 3 && cur == 1) || (prev == 3 && cur == 2) || (prev == 2
        && cur == 2 && next == 1)
}

/// The segments of `w` from `start`, scanning boundaries from `i` on.
pub open spec fn segments_from(w: Seq<char>, start: int, i: int) -> Seq<Seq<char>>
    decreases w.len() - i,
{
    if i >= w.len() {
        seq![w.subrange(start, w.len() as int)]
    } else if boundary(w, i) {
        seq![w.subrange(start, i)] + segments_from(w, i, i + 1)
    } else {
        segments_from(w, start, i + 1)
    }
}

/// Lower-cased texts, dropping those that come out empty.
pub open spec fn lowered_nonempty(segs: Seq<Seq<char>>) -> Seq<Seq<char>>
    decreases segs.len(),
{
    if segs.len() == 0 {
        seq![]
    } else {
        let rest = lowered_nonempty(segs.drop_last());
        let l = unicode_lowercase(segs.last());
        if l.len() > 0 {
            rest.push(l)
        } else {
            rest
        }
    }
}

/// Tokens of one alphanumeric word: the whole word lower-cased, then, for
/// words of two or more characters, its camel-case and digit segments.
pub open spec fn word_tokens(w: Seq<char>) -> Seq<Seq<char>> {
    seq![unicode_lowercase(w)] + if w.len() > 1 {
        lowered_nonempty(segments_from(w, 0, 1))
    } else {
        seq![]
    }
}

/// End of the alphanumeric run starting at `i`.
pub open spec fn run_end(s: Seq<char>, i: int) -> int
    decreases s.len() - i,
{
    if i >= s.len() || !unicode_alphanumeric(s[i]) {
        i
    } else {
        run_end(s, i + 1)
    }
}

/// Tokens of the words of `s` from position `i` on, in order.
pub open spec fn tokens_from(s: Seq<char>, i: int) -> Seq<Seq<char>>
    decreases s.len() - i, 1int,
{
    if i >= s.len() {
        seq![]
    } else if !unicode_alphanumeric(s[i]) {
        tokens_from(s, i + 1)
    } else {
        let e = run_end(s, i);
        if e > i && e <= s.len() {
            word_tokens(s.subrange(i, e)) + tokens_from(s, e)
        } else {
            seq![]
        }
    }
}

proof fn lemma_run_end(s: Seq<char>, i: int)
    requires
        0 <= i <= s.len(),
    ensures
        i <= run_end(s, i) <= s.len(),
        forall|k: int| i <= k < run_end(s, i) ==> unicode_alphanumeric(#[trigger] s[k]),
        run_end(s, i) == s.len() || !unicode_alphanumeric(s[run_end(s, i)]),
    decreases s.len() - i,
{
    if i < s.len() && unicode_alphanumeric(s[i]) {
        lemma_run_end(s, i + 1);
    }
}

/// Segments of a word `w == s[a..b]`, computed from `start` with boundaries
/// scanned from `i`, lower-cased and kept when not empty, appended to `acc`.
fn push_segments(
    s: &str,
    a: usize,
    b: usize,
    acc: &mut Vec<String>,
)
    requires
        a + 1 < b <= s@.len(),
    ensures
        final(acc)@.map_values(|t: String| t@) == old(acc)@.map_values(|t: String| t@)
            + lowered_nonempty(segments_from(s@.subrange(a as int, b as int), 0, 1)),
{
    let ghost w = s@.subrange(a as int, b as int);
    let ghost acc0 = acc@.map_values(|t: String| t@);
    let mut start: usize = a;
    let mut k: usize = a + 1;
    while k < b
        invariant
            a + 1 <= k <= b,
            a <= start < k,
            b <= s@.len(),
            w == s@.subrange(a as int, b as int),
            acc0 + lowered_nonempty(segments_from(w, 0, 1)) == acc@.map_values(|t: String| t@)
                + lowered_nonempty(segments_from(w, start - a, k - a)),
        decreases b - k,
    {
        let prev = char_class_exec(s.get_char(k - 1));
        let cur = char_class_exec(s.get_char(k));
        let next: u8 = if k + 1 < b {
            char_class_exec(s.get_char(k + 1))
        } else {
            0
        };
        let split = (prev == 1 && cur == 2) || (prev == 3 && cur == 1) || (prev == 3 && cur == 2)
            || (prev == 2 && cur == 2 && next == 1);
        proof {
            assert(w[k - a - 1] == s@[k - 1]);
            assert(w[k - a] == s@[k as int]);
            if k + 1 < b {
                assert(w[k - a + 1] == s@[k + 1]);
            }
            assert(split == boundary(w, k - a));
        }
        if split {
            let seg = to_lowercase(s.substring_char(start, k));
            let ghost before = acc@.map_values(|t: String| t@);
            proof {
                assert(s@.subrange(start as int, k as int) =~= w.subrange(start - a, k - a));
                let tail = segments_from(w, k - a, k - a + 1);
                assert(segments_from(w, start - a, k - a) == seq![w.subrange(start - a, k - a)] + tail);
                lemma_lowered_nonempty_prepend(w.subrange(start - a, k - a), tail);
            }
            if seg.unicode_len() > 0 {
                acc.push(seg);
                proof {
                    assert(acc@.map_values(|t: String| t@) =~= before.push(seg@));
                }
            }
            start = k;
        } else {
            proof {
                assert(segments_from(w, start - a, k - a) == segments_from(w, start - a, k - a + 1));
            }
        }
        k = k + 1;
    }
    let seg = to_lowercase(s.substring_char(start, b));
    let ghost before = acc@.map_values(|t: String| t@);
    proof {
        assert(s@.subrange(start as int, b as int) =~= w.subrange(start - a, w.len() as int));
        assert(segments_from(w, start - a, b - a) == seq![w.subrange(start - a, w.len() as int)]);
        lemma_lowered_nonempty_prepend(w.subrange(start - a, w.len() as int), seq![]);
        assert(seq![w.subrange(start - a, w.len() as int)] + Seq::<Seq<char>>::empty() =~= seq![
            w.subrange(start - a, w.len() as int),
        ]);
        assert(lowered_nonempty(Seq::<Seq<char>>::empty()) =~= Seq::<Seq<char>>::empty());
    }
    if seg.unicode_len() > 0 {
        acc.push(seg);
        proof {
            assert(acc@.map_values(|t: String| t@) =~= before.push(seg@));
        }
    }
}

/// Lower-casing a list with one more text in front adds that text's
/// lower-case form in front when it is not empty.
proof fn lemma_lowered_nonempty_prepend(x: Seq<char>, rest: Seq<Seq<char>>)
    ensures
        lowered_nonempty(seq![x] + rest) == (if unicode_lowercase(x).len() > 0 {
            seq![unicode_lowercase(x)]
        } else {
            seq![]
        }) + lowered_nonempty(rest),
    decreases rest.len(),
{
    if rest.len() == 0 {
        assert(seq![x] + rest =~= seq![x]);
        assert(seq![x].drop_last() =~= Seq::<Seq<char>>::empty());
        let e = Seq::<Seq<char>>::empty();
        assert(lowered_nonempty(e) == e);
        assert(lowered_nonempty(rest) == e);
        assert(e.push(unicode_lowercase(x)) =~= seq![unicode_lowercase(x)]);
        assert(seq![unicode_lowercase(x)] + e =~= seq![unicode_lowercase(x)]);
        assert(e + e =~= e);
    } else {
        assert((seq![x] + rest).drop_last() =~= seq![x] + rest.drop_last());
        lemma_lowered_nonempty_prepend(x, rest.drop_last());
        assert((seq![x] + rest).last() == rest.last());
        let h: Seq<Seq<char>> = if unicode_lowercase(x).len() > 0 {
            seq![unicode_lowercase(x)]
        } else {
            seq![]
        };
        let a = lowered_nonempty(rest.drop_last());
        let l = unicode_lowercase(rest.last());
        assert((h + a).push(l) =~= h + a.push(l));
    }
}


proof fn lemma_tokens_skip(s: Seq<char>, i: int)
    requires
        0 <= i < s.len(),
        !unicode_alphanumeric(s[i]),
    ensures
        tokens_from(s, i) == tokens_from(s, i + 1),
{
}

proof fn lemma_tokens_word(s: Seq<char>, i: int)
    requires
        0 <= i < s.len(),
        unicode_alphanumeric(s[i]),
    ensures
        run_end(s, i) > i,
        tokens_from(s, i) == word_tokens(s.subrange(i, run_end(s, i))) + tokens_from(s, run_end(s, i)),
{
    lemma_run_end(s, i + 1);
    lemma_run_end(s, i);
}

/// The tokens of an identifier-like text: each alphanumeric word lower-cased,
/// plus its camel-case and digit segments lower-cased, sorted with repeats
/// removed.
pub fn split_identifier_tokens(input: &str) -> (r: Vec<String>)
    ensures
        strictly_sorted(r@.map_values(|t: String| t@)),
        forall|i: int|
            0 <= i < tokens_from(input@, 0).len() ==> has_text(r@, r@.len() as int, #[trigger] tokens_from(input@, 0)[i]),
        forall|j: int|
            0 <= j < r@.len() ==> crate::search::in_texts(tokens_from(input@, 0), #[trigger] r@[j]@),
{
    let n = input.unicode_len();
    let mut out: Vec<String> = Vec::new();
    let mut i: usize = 0;
    while i < n
        invariant
            n == input@.len(),
            i <= n,
            out@.map_values(|t: String| t@) + tokens_from(input@, i as int) == tokens_from(input@, 0),
        decreases n - i,
    {
        if !is_alphanumeric(input.get_char(i)) {
            proof {
                lemma_tokens_skip(input@, i as int);
            }
            i = i + 1;
        } else {
            let a = i;
            let ghost s = input@;
            proof {
                lemma_tokens_word(s, a as int);
                lemma_run_end(s, a as int);
            }
            while i < n && is_alphanumeric(input.get_char(i))
                invariant
                    n == s.len(),
                    s == input@,
                    a <= i <= run_end(s, a as int),
                    run_end(s, a as int) <= n,
                    forall|k: int| a <= k < run_end(s, a as int) ==> unicode_alphanumeric(#[trigger] s[k]),
                    run_end(s, a as int) == n || !unicode_alphanumeric(s[run_end(s, a as int)]),
                decreases n - i,
            {
                i = i + 1;
            }
            let b = i;
            proof {
                assert(b == run_end(s, a as int));
            }
            let ghost before = out@.map_values(|t: String| t@);
            let word_lower = to_lowercase(input.substring_char(a, b));
            out.push(word_lower);
            proof {
                assert(out@.map_values(|t: String| t@) =~= before.push(unicode_lowercase(s.subrange(a as int, b as int))));
            }
            if b - a > 1 {
                push_segments(input, a, b, &mut out);
            }
            proof {
                let w = s.subrange(a as int, b as int);
                let tail: Seq<Seq<char>> = if w.len() > 1 {
                    lowered_nonempty(segments_from(w, 0, 1))
                } else {
                    seq![]
                };
                assert(word_tokens(w) == seq![unicode_lowercase(w)] + tail);
                assert(out@.map_values(|t: String| t@) =~= before + word_tokens(w));
                assert(before + word_tokens(w) + tokens_from(s, b as int) =~= before + (word_tokens(w)
                    + tokens_from(s, b as int)));
            }
        }
    }
    proof {
        assert(tokens_from(input@, n as int) == Seq::<Seq<char>>::empty());
        assert(out@.map_values(|t: String| t@) + Seq::<Seq<char>>::empty() =~= out@.map_values(|t: String| t@));
    }
    let r = sorted_unique_strings(&out);
    proof {
        let toks = tokens_from(input@, 0);
        let ov = out@.map_values(|t: String| t@);
        assert(ov == toks);
        assert forall|i: int| 0 <= i < toks.len() implies has_text(r@, r@.len() as int, #[trigger] toks[i]) by {
            assert(toks[i] == out@[i]@);
            assert(has_text(r@, r@.len() as int, out@[i]@));
        }
        assert forall|j: int| 0 <= j < r@.len() implies crate::search::in_texts(toks, #[trigger] r@[j]@) by {
            assert(has_text(out@, out@.len() as int, r@[j]@));
            let i = choose|i: int| 0 <= i < out@.len() && (#[trigger] out@[i])@ == r@[j]@;
            assert(toks[i] == out@[i]@);
        }
    }
    r
}


// ─── words and word overlap ──────────────────────────────────────────────────

/// Characters that separate words: neither alphanumeric nor `_` nor `-`.
pub open spec fn is_word_sep(c: char) -> bool {
    !unicode_alphanumeric(c) && c != '_' && c != '-'
}

/// The pieces `str::split` gives between separators, empty ones included.
pub open spec fn split_pieces(s: Seq<char>) -> Seq<Seq<char>>
    decreases s.len(),
{
    if s.len() == 0 {
        seq![seq![]]
    } else {
        let p = split_pieces(s.drop_last());
        if is_word_sep(s.last()) {
            p.push(seq![])
        } else {
            p.update(p.len() - 1, p.last().push(s.last()))
        }
    }
}

/// The pieces trimmed and lower-cased, kept when at least three bytes long.
pub open spec fn kept_words(pieces: Seq<Seq<char>>) -> Seq<Seq<char>>
    decreases pieces.len(),
{
    if pieces.len() == 0 {
        seq![]
    } else {
        let rest = kept_words(pieces.drop_last());
        let w = unicode_lowercase(trim(pieces.last()));
        if byte_len(w) >= 3 {
            rest.push(w)
        } else {
            rest
        }
    }
}

/// The words of a text, in order.
pub open spec fn spec_words(s: Seq<char>) -> Seq<Seq<char>> {
    kept_words(split_pieces(s))
}

proof fn lemma_split_pieces_nonempty(s: Seq<char>)
    ensures
        split_pieces(s).len() >= 1,
    decreases s.len(),
{
    if s.len() > 0 {
        lemma_split_pieces_nonempty(s.drop_last());
    }
}

/// Keeps the lower-cased, trimmed piece `s[a..b]` when it is long enough.
fn keep_piece(s: &str, a: usize, b: usize, out: &mut Vec<String>)
    requires
        a <= b <= s@.len(),
    ensures
        final(out)@.map_values(|t: String| t@) == ({
            let w = unicode_lowercase(trim(s@.subrange(a as int, b as int)));
            if byte_len(w) >= 3 {
                old(out)@.map_values(|t: String| t@).push(w)
            } else {
                old(out)@.map_values(|t: String| t@)
            }
        }),
{
    let t = trim_str(s.substring_char(a, b));
    let w = to_lowercase(t.as_str());
    if w.as_str().len() >= 3 {
        let ghost before = out@.map_values(|t: String| t@);
        out.push(w);
        proof {
            assert(out@.map_values(|t: String| t@) =~= before.push(w@));
        }
    }
}

/// The words of a text: pieces between separators (characters neither
/// alphanumeric nor `_` nor `-`), trimmed and lower-cased, of at least three
/// bytes.
pub fn words(text: &str) -> (r: Vec<String>)
    ensures
        r@.map_values(|t: String| t@) == spec_words(text@),
{
    let n = text.unicode_len();
    let ghost s = text@;
    let mut out: Vec<String> = Vec::new();
    let mut start: usize = 0;
    let ghost mut done: Seq<Seq<char>> = seq![];
    proof {
        assert(s.take(0) =~= Seq::<char>::empty());
        assert(s.subrange(0, 0) =~= Seq::<char>::empty());
        assert(split_pieces(s.take(0)) =~= done.push(s.subrange(0, 0)));
    }
    for k in 0..n
        invariant
            n == s.len(),
            s == text@,
            start <= k,
            split_pieces(s.take(k as int)) == done.push(s.subrange(start as int, k as int)),
            out@.map_values(|t: String| t@) == kept_words(done),
    {
        let c = text.get_char(k);
        proof {
            assert(s.take(k + 1).drop_last() =~= s.take(k as int));
            assert(s.take(k + 1).last() == c);
        }
        if !is_alphanumeric(c) && c != '_' && c != '-' {
            keep_piece(text, start, k, &mut out);
            proof {
                let cur = s.subrange(start as int, k as int);
                assert(is_word_sep(c));
                assert(done.push(cur).drop_last() =~= done);
                done = done.push(cur);
                assert(s.subrange(k + 1, k + 1) =~= Seq::<char>::empty());
            }
            start = k + 1;
        } else {
            proof {
                assert(!is_word_sep(c));
                let cur = s.subrange(start as int, k as int);
                let p = done.push(cur);
                assert(cur.push(c) =~= s.subrange(start as int, k + 1));
                assert(p.last() == cur);
                assert(p.update(p.len() - 1, p.last().push(c)) =~= done.push(s.subrange(start as int, k + 1)));
            }
        }
    }
    keep_piece(text, start, n, &mut out);
    proof {
        assert(s.take(n as int) =~= s);
        let cur = s.subrange(start as int, n as int);
        assert(done.push(cur).drop_last() =~= done);
    }
    out
}

/// The set of texts in a list.
pub open spec fn text_set(ts: Seq<Seq<char>>) -> Set<Seq<char>> {
    ts.to_set()
}

/// Counts of distinct shared words and distinct words overall.
pub fn word_overlap(left: &str, right: &str) -> (r: (usize, usize))
    requires
        left@.len() + right@.len() + 2 <= usize::MAX,
    ensures
        r.0 == text_set(spec_words(left@)).intersect(text_set(spec_words(right@))).len(),
        r.1 == text_set(spec_words(left@)).union(text_set(spec_words(right@))).len(),
{
    let lw = words(left);
    let rw = words(right);
    let l = sorted_unique_strings(&lw);
    let rr = sorted_unique_strings(&rw);
    let ghost lv = l@.map_values(|t: String| t@);
    let ghost rv = rr@.map_values(|t: String| t@);
    let ghost lset = text_set(spec_words(left@));
    let ghost rset = text_set(spec_words(right@));
    proof {
        lemma_sorted_texts_set(lw@, l@);
        lemma_sorted_texts_set(rw@, rr@);
        lemma_words_len(left@);
        lemma_words_len(right@);
        lemma_strictly_sorted_no_dups(lv);
        lv.unique_seq_to_set();
        lw@.map_values(|t: String| t@).lemma_cardinality_of_set();
        lemma_strictly_sorted_no_dups(rv);
        rv.unique_seq_to_set();
        rw@.map_values(|t: String| t@).lemma_cardinality_of_set();
        assert(lv.len() <= left@.len() + 1);
        assert(rv.len() <= right@.len() + 1);
    }
    let mut inter: usize = 0;
    let ghost mut shared: Seq<Seq<char>> = seq![];
    for j in 0..l.len()
        invariant
            lv == l@.map_values(|t: String| t@),
            rv == rr@.map_values(|t: String| t@),
            rv.to_set() == rset,
            strictly_sorted(lv),
            inter == shared.len(),
            inter <= j,
            strictly_sorted(shared),
            shared.to_set() == lv.take(j as int).to_set().intersect(rset),
    {
        let found = holds_text(&rr, l[j].as_str());
        proof {
            assert(lv.take(j + 1) =~= lv.take(j as int).push(lv[j as int]));
            lemma_to_set_push(lv.take(j as int), lv[j as int]);
            assert(found == rset.contains(lv[j as int])) by {
                if found {
                    let b = choose|b: int| 0 <= b < rr@.len() && (#[trigger] rr@[b])@ == l@[j as int]@;
                    assert(rv[b] == lv[j as int]);
                }
                if rset.contains(lv[j as int]) {
                    let b = choose|b: int| 0 <= b < rv.len() && rv[b] == lv[j as int];
                    assert(rr@[b]@ == l@[j as int]@);
                }
            }
        }
        if found {
            proof {
                let old_shared = shared;
                shared = shared.push(lv[j as int]);
                assert forall|a: int, b: int| 0 <= a < b < shared.len() implies text_lt(#[trigger] shared[a], #[trigger] shared[b]) by {
                    if b == shared.len() - 1 {
                        let x = old_shared[a];
                        assert(old_shared.to_set().contains(x));
                        assert(lv.take(j as int).to_set().contains(x));
                        let k = choose|k: int| 0 <= k < lv.take(j as int).len() && lv.take(j as int)[k] == x;
                        assert(lv[k] == x);
                        assert(text_lt(lv[k], lv[j as int]));
                    } else {
                        assert(shared[a] == old_shared[a] && shared[b] == old_shared[b]);
                    }
                }
                lemma_to_set_push(old_shared, lv[j as int]);
                assert(lv.take(j + 1).to_set().intersect(rset) =~= lv.take(j as int).to_set().intersect(rset).insert(lv[j as int]));
            }
            inter = inter + 1;
        } else {
            proof {
                assert(lv.take(j + 1).to_set().intersect(rset) =~= lv.take(j as int).to_set().intersect(rset));
            }
        }
    }
    proof {
        assert(lv.take(lv.len() as int) =~= lv);
        lemma_strictly_sorted_no_dups(shared);
        shared.unique_seq_to_set();
        lemma_strictly_sorted_no_dups(lv);
        lv.unique_seq_to_set();
        lemma_strictly_sorted_no_dups(rv);
        rv.unique_seq_to_set();
        assert(lv.to_set() == lset);
        vstd::set_lib::lemma_set_intersect_union_lens(lset, rset);
        assert(lset + rset == lset.union(rset));
    }
    let union = (l.len() - inter) + rr.len();
    (inter, union)
}

/// Word overlap does not depend on which text comes first, and the words
/// two texts share are never more than the words they have in all.
pub proof fn lemma_word_overlap_symmetric(left: Seq<char>, right: Seq<char>)
    ensures
        text_set(spec_words(left)).intersect(text_set(spec_words(right))) == text_set(spec_words(right)).intersect(
            text_set(spec_words(left)),
        ),
        text_set(spec_words(left)).union(text_set(spec_words(right))) == text_set(spec_words(right)).union(
            text_set(spec_words(left)),
        ),
        text_set(spec_words(left)).intersect(text_set(spec_words(right))).len() <= text_set(
            spec_words(left),
        ).union(text_set(spec_words(right))).len(),
{
    let a = text_set(spec_words(left));
    let b = text_set(spec_words(right));
    assert(a.intersect(b) =~= b.intersect(a));
    assert(a.union(b) =~= b.union(a));
    vstd::seq_lib::seq_to_set_is_finite(spec_words(left));
    vstd::seq_lib::seq_to_set_is_finite(spec_words(right));
    vstd::set_lib::lemma_set_union_finite_iff(a, b);
    vstd::set_lib::lemma_len_subset(a.intersect(b), a.union(b));
}

/// Whether the list holds a string with the text `t`.
pub(crate) fn holds_text(v: &Vec<String>, t: &str) -> (r: bool)
    ensures
        r == has_text(v@, v@.len() as int, t@),
{
    for k in 0..v.len()
        invariant
            forall|j: int| 0 <= j < k ==> (#[trigger] v@[j])@ != t@,
    {
        if crate::types::str_eq(v[k].as_str(), t) {
            assert(v@[k as int]@ == t@);
            return true;
        }
    }
    false
}

/// A sorted distinct list of texts has the same set of texts as its source.
proof fn lemma_sorted_texts_set(src: Seq<String>, sorted: Seq<String>)
    requires
        forall|i: int| 0 <= i < src.len() ==> has_text(sorted, sorted.len() as int, #[trigger] src[i]@),
        forall|j: int| 0 <= j < sorted.len() ==> has_text(src, src.len() as int, #[trigger] sorted[j]@),
    ensures
        sorted.map_values(|t: String| t@).to_set() == src.map_values(|t: String| t@).to_set(),
{
    let a = sorted.map_values(|t: String| t@);
    let b = src.map_values(|t: String| t@);
    assert forall|x: Seq<char>| a.to_set().contains(x) <==> b.to_set().contains(x) by {
        if a.to_set().contains(x) {
            let j = choose|j: int| 0 <= j < a.len() && a[j] == x;
            assert(has_text(src, src.len() as int, sorted[j]@));
            let i = choose|i: int| 0 <= i < src.len() && (#[trigger] src[i])@ == sorted[j]@;
            assert(b[i] == x);
        }
        if b.to_set().contains(x) {
            let i = choose|i: int| 0 <= i < b.len() && b[i] == x;
            assert(has_text(sorted, sorted.len() as int, src[i]@));
            let j = choose|j: int| 0 <= j < sorted.len() && (#[trigger] sorted[j])@ == src[i]@;
            assert(a[j] == x);
        }
    }
    assert(a.to_set() =~= b.to_set());
}


proof fn lemma_to_set_push(s: Seq<Seq<char>>, x: Seq<char>)
    ensures
        s.push(x).to_set() == s.to_set().insert(x),
{
    assert forall|y: Seq<char>| s.push(x).to_set().contains(y) <==> s.to_set().insert(x).contains(y) by {
        if s.push(x).to_set().contains(y) {
            let i = choose|i: int| 0 <= i < s.push(x).len() && s.push(x)[i] == y;
            if i < s.len() {
                assert(s[i] == y);
            }
        }
        if s.to_set().contains(y) {
            let i = choose|i: int| 0 <= i < s.len() && s[i] == y;
            assert(s.push(x)[i] == y);
        }
        if y == x {
            assert(s.push(x)[s.len() as int] == y);
        }
    }
    assert(s.push(x).to_set() =~= s.to_set().insert(x));
}

proof fn lemma_split_pieces_len(s: Seq<char>)
    ensures
        split_pieces(s).len() <= s.len() + 1,
        split_pieces(s).len() >= 1,
    decreases s.len(),
{
    if s.len() > 0 {
        lemma_split_pieces_len(s.drop_last());
    }
}

proof fn lemma_kept_words_len(p: Seq<Seq<char>>)
    ensures
        kept_words(p).len() <= p.len(),
    decreases p.len(),
{
    if p.len() > 0 {
        lemma_kept_words_len(p.drop_last());
    }
}

proof fn lemma_words_len(s: Seq<char>)
    ensures
        spec_words(s).len() <= s.len() + 1,
{
    lemma_split_pieces_len(s);
    lemma_kept_words_len(split_pieces(s));
}

} // verus!
