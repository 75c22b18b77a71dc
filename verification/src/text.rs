//! Text handling over sequences of characters: lines, words, splitting,
//! trimming, searching and joining.

use vstd::prelude::*;
use vstd::string::*;
use vstd::utf8::*;

verus! {

// ---------------------------------------------------------------------------
// Character classes
// ---------------------------------------------------------------------------

/// The characters with the Unicode property White_Space.
pub open spec fn is_space(c: char) -> bool {
    let n = c as u32;
    ||| 0x09 <= n <= 0x0d
    ||| n == 0x20
    ||| n == 0x85
    ||| n == 0xa0
    ||| n == 0x1680
    ||| 0x2000 <= n <= 0x200a
    ||| n == 0x2028
    ||| n == 0x2029
    ||| n == 0x202f
    ||| n == 0x205f
    ||| n == 0x3000
}

/// Whether `c` is white space.
pub fn is_whitespace(c: char) -> (r: bool)
    ensures
        r == is_space(c),
{
    let n: u32 = c as u32;
    (0x09 <= n && n <= 0x0d) || n == 0x20 || n == 0x85 || n == 0xa0 || n == 0x1680 || (0x2000 <= n
        && n <= 0x200a) || n == 0x2028 || n == 0x2029 || n == 0x202f || n == 0x205f || n == 0x3000
}

/// The ASCII digits and the ASCII letters of a hexadecimal number.
pub open spec fn is_hex_digit(c: char) -> bool {
    ||| '0' <= c <= '9'
    ||| 'a' <= c <= 'f'
    ||| 'A' <= c <= 'F'
}

/// Whether `c` is one of `0`-`9`, `a`-`f`, `A`-`F`.
pub fn is_ascii_hexdigit(c: char) -> (r: bool)
    ensures
        r == is_hex_digit(c),
{
    ('0' <= c && c <= '9') || ('a' <= c && c <= 'f') || ('A' <= c && c <= 'F')
}

/// The ASCII letters and digits.
pub open spec fn is_ascii_alnum(c: char) -> bool {
    ||| '0' <= c <= '9'
    ||| 'a' <= c <= 'z'
    ||| 'A' <= c <= 'Z'
}

/// Whether a character outside ASCII is alphabetic or numeric in Unicode.
pub uninterp spec fn unicode_alphanumeric(c: char) -> bool;

/// Letters and digits: spelled out for ASCII, by Unicode's tables elsewhere.
pub open spec fn is_alnum(c: char) -> bool {
    if c <= '\u{7f}' {
        is_ascii_alnum(c)
    } else {
        unicode_alphanumeric(c)
    }
}

/// `char::is_alphanumeric`: alphabetic or numeric by Unicode. Within ASCII
/// these are exactly the letters and the digits; elsewhere the answer depends
/// on the character alone.
#[verifier::external_body]
pub(crate) fn is_alphanumeric(c: char) -> (r: bool)
    ensures
        c <= '\u{7f}' ==> r == is_ascii_alnum(c),
        c > '\u{7f}' ==> r == unicode_alphanumeric(c),
{
    c.is_alphanumeric()
}

// ---------------------------------------------------------------------------
// Lowercase
// ---------------------------------------------------------------------------

/// One character with `A`-`Z` mapped to `a`-`z`.
pub open spec fn ascii_lower(c: char) -> char {
    if 'A' <= c <= 'Z' {
        (c as u32 + 32) as char
    } else {
        c
    }
}

/// The lowercase equivalent of a text with characters outside ASCII.
pub uninterp spec fn unicode_lowercase(s: Seq<char>) -> Seq<char>;

/// The lowercase equivalent of a text: character by character for ASCII, by
/// Unicode's tables otherwise.
pub open spec fn lowercased(s: Seq<char>) -> Seq<char> {
    if is_ascii_chars(s) {
        s.map_values(|c: char| ascii_lower(c))
    } else {
        unicode_lowercase(s)
    }
}

/// `str::to_lowercase`: an ASCII text has its letters `A` to `Z` mapped to `a`
/// to `z`; of any other text the result depends on the text alone. How that
/// result is made up of those of the text's parts is left unsaid.
#[verifier::external_body]
pub(crate) fn to_lowercase(s: &str) -> (r: String)
    ensures
        is_ascii_chars(s@) ==> r@ == s@.map_values(|c: char| ascii_lower(c)),
        !is_ascii_chars(s@) ==> r@ == unicode_lowercase(s@),
{
    s.to_lowercase()
}

// ---------------------------------------------------------------------------
// Building and comparing
// ---------------------------------------------------------------------------

/// `String::push` appends one character.
pub assume_specification[ String::push ](s: &mut String, c: char)
    ensures
        final(s)@ == old(s)@.push(c),
;

/// The characters of `s`, in order.
pub fn chars_of(s: &str) -> (v: Vec<char>)
    ensures
        v@ == s@,
{
    let mut v: Vec<char> = Vec::new();
    for c in it: s.chars()
        invariant
            it.seq() == s@,
            v@ == s@.take(it.index() as int),
    {
        v.push(c);
    }
    v
}

/// Whether two texts hold the same characters.
pub fn same(a: &str, b: &str) -> (r: bool)
    ensures
        r == (a@ == b@),
{
    a.to_string() == b.to_string()
}

/// `a` followed by `b`.
pub fn plus(a: String, b: &str) -> (r: String)
    ensures
        r@ == a@ + b@,
{
    a.concat(b)
}

/// `s` filled up with blanks on the right to at least `width` characters.
pub open spec fn padded(s: Seq<char>, width: int) -> Seq<char>
    decreases width - s.len(),
{
    if s.len() < width {
        padded(s.push(' '), width)
    } else {
        s
    }
}

/// `s` filled up with blanks on the right to at least `width` characters.
pub fn pad_right(s: &str, width: usize) -> (r: String)
    ensures
        r@ == padded(s@, width as int),
{
    let mut r = s.to_string();
    let mut n: usize = s.unicode_len();
    while n < width
        invariant
            n == r@.len(),
            padded(r@, width as int) == padded(s@, width as int),
        decreases width - n,
    {
        r.push(' ');
        n = n + 1;
    }
    r
}

// ---------------------------------------------------------------------------
// Searching
// ---------------------------------------------------------------------------

/// `pat` stands in `s` at position `i`.
pub open spec fn occurs(s: Seq<char>, pat: Seq<char>, i: int) -> bool {
    &&& 0 <= i
    &&& i + pat.len() <= s.len()
    &&& s.subrange(i, i + pat.len()) == pat
}

/// `pat` stands somewhere in `s`.
pub open spec fn contains_text(s: Seq<char>, pat: Seq<char>) -> bool {
    exists|i: int| occurs(s, pat, i)
}

/// `s` begins with `pat`.
pub open spec fn begins(s: Seq<char>, pat: Seq<char>) -> bool {
    occurs(s, pat, 0)
}

/// The first position at or after `i` at which `pat` stands in `s`.
pub open spec fn match_from(s: Seq<char>, pat: Seq<char>, i: int) -> Option<int>
    decreases s.len() + 1 - i,
{
    if i + pat.len() > s.len() {
        None
    } else if occurs(s, pat, i) {
        Some(i)
    } else {
        match_from(s, pat, i + 1)
    }
}

/// The first position at which `pat` stands in `s`.
pub open spec fn first_match(s: Seq<char>, pat: Seq<char>) -> Option<int> {
    match_from(s, pat, 0)
}

/// A search finds the first occurrence, and finds one whenever there is one.
pub proof fn lemma_match_from(s: Seq<char>, pat: Seq<char>, i: int)
    requires
        0 <= i,
    ensures
        match match_from(s, pat, i) {
            Some(k) => {
                &&& i <= k
                &&& occurs(s, pat, k)
                &&& forall|j: int| i <= j < k ==> !occurs(s, pat, j)
            },
            None => forall|j: int| i <= j ==> !occurs(s, pat, j),
        },
    decreases s.len() + 1 - i,
{
    if i + pat.len() <= s.len() && !occurs(s, pat, i) {
        lemma_match_from(s, pat, i + 1);
        assert forall|j: int| i <= j && occurs(s, pat, j) implies i + 1 <= j by {}
    }
}

/// `first_match` finds an occurrence exactly when the text contains one.
pub proof fn lemma_first_match_contains(s: Seq<char>, pat: Seq<char>)
    ensures
        contains_text(s, pat) <==> first_match(s, pat) is Some,
{
    lemma_match_from(s, pat, 0);
    if contains_text(s, pat) {
        let i = choose|i: int| occurs(s, pat, i);
        assert(0 <= i && occurs(s, pat, i));
    }
}

/// Whether `pat` stands at position `at` of `cs`.
fn stands_at(cs: &Vec<char>, pat: &Vec<char>, at: usize) -> (r: bool)
    requires
        at + pat.len() <= cs.len(),
    ensures
        r == occurs(cs@, pat@, at as int),
{
    let mut j: usize = 0;
    while j < pat.len()
        invariant
            j <= pat.len(),
            at + pat.len() <= cs.len(),
            forall|k: int| 0 <= k < j ==> cs@[at + k] == pat@[k],
        decreases pat.len() - j,
    {
        if cs[at + j] != pat[j] {
            assert(cs@.subrange(at as int, at + pat@.len())[j as int] != pat@[j as int]);
            return false;
        }
        j = j + 1;
    }
    assert(cs@.subrange(at as int, at + pat@.len()) =~= pat@);
    true
}

/// The first position, counted in characters, at which `pat` stands in `s`.
pub fn find(s: &str, pat: &str) -> (r: Option<usize>)
    ensures
        match r {
            Some(i) => first_match(s@, pat@) == Some(i as int),
            None => first_match(s@, pat@) is None,
        },
{
    let cs = chars_of(s);
    let ps = chars_of(pat);
    if ps.len() > cs.len() {
        return None;
    }
    let last: usize = cs.len() - ps.len();
    let mut i: usize = 0;
    loop
        invariant
            cs@ == s@,
            ps@ == pat@,
            last == cs.len() - ps.len(),
            i <= last,
            match_from(s@, pat@, i as int) == first_match(s@, pat@),
        decreases last - i,
    {
        if stands_at(&cs, &ps, i) {
            return Some(i);
        }
        if i == last {
            assert(match_from(s@, pat@, i + 1) is None);
            return None;
        }
        i = i + 1;
    }
}

/// Whether `pat` stands somewhere in `s`.
pub fn contains(s: &str, pat: &str) -> (r: bool)
    ensures
        r == contains_text(s@, pat@),
{
    proof {
        lemma_first_match_contains(s@, pat@);
    }
    find(s, pat).is_some()
}

/// Whether `s` begins with `pat`.
pub fn starts_with(s: &str, pat: &str) -> (r: bool)
    ensures
        r == begins(s@, pat@),
{
    let cs = chars_of(s);
    let ps = chars_of(pat);
    if ps.len() > cs.len() {
        return false;
    }
    stands_at(&cs, &ps, 0)
}

/// The number of characters of `s` before the first `c`; all of them when
/// there is none.
pub open spec fn until(s: Seq<char>, c: char) -> int
    decreases s.len(),
{
    if s.len() == 0 || s[0] == c {
        0
    } else {
        1 + until(s.drop_first(), c)
    }
}

/// What `until` counts is characterised by its end.
pub proof fn lemma_until(s: Seq<char>, c: char, k: int)
    requires
        0 <= k <= s.len(),
        forall|i: int| 0 <= i < k ==> s[i] != c,
        k == s.len() || s[k] == c,
    ensures
        until(s, c) == k,
    decreases k,
{
    if k > 0 {
        let t = s.drop_first();
        assert forall|i: int| 0 <= i < k - 1 implies t[i] != c by {
            assert(t[i] == s[i + 1]);
        }
        lemma_until(t, c, k - 1);
    }
}

/// `until` never runs past the text, and stops at the character it looks for.
pub proof fn lemma_until_bounds(s: Seq<char>, c: char)
    ensures
        0 <= until(s, c) <= s.len(),
        forall|i: int| 0 <= i < until(s, c) ==> s[i] != c,
        until(s, c) < s.len() ==> s[until(s, c)] == c,
    decreases s.len(),
{
    if s.len() > 0 && s[0] != c {
        let t = s.drop_first();
        lemma_until_bounds(t, c);
        assert forall|i: int| 0 <= i < until(s, c) implies s[i] != c by {
            if i > 0 {
                assert(t[i - 1] == s[i]);
            }
        }
    }
}

/// The number of characters of `s` before the first `c`; all of them when
/// there is none.
pub fn prefix_until(s: &str, c: char) -> (r: usize)
    ensures
        r == until(s@, c),
        r <= s@.len(),
{
    let cs = chars_of(s);
    let mut i: usize = 0;
    while i < cs.len() && cs[i] != c
        invariant
            cs@ == s@,
            i <= cs.len(),
            forall|k: int| 0 <= k < i ==> s@[k] != c,
        decreases cs.len() - i,
    {
        i = i + 1;
    }
    proof {
        lemma_until(s@, c, i as int);
    }
    i
}

// ---------------------------------------------------------------------------
// Lines, words, pieces
// ---------------------------------------------------------------------------

/// `s` without one carriage return at its end.
pub open spec fn without_cr(s: Seq<char>) -> Seq<char> {
    if s.len() > 0 && s.last() == '\r' {
        s.drop_last()
    } else {
        s
    }
}

/// The lines of `s`: each ends at a newline, or at a carriage return and a
/// newline, which are not part of it; the last one may lack its ending.
pub open spec fn lines_of(s: Seq<char>) -> Seq<Seq<char>>
    decreases s.len(),
{
    let k = until(s, '\n');
    if s.len() == 0 {
        seq![]
    } else if k < 0 || k >= s.len() {
        seq![s]
    } else {
        seq![without_cr(s.take(k))] + lines_of(s.skip(k + 1))
    }
}

/// The lines of `s`.
pub fn lines<'a>(s: &'a str) -> (r: Vec<&'a str>)
    ensures
        r.deep_view() == lines_of(s@),
{
    let cs = chars_of(s);
    let n: usize = cs.len();
    let mut out: Vec<&'a str> = Vec::new();
    let mut start: usize = 0;
    let mut i: usize = 0;
    assert(s@.skip(0) =~= s@);
    assert(out.deep_view() + lines_of(s@) =~= lines_of(s@));
    while i < n
        invariant
            cs@ == s@,
            n == cs.len(),
            start <= i <= n,
            forall|k: int| start <= k < i ==> s@[k] != '\n',
            out.deep_view() + lines_of(s@.skip(start as int)) == lines_of(s@),
        decreases n - i,
    {
        if cs[i] == '\n' {
            let end: usize = if i > start && cs[i - 1] == '\r' {
                i - 1
            } else {
                i
            };
            let ghost rest = s@.skip(start as int);
            let ghost k = i - start;
            let ghost before = out.deep_view();
            proof {
                lemma_until(rest, '\n', k);
                assert(rest.take(k) =~= s@.subrange(start as int, i as int));
                assert(s@.subrange(start as int, end as int) =~= without_cr(rest.take(k)));
                assert(rest.skip(k + 1) =~= s@.skip(i + 1));
            }
            out.push(s.substring_char(start, end));
            assert(out.deep_view() =~= before.push(without_cr(rest.take(k))));
            assert(out.deep_view() + lines_of(s@.skip(i + 1)) =~= before + lines_of(rest));
            start = i + 1;
        }
        i = i + 1;
    }
    let ghost rest = s@.skip(start as int);
    if start < n {
        let ghost before = out.deep_view();
        proof {
            lemma_until(rest, '\n', n - start);
            assert(s@.subrange(start as int, n as int) =~= rest);
        }
        out.push(s.substring_char(start, n));
        assert(out.deep_view() =~= before + lines_of(rest));
    } else {
        assert(out.deep_view() =~= out.deep_view() + lines_of(rest));
    }
    out
}

/// The number of characters of `s` before its first white space.
pub open spec fn word_run(s: Seq<char>) -> int
    decreases s.len(),
{
    if s.len() == 0 || is_space(s[0]) {
        0
    } else {
        1 + word_run(s.drop_first())
    }
}

/// What `word_run` counts is characterised by its end.
pub proof fn lemma_word_run(s: Seq<char>, k: int)
    requires
        0 <= k <= s.len(),
        forall|i: int| 0 <= i < k ==> !is_space(#[trigger] s[i]),
        k == s.len() || is_space(s[k]),
    ensures
        word_run(s) == k,
    decreases k,
{
    if k > 0 {
        let t = s.drop_first();
        assert forall|i: int| 0 <= i < k - 1 implies !is_space(#[trigger] t[i]) by {
            assert(t[i] == s[i + 1]);
        }
        lemma_word_run(t, k - 1);
    }
}

/// `word_run` never runs past the text, and a word is not empty.
pub proof fn lemma_word_run_bounds(s: Seq<char>)
    ensures
        0 <= word_run(s) <= s.len(),
        s.len() > 0 && !is_space(s[0]) ==> 1 <= word_run(s),
    decreases s.len(),
{
    if s.len() > 0 && !is_space(s[0]) {
        lemma_word_run_bounds(s.drop_first());
    }
}

/// The words of `s`: its longest runs of characters that are not white space.
pub open spec fn words_of(s: Seq<char>) -> Seq<Seq<char>>
    decreases s.len(),
{
    if s.len() == 0 {
        seq![]
    } else if is_space(s[0]) {
        words_of(s.drop_first())
    } else {
        proof {
            lemma_word_run_bounds(s);
        }
        seq![s.take(word_run(s))] + words_of(s.skip(word_run(s)))
    }
}

/// The words of `s`.
pub fn words<'a>(s: &'a str) -> (r: Vec<&'a str>)
    ensures
        r.deep_view() == words_of(s@),
{
    let cs = chars_of(s);
    let n: usize = cs.len();
    let mut out: Vec<&'a str> = Vec::new();
    let mut i: usize = 0;
    assert(s@.skip(0) =~= s@);
    assert(out.deep_view() + words_of(s@) =~= words_of(s@));
    while i < n
        invariant
            cs@ == s@,
            n == cs.len(),
            i <= n,
            out.deep_view() + words_of(s@.skip(i as int)) == words_of(s@),
        decreases n - i,
    {
        let ghost rest = s@.skip(i as int);
        assert(rest[0] == s@[i as int]);
        if is_whitespace(cs[i]) {
            assert(rest.drop_first() =~= s@.skip(i + 1));
            i = i + 1;
        } else {
            let start: usize = i;
            while i < n && !is_whitespace(cs[i])
                invariant
                    cs@ == s@,
                    n == cs.len(),
                    start <= i <= n,
                    forall|k: int| start <= k < i ==> !is_space(#[trigger] s@[k]),
                decreases n - i,
            {
                i = i + 1;
            }
            let ghost k = i - start;
            let ghost before = out.deep_view();
            proof {
                assert forall|j: int| 0 <= j < k implies !is_space(#[trigger] rest[j]) by {
                    assert(rest[j] == s@[start + j]);
                }
                lemma_word_run(rest, k);
                assert(rest.take(k) =~= s@.subrange(start as int, i as int));
                assert(rest.skip(k) =~= s@.skip(i as int));
            }
            out.push(s.substring_char(start, i));
            assert(out.deep_view() =~= before.push(rest.take(k)));
            assert(out.deep_view() + words_of(s@.skip(i as int)) =~= before + words_of(rest));
        }
    }
    assert(out.deep_view() + words_of(s@.skip(n as int)) =~= out.deep_view());
    out
}

/// The pieces of `s` between the separators `c`; one more than there are
/// separators.
pub open spec fn pieces_of(s: Seq<char>, c: char) -> Seq<Seq<char>>
    decreases s.len(),
{
    let k = until(s, c);
    if k < 0 || k >= s.len() {
        seq![s]
    } else {
        seq![s.take(k)] + pieces_of(s.skip(k + 1), c)
    }
}

/// The pieces of `s` between the separators `c`.
pub fn split<'a>(s: &'a str, c: char) -> (r: Vec<&'a str>)
    ensures
        r.deep_view() == pieces_of(s@, c),
        r.len() > 0,
{
    let cs = chars_of(s);
    let n: usize = cs.len();
    let mut out: Vec<&'a str> = Vec::new();
    let mut start: usize = 0;
    let mut i: usize = 0;
    assert(s@.skip(0) =~= s@);
    assert(out.deep_view() + pieces_of(s@, c) =~= pieces_of(s@, c));
    while i < n
        invariant
            cs@ == s@,
            n == cs.len(),
            start <= i <= n,
            forall|k: int| start <= k < i ==> s@[k] != c,
            out.deep_view() + pieces_of(s@.skip(start as int), c) == pieces_of(s@, c),
        decreases n - i,
    {
        if cs[i] == c {
            let ghost rest = s@.skip(start as int);
            let ghost k = i - start;
            let ghost before = out.deep_view();
            proof {
                lemma_until(rest, c, k);
                assert(rest.take(k) =~= s@.subrange(start as int, i as int));
                assert(rest.skip(k + 1) =~= s@.skip(i + 1));
            }
            out.push(s.substring_char(start, i));
            assert(out.deep_view() =~= before.push(rest.take(k)));
            assert(out.deep_view() + pieces_of(s@.skip(i + 1), c) =~= before + pieces_of(rest, c));
            start = i + 1;
        }
        i = i + 1;
    }
    let ghost rest = s@.skip(start as int);
    let ghost before = out.deep_view();
    proof {
        lemma_until(rest, c, n - start);
        assert(s@.subrange(start as int, n as int) =~= rest);
    }
    out.push(s.substring_char(start, n));
    assert(out.deep_view() =~= before + pieces_of(rest, c));
    out
}

// ---------------------------------------------------------------------------
// Trimming
// ---------------------------------------------------------------------------

/// `s` without the white space at its start.
pub open spec fn trim_start_of(s: Seq<char>) -> Seq<char>
    decreases s.len(),
{
    if s.len() > 0 && is_space(s[0]) {
        trim_start_of(s.drop_first())
    } else {
        s
    }
}

/// `s` without the white space at its end.
pub open spec fn trim_end_of(s: Seq<char>) -> Seq<char>
    decreases s.len(),
{
    if s.len() > 0 && is_space(s.last()) {
        trim_end_of(s.drop_last())
    } else {
        s
    }
}

/// `s` without the white space at either end.
pub open spec fn trimmed(s: Seq<char>) -> Seq<char> {
    trim_end_of(trim_start_of(s))
}

/// `s` without the white space at either end.
pub fn trim<'a>(s: &'a str) -> (r: &'a str)
    ensures
        r@ == trimmed(s@),
{
    let cs = chars_of(s);
    let mut i: usize = 0;
    assert(s@.skip(0) =~= s@);
    while i < cs.len() && is_whitespace(cs[i])
        invariant
            cs@ == s@,
            i <= cs.len(),
            trim_start_of(s@.skip(i as int)) == trim_start_of(s@),
        decreases cs.len() - i,
    {
        assert(s@.skip(i as int).drop_first() =~= s@.skip(i + 1));
        i = i + 1;
    }
    let mut j: usize = cs.len();
    assert(s@.subrange(i as int, j as int) =~= s@.skip(i as int));
    while j > i && is_whitespace(cs[j - 1])
        invariant
            cs@ == s@,
            i <= j <= cs.len(),
            trim_end_of(s@.subrange(i as int, j as int)) == trimmed(s@),
        decreases j - i,
    {
        assert(s@.subrange(i as int, j as int).drop_last() =~= s@.subrange(i as int, j - 1));
        j = j - 1;
    }
    s.substring_char(i, j)
}

/// `s` without the `c`s at its end.
pub open spec fn trim_end_char_of(s: Seq<char>, c: char) -> Seq<char>
    decreases s.len(),
{
    if s.len() > 0 && s.last() == c {
        trim_end_char_of(s.drop_last(), c)
    } else {
        s
    }
}

/// `s` without the `c`s at its end.
pub fn trim_end_char<'a>(s: &'a str, c: char) -> (r: &'a str)
    ensures
        r@ == trim_end_char_of(s@, c),
{
    let cs = chars_of(s);
    let mut j: usize = cs.len();
    assert(s@.subrange(0, j as int) =~= s@);
    while j > 0 && cs[j - 1] == c
        invariant
            cs@ == s@,
            j <= cs.len(),
            trim_end_char_of(s@.subrange(0, j as int), c) == trim_end_char_of(s@, c),
        decreases j,
    {
        assert(s@.subrange(0, j as int).drop_last() =~= s@.subrange(0, j - 1));
        j = j - 1;
    }
    s.substring_char(0, j)
}

/// `s` without the `pat`s at its start, however many there are.
pub open spec fn strip_all(s: Seq<char>, pat: Seq<char>) -> Seq<char>
    decreases s.len(),
{
    if pat.len() > 0 && begins(s, pat) {
        strip_all(s.skip(pat.len() as int), pat)
    } else {
        s
    }
}

/// `s` without the `pat`s at its start, however many there are.
pub fn trim_start_matches<'a>(s: &'a str, pat: &str) -> (r: &'a str)
    ensures
        r@ == strip_all(s@, pat@),
{
    let cs = chars_of(s);
    let ps = chars_of(pat);
    let n: usize = cs.len();
    let m: usize = ps.len();
    let mut i: usize = 0;
    assert(s@.skip(0) =~= s@);
    while m > 0 && m <= n - i && stands_at(&cs, &ps, i)
        invariant
            cs@ == s@,
            ps@ == pat@,
            n == cs.len(),
            m == ps.len(),
            i <= n,
            strip_all(s@.skip(i as int), pat@) == strip_all(s@, pat@),
        decreases n - i,
    {
        let ghost rest = s@.skip(i as int);
        assert(rest.subrange(0, m as int) =~= s@.subrange(i as int, i + m));
        assert(rest.skip(m as int) =~= s@.skip(i + m));
        i = i + m;
    }
    let ghost rest = s@.skip(i as int);
    proof {
        if m > 0 && begins(rest, pat@) {
            assert(rest.subrange(0, m as int) =~= s@.subrange(i as int, i + m));
        }
        assert(s@.subrange(i as int, n as int) =~= rest);
    }
    s.substring_char(i, n)
}

/// Whether the character stands in `s`.
pub fn contains_char(s: &str, c: char) -> (r: bool)
    ensures
        r == s@.contains(c),
{
    let cs = chars_of(s);
    let mut i: usize = 0;
    while i < cs.len()
        invariant
            cs@ == s@,
            i <= cs.len(),
            forall|k: int| 0 <= k < i ==> #[trigger] s@[k] != c,
        decreases cs.len() - i,
    {
        if cs[i] == c {
            assert(s@[i as int] == c);
            return true;
        }
        i = i + 1;
    }
    false
}

// ---------------------------------------------------------------------------
// Joining
// ---------------------------------------------------------------------------

/// The texts of `parts`, with `sep` between each two.
pub open spec fn joined(parts: Seq<Seq<char>>, sep: Seq<char>) -> Seq<char>
    decreases parts.len(),
{
    if parts.len() == 0 {
        seq![]
    } else if parts.len() == 1 {
        parts[0]
    } else {
        joined(parts.drop_last(), sep) + sep + parts.last()
    }
}

/// The texts of `parts` from the one at `from` on, with `sep` between each two.
pub fn join_from(parts: &Vec<&str>, from: usize, sep: &str) -> (r: String)
    requires
        from <= parts.len(),
    ensures
        r@ == joined(parts.deep_view().skip(from as int), sep@),
{
    let ghost all = parts.deep_view().skip(from as int);
    let mut r = String::new();
    let mut i: usize = from;
    assert(all.take(0) =~= seq![]);
    while i < parts.len()
        invariant
            from <= i <= parts.len(),
            all == parts.deep_view().skip(from as int),
            r@ == joined(all.take(i - from), sep@),
        decreases parts.len() - i,
    {
        let ghost next = all.take(i - from + 1);
        assert(next.drop_last() =~= all.take(i - from));
        assert(next.last() == parts[i as int]@);
        if i > from {
            r.append(sep);
        }
        r.append(parts[i]);
        assert(i == from ==> r@ =~= parts[i as int]@);
        i = i + 1;
    }
    assert(all.take(i - from) =~= all);
    r
}

/// The texts of `parts`, with `sep` between each two.
pub fn join(parts: &Vec<String>, sep: &str) -> (r: String)
    ensures
        r@ == joined(parts.deep_view(), sep@),
{
    let ghost all = parts.deep_view();
    let mut r = String::new();
    let mut i: usize = 0;
    assert(all.take(0) =~= seq![]);
    while i < parts.len()
        invariant
            i <= parts.len(),
            all == parts.deep_view(),
            r@ == joined(all.take(i as int), sep@),
        decreases parts.len() - i,
    {
        let ghost next = all.take(i + 1);
        assert(next.drop_last() =~= all.take(i as int));
        assert(next.last() == parts[i as int]@);
        if i > 0 {
            r.append(sep);
        }
        r.append(parts[i].as_str());
        assert(i == 0 ==> r@ =~= parts[i as int]@);
        i = i + 1;
    }
    assert(all.take(i as int) =~= all);
    r
}

// ---------------------------------------------------------------------------
// Facts about texts put together
// ---------------------------------------------------------------------------

/// A line and what follows it.
pub proof fn lemma_lines_cons(a: Seq<char>, rest: Seq<char>)
    requires
        !a.contains('\n'),
    ensures
        lines_of(a.push('\n') + rest) == seq![without_cr(a)] + lines_of(rest),
{
    let s = a.push('\n') + rest;
    assert forall|i: int| 0 <= i < a.len() implies s[i] != '\n' by {
        assert(s[i] == a[i]);
    }
    lemma_until(s, '\n', a.len() as int);
    assert(s.take(a.len() as int) =~= a);
    assert(s.skip(a.len() as int + 1) =~= rest);
}

/// What stands in a text at some position is contained in it.
pub proof fn lemma_contains_middle(a: Seq<char>, pat: Seq<char>, b: Seq<char>)
    ensures
        occurs(a + pat + b, pat, a.len() as int),
        contains_text(a + pat + b, pat),
{
    let s = a + pat + b;
    assert(s.subrange(a.len() as int, (a.len() + pat.len()) as int) =~= pat);
    assert(occurs(s, pat, a.len() as int));
}

/// A pattern is not in a text whose only character like its first one is the
/// first one and is followed by another character than in the pattern.
pub proof fn lemma_not_contained(s: Seq<char>, pat: Seq<char>)
    requires
        pat.len() > 1,
        s.len() > 1,
        forall|i: int| 1 <= i < s.len() ==> s[i] != pat[0],
        s[1] != pat[1],
    ensures
        !contains_text(s, pat),
{
    assert forall|i: int| !occurs(s, pat, i) by {
        if occurs(s, pat, i) {
            let t = s.subrange(i, i + pat.len());
            assert(t[0] == s[i] && t[1] == s[i + 1]);
        }
    }
}

/// White space before a text that begins and ends with other characters is what
/// trimming takes away.
pub proof fn lemma_trimmed(s: Seq<char>, k: int)
    requires
        0 <= k < s.len(),
        forall|i: int| 0 <= i < k ==> is_space(#[trigger] s[i]),
        !is_space(s[k]),
        !is_space(s.last()),
    ensures
        trimmed(s) == s.skip(k),
    decreases k,
{
    if k > 0 {
        let t = s.drop_first();
        assert forall|i: int| 0 <= i < k - 1 implies is_space(#[trigger] t[i]) by {
            assert(t[i] == s[i + 1]);
        }
        lemma_trimmed(t, k - 1);
        assert(t.skip(k - 1) =~= s.skip(k));
        assert(is_space(s[0]));
    } else {
        assert(s.skip(0) =~= s);
    }
}

/// The piece between the first two separators.
pub proof fn lemma_second_piece(a: Seq<char>, b: Seq<char>, rest: Seq<char>, c: char)
    requires
        !a.contains(c),
        !b.contains(c),
    ensures
        pieces_of(a.push(c) + b.push(c) + rest, c).len() > 1,
        pieces_of(a.push(c) + b.push(c) + rest, c)[1] == b,
{
    let s = a.push(c) + b.push(c) + rest;
    assert forall|i: int| 0 <= i < a.len() implies s[i] != c by {
        assert(s[i] == a[i]);
    }
    lemma_until(s, c, a.len() as int);
    let t = s.skip(a.len() as int + 1);
    assert forall|i: int| 0 <= i < b.len() implies t[i] != c by {
        assert(t[i] == b[i]);
    }
    lemma_until(t, c, b.len() as int);
    assert(t.take(b.len() as int) =~= b);
    assert(pieces_of(t, c)[0] == b);
}

/// Two pieces and the separator between them are the whole text.
pub proof fn lemma_two_pieces(s: Seq<char>, c: char)
    requires
        pieces_of(s, c).len() == 2,
    ensures
        s == pieces_of(s, c)[0].push(c) + pieces_of(s, c)[1],
{
    lemma_until_bounds(s, c);
    let k = until(s, c);
    let t = s.skip(k + 1);
    lemma_until_bounds(t, c);
    assert(k < s.len());
    let m = until(t, c);
    if m < t.len() {
        assert(pieces_of(t.skip(m + 1), c).len() > 0);
    }
    assert(pieces_of(t, c) =~= seq![t]);
    assert(s =~= s.take(k).push(c) + t);
}

/// A word of a text is contained in it.
pub proof fn lemma_word_occurs(s: Seq<char>, k: int)
    requires
        0 <= k < words_of(s).len(),
    ensures
        contains_text(s, words_of(s)[k]),
    decreases s.len(),
{
    let w = words_of(s)[k];
    if is_space(s[0]) {
        let t = s.drop_first();
        lemma_word_occurs(t, k);
        let i = choose|i: int| occurs(t, w, i);
        assert(s.subrange(i + 1, i + 1 + w.len()) =~= t.subrange(i, i + w.len()));
        assert(occurs(s, w, i + 1));
    } else {
        lemma_word_run_bounds(s);
        let n = word_run(s);
        if k == 0 {
            assert(s.subrange(0, n) =~= s.take(n));
            assert(occurs(s, w, 0));
        } else {
            let t = s.skip(n);
            lemma_word_occurs(t, k - 1);
            assert(words_of(t)[k - 1] == w);
            let i = choose|i: int| occurs(t, w, i);
            assert(s.subrange(i + n, i + n + w.len()) =~= t.subrange(i, i + w.len()));
            assert(occurs(s, w, i + n));
        }
    }
}

/// A word, a space, and what follows.
pub proof fn lemma_words_cons(word: Seq<char>, rest: Seq<char>)
    requires
        word.len() > 0,
        forall|i: int| 0 <= i < word.len() ==> !is_space(#[trigger] word[i]),
    ensures
        words_of(word.push(' ') + rest) == seq![word] + words_of(rest),
{
    let s = word.push(' ') + rest;
    let n = word.len() as int;
    assert forall|i: int| 0 <= i < n implies !is_space(#[trigger] s[i]) by {
        assert(s[i] == word[i]);
    }
    lemma_word_run(s, n);
    assert(!is_space(s[0]));
    assert(s.take(n) =~= word);
    let t = s.skip(n);
    assert(is_space(t[0]));
    assert(t.drop_first() =~= rest);
    assert(words_of(t) == words_of(rest));
}

/// A pattern whose first character is not in the start of a text is in the text
/// exactly if it is in the rest.
pub proof fn lemma_contains_after(start: Seq<char>, rest: Seq<char>, pat: Seq<char>)
    requires
        pat.len() > 0,
        !start.contains(pat[0]),
    ensures
        contains_text(start + rest, pat) <==> contains_text(rest, pat),
{
    let s = start + rest;
    let n = start.len() as int;
    if contains_text(s, pat) {
        let i = choose|i: int| occurs(s, pat, i);
        assert(s.subrange(i, i + pat.len())[0] == s[i]);
        if i < n {
            assert(start[i] == pat[0]);
        }
        assert(rest.subrange(i - n, i - n + pat.len()) =~= s.subrange(i, i + pat.len()));
        assert(occurs(rest, pat, i - n));
    }
    if contains_text(rest, pat) {
        let i = choose|i: int| occurs(rest, pat, i);
        assert(s.subrange(i + n, i + n + pat.len()) =~= rest.subrange(i, i + pat.len()));
        assert(occurs(s, pat, i + n));
    }
}

/// A text without the pattern at its start stays as it is; one pattern before
/// it goes.
pub proof fn lemma_strip_prefix(pat: Seq<char>, s: Seq<char>)
    requires
        pat.len() > 0,
    ensures
        strip_all(pat + s, pat) == strip_all(s, pat),
{
    assert((pat + s).subrange(0, pat.len() as int) =~= pat);
    assert((pat + s).skip(pat.len() as int) =~= s);
    assert(begins(pat + s, pat));
}

/// What is stripped of a pattern does not begin with it.
pub proof fn lemma_stripped(s: Seq<char>, pat: Seq<char>)
    requires
        pat.len() > 0,
    ensures
        !begins(strip_all(s, pat), pat),
    decreases s.len(),
{
    if begins(s, pat) {
        lemma_stripped(s.skip(pat.len() as int), pat);
    }
}

// ---------------------------------------------------------------------------
// Laws
// ---------------------------------------------------------------------------

/// A line ends at a newline, or at a carriage return and a newline; neither is
/// part of it. The last line needs no newline, and an empty text has no line.
pub proof fn law_lines_end_at_newlines(l: Seq<char>, rest: Seq<char>)
    requires
        !l.contains('\n'),
        l.len() > 0 ==> l.last() != '\r',
    ensures
        lines_of(l + seq!['\n'] + rest) == seq![l] + lines_of(rest),
        lines_of(l + seq!['\r', '\n'] + rest) == seq![l] + lines_of(rest),
        l.len() > 0 ==> lines_of(l) == seq![l],
        lines_of(seq![]) == Seq::<Seq<char>>::empty(),
{
    assert(l + seq!['\n'] + rest =~= l.push('\n') + rest);
    lemma_lines_cons(l, rest);
    let r = l.push('\r');
    assert(!r.contains('\n')) by {
        assert forall|i: int| 0 <= i < r.len() implies r[i] != '\n' by {
            if i < l.len() {
                assert(l.contains(l[i]));
            }
        }
    }
    assert(l + seq!['\r', '\n'] + rest =~= r.push('\n') + rest);
    lemma_lines_cons(r, rest);
    assert(r.drop_last() =~= l);
    assert forall|i: int| 0 <= i < l.len() implies l[i] != '\n' by {
        assert(l.contains(l[i]));
    }
    lemma_until(l, '\n', l.len() as int);
}

/// Trimming takes away the white space before and behind a text, and none in it.
pub proof fn law_trimming(before: Seq<char>, t: Seq<char>, behind: Seq<char>)
    requires
        forall|i: int| 0 <= i < before.len() ==> is_space(#[trigger] before[i]),
        forall|i: int| 0 <= i < behind.len() ==> is_space(#[trigger] behind[i]),
        t.len() > 0 ==> !is_space(t[0]) && !is_space(t.last()),
    ensures
        trimmed(before + t + behind) == t,
    decreases before.len() + behind.len(),
{
    let s = before + t + behind;
    if before.len() > 0 {
        let b = before.drop_first();
        assert forall|i: int| 0 <= i < b.len() implies is_space(#[trigger] b[i]) by {
            assert(b[i] == before[i + 1]);
        }
        assert(s.drop_first() =~= b + t + behind);
        assert(is_space(s[0])) by {
            assert(s[0] == before[0]);
        }
        law_trimming(b, t, behind);
    } else if t.len() > 0 {
        assert(s =~= t + behind);
        assert(trim_start_of(s) == s) by {
            assert(s[0] == t[0]);
        }
        lemma_trim_behind(t, behind);
    } else if behind.len() > 0 {
        let b = behind.drop_first();
        assert forall|i: int| 0 <= i < b.len() implies is_space(#[trigger] b[i]) by {
            assert(b[i] == behind[i + 1]);
        }
        assert(s.drop_first() =~= before + t + b);
        assert(is_space(s[0])) by {
            assert(s[0] == behind[0]);
        }
        law_trimming(before, t, b);
    } else {
        assert(s =~= t);
    }
}

proof fn lemma_trim_behind(t: Seq<char>, behind: Seq<char>)
    requires
        forall|i: int| 0 <= i < behind.len() ==> is_space(#[trigger] behind[i]),
        t.len() > 0,
        !is_space(t.last()),
    ensures
        trim_end_of(t + behind) == t,
    decreases behind.len(),
{
    let s = t + behind;
    if behind.len() > 0 {
        assert(s.last() == behind[behind.len() - 1]);
        assert(s.drop_last() =~= t + behind.drop_last());
        lemma_trim_behind(t, behind.drop_last());
    } else {
        assert(s =~= t);
    }
}

/// Of the ASCII characters, white space is the space, and those from the tab to
/// the carriage return.
pub proof fn law_white_space(c: char)
    requires
        c <= '\u{7f}',
    ensures
        is_space(c) <==> c == ' ' || '\t' <= c <= '\r',
{
}

/// A word ends at white space or with the text, and white space before it is
/// passed over.
pub proof fn law_words_stand_between_spaces(before: Seq<char>, word: Seq<char>, rest: Seq<char>)
    requires
        forall|i: int| 0 <= i < before.len() ==> is_space(#[trigger] before[i]),
        word.len() > 0,
        forall|i: int| 0 <= i < word.len() ==> !is_space(#[trigger] word[i]),
        rest.len() > 0 ==> is_space(rest[0]),
    ensures
        words_of(before + word + rest) == seq![word] + words_of(rest),
        words_of(before) == Seq::<Seq<char>>::empty(),
    decreases before.len(),
{
    let s = before + word + rest;
    if before.len() > 0 {
        let b = before.drop_first();
        assert forall|i: int| 0 <= i < b.len() implies is_space(#[trigger] b[i]) by {
            assert(b[i] == before[i + 1]);
        }
        assert(s.drop_first() =~= b + word + rest);
        assert(s[0] == before[0]);
        law_words_stand_between_spaces(b, word, rest);
    } else {
        let n = word.len() as int;
        assert forall|i: int| 0 <= i < n implies !is_space(#[trigger] s[i]) by {
            assert(s[i] == word[i]);
        }
        if rest.len() > 0 {
            assert(s[n] == rest[0]);
        }
        lemma_word_run(s, n);
        assert(s.take(n) =~= word);
        assert(s.skip(n) =~= rest);
        assert(!is_space(s[0]));
    }
}

/// A piece ends at the separator or with the text.
pub proof fn law_pieces_stand_between_separators(a: Seq<char>, rest: Seq<char>, c: char)
    requires
        !a.contains(c),
    ensures
        pieces_of(a + seq![c] + rest, c) == seq![a] + pieces_of(rest, c),
        pieces_of(a, c) == seq![a],
{
    let s = a + seq![c] + rest;
    assert forall|i: int| 0 <= i < a.len() implies a[i] != c && s[i] != c by {
        assert(a.contains(a[i]));
        assert(s[i] == a[i]);
    }
    assert(s[a.len() as int] == c);
    lemma_until(s, c, a.len() as int);
    lemma_until(a, c, a.len() as int);
    assert(s.take(a.len() as int) =~= a);
    assert(s.skip(a.len() as int + 1) =~= rest);
}

/// Parts that are joined stand in their order, with the separator between each
/// two.
pub proof fn law_joining(a: Seq<Seq<char>>, b: Seq<Seq<char>>, sep: Seq<char>)
    requires
        a.len() > 0,
        b.len() > 0,
    ensures
        joined(a + b, sep) == joined(a, sep) + sep + joined(b, sep),
        joined(seq![b[0]], sep) == b[0],
    decreases b.len(),
{
    let all = a + b;
    assert(all.last() == b.last());
    if b.len() == 1 {
        assert(all.drop_last() =~= a);
    } else {
        law_joining(a, b.drop_last(), sep);
        assert(all.drop_last() =~= a + b.drop_last());
        assert(joined(all, sep) =~= joined(a, sep) + sep + joined(b, sep));
    }
}

/// In lowercase, an ASCII text has small letters in place of capital ones, and
/// is otherwise the same.
pub proof fn law_lowercase(s: Seq<char>)
    requires
        is_ascii_chars(s),
    ensures
        lowercased(s).len() == s.len(),
        forall|i: int|
            0 <= i < s.len() ==> {
                &&& 'A' <= #[trigger] s[i] <= 'Z' ==> lowercased(s)[i] as int == s[i] as int + 32
                &&& !('A' <= s[i] <= 'Z') ==> lowercased(s)[i] == s[i]
            },
{
}

/// A text contains what stands anywhere in it, and nothing that is longer.
pub proof fn law_containing(a: Seq<char>, t: Seq<char>, b: Seq<char>)
    ensures
        contains_text(a + t + b, t),
        a.len() > 0 ==> !contains_text(t, a + t),
        begins(t + b, t),
{
    lemma_contains_middle(a, t, b);
    assert((t + b).subrange(0, t.len() as int) =~= t);
}

/// The hexadecimal digits.
pub proof fn law_hexadecimal_digits(c: char)
    ensures
        is_hex_digit(c) <==> '0' <= c <= '9' || 'a' <= c <= 'f' || 'A' <= c <= 'F',
{
}

} // verus!
