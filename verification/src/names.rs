//! Names of virtual devices.

use vstd::prelude::*;

use crate::text::{chars_of, is_alnum, is_alphanumeric, trim_end_char_of};

verus! {

/// A character that a device name may hold: a letter, a digit, a hyphen or an
/// underscore.
pub open spec fn allowed(c: char) -> bool {
    is_alnum(c) || c == '-' || c == '_'
}

/// A valid device name: allowed characters only, no two hyphens in a row, and
/// none at either end.
pub open spec fn valid_name(s: Seq<char>) -> bool {
    &&& forall|i: int| 0 <= i < s.len() ==> allowed(#[trigger] s[i])
    &&& single_hyphens(s)
    &&& s.len() > 0 ==> s[0] != '-' && s.last() != '-'
}

/// No two hyphens in a row.
pub open spec fn single_hyphens(s: Seq<char>) -> bool {
    forall|i: int| 1 <= i < s.len() ==> !((#[trigger] s[i]) == '-' && s[i - 1] == '-')
}

/// `s` with a hyphen for each character that is not allowed.
pub open spec fn hyphenated(s: Seq<char>) -> Seq<char> {
    Seq::new(
        s.len(),
        |i: int|
            if allowed(s[i]) {
                s[i]
            } else {
                '-'
            },
    )
}

/// `s` with one hyphen for each row of hyphens.
pub open spec fn collapsed(s: Seq<char>) -> Seq<char>
    decreases s.len(),
{
    if s.len() == 0 {
        s
    } else {
        let before = collapsed(s.drop_last());
        if s.last() == '-' && s.len() > 1 && s[s.len() - 2] == '-' {
            before
        } else {
            before.push(s.last())
        }
    }
}

/// `s` without the hyphens at its start.
pub open spec fn unled(s: Seq<char>) -> Seq<char>
    decreases s.len(),
{
    if s.len() > 0 && s[0] == '-' {
        unled(s.drop_first())
    } else {
        s
    }
}

/// The device name made of `s`: a hyphen stands for each character that is not
/// allowed, hyphens in a row become one, and those at the ends go.
pub open spec fn sanitized(s: Seq<char>) -> Seq<char> {
    trim_end_char_of(unled(collapsed(hyphenated(s))), '-')
}

/// The characters of `s` with a hyphen for each one that is not allowed and for
/// each row of hyphens.
fn collapse(name: &str) -> (r: Vec<char>)
    ensures
        r@ == collapsed(hyphenated(name@)),
{
    let cs = chars_of(name);
    let ghost all = hyphenated(name@);
    let mut r: Vec<char> = Vec::new();
    let mut prev_hyphen = false;
    let mut i: usize = 0;
    assert(all.take(0) =~= seq![]);
    while i < cs.len()
        invariant
            cs@ == name@,
            all == hyphenated(name@),
            i <= cs.len(),
            r@ == collapsed(all.take(i as int)),
            prev_hyphen == (i > 0 && all[i - 1] == '-'),
        decreases cs.len() - i,
    {
        assert(all.take(i + 1).drop_last() =~= all.take(i as int));
        let c = cs[i];
        if is_alphanumeric(c) || c == '-' || c == '_' {
            if c == '-' {
                if !prev_hyphen {
                    r.push(c);
                }
                prev_hyphen = true;
            } else {
                r.push(c);
                prev_hyphen = false;
            }
        } else {
            if !prev_hyphen {
                r.push('-');
            }
            prev_hyphen = true;
        }
        i = i + 1;
    }
    assert(all.take(i as int) =~= all);
    r
}

/// The device name made of `name`: a hyphen stands for each character that is
/// not a letter, a digit, a hyphen or an underscore; hyphens in a row become
/// one, and those at the ends go.
pub fn sanitize_device_name(name: &str) -> (r: String)
    ensures
        r@ == sanitized(name@),
{
    let cs = collapse(name);
    let mut i: usize = 0;
    let mut j: usize = cs.len();
    assert(cs@.subrange(0, j as int) =~= cs@);
    while i < j && cs[i] == '-'
        invariant
            i <= j == cs.len(),
            unled(cs@.subrange(i as int, j as int)) == unled(cs@),
        decreases j - i,
    {
        assert(cs@.subrange(i as int, j as int).drop_first() =~= cs@.subrange(i + 1, j as int));
        i = i + 1;
    }
    let ghost start = cs@.subrange(i as int, j as int);
    while i < j && cs[j - 1] == '-'
        invariant
            i <= j <= cs.len(),
            trim_end_char_of(cs@.subrange(i as int, j as int), '-') == trim_end_char_of(start, '-'),
        decreases j - i,
    {
        assert(cs@.subrange(i as int, j as int).drop_last() =~= cs@.subrange(i as int, j - 1));
        j = j - 1;
    }
    let ghost kept = cs@.subrange(i as int, j as int);
    let mut r = String::new();
    let mut k: usize = i;
    while k < j
        invariant
            i <= k <= j <= cs.len(),
            r@ == cs@.subrange(i as int, k as int),
        decreases j - k,
    {
        r.push(cs[k]);
        assert(cs@.subrange(i as int, k + 1) =~= cs@.subrange(i as int, k as int).push(
            cs@[k as int],
        ));
        k = k + 1;
    }
    r
}

// ---------------------------------------------------------------------------
// Laws
// ---------------------------------------------------------------------------

proof fn lemma_collapsed(s: Seq<char>)
    requires
        forall|i: int| 0 <= i < s.len() ==> allowed(#[trigger] s[i]),
    ensures
        forall|i: int| 0 <= i < collapsed(s).len() ==> allowed(#[trigger] collapsed(s)[i]),
        single_hyphens(collapsed(s)),
        s.len() > 0 ==> collapsed(s).len() > 0 && collapsed(s).last() == s.last(),
        single_hyphens(s) ==> collapsed(s) == s,
    decreases s.len(),
{
    if s.len() > 0 {
        let t = s.drop_last();
        lemma_collapsed(t);
        if single_hyphens(s) {
            assert(single_hyphens(t));
            assert(s =~= t.push(s.last()));
            assert(s.len() > 1 ==> !(s[s.len() - 1] == '-' && s[s.len() - 2] == '-'));
        }
    }
}

proof fn lemma_unled(s: Seq<char>)
    ensures
        exists|k: int|
            0 <= k <= s.len() && unled(s) == #[trigger] s.skip(k) && (k < s.len() ==> s[k] != '-'),
        s.len() > 0 && s[0] != '-' ==> unled(s) == s,
    decreases s.len(),
{
    if s.len() > 0 && s[0] == '-' {
        let t = s.drop_first();
        lemma_unled(t);
        let k = choose|k: int|
            0 <= k <= t.len() && unled(t) == #[trigger] t.skip(k) && (k < t.len() ==> t[k] != '-');
        assert(t.skip(k) =~= s.skip(k + 1));
    } else {
        assert(s.skip(0) =~= s);
    }
}

proof fn lemma_unended(s: Seq<char>)
    ensures
        exists|k: int|
            0 <= k <= s.len() && trim_end_char_of(s, '-') == #[trigger] s.take(k) && (k > 0
                ==> s[k - 1] != '-'),
        s.len() > 0 && s.last() != '-' ==> trim_end_char_of(s, '-') == s,
    decreases s.len(),
{
    if s.len() > 0 && s.last() == '-' {
        let t = s.drop_last();
        lemma_unended(t);
        let k = choose|k: int|
            0 <= k <= t.len() && trim_end_char_of(t, '-') == #[trigger] t.take(k) && (k > 0
                ==> t[k - 1] != '-');
        assert(t.take(k) =~= s.take(k));
    } else {
        assert(s.take(s.len() as int) =~= s);
    }
}

/// A sanitized name is valid.
pub proof fn law_sanitized_is_valid(s: Seq<char>)
    ensures
        valid_name(sanitized(s)),
{
    let h = hyphenated(s);
    let c = collapsed(h);
    lemma_collapsed(h);
    lemma_unled(c);
    let a = choose|k: int|
        0 <= k <= c.len() && unled(c) == #[trigger] c.skip(k) && (k < c.len() ==> c[k] != '-');
    let u = unled(c);
    lemma_unended(u);
    let b = choose|k: int|
        0 <= k <= u.len() && trim_end_char_of(u, '-') == #[trigger] u.take(k) && (k > 0
            ==> u[k - 1] != '-');
    let r = sanitized(s);
    assert forall|i: int| 0 <= i < r.len() implies allowed(#[trigger] r[i]) by {
        assert(r[i] == c[a + i]);
    }
    assert forall|i: int| 1 <= i < r.len() implies !((#[trigger] r[i]) == '-' && r[i - 1]
        == '-') by {
        assert(r[i] == c[a + i]);
        assert(r[i - 1] == c[a + i - 1]);
    }
}

/// A valid name is left unchanged by sanitizing.
pub proof fn law_valid_name_unchanged(s: Seq<char>)
    requires
        valid_name(s),
    ensures
        sanitized(s) == s,
{
    assert(hyphenated(s) =~= s);
    lemma_collapsed(s);
    lemma_unled(s);
    lemma_unended(s);
}

/// Sanitizing a sanitized name changes nothing.
pub proof fn law_sanitizing_is_idempotent(s: Seq<char>)
    ensures
        sanitized(sanitized(s)) == sanitized(s),
{
    law_sanitized_is_valid(s);
    law_valid_name_unchanged(sanitized(s));
}

/// The characters of `s` that are allowed, but for the hyphens.
pub open spec fn letters(s: Seq<char>) -> Seq<char>
    decreases s.len(),
{
    if s.len() == 0 {
        s
    } else if allowed(s.last()) && s.last() != '-' {
        letters(s.drop_last()).push(s.last())
    } else {
        letters(s.drop_last())
    }
}

proof fn lemma_letters_hyphenated(s: Seq<char>)
    ensures
        letters(hyphenated(s)) == letters(s),
    decreases s.len(),
{
    if s.len() > 0 {
        lemma_letters_hyphenated(s.drop_last());
        assert(hyphenated(s).drop_last() =~= hyphenated(s.drop_last()));
    } else {
        assert(hyphenated(s) =~= s);
    }
}

proof fn lemma_letters_collapsed(s: Seq<char>)
    ensures
        letters(collapsed(s)) == letters(s),
    decreases s.len(),
{
    if s.len() > 0 {
        let before = collapsed(s.drop_last());
        lemma_letters_collapsed(s.drop_last());
        assert(before.push(s.last()).drop_last() =~= before);
    }
}

proof fn lemma_letters_dropped(s: Seq<char>)
    requires
        s.len() > 0,
        s[0] == '-',
    ensures
        letters(s.drop_first()) == letters(s),
    decreases s.len(),
{
    if s.len() > 1 {
        lemma_letters_dropped(s.drop_last());
        assert(s.drop_first().drop_last() =~= s.drop_last().drop_first());
    } else {
        assert(s.drop_first() =~= s.drop_last());
    }
}

proof fn lemma_letters_unled(s: Seq<char>)
    ensures
        letters(unled(s)) == letters(s),
    decreases s.len(),
{
    if s.len() > 0 && s[0] == '-' {
        lemma_letters_dropped(s);
        lemma_letters_unled(s.drop_first());
    }
}

proof fn lemma_letters_unended(s: Seq<char>)
    ensures
        letters(trim_end_char_of(s, '-')) == letters(s),
    decreases s.len(),
{
    if s.len() > 0 && s.last() == '-' {
        lemma_letters_unended(s.drop_last());
    }
}

/// Sanitizing loses no letter, digit or underscore and keeps their order.
pub proof fn law_sanitizing_keeps_letters(s: Seq<char>)
    ensures
        letters(sanitized(s)) == letters(s),
{
    lemma_letters_hyphenated(s);
    lemma_letters_collapsed(hyphenated(s));
    lemma_letters_unled(collapsed(hyphenated(s)));
    lemma_letters_unended(unled(collapsed(hyphenated(s))));
}

/// Of the ASCII characters, a name may hold the letters, the digits, the hyphen
/// and the underscore.
pub proof fn law_characters_of_names(c: char)
    requires
        c <= '\u{7f}',
    ensures
        allowed(c) <==> 'a' <= c <= 'z' || 'A' <= c <= 'Z' || '0' <= c <= '9' || c == '-' || c
            == '_',
{
}

/// No character of `s` can stay but as a hyphen.
pub open spec fn is_gap(s: Seq<char>) -> bool {
    forall|i: int| 0 <= i < s.len() ==> (#[trigger] s[i]) == '-' || !allowed(s[i])
}

/// Hyphens, `n` of them.
spec fn hyphens(n: nat) -> Seq<char> {
    Seq::new(n, |i: int| '-')
}

proof fn lemma_collapsed_gap(s: Seq<char>, n: nat)
    requires
        s.len() > 0 ==> s.last() != '-',
        n > 0,
    ensures
        collapsed(s + hyphens(n)) == collapsed(s).push('-'),
    decreases n,
{
    let t = s + hyphens(n);
    assert(t.last() == '-');
    assert(t.drop_last() =~= s + hyphens((n - 1) as nat));
    if n > 1 {
        lemma_collapsed_gap(s, (n - 1) as nat);
        assert(t[t.len() - 2] == '-');
    } else {
        assert(t.drop_last() =~= s);
        if s.len() > 0 {
            assert(t[t.len() - 2] == s.last());
        }
    }
}

proof fn lemma_collapsed_name(s: Seq<char>, name: Seq<char>)
    requires
        valid_name(name),
    ensures
        collapsed(s + name) == collapsed(s) + name,
{
    lemma_collapsed_start(s, name, name.len() as int);
    assert(name.take(name.len() as int) =~= name);
}

proof fn lemma_collapsed_start(s: Seq<char>, name: Seq<char>, k: int)
    requires
        valid_name(name),
        0 <= k <= name.len(),
    ensures
        collapsed(s + name.take(k)) == collapsed(s) + name.take(k),
    decreases k,
{
    let t = s + name.take(k);
    if k > 0 {
        lemma_collapsed_start(s, name, k - 1);
        assert(t.last() == name[k - 1]);
        assert(t.drop_last() =~= s + name.take(k - 1));
        assert(name.take(k) =~= name.take(k - 1).push(name[k - 1]));
        if k > 1 {
            assert(t[t.len() - 2] == name[k - 2]);
            assert(!(name[k - 1] == '-' && name[k - 1 - 1] == '-'));
        }
        assert(collapsed(t) =~= collapsed(s) + name.take(k));
    } else {
        assert(t =~= s);
        assert(collapsed(s) + name.take(0) =~= collapsed(s));
    }
}

/// What cannot stay in a name becomes one hyphen between what can, and goes
/// before and behind it.
pub proof fn law_gap_becomes_a_hyphen(
    before: Seq<char>,
    a: Seq<char>,
    gap: Seq<char>,
    b: Seq<char>,
    behind: Seq<char>,
)
    requires
        is_gap(before),
        is_gap(gap),
        is_gap(behind),
        gap.len() > 0,
        valid_name(a),
        valid_name(b),
        a.len() > 0,
        b.len() > 0,
    ensures
        sanitized(before + a + gap + b + behind) == a + seq!['-'] + b,
        sanitized(before + a + behind) == a,
        sanitized(before) == Seq::<char>::empty(),
{
    let h0 = hyphens(before.len());
    let h1 = hyphens(gap.len());
    let h2 = hyphens(behind.len());
    assert(hyphenated(before + a + gap + b + behind) =~= h0 + a + h1 + b + h2);
    assert(hyphenated(before + a + behind) =~= h0 + a + h2);
    assert(hyphenated(before) =~= h0);
    let led = if before.len() > 0 {
        seq!['-']
    } else {
        seq![]
    };
    let ended = if behind.len() > 0 {
        seq!['-']
    } else {
        seq![]
    };
    assert(collapsed(h0) =~= led) by {
        if before.len() > 0 {
            lemma_collapsed_gap(seq![], before.len());
            assert(seq![] + h0 =~= h0);
        } else {
            assert(h0 =~= seq![]);
        }
    }
    lemma_collapsed_name(h0, a);
    let s1 = h0 + a;
    assert(s1.last() == a.last());
    lemma_collapsed_gap(s1, gap.len());
    lemma_collapsed_name(s1 + h1, b);
    let s2 = s1 + h1 + b;
    assert(s2.last() == b.last());
    if behind.len() > 0 {
        lemma_collapsed_gap(s2, behind.len());
        lemma_collapsed_gap(s1, behind.len());
    } else {
        assert(s2 + h2 =~= s2);
        assert(s1 + h2 =~= s1);
    }
    let long = a + seq!['-'] + b;
    assert(collapsed(s2 + h2) =~= led + long + ended);
    assert(collapsed(s1 + h2) =~= led + a + ended);
    lemma_cut(led, long, ended);
    lemma_cut(led, a, ended);
    assert(unled(led) =~= seq![]) by {
        lemma_unled(led);
        if before.len() > 0 {
            assert(led.drop_first() =~= seq![]);
        }
    }
    lemma_unended(seq![]);
}

proof fn lemma_cut(led: Seq<char>, s: Seq<char>, ended: Seq<char>)
    requires
        led == seq!['-'] || led == Seq::<char>::empty(),
        ended == seq!['-'] || ended == Seq::<char>::empty(),
        s.len() > 0,
        s[0] != '-',
        s.last() != '-',
    ensures
        trim_end_char_of(unled(led + s + ended), '-') == s,
{
    let t = s + ended;
    lemma_unled(t);
    assert(t[0] == s[0]);
    if led.len() > 0 {
        assert((led + s + ended).drop_first() =~= t);
    } else {
        assert(led + s + ended =~= t);
    }
    lemma_unended(s);
    if ended.len() > 0 {
        assert(t.last() == '-');
        assert(t.drop_last() =~= s);
    } else {
        assert(t =~= s);
    }
}

} // verus!
