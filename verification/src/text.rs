//! Verified character-sequence utilities shared by the email pipeline:
//! equality, substring search, trimming, splitting, and ASCII case mapping.

use vstd::prelude::*;

verus! {

// ---------------------------------------------------------------------------
// Equality
// ---------------------------------------------------------------------------

/// Character-wise equality of two string slices.
pub fn str_eq(a: &str, b: &str) -> (r: bool)
    ensures
        r == (a@ == b@),
{
    let an = a.unicode_len();
    let bn = b.unicode_len();
    if an != bn {
        proof {
            assert(a@ != b@) by {
                assert(a@.len() != b@.len());
            }
        }
        return false;
    }
    let mut i: usize = 0;
    while i < an
        invariant
            i <= an,
            an == a@.len(),
            an == b@.len(),
            forall|k: int| 0 <= k < i ==> a@[k] == b@[k],
        decreases an - i,
    {
        if a.get_char(i) != b.get_char(i) {
            return false;
        }
        i += 1;
    }
    proof {
        assert(a@ =~= b@);
    }
    true
}

// ---------------------------------------------------------------------------
// Substring search
// ---------------------------------------------------------------------------

/// The needle `n` occurs in `h` starting at character index `i`.
pub open spec fn match_at(h: Seq<char>, n: Seq<char>, i: int) -> bool {
    0 <= i && i + n.len() <= h.len() && h.subrange(i, i + n.len()) == n
}

/// `h` contains `n` as a contiguous subsequence.
pub open spec fn contains_seq(h: Seq<char>, n: Seq<char>) -> bool {
    exists|i: int| match_at(h, n, i)
}

/// Index of the first occurrence of `n` in `h` at or after `i`; -1 if none.
pub open spec fn first_match_from(h: Seq<char>, n: Seq<char>, i: int) -> int
    decreases h.len() - i + 1,
{
    if i + n.len() > h.len() {
        -1
    } else if h.subrange(i, i + n.len()) == n {
        i
    } else {
        first_match_from(h, n, i + 1)
    }
}

/// Index of the first occurrence of `n` in `h`; -1 if `h` does not contain `n`.
pub open spec fn find_sub_spec(h: Seq<char>, n: Seq<char>) -> int {
    first_match_from(h, n, 0)
}

pub proof fn lemma_first_match_from(h: Seq<char>, n: Seq<char>, i: int)
    requires
        0 <= i,
    ensures
        first_match_from(h, n, i) == -1 ==> forall|j: int| i <= j ==> !match_at(h, n, j),
        first_match_from(h, n, i) != -1 ==> {
            let m = first_match_from(h, n, i);
            &&& i <= m
            &&& match_at(h, n, m)
            &&& forall|j: int| i <= j < m ==> !match_at(h, n, j)
        },
    decreases h.len() - i + 1,
{
    if i + n.len() > h.len() {
        assert(forall|j: int| i <= j ==> !match_at(h, n, j));
    } else if h.subrange(i, i + n.len()) == n {
    } else {
        lemma_first_match_from(h, n, i + 1);
    }
}

/// The first occurrence of `n` in `h`, pinned to [`find_sub_spec`].
pub fn find_substring(h: &str, n: &str) -> (r: Option<usize>)
    ensures
        r matches Some(i) ==> i as int == find_sub_spec(h@, n@) && match_at(h@, n@, i as int),
        r is None ==> find_sub_spec(h@, n@) == -1 && !contains_seq(h@, n@),
{
    let hn = h.unicode_len();
    let nn = n.unicode_len();
    if nn > hn {
        proof {
            lemma_first_match_from(h@, n@, 0);
        }
        return None;
    }
    if nn == 0 {
        proof {
            assert(h@.subrange(0, 0) =~= n@);
        }
        return Some(0);
    }
    let mut i: usize = 0;
    while i <= hn - nn
        invariant
            hn == h@.len(),
            nn == n@.len(),
            1 <= nn <= hn,
            i <= hn - nn + 1,
            first_match_from(h@, n@, 0) == first_match_from(h@, n@, i as int),
        decreases hn - nn - i + 1,
    {
        let mut j: usize = 0;
        let mut matched = true;
        while j < nn
            invariant
                hn == h@.len(),
                nn == n@.len(),
                i + nn <= hn,
                j <= nn,
                matched ==> forall|k: int| 0 <= k < j ==> h@[i + k] == n@[k],
                !matched ==> h@.subrange(i as int, i + nn) != n@,
            decreases nn - j,
        {
            if h.get_char(i + j) != n.get_char(j) {
                proof {
                    assert(h@.subrange(i as int, i + nn)[j as int] == h@[i + j]);
                }
                matched = false;
                j = nn;
            } else {
                j += 1;
            }
        }
        if matched {
            proof {
                assert(h@.subrange(i as int, i + nn) =~= n@);
                lemma_first_match_from(h@, n@, 0);
            }
            return Some(i);
        }
        proof {
            assert(first_match_from(h@, n@, i as int) == first_match_from(h@, n@, i + 1));
        }
        i += 1;
    }
    proof {
        assert(i + nn > hn);
        assert(first_match_from(h@, n@, i as int) == -1);
        lemma_first_match_from(h@, n@, 0);
    }
    None
}

/// Substring containment test over [`contains_seq`].
pub fn contains_str(h: &str, n: &str) -> (r: bool)
    ensures
        r == contains_seq(h@, n@),
{
    let found = find_substring(h, n);
    proof {
        lemma_first_match_from(h@, n@, 0);
    }
    found.is_some()
}

/// `p` is a prefix of `s`.
pub open spec fn starts_with_spec(s: Seq<char>, p: Seq<char>) -> bool {
    p.len() <= s.len() && s.subrange(0, p.len() as int) == p
}

/// Prefix test, pinned to [`starts_with_spec`].
pub fn starts_with(s: &str, p: &str) -> (r: bool)
    ensures
        r == starts_with_spec(s@, p@),
{
    let sn = s.unicode_len();
    let pn = p.unicode_len();
    if pn > sn {
        return false;
    }
    let mut j: usize = 0;
    while j < pn
        invariant
            sn == s@.len(),
            pn == p@.len(),
            pn <= sn,
            j <= pn,
            forall|k: int| 0 <= k < j ==> s@[k] == p@[k],
        decreases pn - j,
    {
        if s.get_char(j) != p.get_char(j) {
            proof {
                assert(s@.subrange(0, pn as int)[j as int] == s@[j as int]);
            }
            return false;
        }
        j += 1;
    }
    proof {
        assert(s@.subrange(0, pn as int) =~= p@);
    }
    true
}

// ---------------------------------------------------------------------------
// Whitespace and trimming
// ---------------------------------------------------------------------------

/// ASCII whitespace, as the line-cleaning rules understand it.
pub open spec fn is_space_char(c: char) -> bool {
    c == ' ' || c == '\t' || c == '\n' || c == '\r' || c == '\u{b}' || c == '\u{c}'
}

/// Whitespace test, pinned to [`is_space_char`].
pub fn is_space(c: char) -> (r: bool)
    ensures
        r == is_space_char(c),
{
    c == ' ' || c == '\t' || c == '\n' || c == '\r' || c == '\u{b}' || c == '\u{c}'
}

/// `s` without its leading whitespace.
pub open spec fn trim_start_spec(s: Seq<char>) -> Seq<char>
    decreases s.len(),
{
    if s.len() > 0 && is_space_char(s[0]) {
        trim_start_spec(s.skip(1))
    } else {
        s
    }
}

/// `s` without its trailing whitespace.
pub open spec fn trim_end_spec(s: Seq<char>) -> Seq<char>
    decreases s.len(),
{
    if s.len() > 0 && is_space_char(s[s.len() - 1]) {
        trim_end_spec(s.take(s.len() - 1))
    } else {
        s
    }
}

/// `s` without leading and trailing whitespace.
pub open spec fn trim_spec(s: Seq<char>) -> Seq<char> {
    trim_end_spec(trim_start_spec(s))
}

proof fn lemma_trim_start_skip(s: Seq<char>, i: int)
    requires
        0 <= i <= s.len(),
        forall|k: int| 0 <= k < i ==> is_space_char(s[k]),
        i < s.len() ==> !is_space_char(s[i]),
    ensures
        trim_start_spec(s) == s.skip(i),
    decreases i,
{
    if i == 0 {
        assert(s.skip(0) =~= s);
    } else {
        lemma_trim_start_skip(s.skip(1), i - 1);
        assert(s.skip(1).skip(i - 1) =~= s.skip(i));
    }
}

proof fn lemma_trim_end_take(s: Seq<char>, j: int)
    requires
        0 <= j <= s.len(),
        forall|k: int| j <= k < s.len() ==> is_space_char(s[k]),
        j > 0 ==> !is_space_char(s[j - 1]),
    ensures
        trim_end_spec(s) == s.take(j),
    decreases s.len() - j,
{
    if j == s.len() {
        assert(s.take(j) =~= s);
    } else {
        lemma_trim_end_take(s.take(s.len() - 1), j);
    }
}

/// Strips leading and trailing whitespace, pinned to [`trim_spec`].
pub fn trim_str<'a>(s: &'a str) -> (r: &'a str)
    ensures
        r@ == trim_spec(s@),
{
    let n = s.unicode_len();
    let mut i: usize = 0;
    while i < n && is_space(s.get_char(i))
        invariant
            n == s@.len(),
            i <= n,
            forall|k: int| 0 <= k < i ==> is_space_char(s@[k]),
        decreases n - i,
    {
        i += 1;
    }
    let mut j: usize = n;
    while j > i && is_space(s.get_char(j - 1))
        invariant
            n == s@.len(),
            i <= j <= n,
            forall|k: int| 0 <= k < i ==> is_space_char(s@[k]),
            i < n ==> !is_space_char(s@[i as int]),
            forall|k: int| j <= k < n ==> is_space_char(s@[k]),
        decreases j,
    {
        j -= 1;
    }
    let r = s.substring_char(i, j);
    proof {
        lemma_trim_start_skip(s@, i as int);
        lemma_trim_end_take(s@.skip(i as int), j - i);
        assert(s@.skip(i as int).take(j - i) =~= s@.subrange(i as int, j as int));
        assert forall|k: int| j - i <= k < s@.skip(i as int).len() implies is_space_char(
            s@.skip(i as int)[k],
        ) by {
            assert(s@.skip(i as int)[k] == s@[k + i]);
        }
    }
    r
}

// ---------------------------------------------------------------------------
// Splitting
// ---------------------------------------------------------------------------

/// `s` split on `sep`, mirroring `str::split`: always at least one piece,
/// with empty pieces kept.
pub open spec fn split_char_spec(s: Seq<char>, sep: char) -> Seq<Seq<char>>
    decreases s.len(),
{
    if s.len() == 0 {
        seq![Seq::<char>::empty()]
    } else {
        let rest = split_char_spec(s.skip(1), sep);
        if s[0] == sep {
            seq![Seq::<char>::empty()] + rest
        } else {
            seq![seq![s[0]] + rest[0]] + rest.skip(1)
        }
    }
}

pub proof fn lemma_split_nonempty(s: Seq<char>, sep: char)
    ensures
        split_char_spec(s, sep).len() >= 1,
    decreases s.len(),
{
    if s.len() > 0 {
        lemma_split_nonempty(s.skip(1), sep);
    }
}

/// Splitting a separator-free sequence yields that sequence alone.
pub proof fn lemma_split_whole(s: Seq<char>, sep: char)
    requires
        forall|t: int| 0 <= t < s.len() ==> s[t] != sep,
    ensures
        split_char_spec(s, sep) == seq![s],
    decreases s.len(),
{
    if s.len() == 0 {
        assert(s =~= Seq::<char>::empty());
    } else {
        lemma_split_whole(s.skip(1), sep);
        let rest = split_char_spec(s.skip(1), sep);
        assert(rest.skip(1) =~= Seq::<Seq<char>>::empty());
        assert(seq![s[0]] + s.skip(1) =~= s);
        assert(seq![seq![s[0]] + rest[0]] + rest.skip(1) =~= seq![s]);
    }
}

/// Splitting cuts at the first separator.
pub proof fn lemma_split_cut(s: Seq<char>, sep: char, k: int)
    requires
        0 <= k < s.len(),
        s[k] == sep,
        forall|t: int| 0 <= t < k ==> s[t] != sep,
    ensures
        split_char_spec(s, sep) == seq![s.take(k)] + split_char_spec(s.skip(k + 1), sep),
    decreases k,
{
    if k == 0 {
        assert(s.take(0) =~= Seq::<char>::empty());
        assert(split_char_spec(s, sep) =~= seq![s.take(0)] + split_char_spec(s.skip(1), sep));
    } else {
        lemma_split_cut(s.skip(1), sep, k - 1);
        lemma_split_nonempty(s.skip(1).skip(k), sep);
        assert(s.skip(1).skip(k) =~= s.skip(k + 1));
        assert(seq![s[0]] + s.skip(1).take(k - 1) =~= s.take(k));
        assert(split_char_spec(s, sep) =~= seq![s.take(k)] + split_char_spec(s.skip(k + 1), sep));
    }
}

// ---------------------------------------------------------------------------
// Tokens
// ---------------------------------------------------------------------------

/// The part of `s` after the last `sep`; all of `s` when `sep` is absent.
pub open spec fn last_token_spec(s: Seq<char>, sep: char) -> Seq<char>
    decreases s.len(),
{
    if s.len() == 0 {
        s
    } else if s.last() == sep {
        Seq::empty()
    } else {
        last_token_spec(s.drop_last(), sep).push(s.last())
    }
}

/// The part of `s` before the first `sep`; all of `s` when `sep` is absent.
pub open spec fn first_token_spec(s: Seq<char>, sep: char) -> Seq<char>
    decreases s.len(),
{
    if s.len() == 0 || s[0] == sep {
        Seq::empty()
    } else {
        seq![s[0]] + first_token_spec(s.skip(1), sep)
    }
}

proof fn lemma_last_token(s: Seq<char>, sep: char, k: int)
    requires
        0 <= k <= s.len(),
        k > 0 ==> s[k - 1] == sep,
        forall|t: int| k <= t < s.len() ==> s[t] != sep,
    ensures
        last_token_spec(s, sep) == s.skip(k),
    decreases s.len(),
{
    if k == s.len() {
        if k > 0 {
            assert(s.last() == sep);
            assert(s.skip(k) =~= Seq::<char>::empty());
        } else {
            assert(s.skip(0) =~= s);
        }
    } else {
        assert(s.last() != sep);
        lemma_last_token(s.drop_last(), sep, k);
        assert(s.drop_last().skip(k).push(s.last()) =~= s.skip(k));
    }
}

proof fn lemma_first_token(s: Seq<char>, sep: char, k: int)
    requires
        0 <= k <= s.len(),
        k < s.len() ==> s[k] == sep,
        forall|t: int| 0 <= t < k ==> s[t] != sep,
    ensures
        first_token_spec(s, sep) == s.take(k),
    decreases k,
{
    if k == 0 {
        assert(s.take(0) =~= Seq::<char>::empty());
    } else {
        lemma_first_token(s.skip(1), sep, k - 1);
        assert(seq![s[0]] + s.skip(1).take(k - 1) =~= s.take(k));
    }
}

/// The last `sep`-separated token of `s`, pinned to [`last_token_spec`].
pub fn last_token<'a>(s: &'a str, sep: char) -> (r: &'a str)
    ensures
        r@ == last_token_spec(s@, sep),
{
    let n = s.unicode_len();
    let mut k: usize = n;
    while k > 0 && s.get_char(k - 1) != sep
        invariant
            n == s@.len(),
            k <= n,
            forall|t: int| k <= t < n ==> s@[t] != sep,
        decreases k,
    {
        k -= 1;
    }
    let r = s.substring_char(k, n);
    proof {
        lemma_last_token(s@, sep, k as int);
        assert(s@.subrange(k as int, n as int) =~= s@.skip(k as int));
    }
    r
}

/// The first `sep`-separated token of `s`, pinned to [`first_token_spec`].
pub fn first_token<'a>(s: &'a str, sep: char) -> (r: &'a str)
    ensures
        r@ == first_token_spec(s@, sep),
{
    let n = s.unicode_len();
    let mut k: usize = 0;
    while k < n && s.get_char(k) != sep
        invariant
            n == s@.len(),
            k <= n,
            forall|t: int| 0 <= t < k ==> s@[t] != sep,
        decreases n - k,
    {
        k += 1;
    }
    let r = s.substring_char(0, k);
    proof {
        lemma_first_token(s@, sep, k as int);
        assert(s@.subrange(0, k as int) =~= s@.take(k as int));
    }
    r
}

// ---------------------------------------------------------------------------
// ASCII case mapping
// ---------------------------------------------------------------------------

/// `c` with an ASCII capital letter mapped to its lower-case form.
pub open spec fn lower_char(c: char) -> char {
    if 65 <= c as u32 && c as u32 <= 90 {
        ((c as u32 + 32) as u32) as char
    } else {
        c
    }
}

/// `s` with every ASCII capital letter lowered.
pub open spec fn lower_seq(s: Seq<char>) -> Seq<char> {
    s.map_values(|c: char| lower_char(c))
}

/// ASCII lower-casing of one character, pinned to [`lower_char`].
pub fn to_lower_char(c: char) -> (r: char)
    ensures
        r == lower_char(c),
{
    let u = c as u32;
    if 65 <= u && u <= 90 {
        ((u + 32) as u8) as char
    } else {
        c
    }
}

/// Relies on `String::push`: appends exactly one character to the string.
#[verifier::external_body]
pub fn push_char(s: &mut String, c: char)
    ensures
        final(s)@ == old(s)@.push(c),
{
    s.push(c);
}

/// `s` with every ASCII capital letter lowered, pinned to [`lower_seq`].
pub fn ascii_lowercase(s: &str) -> (r: String)
    ensures
        r@ == lower_seq(s@),
{
    let n = s.unicode_len();
    let mut out = String::new();
    let mut i: usize = 0;
    while i < n
        invariant
            n == s@.len(),
            i <= n,
            out@ == lower_seq(s@.take(i as int)),
        decreases n - i,
    {
        let c = to_lower_char(s.get_char(i));
        push_char(&mut out, c);
        proof {
            assert(lower_seq(s@.take(i + 1)) =~= lower_seq(s@.take(i as int)).push(
                lower_char(s@[i as int]),
            ));
        }
        i += 1;
    }
    proof {
        assert(s@.take(n as int) =~= s@);
    }
    out
}

/// ASCII-case-insensitive equality: both sides lower the same way.
pub fn eq_ignore_case(a: &str, b: &str) -> (r: bool)
    ensures
        r == (lower_seq(a@) == lower_seq(b@)),
{
    let an = a.unicode_len();
    let bn = b.unicode_len();
    if an != bn {
        proof {
            assert(lower_seq(a@).len() != lower_seq(b@).len());
        }
        return false;
    }
    let mut i: usize = 0;
    while i < an
        invariant
            an == a@.len(),
            an == b@.len(),
            i <= an,
            forall|k: int| 0 <= k < i ==> lower_char(a@[k]) == lower_char(b@[k]),
        decreases an - i,
    {
        if to_lower_char(a.get_char(i)) != to_lower_char(b.get_char(i)) {
            proof {
                assert(lower_seq(a@)[i as int] != lower_seq(b@)[i as int]);
            }
            return false;
        }
        i += 1;
    }
    proof {
        assert(lower_seq(a@) =~= lower_seq(b@));
    }
    true
}

// ---------------------------------------------------------------------------
// Line cleaning
// ---------------------------------------------------------------------------

/// `s` split on `sep`, each piece trimmed, empty pieces dropped.
pub open spec fn clean_split_spec(s: Seq<char>, sep: char) -> Seq<Seq<char>> {
    split_char_spec(s, sep).map_values(|l: Seq<char>| trim_spec(l)).filter(
        |l: Seq<char>| l.len() > 0,
    )
}

/// `s` split on newlines, each line trimmed, empty lines dropped: the
/// preprocessing every extractor applies to an email body.
pub open spec fn clean_lines_spec(s: Seq<char>) -> Seq<Seq<char>> {
    clean_split_spec(s, '\n')
}

/// Every piece that cleaning yields is non-empty.
pub proof fn lemma_clean_split_nonempty(s: Seq<char>, sep: char, i: int)
    requires
        0 <= i < clean_split_spec(s, sep).len(),
    ensures
        clean_split_spec(s, sep)[i].len() > 0,
{
    let mapped = split_char_spec(s, sep).map_values(|l: Seq<char>| trim_spec(l));
    mapped.lemma_filter_pred(|l: Seq<char>| l.len() > 0, i);
}

proof fn lemma_trim_end_no_trailing(s: Seq<char>)
    ensures
        trim_end_spec(s).len() > 0 ==> !is_space_char(trim_end_spec(s).last()),
    decreases s.len(),
{
    if s.len() > 0 && is_space_char(s[s.len() - 1]) {
        lemma_trim_end_no_trailing(s.take(s.len() - 1));
    }
}

/// Every piece that cleaning yields ends in a non-whitespace character.
pub proof fn lemma_clean_split_trimmed(s: Seq<char>, sep: char, i: int)
    requires
        0 <= i < clean_split_spec(s, sep).len(),
    ensures
        clean_split_spec(s, sep)[i].len() > 0,
        !is_space_char(clean_split_spec(s, sep)[i].last()),
{
    lemma_clean_split_nonempty(s, sep, i);
    let split = split_char_spec(s, sep);
    let mapped = split.map_values(|l: Seq<char>| trim_spec(l));
    let p = |l: Seq<char>| l.len() > 0;
    let clean = mapped.filter(p);
    assert(clean.contains(clean[i]));
    mapped.lemma_filter_contains_rev(p, clean[i]);
    let j = choose|j: int| 0 <= j < mapped.len() && mapped[j] == clean[i];
    assert(mapped[j] == trim_spec(split[j]));
    lemma_trim_end_no_trailing(trim_start_spec(split[j]));
}

proof fn lemma_clean_pipeline_add(a: Seq<Seq<char>>, b: Seq<Seq<char>>)
    ensures
        (a + b).map_values(|l: Seq<char>| trim_spec(l)).filter(|l: Seq<char>| l.len() > 0) == a
            .map_values(|l: Seq<char>| trim_spec(l)).filter(|l: Seq<char>| l.len() > 0)
            + b.map_values(|l: Seq<char>| trim_spec(l)).filter(|l: Seq<char>| l.len() > 0),
{
    let f = |l: Seq<char>| trim_spec(l);
    let p = |l: Seq<char>| l.len() > 0;
    assert((a + b).map_values(f) =~= a.map_values(f) + b.map_values(f));
    Seq::<Seq<char>>::filter_distributes_over_add(a.map_values(f), b.map_values(f), p);
}

proof fn lemma_clean_single(l: Seq<char>)
    ensures
        seq![l].map_values(|x: Seq<char>| trim_spec(x)).filter(|x: Seq<char>| x.len() > 0) == (
        if trim_spec(l).len() > 0 {
            seq![trim_spec(l)]
        } else {
            Seq::<Seq<char>>::empty()
        }),
{
    let f = |x: Seq<char>| trim_spec(x);
    let p = |x: Seq<char>| x.len() > 0;
    let m = seq![l].map_values(f);
    reveal_with_fuel(Seq::<_>::filter, 3);
    assert(m =~= seq![trim_spec(l)]);
    assert(m.drop_last() =~= Seq::<Seq<char>>::empty());
    assert(Seq::<Seq<char>>::empty().filter(p) == Seq::<Seq<char>>::empty());
    if p(trim_spec(l)) {
        assert(m.filter(p) =~= seq![trim_spec(l)]);
    } else {
        assert(m.filter(p) =~= Seq::<Seq<char>>::empty());
    }
}

/// Splits `s` on `sep` into trimmed, non-empty pieces, pinned to
/// [`clean_split_spec`].
pub fn clean_split(s: &str, sep: char) -> (r: Vec<String>)
    ensures
        r.deep_view() == clean_split_spec(s@, sep),
{
    let n = s.unicode_len();
    let mut out: Vec<String> = Vec::new();
    let mut start: usize = 0;
    let mut i: usize = 0;
    proof {
        assert(s@.skip(0) =~= s@);
        assert(out.deep_view() =~= Seq::<Seq<char>>::empty());
        assert(Seq::<Seq<char>>::empty() + clean_split_spec(s@, sep) =~= clean_split_spec(s@, sep));
    }
    while i < n
        invariant
            n == s@.len(),
            start <= i <= n,
            forall|t: int| start <= t < i ==> s@[t] != sep,
            clean_split_spec(s@, sep) == out.deep_view() + clean_split_spec(s@.skip(start as int), sep),
        decreases n - i,
    {
        if s.get_char(i) == sep {
            let line = s.substring_char(start, i);
            let t = trim_str(line);
            proof {
                let suffix = s@.skip(start as int);
                assert(line@ =~= suffix.take(i - start));
                assert(suffix[i - start] == s@[i as int]);
                assert forall|u: int| 0 <= u < i - start implies suffix[u] != sep by {
                    assert(suffix[u] == s@[u + start]);
                }
                lemma_split_cut(suffix, sep, i - start);
                assert(suffix.skip(i - start + 1) =~= s@.skip(i + 1));
                lemma_clean_pipeline_add(
                    seq![suffix.take(i - start)],
                    split_char_spec(s@.skip(i + 1), sep),
                );
                lemma_clean_single(suffix.take(i - start));
            }
            if t.unicode_len() > 0 {
                let owned = String::from_str(t);
                let ghost prev = out.deep_view();
                out.push(owned);
                proof {
                    assert(out.deep_view() =~= prev.push(t@));
                }
            }
            proof {
                assert(clean_split_spec(s@, sep) == out.deep_view() + clean_split_spec(s@.skip(i + 1), sep));
            }
            start = i + 1;
        }
        i += 1;
    }
    let line = s.substring_char(start, n);
    let t = trim_str(line);
    proof {
        let suffix = s@.skip(start as int);
        assert(line@ =~= suffix);
        assert forall|u: int| 0 <= u < suffix.len() implies suffix[u] != sep by {
            assert(suffix[u] == s@[u + start]);
        }
        lemma_split_whole(suffix, sep);
        lemma_clean_single(suffix);
    }
    if t.unicode_len() > 0 {
        let owned = String::from_str(t);
        let ghost prev = out.deep_view();
        out.push(owned);
        proof {
            assert(out.deep_view() =~= prev.push(t@));
        }
    }
    proof {
        assert(clean_split_spec(s@, sep) =~= out.deep_view());
    }
    out
}

/// Splits `s` into trimmed, non-empty lines, pinned to [`clean_lines_spec`].
pub fn clean_lines(s: &str) -> (r: Vec<String>)
    ensures
        r.deep_view() == clean_lines_spec(s@),
{
    clean_split(s, '\n')
}

/// `c` with an ASCII small letter mapped to its capital form.
pub open spec fn upper_char(c: char) -> char {
    if 97 <= c as u32 && c as u32 <= 122 {
        ((c as u32 - 32) as u32) as char
    } else {
        c
    }
}

/// `s` with every ASCII small letter raised.
pub open spec fn upper_seq(s: Seq<char>) -> Seq<char> {
    s.map_values(|c: char| upper_char(c))
}

/// ASCII upper-casing of one character, pinned to [`upper_char`].
pub fn to_upper_char(c: char) -> (r: char)
    ensures
        r == upper_char(c),
{
    let u = c as u32;
    if 97 <= u && u <= 122 {
        ((u - 32) as u8) as char
    } else {
        c
    }
}

/// `s` with every ASCII small letter raised, pinned to [`upper_seq`].
pub fn ascii_uppercase(s: &str) -> (r: String)
    ensures
        r@ == upper_seq(s@),
{
    let n = s.unicode_len();
    let mut out = String::new();
    let mut i: usize = 0;
    while i < n
        invariant
            n == s@.len(),
            i <= n,
            out@ == upper_seq(s@.take(i as int)),
        decreases n - i,
    {
        let c = to_upper_char(s.get_char(i));
        push_char(&mut out, c);
        proof {
            assert(upper_seq(s@.take(i + 1)) =~= upper_seq(s@.take(i as int)).push(
                upper_char(s@[i as int]),
            ));
        }
        i += 1;
    }
    proof {
        assert(s@.take(n as int) =~= s@);
    }
    out
}

} // verus!
