//! Conversion between integer cent counts and `$D.CC` dollar strings.
//!
//! The encoder always produces at least one dollar digit and exactly two
//! cent digits.  The decoder accepts `$<digits>.<digits>` with both parts
//! non-empty; it does not left-pad a short cents part, so the round trip is
//! guaranteed only for encoder-produced strings.

use crate::text;
use vstd::prelude::*;

verus! {

/// Failure to read a dollar string; carries the offending input.
#[derive(Debug)]
pub enum CurrencyError {
    InvalidAmountError(String),
}

// ---------------------------------------------------------------------------
// Decimal digit sequences
// ---------------------------------------------------------------------------

/// `c` is one of `'0'..='9'`.
pub open spec fn is_digit_char(c: char) -> bool {
    48 <= c as u32 && c as u32 <= 57
}

/// The numeric value of a digit character.
pub open spec fn digit_val(c: char) -> int {
    c as u32 - 48
}

/// Every character of `s` is a decimal digit.
pub open spec fn all_digits(s: Seq<char>) -> bool {
    forall|i: int| 0 <= i < s.len() ==> is_digit_char(#[trigger] s[i])
}

/// The number a digit sequence denotes, most significant digit first.
pub open spec fn digits_val(s: Seq<char>) -> int
    decreases s.len(),
{
    if s.len() == 0 {
        0
    } else {
        digits_val(s.drop_last()) * 10 + digit_val(s.last())
    }
}

/// The digit character for `d` in `0..=9`.
pub open spec fn digit_char(d: int) -> char {
    ((48 + d) as u8) as char
}

/// The shortest decimal rendering of `n >= 0`.
pub open spec fn dec_digits(n: int) -> Seq<char>
    decreases n,
{
    if n < 10 {
        seq![digit_char(n)]
    } else {
        dec_digits(n / 10).push(digit_char(n % 10))
    }
}

/// A digit sequence never denotes a negative number.
pub proof fn lemma_digits_val_nonneg(s: Seq<char>)
    requires
        all_digits(s),
    ensures
        digits_val(s) >= 0,
    decreases s.len(),
{
    if s.len() > 0 {
        lemma_digits_val_nonneg(s.drop_last());
    }
}

/// The rendering of `n` consists of digits and denotes `n` itself.
pub proof fn lemma_dec_digits(n: int)
    requires
        n >= 0,
    ensures
        all_digits(dec_digits(n)),
        digits_val(dec_digits(n)) == n,
        dec_digits(n).len() >= 1,
        n < 10 <==> dec_digits(n).len() == 1,
    decreases n,
{
    reveal_with_fuel(digits_val, 3);
    if n < 10 {
        assert(seq![digit_char(n)].drop_last() =~= Seq::<char>::empty());
        assert(digit_val(digit_char(n)) == n);
        assert(digits_val(dec_digits(n)) == n);
    } else {
        lemma_dec_digits(n / 10);
        let d = dec_digits(n);
        assert(d.drop_last() =~= dec_digits(n / 10));
        assert(digit_val(digit_char(n % 10)) == n % 10);
        assert(digits_val(d) == (n / 10) * 10 + n % 10);
        assert((n / 10) * 10 + n % 10 == n) by (nonlinear_arith);
    }
}

/// Splitting off the last two digits splits the value at a factor of 100.
pub proof fn lemma_digits_split_two(s: Seq<char>)
    requires
        s.len() >= 2,
    ensures
        digits_val(s) == digits_val(s.take(s.len() - 2)) * 100 + digits_val(s.skip(s.len() - 2)),
{
    reveal_with_fuel(digits_val, 4);
    let l = s.len() as int;
    let w = s.take(l - 2);
    let f = s.skip(l - 2);
    assert(s.drop_last().drop_last() =~= w);
    assert(f.drop_last() =~= seq![s[l - 2]]);
    assert(f.last() == s[l - 1]);
    assert(seq![s[l - 2]].drop_last() =~= Seq::<char>::empty());
    assert(digits_val(f) == digit_val(s[l - 2]) * 10 + digit_val(s[l - 1]));
    assert(digits_val(s) == (digits_val(w) * 10 + digit_val(s[l - 2])) * 10 + digit_val(s[l - 1]));
}

/// Growing a digit string never shrinks its value.
proof fn lemma_digits_val_prefix(s: Seq<char>, j: int)
    requires
        all_digits(s),
        0 <= j <= s.len(),
    ensures
        digits_val(s) >= digits_val(s.take(j)),
    decreases s.len() - j,
{
    if j < s.len() {
        lemma_digits_val_prefix(s, j + 1);
        assert(s.take(j + 1).drop_last() =~= s.take(j));
        lemma_digits_val_nonneg(s.take(j));
        assert(digits_val(s.take(j + 1)) == digits_val(s.take(j)) * 10 + digit_val(s[j]));
    } else {
        assert(s.take(j) =~= s);
    }
}

// ---------------------------------------------------------------------------
// Encoding
// ---------------------------------------------------------------------------

/// The dollar string the encoder produces for a cent count `c >= 0`:
/// `'$'`, the dollar digits (at least one), `'.'`, exactly two cent digits.
pub open spec fn dollar_string_of(c: int) -> Seq<char> {
    let ds = if dec_digits(c).len() == 1 {
        seq!['0'] + dec_digits(c)
    } else {
        dec_digits(c)
    };
    let whole = if ds.len() == 2 {
        seq!['0']
    } else {
        ds.take(ds.len() - 2)
    };
    seq!['$'] + whole + seq!['.'] + ds.skip(ds.len() - 2)
}

/// Renders `n` in decimal, pinned to [`dec_digits`].
pub(crate) fn u64_to_dec(n: u64) -> (s: String)
    ensures
        s@ == dec_digits(n as int),
{
    let mut rev: Vec<char> = Vec::new();
    let mut m: u64 = n;
    if m == 0 {
        let mut out = String::new();
        text::push_char(&mut out, '0');
        proof {
            assert(out@ =~= dec_digits(0));
        }
        return out;
    }
    while m > 0
        invariant
            m > 0 ==> dec_digits(n as int) == dec_digits(m as int) + rev@.reverse(),
            m == 0 ==> dec_digits(n as int) == rev@.reverse(),
        decreases m,
    {
        let d: u8 = (m % 10) as u8;
        let c: char = (48 + d) as char;
        proof {
            assert(c == digit_char(m as int % 10));
            let md = m as int;
            if md >= 10 {
                assert(dec_digits(md) == dec_digits(md / 10).push(digit_char(md % 10)));
                assert(rev@.push(c).reverse() =~= seq![c] + rev@.reverse());
                assert(dec_digits(md / 10).push(c) + rev@.reverse() =~= dec_digits(md / 10) + (
                seq![c] + rev@.reverse()));
            } else {
                assert(dec_digits(md) =~= seq![c]);
                assert(rev@.push(c).reverse() =~= seq![c] + rev@.reverse());
            }
        }
        rev.push(c);
        m = m / 10;
        proof {
            if m == 0 {
                assert(dec_digits(n as int) =~= rev@.reverse());
            }
        }
    }
    let mut out = String::new();
    let len = rev.len();
    let mut i: usize = 0;
    while i < len
        invariant
            len == rev@.len(),
            i <= len,
            out@ == rev@.reverse().take(i as int),
        decreases len - i,
    {
        let c = rev[len - 1 - i];
        text::push_char(&mut out, c);
        proof {
            assert(rev@.reverse().take(i + 1) =~= rev@.reverse().take(i as int).push(
                rev@[len - 1 - i],
            ));
        }
        i += 1;
    }
    proof {
        assert(rev@.reverse().take(len as int) =~= rev@.reverse());
    }
    out
}

/// Formats a cent count as `$D.CC`, pinned to [`dollar_string_of`].
pub fn cents_to_dollar_string(input: u64) -> (r: String)
    ensures
        r@ == dollar_string_of(input as int),
{
    proof {
        lemma_dec_digits(input as int);
    }
    let ds = u64_to_dec(input);
    let len = ds.as_str().unicode_len();
    let mut out = String::new();
    text::push_char(&mut out, '$');
    if len == 1 {
        text::push_char(&mut out, '0');
        text::push_char(&mut out, '.');
        text::push_char(&mut out, '0');
        text::push_char(&mut out, ds.as_str().get_char(0));
        proof {
            let padded = seq!['0'] + dec_digits(input as int);
            assert(padded.skip(padded.len() - 2) =~= seq!['0', dec_digits(input as int)[0]]);
            assert(out@ =~= dollar_string_of(input as int));
        }
    } else if len == 2 {
        text::push_char(&mut out, '0');
        text::push_char(&mut out, '.');
        let cents = ds.as_str();
        out.append(cents);
        proof {
            let d = dec_digits(input as int);
            assert(d.skip(d.len() - 2) =~= d);
            assert(out@ =~= dollar_string_of(input as int));
        }
    } else {
        let whole = ds.as_str().substring_char(0, len - 2);
        let cents = ds.as_str().substring_char(len - 2, len);
        out.append(whole);
        text::push_char(&mut out, '.');
        out.append(cents);
        proof {
            let d = dec_digits(input as int);
            assert(whole@ =~= d.take(d.len() - 2));
            assert(cents@ =~= d.skip(d.len() - 2));
            assert(out@ =~= dollar_string_of(input as int));
        }
    }
    out
}

// ---------------------------------------------------------------------------
// Decoding
// ---------------------------------------------------------------------------

/// The cent count a dollar string denotes: `'$'`, then a non-empty all-digit
/// dollar part, a `'.'`, and a non-empty all-digit cents part.  The cents
/// part is taken at face value, however many digits it has.
pub open spec fn dollar_value(s: Seq<char>) -> Option<int> {
    if s.len() == 0 || s[0] != '$' {
        None
    } else {
        let rest = s.skip(1);
        let dot = text::find_sub_spec(rest, seq!['.']);
        if dot < 0 {
            None
        } else {
            let d = rest.take(dot);
            let c = rest.skip(dot + 1);
            if d.len() > 0 && all_digits(d) && c.len() > 0 && all_digits(c) {
                Some(digits_val(d) * 100 + digits_val(c))
            } else {
                None
            }
        }
    }
}

/// Reads a non-empty all-digit string as a `u64`; `None` when a character is
/// not a digit, the string is empty, or the value exceeds `u64::MAX`.
pub(crate) fn parse_u64_digits(s: &str) -> (r: Option<u64>)
    ensures
        r matches Some(v) ==> s@.len() > 0 && all_digits(s@) && digits_val(s@) == v as int,
        r is Some <==> s@.len() > 0 && all_digits(s@) && digits_val(s@) <= u64::MAX as int,
{
    let n = s.unicode_len();
    if n == 0 {
        return None;
    }
    let mut acc: u64 = 0;
    let mut i: usize = 0;
    while i < n
        invariant
            n == s@.len(),
            i <= n,
            all_digits(s@.take(i as int)),
            acc as int == digits_val(s@.take(i as int)),
        decreases n - i,
    {
        let c = s.get_char(i);
        let u = c as u32;
        if !(48 <= u && u <= 57) {
            return None;
        }
        let d: u64 = (u - 48) as u64;
        proof {
            assert(s@.take(i + 1).drop_last() =~= s@.take(i as int));
            assert(s@.take(i + 1).last() == s@[i as int]);
        }
        match acc.checked_mul(10) {
            Some(t) => {
                match t.checked_add(d) {
                    Some(v) => {
                        acc = v;
                    },
                    None => {
                        proof {
                            assert(digits_val(s@.take(i + 1)) > u64::MAX as int);
                            if all_digits(s@) {
                                lemma_digits_val_prefix(s@, i + 1);
                            }
                        }
                        return None;
                    },
                }
            },
            None => {
                proof {
                    assert(digits_val(s@.take(i + 1)) > u64::MAX as int);
                    if all_digits(s@) {
                        lemma_digits_val_prefix(s@, i + 1);
                    }
                }
                return None;
            },
        }
        i += 1;
    }
    proof {
        assert(s@.take(n as int) =~= s@);
    }
    Some(acc)
}

/// Reads a `$D.CC` string, pinned to [`dollar_value`]; any failure returns
/// the offending input inside the error.
pub fn dollar_string_to_cents(input: &str) -> (r: Result<u64, CurrencyError>)
    ensures
        r matches Ok(v) ==> dollar_value(input@) == Some(v as int),
        r is Ok <==> (dollar_value(input@) matches Some(v) && v <= u64::MAX as int),
        r matches Err(e) ==> (e matches CurrencyError::InvalidAmountError(t) && t@ == input@),
{
    let n = input.unicode_len();
    if n == 0 || input.get_char(0) != '$' {
        return Err(CurrencyError::InvalidAmountError(String::from_str(input)));
    }
    let ghost rest = input@.skip(1);
    let mut k: usize = 1;
    while k < n && input.get_char(k) != '.'
        invariant
            n == input@.len(),
            1 <= k <= n,
            forall|t: int| 1 <= t < k ==> input@[t] != '.',
        decreases n - k,
    {
        k += 1;
    }
    proof {
        assert forall|j: int| 0 <= j < k - 1 implies !text::match_at(rest, seq!['.'], j) by {
            if j + 1 <= rest.len() && rest.subrange(j, j + 1) == seq!['.'] {
                assert(rest.subrange(j, j + 1)[0] == rest[j]);
                assert(input@[j + 1] == rest[j]);
            }
        }
    }
    if k == n {
        proof {
            text::lemma_first_match_from(rest, seq!['.'], 0);
            let fm = text::find_sub_spec(rest, seq!['.']);
            if fm != -1 {
                assert(text::match_at(rest, seq!['.'], fm));
                assert(rest.subrange(fm, fm + 1)[0] == rest[fm]);
                assert(input@[fm + 1] == '.');
            }
        }
        return Err(CurrencyError::InvalidAmountError(String::from_str(input)));
    }
    proof {
        assert(input@[k as int] == '.');
        assert(rest[k - 1] == '.');
        assert(rest.subrange(k - 1, k as int) =~= seq!['.']);
        assert(text::match_at(rest, seq!['.'], k - 1));
        text::lemma_first_match_from(rest, seq!['.'], 0);
        let fm = text::find_sub_spec(rest, seq!['.']);
        if fm == -1 {
            assert(!text::match_at(rest, seq!['.'], k - 1));
        }
        if fm < k - 1 {
            assert(text::match_at(rest, seq!['.'], fm));
            assert(rest.subrange(fm, fm + 1)[0] == rest[fm]);
        }
        assert(fm == k - 1);
    }
    let d = input.substring_char(1, k);
    let c = input.substring_char(k + 1, n);
    proof {
        assert(d@ =~= rest.take(k - 1));
        assert(c@ =~= rest.skip(k - 1 + 1));
    }
    let dv = parse_u64_digits(d);
    let cv = parse_u64_digits(c);
    match (dv, cv) {
        (Some(dollars), Some(cents)) => {
            proof {
                lemma_digits_val_nonneg(d@);
                lemma_digits_val_nonneg(c@);
            }
            match dollars.checked_mul(100) {
                Some(t) => {
                    match t.checked_add(cents) {
                        Some(v) => Ok(v),
                        None => Err(CurrencyError::InvalidAmountError(String::from_str(input))),
                    }
                },
                None => Err(CurrencyError::InvalidAmountError(String::from_str(input))),
            }
        },
        _ => {
            proof {
                if dollar_value(input@) is Some {
                    lemma_digits_val_nonneg(d@);
                    lemma_digits_val_nonneg(c@);
                    if dv is None {
                        assert(digits_val(d@) > u64::MAX as int);
                    } else {
                        assert(digits_val(c@) > u64::MAX as int);
                    }
                }
            }
            Err(CurrencyError::InvalidAmountError(String::from_str(input)))
        },
    }
}

// ---------------------------------------------------------------------------
// Round trip
// ---------------------------------------------------------------------------

proof fn lemma_digits_val_prepend_zero(s: Seq<char>)
    ensures
        digits_val(seq!['0'] + s) == digits_val(s),
    decreases s.len(),
{
    reveal_with_fuel(digits_val, 3);
    if s.len() == 0 {
        assert(seq!['0'] + s =~= seq!['0']);
        assert(seq!['0'].drop_last() =~= Seq::<char>::empty());
        assert(digit_val('0') == 0);
    } else {
        lemma_digits_val_prepend_zero(s.drop_last());
        assert((seq!['0'] + s).drop_last() =~= seq!['0'] + s.drop_last());
        assert((seq!['0'] + s).last() == s.last());
    }
}

/// Law: decoding an encoder-produced dollar string yields the original cent
/// count, for every `c`.  (The decoder alone is not injective: `"$1.5"`
/// decodes to 105 cents, which the encoder writes as `"$1.05"`.)
pub proof fn lemma_dollar_round_trip(c: u64)
    ensures
        dollar_value(dollar_string_of(c as int)) == Some(c as int),
{
    lemma_dec_digits(c as int);
    let dd = dec_digits(c as int);
    let ds = if dd.len() == 1 {
        seq!['0'] + dd
    } else {
        dd
    };
    assert(all_digits(ds)) by {
        if dd.len() == 1 {
            assert(forall|i: int|
                0 <= i < ds.len() ==> (if i == 0 {
                    ds[i] == '0'
                } else {
                    ds[i] == dd[i - 1]
                }));
        }
    }
    assert(digits_val(ds) == c as int) by {
        if dd.len() == 1 {
            lemma_digits_val_prepend_zero(dd);
        }
    }
    let l = ds.len() as int;
    assert(l >= 2);
    let whole = if l == 2 {
        seq!['0']
    } else {
        ds.take(l - 2)
    };
    let frac = ds.skip(l - 2);
    let s = dollar_string_of(c as int);
    assert(s == seq!['$'] + whole + seq!['.'] + frac);
    let wl = whole.len() as int;
    assert(s[0] == '$');
    let rest = s.skip(1);
    assert(rest =~= whole + seq!['.'] + frac);
    assert(all_digits(whole)) by {
        if l == 2 {
            assert(whole[0] == '0');
        } else {
            assert(forall|i: int| 0 <= i < wl ==> whole[i] == ds[i]);
        }
    }
    assert(all_digits(frac)) by {
        assert(forall|i: int| 0 <= i < frac.len() ==> frac[i] == ds[l - 2 + i]);
    }
    assert(rest[wl] == '.');
    assert forall|j: int| 0 <= j < wl implies !text::match_at(rest, seq!['.'], j) by {
        assert(rest.subrange(j, j + 1)[0] == rest[j]);
        assert(rest[j] == whole[j]);
        assert(is_digit_char(whole[j]));
    }
    assert(rest.subrange(wl, wl + 1) =~= seq!['.']);
    assert(text::match_at(rest, seq!['.'], wl));
    text::lemma_first_match_from(rest, seq!['.'], 0);
    let fm = text::find_sub_spec(rest, seq!['.']);
    if fm == -1 {
        assert(!text::match_at(rest, seq!['.'], wl));
    }
    if fm < wl {
        assert(text::match_at(rest, seq!['.'], fm));
        assert(rest.subrange(fm, fm + 1)[0] == rest[fm]);
        assert(is_digit_char(whole[fm]));
    }
    assert(fm == wl);
    assert(rest.take(wl) =~= whole);
    assert(rest.skip(wl + 1) =~= frac);
    assert(digits_val(whole) * 100 + digits_val(frac) == c as int) by {
        if l == 2 {
            reveal_with_fuel(digits_val, 3);
            assert(seq!['0'].drop_last() =~= Seq::<char>::empty());
            assert(digits_val(whole) == 0);
            assert(frac =~= ds);
        } else {
            lemma_digits_split_two(ds);
        }
    }
    assert(dollar_value(s) == Some(c as int));
}

} // verus!
