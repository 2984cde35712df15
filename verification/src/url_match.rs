//! A small URL pattern matcher for dispatching webhook requests.
//!
//! A pattern is a `/`-separated list of segments.  A segment starting with
//! `:` names a path variable: `:str` accepts anything, `:id` accepts only
//! a decimal 64-bit integer.  Other segments must match case-insensitively.

use crate::currency;
use crate::text;
use vstd::prelude::*;

verus! {

/// Result of a successful url match: the extracted path variables, in
/// pattern order.
pub struct UrlMatchResult {
    path_variables: Vec<String>,
}

impl View for UrlMatchResult {
    type V = Seq<Seq<char>>;

    closed spec fn view(&self) -> Seq<Seq<char>> {
        self.path_variables.deep_view()
    }
}

impl UrlMatchResult {
    /// The extracted path variables, in pattern order.
    pub fn get_path_variables(&self) -> (r: &Vec<String>)
        ensures
            r.deep_view() == self@,
    {
        &self.path_variables
    }
}

/// The segments of a url or pattern: split on `/`, trimmed, empties
/// dropped.
pub open spec fn segments_spec(url: Seq<char>) -> Seq<Seq<char>> {
    text::clean_split_spec(url, '/')
}

/// A pattern to match requests against.
pub struct UrlPattern {
    segments: Vec<String>,
}

impl View for UrlPattern {
    type V = Seq<Seq<char>>;

    closed spec fn view(&self) -> Seq<Seq<char>> {
        self.segments.deep_view()
    }
}

impl UrlPattern {
    /// Parses a pattern from its text form.
    pub fn new(url: &str) -> (r: UrlPattern)
        ensures
            r@ == segments_spec(url@),
    {
        UrlPattern { segments: UrlPattern::into_segments(url) }
    }

    fn get_segments(&self) -> (r: &Vec<String>)
        ensures
            r.deep_view() == self@,
    {
        &self.segments
    }

    fn into_segments(url: &str) -> (r: Vec<String>)
        ensures
            r.deep_view() == segments_spec(url@),
    {
        text::clean_split(url, '/')
    }
}

/// `s` is a decimal 64-bit signed integer: an optional sign, then digits
/// whose value stays within the signed range.
pub open spec fn is_i64_string(s: Seq<char>) -> bool {
    if s.len() == 0 {
        false
    } else {
        let ds = if s[0] == '-' || s[0] == '+' {
            s.skip(1)
        } else {
            s
        };
        let bound: int = if s[0] == '-' {
            0x8000000000000000
        } else {
            0x7fffffffffffffff
        };
        ds.len() > 0 && currency::all_digits(ds) && currency::digits_val(ds) <= bound
    }
}

/// Signed-integer test, pinned to [`is_i64_string`].
fn is_i64(s: &str) -> (r: bool)
    ensures
        r == is_i64_string(s@),
{
    let n = s.unicode_len();
    if n == 0 {
        return false;
    }
    let c0 = s.get_char(0);
    let start: usize = if c0 == '-' || c0 == '+' {
        1
    } else {
        0
    };
    let bound: u64 = if c0 == '-' {
        9223372036854775808
    } else {
        9223372036854775807
    };
    let ds = s.substring_char(start, n);
    proof {
        if start == 1 {
            assert(ds@ =~= s@.skip(1));
        } else {
            assert(ds@ =~= s@);
        }
    }
    match currency::parse_u64_digits(ds) {
        Some(v) => v <= bound,
        None => false,
    }
}

/// The pattern segment names a path variable.
pub open spec fn is_var_segment(pat: Seq<char>) -> bool {
    pat.len() > 0 && pat[0] == ':'
}

/// One url segment satisfies one pattern segment.
pub open spec fn segment_ok(pat: Seq<char>, s: Seq<char>) -> bool {
    if is_var_segment(pat) {
        let t = text::lower_seq(pat.skip(1));
        if t == "str"@ {
            true
        } else if t == "id"@ {
            is_i64_string(s)
        } else {
            false
        }
    } else {
        text::lower_seq(pat) == text::lower_seq(s)
    }
}

/// The url segments standing at variable positions of the pattern, in
/// order.
pub open spec fn vars_of(pats: Seq<Seq<char>>, segs: Seq<Seq<char>>) -> Seq<Seq<char>>
    decreases pats.len(),
{
    if pats.len() == 0 || segs.len() == 0 {
        Seq::empty()
    } else {
        (if is_var_segment(pats[0]) {
            seq![segs[0]]
        } else {
            Seq::<Seq<char>>::empty()
        }) + vars_of(pats.skip(1), segs.skip(1))
    }
}

/// Whether `url` matches the pattern segments, and with which path
/// variables.  The query string (from the first `?`) is ignored; segment
/// counts must agree; every segment must satisfy its pattern segment.
pub open spec fn url_match_spec(url: Seq<char>, pats: Seq<Seq<char>>) -> Option<Seq<Seq<char>>> {
    let usegs = segments_spec(text::first_token_spec(url, '?'));
    if usegs.len() != pats.len() {
        None
    } else if exists|i: int| 0 <= i < pats.len() && !segment_ok(pats[i], #[trigger] usegs[i]) {
        None
    } else {
        Some(vars_of(pats, usegs))
    }
}

/// Checks whether `url` matches `pattern`, pinned to [`url_match_spec`]; a
/// match carries the extracted path variables.
pub fn matches(url: &str, pattern: &UrlPattern) -> (r: Option<UrlMatchResult>)
    ensures
        r is Some <==> url_match_spec(url@, pattern@) is Some,
        r matches Some(m) ==> m@ == url_match_spec(url@, pattern@).unwrap(),
{
    let without_query = text::first_token(url, '?');
    let url_segments = text::clean_split(without_query, '/');
    let ghost uv = url_segments.deep_view();
    let ghost pv = pattern@;
    let pattern_segments = pattern.get_segments();
    let n = pattern_segments.len();
    if url_segments.len() != n {
        return None;
    }
    let mut path_variables: Vec<String> = Vec::new();
    let mut i: usize = 0;
    proof {
        assert(uv == segments_spec(text::first_token_spec(url@, '?')));
        assert(pv.skip(0) =~= pv);
        assert(uv.skip(0) =~= uv);
        assert(path_variables.deep_view() =~= Seq::<Seq<char>>::empty());
        assert(Seq::<Seq<char>>::empty() + vars_of(pv, uv) =~= vars_of(pv, uv));
    }
    while i < n
        invariant
            n == pattern_segments@.len(),
            n == url_segments@.len(),
            pv == pattern_segments.deep_view(),
            uv == url_segments.deep_view(),
            uv == segments_spec(text::first_token_spec(url@, '?')),
            pv == pattern@,
            i <= n,
            forall|k: int| 0 <= k < i ==> segment_ok(pv[k], #[trigger] uv[k]),
            vars_of(pv, uv) == path_variables.deep_view() + vars_of(
                pv.skip(i as int),
                uv.skip(i as int),
            ),
        decreases n - i,
    {
        proof {
            assert(pv[i as int] == pattern_segments@[i as int]@);
            assert(uv[i as int] == url_segments@[i as int]@);
            assert(pv.skip(i as int)[0] == pv[i as int]);
            assert(uv.skip(i as int)[0] == uv[i as int]);
            assert(pv.skip(i as int).skip(1) =~= pv.skip(i + 1));
            assert(uv.skip(i as int).skip(1) =~= uv.skip(i + 1));
        }
        let pat = pattern_segments[i].as_str();
        let seg = url_segments[i].as_str();
        let patn = pat.unicode_len();
        if patn > 0 && pat.get_char(0) == ':' {
            let t = pat.substring_char(1, patn);
            proof {
                assert(t@ =~= pat@.skip(1));
            }
            let tl = text::ascii_lowercase(t);
            let can_convert = if text::str_eq(tl.as_str(), "str") {
                true
            } else if text::str_eq(tl.as_str(), "id") {
                is_i64(seg)
            } else {
                false
            };
            if !can_convert {
                proof {
                    assert(!segment_ok(
                        pv[i as int],
                        segments_spec(text::first_token_spec(url@, '?'))[i as int],
                    ));
                }
                return None;
            }
            let ghost prev = path_variables.deep_view();
            path_variables.push(String::from_str(seg));
            proof {
                assert(path_variables.deep_view() =~= prev.push(uv[i as int]));
                assert(prev + (seq![uv[i as int]] + vars_of(pv.skip(i + 1), uv.skip(i + 1)))
                    =~= path_variables.deep_view() + vars_of(pv.skip(i + 1), uv.skip(i + 1)));
            }
        } else {
            if !text::eq_ignore_case(pat, seg) {
                proof {
                    assert(!segment_ok(
                        pv[i as int],
                        segments_spec(text::first_token_spec(url@, '?'))[i as int],
                    ));
                }
                return None;
            }
            proof {
                assert(path_variables.deep_view() + (Seq::<Seq<char>>::empty() + vars_of(
                    pv.skip(i + 1),
                    uv.skip(i + 1),
                )) =~= path_variables.deep_view() + vars_of(pv.skip(i + 1), uv.skip(i + 1)));
            }
        }
        i += 1;
    }
    proof {
        assert(pv.skip(n as int) =~= Seq::<Seq<char>>::empty());
        assert(path_variables.deep_view() + Seq::<Seq<char>>::empty() =~= path_variables.deep_view());
        assert(vars_of(pv, uv) == path_variables.deep_view());
    }
    Some(UrlMatchResult { path_variables })
}

} // verus!
