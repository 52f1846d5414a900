//! Row-label matchers: an ordered list of patterns classifies every
//! table row's label cell; the first match wins, and a label no
//! pattern matches fails the parse.

use vstd::prelude::*;
use crate::numbers::{is_digit, spec_all_digits, spec_is_digit};
use crate::text::str_to_chars;

verus! {

/// Whether `pat` occurs in `s` starting exactly at `at`.
pub open spec fn spec_starts_at(s: Seq<char>, at: int, pat: Seq<char>) -> bool {
    0 <= at && at + pat.len() <= s.len() && s.subrange(at, at + pat.len()) == pat
}

/// End of the run of digits in `s` beginning at `at`.
pub open spec fn spec_run_end(s: Seq<char>, at: int) -> int
    decreases s.len() - at,
{
    if 0 <= at < s.len() && spec_is_digit(s[at]) {
        spec_run_end(s, at + 1)
    } else {
        at
    }
}

/// The digit run is a well-bounded stretch of digits ended by the
/// sequence's end or a non-digit.
pub proof fn lemma_run_end(s: Seq<char>, at: int)
    requires
        0 <= at <= s.len(),
    ensures
        at <= spec_run_end(s, at) <= s.len(),
        forall|j: int| at <= j < spec_run_end(s, at) ==> spec_is_digit(#[trigger] s[j]),
        spec_run_end(s, at) < s.len() ==> !spec_is_digit(s[spec_run_end(s, at)]),
        spec_all_digits(s.subrange(at, spec_run_end(s, at))),
    decreases s.len() - at,
{
    if at < s.len() && spec_is_digit(s[at]) {
        lemma_run_end(s, at + 1);
    }
    assert forall|j: int| 0 <= j < spec_run_end(s, at) - at implies spec_is_digit(
        #[trigger] s.subrange(at, spec_run_end(s, at))[j],
    ) by {
        assert(s.subrange(at, spec_run_end(s, at))[j] == s[at + j]);
    }
}

/// A package label match at one position: a digit run, a space, the
/// unit word with an optional plural `s`, ` + `, a second digit run,
/// and ` km`; the captures are the two digit runs.
pub open spec fn spec_match_at(s: Seq<char>, at: int, unit: Seq<char>) -> Option<
    (Seq<char>, Seq<char>),
> {
    let d1e = spec_run_end(s, at);
    if d1e == at || d1e >= s.len() || s[d1e] != ' ' || !spec_starts_at(s, d1e + 1, unit) {
        None
    } else {
        let u1 = d1e + 1 + unit.len();
        let u2 = if u1 < s.len() && s[u1] == 's' {
            u1 + 1
        } else {
            u1
        };
        if !spec_starts_at(s, u2, " + "@) {
            None
        } else {
            let d2s = u2 + 3;
            let d2e = spec_run_end(s, d2s);
            if d2e > d2s && spec_starts_at(s, d2e, " km"@) {
                Some((s.subrange(at, d1e), s.subrange(d2s, d2e)))
            } else {
                None
            }
        }
    }
}

/// The leftmost package match at or after `at`.
pub open spec fn spec_find_match(s: Seq<char>, at: int, unit: Seq<char>) -> Option<
    (Seq<char>, Seq<char>),
>
    decreases s.len() - at,
{
    if spec_match_at(s, at, unit) is Some {
        spec_match_at(s, at, unit)
    } else if at < 0 || at >= s.len() {
        None
    } else {
        spec_find_match(s, at + 1, unit)
    }
}

/// The leftmost package match in the whole label.
pub open spec fn spec_pkg_match(s: Seq<char>, unit: Seq<char>) -> Option<(Seq<char>, Seq<char>)> {
    spec_find_match(s, 0, unit)
}

/// Skipping positions without a match does not change the search.
proof fn lemma_find_match_skip(s: Seq<char>, unit: Seq<char>, k: int)
    requires
        0 <= k <= s.len(),
        forall|a: int| 0 <= a < k ==> spec_match_at(s, a, unit) is None,
    ensures
        spec_find_match(s, 0, unit) == spec_find_match(s, k, unit),
    decreases k,
{
    if k > 0 {
        lemma_find_match_skip(s, unit, k - 1);
    }
}

/// End of the digit run at `at`, executably.
#[verifier::loop_isolation(false)]
fn run_end(v: &Vec<char>, at: usize) -> (e: usize)
    requires
        at <= v@.len(),
    ensures
        e as int == spec_run_end(v@, at as int),
        at <= e <= v@.len(),
{
    let mut e: usize = at;
    while e < v.len() && is_digit(v[e])
        invariant
            at <= e <= v@.len(),
            spec_run_end(v@, at as int) == spec_run_end(v@, e as int),
        decreases v@.len() - e,
    {
        e = e + 1;
    }
    e
}

/// Whether `pat` occurs in `v` at exactly `at`, executably.
#[verifier::loop_isolation(false)]
fn starts_at(v: &Vec<char>, at: usize, pat: &Vec<char>) -> (r: bool)
    requires
        at <= v@.len(),
    ensures
        r == spec_starts_at(v@, at as int, pat@),
{
    if v.len() - at < pat.len() {
        return false;
    }
    let mut k: usize = 0;
    while k < pat.len()
        invariant
            k <= pat@.len(),
            at + pat@.len() <= v@.len(),
            forall|j: int| 0 <= j < k ==> v@[at + j] == pat@[j],
        decreases pat@.len() - k,
    {
        if v[at + k] != pat[k] {
            proof {
                let sub = v@.subrange(at as int, at as int + pat@.len() as int);
                assert(sub[k as int] == v@[at + k]);
            }
            return false;
        }
        k = k + 1;
    }
    proof {
        assert(v@.subrange(at as int, at as int + pat@.len() as int) =~= pat@);
    }
    true
}

/// A package match at one position: the capture bounds, or `None`.
fn match_package_at(v: &Vec<char>, at: usize, unit: &Vec<char>) -> (r: Option<
    (usize, usize, usize, usize),
>)
    requires
        at <= v@.len(),
    ensures
        r is Some <==> spec_match_at(v@, at as int, unit@) is Some,
        r matches Some((n_start, n_end, km_start, km_end)) ==> {
            &&& spec_match_at(v@, at as int, unit@) == Some(
                (
                    v@.subrange(n_start as int, n_end as int),
                    v@.subrange(km_start as int, km_end as int),
                ),
            )
            &&& at == n_start < n_end <= v@.len()
            &&& km_start < km_end <= v@.len()
            &&& spec_all_digits(v@.subrange(n_start as int, n_end as int))
            &&& spec_all_digits(v@.subrange(km_start as int, km_end as int))
        },
{
    proof {
        lemma_run_end(v@, at as int);
    }
    let d1e = run_end(v, at);
    if d1e == at || d1e >= v.len() {
        return None;
    }
    if !(v[d1e] == ' ') {
        return None;
    }
    if !starts_at(v, d1e + 1, unit) {
        return None;
    }
    let u1 = d1e + 1 + unit.len();
    proof {
        assert(u1 <= v@.len());
    }
    let u2 = if u1 < v.len() && v[u1] == 's' {
        u1 + 1
    } else {
        u1
    };
    let plus = str_to_chars(" + ");
    proof {
        reveal_strlit(" + ");
        assert(plus@.len() == 3);
    }
    if !starts_at(v, u2, &plus) {
        return None;
    }
    let d2s = u2 + 3;
    proof {
        assert(d2s <= v@.len());
        lemma_run_end(v@, d2s as int);
    }
    let d2e = run_end(v, d2s);
    let km = str_to_chars(" km");
    if d2e > d2s && starts_at(v, d2e, &km) {
        Some((at, d1e, d2s, d2e))
    } else {
        None
    }
}

/// The leftmost package match in the label: the capture bounds, or
/// `None`.
#[verifier::loop_isolation(false)]
pub fn find_package_match(v: &Vec<char>, unit: &Vec<char>) -> (r: Option<
    (usize, usize, usize, usize),
>)
    ensures
        r is Some <==> spec_pkg_match(v@, unit@) is Some,
        r matches Some((n_start, n_end, km_start, km_end)) ==> {
            &&& spec_pkg_match(v@, unit@) == Some(
                (
                    v@.subrange(n_start as int, n_end as int),
                    v@.subrange(km_start as int, km_end as int),
                ),
            )
            &&& n_start < n_end <= v@.len()
            &&& km_start < km_end <= v@.len()
            &&& spec_all_digits(v@.subrange(n_start as int, n_end as int))
            &&& spec_all_digits(v@.subrange(km_start as int, km_end as int))
        },
{
    let mut at: usize = 0;
    while at < v.len()
        invariant
            at <= v@.len(),
            forall|a: int| 0 <= a < at ==> spec_match_at(v@, a, unit@) is None,
        decreases v@.len() - at,
    {
        let m = match_package_at(v, at, unit);
        if let Some(caps) = m {
            proof {
                lemma_find_match_skip(v@, unit@, at as int);
            }
            return Some(caps);
        }
        at = at + 1;
    }
    proof {
        lemma_find_match_skip(v@, unit@, v@.len() as int);
    }
    None
}

} // verus!
