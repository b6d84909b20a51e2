//! Provider-native bar interval labels and validation helpers.

use crate::text::{
    all_ascii, ascii_lower, ascii_lower_char, concat3, is_ws, trim_end_idx, trim_start_idx, str_eq, string_of, to_lowercase, trim, trim_lower,
    unicode_lowercase,
};
use vstd::prelude::*;

verus! {

/// Provider name for fetch callers.
#[derive(Clone, Copy, Debug, PartialEq, Eq, Structural)]
pub enum FetchProvider {
    AlphaVantage,
}

/// The intervals a provider documents.
pub open spec fn documented(p: FetchProvider) -> Seq<Seq<char>> {
    match p {
        FetchProvider::AlphaVantage => seq!["1d"@, "daily"@],
    }
}

/// The provider a lower-cased name denotes.
pub open spec fn provider_alias(l: Seq<char>) -> Option<FetchProvider> {
    if l == "alpha-vantage"@ || l == "alphavantage"@ || l == "alpha"@ || l == "av"@ {
        Some(FetchProvider::AlphaVantage)
    } else {
        None
    }
}

impl FetchProvider {
    /// All documented intervals for this provider.
    pub fn documented_intervals(self) -> (r: &'static [&'static str])
        ensures
            r@.len() == documented(self).len(),
            forall|i: int| 0 <= i < r@.len() ==> #[trigger] r@[i]@ == documented(self)[i],
    {
        match self {
            FetchProvider::AlphaVantage => {
                let r: &'static [&'static str] = &["1d", "daily"];
                assert(r@ == seq!["1d", "daily"]);
                r
            },
        }
    }

    /// Parse a provider name (Unicode case-insensitive).
    pub fn parse(s: &str) -> (r: Option<FetchProvider>)
        ensures
            r == provider_alias(unicode_lowercase(s@)),
            all_ascii(s@) ==> r == provider_alias(ascii_lower(s@)),
    {
        let l = to_lowercase(s);
        let l = l.as_str();
        if str_eq(l, "alpha-vantage") || str_eq(l, "alphavantage") || str_eq(l, "alpha")
            || str_eq(l, "av") {
            Some(FetchProvider::AlphaVantage)
        } else {
            None
        }
    }
}

/// True if `interval` is in the provider's documented list.
pub fn is_documented_interval(provider: FetchProvider, interval: &str) -> (r: bool)
    ensures
        r == documented(provider).contains(interval@),
{
    let list = provider.documented_intervals();
    let mut i: usize = 0;
    while i < list.len()
        invariant
            i <= list.len(),
            list@.len() == documented(provider).len(),
            forall|k: int| 0 <= k < list@.len() ==> #[trigger] list@[k]@ == documented(provider)[k],
            forall|k: int| 0 <= k < i ==> documented(provider)[k] != interval@,
        decreases list.len() - i,
    {
        if str_eq(list[i], interval) {
            assert(documented(provider)[i as int] == interval@);
            return true;
        }
        i = i + 1;
    }
    false
}

/// Normalize user input: trim, then ASCII lower-case.
pub fn normalize_interval(interval: &str) -> (r: String)
    ensures
        r@ == ascii_lower(trim(interval@)),
{
    let v = trim_lower(interval);
    string_of(&v)
}

/// Leading whitespace ends at `trim_start_idx`.
proof fn lemma_trim_start(s: Seq<char>)
    ensures
        0 <= trim_start_idx(s) <= s.len(),
        trim_start_idx(s) < s.len() ==> !is_ws(s[trim_start_idx(s)]),
    decreases s.len(),
{
    if s.len() > 0 && is_ws(s[0]) {
        lemma_trim_start(s.drop_first());
    }
}

/// Trailing whitespace starts at `trim_end_idx`.
proof fn lemma_trim_end(s: Seq<char>)
    ensures
        0 <= trim_end_idx(s) <= s.len(),
        trim_end_idx(s) > 0 ==> !is_ws(s[trim_end_idx(s) - 1]),
    decreases s.len(),
{
    if s.len() > 0 && is_ws(s.last()) {
        lemma_trim_end(s.drop_last());
    }
}

/// Normalizing twice gives what normalizing once gives.
pub proof fn law_normalize_interval_idempotent(s: Seq<char>)
    ensures
        ascii_lower(trim(ascii_lower(trim(s)))) == ascii_lower(trim(s)),
{
    let t = trim(s);
    let u = ascii_lower(t);
    lemma_trim_start(s);
    lemma_trim_end(s);
    if u.len() > 0 {
        let c0 = t[0];
        let cl = t[t.len() - 1];
        assert(!is_ws(c0));
        assert(!is_ws(cl));
        assert(u[0] == ascii_lower_char(c0));
        assert(u[u.len() - 1] == ascii_lower_char(cl));
        assert(!is_ws(u[0]));
        assert(!is_ws(u[u.len() - 1]));
        assert(trim_start_idx(u) == 0);
        assert(trim_end_idx(u) == u.len());
        assert(trim(u) =~= u);
    } else {
        assert(trim(u) =~= u);
    }
    assert(ascii_lower(u) =~= u);
}

/// Human-readable hint when an interval is not supported by the fetcher.
pub fn interval_hint(provider: FetchProvider, interval: &str) -> (r: Option<String>)
    ensures
        documented(provider).contains(interval@) ==> r.is_none(),
        !documented(provider).contains(interval@) ==> (r matches Some(m) && m@ == "interval '"@
            + interval@ + "' is not supported by Alpha Vantage; this fetcher downloads daily bars"@),
{
    if is_documented_interval(provider, interval) {
        return None;
    }
    Some(
        concat3(
            "interval '",
            interval,
            "' is not supported by Alpha Vantage; this fetcher downloads daily bars",
        ),
    )
}

} // verus!
