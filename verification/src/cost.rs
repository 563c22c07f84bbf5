//! Token and cost accounting across a session.
//!
//! The main loop hands every usage block to a [`CostTracker`], which keeps a
//! running total and renders a one-line bill. Token counts are exact; the
//! yuan figure is an estimate at the configured rates.

use vstd::prelude::*;

use crate::api::UsageInfo;
use crate::text::{decimal, decimal_spec, lit, push_str};

verus! {

/// Running token total across a session.
#[derive(Debug, Clone, Copy, PartialEq)]
pub struct CostTracker {
    pub prompt_tokens: u64,
    pub completion_tokens: u64,
    pub cache_hit_tokens: u64,
    pub cache_miss_tokens: u64,
    /// Number of responses that reported usage.
    pub api_calls: u64,
}

impl Default for CostTracker {
    fn default() -> (r: Self)
        ensures
            r == CostTracker::empty_spec(),
    {
        CostTracker::new()
    }
}

impl CostTracker {
    pub open spec fn empty_spec() -> CostTracker {
        CostTracker {
            prompt_tokens: 0,
            completion_tokens: 0,
            cache_hit_tokens: 0,
            cache_miss_tokens: 0,
            api_calls: 0,
        }
    }

    /// Whether folding `u` into `self` stays within `u64`.
    pub open spec fn can_record(self, u: UsageInfo) -> bool {
        &&& self.prompt_tokens + u.prompt_tokens <= u64::MAX
        &&& self.completion_tokens + u.completion_tokens <= u64::MAX
        &&& self.cache_hit_tokens + u.prompt_cache_hit_tokens <= u64::MAX
        &&& self.cache_miss_tokens + u.prompt_cache_miss_tokens <= u64::MAX
        &&& self.api_calls + 1 <= u64::MAX
    }

    /// The running total after folding in `u`.
    pub open spec fn recorded_spec(self, u: UsageInfo) -> CostTracker {
        CostTracker {
            prompt_tokens: (self.prompt_tokens + u.prompt_tokens) as u64,
            completion_tokens: (self.completion_tokens + u.completion_tokens) as u64,
            cache_hit_tokens: (self.cache_hit_tokens + u.prompt_cache_hit_tokens) as u64,
            cache_miss_tokens: (self.cache_miss_tokens + u.prompt_cache_miss_tokens) as u64,
            api_calls: (self.api_calls + 1) as u64,
        }
    }

    pub fn new() -> (r: Self)
        ensures
            r == CostTracker::empty_spec(),
    {
        CostTracker {
            prompt_tokens: 0,
            completion_tokens: 0,
            cache_hit_tokens: 0,
            cache_miss_tokens: 0,
            api_calls: 0,
        }
    }

    /// Whether `u` can be folded in without a counter overflowing.
    pub fn fits(&self, u: &UsageInfo) -> (b: bool)
        ensures
            b == self.can_record(*u),
    {
        self.prompt_tokens <= u64::MAX - u.prompt_tokens
            && self.completion_tokens <= u64::MAX - u.completion_tokens
            && self.cache_hit_tokens <= u64::MAX - u.prompt_cache_hit_tokens
            && self.cache_miss_tokens <= u64::MAX - u.prompt_cache_miss_tokens
            && self.api_calls < u64::MAX
    }

    /// Whether the cache hit rate can be computed in 64 bits.
    pub fn pct_fits(&self) -> (b: bool)
        ensures
            b == (self.cache_hit_tokens * 100 <= u64::MAX && self.cache_hit_tokens + self.cache_miss_tokens <= u64::MAX),
    {
        self.cache_hit_tokens <= u64::MAX / 100 && self.cache_hit_tokens <= u64::MAX - self.cache_miss_tokens
    }

    /// Fold one usage block into the running total.
    pub fn record(&mut self, u: &UsageInfo)
        requires
            old(self).can_record(*u),
        ensures
            final(self).prompt_tokens == old(self).prompt_tokens + u.prompt_tokens,
            final(self).completion_tokens == old(self).completion_tokens + u.completion_tokens,
            final(self).cache_hit_tokens == old(self).cache_hit_tokens + u.prompt_cache_hit_tokens,
            final(self).cache_miss_tokens == old(self).cache_miss_tokens + u.prompt_cache_miss_tokens,
            final(self).api_calls == old(self).api_calls + 1,
            *final(self) == old(self).recorded_spec(*u),
    {
        self.prompt_tokens = self.prompt_tokens + u.prompt_tokens;
        self.completion_tokens = self.completion_tokens + u.completion_tokens;
        self.cache_hit_tokens = self.cache_hit_tokens + u.prompt_cache_hit_tokens;
        self.cache_miss_tokens = self.cache_miss_tokens + u.prompt_cache_miss_tokens;
        self.api_calls = self.api_calls + 1;
    }

    /// Whether anything has been recorded yet.
    pub fn is_empty(&self) -> (b: bool)
        ensures
            b == (self.api_calls == 0),
    {
        self.api_calls == 0
    }

    pub open spec fn cache_hit_pct_spec(self) -> nat {
        let total = self.cache_hit_tokens + self.cache_miss_tokens;
        if total == 0 { 0 } else { ((self.cache_hit_tokens * 100) / total) as nat }
    }

    /// Cache hit rate over all prompt tokens, as a whole percentage (0 when
    /// nothing was recorded).
    pub fn cache_hit_pct(&self) -> (p: u64)
        requires
            self.cache_hit_tokens * 100 <= u64::MAX,
            self.cache_hit_tokens + self.cache_miss_tokens <= u64::MAX,
        ensures
            p == self.cache_hit_pct_spec(),
    {
        let total = self.cache_hit_tokens + self.cache_miss_tokens;
        if total == 0 {
            0
        } else {
            (self.cache_hit_tokens * 100) / total
        }
    }

    /// The estimated spend, in units of 1/10000 CNY, rounded half to even:
    /// cache hits at 0.5, cache misses at 2.0 and output at 3.0 CNY per
    /// million tokens. Without a hit/miss split, all prompt tokens are priced
    /// as misses.
    pub open spec fn estimated_cny_e4_spec(self) -> nat {
        let (hit, miss) = if self.cache_hit_tokens + self.cache_miss_tokens > 0 {
            (self.cache_hit_tokens as nat, self.cache_miss_tokens as nat)
        } else {
            (0nat, self.prompt_tokens as nat)
        };
        // CNY = (hit * 0.5 + miss * 2 + out * 3) / 1e6 = raw / 2e6,
        // so units of 1e-4 CNY are raw / 200.
        let raw = (hit + 4 * miss + 6 * self.completion_tokens) as nat;
        round_half_even(raw, 200)
    }

    pub fn estimated_cny_e4(&self) -> (r: u128)
        ensures
            r == self.estimated_cny_e4_spec(),
    {
        let (hit, miss): (u128, u128) = if self.cache_hit_tokens as u128 + self.cache_miss_tokens as u128 > 0 {
            (self.cache_hit_tokens as u128, self.cache_miss_tokens as u128)
        } else {
            (0, self.prompt_tokens as u128)
        };
        let raw: u128 = hit + 4 * miss + 6 * self.completion_tokens as u128;
        let q = raw / 200;
        let rem = raw % 200;
        if rem > 100 || (rem == 100 && q % 2 == 1) {
            q + 1
        } else {
            q
        }
    }

    /// One-line session bill, e.g.
    /// `[Cost] 2 calls · prompt=300 (cache 76%) · completion=110 · ≈¥0.0012`.
    pub fn summary(&self) -> (s: String)
        requires
            self.cache_hit_tokens * 100 <= u64::MAX,
            self.cache_hit_tokens + self.cache_miss_tokens <= u64::MAX,
        ensures
            s@ == "[Cost] "@ + decimal_spec(self.api_calls as nat) + " calls \u{b7} prompt="@
                + decimal_spec(self.prompt_tokens as nat) + " (cache "@ + decimal_spec(
                self.cache_hit_pct_spec(),
            ) + "%) \u{b7} completion="@ + decimal_spec(self.completion_tokens as nat)
                + " \u{b7} \u{2248}\u{a5}"@ + fixed4_spec(self.estimated_cny_e4_spec()),
    {
        let mut s = lit("[Cost] ");
        push_str(&mut s, decimal(self.api_calls).as_str());
        push_str(&mut s, " calls \u{b7} prompt=");
        push_str(&mut s, decimal(self.prompt_tokens).as_str());
        push_str(&mut s, " (cache ");
        push_str(&mut s, decimal(self.cache_hit_pct()).as_str());
        push_str(&mut s, "%) \u{b7} completion=");
        push_str(&mut s, decimal(self.completion_tokens).as_str());
        push_str(&mut s, " \u{b7} \u{2248}\u{a5}");
        push_str(&mut s, fixed4(self.estimated_cny_e4()).as_str());
        s
    }
}

/// `n / d` rounded to the nearest integer, ties to even.
pub open spec fn round_half_even(n: nat, d: nat) -> nat
    recommends
        d > 0,
{
    let q = n / d;
    let r = n % d;
    if 2 * r > d || (2 * r == d && q % 2 == 1) { q + 1 } else { q }
}

/// `v / 10000` written with exactly four decimals, as `{:.4}` writes it.
pub open spec fn fixed4_spec(v: nat) -> Seq<char> {
    let frac = v % 10000;
    decimal_spec(v / 10000) + "."@ + pad4_spec(frac)
}

/// `f` (below 10000) written with leading zeros to four digits.
pub open spec fn pad4_spec(f: nat) -> Seq<char> {
    if f < 10 {
        "000"@ + decimal_spec(f)
    } else if f < 100 {
        "00"@ + decimal_spec(f)
    } else if f < 1000 {
        "0"@ + decimal_spec(f)
    } else {
        decimal_spec(f)
    }
}

pub fn fixed4(v: u128) -> (s: String)
    requires
        v / 10000 <= u64::MAX,
    ensures
        s@ == fixed4_spec(v as nat),
{
    let whole = (v / 10000) as u64;
    let frac = (v % 10000) as u64;
    let mut s = decimal(whole);
    push_str(&mut s, ".");
    if frac < 10 {
        push_str(&mut s, "000");
    } else if frac < 100 {
        push_str(&mut s, "00");
    } else if frac < 1000 {
        push_str(&mut s, "0");
    }
    push_str(&mut s, decimal(frac).as_str());
    s
}

/// A fresh tracker is empty, and recording any usage makes it non-empty:
/// each recorded usage counts as one call, and the token totals grow by
/// exactly the usage's figures.
pub proof fn recording_counts_a_call(t: CostTracker, u: UsageInfo)
    requires
        t.can_record(u),
    ensures
        CostTracker::empty_spec().api_calls == 0,
        t.recorded_spec(u).api_calls > 0,
        t.recorded_spec(u).api_calls == t.api_calls + 1,
        t.recorded_spec(u).prompt_tokens == t.prompt_tokens + u.prompt_tokens,
        t.recorded_spec(u).completion_tokens == t.completion_tokens + u.completion_tokens,
{
}

} // verus!
