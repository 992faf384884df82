//! The `/api/memory` routes.

use crate::json::{decimal_json, Json, JsonV};
use crate::text::{decimal, decimal_big};
use vstd::prelude::*;

verus! {

/// The tenths of a percent that one count is of another, cut off; 0 of nothing.
pub open spec fn rate_tenths(total: int, injected: int) -> int {
    if total == 0 {
        0
    } else {
        injected * 1000 / total
    }
}

/// A rate in percent, with one decimal.
pub open spec fn rate_text(total: int, injected: int) -> Seq<char> {
    let t = rate_tenths(total, injected);
    decimal((t / 10) as nat) + "."@ + decimal((t % 10) as nat)
}

/// How many percent of the prompts had context injected, cut off after one decimal.
pub fn injection_rate_pct(total: u64, injected: u64) -> (r: String)
    ensures
        r@ == rate_text(total as int, injected as int),
{
    let t: u128 = if total == 0 {
        0
    } else {
        injected as u128 * 1000 / total as u128
    };
    let mut out = decimal_big(t / 10);
    out.push_str(".");
    let tenth = decimal_big(t % 10);
    out.push_str(tenth.as_str());
    out
}

/// What is told of the memory.
pub open spec fn stats_v(total: u64, injected: u64) -> JsonV {
    JsonV::empty().put("total_prompts"@, JsonV::Int(total as int)).put(
        "injected_prompts"@,
        JsonV::Int(injected as int),
    ).put("injection_rate_pct"@, decimal_json(rate_text(total as int, injected as int)))
}

/// What is told of the memory: the counts and the rate.
pub fn memory_stats(total: u64, injected: u64) -> (r: Json)
    ensures
        r@ == stats_v(total, injected),
{
    let text = injection_rate_pct(total, injected);
    let rate = match Json::parse(text.as_str()) {
        Ok(v) => v,
        Err(_) => Json::Null,
    };
    Json::object().with("total_prompts", Json::Uint(total)).with(
        "injected_prompts",
        Json::Uint(injected),
    ).with("injection_rate_pct", rate)
}

/// The rate that is shown is never more than the true one, and less than a tenth of a
/// percent below it.
pub proof fn the_rate_is_cut_off(total: int, injected: int)
    requires
        0 < total,
        0 <= injected,
    ensures
        rate_tenths(total, injected) * total <= injected * 1000,
        injected * 1000 < (rate_tenths(total, injected) + 1) * total,
{
    let n = injected * 1000;
    assert(n / total * total <= n && n < (n / total + 1) * total) by (nonlinear_arith)
        requires
            total > 0,
            n >= 0,
    ;
}

/// The rate is written in percent with one decimal, and nothing of nothing is none.
pub proof fn the_rate_is_written_in_percent(total: int, injected: int, whole: nat, tenth: nat)
    requires
        0 <= total,
        0 <= injected,
        tenth < 10,
        total > 0 ==> (whole * 10 + tenth) * total <= injected * 1000 < (whole * 10 + tenth + 1)
            * total,
        total == 0 ==> whole == 0 && tenth == 0,
    ensures
        rate_text(total, injected) == decimal(whole) + "."@ + decimal(tenth),
{
    if total > 0 {
        let n = injected * 1000;
        let t = whole * 10 + tenth;
        assert(n / total == t) by (nonlinear_arith)
            requires
                total > 0,
                t * total <= n,
                n < (t + 1) * total,
        ;
    }
}

/// Each count is told under its name, and so is the rate.
pub proof fn counts_and_rate_are_told(total: u64, injected: u64)
    ensures
        stats_v(total, injected).get("total_prompts"@) == Some(JsonV::Int(total as int)),
        stats_v(total, injected).get("injected_prompts"@) == Some(JsonV::Int(injected as int)),
        stats_v(total, injected).get("injection_rate_pct"@) == Some(
            decimal_json(rate_text(total as int, injected as int)),
        ),
{
    reveal_strlit("total_prompts");
    reveal_strlit("injected_prompts");
    reveal_strlit("injection_rate_pct");
    assert("total_prompts"@.len() == 13 && "injected_prompts"@.len() == 16
        && "injection_rate_pct"@.len() == 18);
}

} // verus!
