use vstd::prelude::*;

use crate::text::{ascii_lower, ascii_lowercase_chars, chars_equal, chars_start_with, seq_starts_with};
use crate::usage::{ModelEntry, ModelUsage, TokenUsage, or_zero, sum_fits, usage_sum};

verus! {

/// The version of the published rate table below.
pub const PRICING_VERSION: &'static str = "2026-08-27";

/// Published base rates of a model, in thousandths of a US dollar per million tokens.
/// Without a cached-input rate, cached input is billed at the input rate.
#[derive(Debug, Clone, Copy, PartialEq, Eq, Structural)]
pub struct ModelPricing {
    pub input_mills_per_million: u64,
    pub cached_input_mills_per_million: Option<u64>,
    pub output_mills_per_million: u64,
}

/// The value of some usage at published rates. `value` is in billionths of a US dollar;
/// models without a published rate are named in `unavailable_models` and left out of it.
#[derive(Debug, Clone)]
pub struct PricingEstimate {
    pub value: Option<u128>,
    pub unavailable_models: Vec<String>,
    pub estimated_models: Vec<String>,
    pub version: String,
}

pub open spec fn rates(input: u64, cached: Option<u64>, output: u64) -> ModelPricing {
    ModelPricing {
        input_mills_per_million: input,
        cached_input_mills_per_million: cached,
        output_mills_per_million: output,
    }
}

/// The published rates of a model whose id, in small letters, is `m`: the first family in
/// the table whose prefix `m` starts with.
pub open spec fn published_pricing(m: Seq<char>) -> Option<ModelPricing> {
    if seq_starts_with(m, "gpt-5.6-luna"@) {
        Some(rates(200, Some(20), 1200))
    } else if seq_starts_with(m, "gpt-5.6-terra"@) {
        Some(rates(2000, Some(200), 12000))
    } else if m == "gpt-5.6"@ || seq_starts_with(m, "gpt-5.6-sol"@) {
        Some(rates(4000, Some(400), 20000))
    } else if seq_starts_with(m, "gpt-5.5-pro"@) {
        Some(rates(30000, None, 180000))
    } else if seq_starts_with(m, "gpt-5.5"@) {
        Some(rates(5000, Some(500), 30000))
    } else if seq_starts_with(m, "gpt-5.4-pro"@) {
        Some(rates(30000, None, 180000))
    } else if seq_starts_with(m, "gpt-5.4-mini"@) {
        Some(rates(750, Some(75), 4500))
    } else if seq_starts_with(m, "gpt-5.4-nano"@) {
        Some(rates(200, Some(20), 1250))
    } else if seq_starts_with(m, "gpt-5.4"@) {
        Some(rates(2500, Some(250), 15000))
    } else if seq_starts_with(m, "gpt-5.3-codex"@) || seq_starts_with(m, "gpt-5.3"@)
        || seq_starts_with(m, "gpt-5.2-codex"@) || seq_starts_with(m, "gpt-5.2"@) {
        Some(rates(1750, Some(175), 14000))
    } else if seq_starts_with(m, "gpt-5.1-codex-mini"@) || seq_starts_with(m, "gpt-5-mini"@) {
        Some(rates(250, Some(25), 2000))
    } else if seq_starts_with(m, "gpt-5.1-codex"@) || seq_starts_with(m, "gpt-5-codex"@) {
        Some(rates(1250, Some(125), 10000))
    } else if seq_starts_with(m, "codex-mini-latest"@) {
        Some(rates(1500, Some(375), 6000))
    } else {
        None
    }
}

/// The published rates of `model`; the id is matched without regard to ASCII case.
pub open spec fn pricing_of(model: Seq<char>) -> Option<ModelPricing> {
    published_pricing(ascii_lower(model))
}

/// The published base rates of `model`, when there are any.
pub fn pricing_for(model: &str) -> (r: Option<ModelPricing>)
    ensures
        r == pricing_of(model@),
{
    let m = ascii_lowercase_chars(model);
    if chars_start_with(&m, "gpt-5.6-luna") {
        Some(ModelPricing { input_mills_per_million: 200, cached_input_mills_per_million: Some(20), output_mills_per_million: 1200 })
    } else if chars_start_with(&m, "gpt-5.6-terra") {
        Some(ModelPricing { input_mills_per_million: 2000, cached_input_mills_per_million: Some(200), output_mills_per_million: 12000 })
    } else if chars_equal(&m, "gpt-5.6") || chars_start_with(&m, "gpt-5.6-sol") {
        Some(ModelPricing { input_mills_per_million: 4000, cached_input_mills_per_million: Some(400), output_mills_per_million: 20000 })
    } else if chars_start_with(&m, "gpt-5.5-pro") {
        Some(ModelPricing { input_mills_per_million: 30000, cached_input_mills_per_million: None, output_mills_per_million: 180000 })
    } else if chars_start_with(&m, "gpt-5.5") {
        Some(ModelPricing { input_mills_per_million: 5000, cached_input_mills_per_million: Some(500), output_mills_per_million: 30000 })
    } else if chars_start_with(&m, "gpt-5.4-pro") {
        Some(ModelPricing { input_mills_per_million: 30000, cached_input_mills_per_million: None, output_mills_per_million: 180000 })
    } else if chars_start_with(&m, "gpt-5.4-mini") {
        Some(ModelPricing { input_mills_per_million: 750, cached_input_mills_per_million: Some(75), output_mills_per_million: 4500 })
    } else if chars_start_with(&m, "gpt-5.4-nano") {
        Some(ModelPricing { input_mills_per_million: 200, cached_input_mills_per_million: Some(20), output_mills_per_million: 1250 })
    } else if chars_start_with(&m, "gpt-5.4") {
        Some(ModelPricing { input_mills_per_million: 2500, cached_input_mills_per_million: Some(250), output_mills_per_million: 15000 })
    } else if chars_start_with(&m, "gpt-5.3-codex") || chars_start_with(&m, "gpt-5.3")
        || chars_start_with(&m, "gpt-5.2-codex") || chars_start_with(&m, "gpt-5.2") {
        Some(ModelPricing { input_mills_per_million: 1750, cached_input_mills_per_million: Some(175), output_mills_per_million: 14000 })
    } else if chars_start_with(&m, "gpt-5.1-codex-mini") || chars_start_with(&m, "gpt-5-mini") {
        Some(ModelPricing { input_mills_per_million: 250, cached_input_mills_per_million: Some(25), output_mills_per_million: 2000 })
    } else if chars_start_with(&m, "gpt-5.1-codex") || chars_start_with(&m, "gpt-5-codex") {
        Some(ModelPricing { input_mills_per_million: 1250, cached_input_mills_per_million: Some(125), output_mills_per_million: 10000 })
    } else if chars_start_with(&m, "codex-mini-latest") {
        Some(ModelPricing { input_mills_per_million: 1500, cached_input_mills_per_million: Some(375), output_mills_per_million: 6000 })
    } else {
        None
    }
}

/// Largest rate in the table, an upper bound used to show that sums stay in range.
pub open spec fn max_rate() -> int {
    180000
}

/// Whether every rate of `p` is at most `max_rate()`.
pub open spec fn rates_bounded(p: ModelPricing) -> bool {
    &&& p.input_mills_per_million <= max_rate()
    &&& or_zero(p.cached_input_mills_per_million) <= max_rate()
    &&& p.output_mills_per_million <= max_rate()
}

/// The value of `usage` at rates `p`, in billionths of a US dollar: cached input (never
/// more than the input) at the cached rate, the rest of the input at the input rate, and
/// the output at the output rate.
pub open spec fn value_of(usage: ModelUsage, p: ModelPricing) -> int {
    let cached = if or_zero(usage.cached_input) < usage.input { or_zero(usage.cached_input) } else { usage.input as int };
    let uncached = usage.input - cached;
    let cached_rate = match p.cached_input_mills_per_million {
        Some(r) => r as int,
        None => p.input_mills_per_million as int,
    };
    uncached * p.input_mills_per_million + cached * cached_rate + usage.output * p.output_mills_per_million
}

/// An upper bound of `value_of` under bounded rates.
pub open spec fn value_bound() -> int {
    0x1_0000_0000_0000_0000_0000_0000
}

/// The value of `usage` at rates `pricing`, in billionths of a US dollar.
pub fn model_value(usage: &ModelUsage, pricing: ModelPricing) -> (r: u128)
    requires
        rates_bounded(pricing),
    ensures
        r == value_of(*usage, pricing),
        r <= value_bound(),
{
    let reported = match usage.cached_input {
        Some(c) => c,
        None => 0,
    };
    let cached = if reported < usage.input { reported } else { usage.input };
    let uncached = usage.input - cached;
    let cached_rate = match pricing.cached_input_mills_per_million {
        Some(r) => r,
        None => pricing.input_mills_per_million,
    };
    let a = uncached as u128;
    let b = cached as u128;
    let o = usage.output as u128;
    let ri = pricing.input_mills_per_million as u128;
    let rc = cached_rate as u128;
    let ro = pricing.output_mills_per_million as u128;
    proof {
        assert(a * ri <= 0xffff_ffff_ffff_ffff * 180000) by (nonlinear_arith)
            requires a <= 0xffff_ffff_ffff_ffffu128, ri <= 180000u128;
        assert(b * rc <= 0xffff_ffff_ffff_ffff * 180000) by (nonlinear_arith)
            requires b <= 0xffff_ffff_ffff_ffffu128, rc <= 180000u128;
        assert(o * ro <= 0xffff_ffff_ffff_ffff * 180000) by (nonlinear_arith)
            requires o <= 0xffff_ffff_ffff_ffffu128, ro <= 180000u128;
    }
    a * ri + b * rc + o * ro
}

/// Every rate in the table is bounded.
proof fn lemma_published_rates_bounded(m: Seq<char>)
    ensures
        published_pricing(m) matches Some(p) ==> rates_bounded(p),
{
}

/// The value of the priced models among `entries`.
pub open spec fn priced_value(entries: Seq<ModelEntry>) -> int
    decreases entries.len(),
{
    if entries.len() == 0 {
        0
    } else {
        let last = entries.last();
        priced_value(entries.drop_last()) + match pricing_of(last.model@) {
            Some(p) => value_of(last.usage, p),
            None => 0,
        }
    }
}

/// The models among `entries`, in order, that have usage but no published rate.
pub open spec fn unpriced_models(entries: Seq<ModelEntry>) -> Seq<Seq<char>>
    decreases entries.len(),
{
    if entries.len() == 0 {
        Seq::empty()
    } else {
        let last = entries.last();
        let before = unpriced_models(entries.drop_last());
        if pricing_of(last.model@) is None && last.usage.total > 0 {
            before.push(last.model@)
        } else {
            before
        }
    }
}

/// The views of a list of strings.
pub open spec fn string_views(v: Seq<String>) -> Seq<Seq<char>> {
    v.map_values(|s: String| s@)
}

/// Values `usage` at published rates: the value is the sum over the models that have
/// rates; the models without rates but with usage are listed in order of model id.
pub fn estimate(usage: &TokenUsage) -> (r: PricingEstimate)
    requires
        usage.by_model@.len() < 0x1_0000_0000,
    ensures
        r.value == Some(priced_value(usage.by_model.entry_seq()) as u128),
        string_views(r.unavailable_models@) == unpriced_models(usage.by_model.entry_seq()),
        r.estimated_models@.len() == 0,
        r.version@ == PRICING_VERSION@,
{
    let entries = usage.by_model.entries();
    let ghost es = entries@;
    let n = usage.by_model.len();
    let mut total: u128 = 0;
    let mut unavailable_models: Vec<String> = Vec::new();
    let mut i: usize = 0;
    while i < n
        invariant
            n == es.len(),
            n < 0x1_0000_0000,
            entries@ == es,
            i <= n,
            total == priced_value(es.take(i as int)),
            total <= i * value_bound(),
            string_views(unavailable_models@) == unpriced_models(es.take(i as int)),
        decreases n - i,
    {
        let entry = &entries[i];
        let ghost prefix = es.take(i + 1);
        proof {
            assert(prefix.drop_last() =~= es.take(i as int));
            assert(prefix.last() == es[i as int]);
        }
        match pricing_for(entry.model.as_str()) {
            Some(pricing) => {
                proof {
                    lemma_published_rates_bounded(ascii_lower(entry.model@));
                }
                let v = model_value(&entry.usage, pricing);
                proof {
                    assert((i + 1) * value_bound() == i * value_bound() + value_bound());
                }
                total = total + v;
            },
            None => {
                if entry.usage.total > 0 {
                    let name = entry.model.clone();
                    unavailable_models.push(name);
                    proof {
                        assert(string_views(unavailable_models@) =~= string_views(
                            unavailable_models@.drop_last(),
                        ).push(name@));
                    }
                }
                proof {
                    assert((i + 1) * value_bound() == i * value_bound() + value_bound());
                }
            },
        }
        i = i + 1;
    }
    proof {
        assert(es.take(n as int) =~= es);
    }
    PricingEstimate {
        value: Some(total),
        unavailable_models,
        estimated_models: Vec::new(),
        version: PRICING_VERSION.to_owned(),
    }
}

} // verus!

verus! {

/// Models without usage are worth nothing and are not listed as unpriced: zero usage has a
/// zero value.
pub proof fn law_zero_usage_has_zero_value(entries: Seq<ModelEntry>)
    requires
        forall|i: int| 0 <= i < entries.len() ==> (#[trigger] entries[i]).usage.input == 0
            && entries[i].usage.output == 0 && entries[i].usage.total == 0,
    ensures
        priced_value(entries) == 0,
        unpriced_models(entries) == Seq::<Seq<char>>::empty(),
    decreases entries.len(),
{
    if entries.len() > 0 {
        let init = entries.drop_last();
        assert forall|i: int| 0 <= i < init.len() implies (#[trigger] init[i]).usage.input == 0
            && init[i].usage.output == 0 && init[i].usage.total == 0 by {
            assert(init[i] == entries[i]);
        }
        law_zero_usage_has_zero_value(init);
        assert(entries.last() == entries[entries.len() - 1]);
        if let Some(p) = pricing_of(entries.last().model@) {
            lemma_no_tokens_no_value(entries.last().usage, p);
        }
    }
}

proof fn lemma_no_tokens_no_value(usage: ModelUsage, p: ModelPricing)
    requires
        usage.input == 0,
        usage.output == 0,
    ensures
        value_of(usage, p) == 0,
{
    let i = p.input_mills_per_million as int;
    let o = p.output_mills_per_million as int;
    let c = match p.cached_input_mills_per_million {
        Some(r) => r as int,
        None => i,
    };
    assert(0 * i + 0 * c + 0 * o == 0);
}

/// A model without published rates adds nothing to the value of usage; it is listed as
/// unavailable when it has any tokens.
pub proof fn law_unpriced_models_add_nothing(entries: Seq<ModelEntry>, e: ModelEntry)
    requires
        pricing_of(e.model@) is None,
    ensures
        priced_value(entries.push(e)) == priced_value(entries),
        unpriced_models(entries.push(e)) == if e.usage.total > 0 {
            unpriced_models(entries).push(e.model@)
        } else {
            unpriced_models(entries)
        },
{
    assert(entries.push(e).drop_last() =~= entries);
}

proof fn lemma_prefixes_exclude(m: Seq<char>, a: Seq<char>, b: Seq<char>, k: int)
    requires
        seq_starts_with(m, a),
        0 <= k < a.len(),
        k < b.len(),
        a[k] != b[k],
    ensures
        !seq_starts_with(m, b),
        m != b,
{
    assert(m.take(a.len() as int)[k] == m[k]);
    if seq_starts_with(m, b) {
        assert(m.take(b.len() as int)[k] == m[k]);
    }
}

/// Model ids of the `gpt-5.6-luna` family, in any ASCII case, have their published rates.
pub proof fn law_luna_models_have_their_published_rates(model: Seq<char>)
    requires
        seq_starts_with(ascii_lower(model), "gpt-5.6-luna"@),
    ensures
        pricing_of(model) == Some(rates(200, Some(20), 1200)),
{
    let m = ascii_lower(model);
    reveal_strlit("codex-mini-latest");
    reveal_strlit("gpt-5-codex");
    reveal_strlit("gpt-5-mini");
    reveal_strlit("gpt-5.1-codex");
    reveal_strlit("gpt-5.1-codex-mini");
    reveal_strlit("gpt-5.2");
    reveal_strlit("gpt-5.2-codex");
    reveal_strlit("gpt-5.3");
    reveal_strlit("gpt-5.3-codex");
    reveal_strlit("gpt-5.4");
    reveal_strlit("gpt-5.4-mini");
    reveal_strlit("gpt-5.4-nano");
    reveal_strlit("gpt-5.4-pro");
    reveal_strlit("gpt-5.5");
    reveal_strlit("gpt-5.5-pro");
    reveal_strlit("gpt-5.6");
    reveal_strlit("gpt-5.6-luna");
    reveal_strlit("gpt-5.6-sol");
    reveal_strlit("gpt-5.6-terra");
}

/// Model ids of the `gpt-5.6-terra` family, in any ASCII case, have their published rates.
pub proof fn law_terra_models_have_their_published_rates(model: Seq<char>)
    requires
        seq_starts_with(ascii_lower(model), "gpt-5.6-terra"@),
    ensures
        pricing_of(model) == Some(rates(2000, Some(200), 12000)),
{
    let m = ascii_lower(model);
    reveal_strlit("codex-mini-latest");
    reveal_strlit("gpt-5-codex");
    reveal_strlit("gpt-5-mini");
    reveal_strlit("gpt-5.1-codex");
    reveal_strlit("gpt-5.1-codex-mini");
    reveal_strlit("gpt-5.2");
    reveal_strlit("gpt-5.2-codex");
    reveal_strlit("gpt-5.3");
    reveal_strlit("gpt-5.3-codex");
    reveal_strlit("gpt-5.4");
    reveal_strlit("gpt-5.4-mini");
    reveal_strlit("gpt-5.4-nano");
    reveal_strlit("gpt-5.4-pro");
    reveal_strlit("gpt-5.5");
    reveal_strlit("gpt-5.5-pro");
    reveal_strlit("gpt-5.6");
    reveal_strlit("gpt-5.6-luna");
    reveal_strlit("gpt-5.6-sol");
    reveal_strlit("gpt-5.6-terra");
    lemma_prefixes_exclude(m, "gpt-5.6-terra"@, "gpt-5.6-luna"@, 8);
}

/// Model ids of the `gpt-5.6-sol` family, in any ASCII case, have their published rates.
pub proof fn law_sol_models_have_their_published_rates(model: Seq<char>)
    requires
        seq_starts_with(ascii_lower(model), "gpt-5.6-sol"@),
    ensures
        pricing_of(model) == Some(rates(4000, Some(400), 20000)),
{
    let m = ascii_lower(model);
    reveal_strlit("codex-mini-latest");
    reveal_strlit("gpt-5-codex");
    reveal_strlit("gpt-5-mini");
    reveal_strlit("gpt-5.1-codex");
    reveal_strlit("gpt-5.1-codex-mini");
    reveal_strlit("gpt-5.2");
    reveal_strlit("gpt-5.2-codex");
    reveal_strlit("gpt-5.3");
    reveal_strlit("gpt-5.3-codex");
    reveal_strlit("gpt-5.4");
    reveal_strlit("gpt-5.4-mini");
    reveal_strlit("gpt-5.4-nano");
    reveal_strlit("gpt-5.4-pro");
    reveal_strlit("gpt-5.5");
    reveal_strlit("gpt-5.5-pro");
    reveal_strlit("gpt-5.6");
    reveal_strlit("gpt-5.6-luna");
    reveal_strlit("gpt-5.6-sol");
    reveal_strlit("gpt-5.6-terra");
    lemma_prefixes_exclude(m, "gpt-5.6-sol"@, "gpt-5.6-luna"@, 8);
    lemma_prefixes_exclude(m, "gpt-5.6-sol"@, "gpt-5.6-terra"@, 8);
}

/// Model ids of the `gpt-5.5-pro` family, in any ASCII case, have their published rates.
pub proof fn law_gpt_5_5_pro_models_have_their_published_rates(model: Seq<char>)
    requires
        seq_starts_with(ascii_lower(model), "gpt-5.5-pro"@),
    ensures
        pricing_of(model) == Some(rates(30000, None, 180000)),
{
    let m = ascii_lower(model);
    reveal_strlit("codex-mini-latest");
    reveal_strlit("gpt-5-codex");
    reveal_strlit("gpt-5-mini");
    reveal_strlit("gpt-5.1-codex");
    reveal_strlit("gpt-5.1-codex-mini");
    reveal_strlit("gpt-5.2");
    reveal_strlit("gpt-5.2-codex");
    reveal_strlit("gpt-5.3");
    reveal_strlit("gpt-5.3-codex");
    reveal_strlit("gpt-5.4");
    reveal_strlit("gpt-5.4-mini");
    reveal_strlit("gpt-5.4-nano");
    reveal_strlit("gpt-5.4-pro");
    reveal_strlit("gpt-5.5");
    reveal_strlit("gpt-5.5-pro");
    reveal_strlit("gpt-5.6");
    reveal_strlit("gpt-5.6-luna");
    reveal_strlit("gpt-5.6-sol");
    reveal_strlit("gpt-5.6-terra");
    lemma_prefixes_exclude(m, "gpt-5.5-pro"@, "gpt-5.6-luna"@, 6);
    lemma_prefixes_exclude(m, "gpt-5.5-pro"@, "gpt-5.6-terra"@, 6);
    lemma_prefixes_exclude(m, "gpt-5.5-pro"@, "gpt-5.6-sol"@, 6);
    lemma_prefixes_exclude(m, "gpt-5.5-pro"@, "gpt-5.6"@, 6);
}

/// Model ids of the `gpt-5.5` (other than `gpt-5.5-pro`) family, in any ASCII case, have their published rates.
pub proof fn law_gpt_5_5_models_have_their_published_rates(model: Seq<char>)
    requires
        seq_starts_with(ascii_lower(model), "gpt-5.5"@),
        !seq_starts_with(ascii_lower(model), "gpt-5.5-pro"@),
    ensures
        pricing_of(model) == Some(rates(5000, Some(500), 30000)),
{
    let m = ascii_lower(model);
    reveal_strlit("codex-mini-latest");
    reveal_strlit("gpt-5-codex");
    reveal_strlit("gpt-5-mini");
    reveal_strlit("gpt-5.1-codex");
    reveal_strlit("gpt-5.1-codex-mini");
    reveal_strlit("gpt-5.2");
    reveal_strlit("gpt-5.2-codex");
    reveal_strlit("gpt-5.3");
    reveal_strlit("gpt-5.3-codex");
    reveal_strlit("gpt-5.4");
    reveal_strlit("gpt-5.4-mini");
    reveal_strlit("gpt-5.4-nano");
    reveal_strlit("gpt-5.4-pro");
    reveal_strlit("gpt-5.5");
    reveal_strlit("gpt-5.5-pro");
    reveal_strlit("gpt-5.6");
    reveal_strlit("gpt-5.6-luna");
    reveal_strlit("gpt-5.6-sol");
    reveal_strlit("gpt-5.6-terra");
    lemma_prefixes_exclude(m, "gpt-5.5"@, "gpt-5.6-luna"@, 6);
    lemma_prefixes_exclude(m, "gpt-5.5"@, "gpt-5.6-terra"@, 6);
    lemma_prefixes_exclude(m, "gpt-5.5"@, "gpt-5.6-sol"@, 6);
    lemma_prefixes_exclude(m, "gpt-5.5"@, "gpt-5.6"@, 6);
}

/// Model ids of the `gpt-5.4-pro` family, in any ASCII case, have their published rates.
pub proof fn law_gpt_5_4_pro_models_have_their_published_rates(model: Seq<char>)
    requires
        seq_starts_with(ascii_lower(model), "gpt-5.4-pro"@),
    ensures
        pricing_of(model) == Some(rates(30000, None, 180000)),
{
    let m = ascii_lower(model);
    reveal_strlit("codex-mini-latest");
    reveal_strlit("gpt-5-codex");
    reveal_strlit("gpt-5-mini");
    reveal_strlit("gpt-5.1-codex");
    reveal_strlit("gpt-5.1-codex-mini");
    reveal_strlit("gpt-5.2");
    reveal_strlit("gpt-5.2-codex");
    reveal_strlit("gpt-5.3");
    reveal_strlit("gpt-5.3-codex");
    reveal_strlit("gpt-5.4");
    reveal_strlit("gpt-5.4-mini");
    reveal_strlit("gpt-5.4-nano");
    reveal_strlit("gpt-5.4-pro");
    reveal_strlit("gpt-5.5");
    reveal_strlit("gpt-5.5-pro");
    reveal_strlit("gpt-5.6");
    reveal_strlit("gpt-5.6-luna");
    reveal_strlit("gpt-5.6-sol");
    reveal_strlit("gpt-5.6-terra");
    lemma_prefixes_exclude(m, "gpt-5.4-pro"@, "gpt-5.6-luna"@, 6);
    lemma_prefixes_exclude(m, "gpt-5.4-pro"@, "gpt-5.6-terra"@, 6);
    lemma_prefixes_exclude(m, "gpt-5.4-pro"@, "gpt-5.6-sol"@, 6);
    lemma_prefixes_exclude(m, "gpt-5.4-pro"@, "gpt-5.5-pro"@, 6);
    lemma_prefixes_exclude(m, "gpt-5.4-pro"@, "gpt-5.5"@, 6);
    lemma_prefixes_exclude(m, "gpt-5.4-pro"@, "gpt-5.6"@, 6);
}

/// Model ids of the `gpt-5.4-mini` family, in any ASCII case, have their published rates.
pub proof fn law_gpt_5_4_mini_models_have_their_published_rates(model: Seq<char>)
    requires
        seq_starts_with(ascii_lower(model), "gpt-5.4-mini"@),
    ensures
        pricing_of(model) == Some(rates(750, Some(75), 4500)),
{
    let m = ascii_lower(model);
    reveal_strlit("codex-mini-latest");
    reveal_strlit("gpt-5-codex");
    reveal_strlit("gpt-5-mini");
    reveal_strlit("gpt-5.1-codex");
    reveal_strlit("gpt-5.1-codex-mini");
    reveal_strlit("gpt-5.2");
    reveal_strlit("gpt-5.2-codex");
    reveal_strlit("gpt-5.3");
    reveal_strlit("gpt-5.3-codex");
    reveal_strlit("gpt-5.4");
    reveal_strlit("gpt-5.4-mini");
    reveal_strlit("gpt-5.4-nano");
    reveal_strlit("gpt-5.4-pro");
    reveal_strlit("gpt-5.5");
    reveal_strlit("gpt-5.5-pro");
    reveal_strlit("gpt-5.6");
    reveal_strlit("gpt-5.6-luna");
    reveal_strlit("gpt-5.6-sol");
    reveal_strlit("gpt-5.6-terra");
    lemma_prefixes_exclude(m, "gpt-5.4-mini"@, "gpt-5.6-luna"@, 6);
    lemma_prefixes_exclude(m, "gpt-5.4-mini"@, "gpt-5.6-terra"@, 6);
    lemma_prefixes_exclude(m, "gpt-5.4-mini"@, "gpt-5.6-sol"@, 6);
    lemma_prefixes_exclude(m, "gpt-5.4-mini"@, "gpt-5.5-pro"@, 6);
    lemma_prefixes_exclude(m, "gpt-5.4-mini"@, "gpt-5.5"@, 6);
    lemma_prefixes_exclude(m, "gpt-5.4-mini"@, "gpt-5.4-pro"@, 8);
    lemma_prefixes_exclude(m, "gpt-5.4-mini"@, "gpt-5.6"@, 6);
}

/// Model ids of the `gpt-5.4-nano` family, in any ASCII case, have their published rates.
pub proof fn law_gpt_5_4_nano_models_have_their_published_rates(model: Seq<char>)
    requires
        seq_starts_with(ascii_lower(model), "gpt-5.4-nano"@),
    ensures
        pricing_of(model) == Some(rates(200, Some(20), 1250)),
{
    let m = ascii_lower(model);
    reveal_strlit("codex-mini-latest");
    reveal_strlit("gpt-5-codex");
    reveal_strlit("gpt-5-mini");
    reveal_strlit("gpt-5.1-codex");
    reveal_strlit("gpt-5.1-codex-mini");
    reveal_strlit("gpt-5.2");
    reveal_strlit("gpt-5.2-codex");
    reveal_strlit("gpt-5.3");
    reveal_strlit("gpt-5.3-codex");
    reveal_strlit("gpt-5.4");
    reveal_strlit("gpt-5.4-mini");
    reveal_strlit("gpt-5.4-nano");
    reveal_strlit("gpt-5.4-pro");
    reveal_strlit("gpt-5.5");
    reveal_strlit("gpt-5.5-pro");
    reveal_strlit("gpt-5.6");
    reveal_strlit("gpt-5.6-luna");
    reveal_strlit("gpt-5.6-sol");
    reveal_strlit("gpt-5.6-terra");
    lemma_prefixes_exclude(m, "gpt-5.4-nano"@, "gpt-5.6-luna"@, 6);
    lemma_prefixes_exclude(m, "gpt-5.4-nano"@, "gpt-5.6-terra"@, 6);
    lemma_prefixes_exclude(m, "gpt-5.4-nano"@, "gpt-5.6-sol"@, 6);
    lemma_prefixes_exclude(m, "gpt-5.4-nano"@, "gpt-5.5-pro"@, 6);
    lemma_prefixes_exclude(m, "gpt-5.4-nano"@, "gpt-5.5"@, 6);
    lemma_prefixes_exclude(m, "gpt-5.4-nano"@, "gpt-5.4-pro"@, 8);
    lemma_prefixes_exclude(m, "gpt-5.4-nano"@, "gpt-5.4-mini"@, 8);
    lemma_prefixes_exclude(m, "gpt-5.4-nano"@, "gpt-5.6"@, 6);
}

/// Model ids of the `gpt-5.4` (other than its pro, mini and nano) family, in any ASCII case, have their published rates.
pub proof fn law_gpt_5_4_models_have_their_published_rates(model: Seq<char>)
    requires
        seq_starts_with(ascii_lower(model), "gpt-5.4"@),
        !seq_starts_with(ascii_lower(model), "gpt-5.4-mini"@),
        !seq_starts_with(ascii_lower(model), "gpt-5.4-nano"@),
        !seq_starts_with(ascii_lower(model), "gpt-5.4-pro"@),
    ensures
        pricing_of(model) == Some(rates(2500, Some(250), 15000)),
{
    let m = ascii_lower(model);
    reveal_strlit("codex-mini-latest");
    reveal_strlit("gpt-5-codex");
    reveal_strlit("gpt-5-mini");
    reveal_strlit("gpt-5.1-codex");
    reveal_strlit("gpt-5.1-codex-mini");
    reveal_strlit("gpt-5.2");
    reveal_strlit("gpt-5.2-codex");
    reveal_strlit("gpt-5.3");
    reveal_strlit("gpt-5.3-codex");
    reveal_strlit("gpt-5.4");
    reveal_strlit("gpt-5.4-mini");
    reveal_strlit("gpt-5.4-nano");
    reveal_strlit("gpt-5.4-pro");
    reveal_strlit("gpt-5.5");
    reveal_strlit("gpt-5.5-pro");
    reveal_strlit("gpt-5.6");
    reveal_strlit("gpt-5.6-luna");
    reveal_strlit("gpt-5.6-sol");
    reveal_strlit("gpt-5.6-terra");
    lemma_prefixes_exclude(m, "gpt-5.4"@, "gpt-5.6-luna"@, 6);
    lemma_prefixes_exclude(m, "gpt-5.4"@, "gpt-5.6-terra"@, 6);
    lemma_prefixes_exclude(m, "gpt-5.4"@, "gpt-5.6-sol"@, 6);
    lemma_prefixes_exclude(m, "gpt-5.4"@, "gpt-5.5-pro"@, 6);
    lemma_prefixes_exclude(m, "gpt-5.4"@, "gpt-5.5"@, 6);
    lemma_prefixes_exclude(m, "gpt-5.4"@, "gpt-5.6"@, 6);
}

/// Model ids of the `gpt-5.3` and `gpt-5.2` family, in any ASCII case, have their published rates.
pub proof fn law_gpt_5_3_and_5_2_models_have_their_published_rates(model: Seq<char>)
    requires
        seq_starts_with(ascii_lower(model), "gpt-5.3-codex"@) || seq_starts_with(ascii_lower(model), "gpt-5.3"@) || seq_starts_with(ascii_lower(model), "gpt-5.2-codex"@) || seq_starts_with(ascii_lower(model), "gpt-5.2"@),
    ensures
        pricing_of(model) == Some(rates(1750, Some(175), 14000)),
{
    let m = ascii_lower(model);
    reveal_strlit("codex-mini-latest");
    reveal_strlit("gpt-5-codex");
    reveal_strlit("gpt-5-mini");
    reveal_strlit("gpt-5.1-codex");
    reveal_strlit("gpt-5.1-codex-mini");
    reveal_strlit("gpt-5.2");
    reveal_strlit("gpt-5.2-codex");
    reveal_strlit("gpt-5.3");
    reveal_strlit("gpt-5.3-codex");
    reveal_strlit("gpt-5.4");
    reveal_strlit("gpt-5.4-mini");
    reveal_strlit("gpt-5.4-nano");
    reveal_strlit("gpt-5.4-pro");
    reveal_strlit("gpt-5.5");
    reveal_strlit("gpt-5.5-pro");
    reveal_strlit("gpt-5.6");
    reveal_strlit("gpt-5.6-luna");
    reveal_strlit("gpt-5.6-sol");
    reveal_strlit("gpt-5.6-terra");
    if seq_starts_with(m, "gpt-5.3-codex"@) {
        lemma_prefixes_exclude(m, "gpt-5.3-codex"@, "gpt-5.6-luna"@, 6);
        lemma_prefixes_exclude(m, "gpt-5.3-codex"@, "gpt-5.6-terra"@, 6);
        lemma_prefixes_exclude(m, "gpt-5.3-codex"@, "gpt-5.6-sol"@, 6);
        lemma_prefixes_exclude(m, "gpt-5.3-codex"@, "gpt-5.5-pro"@, 6);
        lemma_prefixes_exclude(m, "gpt-5.3-codex"@, "gpt-5.5"@, 6);
        lemma_prefixes_exclude(m, "gpt-5.3-codex"@, "gpt-5.4-pro"@, 6);
        lemma_prefixes_exclude(m, "gpt-5.3-codex"@, "gpt-5.4-mini"@, 6);
        lemma_prefixes_exclude(m, "gpt-5.3-codex"@, "gpt-5.4-nano"@, 6);
        lemma_prefixes_exclude(m, "gpt-5.3-codex"@, "gpt-5.4"@, 6);
        lemma_prefixes_exclude(m, "gpt-5.3-codex"@, "gpt-5.6"@, 6);
    } else if seq_starts_with(m, "gpt-5.3"@) {
        lemma_prefixes_exclude(m, "gpt-5.3"@, "gpt-5.6-luna"@, 6);
        lemma_prefixes_exclude(m, "gpt-5.3"@, "gpt-5.6-terra"@, 6);
        lemma_prefixes_exclude(m, "gpt-5.3"@, "gpt-5.6-sol"@, 6);
        lemma_prefixes_exclude(m, "gpt-5.3"@, "gpt-5.5-pro"@, 6);
        lemma_prefixes_exclude(m, "gpt-5.3"@, "gpt-5.5"@, 6);
        lemma_prefixes_exclude(m, "gpt-5.3"@, "gpt-5.4-pro"@, 6);
        lemma_prefixes_exclude(m, "gpt-5.3"@, "gpt-5.4-mini"@, 6);
        lemma_prefixes_exclude(m, "gpt-5.3"@, "gpt-5.4-nano"@, 6);
        lemma_prefixes_exclude(m, "gpt-5.3"@, "gpt-5.4"@, 6);
        lemma_prefixes_exclude(m, "gpt-5.3"@, "gpt-5.6"@, 6);
    } else if seq_starts_with(m, "gpt-5.2-codex"@) {
        lemma_prefixes_exclude(m, "gpt-5.2-codex"@, "gpt-5.6-luna"@, 6);
        lemma_prefixes_exclude(m, "gpt-5.2-codex"@, "gpt-5.6-terra"@, 6);
        lemma_prefixes_exclude(m, "gpt-5.2-codex"@, "gpt-5.6-sol"@, 6);
        lemma_prefixes_exclude(m, "gpt-5.2-codex"@, "gpt-5.5-pro"@, 6);
        lemma_prefixes_exclude(m, "gpt-5.2-codex"@, "gpt-5.5"@, 6);
        lemma_prefixes_exclude(m, "gpt-5.2-codex"@, "gpt-5.4-pro"@, 6);
        lemma_prefixes_exclude(m, "gpt-5.2-codex"@, "gpt-5.4-mini"@, 6);
        lemma_prefixes_exclude(m, "gpt-5.2-codex"@, "gpt-5.4-nano"@, 6);
        lemma_prefixes_exclude(m, "gpt-5.2-codex"@, "gpt-5.4"@, 6);
        lemma_prefixes_exclude(m, "gpt-5.2-codex"@, "gpt-5.6"@, 6);
    } else if seq_starts_with(m, "gpt-5.2"@) {
        lemma_prefixes_exclude(m, "gpt-5.2"@, "gpt-5.6-luna"@, 6);
        lemma_prefixes_exclude(m, "gpt-5.2"@, "gpt-5.6-terra"@, 6);
        lemma_prefixes_exclude(m, "gpt-5.2"@, "gpt-5.6-sol"@, 6);
        lemma_prefixes_exclude(m, "gpt-5.2"@, "gpt-5.5-pro"@, 6);
        lemma_prefixes_exclude(m, "gpt-5.2"@, "gpt-5.5"@, 6);
        lemma_prefixes_exclude(m, "gpt-5.2"@, "gpt-5.4-pro"@, 6);
        lemma_prefixes_exclude(m, "gpt-5.2"@, "gpt-5.4-mini"@, 6);
        lemma_prefixes_exclude(m, "gpt-5.2"@, "gpt-5.4-nano"@, 6);
        lemma_prefixes_exclude(m, "gpt-5.2"@, "gpt-5.4"@, 6);
        lemma_prefixes_exclude(m, "gpt-5.2"@, "gpt-5.6"@, 6);
    }
}

/// Model ids of the `gpt-5-mini` and `gpt-5.1-codex-mini` family, in any ASCII case, have their published rates.
pub proof fn law_mini_models_have_their_published_rates(model: Seq<char>)
    requires
        seq_starts_with(ascii_lower(model), "gpt-5.1-codex-mini"@) || seq_starts_with(ascii_lower(model), "gpt-5-mini"@),
    ensures
        pricing_of(model) == Some(rates(250, Some(25), 2000)),
{
    let m = ascii_lower(model);
    reveal_strlit("codex-mini-latest");
    reveal_strlit("gpt-5-codex");
    reveal_strlit("gpt-5-mini");
    reveal_strlit("gpt-5.1-codex");
    reveal_strlit("gpt-5.1-codex-mini");
    reveal_strlit("gpt-5.2");
    reveal_strlit("gpt-5.2-codex");
    reveal_strlit("gpt-5.3");
    reveal_strlit("gpt-5.3-codex");
    reveal_strlit("gpt-5.4");
    reveal_strlit("gpt-5.4-mini");
    reveal_strlit("gpt-5.4-nano");
    reveal_strlit("gpt-5.4-pro");
    reveal_strlit("gpt-5.5");
    reveal_strlit("gpt-5.5-pro");
    reveal_strlit("gpt-5.6");
    reveal_strlit("gpt-5.6-luna");
    reveal_strlit("gpt-5.6-sol");
    reveal_strlit("gpt-5.6-terra");
    if seq_starts_with(m, "gpt-5.1-codex-mini"@) {
        lemma_prefixes_exclude(m, "gpt-5.1-codex-mini"@, "gpt-5.6-luna"@, 6);
        lemma_prefixes_exclude(m, "gpt-5.1-codex-mini"@, "gpt-5.6-terra"@, 6);
        lemma_prefixes_exclude(m, "gpt-5.1-codex-mini"@, "gpt-5.6-sol"@, 6);
        lemma_prefixes_exclude(m, "gpt-5.1-codex-mini"@, "gpt-5.5-pro"@, 6);
        lemma_prefixes_exclude(m, "gpt-5.1-codex-mini"@, "gpt-5.5"@, 6);
        lemma_prefixes_exclude(m, "gpt-5.1-codex-mini"@, "gpt-5.4-pro"@, 6);
        lemma_prefixes_exclude(m, "gpt-5.1-codex-mini"@, "gpt-5.4-mini"@, 6);
        lemma_prefixes_exclude(m, "gpt-5.1-codex-mini"@, "gpt-5.4-nano"@, 6);
        lemma_prefixes_exclude(m, "gpt-5.1-codex-mini"@, "gpt-5.4"@, 6);
        lemma_prefixes_exclude(m, "gpt-5.1-codex-mini"@, "gpt-5.3-codex"@, 6);
        lemma_prefixes_exclude(m, "gpt-5.1-codex-mini"@, "gpt-5.3"@, 6);
        lemma_prefixes_exclude(m, "gpt-5.1-codex-mini"@, "gpt-5.2-codex"@, 6);
        lemma_prefixes_exclude(m, "gpt-5.1-codex-mini"@, "gpt-5.2"@, 6);
        lemma_prefixes_exclude(m, "gpt-5.1-codex-mini"@, "gpt-5.6"@, 6);
    } else if seq_starts_with(m, "gpt-5-mini"@) {
        lemma_prefixes_exclude(m, "gpt-5-mini"@, "gpt-5.6-luna"@, 5);
        lemma_prefixes_exclude(m, "gpt-5-mini"@, "gpt-5.6-terra"@, 5);
        lemma_prefixes_exclude(m, "gpt-5-mini"@, "gpt-5.6-sol"@, 5);
        lemma_prefixes_exclude(m, "gpt-5-mini"@, "gpt-5.5-pro"@, 5);
        lemma_prefixes_exclude(m, "gpt-5-mini"@, "gpt-5.5"@, 5);
        lemma_prefixes_exclude(m, "gpt-5-mini"@, "gpt-5.4-pro"@, 5);
        lemma_prefixes_exclude(m, "gpt-5-mini"@, "gpt-5.4-mini"@, 5);
        lemma_prefixes_exclude(m, "gpt-5-mini"@, "gpt-5.4-nano"@, 5);
        lemma_prefixes_exclude(m, "gpt-5-mini"@, "gpt-5.4"@, 5);
        lemma_prefixes_exclude(m, "gpt-5-mini"@, "gpt-5.3-codex"@, 5);
        lemma_prefixes_exclude(m, "gpt-5-mini"@, "gpt-5.3"@, 5);
        lemma_prefixes_exclude(m, "gpt-5-mini"@, "gpt-5.2-codex"@, 5);
        lemma_prefixes_exclude(m, "gpt-5-mini"@, "gpt-5.2"@, 5);
        lemma_prefixes_exclude(m, "gpt-5-mini"@, "gpt-5.6"@, 5);
    }
}

/// Model ids of the `gpt-5-codex` and `gpt-5.1-codex` (other than `gpt-5.1-codex-mini`) family, in any ASCII case, have their published rates.
pub proof fn law_codex_models_have_their_published_rates(model: Seq<char>)
    requires
        seq_starts_with(ascii_lower(model), "gpt-5.1-codex"@) || seq_starts_with(ascii_lower(model), "gpt-5-codex"@),
        !seq_starts_with(ascii_lower(model), "gpt-5.1-codex-mini"@),
    ensures
        pricing_of(model) == Some(rates(1250, Some(125), 10000)),
{
    let m = ascii_lower(model);
    reveal_strlit("codex-mini-latest");
    reveal_strlit("gpt-5-codex");
    reveal_strlit("gpt-5-mini");
    reveal_strlit("gpt-5.1-codex");
    reveal_strlit("gpt-5.1-codex-mini");
    reveal_strlit("gpt-5.2");
    reveal_strlit("gpt-5.2-codex");
    reveal_strlit("gpt-5.3");
    reveal_strlit("gpt-5.3-codex");
    reveal_strlit("gpt-5.4");
    reveal_strlit("gpt-5.4-mini");
    reveal_strlit("gpt-5.4-nano");
    reveal_strlit("gpt-5.4-pro");
    reveal_strlit("gpt-5.5");
    reveal_strlit("gpt-5.5-pro");
    reveal_strlit("gpt-5.6");
    reveal_strlit("gpt-5.6-luna");
    reveal_strlit("gpt-5.6-sol");
    reveal_strlit("gpt-5.6-terra");
    if seq_starts_with(m, "gpt-5.1-codex"@) {
        lemma_prefixes_exclude(m, "gpt-5.1-codex"@, "gpt-5.6-luna"@, 6);
        lemma_prefixes_exclude(m, "gpt-5.1-codex"@, "gpt-5.6-terra"@, 6);
        lemma_prefixes_exclude(m, "gpt-5.1-codex"@, "gpt-5.6-sol"@, 6);
        lemma_prefixes_exclude(m, "gpt-5.1-codex"@, "gpt-5.5-pro"@, 6);
        lemma_prefixes_exclude(m, "gpt-5.1-codex"@, "gpt-5.5"@, 6);
        lemma_prefixes_exclude(m, "gpt-5.1-codex"@, "gpt-5.4-pro"@, 6);
        lemma_prefixes_exclude(m, "gpt-5.1-codex"@, "gpt-5.4-mini"@, 6);
        lemma_prefixes_exclude(m, "gpt-5.1-codex"@, "gpt-5.4-nano"@, 6);
        lemma_prefixes_exclude(m, "gpt-5.1-codex"@, "gpt-5.4"@, 6);
        lemma_prefixes_exclude(m, "gpt-5.1-codex"@, "gpt-5.3-codex"@, 6);
        lemma_prefixes_exclude(m, "gpt-5.1-codex"@, "gpt-5.3"@, 6);
        lemma_prefixes_exclude(m, "gpt-5.1-codex"@, "gpt-5.2-codex"@, 6);
        lemma_prefixes_exclude(m, "gpt-5.1-codex"@, "gpt-5.2"@, 6);
        lemma_prefixes_exclude(m, "gpt-5.1-codex"@, "gpt-5-mini"@, 5);
        lemma_prefixes_exclude(m, "gpt-5.1-codex"@, "gpt-5.6"@, 6);
    } else if seq_starts_with(m, "gpt-5-codex"@) {
        lemma_prefixes_exclude(m, "gpt-5-codex"@, "gpt-5.6-luna"@, 5);
        lemma_prefixes_exclude(m, "gpt-5-codex"@, "gpt-5.6-terra"@, 5);
        lemma_prefixes_exclude(m, "gpt-5-codex"@, "gpt-5.6-sol"@, 5);
        lemma_prefixes_exclude(m, "gpt-5-codex"@, "gpt-5.5-pro"@, 5);
        lemma_prefixes_exclude(m, "gpt-5-codex"@, "gpt-5.5"@, 5);
        lemma_prefixes_exclude(m, "gpt-5-codex"@, "gpt-5.4-pro"@, 5);
        lemma_prefixes_exclude(m, "gpt-5-codex"@, "gpt-5.4-mini"@, 5);
        lemma_prefixes_exclude(m, "gpt-5-codex"@, "gpt-5.4-nano"@, 5);
        lemma_prefixes_exclude(m, "gpt-5-codex"@, "gpt-5.4"@, 5);
        lemma_prefixes_exclude(m, "gpt-5-codex"@, "gpt-5.3-codex"@, 5);
        lemma_prefixes_exclude(m, "gpt-5-codex"@, "gpt-5.3"@, 5);
        lemma_prefixes_exclude(m, "gpt-5-codex"@, "gpt-5.2-codex"@, 5);
        lemma_prefixes_exclude(m, "gpt-5-codex"@, "gpt-5.2"@, 5);
        lemma_prefixes_exclude(m, "gpt-5-codex"@, "gpt-5.1-codex-mini"@, 5);
        lemma_prefixes_exclude(m, "gpt-5-codex"@, "gpt-5-mini"@, 6);
        lemma_prefixes_exclude(m, "gpt-5-codex"@, "gpt-5.6"@, 5);
    }
}

/// Model ids of the `codex-mini-latest` family, in any ASCII case, have their published rates.
pub proof fn law_codex_mini_latest_models_have_their_published_rates(model: Seq<char>)
    requires
        seq_starts_with(ascii_lower(model), "codex-mini-latest"@),
    ensures
        pricing_of(model) == Some(rates(1500, Some(375), 6000)),
{
    let m = ascii_lower(model);
    reveal_strlit("codex-mini-latest");
    reveal_strlit("gpt-5-codex");
    reveal_strlit("gpt-5-mini");
    reveal_strlit("gpt-5.1-codex");
    reveal_strlit("gpt-5.1-codex-mini");
    reveal_strlit("gpt-5.2");
    reveal_strlit("gpt-5.2-codex");
    reveal_strlit("gpt-5.3");
    reveal_strlit("gpt-5.3-codex");
    reveal_strlit("gpt-5.4");
    reveal_strlit("gpt-5.4-mini");
    reveal_strlit("gpt-5.4-nano");
    reveal_strlit("gpt-5.4-pro");
    reveal_strlit("gpt-5.5");
    reveal_strlit("gpt-5.5-pro");
    reveal_strlit("gpt-5.6");
    reveal_strlit("gpt-5.6-luna");
    reveal_strlit("gpt-5.6-sol");
    reveal_strlit("gpt-5.6-terra");
    lemma_prefixes_exclude(m, "codex-mini-latest"@, "gpt-5.6-luna"@, 0);
    lemma_prefixes_exclude(m, "codex-mini-latest"@, "gpt-5.6-terra"@, 0);
    lemma_prefixes_exclude(m, "codex-mini-latest"@, "gpt-5.6-sol"@, 0);
    lemma_prefixes_exclude(m, "codex-mini-latest"@, "gpt-5.5-pro"@, 0);
    lemma_prefixes_exclude(m, "codex-mini-latest"@, "gpt-5.5"@, 0);
    lemma_prefixes_exclude(m, "codex-mini-latest"@, "gpt-5.4-pro"@, 0);
    lemma_prefixes_exclude(m, "codex-mini-latest"@, "gpt-5.4-mini"@, 0);
    lemma_prefixes_exclude(m, "codex-mini-latest"@, "gpt-5.4-nano"@, 0);
    lemma_prefixes_exclude(m, "codex-mini-latest"@, "gpt-5.4"@, 0);
    lemma_prefixes_exclude(m, "codex-mini-latest"@, "gpt-5.3-codex"@, 0);
    lemma_prefixes_exclude(m, "codex-mini-latest"@, "gpt-5.3"@, 0);
    lemma_prefixes_exclude(m, "codex-mini-latest"@, "gpt-5.2-codex"@, 0);
    lemma_prefixes_exclude(m, "codex-mini-latest"@, "gpt-5.2"@, 0);
    lemma_prefixes_exclude(m, "codex-mini-latest"@, "gpt-5.1-codex-mini"@, 0);
    lemma_prefixes_exclude(m, "codex-mini-latest"@, "gpt-5-mini"@, 0);
    lemma_prefixes_exclude(m, "codex-mini-latest"@, "gpt-5.1-codex"@, 0);
    lemma_prefixes_exclude(m, "codex-mini-latest"@, "gpt-5-codex"@, 0);
    lemma_prefixes_exclude(m, "codex-mini-latest"@, "gpt-5.6"@, 0);
}

/// The model id `gpt-5.6` itself, in any ASCII case, has the rates of `gpt-5.6-sol`.
pub proof fn law_gpt_5_6_has_its_published_rates(model: Seq<char>)
    requires
        ascii_lower(model) == "gpt-5.6"@,
    ensures
        pricing_of(model) == Some(rates(4000, Some(400), 20000)),
{
    reveal_strlit("gpt-5.6");
    reveal_strlit("gpt-5.6-luna");
    reveal_strlit("gpt-5.6-terra");
}

/// A model id outside every published family has no rates: its usage is not valued.
pub proof fn law_unpublished_models_have_no_rates(model: Seq<char>)
    requires
        !seq_starts_with(ascii_lower(model), "gpt-5.6-luna"@),
        !seq_starts_with(ascii_lower(model), "gpt-5.6-terra"@),
        !seq_starts_with(ascii_lower(model), "gpt-5.6-sol"@),
        !seq_starts_with(ascii_lower(model), "gpt-5.5"@),
        !seq_starts_with(ascii_lower(model), "gpt-5.4"@),
        !seq_starts_with(ascii_lower(model), "gpt-5.3"@),
        !seq_starts_with(ascii_lower(model), "gpt-5.2"@),
        !seq_starts_with(ascii_lower(model), "gpt-5.1-codex"@),
        !seq_starts_with(ascii_lower(model), "gpt-5-mini"@),
        !seq_starts_with(ascii_lower(model), "gpt-5-codex"@),
        !seq_starts_with(ascii_lower(model), "codex-mini-latest"@),
        ascii_lower(model) != "gpt-5.6"@,
    ensures
        pricing_of(model) is None,
{
    let m = ascii_lower(model);
    reveal_strlit("gpt-5.1-codex");
    reveal_strlit("gpt-5.1-codex-mini");
    reveal_strlit("gpt-5.2");
    reveal_strlit("gpt-5.2-codex");
    reveal_strlit("gpt-5.3");
    reveal_strlit("gpt-5.3-codex");
    reveal_strlit("gpt-5.4");
    reveal_strlit("gpt-5.4-mini");
    reveal_strlit("gpt-5.4-nano");
    reveal_strlit("gpt-5.4-pro");
    reveal_strlit("gpt-5.5");
    reveal_strlit("gpt-5.5-pro");
    assert(("gpt-5.5-pro"@).take(("gpt-5.5"@).len() as int) =~= "gpt-5.5"@);
    if seq_starts_with(m, "gpt-5.5-pro"@) {
        lemma_longer_prefix(m, "gpt-5.5"@, "gpt-5.5-pro"@);
    }
    assert(("gpt-5.4-pro"@).take(("gpt-5.4"@).len() as int) =~= "gpt-5.4"@);
    if seq_starts_with(m, "gpt-5.4-pro"@) {
        lemma_longer_prefix(m, "gpt-5.4"@, "gpt-5.4-pro"@);
    }
    assert(("gpt-5.4-mini"@).take(("gpt-5.4"@).len() as int) =~= "gpt-5.4"@);
    if seq_starts_with(m, "gpt-5.4-mini"@) {
        lemma_longer_prefix(m, "gpt-5.4"@, "gpt-5.4-mini"@);
    }
    assert(("gpt-5.4-nano"@).take(("gpt-5.4"@).len() as int) =~= "gpt-5.4"@);
    if seq_starts_with(m, "gpt-5.4-nano"@) {
        lemma_longer_prefix(m, "gpt-5.4"@, "gpt-5.4-nano"@);
    }
    assert(("gpt-5.3-codex"@).take(("gpt-5.3"@).len() as int) =~= "gpt-5.3"@);
    if seq_starts_with(m, "gpt-5.3-codex"@) {
        lemma_longer_prefix(m, "gpt-5.3"@, "gpt-5.3-codex"@);
    }
    assert(("gpt-5.2-codex"@).take(("gpt-5.2"@).len() as int) =~= "gpt-5.2"@);
    if seq_starts_with(m, "gpt-5.2-codex"@) {
        lemma_longer_prefix(m, "gpt-5.2"@, "gpt-5.2-codex"@);
    }
    assert(("gpt-5.1-codex-mini"@).take(("gpt-5.1-codex"@).len() as int) =~= "gpt-5.1-codex"@);
    if seq_starts_with(m, "gpt-5.1-codex-mini"@) {
        lemma_longer_prefix(m, "gpt-5.1-codex"@, "gpt-5.1-codex-mini"@);
    }
}

/// A text that starts with a longer prefix starts with each shorter prefix of it.
proof fn lemma_longer_prefix(m: Seq<char>, short: Seq<char>, long: Seq<char>)
    requires
        seq_starts_with(m, long),
        seq_starts_with(long, short),
    ensures
        seq_starts_with(m, short),
{
    assert(m.take(short.len() as int) =~= long.take(short.len() as int));
}

/// Without a cached-input rate, cached input costs what any input costs: the value is the
/// input at the input rate and the output at the output rate, however much input was cached.
pub proof fn law_without_a_cached_rate_cached_input_costs_as_input(usage: ModelUsage, p: ModelPricing)
    requires
        p.cached_input_mills_per_million is None,
    ensures
        value_of(usage, p) == usage.input * p.input_mills_per_million + usage.output * p.output_mills_per_million,
{
    let cached = if or_zero(usage.cached_input) < usage.input { or_zero(usage.cached_input) } else { usage.input as int };
    let i = p.input_mills_per_million as int;
    assert((usage.input - cached) * i + cached * i == usage.input * i) by (nonlinear_arith);
}

/// Values add up: where neither usage reports more cached than total input, the value of
/// their sum is the sum of their values.
pub proof fn law_values_add_up(a: ModelUsage, b: ModelUsage, p: ModelPricing)
    requires
        or_zero(a.cached_input) <= a.input,
        or_zero(b.cached_input) <= b.input,
        sum_fits(a, b),
    ensures
        value_of(usage_sum(a, b), p) == value_of(a, p) + value_of(b, p),
{
    let s = usage_sum(a, b);
    let ca = or_zero(a.cached_input);
    let cb = or_zero(b.cached_input);
    assert(or_zero(s.cached_input) == ca + cb);
    let i = p.input_mills_per_million as int;
    let o = p.output_mills_per_million as int;
    let c = match p.cached_input_mills_per_million {
        Some(r) => r as int,
        None => i,
    };
    let ai = a.input as int;
    let bi = b.input as int;
    let ao = a.output as int;
    let bo = b.output as int;
    assert((ai + bi - (ca + cb)) * i + (ca + cb) * c + (ao + bo) * o
        == ((ai - ca) * i + ca * c + ao * o) + ((bi - cb) * i + cb * c + bo * o)) by (nonlinear_arith);
    if ca + cb == ai + bi {
        assert(ca == ai && cb == bi);
    }
}

} // verus!
