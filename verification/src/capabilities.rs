//! What the upstreams are known to take.

use vstd::prelude::*;

use crate::text;

verus! {

/// The largest `max_tokens` that MiniMax takes.
pub const MINIMAX_MAX_TOKENS_CAP: u32 = 524_288;

/// The largest `max_tokens` that DeepSeek takes.
pub const DEEPSEEK_MAX_TOKENS_CAP: u32 = 393_216;

/// The largest `max_tokens` that OpenCode Go takes.
pub const OPENCODE_GO_MAX_TOKENS_CAP: u32 = 16_384;

/// The capability profile that a provider goes by.
#[derive(Debug, Clone, Copy, PartialEq, Eq, Structural)]
pub enum ProviderCapabilities {
    Minimax,
    Mock,
    DeepSeek,
    OpenAiCompat,
    OpenCodeGoResponses,
}

/// The models that answer in prose when asked for JSON output mode.
pub open spec fn skips_response_format(model: Seq<char>) -> bool {
    ||| model == "glm-5.1"@
    ||| model == "glm-5.2"@
    ||| model == "kimi-k2.6"@
    ||| model == "kimi-k2.7-code"@
    ||| model == "deepseek-v4-pro"@
    ||| model == "kimi-k3"@
}

/// Whether `model` must not be asked for JSON output mode.
pub fn model_skips_response_format(model: &str) -> (r: bool)
    ensures
        r == skips_response_format(model@),
{
    text::str_eq(model, "glm-5.1") || text::str_eq(model, "glm-5.2") || text::str_eq(
        model,
        "kimi-k2.6",
    ) || text::str_eq(model, "kimi-k2.7-code") || text::str_eq(model, "deepseek-v4-pro")
        || text::str_eq(model, "kimi-k3")
}

/// JSON output mode is kept from two models of the GLM family, from the Kimi
/// models, and from the larger DeepSeek model; their names count as they are.
pub proof fn law_models_without_json_mode(model: Seq<char>)
    ensures
        skips_response_format("kimi-"@ + model) <==> (model == "k2.6"@ || model == "k2.7-code"@
            || model == "k3"@),
        skips_response_format("glm-"@ + model) <==> (model == "5.1"@ || model == "5.2"@),
        skips_response_format("deepseek-"@ + model) <==> model == "v4-pro"@,
        skips_response_format(model) ==> text::has_prefix(model, "kimi-"@) || text::has_prefix(
            model,
            "glm-"@,
        ) || text::has_prefix(model, "deepseek-"@),
{
    reveal_strlit("kimi-");
    reveal_strlit("glm-");
    reveal_strlit("deepseek-");
    reveal_strlit("k2.6");
    reveal_strlit("k2.7-code");
    reveal_strlit("k3");
    reveal_strlit("5.1");
    reveal_strlit("5.2");
    reveal_strlit("v4-pro");
    reveal_strlit("glm-5.1");
    reveal_strlit("glm-5.2");
    reveal_strlit("kimi-k2.6");
    reveal_strlit("kimi-k2.7-code");
    reveal_strlit("deepseek-v4-pro");
    reveal_strlit("kimi-k3");
    let k = "kimi-"@ + model;
    let g = "glm-"@ + model;
    let d = "deepseek-"@ + model;
    assert(k[0] == 'k' && g[0] == 'g' && d[0] == 'd');
    assert(k.skip(5) =~= model && g.skip(4) =~= model && d.skip(9) =~= model);
    assert("kimi-k2.6"@ =~= "kimi-"@ + "k2.6"@);
    assert("kimi-k2.7-code"@ =~= "kimi-"@ + "k2.7-code"@);
    assert("kimi-k3"@ =~= "kimi-"@ + "k3"@);
    assert("glm-5.1"@ =~= "glm-"@ + "5.1"@);
    assert("glm-5.2"@ =~= "glm-"@ + "5.2"@);
    assert("deepseek-v4-pro"@ =~= "deepseek-"@ + "v4-pro"@);
    assert("kimi-k2.6"@.skip(5) =~= "k2.6"@);
    assert("kimi-k2.7-code"@.skip(5) =~= "k2.7-code"@);
    assert("kimi-k3"@.skip(5) =~= "k3"@);
    assert("glm-5.1"@.skip(4) =~= "5.1"@);
    assert("glm-5.2"@.skip(4) =~= "5.2"@);
    assert("deepseek-v4-pro"@.skip(9) =~= "v4-pro"@);
    assert("kimi-k2.6"@.take(5) =~= "kimi-"@);
    assert("kimi-k2.7-code"@.take(5) =~= "kimi-"@);
    assert("kimi-k3"@.take(5) =~= "kimi-"@);
    assert("glm-5.1"@.take(4) =~= "glm-"@);
    assert("glm-5.2"@.take(4) =~= "glm-"@);
    assert("deepseek-v4-pro"@.take(9) =~= "deepseek-"@);
}

/// The largest values that the upstreams take.
pub proof fn law_upstream_caps()
    ensures
        MINIMAX_MAX_TOKENS_CAP == 512 * 1024,
        DEEPSEEK_MAX_TOKENS_CAP == 384 * 1024,
        OPENCODE_GO_MAX_TOKENS_CAP == 16 * 1024,
{
}

} // verus!
