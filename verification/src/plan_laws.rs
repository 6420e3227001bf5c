//! How a request goes out: what stands in its body, under which ceiling, and
//! how often it is tried; and how the providers are set up.

use std::sync::Arc;

use vstd::prelude::*;
use vstd::string::*;

use crate::capabilities;
use crate::config::{ProviderConfig, ResolvedModelConfig, SectionConfig};
use crate::endpoints;
use crate::error::Error;
use crate::json_strategy;
use crate::max_tokens;
use crate::messages_wire::MessagesRequest;
use crate::minimax::MinimaxProvider;
use crate::openai_compat;
use crate::openai_compat::OpenAICompatProvider;
use crate::openai_compatible;
use crate::openai_compatible::{ChatRequest, OpenAICompatibleProvider};
use crate::opencode_go;
use crate::opencode_go::{OpenCodeGoProvider, Routed};
use crate::opencode_go_anthropic::OpenCodeGoAnthropicProvider;
use crate::opencode_go_anthropic;
use crate::opencode_go_responses;
use crate::opencode_go_responses::OpenCodeGoResponsesProvider;
use crate::probe_table::MaxTokensTable;
use crate::provider::Provider;
use crate::role;
use crate::text;
use crate::text_laws;
use crate::transport::SendPlan;
use crate::wire::{Message, Request, Response};

verus! {

// ---------------------------------------------------------------------------
// What stands in the body
// ---------------------------------------------------------------------------

/// `m` is a message of that role and content.
pub open spec fn says(m: Message, role: Seq<char>, content: Seq<char>) -> bool {
    m.role@ == role && m.content@ == content
}

/// What the request adds stands in `messages` from `at` on, as it is.
pub open spec fn goes_on(messages: Seq<Message>, at: int, added: Seq<Message>) -> bool {
    &&& messages.len() == at + added.len()
    &&& forall|i: int|
        0 <= i < added.len() ==> (#[trigger] messages[at + i]).role@ == added[i].role@
            && messages[at + i].content@ == added[i].content@
}

proof fn lemma_turn(messages: Seq<Message>, i: int)
    requires
        0 <= i < messages.len(),
    ensures
        openai_compatible::turns(messages).len() == messages.len(),
        openai_compatible::turns(messages)[i] == (messages[i].role@, messages[i].content@),
{
}

/// A chat request carries the model of its provider, the system and the user
/// message, then what the request adds. The reply is begun with a brace only
/// for the two models that are led into JSON, and only where the request adds
/// nothing. It does not stream, and its knobs are those of the request. JSON
/// output mode is asked for where the role needs JSON and the model takes the
/// mode.
pub proof fn law_chat_body(
    p: OpenAICompatibleProvider,
    plan: SendPlan<ChatRequest>,
    req: Request,
    env: Option<Seq<char>>,
    probe: bool,
)
    requires
        p.is_plan(plan, req, env, probe),
    ensures
        plan.url@ == endpoints::chat_address(p.endpoint@),
        plan.body.model@ == p.model@,
        plan.body.temperature == req.temperature,
        plan.body.top_p == req.top_p,
        !plan.body.stream,
        plan.body.messages@.len() >= 2,
        says(plan.body.messages@[0], "system"@, req.system@),
        says(plan.body.messages@[1], "user"@, req.user@),
        req.extra_messages@.len() > 0 ==> goes_on(
            plan.body.messages@,
            2,
            req.extra_messages@,
        ),
        req.extra_messages@.len() == 0 ==> ({
            let led = text::lower(p.model@) == "deepseek-v4-pro"@ || text::lower(p.model@)
                == "deepseek-v4-flash"@;
            &&& plan.body.messages@.len() == if led {
                3int
            } else {
                2int
            }
            &&& led ==> says(plan.body.messages@[2], "assistant"@, "{"@)
        }),
        plan.body.response_format is Some <==> role::json_role(req.role)
            && !capabilities::skips_response_format(p.model@),
        plan.body.response_format matches Some(f) ==> f.kind@ == "json_object"@,
{
    json_strategy::law_strategies(p.model@);
    let m = plan.body.messages@;
    let t = openai_compatible::turns(m);
    assert(t.len() == m.len());
    assert(t == openai_compatible::conversation(req, p.model@));
    assert(m.len() >= 2);
    lemma_turn(m, 0);
    lemma_turn(m, 1);
    if req.extra_messages@.len() > 0 {
        openai_compatible::law_extra_messages_win(req, p.model@);
        assert forall|i: int| 0 <= i < req.extra_messages@.len() implies (#[trigger] m[2 + i]).role@
            == req.extra_messages@[i].role@ && m[2 + i].content@ == req.extra_messages@[i].content@
            by {
            lemma_turn(m, 2 + i);
            assert(openai_compatible::conversation(req, p.model@)[2 + i] == t[2 + i]);
        }
    } else if m.len() > 2 {
        lemma_turn(m, 2);
    }
}

/// A request to the Messages interface carries the model of the request, the
/// system text apart from the messages, the user's message and what the
/// request adds. Where it adds nothing, the reply is begun with a brace for
/// the roles that need JSON.
pub proof fn law_messages_body(body: MessagesRequest, req: Request, max_tokens: Option<u32>)
    requires
        crate::messages_wire::is_body(body, req, max_tokens),
    ensures
        body.model@ == req.model@,
        body.system@ == req.system@,
        body.max_tokens == max_tokens,
        body.temperature == req.temperature,
        body.top_p == req.top_p,
        body.messages@.len() >= 1,
        says(body.messages@[0], "user"@, req.user@),
        req.extra_messages@.len() > 0 ==> goes_on(body.messages@, 1, req.extra_messages@),
        req.extra_messages@.len() == 0 ==> ({
            &&& body.messages@.len() == if role::json_role(req.role) {
                2int
            } else {
                1int
            }
            &&& role::json_role(req.role) ==> says(body.messages@[1], "assistant"@, "{"@)
        }),
{
    let m = body.messages@;
    let t = openai_compatible::turns(m);
    assert(t.len() == m.len());
    lemma_turn(m, 0);
    if req.extra_messages@.len() > 0 {
        crate::messages_wire::law_extra_messages_win(req);
        assert forall|i: int| 0 <= i < req.extra_messages@.len() implies (#[trigger] m[1 + i]).role@
            == req.extra_messages@[i].role@ && m[1 + i].content@ == req.extra_messages@[i].content@
            by {
            lemma_turn(m, 1 + i);
            assert(crate::messages_wire::conversation(req)[1 + i] == t[1 + i]);
        }
    } else if m.len() > 1 {
        lemma_turn(m, 1);
    }
}

/// A request to the Responses interface carries the model of its provider, the
/// system text as instructions, the user's text as input and the knobs of the
/// request; it streams where the request does. JSON output mode is asked for
/// where the role needs JSON and the model takes the mode.
pub proof fn law_responses_body(
    one: openai_compat::ResponsesRequest,
    two: opencode_go_responses::ResponsesRequest,
    req: Request,
    model: Seq<char>,
    stream: bool,
    max_tokens: Option<u32>,
)
    requires
        openai_compat::is_body(one, req, model, stream, max_tokens),
        opencode_go_responses::is_body(two, req, model, stream, max_tokens),
    ensures
        one.model@ == model && two.model@ == model,
        one.instructions == Some(req.system) && two.instructions == Some(req.system),
        one.input@ == req.user@ && two.input@ == req.user@,
        one.max_tokens == max_tokens && two.max_tokens == max_tokens,
        one.temperature == req.temperature && two.temperature == req.temperature,
        one.top_p == req.top_p && two.top_p == req.top_p,
        one.stream == stream && two.stream == stream,
        one.text is Some <==> role::json_role(req.role) && !capabilities::skips_response_format(
            model,
        ),
        two.response_format is Some <==> role::json_role(req.role)
            && !capabilities::skips_response_format(model),
        one.text matches Some(t) ==> t.format.kind@ == "json_object"@,
        two.response_format matches Some(f) ==> f.kind@ == "json_object"@,
{
}

// ---------------------------------------------------------------------------
// Ceilings and attempts
// ---------------------------------------------------------------------------

/// What a table remembers of a model, if there is one.
pub open spec fn remembered(
    table: Option<Arc<MaxTokensTable>>,
    name: Seq<char>,
    model: Seq<char>,
) -> Option<u32> {
    match table {
        Some(t) => t.remembered(name, model),
        None => None,
    }
}

/// `c` is the smallest of what is asked for and of the caps that there are.
pub open spec fn is_smallest(
    c: u32,
    asked: u32,
    a: Option<u32>,
    b: Option<u32>,
    last: u32,
) -> bool {
    &&& c <= asked && c <= last
    &&& a matches Some(n) ==> c <= n
    &&& b matches Some(n) ==> c <= n
    &&& c == asked || c == last || a == Some(c) || b == Some(c)
}

/// A MiniMax call goes out under the smallest of what it asks for, the
/// operator's cap, what the table remembers and what MiniMax takes, and is
/// tried as often as the provider allows. A probe goes out as it is, once. A
/// request without a ceiling goes out without one.
pub proof fn law_minimax_plan(
    p: MinimaxProvider,
    plan: SendPlan<MessagesRequest>,
    req: Request,
    probe: bool,
)
    requires
        p.is_plan(plan, req, probe),
    ensures
        plan.url@ == endpoints::messages_address(p.endpoint@),
        req.max_tokens is None ==> plan.body.max_tokens is None,
        probe ==> plan.body.max_tokens == req.max_tokens && plan.max_retries == 0,
        !probe ==> plan.max_retries == p.max_retries,
        !probe && req.max_tokens is Some ==> (plan.body.max_tokens matches Some(c) && is_smallest(
            c,
            req.max_tokens->0,
            p.provider_max_tokens,
            remembered(p.max_tokens_table, p.name@, p.model@),
            524_288,
        )),
        p.probe_limit() == 524_288,
{
}

/// A call to the Responses interface goes out under the smallest of what it
/// asks for, the operator's cap and what the table remembers; a probe under
/// what it asks for, from 1024 on. The field can be left out altogether.
/// Probes and streams are tried once.
pub proof fn law_responses_plan(
    p: OpenAICompatProvider,
    plan: SendPlan<openai_compat::ResponsesRequest>,
    req: Request,
    probe: bool,
)
    requires
        p.is_plan(plan, req, probe),
    ensures
        plan.url@ == endpoints::responses_address(p.endpoint@),
        plan.body.stream == req.stream,
        plan.body.max_tokens is None <==> p.omit_max_tokens || req.max_tokens is None,
        !p.omit_max_tokens && probe ==> (req.max_tokens matches Some(n) ==> plan.body.max_tokens
            == Some(
            if n <= 1024 {
                1024u32
            } else {
                n
            },
        )),
        !p.omit_max_tokens && !probe && req.max_tokens is Some ==> (
        plan.body.max_tokens matches Some(c) && is_smallest(
            c,
            req.max_tokens->0,
            p.provider_max_tokens,
            remembered(p.max_tokens_table, p.name@, p.model@),
            u32::MAX,
        )),
        plan.max_retries == if probe || req.stream {
            0
        } else {
            p.max_retries
        },
{
}

/// A call to OpenCode Go's Responses interface goes out under the smallest of
/// what it asks for, the operator's cap, what the table remembers and what
/// OpenCode Go takes. The field can be left out altogether. Streams are tried
/// once.
pub proof fn law_go_responses_plan(
    p: OpenCodeGoResponsesProvider,
    plan: SendPlan<opencode_go_responses::ResponsesRequest>,
    req: Request,
)
    requires
        p.is_plan(plan, req),
    ensures
        plan.url@ == endpoints::responses_address(p.endpoint@),
        plan.body.stream == req.stream,
        plan.body.max_tokens is None <==> p.omit_max_tokens || req.max_tokens is None,
        !p.omit_max_tokens && req.max_tokens is Some ==> (plan.body.max_tokens matches Some(c)
            && is_smallest(
            c,
            req.max_tokens->0,
            p.provider_max_tokens,
            remembered(p.max_tokens_table, p.name@, p.model@),
            16_384,
        )),
        plan.max_retries == if req.stream {
            0
        } else {
            p.max_retries
        },
        p.probe_limit() == 16_384,
{
}

/// A call to OpenCode Go's Messages interface goes out under the smaller of
/// what it asks for and what OpenCode Go takes.
pub proof fn law_go_messages_plan(
    p: OpenCodeGoAnthropicProvider,
    plan: SendPlan<MessagesRequest>,
    req: Request,
)
    requires
        p.is_plan(plan, req),
    ensures
        plan.url@ == endpoints::messages_address(p.endpoint@),
        req.max_tokens is None ==> plan.body.max_tokens is None,
        req.max_tokens is Some ==> (plan.body.max_tokens matches Some(c) && is_smallest(
            c,
            req.max_tokens->0,
            None,
            None,
            16_384,
        )),
        plan.max_retries == p.max_retries,
        p.probe_limit() == 16_384,
{
}

/// A chat call goes out under what it asks for, cut to the ceiling that the
/// layers set; a probe under what it asks for, from 1024 on. A useful number
/// in the environment wins over everything but the request. A value that the
/// table remembers wins over the caps.
pub proof fn law_chat_plan(
    p: OpenAICompatibleProvider,
    plan: SendPlan<ChatRequest>,
    req: Request,
    env: Option<Seq<char>>,
    probe: bool,
)
    requires
        p.is_plan(plan, req, env, probe),
    ensures
        plan.body.max_tokens is None <==> req.max_tokens is None,
        probe ==> (req.max_tokens matches Some(n) ==> plan.body.max_tokens == Some(
            if n <= 1024 {
                1024u32
            } else {
                n
            },
        )),
        plan.max_retries == if probe {
            0
        } else {
            p.max_retries
        },
        !probe && req.max_tokens is Some ==> ({
            let c = plan.body.max_tokens->0;
            let asked = req.max_tokens->0;
            let known = remembered(p.max_tokens_table, p.name@, p.model@);
            let set = max_tokens::env_cap(env);
            &&& c <= asked
            &&& set matches Some(n) ==> c == asked || c == n
            &&& set matches Some(n) ==> c <= n
            &&& set is None && known is Some && known->0 >= 1024 ==> c <= known->0 && (c == asked || c
                == known->0 || c == 1_073_741_824)
            &&& set is None && !(known is Some && known->0 >= 1024) ==> {
                &&& p.provider_max_tokens matches Some(n) ==> c <= n || c <= 1024
                &&& p.kind_hard_cap matches Some(n) ==> c <= n || c <= 1024
                &&& p.provider_max_tokens is None && p.kind_hard_cap is None ==> c == asked || c
                    == 1_000_000
                &&& c == asked || p.provider_max_tokens == Some(c) || p.kind_hard_cap == Some(c) || c
                    == 1024 || c == 1_073_741_824 || c == 1_000_000
            }
        }),
        p.probe_limit() == match p.kind_hard_cap {
            Some(cap) => cap,
            None => 1_073_741_824,
        },
{
    let known = remembered(p.max_tokens_table, p.name@, p.model@);
    max_tokens::law_layers(env, known, p.provider_max_tokens, p.kind_hard_cap);
}

// ---------------------------------------------------------------------------
// Setting up
// ---------------------------------------------------------------------------

/// The three providers that a section with a list of models can set up take
/// its first model: the model's name and its ceiling, and its address before
/// that of the section. Each allows three attempts and begins without a table.
pub proof fn law_section_set_up(
    spec: ProviderConfig,
    key: Seq<char>,
    cap: Option<u32>,
    chat: OpenAICompatibleProvider,
    responses: OpenAICompatProvider,
    minimax: MinimaxProvider,
)
    requires
        spec.models@.len() > 0,
        chat.is_set_up(spec, key, cap),
        responses.is_set_up(spec, key),
        minimax.is_set_up(spec, key),
    ensures
        chat.model@ == spec.models@[0].id@ && chat.name@ == spec.models@[0].id@,
        responses.model@ == spec.models@[0].id@ && responses.name@ == spec.models@[0].id@,
        minimax.model@ == spec.models@[0].id@ && minimax.name@ == "minimax"@,
        spec.models@[0].endpoint matches Some(e) ==> chat.endpoint@ == e@ && responses.endpoint@
            == e@ && minimax.endpoint@ == e@,
        spec.models@[0].endpoint is None ==> (spec.endpoint matches Some(e) ==> chat.endpoint@ == e@
            && responses.endpoint@ == e@),
        spec.models@[0].endpoint is None ==> minimax.endpoint@
            == "https://api.minimax.io/anthropic/v1/messages"@,
        chat.provider_max_tokens == spec.models@[0].max_tokens,
        responses.provider_max_tokens == spec.models@[0].max_tokens,
        minimax.provider_max_tokens == spec.models@[0].max_tokens,
        chat.kind_hard_cap == cap,
        responses.omit_max_tokens == spec.omit_max_tokens,
        chat.max_retries == 3 && responses.max_retries == 3 && minimax.max_retries == 3,
        chat.api_key@ == key && responses.api_key@ == key && minimax.api_key@ == key,
        chat.max_tokens_table is None && responses.max_tokens_table is None
            && minimax.max_tokens_table is None,
        minimax.breaker.failures == 0 && minimax.breaker.threshold == 5,
{
}

/// A section that lists no model sets up providers under fixed names, at the
/// section's address.
pub proof fn law_empty_section_set_up(
    spec: ProviderConfig,
    key: Seq<char>,
    cap: Option<u32>,
    chat: OpenAICompatibleProvider,
    responses: OpenAICompatProvider,
    minimax: MinimaxProvider,
)
    requires
        spec.models@.len() == 0,
        chat.is_set_up(spec, key, cap),
        responses.is_set_up(spec, key),
        minimax.is_set_up(spec, key),
    ensures
        chat.name@ == "openai_compat"@ && responses.name@ == "openai_compat"@ && minimax.name@
            == "minimax"@,
        chat.model@ == ""@ && responses.model@ == ""@ && minimax.model@ == "MiniMax-M3"@,
        spec.endpoint matches Some(e) ==> chat.endpoint@ == e@ && responses.endpoint@ == e@
            && minimax.endpoint@ == e@,
        spec.endpoint is None ==> chat.endpoint@ == "http://localhost"@ && responses.endpoint@
            == "http://localhost"@ && minimax.endpoint@
            == "https://api.minimax.io/anthropic/v1/messages"@,
        chat.provider_max_tokens is None && responses.provider_max_tokens is None
            && minimax.provider_max_tokens is None,
{
}

/// The providers for a resolved model take its settings as they are.
pub proof fn law_resolved_set_up(
    resolved: ResolvedModelConfig,
    key: Seq<char>,
    chat: OpenAICompatibleProvider,
    responses: OpenAICompatProvider,
    minimax: MinimaxProvider,
)
    requires
        chat.is_resolved(resolved, key),
        responses.is_resolved(resolved, key),
        minimax.is_resolved(resolved, key),
    ensures
        chat.name@ == resolved.section@ && responses.name@ == resolved.section@ && minimax.name@
            == resolved.section@,
        chat.model@ == resolved.id@ && responses.model@ == resolved.id@ && minimax.model@
            == resolved.id@,
        chat.endpoint@ == resolved.endpoint@ && responses.endpoint@ == resolved.endpoint@
            && minimax.endpoint@ == resolved.endpoint@,
        chat.provider_max_tokens == resolved.max_tokens && responses.provider_max_tokens
            == resolved.max_tokens && minimax.provider_max_tokens == resolved.max_tokens,
        responses.omit_max_tokens == resolved.omit_max_tokens,
        chat.kind_hard_cap is None,
        chat.max_retries == 3 && responses.max_retries == 3 && minimax.max_retries == 3,
        chat.api_key@ == key && responses.api_key@ == key && minimax.api_key@ == key,
        minimax.breaker.failures == 0 && minimax.breaker.threshold == 5,
{
}

// ---------------------------------------------------------------------------
// OpenCode Go
// ---------------------------------------------------------------------------

/// The models that OpenCode Go serves by chat completions.
pub open spec fn is_chat_model(m: Seq<char>) -> bool {
    ||| m == "glm-5.1"@ || m == "glm-5.2"@
    ||| m == "kimi-k3"@ || m == "kimi-k2.7-code"@ || m == "kimi-k2.6"@
    ||| m == "deepseek-v4-pro"@ || m == "deepseek-v4-flash"@
    ||| m == "mimo-v2.5"@ || m == "mimo-v2.5-pro"@
    ||| m == "hy3"@
}

/// The models of the Qwen family that OpenCode Go serves.
pub open spec fn is_qwen_model(m: Seq<char>) -> bool {
    m == "qwen3.8-max"@ || m == "qwen3.7-max"@ || m == "qwen3.7-plus"@ || m == "qwen3.6-plus"@
}

/// The models of the MiniMax family that OpenCode Go serves.
pub open spec fn is_minimax_model(m: Seq<char>) -> bool {
    m == "minimax-m3"@ || m == "minimax-m2.7"@ || m == "minimax-m2.5"@
}

/// Which interface serves which model. The MiniMax models are served, but not
/// to be used.
pub proof fn law_roster(m: Seq<char>)
    ensures
        opencode_go::path_of(m) == Some("chat/completions"@) <==> is_chat_model(m),
        opencode_go::path_of(m) == Some("messages"@) <==> is_qwen_model(m) || is_minimax_model(m),
        opencode_go::path_of(m) == Some("responses"@) <==> m == "gpt-5.6-luna"@,
        opencode_go::path_of(m) is Some ==> is_chat_model(m) || is_qwen_model(m) || is_minimax_model(
            m,
        ) || m == "gpt-5.6-luna"@,
        opencode_go::blocked(m) <==> is_minimax_model(m),
{
    lemma_paths_differ();
    reveal_strlit("glm-5.1");
    reveal_strlit("glm-5.2");
    reveal_strlit("kimi-k3");
    reveal_strlit("kimi-k2.7-code");
    reveal_strlit("kimi-k2.6");
    reveal_strlit("deepseek-v4-pro");
    reveal_strlit("deepseek-v4-flash");
    reveal_strlit("mimo-v2.5");
    reveal_strlit("mimo-v2.5-pro");
    reveal_strlit("hy3");
    reveal_strlit("qwen3.8-max");
    reveal_strlit("qwen3.7-max");
    reveal_strlit("qwen3.7-plus");
    reveal_strlit("qwen3.6-plus");
    reveal_strlit("minimax-m3");
    reveal_strlit("minimax-m2.7");
    reveal_strlit("minimax-m2.5");
    reveal_strlit("gpt-5.6-luna");
    assert("glm-5.1"@.len() == 7 && "glm-5.2"@.len() == 7 && "gpt-5.6-luna"@.len() == 12);
    assert("glm-5.1"@[0] == 'g' && "glm-5.2"@[0] == 'g' && "gpt-5.6-luna"@[0] == 'g');
    assert("kimi-k3"@[0] == 'k' && "kimi-k2.7-code"@[0] == 'k' && "kimi-k2.6"@[0] == 'k');
    assert("deepseek-v4-pro"@[0] == 'd' && "deepseek-v4-flash"@[0] == 'd' && "hy3"@[0] == 'h');
    assert("mimo-v2.5"@[2] == 'm' && "mimo-v2.5-pro"@[2] == 'm');
    assert("mimo-v2.5"@[0] == 'm' && "mimo-v2.5-pro"@[0] == 'm');
    assert("minimax-m3"@[2] == 'n' && "minimax-m2.7"@[2] == 'n' && "minimax-m2.5"@[2] == 'n');
    assert("minimax-m3"@[0] == 'm' && "minimax-m2.7"@[0] == 'm' && "minimax-m2.5"@[0] == 'm');
    assert("qwen3.8-max"@[0] == 'q' && "qwen3.7-max"@[0] == 'q');
    assert("qwen3.7-plus"@[0] == 'q' && "qwen3.6-plus"@[0] == 'q');
}

/// A section sets up a provider just where its kind is right and its model is
/// on the roster and not blocked. The interface that serves the model is the
/// one that is set up, with the settings of the section.
pub proof fn law_go_set_up(p: OpenCodeGoProvider, spec: SectionConfig, key: Seq<char>)
    ensures
        OpenCodeGoProvider::is_usable(spec) <==> spec.kind@ == "opencode_go"@ && (is_chat_model(
            spec.model@,
        ) || is_qwen_model(spec.model@) || spec.model@ == "gpt-5.6-luna"@),
        p.is_set_up(spec, key) ==> {
            &&& p.inner is Chat <==> is_chat_model(spec.model@)
            &&& p.inner is Responses <==> spec.model@ == "gpt-5.6-luna"@
            &&& p.inner is Messages <==> is_qwen_model(spec.model@) || is_minimax_model(spec.model@)
            &&& match p.inner {
                Routed::Chat(q) => q.name@ == "opencode_go"@ && q.model@ == spec.model@ && q.api_key@
                    == key && q.max_retries == 3 && q.provider_max_tokens == spec.max_tokens
                    && q.kind_hard_cap == Some(16_384u32) && q.max_tokens_table is None,
                Routed::Messages(q) => q.name@ == "opencode_go"@ && q.model@ == spec.model@
                    && q.api_key@ == key && q.max_retries == 3,
                Routed::Responses(q) => q.name@ == "opencode_go"@ && q.model@ == spec.model@
                    && q.api_key@ == key && q.max_retries == 3 && q.provider_max_tokens
                    == spec.max_tokens && q.omit_max_tokens == spec.omit_max_tokens
                    && q.max_tokens_table is None,
            }
        },
{
    law_roster(spec.model@);
    lemma_families_differ(spec.model@);
    lemma_paths_differ();
}

proof fn lemma_paths_differ()
    ensures
        "chat/completions"@ != "messages"@,
        "chat/completions"@ != "responses"@,
        "messages"@ != "responses"@,
{
    reveal_strlit("chat/completions");
    reveal_strlit("messages");
    reveal_strlit("responses");
    assert("chat/completions"@.len() == 16 && "messages"@.len() == 8 && "responses"@.len() == 9);
}

proof fn lemma_families_differ(m: Seq<char>)
    ensures
        is_minimax_model(m) ==> !is_chat_model(m) && !is_qwen_model(m) && m != "gpt-5.6-luna"@,
{
    law_roster(m);
    lemma_paths_differ();
    reveal_strlit("qwen3.8-max");
    reveal_strlit("qwen3.7-max");
    reveal_strlit("qwen3.7-plus");
    reveal_strlit("qwen3.6-plus");
    reveal_strlit("minimax-m3");
    reveal_strlit("minimax-m2.7");
    reveal_strlit("minimax-m2.5");
    assert("qwen3.8-max"@[0] == 'q' && "qwen3.7-max"@[0] == 'q');
    assert("qwen3.7-plus"@[0] == 'q' && "qwen3.6-plus"@[0] == 'q');
    assert("minimax-m3"@[0] == 'm' && "minimax-m2.7"@[0] == 'm' && "minimax-m2.5"@[0] == 'm');
}

/// Why a section sets up no provider: first for its kind, then for a model
/// that is blocked, then for one that is not on the roster. The error names
/// what is wrong.
pub proof fn law_go_refusal(e: Error, spec: SectionConfig)
    requires
        OpenCodeGoProvider::is_refusal(e, spec),
    ensures
        e matches Error::InvalidArgs(m) && (if spec.kind@ != "opencode_go"@ {
            text::occurs(m@, spec.kind@) && text::has_prefix(
                m@,
                "opencode_go provider got kind '"@,
            )
        } else {
            text::occurs(m@, spec.model@) && text::has_prefix(m@, "model '"@) && (is_minimax_model(
                spec.model@,
            ) <==> text::has_suffix(
                m@,
                "' is blocked for opencode_go; use direct minimax provider instead"@,
            ))
        }),
{
    law_roster(spec.model@);
    let a = "opencode_go provider got kind '"@;
    let b = "model '"@;
    let c = "' is blocked for opencode_go; use direct minimax provider instead"@;
    let d = "' is not on the OpenCode Go model roster"@;
    text_laws::law_occurs(a + spec.kind@ + "'"@, spec.kind@);
    text_laws::law_prefix_and_suffix(a, spec.kind@ + "'"@);
    assert(a + (spec.kind@ + "'"@) =~= a + spec.kind@ + "'"@);
    text_laws::law_occurs(b + spec.model@ + c, spec.model@);
    text_laws::law_prefix_and_suffix(b, spec.model@ + c);
    text_laws::law_prefix_and_suffix(b + spec.model@, c);
    assert(b + (spec.model@ + c) =~= b + spec.model@ + c);
    text_laws::law_occurs(b + spec.model@ + d, spec.model@);
    text_laws::law_prefix_and_suffix(b, spec.model@ + d);
    assert(b + (spec.model@ + d) =~= b + spec.model@ + d);
    assert(!text::has_suffix(b + spec.model@ + d, c)) by {
        reveal_strlit("' is blocked for opencode_go; use direct minimax provider instead");
        reveal_strlit("' is not on the OpenCode Go model roster");
        let all = b + spec.model@ + d;
        assert(c[c.len() - 1] == 'd' && d[d.len() - 1] == 'r');
        if text::has_suffix(all, c) {
            assert(all.skip(all.len() - c.len())[c.len() - 1] == all[all.len() - 1]);
        }
    }
}

/// The temperature of a request changes for one model only, which gets exactly
/// one.
pub proof fn law_first_temperature(req: Request)
    ensures
        req.model@ == "kimi-k3"@ ==> (opencode_go::first_temperature(req) matches Some(t) && t.bits
            == 0x3f80_0000),
        req.model@ != "kimi-k3"@ ==> opencode_go::first_temperature(req) == req.temperature,
{
}

/// A call is made again just where the upstream's own error refuses the
/// temperature, and it was not one already: never after a reply, and never
/// after an error of another kind, whatever its message.
pub proof fn law_second_request(req: Request, first: Result<(u16, Response), Error>)
    ensures
        first is Ok ==> !opencode_go::wants_second(req, first),
        first matches Err(e) ==> !(e is Provider) ==> !opencode_go::wants_second(req, first),
        first matches Err(Error::Provider { message, .. }) ==> (opencode_go::wants_second(req, first)
            <==> opencode_go::refuses_temperature(message@) && !(req.temperature matches Some(t)
            && t.bits == 0x3f80_0000)),
{
}

/// A message refuses the temperature where it speaks of an invalid one or says
/// what it must be; that only one is allowed counts where it speaks of the
/// temperature at all. A message that does not speak of it never counts.
pub proof fn law_temperature_refusals(message: Seq<char>, a: Seq<char>, b: Seq<char>)
    ensures
        text::lower(message) == a + "invalid temperature"@ + b ==> opencode_go::refuses_temperature(
            message,
        ),
        text::lower(message) == a + "temperature must be"@ + b ==> opencode_go::refuses_temperature(
            message,
        ),
        text::lower(message) == a + "only 1 is allowed"@ + b ==> (opencode_go::refuses_temperature(
            message,
        ) <==> text::occurs(text::lower(message), "temperature"@)),
        opencode_go::refuses_temperature(message) ==> text::occurs(
            text::lower(message),
            "temperature"@,
        ) && (text::occurs(text::lower(message), "invalid temperature"@) || text::occurs(
            text::lower(message),
            "temperature must be"@,
        ) || text::occurs(text::lower(message), "only 1 is allowed"@)),
{
    let low = text::lower(message);
    let t = "temperature"@;
    text_laws::law_occurs(low, "invalid temperature"@);
    text_laws::law_occurs(low, "temperature must be"@);
    text_laws::law_occurs(low, "only 1 is allowed"@);
    text_laws::law_occurs(low, t);
    reveal_strlit("invalid temperature");
    reveal_strlit("temperature must be");
    reveal_strlit("temperature");
    assert("invalid temperature"@ =~= "invalid temperature"@.take(8) + t);
    assert("temperature must be"@ =~= t + "temperature must be"@.skip(11));
    if low == a + "invalid temperature"@ + b {
        assert(low =~= (a + "invalid temperature"@.take(8)) + t + b);
    }
    if low == a + "temperature must be"@ + b {
        assert(low =~= a + t + ("temperature must be"@.skip(11) + b));
    }
}

/// Where no key is set, the message begins with the variable to set; where the
/// kind is wrong, it names the kind.
pub proof fn law_set_up_messages(kind: Seq<char>)
    ensures
        text::has_prefix(openai_compat::no_key_text(), "OPENCODE_API_KEY"@),
        text::has_prefix(opencode_go_anthropic::no_key_text(), "OPENCODE_GO_API_KEY"@),
        text::occurs(opencode_go_anthropic::wrong_kind_text(kind), kind),
        text::occurs(opencode_go_responses::wrong_kind_text(kind), kind),
        text::has_prefix(opencode_go_anthropic::wrong_kind_text(kind), "opencode_go_anthropic"@),
        text::has_prefix(opencode_go_responses::wrong_kind_text(kind), "opencode_go_responses"@),
{
    reveal_strlit("OPENCODE_API_KEY");
    reveal_strlit("OPENCODE_API_KEY not set; provide via env, --api-key, or api_keys.toml");
    reveal_strlit("OPENCODE_GO_API_KEY");
    reveal_strlit("OPENCODE_GO_API_KEY not set; provide via env, --api-key, or config file");
    reveal_strlit("opencode_go_anthropic");
    reveal_strlit("opencode_go_anthropic provider got kind '");
    reveal_strlit("opencode_go_responses");
    reveal_strlit("opencode_go_responses provider got kind '");
    assert(openai_compat::no_key_text().take(16) =~= "OPENCODE_API_KEY"@);
    assert(opencode_go_anthropic::no_key_text().take(19) =~= "OPENCODE_GO_API_KEY"@);
    let a = "opencode_go_anthropic provider got kind '"@;
    let b = "opencode_go_responses provider got kind '"@;
    text_laws::law_occurs(a + kind + "'"@, kind);
    text_laws::law_occurs(b + kind + "'"@, kind);
    assert((a + kind + "'"@).take(21) =~= "opencode_go_anthropic"@);
    assert((b + kind + "'"@).take(21) =~= "opencode_go_responses"@);
}

/// The two providers of OpenCode Go that a section can set up by themselves
/// take its settings as they are.
pub proof fn law_go_parts_set_up(
    spec: SectionConfig,
    key: Seq<char>,
    messages: OpenCodeGoAnthropicProvider,
    responses: OpenCodeGoResponsesProvider,
)
    requires
        messages.is_set_up(spec, key),
        responses.is_set_up(spec, key),
    ensures
        messages.name@ == "opencode_go"@ && responses.name@ == "opencode_go"@,
        messages.model@ == spec.model@ && responses.model@ == spec.model@,
        messages.endpoint@ == spec.endpoint@ && responses.endpoint@ == spec.endpoint@,
        messages.api_key@ == key && responses.api_key@ == key,
        messages.max_retries == 3 && responses.max_retries == 3,
        responses.provider_max_tokens == spec.max_tokens,
        responses.omit_max_tokens == spec.omit_max_tokens,
        responses.max_tokens_table is None,
{
}

} // verus!
