//! What a call comes to: which failures are tried again, what error is left in
//! the end, and what is read out of a reply.

use vstd::prelude::*;
use vstd::string::*;

use crate::error::Error;
use crate::messages_wire;
use crate::messages_wire::{MessagesExchange, MessagesPiece, MessagesReply};
use crate::minimax::MinimaxProvider;
use crate::openai_compatible;
use crate::openai_compatible::ChatResponse;
use crate::opencode_go_anthropic::OpenCodeGoAnthropicProvider;
use crate::responses_wire;
use crate::responses_wire::{
    ResponsesBody, ResponsesContent, ResponsesOutput, StreamEvent, StreamExchange,
};
use crate::text;
use crate::text_laws;
use crate::transport;
use crate::transport::{Exchange, Step};
use crate::wire::{Response, Usage};

verus! {

// ---------------------------------------------------------------------------
// Errors
// ---------------------------------------------------------------------------

/// The HTTP status that an error carries.
pub open spec fn status_of(e: Error) -> Option<u16> {
    match e {
        Error::Provider { http_status, .. } => http_status,
        Error::InvalidApiKey { http_status, .. } => http_status,
        Error::PlanExhausted { http_status, .. } => http_status,
        Error::Throttled { http_status, .. } => http_status,
        Error::Timeout { http_status, .. } => http_status,
        _ => None,
    }
}

/// The message that an error carries.
pub open spec fn message_of(e: Error) -> Seq<char> {
    match e {
        Error::Provider { message, .. } => message@,
        Error::InvalidApiKey { message, .. } => message@,
        Error::PlanExhausted { message, .. } => message@,
        Error::Throttled { message, .. } => message@,
        Error::Timeout { message, .. } => message@,
        _ => Seq::empty(),
    }
}

/// The error for an error status keeps the status and the body. What kind of
/// error it is goes by the status alone: a refused key, a plan that is used
/// up, a timeout, and otherwise a failure of the upstream.
pub proof fn law_http_error(e: Error, status: u16, body: Seq<char>)
    requires
        transport::is_http_error(e, status, body),
    ensures
        status_of(e) == Some(status),
        text::has_suffix(message_of(e), body),
        text::has_prefix(message_of(e), "http "@ + text::decimal(status as nat)),
        e is InvalidApiKey <==> status == 401 || status == 403,
        e is PlanExhausted <==> status == 429,
        e is Timeout <==> status == 408 || status == 504 || status == 524,
        e is Provider <==> !(status == 401 || status == 403 || status == 429 || status == 408
            || status == 504 || status == 524),
{
    let head = "http "@ + text::decimal(status as nat);
    text_laws::law_prefix_and_suffix(head + ": "@, body);
    text_laws::law_prefix_and_suffix(head, ": "@ + body);
    assert(head + (": "@ + body) =~= head + ": "@ + body);
}

/// Success is every status from 200 to 299.
pub proof fn law_success(status: u16)
    ensures
        transport::succeeded(status) <==> status / 100 == 2,
{
}

/// A reply counts as too large from one byte above ten mebibytes on. The error
/// tells what was too large.
pub proof fn law_oversize(e: Error, what: Seq<char>, size: nat, limit: nat)
    requires
        transport::is_oversize(e, what, size, limit),
    ensures
        e is Provider,
        status_of(e) is None,
        text::has_prefix(message_of(e), what),
        text::has_suffix(message_of(e), text::decimal(limit)),
        text::occurs(message_of(e), text::decimal(size)),
        transport::MAX_RESPONSE_BYTES == 10 * 1024 * 1024,
{
    let a = what + " is "@;
    let n = text::decimal(size);
    let b = " bytes, more than the limit of "@;
    let m = text::decimal(limit);
    let all = a + n + b + m;
    text_laws::law_prefix_and_suffix(what, " is "@ + n + b + m);
    assert(what + (" is "@ + n + b + m) =~= all);
    text_laws::law_prefix_and_suffix(a + n + b, m);
    text_laws::law_occurs(all, n);
    assert(all =~= a + n + (b + m));
}

// ---------------------------------------------------------------------------
// The Responses interface
// ---------------------------------------------------------------------------

/// A refusal is tried again, while attempts are left, under every status but
/// those of a refused key; a failure of the network always is, and a reply
/// never, be it readable or not. The last failure is what the call ends with.
pub proof fn law_responses_retries(
    step: Step,
    attempt: u32,
    max_retries: u32,
    exchange: Exchange<ResponsesBody>,
)
    requires
        responses_wire::is_step(step, attempt, max_retries, exchange),
    ensures
        exchange matches Exchange::Refused { status, body } ==> {
            &&& step is Retry <==> attempt < max_retries && status != 401 && status != 403
            &&& step matches Step::Done(r) ==> r matches Err(e) && transport::is_http_error(
                e,
                status,
                body@,
            ) && status_of(e) == Some(status) && text::has_suffix(message_of(e), body@)
        },
        exchange matches Exchange::Unreachable(reason) ==> {
            &&& step is Retry <==> attempt < max_retries
            &&& step matches Step::Done(r) ==> r matches Err(e) && e is Provider && status_of(
                e,
            ) is None && text::has_suffix(message_of(e), reason@)
        },
        exchange matches Exchange::Undecodable(reason) ==> step matches Step::Done(Err(e)) && e
            is Provider && status_of(e) is None && text::has_suffix(message_of(e), reason@),
        exchange is Decoded ==> step is Done,
{
    match exchange {
        Exchange::Refused { status, body } => {
            if let Step::Done(Err(e)) = step {
                law_http_error(e, status, body@);
            }
        },
        Exchange::Unreachable(reason) => {
            text_laws::law_prefix_and_suffix("network: "@, reason@);
        },
        Exchange::Undecodable(reason) => {
            text_laws::law_prefix_and_suffix("decode: "@, reason@);
        },
        _ => {},
    }
}

/// A refusal that is not tried again is one that no further attempt cures: it
/// is tried again just where the error that it comes to is not a refused key.
pub proof fn law_responses_retry_what_may_be_cured(
    step: Step,
    attempt: u32,
    max_retries: u32,
    status: u16,
    body: String,
    e: Error,
)
    requires
        responses_wire::is_step(step, attempt, max_retries, Exchange::Refused { status, body }),
        transport::is_http_error(e, status, body@),
    ensures
        attempt < max_retries ==> (step is Retry <==> e is Timeout || e is PlanExhausted || e
            is Provider),
        attempt >= max_retries ==> !(step is Retry),
{
}

/// A reply comes to its output text and its counts. It has no finish reason
/// and never counts as cut off.
pub proof fn law_responses_reply(
    step: Step,
    attempt: u32,
    max_retries: u32,
    status: u16,
    reply: ResponsesBody,
)
    requires
        responses_wire::is_step(step, attempt, max_retries, Exchange::Decoded { status, reply }),
    ensures
        transport::size_of(responses_wire::body_text(reply)) > 10 * 1024 * 1024
            ==> (step matches Step::Done(Err(e)) && e is Provider && status_of(e) is None
            && text::has_prefix(message_of(e), "response"@)),
        transport::size_of(responses_wire::body_text(reply)) <= 10 * 1024 * 1024
            ==> (step matches Step::Done(Ok((s, response))) && s == status && response.text@
            == responses_wire::body_text(reply) && !response.truncated && response.finish_reason
            is None && response.usage.cache_read == 0 && response.usage.cache_creation == 0
            && match reply.usage {
            Some(u) => response.usage.input_tokens == u.input_tokens
                && response.usage.output_tokens == u.output_tokens,
            None => response.usage.input_tokens == 0 && response.usage.output_tokens == 0,
        }),
{
    if let Step::Done(Err(e)) = step {
        law_oversize(
            e,
            "response"@,
            transport::size_of(responses_wire::body_text(reply)),
            transport::MAX_RESPONSE_BYTES as nat,
        );
    }
}

/// The text of a reply is that of its pieces of output text, in order, across
/// all items; pieces of any other kind, and pieces without text, add nothing.
pub proof fn law_responses_text(
    a: Seq<ResponsesOutput>,
    b: Seq<ResponsesOutput>,
    p: Seq<ResponsesContent>,
    q: Seq<ResponsesContent>,
    piece: ResponsesContent,
    item: ResponsesOutput,
)
    ensures
        responses_wire::items_text(a + b) == responses_wire::items_text(a)
            + responses_wire::items_text(b),
        responses_wire::pieces_text(p + q) == responses_wire::pieces_text(p)
            + responses_wire::pieces_text(q),
        responses_wire::items_text(seq![item]) == responses_wire::pieces_text(item.content@),
        piece.kind@ == "output_text"@ ==> (piece.text matches Some(t)
            ==> responses_wire::pieces_text(seq![piece]) == t@),
        piece.kind@ != "output_text"@ || piece.text is None ==> responses_wire::pieces_text(
            seq![piece],
        ).len() == 0,
{
    lemma_items(a, b);
    lemma_pieces(p, q);
    assert(seq![item].drop_last() =~= Seq::empty());
    assert(responses_wire::items_text(seq![item].drop_last()) =~= Seq::empty());
    assert(responses_wire::items_text(seq![item]) =~= responses_wire::pieces_text(item.content@));
    assert(seq![piece].drop_last() =~= Seq::empty());
    assert(responses_wire::pieces_text(seq![piece].drop_last()) =~= Seq::empty());
    assert(responses_wire::pieces_text(seq![piece]) =~= responses_wire::piece_text(piece));
}

proof fn lemma_items(a: Seq<ResponsesOutput>, b: Seq<ResponsesOutput>)
    ensures
        responses_wire::items_text(a + b) == responses_wire::items_text(a)
            + responses_wire::items_text(b),
    decreases b.len(),
{
    if b.len() == 0 {
        assert(a + b =~= a);
        assert(responses_wire::items_text(a) + responses_wire::items_text(b)
            =~= responses_wire::items_text(a));
    } else {
        assert((a + b).drop_last() =~= a + b.drop_last());
        assert((a + b).last() == b.last());
        lemma_items(a, b.drop_last());
        assert(responses_wire::items_text(a + b) =~= responses_wire::items_text(a)
            + responses_wire::items_text(b));
    }
}

proof fn lemma_pieces(p: Seq<ResponsesContent>, q: Seq<ResponsesContent>)
    ensures
        responses_wire::pieces_text(p + q) == responses_wire::pieces_text(p)
            + responses_wire::pieces_text(q),
    decreases q.len(),
{
    if q.len() == 0 {
        assert(p + q =~= p);
        assert(responses_wire::pieces_text(p) + responses_wire::pieces_text(q)
            =~= responses_wire::pieces_text(p));
    } else {
        assert((p + q).drop_last() =~= p + q.drop_last());
        assert((p + q).last() == q.last());
        lemma_pieces(p, q.drop_last());
        assert(responses_wire::pieces_text(p + q) =~= responses_wire::pieces_text(p)
            + responses_wire::pieces_text(q));
    }
}

/// All events are payloads.
pub open spec fn all_payloads(events: Seq<StreamEvent>) -> bool {
    forall|i: int| 0 <= i < events.len() ==> #[trigger] events[i] is Delta
}

proof fn lemma_good_events(a: Seq<StreamEvent>, rest: Seq<StreamEvent>)
    requires
        all_payloads(a),
        rest.len() > 0 ==> !(rest[0] is Delta),
    ensures
        responses_wire::good_events(a + rest) == a.len(),
    decreases a.len(),
{
    let all = a + rest;
    if a.len() == 0 {
        assert(all =~= rest);
    } else {
        assert(a[0] is Delta);
        assert(all[0] == a[0]);
        assert(all.skip(1) =~= a.skip(1) + rest);
        assert forall|i: int| 0 <= i < a.skip(1).len() implies #[trigger] a.skip(1)[i] is Delta by {
            assert(a[i + 1] is Delta);
        }
        lemma_good_events(a.skip(1), rest);
    }
}

/// A stream of payloads comes to their texts, one after the other, under the
/// status that it came with. The first event that is no payload makes it fail
/// with the reason of that event, whatever comes behind it.
pub proof fn law_stream_result(
    r: Result<(u16, Response), Error>,
    status: u16,
    events: Vec<StreamEvent>,
    a: Seq<StreamEvent>,
    rest: Seq<StreamEvent>,
)
    requires
        responses_wire::is_stream_result(r, StreamExchange::Events { status, events }),
        events@ == a + rest,
        all_payloads(a),
        rest.len() > 0 ==> !(rest[0] is Delta),
    ensures
        rest.len() == 0 && transport::size_of(responses_wire::stream_text(a)) <= 10 * 1024 * 1024
            ==> (r matches Ok((s, response)) && s == status && response.text@
            == responses_wire::stream_text(a) && response.usage.input_tokens
            == responses_wire::stream_usage(a).input_tokens && response.usage.output_tokens
            == responses_wire::stream_usage(a).output_tokens && !response.truncated
            && response.finish_reason is None),
        rest.len() > 0 ==> (r matches Err(e) && e is Provider && status_of(e) is None
            && match rest[0] {
            StreamEvent::Unreadable(reason) => message_of(e) == "sse io: "@ + reason@,
            StreamEvent::Undecodable(reason) => message_of(e) == "sse parse: "@ + reason@,
            StreamEvent::Delta(_) => true,
        }),
{
    lemma_good_events(a, rest);
    if rest.len() == 0 {
        assert(a + rest =~= a);
    } else {
        assert((a + rest)[a.len() as int] == rest[0]);
    }
}

/// A stream's counts are the last that one of its payloads gives, and nothing
/// where none does. A payload adds its text, whatever counts it gives.
pub proof fn law_stream_payloads(a: Seq<StreamEvent>, body: ResponsesBody)
    ensures
        body.usage matches Some(u) ==> responses_wire::stream_usage(a.push(StreamEvent::Delta(body)))
            == u,
        body.usage is None ==> responses_wire::stream_usage(a.push(StreamEvent::Delta(body)))
            == responses_wire::stream_usage(a),
        responses_wire::stream_usage(Seq::empty()).input_tokens == 0,
        responses_wire::stream_usage(Seq::empty()).output_tokens == 0,
        responses_wire::stream_text(a.push(StreamEvent::Delta(body))) == responses_wire::stream_text(
            a,
        ) + responses_wire::body_text(body),
        responses_wire::body_text(body) == responses_wire::items_text(body.output@),
        responses_wire::stream_text(Seq::empty()).len() == 0,
{
    assert(a.push(StreamEvent::Delta(body)).drop_last() =~= a);
}

/// A stream that is refused or does not come at all is an error, made once.
pub proof fn law_stream_failures(
    r: Result<(u16, Response), Error>,
    exchange: StreamExchange,
)
    requires
        responses_wire::is_stream_result(r, exchange),
    ensures
        exchange matches StreamExchange::Refused { status, body } ==> r matches Err(e) && status_of(e)
            == Some(status) && text::has_suffix(message_of(e), body@) && (e is InvalidApiKey
            <==> status == 401 || status == 403),
        exchange matches StreamExchange::Unreachable(reason) ==> r matches Err(e) && e is Provider
            && status_of(e) is None && text::has_suffix(message_of(e), reason@),
        exchange matches StreamExchange::Broken(reason) ==> r matches Err(e) && e is Provider
            && status_of(e) is None && text::has_suffix(message_of(e), reason@),
{
    match exchange {
        StreamExchange::Refused { status, body } => {
            law_http_error(r->Err_0, status, body@);
        },
        StreamExchange::Unreachable(reason) => {
            text_laws::law_prefix_and_suffix("network: "@, reason@);
        },
        StreamExchange::Broken(reason) => {
            text_laws::law_prefix_and_suffix("stream body read: "@, reason@);
        },
        _ => {},
    }
}

// ---------------------------------------------------------------------------
// Chat Completions
// ---------------------------------------------------------------------------

/// Every failure is tried again while attempts are left, a refusal under any
/// status among them, and a reply never is. The last refusal is what the call
/// ends with; its error keeps the status, the number of attempts and the body.
pub proof fn law_chat_retries(
    step: Step,
    attempt: u32,
    max_retries: u32,
    exchange: Exchange<ChatResponse>,
)
    requires
        openai_compatible::is_step(step, attempt, max_retries, exchange),
    ensures
        exchange matches Exchange::Refused { status, body } ==> {
            &&& step is Retry <==> attempt < max_retries
            &&& step matches Step::Done(r) ==> r matches Err(e) && e is Provider && status_of(e)
                == Some(status) && text::has_suffix(message_of(e), body@) && text::occurs(
                message_of(e),
                text::decimal(status as nat),
            ) && text::occurs(message_of(e), text::decimal(attempt as nat))
        },
        exchange matches Exchange::Unreachable(reason) ==> {
            &&& step is Retry <==> attempt < max_retries
            &&& step matches Step::Done(r) ==> r matches Err(e) && e is Provider && status_of(
                e,
            ) is None && text::has_suffix(message_of(e), reason@)
        },
        exchange matches Exchange::Undecodable(reason) ==> step matches Step::Done(Err(e)) && e
            is Provider && status_of(e) is None && text::has_suffix(message_of(e), reason@),
        exchange is Decoded ==> step is Done,
{
    match exchange {
        Exchange::Refused { status, body } => {
            let a = "openai-compat: HTTP "@;
            let s = text::decimal(status as nat);
            let b = " after "@;
            let n = text::decimal(attempt as nat);
            let c = " attempts: "@;
            let all = a + s + b + n + c + body@;
            text_laws::law_prefix_and_suffix(a + s + b + n + c, body@);
            text_laws::law_occurs(all, s);
            text_laws::law_occurs(all, n);
            assert(all =~= a + s + (b + n + c + body@));
            assert(all =~= (a + s + b) + n + (c + body@));
        },
        Exchange::Unreachable(reason) => {
            text_laws::law_prefix_and_suffix("openai-compat: network: "@, reason@);
        },
        Exchange::Undecodable(reason) => {
            text_laws::law_prefix_and_suffix("decode: "@, reason@);
        },
        _ => {},
    }
}

/// A reply comes to its first answer, whatever the others are. It counts as
/// cut off just where its finish reason is that of the ceiling; every other
/// finish reason, and none, tells of a whole reply. Without any answer it
/// fails.
pub proof fn law_chat_reply(r: Result<(u16, Response), Error>, status: u16, reply: ChatResponse)
    requires
        openai_compatible::is_reply(r, status, reply),
    ensures
        reply.choices@.len() == 0 ==> (r matches Err(e) && e is Provider && status_of(e) is None),
        reply.choices@.len() > 0 && transport::size_of(reply.choices@[0].content@) > 10 * 1024
            * 1024 ==> (r matches Err(e) && e is Provider && status_of(e) is None
            && text::has_prefix(message_of(e), "response"@)),
        reply.choices@.len() > 0 && transport::size_of(reply.choices@[0].content@) <= 10 * 1024
            * 1024 ==> r is Ok,
        r matches Ok((s, response)) ==> {
            &&& s == status
            &&& response.text@ == reply.choices@[0].content@
            &&& response.finish_reason == reply.choices@[0].finish_reason
            &&& response.truncated <==> (response.finish_reason matches Some(reason) && reason@
                == "length"@)
            &&& match reply.usage {
                Some(u) => response.usage.input_tokens == u.prompt_tokens
                    && response.usage.output_tokens == u.completion_tokens,
                None => response.usage.input_tokens == 0 && response.usage.output_tokens == 0,
            }
            &&& response.usage.cache_read == 0 && response.usage.cache_creation == 0
        },
{
    if let Err(e) = r {
        if reply.choices@.len() > 0 {
            law_oversize(
                e,
                "response"@,
                transport::size_of(reply.choices@[0].content@),
                transport::MAX_RESPONSE_BYTES as nat,
            );
        }
    }
}

/// Two replies with the same first answer and the same counts come to the
/// same, and one that stopped for anything but the ceiling is whole.
pub proof fn law_chat_reply_goes_by_the_first_answer(
    r: Result<(u16, Response), Error>,
    q: Result<(u16, Response), Error>,
    status: u16,
    one: ChatResponse,
    two: ChatResponse,
)
    requires
        openai_compatible::is_reply(r, status, one),
        openai_compatible::is_reply(q, status, two),
        one.choices@.len() > 0,
        two.choices@.len() > 0,
        one.choices@[0] == two.choices@[0],
        one.usage == two.usage,
    ensures
        r is Ok <==> q is Ok,
        r is Ok ==> r == q,
{
}

// ---------------------------------------------------------------------------
// The Messages interface
// ---------------------------------------------------------------------------

/// A refusal is tried again, while attempts are left, where it is a timeout, a
/// plan that is used up, a failure of the upstream or, with some upstreams, a
/// request to slow down; a refused key never is. A failure of the network
/// always is, and a reply never. The last refusal is handed on as it is.
pub proof fn law_messages_retries(
    step: Step,
    attempt: u32,
    max_retries: u32,
    exchange: MessagesExchange,
    throttled: bool,
)
    requires
        if throttled {
            MinimaxProvider::is_next(step, attempt, max_retries, exchange)
        } else {
            OpenCodeGoAnthropicProvider::is_next(step, attempt, max_retries, exchange)
        },
    ensures
        exchange matches MessagesExchange::Refused(e) ==> {
            &&& step is Retry <==> attempt < max_retries && (e is Timeout || e is PlanExhausted || e
                is Provider || (throttled && e is Throttled))
            &&& step matches Step::Done(r) ==> r == Err::<(u16, Response), Error>(e)
        },
        exchange matches MessagesExchange::Unreachable(reason) ==> {
            &&& step is Retry <==> attempt < max_retries
            &&& step matches Step::Done(r) ==> r matches Err(e) && e is Provider && status_of(
                e,
            ) is None && text::has_suffix(message_of(e), reason@)
        },
        exchange matches MessagesExchange::Undecodable(reason) ==> step matches Step::Done(Err(e))
            && e is Provider && status_of(e) is None && text::has_suffix(message_of(e), reason@),
        exchange matches MessagesExchange::Unusable(reason) ==> step matches Step::Done(Err(e)) && e
            is Provider && status_of(e) is None && message_of(e) == reason@,
        exchange matches MessagesExchange::Decoded { status, response } ==> step == Step::Done(
            Ok((status, response)),
        ),
{
    match exchange {
        MessagesExchange::Unreachable(reason) => {
            text_laws::law_prefix_and_suffix("network: "@, reason@);
        },
        MessagesExchange::Undecodable(reason) => {
            text_laws::law_prefix_and_suffix("decode response: "@, reason@);
        },
        _ => {},
    }
}

/// The text of a reply is that of its pieces of text, in order; pieces of
/// another kind, and pieces without text, add nothing. A reply has text where
/// one of its parts has.
pub proof fn law_messages_text(a: Seq<MessagesPiece>, b: Seq<MessagesPiece>, p: MessagesPiece)
    ensures
        messages_wire::joined_text(a + b) == messages_wire::joined_text(a)
            + messages_wire::joined_text(b),
        messages_wire::any_text(a + b) <==> messages_wire::any_text(a) || messages_wire::any_text(b),
        p.kind@ == "text"@ ==> (p.text matches Some(t) ==> messages_wire::joined_text(seq![p]) == t@
            && messages_wire::any_text(seq![p])),
        p.kind@ != "text"@ || p.text is None ==> messages_wire::joined_text(seq![p]).len() == 0
            && !messages_wire::any_text(seq![p]),
        messages_wire::joined_text(Seq::empty()).len() == 0,
        !messages_wire::any_text(Seq::empty()),
{
    lemma_joined(a, b);
    if messages_wire::any_text(a) {
        let i = choose|i: int| 0 <= i < a.len() && messages_wire::holds_text(#[trigger] a[i]);
        assert((a + b)[i] == a[i]);
    }
    if messages_wire::any_text(b) {
        let i = choose|i: int| 0 <= i < b.len() && messages_wire::holds_text(#[trigger] b[i]);
        assert((a + b)[a.len() + i] == b[i]);
    }
    if messages_wire::any_text(a + b) {
        let i = choose|i: int|
            0 <= i < (a + b).len() && messages_wire::holds_text(#[trigger] (a + b)[i]);
        if i < a.len() {
            assert(a[i] == (a + b)[i]);
        } else {
            assert(b[i - a.len()] == (a + b)[i]);
        }
    }
    let one = seq![p];
    assert(one.drop_last() =~= Seq::empty());
    assert(one[0] == p);
    assert(messages_wire::joined_text(one.drop_last()) =~= Seq::empty());
    if messages_wire::holds_text(p) {
        assert(messages_wire::joined_text(one) =~= p.text->0@);
    }
}

proof fn lemma_joined(a: Seq<MessagesPiece>, b: Seq<MessagesPiece>)
    ensures
        messages_wire::joined_text(a + b) == messages_wire::joined_text(a)
            + messages_wire::joined_text(b),
    decreases b.len(),
{
    if b.len() == 0 {
        assert(a + b =~= a);
        assert(messages_wire::joined_text(a) + messages_wire::joined_text(b)
            =~= messages_wire::joined_text(a));
    } else {
        assert((a + b).drop_last() =~= a + b.drop_last());
        assert((a + b).last() == b.last());
        lemma_joined(a, b.drop_last());
        assert(messages_wire::joined_text(a + b) =~= messages_wire::joined_text(a)
            + messages_wire::joined_text(b));
    }
}

/// A reply with a piece of text comes to its text, its stop reason and its
/// counts. It counts as cut off just where it stopped for the ceiling. One
/// without any is of no use.
pub proof fn law_messages_reply(r: MessagesExchange, status: u16, reply: MessagesReply)
    requires
        messages_wire::is_reply(r, status, reply),
    ensures
        !messages_wire::any_text(reply.content@) ==> r is Unusable,
        messages_wire::any_text(reply.content@) ==> r is Decoded,
        r matches MessagesExchange::Decoded { status: s, response } ==> {
            &&& s == status
            &&& response.text@ == messages_wire::joined_text(reply.content@)
            &&& response.finish_reason == reply.stop_reason
            &&& response.truncated <==> (response.finish_reason matches Some(reason) && reason@
                == "max_tokens"@)
            &&& match reply.usage {
                Some(u) => response.usage == u,
                None => response.usage == (Usage {
                    input_tokens: 0,
                    output_tokens: 0,
                    cache_read: 0,
                    cache_creation: 0,
                }),
            }
        },
{
}

} // verus!
