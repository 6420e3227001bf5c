//! The replies of the Responses API.

use vstd::prelude::*;
use vstd::string::*;

use crate::capabilities;
use crate::error::Error;
use crate::role;
use crate::role::Role;
use crate::text;
use crate::transport;
use crate::transport::{Exchange, Step, MAX_RESPONSE_BYTES};
use crate::wire::{Response, Usage};

verus! {

/// A reply, or a part of one.
pub struct ResponsesBody {
    pub output: Vec<ResponsesOutput>,
    pub usage: Option<ResponsesUsage>,
}

/// One item of a reply.
pub struct ResponsesOutput {
    pub content: Vec<ResponsesContent>,
}

/// One piece of content.
pub struct ResponsesContent {
    pub kind: String,
    pub text: Option<String>,
}

/// The token counts of a reply.
#[derive(Debug, Clone, Copy, PartialEq, Eq, Structural)]
pub struct ResponsesUsage {
    pub input_tokens: u64,
    pub output_tokens: u64,
}

impl ResponsesUsage {
    /// No tokens at all.
    pub open spec fn zero() -> ResponsesUsage {
        ResponsesUsage { input_tokens: 0, output_tokens: 0 }
    }
}

impl Default for ResponsesUsage {
    fn default() -> (r: Self)
        ensures
            r == ResponsesUsage::zero(),
    {
        ResponsesUsage { input_tokens: 0, output_tokens: 0 }
    }
}

/// The text of one piece of content: nothing but output text counts.
pub open spec fn piece_text(c: ResponsesContent) -> Seq<char> {
    match c.text {
        Some(t) => if c.kind@ == "output_text"@ {
            t@
        } else {
            Seq::empty()
        },
        None => Seq::empty(),
    }
}

/// The texts of all pieces, one after the other.
pub open spec fn pieces_text(pieces: Seq<ResponsesContent>) -> Seq<char>
    decreases pieces.len(),
{
    if pieces.len() == 0 {
        Seq::empty()
    } else {
        pieces_text(pieces.drop_last()) + piece_text(pieces.last())
    }
}

/// The texts of all items, one after the other.
pub open spec fn items_text(items: Seq<ResponsesOutput>) -> Seq<char>
    decreases items.len(),
{
    if items.len() == 0 {
        Seq::empty()
    } else {
        items_text(items.drop_last()) + pieces_text(items.last().content@)
    }
}

/// The text of a reply.
pub open spec fn body_text(body: ResponsesBody) -> Seq<char> {
    items_text(body.output@)
}

/// Appends the text of one piece.
fn push_piece(out: String, c: &ResponsesContent) -> (r: String)
    ensures
        r@ == out@ + piece_text(*c),
{
    if let Some(t) = &c.text {
        if text::str_eq(c.kind.as_str(), "output_text") {
            return out.concat(t.as_str());
        }
    }
    assert(out@ + piece_text(*c) =~= out@);
    out
}

/// Appends the text of one item.
fn push_item(out: String, item: &ResponsesOutput) -> (r: String)
    ensures
        r@ == out@ + pieces_text(item.content@),
{
    let ghost start = out@;
    let ghost all = item.content@;
    let mut acc = out;
    let mut i: usize = 0;
    assert(all.take(0) =~= Seq::empty());
    assert(acc@ =~= start + pieces_text(all.take(0)));
    while i < item.content.len()
        invariant
            all == item.content@,
            i <= all.len(),
            acc@ == start + pieces_text(all.take(i as int)),
        decreases all.len() - i,
    {
        assert(all.take(i + 1).drop_last() =~= all.take(i as int));
        acc = push_piece(acc, &item.content[i]);
        assert(acc@ =~= start + pieces_text(all.take(i + 1)));
        i = i + 1;
    }
    assert(all.take(i as int) =~= all);
    acc
}

/// Appends the text of a reply.
fn push_body(out: String, body: &ResponsesBody) -> (r: String)
    ensures
        r@ == out@ + body_text(*body),
{
    let ghost start = out@;
    let ghost all = body.output@;
    let mut acc = out;
    let mut i: usize = 0;
    assert(all.take(0) =~= Seq::empty());
    assert(acc@ =~= start + items_text(all.take(0)));
    while i < body.output.len()
        invariant
            all == body.output@,
            i <= all.len(),
            acc@ == start + items_text(all.take(i as int)),
        decreases all.len() - i,
    {
        assert(all.take(i + 1).drop_last() =~= all.take(i as int));
        acc = push_item(acc, &body.output[i]);
        assert(acc@ =~= start + items_text(all.take(i + 1)));
        i = i + 1;
    }
    assert(all.take(i as int) =~= all);
    acc
}

/// The counts of a reply; none where it gives none.
pub open spec fn body_usage(body: ResponsesBody) -> ResponsesUsage {
    match body.usage {
        Some(u) => u,
        None => ResponsesUsage::zero(),
    }
}

/// `r` is what a reply with this status, text and counts comes to.
pub open spec fn is_finished(
    r: Result<(u16, Response), Error>,
    status: u16,
    text: Seq<char>,
    usage: ResponsesUsage,
) -> bool {
    if transport::size_of(text) <= MAX_RESPONSE_BYTES {
        &&& r matches Ok((s, response))
        &&& s == status
        &&& response.text@ == text
        &&& response.finish_reason is None
        &&& !response.truncated
        &&& response.usage == Usage::plain(usage.input_tokens, usage.output_tokens)
    } else {
        r matches Err(e) && transport::is_oversize(
            e,
            "response"@,
            transport::size_of(text),
            MAX_RESPONSE_BYTES as nat,
        )
    }
}

/// What a reply with this status, text and counts comes to.
pub fn finish(status: u16, text: String, usage: ResponsesUsage) -> (r: Result<
    (u16, Response),
    Error,
>)
    ensures
        is_finished(r, status, text@, usage),
{
    match transport::check_reply_size(text.as_str()) {
        Ok(_) => Ok(
            (
                status,
                Response {
                    text,
                    finish_reason: None,
                    truncated: false,
                    usage: Usage {
                        input_tokens: usage.input_tokens,
                        output_tokens: usage.output_tokens,
                        cache_read: 0,
                        cache_creation: 0,
                    },
                },
            ),
        ),
        Err(e) => Err(e),
    }
}

/// `step` is what is done after attempt number `attempt`.
pub open spec fn is_step(
    step: Step,
    attempt: u32,
    max_retries: u32,
    exchange: Exchange<ResponsesBody>,
) -> bool {
    match exchange {
        Exchange::Decoded { status, reply } => step matches Step::Done(r) && is_finished(
            r,
            status,
            body_text(reply),
            body_usage(reply),
        ),
        Exchange::Undecodable(reason) => step matches Step::Done(Err(e))
            && transport::is_plain_failure(e, "decode: "@ + reason@),
        Exchange::Refused { status, body } => if transport::tries_again(
            attempt,
            max_retries,
            status != 401 && status != 403,
        ) {
            step is Retry
        } else {
            step matches Step::Done(Err(e)) && transport::is_http_error(e, status, body@)
        },
        Exchange::Unreachable(reason) => if transport::tries_again(attempt, max_retries, true) {
            step is Retry
        } else {
            step matches Step::Done(Err(e)) && transport::is_plain_failure(
                e,
                "network: "@ + reason@,
            )
        },
    }
}

/// What is done after attempt number `attempt`: a reply ends the call, and a
/// failure is tried again, but for a refused key, until `max_retries` attempts
/// were made.
pub fn step(attempt: u32, max_retries: u32, exchange: Exchange<ResponsesBody>) -> (r: Step)
    ensures
        is_step(r, attempt, max_retries, exchange),
        exchange matches Exchange::Refused { status, .. } ==> (r is Retry <==> attempt < max_retries
            && status != 401 && status != 403),
        exchange is Unreachable ==> (r is Retry <==> attempt < max_retries),
{
    match exchange {
        Exchange::Decoded { status, reply } => {
            let text = push_body(String::new(), &reply);
            assert(text@ =~= body_text(reply));
            let usage = match reply.usage {
                Some(u) => u,
                None => ResponsesUsage::default(),
            };
            Step::Done(finish(status, text, usage))
        },
        Exchange::Undecodable(reason) => Step::Done(
            Err(transport::plain_failure("decode: ", reason.as_str())),
        ),
        Exchange::Refused { status, body } => {
            let err = transport::http_error(status, body.as_str());
            let worth_it = transport::is_curable(&err);
            transport::after_failure(attempt, max_retries, err, worth_it)
        },
        Exchange::Unreachable(reason) => {
            let err = transport::plain_failure("network: ", reason.as_str());
            transport::after_failure(attempt, max_retries, err, true)
        },
    }
}

/// One event of a stream.
pub enum StreamEvent {
    /// A payload, decoded.
    Delta(ResponsesBody),
    /// The stream cannot be read; holds the reason.
    Unreadable(String),
    /// A payload cannot be decoded; holds the reason.
    Undecodable(String),
}

/// How many events come before the first that is no payload.
pub open spec fn good_events(events: Seq<StreamEvent>) -> int
    decreases events.len(),
{
    if events.len() == 0 || !(events[0] is Delta) {
        0
    } else {
        1 + good_events(events.skip(1))
    }
}

/// The text of a stream: that of its payloads, one after the other.
pub open spec fn stream_text(events: Seq<StreamEvent>) -> Seq<char>
    decreases events.len(),
{
    if events.len() == 0 {
        Seq::empty()
    } else {
        stream_text(events.drop_last()) + match events.last() {
            StreamEvent::Delta(body) => body_text(body),
            _ => Seq::empty(),
        }
    }
}

/// The counts of a stream: the last that a payload gives.
pub open spec fn stream_usage(events: Seq<StreamEvent>) -> ResponsesUsage
    decreases events.len(),
{
    if events.len() == 0 {
        ResponsesUsage::zero()
    } else {
        match events.last() {
            StreamEvent::Delta(ResponsesBody { usage: Some(u), .. }) => u,
            _ => stream_usage(events.drop_last()),
        }
    }
}

/// `e` is the error for an event that is no payload.
pub open spec fn is_stream_error(e: Error, event: StreamEvent) -> bool {
    match event {
        StreamEvent::Delta(_) => false,
        StreamEvent::Unreadable(reason) => transport::is_plain_failure(e, "sse io: "@ + reason@),
        StreamEvent::Undecodable(reason) => transport::is_plain_failure(
            e,
            "sse parse: "@ + reason@,
        ),
    }
}

/// Joins the payloads of a stream: their texts in order, and the last counts.
/// The first event that is no payload makes it fail.
pub fn accumulate_sse_responses(events: &Vec<StreamEvent>) -> (r: Result<
    (String, ResponsesUsage),
    Error,
>)
    ensures
        match r {
            Ok((text, usage)) => {
                &&& good_events(events@) == events@.len()
                &&& text@ == stream_text(events@)
                &&& usage == stream_usage(events@)
            },
            Err(e) => {
                &&& good_events(events@) < events@.len()
                &&& is_stream_error(e, events@[good_events(events@)])
            },
        },
{
    let ghost all = events@;
    let mut text = String::new();
    let mut usage = ResponsesUsage::default();
    let mut i: usize = 0;
    assert(all.take(0) =~= Seq::empty());
    assert(all.skip(0) =~= all);
    assert(text@ =~= stream_text(all.take(0)));
    while i < events.len()
        invariant
            all == events@,
            i <= all.len(),
            good_events(all) == i + good_events(all.skip(i as int)),
            text@ == stream_text(all.take(i as int)),
            usage == stream_usage(all.take(i as int)),
        decreases all.len() - i,
    {
        assert(all.take(i + 1).drop_last() =~= all.take(i as int));
        assert(all.skip(i as int)[0] == all[i as int]);
        assert(all.skip(i as int).skip(1) =~= all.skip(i + 1));
        match &events[i] {
            StreamEvent::Delta(body) => {
                text = push_body(text, body);
                if let Some(u) = body.usage {
                    usage = u;
                }
            },
            StreamEvent::Unreadable(reason) => {
                return Err(transport::plain_failure("sse io: ", reason.as_str()));
            },
            StreamEvent::Undecodable(reason) => {
                return Err(transport::plain_failure("sse parse: ", reason.as_str()));
            },
        }
        i = i + 1;
    }
    assert(all.take(i as int) =~= all);
    Ok((text, usage))
}

/// What came back from a request for a stream.
pub enum StreamExchange {
    /// A success with its events.
    Events { status: u16, events: Vec<StreamEvent> },
    /// A success whose body cannot be read; holds the reason.
    Broken(String),
    /// An error status with its body.
    Refused { status: u16, body: String },
    /// Nothing: the network failed; holds the reason.
    Unreachable(String),
}

/// `r` is what a request for a stream comes to.
pub open spec fn is_stream_result(r: Result<(u16, Response), Error>, exchange: StreamExchange) -> bool {
    match exchange {
        StreamExchange::Events { status, events } => if good_events(events@) == events@.len() {
            is_finished(r, status, stream_text(events@), stream_usage(events@))
        } else {
            r matches Err(e) && is_stream_error(e, events@[good_events(events@)])
        },
        StreamExchange::Broken(reason) => r matches Err(e) && transport::is_plain_failure(
            e,
            "stream body read: "@ + reason@,
        ),
        StreamExchange::Refused { status, body } => r matches Err(e) && transport::is_http_error(
            e,
            status,
            body@,
        ),
        StreamExchange::Unreachable(reason) => r matches Err(e) && transport::is_plain_failure(
            e,
            "network: "@ + reason@,
        ),
    }
}

/// What a request for a stream comes to. There is no second attempt.
pub fn finish_stream(exchange: StreamExchange) -> (r: Result<(u16, Response), Error>)
    ensures
        is_stream_result(r, exchange),
{
    match exchange {
        StreamExchange::Events { status, events } => match accumulate_sse_responses(&events) {
            Ok((text, usage)) => finish(status, text, usage),
            Err(e) => Err(e),
        },
        StreamExchange::Broken(reason) => Err(
            transport::plain_failure("stream body read: ", reason.as_str()),
        ),
        StreamExchange::Refused { status, body } => Err(
            transport::http_error(status, body.as_str()),
        ),
        StreamExchange::Unreachable(reason) => Err(
            transport::plain_failure("network: ", reason.as_str()),
        ),
    }
}

/// A reply for `role` is asked for in JSON output mode.
pub open spec fn asks_json(role: Role, model: Seq<char>) -> bool {
    role::json_role(role) && !capabilities::skips_response_format(model)
}

/// Whether a reply for `role` is asked for in JSON output mode: the role needs
/// structured output, and the model takes the mode.
pub fn wants_response_format(role: Role, model: &str) -> (r: bool)
    ensures
        r == asks_json(role, model@),
{
    role::role_requires_json(role) && !capabilities::model_skips_response_format(model)
}

/// The text of two streams, one behind the other, is the text of the one
/// behind that of the other; events without counts leave the counts as they
/// were.
pub proof fn law_streams_join(a: Seq<StreamEvent>, b: Seq<StreamEvent>)
    ensures
        stream_text(a + b) == stream_text(a) + stream_text(b),
        (forall|i: int|
            0 <= i < b.len() ==> !((#[trigger] b[i]) matches StreamEvent::Delta(d)
                && d.usage is Some)) ==> stream_usage(a + b) == stream_usage(a),
    decreases b.len(),
{
    if b.len() == 0 {
        assert(a + b =~= a);
        assert(stream_text(a) + stream_text(b) =~= stream_text(a));
    } else {
        assert((a + b).drop_last() =~= a + b.drop_last());
        assert((a + b).last() == b.last());
        law_streams_join(a, b.drop_last());
        assert(stream_text(a + b) =~= stream_text(a) + stream_text(b));
    }
}

} // verus!
