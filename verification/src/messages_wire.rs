//! The Messages API.

use vstd::prelude::*;
use vstd::string::*;

use crate::endpoints;
use crate::error::Error;
use crate::openai_compatible;
use crate::openai_compatible::Turn;
use crate::role;
use crate::text;
use crate::transport;
use crate::transport::Step;
use crate::wire;
use crate::wire::{Knob, Message, Request, Response, Usage};

verus! {

/// The body of a request. A field that is `None` is left out.
pub struct MessagesRequest {
    pub model: String,
    pub system: String,
    pub messages: Vec<Message>,
    pub max_tokens: Option<u32>,
    pub temperature: Option<Knob>,
    pub top_p: Option<Knob>,
}

/// The turns of the conversation for `req`: the user's, then what the request
/// adds. Where it adds nothing and the role needs JSON, an opening brace of the
/// assistant follows.
pub open spec fn conversation(req: Request) -> Seq<Turn> {
    let opening = seq![("user"@, req.user@)];
    if req.extra_messages@.len() > 0 {
        opening + openai_compatible::turns(req.extra_messages@)
    } else if role::json_role(req.role) {
        opening.push(("assistant"@, "{"@))
    } else {
        opening
    }
}

/// `b` is the body for `req` with the ceiling `max_tokens`.
pub open spec fn is_body(b: MessagesRequest, req: Request, max_tokens: Option<u32>) -> bool {
    &&& b.model == req.model
    &&& b.system == req.system
    &&& openai_compatible::turns(b.messages@) == conversation(req)
    &&& b.max_tokens == max_tokens
    &&& b.temperature == req.temperature
    &&& b.top_p == req.top_p
}

/// The body for `req` with the ceiling `max_tokens`.
pub fn build_messages_body(req: &Request, max_tokens: Option<u32>) -> (r: MessagesRequest)
    ensures
        is_body(r, *req, max_tokens),
{
    let mut messages: Vec<Message> = Vec::new();
    messages.push(Message { role: "user".to_owned(), content: req.user.clone() });
    let ghost opening = seq![("user"@, req.user@)];
    let ghost extra = req.extra_messages@;
    assert(openai_compatible::turns(messages@) =~= opening);
    assert(extra.take(0) =~= Seq::empty());
    assert(openai_compatible::turns(messages@) =~= opening + openai_compatible::turns(
        extra.take(0),
    ));
    let mut i: usize = 0;
    while i < req.extra_messages.len()
        invariant
            extra == req.extra_messages@,
            i <= extra.len(),
            openai_compatible::turns(messages@) == opening + openai_compatible::turns(
                extra.take(i as int),
            ),
        decreases extra.len() - i,
    {
        let ghost before = messages@;
        let ghost turn = (extra[i as int].role@, extra[i as int].content@);
        messages.push(req.extra_messages[i].clone());
        assert(openai_compatible::turns(messages@) =~= openai_compatible::turns(before).push(turn));
        assert(openai_compatible::turns(extra.take(i + 1)) =~= openai_compatible::turns(
            extra.take(i as int),
        ).push(turn));
        assert(openai_compatible::turns(messages@) =~= opening + openai_compatible::turns(
            extra.take(i + 1),
        ));
        i = i + 1;
    }
    assert(extra.take(i as int) =~= extra);
    if req.extra_messages.len() == 0 {
        assert(openai_compatible::turns(messages@) =~= opening);
        if role::role_requires_json(req.role) {
            messages.push(Message { role: "assistant".to_owned(), content: "{".to_owned() });
            assert(openai_compatible::turns(messages@) =~= opening.push(("assistant"@, "{"@)));
        }
    }
    MessagesRequest {
        model: req.model.clone(),
        system: req.system.clone(),
        messages,
        max_tokens,
        temperature: req.temperature,
        top_p: req.top_p,
    }
}

/// The address that requests go to.
pub fn messages_url(endpoint: &str) -> (r: String)
    ensures
        r@ == endpoints::messages_address(endpoint@),
{
    endpoints::route(endpoint, "/v1/messages", "/messages")
}

/// What came back from one attempt.
pub enum MessagesExchange {
    /// A success, decoded.
    Decoded { status: u16, response: Response },
    /// A success that cannot be decoded; holds the reason.
    Undecodable(String),
    /// A success that holds no usable reply; holds the reason.
    Unusable(String),
    /// An error status, as an error.
    Refused(Error),
    /// Nothing: the network failed; holds the reason.
    Unreachable(String),
}

/// A piece of a reply.
pub struct MessagesPiece {
    pub kind: String,
    pub text: Option<String>,
}

/// A reply, as it was decoded.
pub struct MessagesReply {
    pub content: Vec<MessagesPiece>,
    pub stop_reason: Option<String>,
    /// The counts, where the reply gives any.
    pub usage: Option<Usage>,
}

/// A piece holds text of the reply.
pub open spec fn holds_text(p: MessagesPiece) -> bool {
    p.kind@ == "text"@ && p.text is Some
}

/// The texts of all pieces that hold text, one after the other.
pub open spec fn joined_text(pieces: Seq<MessagesPiece>) -> Seq<char>
    decreases pieces.len(),
{
    if pieces.len() == 0 {
        Seq::empty()
    } else if holds_text(pieces.last()) {
        joined_text(pieces.drop_last()) + pieces.last().text->0@
    } else {
        joined_text(pieces.drop_last())
    }
}

/// One of the pieces holds text, be it empty.
pub open spec fn any_text(pieces: Seq<MessagesPiece>) -> bool {
    exists|i: int| 0 <= i < pieces.len() && holds_text(#[trigger] pieces[i])
}

/// `r` is what a reply with this status comes to: its text, if one of its
/// pieces holds any. It was cut off where it stopped for the ceiling.
pub open spec fn is_reply(r: MessagesExchange, status: u16, reply: MessagesReply) -> bool {
    if any_text(reply.content@) {
        &&& r matches MessagesExchange::Decoded { status: s, response }
        &&& s == status
        &&& response.text@ == joined_text(reply.content@)
        &&& response.finish_reason == reply.stop_reason
        &&& response.truncated == (wire::opt_view(reply.stop_reason) == Some("max_tokens"@))
        &&& response.usage == (match reply.usage {
            Some(u) => u,
            None => Usage::zero(),
        })
    } else {
        r matches MessagesExchange::Unusable(reason) && reason@ == "reply holds no text"@
    }
}

/// What a reply with this status comes to.
pub fn read_reply(status: u16, reply: MessagesReply) -> (r: MessagesExchange)
    ensures
        is_reply(r, status, reply),
        r matches MessagesExchange::Decoded { response, .. } ==> response.truncated == (
        wire::opt_view(response.finish_reason) == Some("max_tokens"@)),
{
    let ghost all = reply.content@;
    let mut joined = String::new();
    let mut any = false;
    let mut i: usize = 0;
    assert(all.take(0) =~= Seq::empty());
    assert(joined@ =~= joined_text(all.take(0)));
    while i < reply.content.len()
        invariant
            all == reply.content@,
            i <= all.len(),
            joined@ == joined_text(all.take(i as int)),
            any == exists|j: int| 0 <= j < i && holds_text(#[trigger] all[j]),
        decreases all.len() - i,
    {
        assert(all.take(i + 1).drop_last() =~= all.take(i as int));
        assert(all.take(i + 1).last() == all[i as int]);
        let piece = &reply.content[i];
        if let Some(t) = &piece.text {
            if text::str_eq(piece.kind.as_str(), "text") {
                assert(holds_text(all[i as int]));
                joined = joined.concat(t.as_str());
                any = true;
            }
        }
        i = i + 1;
    }
    assert(all.take(i as int) =~= all);
    if !any {
        return MessagesExchange::Unusable("reply holds no text".to_owned());
    }
    let truncated = match &reply.stop_reason {
        Some(s) => text::str_eq(s.as_str(), "max_tokens"),
        None => false,
    };
    let usage = match reply.usage {
        Some(u) => u,
        None => Usage::default(),
    };
    MessagesExchange::Decoded {
        status,
        response: Response {
            text: joined,
            finish_reason: reply.stop_reason,
            truncated,
            usage,
        },
    }
}

/// `step` is what is done after attempt number `attempt`, where `worth_it`
/// says of a refusal whether another attempt may cure it.
pub open spec fn is_step(
    step: Step,
    attempt: u32,
    max_retries: u32,
    exchange: MessagesExchange,
    worth_it: spec_fn(Error) -> bool,
) -> bool {
    match exchange {
        MessagesExchange::Decoded { status, response } => step == Step::Done(
            Ok((status, response)),
        ),
        MessagesExchange::Undecodable(reason) => step matches Step::Done(Err(e))
            && transport::is_plain_failure(e, "decode response: "@ + reason@),
        MessagesExchange::Unusable(reason) => step matches Step::Done(Err(e))
            && transport::is_plain_failure(e, reason@),
        MessagesExchange::Refused(err) => if transport::tries_again(
            attempt,
            max_retries,
            worth_it(err),
        ) {
            step is Retry
        } else {
            step == Step::Done(Err(err))
        },
        MessagesExchange::Unreachable(reason) => if transport::tries_again(
            attempt,
            max_retries,
            true,
        ) {
            step is Retry
        } else {
            step matches Step::Done(Err(e)) && transport::is_plain_failure(
                e,
                "network: "@ + reason@,
            )
        },
    }
}

/// What is done after attempt number `attempt`: a reply ends the call, and a
/// failure that another attempt may cure is tried again until `max_retries`
/// attempts were made. A request to slow down is among those where
/// `retry_throttled` says so.
pub fn step(
    attempt: u32,
    max_retries: u32,
    exchange: MessagesExchange,
    retry_throttled: bool,
) -> (r: Step)
    ensures
        is_step(
            r,
            attempt,
            max_retries,
            exchange,
            |e: Error|
                if retry_throttled {
                    transport::curable_or_throttled(e)
                } else {
                    transport::curable(e)
                },
        ),
{
    match exchange {
        MessagesExchange::Decoded { status, response } => Step::Done(Ok((status, response))),
        MessagesExchange::Undecodable(reason) => Step::Done(
            Err(transport::plain_failure("decode response: ", reason.as_str())),
        ),
        MessagesExchange::Unusable(reason) => Step::Done(
            Err(Error::Provider { message: reason, http_status: None }),
        ),
        MessagesExchange::Refused(err) => {
            let worth_it = if retry_throttled {
                transport::is_curable_or_throttled(&err)
            } else {
                transport::is_curable(&err)
            };
            transport::after_failure(attempt, max_retries, err, worth_it)
        },
        MessagesExchange::Unreachable(reason) => transport::after_failure(
            attempt,
            max_retries,
            transport::plain_failure("network: ", reason.as_str()),
            true,
        ),
    }
}

/// What the request adds to the conversation is sent as it is, and then no
/// brace is put in front of the reply.
pub proof fn law_extra_messages_win(req: Request)
    requires
        req.extra_messages@.len() > 0,
    ensures
        conversation(req).len() == 1 + req.extra_messages@.len(),
        forall|i: int|
            0 <= i < req.extra_messages@.len() ==> #[trigger] conversation(req)[1 + i] == (
                req.extra_messages@[i].role@,
                req.extra_messages@[i].content@,
            ),
{
}

} // verus!
