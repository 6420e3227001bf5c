//! Requests, replies and the records of calls.

use vstd::prelude::*;

use crate::role::Role;

verus! {

/// A sampling parameter, as the bit pattern of a single-precision number.
#[derive(Debug, Clone, Copy, PartialEq, Eq, Structural)]
pub struct Knob {
    pub bits: u32,
}

/// How the model may use tools.
#[derive(Debug, Clone, Copy, PartialEq, Eq, Structural)]
pub enum ToolChoice {
    Auto,
    Required,
}

/// One message of a conversation.
#[derive(Debug, PartialEq, Eq)]
pub struct Message {
    pub role: String,
    pub content: String,
}

impl Clone for Message {
    fn clone(&self) -> (r: Self)
        ensures
            r == *self,
    {
        Message { role: self.role.clone(), content: self.content.clone() }
    }
}

/// A file that goes along with a request.
#[derive(Debug, Clone, PartialEq, Eq)]
pub struct Attachment {
    pub mime: String,
    pub modality: String,
    pub data: Vec<u8>,
}

/// A request to a model.
#[derive(Debug, Clone, PartialEq, Eq)]
pub struct Request {
    pub role: Role,
    pub model: String,
    pub system: String,
    pub user: String,
    /// The output ceiling; `None` leaves the field out of the wire body.
    pub max_tokens: Option<u32>,
    pub temperature: Option<Knob>,
    pub top_p: Option<Knob>,
    pub response_schema: Option<String>,
    pub stream: bool,
    pub extra_messages: Vec<Message>,
    pub attachments: Vec<Attachment>,
    pub tool_choice: Option<ToolChoice>,
}

/// Token counts of one call.
#[derive(Debug, Clone, Copy, PartialEq, Eq, Structural)]
pub struct Usage {
    pub input_tokens: u64,
    pub output_tokens: u64,
    pub cache_read: u64,
    pub cache_creation: u64,
}

impl Usage {
    /// The counts of a call that used nothing.
    pub open spec fn zero() -> Usage {
        Usage { input_tokens: 0, output_tokens: 0, cache_read: 0, cache_creation: 0 }
    }

    /// The counts of a call without prompt caching.
    pub open spec fn plain(input: u64, output: u64) -> Usage {
        Usage { input_tokens: input, output_tokens: output, cache_read: 0, cache_creation: 0 }
    }
}

impl Default for Usage {
    fn default() -> (r: Self)
        ensures
            r == Usage::zero(),
    {
        Usage { input_tokens: 0, output_tokens: 0, cache_read: 0, cache_creation: 0 }
    }
}

/// A model's reply.
#[derive(Debug, Clone, PartialEq, Eq)]
pub struct Response {
    pub text: String,
    pub finish_reason: Option<String>,
    pub truncated: bool,
    pub usage: Usage,
}

/// The record of one call.
#[derive(Debug, PartialEq, Eq)]
pub struct CallRecord {
    pub cache_key: String,
    pub provider: String,
    pub model: String,
    pub started_unix: u64,
    pub ended_unix: u64,
    pub http_status: Option<u16>,
    pub cache_hit: bool,
    pub usage: Usage,
    pub error: Option<String>,
}

impl Clone for CallRecord {
    fn clone(&self) -> (r: Self)
        ensures
            r == *self,
    {
        CallRecord {
            cache_key: self.cache_key.clone(),
            provider: self.provider.clone(),
            model: self.model.clone(),
            started_unix: self.started_unix,
            ended_unix: self.ended_unix,
            http_status: self.http_status,
            cache_hit: self.cache_hit,
            usage: self.usage,
            error: clone_opt(&self.error),
        }
    }
}

/// The characters of an optional string.
pub open spec fn opt_view(s: Option<String>) -> Option<Seq<char>> {
    match s {
        Some(t) => Some(t@),
        None => None,
    }
}

/// A copy of an optional string.
pub fn clone_opt(s: &Option<String>) -> (r: Option<String>)
    ensures
        r == *s,
{
    match s {
        Some(t) => Some(t.clone()),
        None => None,
    }
}

/// Counts without prompt caching are those of input and output, in this order.
pub proof fn law_plain_counts(input: u64, output: u64, s: String)
    ensures
        Usage::plain(input, output).input_tokens == input,
        Usage::plain(input, output).output_tokens == output,
        Usage::plain(input, output).cache_read == 0,
        Usage::plain(input, output).cache_creation == 0,
        Usage::zero() == Usage::plain(0, 0),
        opt_view(Some(s)) == Some(s@),
        opt_view(None) is None,
{
}

} // verus!
