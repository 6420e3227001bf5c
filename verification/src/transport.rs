//! What an exchange over HTTP comes to, and whether it is tried again.

use vstd::prelude::*;
use vstd::string::*;
use vstd::utf8::*;

use crate::error::Error;
use crate::probe;
use crate::text;
use crate::wire::Response;

verus! {

/// The largest reply that is handed on, in bytes.
pub const MAX_RESPONSE_BYTES: usize = 10_485_760;

/// The message for a reply that is too large.
pub open spec fn oversize_text(what: Seq<char>, size: nat, limit: nat) -> Seq<char> {
    what + " is "@ + text::decimal(size) + " bytes, more than the limit of "@ + text::decimal(limit)
}

/// `e` is the error for something of `size` bytes where `limit` are allowed.
pub open spec fn is_oversize(e: Error, what: Seq<char>, size: nat, limit: nat) -> bool {
    e matches Error::Provider { message, http_status } && message@ == oversize_text(
        what,
        size,
        limit,
    ) && http_status is None
}

/// Refuses what is larger than `limit`.
pub fn check_size(what: &str, size: usize, limit: usize) -> (r: Result<(), Error>)
    ensures
        r is Ok <==> size <= limit,
        r matches Err(e) ==> is_oversize(e, what@, size as nat, limit as nat),
{
    if size <= limit {
        Ok(())
    } else {
        let s = text::decimal_of(size as u64);
        let l = text::decimal_of(limit as u64);
        let message = what.to_owned().concat(" is ").concat(s.as_str()).concat(
            " bytes, more than the limit of ",
        ).concat(l.as_str());
        Err(Error::Provider { message, http_status: None })
    }
}

/// The size of a text in bytes.
pub open spec fn size_of(s: Seq<char>) -> nat {
    encode_utf8(s).len()
}

/// Refuses a reply whose text is too large.
pub fn check_reply_size(reply: &str) -> (r: Result<(), Error>)
    ensures
        r is Ok <==> size_of(reply@) <= MAX_RESPONSE_BYTES,
        r matches Err(e) ==> is_oversize(
            e,
            "response"@,
            size_of(reply@),
            MAX_RESPONSE_BYTES as nat,
        ),
{
    check_size("response", reply.as_bytes().len(), MAX_RESPONSE_BYTES)
}

/// The status says that the request succeeded.
pub open spec fn succeeded(status: u16) -> bool {
    200 <= status < 300
}

/// Whether the status says that the request succeeded.
pub fn is_success(status: u16) -> (r: bool)
    ensures
        r == succeeded(status),
{
    200 <= status && status < 300
}

/// The message for an answer with an error status.
pub open spec fn http_text(status: u16, body: Seq<char>) -> Seq<char> {
    "http "@ + text::decimal(status as nat) + ": "@ + body
}

/// `e` is the error for an answer with an error status: a refused key, a plan
/// that is used up, a timeout, or another failure of the upstream.
pub open spec fn is_http_error(e: Error, status: u16, body: Seq<char>) -> bool {
    match e {
        Error::InvalidApiKey { message, http_status } => {
            &&& status == 401 || status == 403
            &&& message@ == http_text(status, body)
            &&& http_status == Some(status)
        },
        Error::PlanExhausted { message, http_status } => {
            &&& status == 429
            &&& message@ == http_text(status, body)
            &&& http_status == Some(status)
        },
        Error::Timeout { message, http_status } => {
            &&& status == 408 || status == 504 || status == 524
            &&& message@ == http_text(status, body)
            &&& http_status == Some(status)
        },
        Error::Provider { message, http_status } => {
            &&& status != 401 && status != 403 && status != 429
            &&& status != 408 && status != 504 && status != 524
            &&& message@ == http_text(status, body)
            &&& http_status == Some(status)
        },
        _ => false,
    }
}

/// The error for an answer with an error status.
pub fn http_error(status: u16, body: &str) -> (e: Error)
    ensures
        is_http_error(e, status, body@),
{
    let code = text::decimal_of(status as u64);
    let message = "http ".to_owned().concat(code.as_str()).concat(": ").concat(body);
    let http_status = Some(status);
    if status == 401 || status == 403 {
        Error::InvalidApiKey { message, http_status }
    } else if status == 429 {
        Error::PlanExhausted { message, http_status }
    } else if status == 408 || status == 504 || status == 524 {
        Error::Timeout { message, http_status }
    } else {
        Error::Provider { message, http_status }
    }
}

/// An error that another attempt may cure.
pub open spec fn curable(e: Error) -> bool {
    e is Timeout || e is PlanExhausted || e is Provider
}

/// An error that another attempt may cure, a request to slow down among them.
pub open spec fn curable_or_throttled(e: Error) -> bool {
    curable(e) || e is Throttled
}

/// Whether another attempt may cure the error.
pub fn is_curable(e: &Error) -> (r: bool)
    ensures
        r == curable(*e),
{
    match e {
        Error::Timeout { .. } => true,
        Error::PlanExhausted { .. } => true,
        Error::Provider { .. } => true,
        _ => false,
    }
}

/// Whether another attempt may cure the error, a request to slow down among
/// those that it may.
pub fn is_curable_or_throttled(e: &Error) -> (r: bool)
    ensures
        r == curable_or_throttled(*e),
{
    match e {
        Error::Throttled { .. } => true,
        _ => is_curable(e),
    }
}

/// `e` is a failure of the upstream, or of the way to it, with this message
/// and without a status.
pub open spec fn is_plain_failure(e: Error, text: Seq<char>) -> bool {
    e matches Error::Provider { message, http_status } && message@ == text && http_status is None
}

/// A failure of the upstream, or of the way to it, without a status.
pub fn plain_failure(prefix: &str, reason: &str) -> (e: Error)
    ensures
        is_plain_failure(e, prefix@ + reason@),
{
    Error::Provider { message: prefix.to_owned().concat(reason), http_status: None }
}

/// What came back from one attempt.
pub enum Exchange<T> {
    /// A success, decoded.
    Decoded { status: u16, reply: T },
    /// A success that cannot be decoded; holds the reason.
    Undecodable(String),
    /// An error status with its body.
    Refused { status: u16, body: String },
    /// Nothing: the network failed; holds the reason.
    Unreachable(String),
}

/// What is done after one attempt.
pub enum Step {
    /// The call is over.
    Done(Result<(u16, Response), Error>),
    /// Wait, then try again.
    Retry,
}

/// A request that is ready to go out.
pub struct SendPlan<B> {
    /// The address.
    pub url: String,
    /// The body.
    pub body: B,
    /// After how many attempts a failure is final; the first is made in any
    /// case.
    pub max_retries: u32,
}

/// The failed attempt number `attempt` is followed by another one.
pub open spec fn tries_again(attempt: u32, max_retries: u32, worth_it: bool) -> bool {
    worth_it && attempt < max_retries
}

/// What is done after the failed attempt number `attempt`.
pub fn after_failure(attempt: u32, max_retries: u32, err: Error, worth_it: bool) -> (r: Step)
    ensures
        r == if tries_again(attempt, max_retries, worth_it) {
            Step::Retry
        } else {
            Step::Done(Err(err))
        },
{
    if !worth_it || attempt >= max_retries {
        Step::Done(Err(err))
    } else {
        Step::Retry
    }
}

/// How many attempts are made from number `attempt` on, where `worth_it` says
/// of each whether it fails in a way that another one may cure.
pub open spec fn attempts_made(worth_it: Seq<bool>, attempt: u32, max_retries: u32) -> nat
    decreases max_retries - attempt,
{
    if worth_it.len() > 0 && tries_again(attempt, max_retries, worth_it[0]) {
        1 + attempts_made(worth_it.skip(1), (attempt + 1) as u32, max_retries)
    } else {
        1
    }
}

/// A call makes at least one attempt and no more than it is allowed, whatever
/// comes back; where none beyond the first is allowed, it makes exactly one.
pub proof fn law_attempts_are_bounded(worth_it: Seq<bool>, max_retries: u32)
    ensures
        1 <= attempts_made(worth_it, 1, max_retries),
        max_retries >= 1 ==> attempts_made(worth_it, 1, max_retries) <= max_retries,
        max_retries <= 1 ==> attempts_made(worth_it, 1, max_retries) == 1,
{
    if max_retries >= 1 {
        lemma_attempts(worth_it, 1, max_retries);
    }
}

proof fn lemma_attempts(worth_it: Seq<bool>, attempt: u32, max_retries: u32)
    requires
        attempt <= max_retries,
    ensures
        attempts_made(worth_it, attempt, max_retries) <= max_retries - attempt + 1,
    decreases max_retries - attempt,
{
    if worth_it.len() > 0 && tries_again(attempt, max_retries, worth_it[0]) {
        lemma_attempts(worth_it.skip(1), (attempt + 1) as u32, max_retries);
    }
}

/// In digits followed by `": "`, that separator comes first where the digits
/// end.
proof fn lemma_first_separator(head: Seq<char>, body: Seq<char>)
    requires
        forall|i: int| 0 <= i < head.len() ==> #[trigger] head[i] != ':',
    ensures
        text::tail_after(head + ": "@ + body, ": "@) == Some(body),
{
    reveal_strlit(": ");
    let s = head + ": "@ + body;
    let i = head.len() as int;
    assert(s.subrange(i, i + 2) =~= ": "@);
    assert forall|j: int| 0 <= j < i implies !text::stands_at(s, ": "@, j) by {
        if text::stands_at(s, ": "@, j) {
            assert(s.subrange(j, j + 2)[0] == ':');
            assert(s[j] == head[j]);
        }
    }
    text::lemma_index_of(s, ": "@, i);
    assert(s.skip(i + 2) =~= body);
}

/// The error for an answer with an error status gives the body back, where it
/// counts as a failure of the upstream.
pub proof fn law_http_error_quotes_the_body(e: Error, status: u16, body: Seq<char>)
    requires
        is_http_error(e, status, body),
        e is Provider,
    ensures
        probe::error_body(e) == body,
{
    reveal_strlit("http ");
    let digits = text::decimal(status as nat);
    let message = http_text(status, body);
    text::lemma_decimal(status as nat);
    assert forall|i: int| 0 <= i < digits.len() implies #[trigger] digits[i] != ':' by {
        assert(text::is_digit(digits[i]));
    }
    lemma_first_separator(digits, body);
    assert(message.take(5) =~= "http "@);
    assert(message.skip(5) =~= digits + ": "@ + body);
}

/// The message for an answer with an error status after several attempts.
pub open spec fn exhausted_text(status: u16, attempt: u32, body: Seq<char>) -> Seq<char> {
    "openai-compat: HTTP "@ + text::decimal(status as nat) + " after "@ + text::decimal(
        attempt as nat,
    ) + " attempts: "@ + body
}

/// `e` is the error for an answer with an error status after several attempts.
pub open spec fn is_exhausted(e: Error, status: u16, attempt: u32, body: Seq<char>) -> bool {
    e matches Error::Provider { message, http_status } && message@ == exhausted_text(
        status,
        attempt,
        body,
    ) && http_status == Some(status)
}

/// The error for an answer with an error status after several attempts.
pub fn exhausted(status: u16, attempt: u32, body: &str) -> (e: Error)
    ensures
        is_exhausted(e, status, attempt, body@),
{
    let code = text::decimal_of(status as u64);
    let count = text::decimal_of(attempt as u64);
    let message = "openai-compat: HTTP ".to_owned().concat(code.as_str()).concat(" after ").concat(
        count.as_str(),
    ).concat(" attempts: ").concat(body);
    Error::Provider { message, http_status: Some(status) }
}

/// The error for an answer with an error status after several attempts gives
/// the body back.
pub proof fn law_exhausted_error_quotes_the_body(e: Error, status: u16, attempt: u32, body: Seq<char>)
    requires
        is_exhausted(e, status, attempt, body),
    ensures
        probe::error_body(e) == body,
{
    reveal_strlit("openai-compat: HTTP ");
    reveal_strlit("openai-compat: ");
    reveal_strlit("HTTP ");
    reveal_strlit(" after ");
    reveal_strlit(" attempts: ");
    reveal_strlit(" attempts");
    reveal_strlit(": ");
    reveal_strlit("http ");
    let a = text::decimal(status as nat);
    let b = text::decimal(attempt as nat);
    let message = exhausted_text(status, attempt, body);
    let head = "HTTP "@ + a + " after "@ + b + " attempts"@;
    text::lemma_decimal(status as nat);
    text::lemma_decimal(attempt as nat);
    assert forall|i: int| 0 <= i < head.len() implies #[trigger] head[i] != ':' by {
        let x = 5 + a.len();
        let y = x + 7;
        let z = y + b.len();
        if 5 <= i < x {
            assert(head[i] == a[i - 5]);
            assert(text::is_digit(a[i - 5]));
        } else if y <= i < z {
            assert(head[i] == b[i - y]);
            assert(text::is_digit(b[i - y]));
        }
    }
    lemma_first_separator(head, body);
    assert(message.take(15) =~= "openai-compat: "@);
    assert(message.skip(15) =~= head + ": "@ + body);
    assert(message[0] == 'o');
    assert(!text::has_prefix(message, "http "@)) by {
        if text::has_prefix(message, "http "@) {
            assert(message.take(5)[0] == 'h');
        }
    }
}

} // verus!
