//! Probing an upstream for its `max_tokens` ceiling.

use vstd::prelude::*;
use vstd::string::*;

use crate::detection;
use crate::detection::{Detector, StageView};
use crate::detection_laws;
use crate::detection_laws::Reply;
use crate::error::Error;
use crate::json;
use crate::patterns;
use crate::provider::Provider;
use crate::role::Role;
use crate::sidecar;
use crate::sidecar::FileRead;
use crate::text;
use crate::text_map::TextMap;
use crate::wire;
use crate::wire::Request;

pub use crate::detection::{MAX_AUTOPROBE_CEILING, MAX_PROBE_SHIFT, MIN_AUTOPROBE_FLOOR};

verus! {

/// How long a probe may take, in seconds.
pub const PROBE_TIMEOUT_SECS: u64 = 15;

/// What a probe told.
#[derive(Debug, Clone, Copy, PartialEq, Eq, Structural)]
pub enum ProbeOutcome {
    /// The upstream took the value.
    Accepted,
    /// The upstream refused the value for its size.
    Rejected,
    /// The answer says nothing about the value.
    Indeterminate,
}

/// What a probe told, with the body of the answer. A transport that reads
/// answers hands none back for an indeterminate one.
#[derive(Debug, Clone)]
pub struct ProbeResult {
    pub outcome: ProbeOutcome,
    pub body: String,
}

/// A way to probe an upstream.
pub trait ProbeTransport {
    /// Sends one probe that asks for `max_tokens`.
    fn probe_send(&self, max_tokens: u32) -> ProbeOutcome;

    /// Sends one probe and hands back the body of the answer too. A transport
    /// that does not say otherwise sends the probe as
    /// [`ProbeTransport::probe_send`] does and captures no body.
    fn probe_send_with_body(&self, max_tokens: u32) -> (r: ProbeResult)
        default_ensures
            call_ensures(Self::probe_send, (self, max_tokens), r.outcome),
            r.body@ == Seq::<char>::empty(),
    {
        let outcome = self.probe_send(max_tokens);
        ProbeResult { outcome, body: String::new() }
    }
}

// ---------------------------------------------------------------------------
// Reading answers
// ---------------------------------------------------------------------------

/// What an HTTP status alone says of a probe: everything but an error accepts
/// the value.
pub fn classify_status(status: u16, _body: &[u8]) -> (r: ProbeOutcome)
    ensures
        r == if status < 400 {
            ProbeOutcome::Accepted
        } else {
            ProbeOutcome::Rejected
        },
{
    if status < 400 {
        ProbeOutcome::Accepted
    } else {
        ProbeOutcome::Rejected
    }
}

/// The text of an error speaks of too many tokens, in any case of letters.
pub open spec fn speaks_of_max_tokens(body: Seq<char>) -> bool {
    let low = text::lower(body);
    ||| text::occurs(low, "max_tokens"@)
    ||| text::occurs(low, "max tokens"@)
    ||| text::occurs(low, "max_tokens_override"@)
    ||| text::occurs(low, "tokens limit"@)
    ||| text::occurs(low, "maximum context length"@)
}

/// Whether the body of an answer refuses the value of `max_tokens`.
pub fn body_carries_max_tokens_rejection(body: &str) -> (r: bool)
    ensures
        r == speaks_of_max_tokens(body@),
{
    let low = text::lower_chars(body);
    text::contains(&low, "max_tokens") || text::contains(&low, "max tokens") || text::contains(
        &low,
        "max_tokens_override",
    ) || text::contains(&low, "tokens limit") || text::contains(&low, "maximum context length")
}

/// The body that an error message quotes: what follows the first `": "`
/// behind `"http "` or `"openai-compat: "`, and nothing for other messages.
pub open spec fn quoted_body(message: Seq<char>) -> Seq<char> {
    if text::has_prefix(message, "http "@) && text::tail_after(
        message.skip("http "@.len() as int),
        ": "@,
    ) is Some {
        text::tail_after(message.skip("http "@.len() as int), ": "@)->0
    } else if text::has_prefix(message, "openai-compat: "@) && text::tail_after(
        message.skip("openai-compat: "@.len() as int),
        ": "@,
    ) is Some {
        text::tail_after(message.skip("openai-compat: "@.len() as int), ": "@)->0
    } else {
        Seq::empty()
    }
}

/// The body that a provider's error quotes.
pub open spec fn error_body(err: Error) -> Seq<char> {
    match err {
        Error::Provider { message, .. } => quoted_body(message@),
        _ => Seq::empty(),
    }
}

/// The body that a provider's error quotes; empty where it quotes none.
pub fn body_from_provider_error(err: &Error) -> (r: String)
    ensures
        r@ == error_body(*err),
{
    match err {
        Error::Provider { message, .. } => {
            let m = text::chars_of(message.as_str());
            if let Some(rest) = text::without_prefix(&m, "http ") {
                if let Some(body) = text::after_first(&rest, ": ") {
                    let b = text::string_of(&body, 0, body.len());
                    assert(b@ =~= body@);
                    return b;
                }
            }
            if let Some(rest) = text::without_prefix(&m, "openai-compat: ") {
                if let Some(body) = text::after_first(&rest, ": ") {
                    let b = text::string_of(&body, 0, body.len());
                    assert(b@ =~= body@);
                    return b;
                }
            }
            String::new()
        },
        _ => String::new(),
    }
}

/// An error refuses the value of `max_tokens`: a client error of the
/// upstream whose message speaks of it.
pub open spec fn refuses_max_tokens(err: Error) -> bool {
    match err {
        Error::Provider { message, http_status } => match http_status {
            Some(status) => 400 <= status < 500 && speaks_of_max_tokens(message@),
            None => false,
        },
        _ => false,
    }
}

/// Whether an error refuses the value of `max_tokens`.
pub fn is_max_tokens_rejection_error(err: &Error) -> (r: bool)
    ensures
        r == refuses_max_tokens(*err),
{
    match err {
        Error::Provider { message, http_status } => match http_status {
            Some(status) => 400 <= *status && *status < 500 && body_carries_max_tokens_rejection(
                message.as_str(),
            ),
            None => false,
        },
        _ => false,
    }
}

/// What came of sending a probe.
pub enum ProbeReply {
    /// The upstream answered.
    Answered { status: u16, text: String },
    /// The provider reported an error.
    Failed(Error),
    /// Nothing came in time.
    TimedOut,
}

/// What a reply tells of the value that was probed. An answer accepts it where
/// neither its status nor its text objects, and refuses it where both do.
pub open spec fn told(reply: ProbeReply) -> ProbeOutcome {
    match reply {
        ProbeReply::Answered { status, text } => {
            if status < 400 && !speaks_of_max_tokens(text@) {
                ProbeOutcome::Accepted
            } else if 400 <= status < 500 && speaks_of_max_tokens(text@) {
                ProbeOutcome::Rejected
            } else {
                ProbeOutcome::Indeterminate
            }
        },
        ProbeReply::Failed(err) => if refuses_max_tokens(err) {
            ProbeOutcome::Rejected
        } else {
            ProbeOutcome::Indeterminate
        },
        ProbeReply::TimedOut => ProbeOutcome::Indeterminate,
    }
}

/// The body that a reply comes with; none where it tells nothing.
pub open spec fn reply_body(reply: ProbeReply) -> Seq<char> {
    if told(reply) == ProbeOutcome::Indeterminate {
        Seq::empty()
    } else {
        match reply {
            ProbeReply::Answered { text, .. } => text@,
            ProbeReply::Failed(err) => error_body(err),
            ProbeReply::TimedOut => Seq::empty(),
        }
    }
}

/// Reads the reply to a probe. A client error that does not speak of
/// `max_tokens` (a refused key, an unknown model) tells nothing, and neither
/// does an answer without an error status that speaks of it.
pub fn read_reply(reply: ProbeReply) -> (r: ProbeResult)
    ensures
        r.outcome == told(reply),
        r.body@ == reply_body(reply),
        r.outcome == ProbeOutcome::Indeterminate ==> r.body@.len() == 0,
{
    match reply {
        ProbeReply::Answered { status, text } => {
            let objects = body_carries_max_tokens_rejection(text.as_str());
            if status < 400 && !objects {
                ProbeResult { outcome: ProbeOutcome::Accepted, body: text }
            } else if 400 <= status && status < 500 && objects {
                ProbeResult { outcome: ProbeOutcome::Rejected, body: text }
            } else {
                ProbeResult { outcome: ProbeOutcome::Indeterminate, body: String::new() }
            }
        },
        ProbeReply::Failed(err) => if is_max_tokens_rejection_error(&err) {
            ProbeResult { outcome: ProbeOutcome::Rejected, body: body_from_provider_error(&err) }
        } else {
            ProbeResult { outcome: ProbeOutcome::Indeterminate, body: String::new() }
        },
        ProbeReply::TimedOut => ProbeResult {
            outcome: ProbeOutcome::Indeterminate,
            body: String::new(),
        },
    }
}

/// The request of a probe for `model`: a minimal free-text prompt.
pub fn probe_request(model: &str, max_tokens: u32) -> (r: Request)
    ensures
        r.role == Role::Sketch,
        r.model@ == model@,
        r.system@ == ""@,
        r.user@ == "Reply with the single character: 1"@,
        r.max_tokens == Some(max_tokens),
        r.temperature is None,
        r.top_p is None,
        r.response_schema is None,
        !r.stream,
        r.extra_messages@.len() == 0,
        r.attachments@.len() == 0,
        r.tool_choice is None,
{
    Request {
        role: Role::Sketch,
        model: model.to_owned(),
        system: "".to_owned(),
        user: "Reply with the single character: 1".to_owned(),
        max_tokens: Some(max_tokens),
        temperature: None,
        top_p: None,
        response_schema: None,
        stream: false,
        extra_messages: Vec::new(),
        attachments: Vec::new(),
        tool_choice: None,
    }
}

/// Probes through a provider.
pub struct ProviderProbeTransport<P> {
    provider: P,
}

impl<P> ProviderProbeTransport<P> {
    /// The provider behind the transport.
    pub closed spec fn inner(&self) -> P {
        self.provider
    }

    /// Wraps a provider.
    pub fn new(provider: P) -> (r: Result<Self, Error>)
        ensures
            r matches Ok(t) && t.inner() == provider,
    {
        Ok(ProviderProbeTransport { provider })
    }

    /// The provider behind the transport.
    pub fn provider(&self) -> (r: &P)
        ensures
            *r == self.inner(),
    {
        &self.provider
    }
}

impl<P: Provider> ProviderProbeTransport<P> {
    /// The request that probes the provider's model for `max_tokens`.
    pub fn request(&self, max_tokens: u32) -> (r: Request)
        ensures
            r.role == Role::Sketch,
            r.model@ == self.inner().model_text(),
            r.system@ == ""@,
            r.user@ == "Reply with the single character: 1"@,
            r.max_tokens == Some(max_tokens),
            r.temperature is None,
            r.top_p is None,
            r.response_schema is None,
            !r.stream,
            r.extra_messages@.len() == 0,
            r.attachments@.len() == 0,
            r.tool_choice is None,
    {
        probe_request(self.provider.model(), max_tokens)
    }
}

// ---------------------------------------------------------------------------
// A ceiling that the upstream names
// ---------------------------------------------------------------------------

/// The ceiling that a text names, as the text has it: the number in one of
/// three phrases, the first of them that matches.
pub open spec fn named_number(t: Seq<char>) -> Option<Seq<char>> {
    match patterns::first_capture(r"does not support max tokens > (\d+)"@, t) {
        Some(n) => Some(n),
        None => match patterns::first_capture(
            r"supports at most (\d+) completion tokens"@,
            t,
        ) {
            Some(n) => Some(n),
            None => patterns::first_capture(r"is not less or equal to (\d+)"@, t),
        },
    }
}

/// The number that a capture denotes, if it fits 64 bits.
pub open spec fn capture_number(c: Option<Seq<char>>) -> Option<nat> {
    match c {
        Some(n) => text::parsed(n, u64::MAX as nat),
        None => None,
    }
}

/// The ceiling that two captures report: the first one that denotes a number
/// counts, and it counts only from the smallest useful ceiling up to below
/// the largest 32-bit number.
pub open spec fn reported_cap(first: Option<Seq<char>>, second: Option<Seq<char>>) -> Option<u32> {
    let n = match capture_number(first) {
        Some(n) => Some(n),
        None => capture_number(second),
    };
    match n {
        Some(n) => if MIN_AUTOPROBE_FLOOR <= n < u32::MAX {
            Some(n as u32)
        } else {
            None
        },
        None => None,
    }
}

/// The ceiling that the body of an error reports.
pub open spec fn cap_in_body(body: Seq<char>) -> Option<u32> {
    let message = json::json_string_at(body, "/error/message"@);
    reported_cap(
        named_number(
            match message {
                Some(m) => m,
                None => body,
            },
        ),
        named_number(body),
    )
}

fn capture_value(c: &Option<String>) -> (r: Option<u64>)
    ensures
        match r {
            Some(n) => capture_number(wire::opt_view(*c)) == Some(n as nat),
            None => capture_number(wire::opt_view(*c)) is None,
        },
{
    match c {
        Some(s) => text::parse_decimal(&text::chars_of(s.as_str()), u64::MAX),
        None => None,
    }
}

/// The ceiling that two captures report.
pub fn cap_from_captures(first: Option<String>, second: Option<String>) -> (r: Option<u32>)
    ensures
        r == reported_cap(wire::opt_view(first), wire::opt_view(second)),
{
    let n: u64 = match capture_value(&first) {
        Some(n) => n,
        None => match capture_value(&second) {
            Some(n) => n,
            None => return None,
        },
    };
    if n >= u32::MAX as u64 || n < MIN_AUTOPROBE_FLOOR as u64 {
        None
    } else {
        Some(n as u32)
    }
}

fn capture_named_number(t: &str) -> (r: Option<String>)
    ensures
        wire::opt_view(r) == named_number(t@),
{
    match patterns::capture(t, r"does not support max tokens > (\d+)") {
        Some(n) => Some(n),
        None => match patterns::capture(t, r"supports at most (\d+) completion tokens") {
            Some(n) => Some(n),
            None => patterns::capture(t, r"is not less or equal to (\d+)"),
        },
    }
}

/// The ceiling that the body of an error reports. The message of a JSON error
/// envelope is searched first, then the body as it stands.
pub fn parse_cap_from_error_body(body: &str) -> (r: Option<u32>)
    ensures
        r == cap_in_body(body@),
{
    let first = match json::string_at(body, "/error/message") {
        Some(m) => capture_named_number(m.as_str()),
        None => capture_named_number(body),
    };
    let second = capture_named_number(body);
    cap_from_captures(first, second)
}

// ---------------------------------------------------------------------------
// Running a discovery
// ---------------------------------------------------------------------------

/// `r` and `named` are the outcome of a discovery with the replies `h`.
pub open spec fn discovery_ends(
    floor: u32,
    ceiling: u32,
    h: Seq<Reply>,
    r: Result<u32, Error>,
    named: Option<u32>,
) -> bool {
    let s = detection_laws::replay(ceiling, h);
    &&& detection_laws::fits(ceiling, h)
    &&& s is Done
    &&& detection::result_is(s, floor, ceiling, Some(r))
    &&& named == (if s->named {
        Some(s->discovered)
    } else {
        None
    })
}

/// A probe of `n` over `transport` may have this outcome.
pub open spec fn may_answer<T: ProbeTransport>(
    transport: &T,
    n: u32,
    outcome: ProbeOutcome,
) -> bool {
    call_ensures(T::probe_send, (transport, n), outcome)
}

/// A probe of `n` over `transport` may have this outcome, with a body that
/// reports this ceiling.
pub open spec fn may_report<T: ProbeTransport>(
    transport: &T,
    n: u32,
    outcome: ProbeOutcome,
    reported: Option<u32>,
) -> bool {
    exists|r: ProbeResult| #[trigger]
        call_ensures(T::probe_send_with_body, (transport, n), r) && r.outcome == outcome
            && cap_in_body(r.body@) == reported
}

/// All of the replies `h` came over `transport`: those to the opening probe
/// and to the one that is sent again with their bodies, the others without.
pub open spec fn came_over<T: ProbeTransport>(transport: &T, ceiling: u32, h: Seq<Reply>) -> bool
    decreases h.len(),
{
    h.len() > 0 ==> {
        let s = detection_laws::replay(ceiling, h.drop_last());
        let asked = detection::asked(s);
        let answers = h.last().answers;
        &&& came_over(transport, ceiling, h.drop_last())
        &&& if s is Opening || s is Rechecking {
            may_report(transport, asked[0], answers[0], h.last().reported)
        } else {
            &&& h.last().reported is None
            &&& forall|j: int|
                0 <= j < asked.len() ==> may_answer(transport, asked[j], #[trigger] answers[j])
        }
    }
}

/// Asks for each of `points` once, in order.
fn probe_each<T: ProbeTransport>(transport: &T, points: &Vec<u32>) -> (r: Vec<ProbeOutcome>)
    ensures
        r@.len() == points@.len(),
        forall|j: int|
            0 <= j < points@.len() ==> may_answer(transport, points@[j], #[trigger] r@[j]),
{
    let mut out: Vec<ProbeOutcome> = Vec::new();
    let mut i: usize = 0;
    while i < points.len()
        invariant
            i <= points@.len(),
            out@.len() == i,
            forall|j: int| 0 <= j < i ==> may_answer(transport, points@[j], #[trigger] out@[j]),
        decreases points@.len() - i,
    {
        out.push(transport.probe_send(points[i]));
        i = i + 1;
    }
    out
}

/// What a discovery came to.
pub struct Discovery {
    /// The ceiling, or why there is none of use.
    pub result: Result<u32, Error>,
    /// The ceiling that the upstream named itself, if the discovery took it.
    pub named: Option<u32>,
    /// How many probes it took.
    pub probes: u32,
}

/// Discovers the upstream's ceiling.
pub fn discover<T: ProbeTransport>(transport: &T, floor: u32, ceiling: u32) -> (r: Discovery)
    requires
        ceiling >= MIN_AUTOPROBE_FLOOR,
    ensures
        exists|h: Seq<Reply>| #[trigger]
            discovery_ends(floor, ceiling, h, r.result, r.named) && came_over(
                transport,
                ceiling,
                h,
            ) && r.probes == detection_laws::probes(h),
{
    let mut d = Detector::new(floor, ceiling);
    let ghost mut h: Seq<Reply> = Seq::empty();
    loop
        invariant
            ceiling >= MIN_AUTOPROBE_FLOOR,
            d.floor() == floor,
            d.ceiling() == ceiling,
            d.is_valid(),
            detection_laws::fits(ceiling, h),
            came_over(transport, ceiling, h),
            d.stage() == detection_laws::replay(ceiling, h),
            d.answered() == detection_laws::probes(h),
            detection::budget(d.stage()) >= 0,
        decreases detection::budget(d.stage()),
    {
        let asks = d.asks();
        if asks.len() == 0 {
            if let Some(outcome) = d.result() {
                let found = Discovery { result: outcome, named: d.named_cap(), probes: d.probes() };
                assert(discovery_ends(floor, ceiling, h, found.result, found.named));
                return found;
            }
        }
        let (answers, reported): (Vec<ProbeOutcome>, Option<u32>) = if d.wants_body() {
            let opening = transport.probe_send_with_body(asks[0]);
            let mut answers: Vec<ProbeOutcome> = Vec::new();
            answers.push(opening.outcome);
            (answers, parse_cap_from_error_body(opening.body.as_str()))
        } else {
            (probe_each(transport, &asks), None)
        };
        proof {
            let g = h.push(Reply { answers: answers@, reported });
            assert(g.drop_last() =~= h);
            h = g;
        }
        d.feed(answers, reported);
    }
}

/// Discovers the upstream's ceiling, and tells the ceiling that the upstream
/// named itself, if the discovery took it.
pub fn detect_max_tokens_with_phase0_cap_callback<T: ProbeTransport>(
    transport: &T,
    floor: u32,
    ceiling: u32,
) -> (r: (Result<u32, Error>, Option<u32>))
    requires
        ceiling >= MIN_AUTOPROBE_FLOOR,
    ensures
        exists|h: Seq<Reply>| #[trigger]
            discovery_ends(floor, ceiling, h, r.0, r.1) && came_over(transport, ceiling, h),
{
    let found = discover(transport, floor, ceiling);
    let r = (found.result, found.named);
    proof {
        let h = choose|h: Seq<Reply>| #[trigger]
            discovery_ends(floor, ceiling, h, r.0, r.1) && came_over(transport, ceiling, h);
        assert(discovery_ends(floor, ceiling, h, r.0, r.1));
    }
    r
}

/// Discovers the upstream's ceiling.
pub fn detect_max_tokens<T: ProbeTransport>(transport: &T, floor: u32, ceiling: u32) -> (r: Result<
    u32,
    Error,
>)
    requires
        ceiling >= MIN_AUTOPROBE_FLOOR,
    ensures
        exists|h: Seq<Reply>, named: Option<u32>| #[trigger]
            discovery_ends(floor, ceiling, h, r, named) && came_over(transport, ceiling, h),
{
    let (r, _) = detect_max_tokens_with_phase0_cap_callback(transport, floor, ceiling);
    r
}

/// The upstream behind `transport` accepts exactly the values up to `cap`, and
/// does not name its ceiling.
pub open spec fn has_fixed_cap<T: ProbeTransport>(transport: &T, cap: u32) -> bool {
    &&& forall|n: u32, o: ProbeOutcome| #[trigger]
        may_answer(transport, n, o) ==> o == detection_laws::judge(cap, n)
    &&& forall|n: u32, o: ProbeOutcome, reported: Option<u32>| #[trigger]
        may_report(transport, n, o, reported) ==> o == detection_laws::judge(cap, n)
            && reported is None
}

proof fn lemma_on_the_way<T: ProbeTransport>(
    transport: &T,
    cap: u32,
    ceiling: u32,
    h: Seq<Reply>,
)
    requires
        ceiling >= MIN_AUTOPROBE_FLOOR,
        has_fixed_cap(transport, cap),
        detection_laws::fits(ceiling, h),
        came_over(transport, ceiling, h),
    ensures
        detection_laws::settled(ceiling, cap, detection_laws::replay(ceiling, h))
            == detection_laws::settled(ceiling, cap, StageView::Opening),
    decreases h.len(),
{
    if h.len() > 0 {
        let g = h.drop_last();
        let s = detection_laws::replay(ceiling, g);
        lemma_on_the_way(transport, cap, ceiling, g);
        detection_laws::lemma_stage_ok(ceiling, g);
        if !(s is Done) {
            detection_laws::lemma_asks(ceiling, s);
        }
        assert(h.last().answers =~= detection_laws::judged(cap, detection::asked(s)));
    }
}

/// Over a transport whose upstream accepts exactly the values up to `cap`, and
/// does not name its ceiling, a discovery finds what [`close_enough`] says:
/// its result is that value, held to floor and ceiling, or an error where it
/// is of no use. An upstream that accepts everything up to the largest ceiling
/// gives exactly that one.
///
/// [`close_enough`]: crate::detection_laws::close_enough
pub proof fn law_fixed_cap_is_found<T: ProbeTransport>(
    transport: &T,
    cap: u32,
    floor: u32,
    ceiling: u32,
    h: Seq<Reply>,
    r: Result<u32, Error>,
    named: Option<u32>,
)
    requires
        ceiling >= MIN_AUTOPROBE_FLOOR,
        has_fixed_cap(transport, cap),
        discovery_ends(floor, ceiling, h, r, named),
        came_over(transport, ceiling, h),
    ensures
        named is None,
        exists|d: u32| #[trigger]
            detection_laws::close_enough(ceiling, cap, d) && (if d < MIN_AUTOPROBE_FLOOR {
                r is Err
            } else {
                r == Ok::<u32, Error>(detection::fitted(d, floor, ceiling))
            }),
        ceiling >= MAX_AUTOPROBE_CEILING && cap >= MAX_AUTOPROBE_CEILING ==> r == Ok::<u32, Error>(
            MAX_AUTOPROBE_CEILING,
        ),
{
    lemma_on_the_way(transport, cap, ceiling, h);
    detection_laws::law_discovery_converges(ceiling, cap);
    let s = detection_laws::replay(ceiling, h);
    assert(detection_laws::close_enough(ceiling, cap, s->discovered));
}

// ---------------------------------------------------------------------------
// The file of discovered ceilings
// ---------------------------------------------------------------------------

/// A discovered ceiling.
#[derive(Debug, PartialEq, Eq)]
pub struct Entry {
    pub max_tokens: u32,
    /// When the ceiling was discovered.
    pub detected_at: String,
    /// When the upstream last accepted it.
    pub verified_at: String,
    pub auto: bool,
    /// How many probes the discovery took.
    pub attempts: u32,
    /// The ceiling that the upstream named itself.
    pub ceiling: Option<u32>,
}

impl Clone for Entry {
    fn clone(&self) -> (r: Self)
        ensures
            r == *self,
    {
        Entry {
            max_tokens: self.max_tokens,
            detected_at: self.detected_at.clone(),
            verified_at: self.verified_at.clone(),
            auto: self.auto,
            attempts: self.attempts,
            ceiling: self.ceiling,
        }
    }
}

/// A cap that the operator set.
#[derive(Debug, PartialEq, Eq)]
pub struct OperatorCap {
    pub min: u32,
    pub auto: bool,
    pub detected_at: String,
}

impl Clone for OperatorCap {
    fn clone(&self) -> (r: Self)
        ensures
            r == *self,
    {
        OperatorCap { min: self.min, auto: self.auto, detected_at: self.detected_at.clone() }
    }
}

/// The file of discovered ceilings, by provider and model.
pub struct MaxTokensTableFile {
    pub schema_version: u32,
    pub providers: TextMap<TextMap<Entry>>,
    pub operator_caps: TextMap<OperatorCap>,
}

/// The format version of [`MaxTokensTableFile`] that this crate writes.
pub const MAX_TOKENS_SCHEMA_VERSION: u32 = 1;

impl MaxTokensTableFile {
    /// A file that remembers nothing.
    pub fn new_empty() -> (r: Self)
        ensures
            r.schema_version == MAX_TOKENS_SCHEMA_VERSION,
            r.providers@ == Map::<Seq<char>, TextMap<Entry>>::empty(),
            r.operator_caps@ == Map::<Seq<char>, OperatorCap>::empty(),
    {
        MaxTokensTableFile {
            schema_version: MAX_TOKENS_SCHEMA_VERSION,
            providers: TextMap::new(),
            operator_caps: TextMap::new(),
        }
    }

    /// Takes what came of reading the file at `path`. A missing file
    /// remembers nothing; a file from the future is refused.
    pub fn load(path: &str, read: FileRead<MaxTokensTableFile>) -> (r: Result<Self, Error>)
        ensures
            match read {
                FileRead::Missing => r matches Ok(f) && f.schema_version
                    == MAX_TOKENS_SCHEMA_VERSION && f.providers@ == Map::<
                    Seq<char>,
                    TextMap<Entry>,
                >::empty() && f.operator_caps@ == Map::<Seq<char>, OperatorCap>::empty(),
                FileRead::Unreadable(m) => r == Err::<Self, Error>(Error::Io(m)),
                FileRead::Malformed(m) => r matches Err(Error::Provider { message, http_status })
                    && message@ == sidecar::malformed_text("max_tokens_auto.toml"@, path@, m@)
                    && http_status is None,
                FileRead::Parsed(f) => if f.schema_version > MAX_TOKENS_SCHEMA_VERSION {
                    r matches Err(Error::Provider { message, http_status }) && message@
                        == sidecar::too_new_text(
                        "max_tokens_auto.toml"@,
                        path@,
                        f.schema_version,
                        MAX_TOKENS_SCHEMA_VERSION,
                    ) && http_status is None
                } else {
                    r == Ok::<Self, Error>(f)
                },
            },
    {
        match read {
            FileRead::Missing => Ok(MaxTokensTableFile::new_empty()),
            FileRead::Unreadable(m) => Err(Error::Io(m)),
            FileRead::Malformed(m) => Err(
                sidecar::malformed("max_tokens_auto.toml", path, m.as_str()),
            ),
            FileRead::Parsed(f) => {
                if f.schema_version > MAX_TOKENS_SCHEMA_VERSION {
                    Err(
                        sidecar::too_new(
                            "max_tokens_auto.toml",
                            path,
                            f.schema_version,
                            MAX_TOKENS_SCHEMA_VERSION,
                        ),
                    )
                } else {
                    Ok(f)
                }
            },
        }
    }
}

/// `body` with the keys of each `[providers.a.b]` header in double quotes.
pub open spec fn with_quoted_keys(body: Seq<char>) -> Seq<char> {
    match patterns::replaced(
        r"\[providers\.([A-Za-z0-9_-]+)\.([A-Za-z0-9_-]+)\]"@,
        body,
        "[providers.\"$1\".\"$2\"]"@,
    ) {
        Some(t) => t,
        None => body,
    }
}

/// Puts the keys of each `[providers.a.b]` header of an encoded file into
/// double quotes, so that every header looks the same.
pub fn quote_provider_model_keys(body: &str) -> (r: String)
    ensures
        r@ == with_quoted_keys(body@),
{
    match patterns::replace_all(
        body,
        r"\[providers\.([A-Za-z0-9_-]+)\.([A-Za-z0-9_-]+)\]",
        "[providers.\"$1\".\"$2\"]",
    ) {
        Some(t) => t,
        None => body.to_owned(),
    }
}

} // verus!
