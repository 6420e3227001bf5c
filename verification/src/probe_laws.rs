//! What the answer to a probe tells, and what a discovery comes to.

use vstd::prelude::*;
use vstd::string::*;

use crate::detection;
use crate::detection::StageView;
use crate::detection_laws;
use crate::detection_laws::Reply;
use crate::error::Error;
use crate::json;
use crate::patterns;
use crate::probe;
use crate::probe::{
    ProbeOutcome, ProbeReply, ProbeResult, ProbeTransport, MAX_AUTOPROBE_CEILING,
    MIN_AUTOPROBE_FLOOR,
};
use crate::text;
use crate::text_laws;

verus! {

/// One of the phrases by which an upstream objects to the number of tokens,
/// in lower case.
pub open spec fn is_objection(phrase: Seq<char>) -> bool {
    phrase == "max_tokens"@ || phrase == "max tokens"@ || phrase == "tokens limit"@ || phrase
        == "maximum context length"@
}

/// A text objects to the number of tokens exactly where it holds one of four
/// phrases, whatever stands around it and in whichever case.
pub proof fn law_objections(body: Seq<char>)
    ensures
        forall|a: Seq<char>, phrase: Seq<char>, b: Seq<char>|
            #![trigger is_objection(phrase), a + phrase + b]
            is_objection(phrase) && text::lower(body) == a + phrase + b
                ==> probe::speaks_of_max_tokens(body),
        probe::speaks_of_max_tokens(body) ==> exists|phrase: Seq<char>| #[trigger]
            is_objection(phrase) && text::occurs(text::lower(body), phrase),
{
    let low = text::lower(body);
    assert forall|a: Seq<char>, phrase: Seq<char>, b: Seq<char>|
        #![trigger is_objection(phrase), a + phrase + b]
        is_objection(phrase) && text::lower(body) == a + phrase + b implies
    probe::speaks_of_max_tokens(body) by {
        text_laws::law_occurs(low, phrase);
    }
    if text::occurs(low, "max_tokens_override"@) {
        reveal_strlit("max_tokens_override");
        reveal_strlit("max_tokens");
        let i = choose|i: int| text::stands_at(low, "max_tokens_override"@, i);
        let whole = low.subrange(i, i + "max_tokens_override"@.len());
        assert(low.subrange(i, i + "max_tokens"@.len()) =~= whole.take(
            "max_tokens"@.len() as int,
        ));
        assert(whole.take("max_tokens"@.len() as int) =~= "max_tokens"@);
        assert(text::stands_at(low, "max_tokens"@, i));
        assert(is_objection("max_tokens"@));
    } else if text::occurs(low, "max_tokens"@) {
        assert(is_objection("max_tokens"@));
    } else if text::occurs(low, "max tokens"@) {
        assert(is_objection("max tokens"@));
    } else if text::occurs(low, "tokens limit"@) {
        assert(is_objection("tokens limit"@));
    } else if text::occurs(low, "maximum context length"@) {
        assert(is_objection("maximum context length"@));
    }
}

/// A text that holds an objection, in lower case or capitals, objects.
pub proof fn law_objection_is_heard(a: Seq<char>, phrase: Seq<char>, b: Seq<char>)
    requires
        is_objection(phrase),
    ensures
        probe::speaks_of_max_tokens(a + phrase + b),
        probe::speaks_of_max_tokens(a + text::upper(phrase) + b),
{
    lemma_objection_is_lower(phrase);
    lemma_lower_parts(a, phrase, b);
    lemma_lower_parts(a, text::upper(phrase), b);
    if phrase.len() > 0 {
        text_laws::law_case(phrase, 0);
    }
    law_objections(a + phrase + b);
    law_objections(a + text::upper(phrase) + b);
    assert(is_objection(phrase));
}

proof fn lemma_lower_parts(a: Seq<char>, b: Seq<char>, c: Seq<char>)
    ensures
        text::lower(a + b + c) == text::lower(a) + text::lower(b) + text::lower(c),
{
    assert(text::lower(a + b + c) =~= text::lower(a) + text::lower(b) + text::lower(c));
}

proof fn lemma_objection_is_lower(phrase: Seq<char>)
    requires
        is_objection(phrase),
    ensures
        phrase.len() > 0,
        text::lower(phrase) == phrase,
{
    reveal_strlit("max_tokens");
    reveal_strlit("max tokens");
    reveal_strlit("tokens limit");
    reveal_strlit("maximum context length");
    assert(text::lower(phrase) =~= phrase);
}

/// What an answer tells goes by its status and by whether its text objects. A
/// success without an objection accepts the value, a client error with one
/// refuses it, and everything else tells nothing: an objection under another
/// status, and an error that is about something else.
pub proof fn law_answer_tells(status: u16, text: String)
    ensures
        ({
            let told = probe::told(ProbeReply::Answered { status, text });
            let objects = probe::speaks_of_max_tokens(text@);
            &&& told == ProbeOutcome::Accepted <==> status <= 399 && !objects
            &&& told == ProbeOutcome::Rejected <==> 400 <= status <= 499 && objects
            &&& told != ProbeOutcome::Indeterminate ==> probe::reply_body(
                ProbeReply::Answered { status, text },
            ) == text@
            &&& told == ProbeOutcome::Indeterminate ==> probe::reply_body(
                ProbeReply::Answered { status, text },
            ).len() == 0
        }),
{
}

/// An error never accepts the value. It refuses it where it is the upstream's
/// own, comes with a client error's status, and its message objects; it then
/// hands on the body that the message quotes.
pub proof fn law_error_tells(err: Error)
    ensures
        probe::told(ProbeReply::Failed(err)) != ProbeOutcome::Accepted,
        probe::told(ProbeReply::Failed(err)) == ProbeOutcome::Rejected <==> (
        err matches Error::Provider { message, http_status: Some(status) } && 400 <= status <= 499
            && probe::speaks_of_max_tokens(message@)),
        err matches Error::Provider { message, .. } ==> probe::told(ProbeReply::Failed(err))
            == ProbeOutcome::Rejected ==> probe::reply_body(ProbeReply::Failed(err))
            == probe::quoted_body(message@),
        probe::told(ProbeReply::Failed(err)) == ProbeOutcome::Indeterminate ==> probe::reply_body(
            ProbeReply::Failed(err),
        ).len() == 0,
        probe::told(ProbeReply::TimedOut) == ProbeOutcome::Indeterminate,
        probe::reply_body(ProbeReply::TimedOut).len() == 0,
{
}

/// The body that an error message quotes is what stands behind the status.
pub proof fn law_quoted_body(status: Seq<char>, body: Seq<char>)
    requires
        forall|i: int| 0 <= i < status.len() ==> #[trigger] status[i] != ':',
    ensures
        probe::quoted_body("http "@ + status + ": "@ + body) == body,
        probe::quoted_body("openai-compat: "@ + status + ": "@ + body) == body,
        probe::quoted_body(status).len() == 0,
{
    reveal_strlit("http ");
    reveal_strlit("openai-compat: ");
    reveal_strlit(": ");
    let one = "http "@ + status + ": "@ + body;
    let two = "openai-compat: "@ + status + ": "@ + body;
    let rest = status + ": "@ + body;
    text_laws::law_tail_after(status, ": "@, body);
    assert(one.take("http "@.len() as int) =~= "http "@);
    assert(one.skip("http "@.len() as int) =~= rest);
    assert(two.take("openai-compat: "@.len() as int) =~= "openai-compat: "@);
    assert(two.skip("openai-compat: "@.len() as int) =~= rest);
    assert(two[0] == 'o');
    assert(!text::has_prefix(two, "http "@)) by {
        assert(two.take("http "@.len() as int)[0] == 'o');
    }
    if text::has_prefix(status, "http "@) {
        text_laws::law_no_tail(status.skip("http "@.len() as int), ": "@);
    }
    if text::has_prefix(status, "openai-compat: "@) {
        assert(status[13] == status.take("openai-compat: "@.len() as int)[13]);
    }
}

/// A ceiling that a capture names counts exactly where it is at least the
/// smallest useful ceiling and below the largest 32-bit number; whatever else
/// was captured does not matter. Where the first capture is no number, the
/// second one counts.
pub proof fn law_reported_cap(n: nat, other: Option<Seq<char>>, noise: Seq<char>)
    requires
        n <= u64::MAX,
        exists|i: int| 0 <= i < noise.len() && !('0' <= #[trigger] noise[i] <= '9') && noise[i]
            != '+',
    ensures
        probe::reported_cap(Some(text::decimal(n)), other) == (if 1024 <= n <= 0xffff_fffe {
            Some(n as u32)
        } else {
            None
        }),
        probe::reported_cap(None, other) == probe::reported_cap(other, None),
        probe::reported_cap(Some(noise), other) == probe::reported_cap(other, None),
        probe::reported_cap(None, None) is None,
{
    text::law_decimal_round_trip(n, u64::MAX as nat);
    text_laws::law_parsed(noise, '0', u64::MAX as nat);
}

/// What a discovery comes to. What it found by itself is of use from 1024 on,
/// and is the result where it lies between floor and ceiling; otherwise the
/// nearer of the two is, and never more than the largest useful ceiling.
pub proof fn law_discovery_result(
    named: bool,
    found: u32,
    floor: u32,
    ceiling: u32,
    r: Result<u32, Error>,
)
    requires
        ceiling >= 1024,
        detection::result_is(StageView::Done { named, discovered: found }, floor, ceiling, Some(r)),
    ensures
        r is Err <==> !named && found < 1024,
        found >= 1024 && floor <= found <= ceiling && found <= MAX_AUTOPROBE_CEILING ==> r == Ok::<
            u32,
            Error,
        >(found),
        found >= 1024 && found < floor <= ceiling && floor <= MAX_AUTOPROBE_CEILING ==> r == Ok::<
            u32,
            Error,
        >(floor),
        found >= 1024 && (found > ceiling || floor > ceiling) && ceiling <= MAX_AUTOPROBE_CEILING
            ==> r == Ok::<u32, Error>(ceiling),
        found >= 1024 && (found >= MAX_AUTOPROBE_CEILING || floor >= MAX_AUTOPROBE_CEILING)
            && ceiling >= MAX_AUTOPROBE_CEILING ==> r == Ok::<u32, Error>(MAX_AUTOPROBE_CEILING),
        r matches Err(e) ==> e matches Error::Provider { message, http_status } && http_status
            is None && text::occurs(message@, text::decimal(found as nat)),
{
    if found < 1024 {
        let a = "auto-probe failed to discover a usable max_tokens (got "@;
        let b = "); provider likely rejected every probe"@;
        assert(a + text::decimal(found as nat) + b == detection::failure_text(found));
        text_laws::law_occurs(detection::failure_text(found), text::decimal(found as nat));
    }
}

/// Answers that are left open do no harm to the result of a discovery as long
/// as a value that the upstream takes is accepted when it is asked for again:
/// the result is a value that the upstream takes, at most one below the
/// largest within reach, and found exactly where it is a power of two.
pub proof fn law_open_answers_do_no_harm(
    cap: u32,
    floor: u32,
    ceiling: u32,
    h: Seq<Reply>,
    r: Result<u32, Error>,
    named: Option<u32>,
)
    requires
        ceiling >= MIN_AUTOPROBE_FLOOR,
        detection_laws::tolerable(ceiling, cap, h),
        probe::discovery_ends(floor, ceiling, h, r, named),
    ensures
        named is None,
        r is Err <==> cap < 1024,
        floor <= 1024 && 1024 <= cap && ceiling <= MAX_AUTOPROBE_CEILING ==> (r matches Ok(d) && d
            <= cap && d <= ceiling && (d + 1 >= cap || d + 2 >= ceiling)),
        floor <= 1024 && 1024 <= cap <= ceiling && ceiling <= MAX_AUTOPROBE_CEILING
            && detection_laws::is_power(cap as int) ==> r == Ok::<u32, Error>(cap),
        floor <= ceiling && cap >= MAX_AUTOPROBE_CEILING && ceiling >= MAX_AUTOPROBE_CEILING ==> r
            == Ok::<u32, Error>(MAX_AUTOPROBE_CEILING),
{
    detection_laws::law_open_answers_change_nothing(ceiling, cap, h);
    let s = detection_laws::replay(ceiling, h);
    law_discovery_result(s->named, s->discovered, floor, ceiling, r);
}

/// Where the upstream names its ceiling in answer to the opening probe and
/// accepts it, that ceiling is told, and it is the result where it lies
/// between floor and ceiling.
pub proof fn law_named_ceiling_is_the_result(
    cap: u32,
    floor: u32,
    ceiling: u32,
    h: Seq<Reply>,
    r: Result<u32, Error>,
    named: Option<u32>,
)
    requires
        ceiling >= MIN_AUTOPROBE_FLOOR,
        probe::discovery_ends(floor, ceiling, h, r, named),
        h.len() >= 2,
        h[0].reported == Some(cap),
        h[1].answers.len() > 0,
        h[1].answers[0] == ProbeOutcome::Accepted,
    ensures
        named == Some(cap),
        1024 <= cap && floor <= cap <= ceiling && cap <= MAX_AUTOPROBE_CEILING ==> r == Ok::<
            u32,
            Error,
        >(cap),
{
    detection_laws::law_named_ceiling_ends_the_discovery(ceiling, cap, h);
    law_discovery_result(true, cap, floor, ceiling, r);
}

/// The phrases by which an upstream names its ceiling, each with the number as
/// its group.
pub open spec fn phrases() -> Seq<Seq<char>> {
    seq![
        r"does not support max tokens > (\d+)"@,
        r"supports at most (\d+) completion tokens"@,
        r"is not less or equal to (\d+)"@,
    ]
}

/// The number that a text names is the one of the first phrase that captures
/// anything in it; without such a phrase it names none.
pub proof fn law_named_number(t: Seq<char>, k: int)
    requires
        0 <= k < 3,
        forall|i: int| 0 <= i < k ==> patterns::first_capture(#[trigger] phrases()[i], t) is None,
    ensures
        patterns::first_capture(phrases()[k], t) is Some ==> probe::named_number(t)
            == patterns::first_capture(phrases()[k], t),
        k == 2 && patterns::first_capture(phrases()[2], t) is None ==> probe::named_number(t) is None,
{
    assert(phrases()[0] == phrases()[0] && phrases()[1] == phrases()[1] && phrases()[2]
        == phrases()[2]);
}

/// A body is searched by the message of its error envelope first, and as it
/// stands where that names no number; without an envelope it is searched as it
/// stands.
pub proof fn law_cap_in_body(body: Seq<char>, m: Seq<char>, n: nat, k: nat)
    requires
        1024 <= n <= 0xffff_fffe,
        1024 <= k <= 0xffff_fffe,
    ensures
        json::json_string_at(body, "/error/message"@) == Some(m) && probe::named_number(m) == Some(
            text::decimal(n),
        ) ==> probe::cap_in_body(body) == Some(n as u32),
        (json::json_string_at(body, "/error/message"@) == Some(m) ==> probe::named_number(m) is None)
            && (json::json_string_at(body, "/error/message"@) matches Some(x) ==> x == m)
            && probe::named_number(body) == Some(text::decimal(k)) ==> probe::cap_in_body(body)
            == Some(k as u32),
{
    text::law_decimal_round_trip(n, u64::MAX as nat);
    text::law_decimal_round_trip(k, u64::MAX as nat);
}

/// How the probes of a discovery go out: the opening one and the one that is
/// sent again above a named ceiling with their bodies, in which a ceiling may
/// be named, and all others without.
pub proof fn law_how_probes_go_out<T: ProbeTransport>(transport: &T, ceiling: u32, h: Seq<Reply>)
    requires
        probe::came_over(transport, ceiling, h),
        h.len() > 0,
    ensures
        probe::came_over(transport, ceiling, h.drop_last()),
        ({
            let s = detection_laws::replay(ceiling, h.drop_last());
            let asked = detection::asked(s);
            let last = h.last();
            match s {
                StageView::Opening | StageView::Rechecking { .. } => exists|r: ProbeResult| #[trigger]
                    call_ensures(T::probe_send_with_body, (transport, asked[0]), r) && r.outcome
                        == last.answers[0] && probe::cap_in_body(r.body@) == last.reported,
                _ => last.reported is None && forall|j: int|
                    0 <= j < asked.len() ==> call_ensures(
                        T::probe_send,
                        (transport, asked[j]),
                        #[trigger] last.answers[j],
                    ),
            }
        }),
{
    let s = detection_laws::replay(ceiling, h.drop_last());
    let asked = detection::asked(s);
    if s is Opening || s is Rechecking {
        assert(probe::may_report(transport, asked[0], h.last().answers[0], h.last().reported));
    } else {
        assert forall|j: int| 0 <= j < asked.len() implies call_ensures(
            T::probe_send,
            (transport, asked[j]),
            #[trigger] h.last().answers[j],
        ) by {
            assert(probe::may_answer(transport, asked[j], h.last().answers[j]));
        }
    }
}

/// The keys of a header are put in quotes as one pattern and one template say;
/// a text in which nothing can be replaced stays as it is.
pub proof fn law_quoted_keys(body: Seq<char>)
    ensures
        ({
            let changed = patterns::replaced(
                r"\[providers\.([A-Za-z0-9_-]+)\.([A-Za-z0-9_-]+)\]"@,
                body,
                "[providers.\"$1\".\"$2\"]"@,
            );
            &&& changed matches Some(t) ==> probe::with_quoted_keys(body) == t
            &&& changed is None ==> probe::with_quoted_keys(body) == body
        }),
{
}

} // verus!
