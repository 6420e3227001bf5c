//! Which parameters the body of an error points at, and which fields of a wire
//! body are unknown.

use vstd::prelude::*;
use vstd::string::*;

use crate::json;
use crate::param_rejections;
use crate::patterns;
use crate::text;
use crate::text_laws;

verus! {

/// A letter or an underscore.
pub open spec fn begins_name(c: char) -> bool {
    'a' <= c <= 'z' || 'A' <= c <= 'Z' || c == '_'
}

/// A letter, an underscore or a digit.
pub open spec fn continues_name(c: char) -> bool {
    begins_name(c) || '0' <= c <= '9'
}

/// An identifier.
pub open spec fn is_name(n: Seq<char>) -> bool {
    &&& n.len() > 0
    &&& begins_name(n[0])
    &&& forall|i: int| 0 <= i < n.len() ==> continues_name(#[trigger] n[i])
}

proof fn lemma_trimmed_behind(n: Seq<char>, rest: Seq<char>)
    requires
        n.len() > 0,
        !text::is_white(n.last()),
    ensures
        text::trim_end(n + rest) == n + text::trim_end(rest),
    decreases rest.len(),
{
    let s = n + rest;
    if rest.len() == 0 {
        assert(s =~= n);
        assert(n + text::trim_end(rest) =~= n);
    } else if text::is_white(rest.last()) {
        assert(s.last() == rest.last());
        assert(s.drop_last() =~= n + rest.drop_last());
        lemma_trimmed_behind(n, rest.drop_last());
    } else {
        assert(s.last() == rest.last());
    }
}

proof fn lemma_trim_end_begins(s: Seq<char>)
    ensures
        text::trim_end(s).len() <= s.len(),
        forall|i: int| 0 <= i < text::trim_end(s).len() ==> text::trim_end(s)[i] == s[i],
    decreases s.len(),
{
    if s.len() > 0 && text::is_white(s.last()) {
        let less = s.drop_last();
        lemma_trim_end_begins(less);
        assert forall|i: int| 0 <= i < text::trim_end(s).len() implies text::trim_end(s)[i]
            == s[i] by {
            assert(text::trim_end(less)[i] == less[i]);
        }
    }
}

proof fn lemma_word_len(n: Seq<char>, rest: Seq<char>)
    requires
        forall|i: int| 0 <= i < n.len() ==> continues_name(#[trigger] n[i]),
        rest.len() > 0 ==> !continues_name(rest[0]),
    ensures
        param_rejections::word_len(n + rest) == n.len(),
    decreases n.len(),
{
    let s = n + rest;
    if n.len() == 0 {
        assert(s =~= rest);
    } else {
        assert(continues_name(n[0]));
        assert(s[0] == n[0]);
        assert(s.skip(1) =~= n.skip(1) + rest);
        assert forall|i: int| 0 <= i < n.skip(1).len() implies continues_name(
            #[trigger] n.skip(1)[i],
        ) by {
            assert(continues_name(n[i + 1]));
        }
        lemma_word_len(n.skip(1), rest);
    }
}

/// The identifier at the start of a text is found whole, whatever white space
/// stands in front of it, and whether the text ends with it or goes on with
/// something that is no part of an identifier.
pub proof fn law_leading_identifier(white: Seq<char>, n: Seq<char>, rest: Seq<char>)
    requires
        text_laws::blank(white),
        is_name(n),
        rest.len() > 0 ==> !continues_name(rest[0]),
    ensures
        param_rejections::leading_identifier(white + n + rest) == Some(n),
{
    let s = white + n + rest;
    assert(begins_name(n[0]));
    assert(continues_name(n[n.len() - 1]));
    assert(s =~= white + (n + rest));
    assert((n + rest)[0] == n[0]);
    text_laws::lemma_trim_start(white, n + rest);
    lemma_trimmed_behind(n, rest);
    let tail = text::trim_end(rest);
    lemma_trim_end_begins(rest);
    lemma_word_len(n, tail);
    let t = n + tail;
    assert(text::trim(s) == t);
    assert(t[0] == n[0]);
    assert(t.take(n.len() as int) =~= n);
}

/// A text that is blank, or whose first character behind white space begins
/// no identifier, has none at its start.
pub proof fn law_no_leading_identifier(white: Seq<char>, rest: Seq<char>)
    requires
        text_laws::blank(white),
        rest.len() > 0 ==> !text::is_white(rest[0]) && !begins_name(rest[0]),
    ensures
        param_rejections::leading_identifier(white + rest) is None,
{
    text_laws::lemma_trim_start(white, rest);
    let t = text::trim_end(rest);
    lemma_trim_end_begins(rest);
    assert(text::trim(white + rest) == t);
}

/// One of the parameters that can be left out.
pub open spec fn can_be_left_out(n: Seq<char>) -> bool {
    n == "temperature"@ || n == "top_p"@ || n == "max_tokens"@
}

/// One of the phrases by which error messages point at a parameter.
pub open spec fn is_phrase(p: Seq<char>) -> bool {
    ||| p == r"'([A-Za-z_][A-Za-z0-9_]*)'"@
    ||| p == r"invalid params, param '([A-Za-z_][A-Za-z0-9_]*)'"@
    ||| p
        == r#"(?i)(?:\[(?:unknown_parameter|invalid_request_error)\]\s*)?(?:unknown|unsupported) parameter[:\s]+['"<]?([A-Za-z_][A-Za-z0-9_]*)"#@
    ||| p == r"([A-Za-z_][A-Za-z0-9_]*):\s+invalid value"@
    ||| p == r"(?i)invalid ([A-Za-z_][A-Za-z0-9_]*) value,\s+the valid range"@
    ||| p == r"(?i)invalid ([A-Za-z_][A-Za-z0-9_]*):\s+[a-zA-Z]"@
    ||| p == r"(?i)([A-Za-z_][A-Za-z0-9_]*) is (?:too|invalid) (?:large|small)"@
}

proof fn lemma_params(n: Seq<char>)
    ensures
        param_rejections::param_names().contains(n) == can_be_left_out(n),
        can_be_left_out(n) ==> is_name(n),
{
    let all = param_rejections::param_names();
    assert(all[0] == "temperature"@ && all[1] == "top_p"@ && all[2] == "max_tokens"@);
    assert(all.len() == 3);
    reveal_strlit("temperature");
    reveal_strlit("top_p");
    reveal_strlit("max_tokens");
}

/// A parameter that can be left out is rejected where the `param` field of a
/// client error begins with it: alone or with anything behind it that does not
/// lengthen the name. Under any other status nothing is rejected.
pub proof fn law_param_field_rejects(
    status: u16,
    body: Seq<char>,
    white: Seq<char>,
    n: Seq<char>,
    rest: Seq<char>,
)
    requires
        can_be_left_out(n),
        text_laws::blank(white),
        rest.len() > 0 ==> !continues_name(rest[0]),
        json::json_string_at(body, "/error/param"@) == Some(white + n + rest),
    ensures
        400 <= status <= 499 ==> param_rejections::rejections_in(status, body).contains(n),
        status <= 399 || status >= 500 ==> param_rejections::rejections_in(status, body).len() == 0,
{
    lemma_params(n);
    law_leading_identifier(white, n, rest);
    if 400 <= status < 500 {
        param_rejections::law_every_mention_is_rejected(status, body, n);
    }
}

/// A parameter that can be left out is rejected where any match of any of the
/// phrases in the message of a client error captures its name.
pub proof fn law_message_rejects(
    status: u16,
    body: Seq<char>,
    message: Seq<char>,
    phrase: Seq<char>,
    names: Seq<Option<Seq<char>>>,
    n: Seq<char>,
)
    requires
        400 <= status <= 499,
        can_be_left_out(n),
        json::json_string_at(body, "/error/message"@) == Some(message),
        is_phrase(phrase),
        patterns::all_captures(phrase, message) == Some(names),
        names.contains(Some(n)),
    ensures
        param_rejections::rejections_in(status, body).contains(n),
{
    lemma_params(n);
    param_rejections::law_every_mention_is_rejected(status, body, n);
    let found = param_rejections::captures_in(message);
    let i = lemma_phrase_is_listed(phrase);
    assert(found[i] == Some(names));
    assert(param_rejections::is_captured(found, n));
}

proof fn lemma_phrase_is_listed(phrase: Seq<char>) -> (i: int)
    requires
        is_phrase(phrase),
    ensures
        0 <= i < param_rejections::message_patterns().len(),
        param_rejections::message_patterns()[i] == phrase,
{
    let all = param_rejections::message_patterns();
    assert(all.contains(phrase)) by {
        assert(all[0] == all[0] && all[1] == all[1] && all[2] == all[2] && all[3] == all[3] && all[4]
            == all[4] && all[5] == all[5] && all[6] == all[6]);
    }
    choose|i: int| 0 <= i < all.len() && all[i] == phrase
}

/// What is rejected is a parameter that can be left out, and either the
/// `param` field begins with it or a phrase captures it in the message.
pub proof fn law_rejection_has_a_reason(status: u16, body: Seq<char>, n: Seq<char>)
    requires
        param_rejections::rejections_in(status, body).contains(n),
    ensures
        400 <= status <= 499,
        can_be_left_out(n),
        (json::json_string_at(body, "/error/param"@) matches Some(p)
            && param_rejections::leading_identifier(p) == Some(n)) || (json::json_string_at(
            body,
            "/error/message"@,
        ) matches Some(m) && exists|phrase: Seq<char>| #[trigger]
            is_phrase(phrase) && (patterns::all_captures(phrase, m) matches Some(names)
                && names.contains(Some(n)))),
{
    lemma_params(n);
    param_rejections::law_every_mention_is_rejected(status, body, n);
    if let Some(m) = json::json_string_at(body, "/error/message"@) {
        let found = param_rejections::captures_in(m);
        if param_rejections::is_captured(found, n) {
            let i = choose|i: int|
                0 <= i < found.len() && (#[trigger] found[i] matches Some(more) && more.contains(
                    Some(n),
                ));
            assert(is_phrase(param_rejections::message_patterns()[i]));
        }
    }
}

/// Rejected parameters come in alphabetical order: the limit first, then the
/// temperature, then `top_p`, and none twice.
pub proof fn law_rejections_are_in_order(status: u16, body: Seq<char>, i: int, j: int)
    requires
        0 <= i < j < param_rejections::rejections_in(status, body).len(),
    ensures
        param_rejections::rejections_in(status, body)[i] != "top_p"@,
        param_rejections::rejections_in(status, body)[j] != "max_tokens"@,
        param_rejections::rejections_in(status, body)[i]
            != param_rejections::rejections_in(status, body)[j],
{
    let all = param_rejections::rejections_in(status, body);
    let param = json::json_string_at(body, "/error/param"@);
    let named = match json::json_string_at(body, "/error/message"@) {
        Some(m) => param_rejections::names_in_message(m),
        None => Seq::empty(),
    };
    param_rejections::law_rejections_are_known_params(status, param, named);
    lemma_params(all[i]);
    lemma_params(all[j]);
    assert(text::precedes(all[i], all[j]));
    lemma_order();
    text::lemma_precedes_irreflexive(all[i]);
}

proof fn lemma_order()
    ensures
        !text::precedes("top_p"@, "temperature"@),
        !text::precedes("top_p"@, "max_tokens"@),
        !text::precedes("temperature"@, "max_tokens"@),
{
    reveal_strlit("temperature");
    reveal_strlit("top_p");
    reveal_strlit("max_tokens");
    let t = "temperature"@;
    let p = "top_p"@;
    let m = "max_tokens"@;
    assert(t =~= seq!['t'] + seq!['e'] + t.skip(2));
    assert(p =~= seq!['t'] + seq!['o'] + p.skip(2));
    text_laws::law_order(seq!['t'], 'o', p.skip(2), 'e', t.skip(2));
    assert(p[0] == 't' && m[0] == 'm' && t[0] == 't');
}

/// A field of a wire body that is known.
pub open spec fn is_known_field(k: Seq<char>) -> bool {
    ||| k == "role"@ || k == "model"@ || k == "messages"@ || k == "system"@ || k == "user"@
    ||| can_be_left_out(k)
    ||| k == "stream"@ || k == "stop"@ || k == "stop_sequences"@
    ||| k == "tools"@ || k == "tool_choice"@ || k == "thinking"@ || k == "metadata"@
    ||| k == "response_format"@ || k == "response_schema"@
    ||| k == "text"@ || k == "input"@ || k == "instructions"@
    ||| k == "extra_messages"@ || k == "attachments"@
}

/// The unknown ones among the fields of a wire body: each field is judged by
/// itself, and they keep their order.
pub proof fn law_unknown_fields(a: Seq<Seq<char>>, k: Seq<char>, b: Seq<Seq<char>>)
    ensures
        param_rejections::unknown_of(a + b) == param_rejections::unknown_of(a)
            + param_rejections::unknown_of(b),
        param_rejections::unknown_of(seq![k]) == (if is_known_field(k) {
            Seq::empty()
        } else {
            seq![k]
        }),
        param_rejections::unknown_of(Seq::empty()) == Seq::<Seq<char>>::empty(),
{
    let keep = |x: Seq<char>| !param_rejections::known_wire_fields().contains(x);
    Seq::filter_distributes_over_add(a, b, keep);
    reveal(Seq::filter);
    let all = param_rejections::known_wire_fields();
    assert(all.contains(k) == is_known_field(k)) by {
        lemma_known_fields(k);
    }
    let one = seq![k];
    assert(one.drop_last() =~= Seq::empty());
    assert(one.drop_last().filter(keep) =~= Seq::empty());
    if keep(k) {
        assert(one.filter(keep) =~= seq![k]);
    } else {
        assert(one.filter(keep) =~= Seq::empty());
    }
}

proof fn lemma_known_fields(k: Seq<char>)
    ensures
        param_rejections::known_wire_fields().contains(k) == is_known_field(k),
{
    let all = param_rejections::known_wire_fields();
    assert(all.len() == 22);
    assert(all[0] == "role"@ && all[1] == "model"@ && all[2] == "messages"@ && all[3] == "system"@
        && all[4] == "user"@ && all[5] == "max_tokens"@ && all[6] == "temperature"@ && all[7]
        == "top_p"@ && all[8] == "stream"@ && all[9] == "stop"@ && all[10] == "stop_sequences"@
        && all[11] == "tools"@ && all[12] == "tool_choice"@ && all[13] == "response_format"@
        && all[14] == "text"@ && all[15] == "input"@ && all[16] == "instructions"@ && all[17]
        == "extra_messages"@ && all[18] == "attachments"@ && all[19] == "response_schema"@ && all[20]
        == "thinking"@ && all[21] == "metadata"@);
    if all.contains(k) {
        let i = choose|i: int| 0 <= i < all.len() && all[i] == k;
        assert(0 <= i < 22);
    }
}

} // verus!
