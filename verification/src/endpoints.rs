//! From a provider's base address to the address that requests go to.

use vstd::prelude::*;
use vstd::string::*;

use crate::text;
use crate::text_laws;

verus! {

/// The address for `path` below `endpoint`. Trailing slashes of the endpoint
/// are dropped; an endpoint that ends in `known` names the path already, and
/// one that ends in `/v1` needs no version.
pub open spec fn routed(endpoint: Seq<char>, known: Seq<char>, path: Seq<char>) -> Seq<char> {
    let base = text::trim_end_char(endpoint, '/');
    if text::has_suffix(base, known) {
        base
    } else if text::has_suffix(base, "/v1"@) {
        base + path
    } else {
        base + "/v1"@ + path
    }
}

/// The address for `path` below `endpoint`.
pub fn route(endpoint: &str, known: &str, path: &str) -> (r: String)
    ensures
        r@ == routed(endpoint@, known@, path@),
{
    let base = text::without_trailing(endpoint, '/');
    let b = text::string_of(&base, 0, base.len());
    assert(b@ =~= base@);
    if text::ends_with(&base, known) {
        b
    } else if text::ends_with(&base, "/v1") {
        b.concat(path)
    } else {
        b.concat("/v1").concat(path)
    }
}

/// The address for chat completions.
pub open spec fn chat_address(endpoint: Seq<char>) -> Seq<char> {
    routed(endpoint, "/chat/completions"@, "/chat/completions"@)
}

/// The address for responses.
pub open spec fn responses_address(endpoint: Seq<char>) -> Seq<char> {
    routed(endpoint, "/responses"@, "/responses"@)
}

/// The address for messages.
pub open spec fn messages_address(endpoint: Seq<char>) -> Seq<char> {
    routed(endpoint, "/v1/messages"@, "/messages"@)
}

proof fn lemma_trim_keeps(s: Seq<char>)
    requires
        s.len() > 0,
        s.last() != '/',
    ensures
        text::trim_end_char(s, '/') == s,
{
}

proof fn lemma_trimmed(s: Seq<char>)
    ensures
        ({
            let t = text::trim_end_char(s, '/');
            &&& t.len() <= s.len()
            &&& text::trim_end_char(t, '/') == t
        }),
    decreases s.len(),
{
    if s.len() > 0 && s.last() == '/' {
        lemma_trimmed(s.drop_last());
    }
}

/// `s` ends in `t`, and `t` in `u`.
proof fn lemma_suffix_of_suffix(s: Seq<char>, t: Seq<char>, u: Seq<char>)
    requires
        text::has_suffix(s, t),
        text::has_suffix(t, u),
    ensures
        text::has_suffix(s, u),
{
    let a = s.skip(s.len() - u.len());
    let b = t.skip(t.len() - u.len());
    assert forall|i: int| 0 <= i < u.len() implies #[trigger] a[i] == b[i] by {
        assert(s.skip(s.len() - t.len())[t.len() - u.len() + i] == t[t.len() - u.len() + i]);
    }
    assert(a =~= b);
}

/// An address that is not the endpoint itself ends in the version and path.
proof fn lemma_routed_ends(endpoint: Seq<char>, known: Seq<char>, path: Seq<char>)
    ensures
        ({
            let base = text::trim_end_char(endpoint, '/');
            let url = routed(endpoint, known, path);
            let full = "/v1"@ + path;
            &&& text::has_suffix(base, known) ==> url == base
            &&& !text::has_suffix(base, known) ==> {
                &&& text::has_suffix(url, full)
                &&& url.len() - full.len() <= base.len()
                &&& url == base.take(url.len() - full.len()) + full
            }
        }),
{
    let base = text::trim_end_char(endpoint, '/');
    let url = routed(endpoint, known, path);
    let full = "/v1"@ + path;
    if !text::has_suffix(base, known) {
        if text::has_suffix(base, "/v1"@) {
            let k = base.len() - "/v1"@.len();
            assert(base =~= base.take(k) + base.skip(k));
            assert(url =~= base.take(k) + full);
        } else {
            assert(base.take(base.len() as int) =~= base);
            assert(url =~= base + full);
        }
        assert(url.skip(url.len() - full.len()) =~= full);
    }
}

proof fn lemma_routed_twice(endpoint: Seq<char>, known: Seq<char>, path: Seq<char>)
    requires
        text::has_suffix("/v1"@ + path, known),
        path.len() > 0,
        path.last() != '/',
    ensures
        routed(routed(endpoint, known, path), known, path) == routed(endpoint, known, path),
{
    let base = text::trim_end_char(endpoint, '/');
    let url = routed(endpoint, known, path);
    let full = "/v1"@ + path;
    lemma_trimmed(endpoint);
    lemma_routed_ends(endpoint, known, path);
    if !text::has_suffix(base, known) {
        lemma_suffix_of_suffix(url, full, known);
        assert(url.last() == path.last());
        lemma_trim_keeps(url);
    }
}

proof fn lemma_slash_is_dropped(endpoint: Seq<char>, known: Seq<char>, path: Seq<char>)
    ensures
        routed(endpoint.push('/'), known, path) == routed(endpoint, known, path),
{
    assert(endpoint.push('/').drop_last() =~= endpoint);
}

/// Routing an address that was routed already changes nothing.
pub proof fn law_routing_is_idempotent(endpoint: Seq<char>)
    ensures
        chat_address(chat_address(endpoint)) == chat_address(endpoint),
        responses_address(responses_address(endpoint)) == responses_address(endpoint),
        messages_address(messages_address(endpoint)) == messages_address(endpoint),
{
    reveal_strlit("/v1");
    reveal_strlit("/chat/completions");
    reveal_strlit("/responses");
    reveal_strlit("/messages");
    reveal_strlit("/v1/messages");
    assert(("/v1"@ + "/chat/completions"@).skip(3) =~= "/chat/completions"@);
    assert(("/v1"@ + "/responses"@).skip(3) =~= "/responses"@);
    assert(("/v1"@ + "/messages"@) =~= "/v1/messages"@);
    assert("/v1/messages"@.skip(0) =~= "/v1/messages"@);
    lemma_routed_twice(endpoint, "/chat/completions"@, "/chat/completions"@);
    lemma_routed_twice(endpoint, "/responses"@, "/responses"@);
    lemma_routed_twice(endpoint, "/v1/messages"@, "/messages"@);
}

/// A slash at the end of an endpoint makes no difference.
pub proof fn law_trailing_slash_is_ignored(endpoint: Seq<char>)
    ensures
        chat_address(endpoint.push('/')) == chat_address(endpoint),
        responses_address(endpoint.push('/')) == responses_address(endpoint),
        messages_address(endpoint.push('/')) == messages_address(endpoint),
{
    lemma_slash_is_dropped(endpoint, "/chat/completions"@, "/chat/completions"@);
    lemma_slash_is_dropped(endpoint, "/responses"@, "/responses"@);
    lemma_slash_is_dropped(endpoint, "/v1/messages"@, "/messages"@);
}

/// The only place of `full` in an address is its end.
pub open spec fn ends_once(url: Seq<char>, full: Seq<char>) -> bool {
    forall|i: int| text::stands_at(url, full, i) <==> i == url.len() - full.len()
}

proof fn lemma_appears_once(endpoint: Seq<char>, known: Seq<char>, path: Seq<char>)
    requires
        text::has_suffix("/v1"@ + path, known),
        !text::has_suffix(text::trim_end_char(endpoint, '/'), known),
        !text::occurs(text::trim_end_char(endpoint, '/'), "/v1"@ + path),
        path.len() > 1,
        path.last() != '/',
        forall|d: int| 0 <= d < path.len() - 1 && path[d] == '/' ==> #[trigger] path[d + 1] != 'v',
    ensures
        ends_once(routed(endpoint, known, path), "/v1"@ + path),
{
    reveal_strlit("/v1");
    let base = text::trim_end_char(endpoint, '/');
    let url = routed(endpoint, known, path);
    let full = "/v1"@ + path;
    lemma_routed_ends(endpoint, known, path);
    let k = url.len() - full.len();
    let head = base.take(k);
    assert(url == head + full);
    assert forall|i: int| text::stands_at(url, full, i) <==> i == k by {
        if i == k {
            assert(url.subrange(k, k + full.len()) =~= full);
        } else if text::stands_at(url, full, i) {
            if i + full.len() <= k {
                assert(base.subrange(i, i + full.len()) =~= url.subrange(i, i + full.len()));
                assert(text::stands_at(base, full, i));
            } else {
                let d = k - i;
                assert(0 < d < full.len());
                assert(url.subrange(i, i + full.len())[d] == full[d]);
                assert(full[d] == '/');
                if d + 1 < full.len() {
                    assert(url.subrange(i, i + full.len())[d + 1] == full[d + 1]);
                    assert(full[d + 1] == 'v');
                    if d >= 3 {
                        assert(path[d - 3] == '/');
                        assert(path[(d - 3) + 1] == 'v');
                    }
                } else {
                    assert(full[d] == path.last());
                }
            }
        }
    }
}

/// The routed path is appended once: where the endpoint does not hold it
/// already, it stands in the address at the end and nowhere else.
pub proof fn law_path_is_appended_once(endpoint: Seq<char>)
    ensures
        ({
            let base = text::trim_end_char(endpoint, '/');
            &&& !text::has_suffix(base, "/chat/completions"@) && !text::occurs(
                base,
                "/v1/chat/completions"@,
            ) ==> ends_once(chat_address(endpoint), "/v1/chat/completions"@)
            &&& !text::has_suffix(base, "/responses"@) && !text::occurs(base, "/v1/responses"@)
                ==> ends_once(responses_address(endpoint), "/v1/responses"@)
            &&& !text::has_suffix(base, "/v1/messages"@) && !text::occurs(base, "/v1/messages"@)
                ==> ends_once(messages_address(endpoint), "/v1/messages"@)
        }),
{
    reveal_strlit("/v1");
    reveal_strlit("/chat/completions");
    reveal_strlit("/responses");
    reveal_strlit("/messages");
    reveal_strlit("/v1/chat/completions");
    reveal_strlit("/v1/responses");
    reveal_strlit("/v1/messages");
    let base = text::trim_end_char(endpoint, '/');
    assert("/v1"@ + "/chat/completions"@ =~= "/v1/chat/completions"@);
    assert("/v1"@ + "/responses"@ =~= "/v1/responses"@);
    assert("/v1"@ + "/messages"@ =~= "/v1/messages"@);
    assert(("/v1"@ + "/chat/completions"@).skip(3) =~= "/chat/completions"@);
    assert(("/v1"@ + "/responses"@).skip(3) =~= "/responses"@);
    assert("/v1/messages"@.skip(0) =~= "/v1/messages"@);
    if !text::has_suffix(base, "/chat/completions"@) && !text::occurs(
        base,
        "/v1/chat/completions"@,
    ) {
        lemma_appears_once(endpoint, "/chat/completions"@, "/chat/completions"@);
    }
    if !text::has_suffix(base, "/responses"@) && !text::occurs(base, "/v1/responses"@) {
        lemma_appears_once(endpoint, "/responses"@, "/responses"@);
    }
    if !text::has_suffix(base, "/v1/messages"@) && !text::occurs(base, "/v1/messages"@) {
        lemma_appears_once(endpoint, "/v1/messages"@, "/messages"@);
    }
}

/// Where an endpoint leads. One that ends in the version gets the path, one
/// that names the path already is taken as it is, and any other gets both.
pub proof fn law_routes(base: Seq<char>)
    requires
        base.len() > 0,
        base.last() != '/',
    ensures
        chat_address(base + "/v1"@) == base + "/v1/chat/completions"@,
        responses_address(base + "/v1"@) == base + "/v1/responses"@,
        messages_address(base + "/v1"@) == base + "/v1/messages"@,
        chat_address(base + "/chat/completions"@) == base + "/chat/completions"@,
        responses_address(base + "/responses"@) == base + "/responses"@,
        messages_address(base + "/v1/messages"@) == base + "/v1/messages"@,
        !text::has_suffix(base, "/v1"@) && !text::has_suffix(base, "/chat/completions"@)
            ==> chat_address(base) == base + "/v1/chat/completions"@,
        !text::has_suffix(base, "/v1"@) && !text::has_suffix(base, "/responses"@)
            ==> responses_address(base) == base + "/v1/responses"@,
        !text::has_suffix(base, "/v1"@) && !text::has_suffix(base, "/v1/messages"@)
            ==> messages_address(base) == base + "/v1/messages"@,
{
    reveal_strlit("/v1");
    reveal_strlit("/chat/completions");
    reveal_strlit("/responses");
    reveal_strlit("/messages");
    reveal_strlit("/v1/chat/completions");
    reveal_strlit("/v1/responses");
    reveal_strlit("/v1/messages");
    assert("/v1"@ + "/chat/completions"@ =~= "/v1/chat/completions"@);
    assert("/v1"@ + "/responses"@ =~= "/v1/responses"@);
    assert("/v1"@ + "/messages"@ =~= "/v1/messages"@);
    lemma_trim_keeps(base);
    let versioned = base + "/v1"@;
    assert(versioned.last() == '1');
    lemma_trim_keeps(versioned);
    text_laws::law_prefix_and_suffix(base, "/v1"@);
    lemma_other_end(versioned, "/chat/completions"@);
    lemma_other_end(versioned, "/responses"@);
    lemma_other_end(versioned, "/v1/messages"@);
    assert(versioned + "/chat/completions"@ =~= base + "/v1/chat/completions"@);
    assert(versioned + "/responses"@ =~= base + "/v1/responses"@);
    assert(versioned + "/messages"@ =~= base + "/v1/messages"@);
    lemma_named_path(base, "/chat/completions"@, "/chat/completions"@);
    lemma_named_path(base, "/responses"@, "/responses"@);
    lemma_named_path(base, "/v1/messages"@, "/messages"@);
}

proof fn lemma_other_end(s: Seq<char>, suffix: Seq<char>)
    requires
        s.len() > 0,
        suffix.len() > 0,
        s.last() != suffix.last(),
    ensures
        !text::has_suffix(s, suffix),
{
    if text::has_suffix(s, suffix) {
        assert(s.skip(s.len() - suffix.len()).last() == s.last());
    }
}

proof fn lemma_named_path(base: Seq<char>, known: Seq<char>, path: Seq<char>)
    requires
        known.len() > 0,
        known.last() != '/',
    ensures
        routed(base + known, known, path) == base + known,
{
    assert((base + known).last() == known.last());
    lemma_trim_keeps(base + known);
    text_laws::law_prefix_and_suffix(base, known);
}

} // verus!
