//! The outcome of looking for an API key.

use vstd::prelude::*;
use vstd::string::*;

use crate::error::Error;
use crate::text;
use crate::text_laws;

verus! {

/// The message where no key is found for `kind`.
pub open spec fn missing_text(kind: Seq<char>) -> Seq<char> {
    text::upper(kind) + "_API_KEY not set; provide via env, --api-key, or api_keys.toml"@
}

/// The message where the key that is found for `kind` cannot be used.
pub open spec fn unusable_text(kind: Seq<char>, reason: Seq<char>) -> Seq<char> {
    kind + ": "@ + reason + "; check api_keys.toml and the env var fallback"@
}

/// `e` says that the key is missing or unusable, with this message.
pub open spec fn is_key_error(e: Error, text: Seq<char>) -> bool {
    e matches Error::InvalidApiKey { message, http_status } && message@ == text
        && http_status is None
}

/// `r` is what a lookup for `kind` comes to: the key, an error that names the
/// variable to set, or the lookup's own error, said of `kind` where it is one
/// of the key.
pub open spec fn is_resolved(
    r: Result<String, Error>,
    kind: Seq<char>,
    found: Option<Result<String, Error>>,
) -> bool {
    match found {
        Some(Ok(key)) => r == Ok::<String, Error>(key),
        Some(Err(Error::InvalidApiKey { message, .. })) => r matches Err(e) && is_key_error(
            e,
            unusable_text(kind, message@),
        ),
        Some(Err(other)) => r == Err::<String, Error>(other),
        None => r matches Err(e) && is_key_error(e, missing_text(kind)),
    }
}

/// What a lookup for `kind` comes to.
pub fn resolve_key(kind: &str, found: Option<Result<String, Error>>) -> (r: Result<String, Error>)
    ensures
        is_resolved(r, kind@, found),
{
    match found {
        Some(Ok(key)) => Ok(key),
        Some(Err(Error::InvalidApiKey { message, http_status: _ })) => {
            let said = kind.to_owned().concat(": ").concat(message.as_str()).concat(
                "; check api_keys.toml and the env var fallback",
            );
            Err(Error::InvalidApiKey { message: said, http_status: None })
        },
        Some(Err(other)) => Err(other),
        None => {
            let upper = text::ascii_upper(kind);
            let said = upper.concat(
                "_API_KEY not set; provide via env, --api-key, or api_keys.toml",
            );
            Err(Error::InvalidApiKey { message: said, http_status: None })
        },
    }
}

/// The value of an environment variable holds more than white space.
pub open spec fn is_set(value: Option<String>) -> bool {
    value matches Some(s) && text::trim(s@).len() > 0
}

/// The key in an environment variable; an error with the message `missing`
/// where it is unset or blank.
pub fn key_from_env(value: Option<String>, missing: &str) -> (r: Result<String, Error>)
    ensures
        is_set(value) ==> r == Ok::<String, Error>(value->0),
        !is_set(value) ==> (r matches Err(e) && is_key_error(e, missing@)),
{
    if let Some(key) = value {
        let chars = text::chars_of(key.as_str());
        if text::trimmed(&chars).len() > 0 {
            return Ok(key);
        }
    }
    Err(Error::InvalidApiKey { message: missing.to_owned(), http_status: None })
}

/// What a lookup finds is handed on as it is, unless it is an error about the
/// key: that names the kind and the reason. Where nothing is found, the error
/// begins with the variable to set.
pub proof fn law_key_lookup(
    r: Result<String, Error>,
    kind: Seq<char>,
    found: Option<Result<String, Error>>,
)
    requires
        is_resolved(r, kind, found),
    ensures
        r is Ok <==> found matches Some(Ok(_)),
        found matches Some(Ok(key)) ==> r == Ok::<String, Error>(key),
        found matches Some(Err(e)) ==> !(e is InvalidApiKey) ==> r == Err::<String, Error>(e),
        found matches Some(Err(Error::InvalidApiKey { message, http_status })) ==> r matches Err(
            Error::InvalidApiKey { message: said, http_status: status },
        ) && status is None && text::has_prefix(said@, kind) && text::occurs(said@, message@),
        found is None ==> (r matches Err(Error::InvalidApiKey { message: said, http_status: status })
            && status is None && text::has_prefix(said@, text::upper(kind) + "_API_KEY"@)),
{
    match found {
        Some(Err(Error::InvalidApiKey { message, .. })) => {
            let end = "; check api_keys.toml and the env var fallback"@;
            let all = unusable_text(kind, message@);
            text_laws::law_prefix_and_suffix(kind, ": "@ + message@ + end);
            assert(kind + (": "@ + message@ + end) =~= all);
            text_laws::law_occurs(all, message@);
            assert(all =~= (kind + ": "@) + message@ + end);
        },
        None => {
            reveal_strlit("_API_KEY");
            reveal_strlit("_API_KEY not set; provide via env, --api-key, or api_keys.toml");
            let end = "_API_KEY not set; provide via env, --api-key, or api_keys.toml"@;
            let begin = text::upper(kind) + "_API_KEY"@;
            assert(end =~= "_API_KEY"@ + end.skip(8));
            text_laws::law_prefix_and_suffix(begin, end.skip(8));
            assert(begin + end.skip(8) =~= missing_text(kind));
        },
        _ => {},
    }
}

/// A variable is set where its value holds a character that is not white
/// space, at whatever place.
pub proof fn law_set_variables(s: String)
    ensures
        is_set(Some(s)) <==> !text_laws::blank(s@),
        !is_set(None),
{
    let none = Seq::<char>::empty();
    if text_laws::blank(s@) {
        text_laws::law_trim(s@, none, none);
        assert(s@ + none + none =~= s@);
    } else {
        text_laws::lemma_trim_keeps_print(s@);
    }
}

} // verus!
