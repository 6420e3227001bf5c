//! The output ceiling that a request goes out with.
//!
//! Four layers are asked in turn: the environment, the table of discovered
//! ceilings, the operator's and the provider kind's caps, and a default.

use std::sync::Arc;

use vstd::prelude::*;
use vstd::string::*;

use crate::detection;
use crate::detection::{MAX_AUTOPROBE_CEILING, MIN_AUTOPROBE_FLOOR};
use crate::probe_table::MaxTokensTable;
use crate::text;
use crate::text_laws;

verus! {

/// The ceiling where nothing else sets one.
pub const DEFAULT_MAX_TOKENS: u32 = 1_000_000;

/// The characters of an optional string slice.
pub open spec fn str_view(s: Option<&str>) -> Option<Seq<char>> {
    match s {
        Some(t) => Some(t@),
        None => None,
    }
}

/// `s` in upper case, as `str::to_uppercase` has it.
pub uninterp spec fn uppercase(s: Seq<char>) -> Seq<char>;

/// `str::to_uppercase` maps a string to upper case by the Unicode tables; the
/// result is a function of the string, named [`uppercase`].
pub assume_specification[ str::to_uppercase ](s: &str) -> (r: String)
    ensures
        r@ == uppercase(s@),
;

/// Dots and dashes turned into underscores.
pub open spec fn underscored(s: Seq<char>) -> Seq<char> {
    s.map_values(
        |c: char|
            if c == '.' || c == '-' {
                '_'
            } else {
                c
            },
    )
}

/// The environment variable that sets the ceiling of a section whose name
/// reads `upper` in upper case.
pub open spec fn variable_name(upper: Seq<char>) -> Seq<char> {
    "MOAGAN_"@ + underscored(upper) + "_MAX_TOKENS"@
}

/// The environment variable for a section name in upper case.
pub fn variable_for(upper: &str) -> (r: String)
    ensures
        r@ == variable_name(upper@),
{
    let mut middle = String::new();
    for c in it: upper.chars()
        invariant
            it.seq() == upper@,
            middle@ =~= underscored(it.seq().take(it.index() as int)),
    {
        if c == '.' || c == '-' {
            middle.push('_');
        } else {
            middle.push(c);
        }
    }
    "MOAGAN_".to_owned().concat(middle.as_str()).concat("_MAX_TOKENS")
}

/// The environment variable that sets the ceiling of `section`.
pub fn env_key(section: &str) -> (r: String)
    ensures
        r@ == variable_name(uppercase(section@)),
{
    variable_for(section.to_uppercase().as_str())
}

/// The ceiling that the value of the environment variable sets: a decimal
/// number in the range of useful ceilings, byte order marks in front and
/// white space around it aside.
pub open spec fn env_cap(raw: Option<Seq<char>>) -> Option<u32> {
    match raw {
        Some(s) => match text::parsed(
            text::trim(text::trim_start_char(s, '\u{FEFF}')),
            u32::MAX as nat,
        ) {
            Some(n) => if MIN_AUTOPROBE_FLOOR <= n <= MAX_AUTOPROBE_CEILING {
                Some(n as u32)
            } else {
                None
            },
            None => None,
        },
        None => None,
    }
}

/// The ceiling that the value of the environment variable sets.
pub fn cap_from_env(raw: Option<&str>) -> (r: Option<u32>)
    ensures
        r == env_cap(str_view(raw)),
{
    match raw {
        Some(s) => {
            let cleaned = text::trimmed(&text::without_leading(s, '\u{FEFF}'));
            match text::parse_decimal(&cleaned, u32::MAX as u64) {
                Some(n) => if MIN_AUTOPROBE_FLOOR as u64 <= n && n <= MAX_AUTOPROBE_CEILING as u64 {
                    Some(n as u32)
                } else {
                    None
                },
                None => None,
            }
        },
        None => None,
    }
}

/// The smaller of two optional caps.
pub open spec fn tighter(a: Option<u32>, b: Option<u32>) -> Option<u32> {
    match (a, b) {
        (Some(x), Some(y)) => Some(if x <= y {
            x
        } else {
            y
        }),
        (Some(x), None) => Some(x),
        (None, y) => y,
    }
}

/// The ceiling by the four layers, in the range of useful ceilings.
pub open spec fn layered(
    env: Option<Seq<char>>,
    cached: Option<u32>,
    operator_cap: Option<u32>,
    kind_hard_cap: Option<u32>,
) -> u32 {
    if env_cap(env) is Some {
        env_cap(env)->0
    } else if cached is Some && cached->0 >= MIN_AUTOPROBE_FLOOR {
        detection::useful(cached->0)
    } else {
        match tighter(operator_cap, kind_hard_cap) {
            Some(n) => detection::useful(n),
            None => DEFAULT_MAX_TOKENS,
        }
    }
}

/// What the table remembers of a model.
pub open spec fn cached_in(
    table: Option<&MaxTokensTable>,
    section: Seq<char>,
    model: Seq<char>,
) -> Option<u32> {
    match table {
        Some(t) => t.remembered(section, model),
        None => None,
    }
}

/// What a shared table remembers of a model.
pub open spec fn shared_cap(
    table: Option<Arc<MaxTokensTable>>,
    section: Seq<char>,
    model: Seq<char>,
) -> Option<u32> {
    match table {
        Some(t) => t.remembered(section, model),
        None => None,
    }
}

/// What a shared table remembers of a model.
pub fn remembered_cap(table: &Option<Arc<MaxTokensTable>>, section: &str, model: &str) -> (r:
    Option<u32>)
    ensures
        r == shared_cap(*table, section@, model@),
{
    match table {
        Some(t) => t.resolve_cached(section, model),
        None => None,
    }
}

/// An optional cap as a number.
pub open spec fn or_unlimited(cap: Option<u32>) -> u32 {
    match cap {
        Some(n) => n,
        None => u32::MAX,
    }
}

/// The smaller of two numbers.
pub open spec fn smaller(a: u32, b: u32) -> u32 {
    if a <= b {
        a
    } else {
        b
    }
}

/// The ceiling of a request under the caps of operator, table and upstream:
/// the smallest of all.
pub open spec fn clamped(
    requested: Option<u32>,
    operator_cap: Option<u32>,
    table_cap: Option<u32>,
    upstream_cap: u32,
) -> u32 {
    smaller(
        smaller(smaller(or_unlimited(requested), or_unlimited(operator_cap)), or_unlimited(table_cap)),
        upstream_cap,
    )
}

/// The ceiling of a request under the caps of operator, table and upstream.
pub fn clamp(
    requested: Option<u32>,
    operator_cap: Option<u32>,
    table_cap: Option<u32>,
    upstream_cap: u32,
) -> (r: u32)
    ensures
        r == clamped(requested, operator_cap, table_cap, upstream_cap),
{
    let mut r: u32 = upstream_cap;
    if let Some(n) = requested {
        if n < r {
            r = n;
        }
    }
    if let Some(n) = operator_cap {
        if n < r {
            r = n;
        }
    }
    if let Some(n) = table_cap {
        if n < r {
            r = n;
        }
    }
    r
}

/// The ceiling for `model` of `section`, always in the range of useful
/// ceilings. `env` is what the environment holds under [`env_key`].
pub fn resolve_max_tokens(
    section: &str,
    model: &str,
    env: Option<&str>,
    table: Option<&MaxTokensTable>,
    operator_cap: Option<u32>,
    kind_hard_cap: Option<u32>,
) -> (r: u32)
    ensures
        r == layered(
            str_view(env),
            cached_in(table, section@, model@),
            operator_cap,
            kind_hard_cap,
        ),
        MIN_AUTOPROBE_FLOOR <= r <= MAX_AUTOPROBE_CEILING,
{
    if let Some(n) = cap_from_env(env) {
        return n;
    }
    if let Some(t) = table {
        if let Some(n) = t.resolve_cached(section, model) {
            if n >= MIN_AUTOPROBE_FLOOR {
                return detection::make_useful(n);
            }
        }
    }
    match (operator_cap, kind_hard_cap) {
        (Some(a), Some(b)) => detection::make_useful(
            if a <= b {
                a
            } else {
                b
            },
        ),
        (Some(a), None) => detection::make_useful(a),
        (None, Some(b)) => detection::make_useful(b),
        (None, None) => DEFAULT_MAX_TOKENS,
    }
}

/// The ceiling for `model` of `section` without caps of operator or kind.
pub fn resolve_max_tokens_simple(
    section: &str,
    model: &str,
    env: Option<&str>,
    table: Option<&MaxTokensTable>,
) -> (r: u32)
    ensures
        r == layered(str_view(env), cached_in(table, section@, model@), None, None),
        MIN_AUTOPROBE_FLOOR <= r <= MAX_AUTOPROBE_CEILING,
{
    resolve_max_tokens(section, model, env, table, None, None)
}

/// A ceiling is never above the request nor above any cap, and it is one of
/// them.
pub proof fn law_clamp_takes_the_smallest(
    requested: u32,
    operator_cap: Option<u32>,
    table_cap: Option<u32>,
    upstream_cap: u32,
)
    ensures
        ({
            let c = clamped(Some(requested), operator_cap, table_cap, upstream_cap);
            &&& c <= requested
            &&& c <= upstream_cap
            &&& operator_cap matches Some(n) ==> c <= n
            &&& table_cap matches Some(n) ==> c <= n
            &&& c == requested || c == upstream_cap || operator_cap == Some(c) || table_cap == Some(
                c,
            )
        }),
{
}

/// An environment that sets no useful ceiling, and a remembered value below
/// the smallest useful one, leave the ceiling as if they were absent.
pub proof fn law_useless_layers_fall_through(
    env: Option<Seq<char>>,
    cached: Option<u32>,
    operator_cap: Option<u32>,
    kind_hard_cap: Option<u32>,
)
    ensures
        env_cap(env) is None ==> layered(env, cached, operator_cap, kind_hard_cap) == layered(
            None,
            cached,
            operator_cap,
            kind_hard_cap,
        ),
        cached is Some && cached->0 < MIN_AUTOPROBE_FLOOR ==> layered(
            env,
            cached,
            operator_cap,
            kind_hard_cap,
        ) == layered(env, None, operator_cap, kind_hard_cap),
{
}

/// The first layer that has a say decides alone: an environment that sets a
/// useful ceiling wins over everything, and a useful remembered value over
/// the caps.
pub proof fn law_first_layer_decides(
    env: Option<Seq<char>>,
    cached: Option<u32>,
    operator_cap: Option<u32>,
    kind_hard_cap: Option<u32>,
)
    ensures
        env_cap(env) matches Some(n) ==> layered(env, cached, operator_cap, kind_hard_cap) == n
            && MIN_AUTOPROBE_FLOOR <= n <= MAX_AUTOPROBE_CEILING,
        env_cap(env) is None && (cached matches Some(n) && n >= MIN_AUTOPROBE_FLOOR) ==> layered(
            env,
            cached,
            operator_cap,
            kind_hard_cap,
        ) == detection::useful(cached->0),
{
}

/// Whatever the layers hold, the ceiling is in the range of useful ceilings;
/// a layer that decides and names a useful ceiling gets that very one.
pub proof fn law_ceiling_is_useful(
    env: Option<Seq<char>>,
    cached: Option<u32>,
    operator_cap: Option<u32>,
    kind_hard_cap: Option<u32>,
)
    ensures
        MIN_AUTOPROBE_FLOOR <= layered(env, cached, operator_cap, kind_hard_cap)
            <= MAX_AUTOPROBE_CEILING,
        forall|n: u32|
            MIN_AUTOPROBE_FLOOR <= n <= MAX_AUTOPROBE_CEILING ==> #[trigger] detection::useful(n) == n,
{
}

/// The decimal form of a useful ceiling, put into the environment, is the
/// ceiling.
pub proof fn law_env_round_trip(n: u32)
    requires
        MIN_AUTOPROBE_FLOOR <= n <= MAX_AUTOPROBE_CEILING,
    ensures
        env_cap(Some(text::decimal(n as nat))) == Some(n),
{
    let s = text::decimal(n as nat);
    text::lemma_decimal(n as nat);
    text::law_decimal_round_trip(n as nat, u32::MAX as nat);
    assert(text::is_digit(s[0]));
    assert(text::is_digit(s.last()));
    assert(text::trim_start_char(s, '\u{FEFF}') == s);
    assert(text::trim_start(s) == s);
    assert(text::trim_end(s) == s);
}

/// A number in the environment sets the ceiling exactly where it is useful,
/// whatever byte order marks stand in front of it and whatever white space
/// around it. Anything that holds no number sets none.
pub proof fn law_env_value(marks: nat, a: Seq<char>, n: nat, b: Seq<char>)
    requires
        text_laws::blank(a),
        text_laws::blank(b),
    ensures
        env_cap(Some(text_laws::run('\u{FEFF}', marks) + (a + text::decimal(n) + b))) == (if 1024 <= n
            <= 1_073_741_824 {
            Some(n as u32)
        } else {
            None
        }),
        env_cap(Some(text_laws::run('\u{FEFF}', marks))) is None,
        env_cap(Some(a)) is None,
        env_cap(None) is None,
{
    let s = text::decimal(n);
    let whole = a + s + b;
    text::lemma_decimal(n);
    assert(text::is_digit(s[0]));
    assert(text::is_digit(s.last()));
    text_laws::law_trim(a, s, b);
    text_laws::law_trim_char('\u{FEFF}', marks, whole);
    text_laws::law_white_space('\u{FEFF}');
    assert(whole[0] != '\u{FEFF}') by {
        if a.len() > 0 {
            assert(text::is_white(a[0]));
            assert(whole[0] == a[0]);
        } else {
            assert(whole[0] == s[0]);
        }
    }
    assert(text::unsigned_part(s) == s);
    let none = Seq::<char>::empty();
    assert(text::trim(none) == none);
    text_laws::law_trim(a, none, none);
    assert(a + none + none =~= a);
    if a.len() > 0 {
        assert(text::is_white(a[0]));
        text_laws::law_trim_char('\u{FEFF}', 0, a);
        assert(text_laws::run('\u{FEFF}', 0) + a =~= a);
    }
}

/// The ceiling, layer by layer. A useful number in the environment is the
/// ceiling. Without one, a remembered value from 1024 on is, cut to the
/// largest useful ceiling. Without either, the smaller of the two caps is, or
/// the only one, held to the useful range; and a million without any.
pub proof fn law_layers(
    env: Option<Seq<char>>,
    cached: Option<u32>,
    operator_cap: Option<u32>,
    kind_hard_cap: Option<u32>,
)
    ensures
        ({
            let r = layered(env, cached, operator_cap, kind_hard_cap);
            if env_cap(env) is Some {
                Some(r) == env_cap(env)
            } else if cached is Some && cached->0 >= 1024 {
                r == cached->0 || (r == 1_073_741_824 && cached->0 > 1_073_741_824)
            } else if operator_cap is None && kind_hard_cap is None {
                r == 1_000_000
            } else {
                &&& r == 1024 || r == 1_073_741_824 || operator_cap == Some(r) || kind_hard_cap == Some(r)
                &&& operator_cap matches Some(n) ==> r <= n || r == 1024
                &&& kind_hard_cap matches Some(n) ==> r <= n || r == 1024
                &&& r == 1024 ==> (operator_cap matches Some(n) && n <= 1024) || (
                kind_hard_cap matches Some(n) && n <= 1024)
                &&& r == 1_073_741_824 ==> (operator_cap matches Some(n) ==> n >= r) && (
                kind_hard_cap matches Some(n) ==> n >= r)
                &&& 1024 <= r <= 1_073_741_824
            }
        }),
{
}

/// The ceiling of a request without one of its own is the smallest of the
/// caps.
pub proof fn law_clamp_without_request(
    operator_cap: Option<u32>,
    table_cap: Option<u32>,
    upstream_cap: u32,
)
    ensures
        ({
            let c = clamped(None, operator_cap, table_cap, upstream_cap);
            &&& c <= upstream_cap
            &&& operator_cap matches Some(n) ==> c <= n
            &&& table_cap matches Some(n) ==> c <= n
            &&& c == upstream_cap || operator_cap == Some(c) || table_cap == Some(c)
        }),
{
}

/// The variable of a section is its name between a fixed beginning and end,
/// character by character, with an underscore for each dot and dash.
pub proof fn law_variable_name(upper: Seq<char>, i: int)
    requires
        0 <= i < upper.len(),
    ensures
        text::has_prefix(variable_name(upper), "MOAGAN_"@),
        text::has_suffix(variable_name(upper), "_MAX_TOKENS"@),
        variable_name(upper).len() == 7 + upper.len() + 11,
        variable_name(upper)[7 + i] == (if upper[i] == '.' || upper[i] == '-' {
            '_'
        } else {
            upper[i]
        }),
{
    reveal_strlit("MOAGAN_");
    reveal_strlit("_MAX_TOKENS");
    let u = underscored(upper);
    text_laws::law_prefix_and_suffix("MOAGAN_"@, u + "_MAX_TOKENS"@);
    text_laws::law_prefix_and_suffix("MOAGAN_"@ + u, "_MAX_TOKENS"@);
    assert("MOAGAN_"@ + (u + "_MAX_TOKENS"@) =~= variable_name(upper));
}

/// A byte order mark behind white space is not passed over, and neither is
/// anything else that is no digit.
pub proof fn law_env_noise(a: Seq<char>, c: char, rest: Seq<char>)
    requires
        text_laws::blank(a),
        a.len() > 0,
        !text::is_white(c),
        c != '+',
        !('0' <= c <= '9'),
        rest.len() > 0 ==> !text::is_white(rest.last()),
    ensures
        env_cap(Some(a + (seq![c] + rest))) is None,
{
    let body = seq![c] + rest;
    let s = a + body;
    assert(text::is_white(a[0]));
    text_laws::law_white_space('\u{FEFF}');
    assert(s[0] == a[0]);
    text_laws::law_trim_char('\u{FEFF}', 0, s);
    assert(text_laws::run('\u{FEFF}', 0) + s =~= s);
    assert(body[0] == c);
    assert(body.last() == if rest.len() > 0 {
        rest.last()
    } else {
        c
    });
    text_laws::law_trim(a, body, Seq::empty());
    assert(a + body + Seq::<char>::empty() =~= s);
    text_laws::law_parsed(body, '0', u32::MAX as nat);
}

} // verus!
