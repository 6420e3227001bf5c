//! The sampling parameters that upstreams reject: how a rejection is told from
//! an error, and the table that remembers it.

use vstd::prelude::*;
use vstd::string::*;

use crate::error::Error;
use crate::json;
use crate::patterns;
use crate::sidecar;
use crate::sidecar::FileRead;
use crate::text;
use crate::text_map::{TextMap, TextSet};
use crate::wire;

verus! {

// ---------------------------------------------------------------------------
// Telling a rejection
// ---------------------------------------------------------------------------

/// The parameters that can be left out.
pub open spec fn param_names() -> Seq<Seq<char>> {
    seq!["temperature"@, "top_p"@, "max_tokens"@]
}

/// The parameters that can be left out.
pub fn param_name_list() -> (r: Vec<String>)
    ensures
        text::views(r@) == param_names(),
{
    let mut r: Vec<String> = Vec::new();
    r.push("temperature".to_owned());
    r.push("top_p".to_owned());
    r.push("max_tokens".to_owned());
    assert(text::views(r@) =~= param_names());
    r
}

/// The length of the run of identifier characters at the start of `s`.
pub open spec fn word_len(s: Seq<char>) -> nat
    decreases s.len(),
{
    if s.len() > 0 && text::is_word(s[0]) {
        1 + word_len(s.skip(1))
    } else {
        0
    }
}

/// The identifier at the start of `s`, white space in front aside. It does not
/// begin with a digit.
pub open spec fn leading_identifier(s: Seq<char>) -> Option<Seq<char>> {
    let t = text::trim(s);
    if word_len(t) == 0 || text::is_digit(t[0]) {
        None
    } else {
        Some(t.take(word_len(t) as int))
    }
}

/// The identifier at the start of `s`.
pub fn parse_error_param_start(s: &str) -> (r: Option<String>)
    ensures
        wire::opt_view(r) == leading_identifier(s@),
{
    let t = text::trimmed(&text::chars_of(s));
    let mut i: usize = 0;
    assert(t@.skip(0) =~= t@);
    while i < t.len() && is_word_char(t[i])
        invariant
            i <= t@.len(),
            word_len(t@) == i + word_len(t@.skip(i as int)),
        ensures
            i <= t@.len(),
            word_len(t@) == i,
        decreases t@.len() - i,
    {
        assert(t@.skip(i as int).skip(1) =~= t@.skip(i + 1));
        i = i + 1;
    }
    if i == 0 || ('0' <= t[0] && t[0] <= '9') {
        return None;
    }
    assert(t@.take(i as int) =~= t@.subrange(0, i as int));
    Some(text::string_of(&t, 0, i))
}

fn is_word_char(c: char) -> (r: bool)
    ensures
        r == text::is_word(c),
{
    ('a' <= c && c <= 'z') || ('A' <= c && c <= 'Z') || ('0' <= c && c <= '9') || c == '_'
}

/// `names` with `name` at the end, unless it is there already.
pub open spec fn with_name(names: Seq<Seq<char>>, name: Option<Seq<char>>) -> Seq<Seq<char>> {
    match name {
        Some(n) => if names.contains(n) {
            names
        } else {
            names.push(n)
        },
        None => names,
    }
}

/// `names` followed by those of `more` that are new, each once.
pub open spec fn with_names(names: Seq<Seq<char>>, more: Seq<Option<Seq<char>>>) -> Seq<Seq<char>>
    decreases more.len(),
{
    if more.len() == 0 {
        names
    } else {
        with_name(with_names(names, more.drop_last()), more.last())
    }
}

/// The phrases by which error messages point at a parameter, as patterns whose
/// first group is its name: a quoted name first, then the phrases of the single
/// upstreams.
pub open spec fn message_patterns() -> Seq<Seq<char>> {
    seq![
        r"'([A-Za-z_][A-Za-z0-9_]*)'"@,
        r"invalid params, param '([A-Za-z_][A-Za-z0-9_]*)'"@,
        r#"(?i)(?:\[(?:unknown_parameter|invalid_request_error)\]\s*)?(?:unknown|unsupported) parameter[:\s]+['"<]?([A-Za-z_][A-Za-z0-9_]*)"#@,
        r"([A-Za-z_][A-Za-z0-9_]*):\s+invalid value"@,
        r"(?i)invalid ([A-Za-z_][A-Za-z0-9_]*) value,\s+the valid range"@,
        r"(?i)invalid ([A-Za-z_][A-Za-z0-9_]*):\s+[a-zA-Z]"@,
        r"(?i)([A-Za-z_][A-Za-z0-9_]*) is (?:too|invalid) (?:large|small)"@,
    ]
}

/// The phrases by which error messages point at a parameter.
fn message_pattern_list() -> (r: Vec<String>)
    ensures
        text::views(r@) == message_patterns(),
{
    let mut r: Vec<String> = Vec::new();
    r.push(r"'([A-Za-z_][A-Za-z0-9_]*)'".to_owned());
    r.push(r"invalid params, param '([A-Za-z_][A-Za-z0-9_]*)'".to_owned());
    r.push(
        r#"(?i)(?:\[(?:unknown_parameter|invalid_request_error)\]\s*)?(?:unknown|unsupported) parameter[:\s]+['"<]?([A-Za-z_][A-Za-z0-9_]*)"#.to_owned(),
    );
    r.push(r"([A-Za-z_][A-Za-z0-9_]*):\s+invalid value".to_owned());
    r.push(r"(?i)invalid ([A-Za-z_][A-Za-z0-9_]*) value,\s+the valid range".to_owned());
    r.push(r"(?i)invalid ([A-Za-z_][A-Za-z0-9_]*):\s+[a-zA-Z]".to_owned());
    r.push(r"(?i)([A-Za-z_][A-Za-z0-9_]*) is (?:too|invalid) (?:large|small)".to_owned());
    assert(text::views(r@) =~= message_patterns());
    r
}

/// The names that the captures of several patterns hold, each once, in the
/// order of the patterns and of their matches.
pub open spec fn gathered(found: Seq<Option<Seq<Option<Seq<char>>>>>) -> Seq<Seq<char>>
    decreases found.len(),
{
    if found.len() == 0 {
        Seq::empty()
    } else {
        match found.last() {
            Some(more) => with_names(gathered(found.drop_last()), more),
            None => gathered(found.drop_last()),
        }
    }
}

/// What the patterns capture in an error message.
pub open spec fn captures_in(msg: Seq<char>) -> Seq<Option<Seq<Option<Seq<char>>>>> {
    message_patterns().map_values(|p: Seq<char>| patterns::all_captures(p, msg))
}

/// The names that an error message points at: those of every match of every
/// pattern.
pub open spec fn names_in_message(msg: Seq<char>) -> Seq<Seq<char>> {
    gathered(captures_in(msg))
}

/// Puts `name` at the end of `out`, unless it is there already.
fn push_unique(out: &mut Vec<String>, name: Option<String>)
    ensures
        text::views(final(out)@) == with_name(text::views(old(out)@), wire::opt_view(name)),
{
    if let Some(n) = name {
        if !text::listed(out, n.as_str()) {
            let ghost before = out@;
            out.push(n);
            assert(text::views(out@) =~= text::views(before).push(n@));
        }
    }
}

proof fn lemma_with_names_push(
    names: Seq<Seq<char>>,
    more: Seq<Option<Seq<char>>>,
    next: Option<Seq<char>>,
)
    ensures
        with_names(names, more.push(next)) == with_name(with_names(names, more), next),
{
    assert(more.push(next).drop_last() =~= more);
}

/// The characters of what a pattern captured.
pub open spec fn capture_view(found: Option<Vec<Option<String>>>) -> Option<
    Seq<Option<Seq<char>>>,
> {
    match found {
        Some(v) => Some(v@.map_values(|o: Option<String>| wire::opt_view(o))),
        None => None,
    }
}

/// The characters of what patterns captured.
pub open spec fn capture_views(found: Seq<Option<Vec<Option<String>>>>) -> Seq<
    Option<Seq<Option<Seq<char>>>>,
> {
    found.map_values(|v: Option<Vec<Option<String>>>| capture_view(v))
}

/// The names that the captures of the message patterns hold, pattern by
/// pattern.
pub fn collect_names(found: Vec<Option<Vec<Option<String>>>>) -> (r: Vec<String>)
    ensures
        text::views(r@) == gathered(capture_views(found@)),
{
    let ghost all = capture_views(found@);
    let mut out: Vec<String> = Vec::new();
    let mut i: usize = 0;
    assert(text::views(out@) =~= Seq::empty());
    assert(all.take(0) =~= Seq::empty());
    while i < found.len()
        invariant
            i <= found@.len(),
            all == capture_views(found@),
            text::views(out@) == gathered(all.take(i as int)),
        decreases found@.len() - i,
    {
        assert(all.take(i + 1).drop_last() =~= all.take(i as int));
        assert(all.take(i + 1).last() == all[i as int]);
        if let Some(more) = &found[i] {
            push_all(&mut out, more);
        }
        i = i + 1;
    }
    assert(all.take(i as int) =~= all);
    out
}

fn push_all(out: &mut Vec<String>, more: &Vec<Option<String>>)
    ensures
        text::views(final(out)@) == with_names(
            text::views(old(out)@),
            more@.map_values(|o: Option<String>| wire::opt_view(o)),
        ),
{
    let ghost start = text::views(out@);
    let ghost all = more@.map_values(|o: Option<String>| wire::opt_view(o));
    let mut i: usize = 0;
    assert(all.take(0) =~= Seq::empty());
    while i < more.len()
        invariant
            i <= more@.len(),
            all == more@.map_values(|o: Option<String>| wire::opt_view(o)),
            text::views(out@) == with_names(start, all.take(i as int)),
        decreases more@.len() - i,
    {
        proof {
            lemma_with_names_push(start, all.take(i as int), all[i as int]);
            assert(all.take(i as int).push(all[i as int]) =~= all.take(i + 1));
        }
        push_unique(out, wire::clone_opt(&more[i]));
        i = i + 1;
    }
    assert(all.take(i as int) =~= all);
}

/// The names that an error message points at.
pub fn run_message_patterns(msg: &str) -> (r: Vec<String>)
    ensures
        text::views(r@) == names_in_message(msg@),
{
    let list = message_pattern_list();
    let mut found: Vec<Option<Vec<Option<String>>>> = Vec::new();
    let mut i: usize = 0;
    assert(capture_views(found@) =~= captures_in(msg@).take(0));
    while i < list.len()
        invariant
            i <= list@.len(),
            text::views(list@) == message_patterns(),
            capture_views(found@) == captures_in(msg@).take(i as int),
        decreases list@.len() - i,
    {
        let ghost before = found@;
        let pattern = list[i].as_str();
        assert(pattern@ == message_patterns()[i as int]);
        let one = patterns::captures_iter(msg, pattern);
        let ghost seen = capture_view(one);
        found.push(one);
        proof {
            assert(seen == captures_in(msg@)[i as int]);
            assert(capture_views(found@) =~= capture_views(before).push(seen));
            assert(captures_in(msg@).take(i + 1) =~= captures_in(msg@).take(i as int).push(
                captures_in(msg@)[i as int],
            ));
        }
        i = i + 1;
    }
    assert(captures_in(msg@).take(i as int) =~= captures_in(msg@));
    collect_names(found)
}

/// The names in alphabetical order `names` with `name` at its place.
pub open spec fn placed(names: Seq<Seq<char>>, name: Seq<char>) -> Seq<Seq<char>>
    decreases names.len(),
{
    if names.len() == 0 || text::precedes(names.last(), name) {
        names.push(name)
    } else {
        placed(names.drop_last(), name).push(names.last())
    }
}

/// `names` in alphabetical order.
pub open spec fn alphabetical(names: Seq<Seq<char>>) -> Seq<Seq<char>>
    decreases names.len(),
{
    if names.len() == 0 {
        names
    } else {
        placed(alphabetical(names.drop_last()), names.last())
    }
}

/// Each of `names` comes before all that stand behind it.
pub open spec fn ascending(names: Seq<Seq<char>>) -> bool {
    forall|i: int, j: int|
        0 <= i < j < names.len() ==> text::precedes(#[trigger] names[i], #[trigger] names[j])
}

/// Of the parameters that can be left out those that `pointed` names.
pub open spec fn droppable_of(pointed: Seq<Seq<char>>) -> Seq<Seq<char>> {
    param_names().filter(|n: Seq<char>| pointed.contains(n))
}

/// Of the parameters that can be left out those that `pointed` names, in
/// alphabetical order.
pub open spec fn rejected_of(pointed: Seq<Seq<char>>) -> Seq<Seq<char>> {
    alphabetical(droppable_of(pointed))
}

/// Puts `name` at its place among names in alphabetical order.
fn place(names: &mut Vec<String>, name: String)
    ensures
        text::views(final(names)@) == placed(text::views(old(names)@), name@),
{
    let ghost before = text::views(names@);
    let mut i: usize = names.len();
    assert(before.take(i as int) =~= before);
    assert(before.skip(i as int) =~= Seq::empty());
    assert(placed(before, name@) =~= placed(before.take(i as int), name@) + before.skip(i as int));
    while i > 0 && !text::before(names[i - 1].as_str(), name.as_str())
        invariant
            i <= names@.len(),
            before == text::views(names@),
            placed(before, name@) == placed(before.take(i as int), name@) + before.skip(i as int),
        ensures
            i <= names@.len(),
            placed(before, name@) == placed(before.take(i as int), name@) + before.skip(i as int),
            i > 0 ==> text::precedes(before[i - 1], name@),
        decreases i,
    {
        proof {
            let head = before.take(i as int);
            assert(head.last() == names@[i - 1]@);
            assert(head.drop_last() =~= before.take(i - 1));
            assert(placed(head, name@) + before.skip(i as int) =~= placed(
                before.take(i - 1),
                name@,
            ) + before.skip(i - 1));
        }
        i = i - 1;
    }
    let ghost given = name@;
    names.insert(i, name);
    proof {
        let head = before.take(i as int);
        if i > 0 {
            assert(head.last() == before[i - 1]);
        }
        assert(placed(head, given) == head.push(given));
        assert(text::views(names@) =~= head.push(given) + before.skip(i as int));
    }
}

proof fn lemma_placed(names: Seq<Seq<char>>, name: Seq<char>)
    requires
        ascending(names),
        !names.contains(name),
    ensures
        ascending(placed(names, name)),
        forall|n: Seq<char>| #[trigger] placed(names, name).contains(n) == (names.contains(n) || n
            == name),
    decreases names.len(),
{
    let all = placed(names, name);
    if names.len() == 0 || text::precedes(names.last(), name) {
        assert forall|i: int, j: int| 0 <= i < j < all.len() implies text::precedes(
            #[trigger] all[i],
            #[trigger] all[j],
        ) by {
            if j == names.len() && i < names.len() - 1 {
                text::lemma_precedes_transitive(names[i], names.last(), name);
            }
        }
        assert forall|n: Seq<char>| #[trigger] all.contains(n) == (names.contains(n) || n
            == name) by {
            assert(all[names.len() as int] == name);
            if names.contains(n) {
                let k = choose|k: int| 0 <= k < names.len() && names[k] == n;
                assert(all[k] == n);
            }
        }
    } else {
        let head = names.drop_last();
        let last = names.last();
        let rest = placed(head, name);
        assert(names[names.len() - 1] == last);
        assert(!head.contains(name)) by {
            if head.contains(name) {
                let k = choose|k: int| 0 <= k < head.len() && head[k] == name;
                assert(names[k] == name);
            }
        }
        lemma_placed(head, name);
        text::lemma_precedes_total(last, name);
        assert forall|i: int, j: int| 0 <= i < j < all.len() implies text::precedes(
            #[trigger] all[i],
            #[trigger] all[j],
        ) by {
            if j == rest.len() {
                assert(rest.contains(all[i])) by {
                    assert(rest[i] == all[i]);
                }
                if head.contains(all[i]) {
                    let k = choose|k: int| 0 <= k < head.len() && head[k] == all[i];
                    assert(names[k] == all[i]);
                }
            } else {
                assert(rest[i] == all[i] && rest[j] == all[j]);
            }
        }
        assert forall|n: Seq<char>| #[trigger] all.contains(n) == (names.contains(n) || n
            == name) by {
            assert(all[rest.len() as int] == last);
            assert(rest.contains(n) == (head.contains(n) || n == name));
            if rest.contains(n) {
                let k = choose|k: int| 0 <= k < rest.len() && rest[k] == n;
                assert(all[k] == n);
            }
            if all.contains(n) {
                let k = choose|k: int| 0 <= k < all.len() && all[k] == n;
                if k < rest.len() {
                    assert(rest[k] == n);
                }
            }
            if head.contains(n) {
                let k = choose|k: int| 0 <= k < head.len() && head[k] == n;
                assert(names[k] == n);
            }
            if names.contains(n) && n != last {
                let k = choose|k: int| 0 <= k < names.len() && names[k] == n;
                assert(head[k] == n);
            }
        }
    }
}

/// Sorting names that differ keeps them and puts them in order.
proof fn lemma_alphabetical(names: Seq<Seq<char>>)
    requires
        names.no_duplicates(),
    ensures
        ascending(alphabetical(names)),
        forall|n: Seq<char>| #[trigger] alphabetical(names).contains(n) == names.contains(n),
    decreases names.len(),
{
    if names.len() > 0 {
        let head = names.drop_last();
        let last = names.last();
        lemma_alphabetical(head);
        assert(!head.contains(last)) by {
            if head.contains(last) {
                let k = choose|k: int| 0 <= k < head.len() && head[k] == last;
                assert(names[k] == names[names.len() - 1]);
            }
        }
        assert(!alphabetical(head).contains(last));
        lemma_placed(alphabetical(head), last);
        assert forall|n: Seq<char>| #[trigger] alphabetical(names).contains(n) == names.contains(
            n,
        ) by {
            assert(alphabetical(head).contains(n) == head.contains(n));
            if head.contains(n) {
                let k = choose|k: int| 0 <= k < head.len() && head[k] == n;
                assert(names[k] == n);
            }
            if names.contains(n) && n != last {
                let k = choose|k: int| 0 <= k < names.len() && names[k] == n;
                assert(head[k] == n);
            }
            assert(names[names.len() - 1] == last);
        }
    }
}

proof fn lemma_filter_keeps_apart(names: Seq<Seq<char>>, keep: spec_fn(Seq<char>) -> bool)
    requires
        names.no_duplicates(),
    ensures
        names.filter(keep).no_duplicates(),
    decreases names.len(),
{
    reveal(Seq::filter);
    if names.len() > 0 {
        let head = names.drop_last();
        let some = head.filter(keep);
        lemma_filter_keeps_apart(head, keep);
        if keep(names.last()) {
            if some.contains(names.last()) {
                head.lemma_filter_contains_rev(keep, names.last());
                let k = choose|k: int| 0 <= k < head.len() && head[k] == names.last();
                assert(names[k] == names[names.len() - 1]);
            }
            let all = some.push(names.last());
            assert forall|i: int, j: int| 0 <= i < all.len() && 0 <= j < all.len() && i
                != j implies all[i] != all[j] by {
                if i < some.len() && all[i] == names.last() {
                    assert(some[i] == names.last());
                }
                if j < some.len() && all[j] == names.last() {
                    assert(some[j] == names.last());
                }
            }
        }
    }
}

/// What is rejected is in order, and is just what can be left out and is
/// pointed at.
proof fn lemma_rejected_of(pointed: Seq<Seq<char>>)
    ensures
        ascending(rejected_of(pointed)),
        forall|n: Seq<char>| #[trigger] rejected_of(pointed).contains(n) == (param_names().contains(
            n,
        ) && pointed.contains(n)),
{
    let all = param_names();
    let keep = |n: Seq<char>| pointed.contains(n);
    reveal_strlit("temperature");
    reveal_strlit("top_p");
    reveal_strlit("max_tokens");
    assert("temperature"@[1] == 'e' && "top_p"@[1] == 'o' && "max_tokens"@[1] == 'a');
    assert(all.no_duplicates());
    lemma_filter_keeps_apart(all, keep);
    lemma_alphabetical(all.filter(keep));
    assert forall|n: Seq<char>| #[trigger] rejected_of(pointed).contains(n) == (all.contains(n)
        && pointed.contains(n)) by {
        assert(rejected_of(pointed).contains(n) == all.filter(keep).contains(n));
        if all.filter(keep).contains(n) {
            all.lemma_filter_contains_rev(keep, n);
            let k = choose|k: int| 0 <= k < all.filter(keep).len() && all.filter(keep)[k] == n;
            all.lemma_filter_pred(keep, k);
        }
        if all.contains(n) && pointed.contains(n) {
            let k = choose|k: int| 0 <= k < all.len() && all[k] == n;
            all.lemma_filter_contains(keep, k);
        }
    }
}

/// The parameters that an answer rejects: the identifier that the error's
/// `param` field begins with and the names that its message points at, as far
/// as they can be left out. Only client errors reject parameters.
pub open spec fn rejected(
    status: u16,
    param: Option<Seq<char>>,
    message: Seq<Seq<char>>,
) -> Seq<Seq<char>> {
    if 400 <= status < 500 {
        rejected_of(
            match param {
                Some(p) => with_name(message, leading_identifier(p)),
                None => message,
            },
        )
    } else {
        Seq::empty()
    }
}

/// The parameters that an answer rejects, from its error's `param` field and
/// from the names that its message points at.
pub fn select_rejections(status: u16, param: Option<String>, names: Vec<String>) -> (r: Vec<String>)
    ensures
        text::views(r@) == rejected(status, wire::opt_view(param), text::views(names@)),
{
    let mut out: Vec<String> = Vec::new();
    if status < 400 || status >= 500 {
        assert(text::views(out@) =~= Seq::empty());
        return out;
    }
    let mut pointed = names;
    if let Some(p) = param {
        push_unique(&mut pointed, parse_error_param_start(p.as_str()));
    }
    let all = param_name_list();
    let ghost keep = |n: Seq<char>| text::views(pointed@).contains(n);
    let mut i: usize = 0;
    proof {
        assert(param_names().take(0) =~= Seq::empty());
        assert(param_names().take(0).filter(keep) =~= Seq::empty());
        assert(text::views(out@) =~= alphabetical(param_names().take(0).filter(keep)));
    }
    while i < all.len()
        invariant
            i <= all@.len(),
            text::views(all@) == param_names(),
            keep == (|n: Seq<char>| text::views(pointed@).contains(n)),
            text::views(out@) == alphabetical(param_names().take(i as int).filter(keep)),
        decreases all@.len() - i,
    {
        let ghost name = param_names()[i as int];
        proof {
            assert(all@[i as int]@ == name);
            assert(param_names().take(i + 1).drop_last() =~= param_names().take(i as int));
            reveal(Seq::filter);
        }
        if text::listed(&pointed, all[i].as_str()) {
            let ghost some = param_names().take(i as int).filter(keep);
            assert(some.push(name).drop_last() =~= some);
            place(&mut out, all[i].clone());
        }
        i = i + 1;
    }
    assert(param_names().take(i as int) =~= param_names());
    out
}

/// The parameters that an answer rejects.
pub open spec fn rejections_in(status: u16, body: Seq<char>) -> Seq<Seq<char>> {
    rejected(
        status,
        json::json_string_at(body, "/error/param"@),
        match json::json_string_at(body, "/error/message"@) {
            Some(m) => names_in_message(m),
            None => Seq::empty(),
        },
    )
}

/// The parameters that an answer rejects, in alphabetical order.
pub fn detect_all_rejections(status: u16, body: &str) -> (r: Vec<String>)
    ensures
        text::views(r@) == rejections_in(status, body@),
{
    if status < 400 || status >= 500 {
        let r: Vec<String> = Vec::new();
        assert(text::views(r@) =~= Seq::empty());
        return r;
    }
    let param = json::string_at(body, "/error/param");
    let names = match json::string_at(body, "/error/message") {
        Some(m) => run_message_patterns(m.as_str()),
        None => {
            let none: Vec<String> = Vec::new();
            assert(text::views(none@) =~= Seq::empty());
            none
        },
    };
    select_rejections(status, param, names)
}

/// The first parameter that an answer rejects.
pub fn detect_rejection(status: u16, body: &str) -> (r: Option<String>)
    ensures
        wire::opt_view(r) == (if rejections_in(status, body@).len() > 0 {
            Some(rejections_in(status, body@)[0])
        } else {
            None
        }),
{
    let all = detect_all_rejections(status, body);
    if all.len() == 0 {
        None
    } else {
        assert(text::views(all@)[0] == all@[0]@);
        Some(all[0].clone())
    }
}

/// What an answer rejects can be left out and comes in alphabetical order, and
/// only client errors reject anything.
pub proof fn law_rejections_are_known_params(
    status: u16,
    param: Option<Seq<char>>,
    message: Seq<Seq<char>>,
)
    ensures
        forall|i: int|
            0 <= i < rejected(status, param, message).len() ==> param_names().contains(
                #[trigger] rejected(status, param, message)[i],
            ),
        ascending(rejected(status, param, message)),
        !(400 <= status < 500) ==> rejected(status, param, message).len() == 0,
{
    let all = rejected(status, param, message);
    let pointed = match param {
        Some(p) => with_name(message, leading_identifier(p)),
        None => message,
    };
    lemma_rejected_of(pointed);
    assert forall|i: int| 0 <= i < all.len() implies param_names().contains(#[trigger] all[i]) by {
        assert(all.contains(all[i]));
    }
}

proof fn lemma_with_names_holds(
    names: Seq<Seq<char>>,
    more: Seq<Option<Seq<char>>>,
    n: Seq<char>,
)
    ensures
        with_names(names, more).contains(n) == (names.contains(n) || more.contains(Some(n))),
    decreases more.len(),
{
    if more.len() == 0 {
        assert(!more.contains(Some(n)));
    } else {
        let head = more.drop_last();
        let before = with_names(names, head);
        lemma_with_names_holds(names, head, n);
        assert(more =~= head.push(more.last()));
        assert(more.contains(Some(n)) == (head.contains(Some(n)) || more.last() == Some(n))) by {
            if head.contains(Some(n)) {
                let k = choose|k: int| 0 <= k < head.len() && head[k] == Some(n);
                assert(more[k] == Some(n));
            }
            if more.last() == Some(n) {
                assert(more[more.len() - 1] == Some(n));
            }
        }
        if let Some(m) = more.last() {
            if !before.contains(m) {
                let after = before.push(m);
                assert(after.contains(n) == (before.contains(n) || m == n)) by {
                    if before.contains(n) {
                        let k = choose|k: int| 0 <= k < before.len() && before[k] == n;
                        assert(after[k] == n);
                    }
                    assert(after[before.len() as int] == m);
                }
            }
        }
    }
}

/// One of the patterns captures `n` in one of its matches.
pub open spec fn is_captured(found: Seq<Option<Seq<Option<Seq<char>>>>>, n: Seq<char>) -> bool {
    exists|i: int|
        0 <= i < found.len() && (#[trigger] found[i] matches Some(more) && more.contains(Some(n)))
}

/// A name is pointed at just where a match of a pattern captures it.
proof fn lemma_gathered_holds(found: Seq<Option<Seq<Option<Seq<char>>>>>, n: Seq<char>)
    ensures
        gathered(found).contains(n) == is_captured(found, n),
    decreases found.len(),
{
    if found.len() > 0 {
        let head = found.drop_last();
        lemma_gathered_holds(head, n);
        if let Some(more) = found.last() {
            lemma_with_names_holds(gathered(head), more, n);
        }
        assert(is_captured(found, n) == (is_captured(head, n) || (found.last() matches Some(more)
            && more.contains(Some(n))))) by {
            if is_captured(head, n) {
                let i = choose|i: int|
                    0 <= i < head.len() && (#[trigger] head[i] matches Some(more)
                        && more.contains(Some(n)));
                assert(found[i] == head[i]);
            }
            if is_captured(found, n) {
                let i = choose|i: int|
                    0 <= i < found.len() && (#[trigger] found[i] matches Some(more)
                        && more.contains(Some(n)));
                if i < head.len() {
                    assert(head[i] == found[i]);
                }
            }
            assert(found[found.len() - 1] == found.last());
        }
    }
}

/// Every parameter that can be left out and that the body of a client error
/// points at is rejected, however many there are, and no other: the one that
/// the error's `param` field begins with, and each that any match of any
/// pattern captures in its message.
pub proof fn law_every_mention_is_rejected(status: u16, body: Seq<char>, n: Seq<char>)
    requires
        400 <= status < 500,
    ensures
        rejections_in(status, body).contains(n) == (param_names().contains(n) && (
        (json::json_string_at(body, "/error/param"@) matches Some(p) && leading_identifier(p)
            == Some(n)) || (json::json_string_at(body, "/error/message"@) matches Some(m)
            && is_captured(captures_in(m), n)))),
{
    let param = json::json_string_at(body, "/error/param"@);
    let named = match json::json_string_at(body, "/error/message"@) {
        Some(m) => names_in_message(m),
        None => Seq::empty(),
    };
    if let Some(m) = json::json_string_at(body, "/error/message"@) {
        lemma_gathered_holds(captures_in(m), n);
    } else {
        assert(!named.contains(n));
    }
    let pointed = match param {
        Some(p) => with_name(named, leading_identifier(p)),
        None => named,
    };
    if let Some(p) = param {
        let one = seq![leading_identifier(p)];
        assert(one.drop_last() =~= Seq::empty());
        assert(with_names(named, one) == with_name(with_names(named, one.drop_last()), one.last()));
        lemma_with_names_holds(named, one, n);
        assert(one.contains(Some(n)) == (leading_identifier(p) == Some(n))) by {
            assert(one[0] == leading_identifier(p));
        }
    }
    lemma_rejected_of(pointed);
}

// ---------------------------------------------------------------------------
// Unknown fields
// ---------------------------------------------------------------------------

/// The fields that a wire body is known to have.
pub open spec fn known_wire_fields() -> Seq<Seq<char>> {
    seq![
        "role"@,
        "model"@,
        "messages"@,
        "system"@,
        "user"@,
        "max_tokens"@,
        "temperature"@,
        "top_p"@,
        "stream"@,
        "stop"@,
        "stop_sequences"@,
        "tools"@,
        "tool_choice"@,
        "response_format"@,
        "text"@,
        "input"@,
        "instructions"@,
        "extra_messages"@,
        "attachments"@,
        "response_schema"@,
        "thinking"@,
        "metadata"@,
    ]
}

/// The fields that a wire body is known to have.
pub fn known_wire_field_list() -> (r: Vec<String>)
    ensures
        text::views(r@) == known_wire_fields(),
{
    let mut r: Vec<String> = Vec::new();
    r.push("role".to_owned());
    r.push("model".to_owned());
    r.push("messages".to_owned());
    r.push("system".to_owned());
    r.push("user".to_owned());
    r.push("max_tokens".to_owned());
    r.push("temperature".to_owned());
    r.push("top_p".to_owned());
    r.push("stream".to_owned());
    r.push("stop".to_owned());
    r.push("stop_sequences".to_owned());
    r.push("tools".to_owned());
    r.push("tool_choice".to_owned());
    r.push("response_format".to_owned());
    r.push("text".to_owned());
    r.push("input".to_owned());
    r.push("instructions".to_owned());
    r.push("extra_messages".to_owned());
    r.push("attachments".to_owned());
    r.push("response_schema".to_owned());
    r.push("thinking".to_owned());
    r.push("metadata".to_owned());
    assert(text::views(r@) =~= known_wire_fields());
    r
}

/// Those of `keys` that a wire body is not known to have.
pub open spec fn unknown_of(keys: Seq<Seq<char>>) -> Seq<Seq<char>> {
    keys.filter(|k: Seq<char>| !known_wire_fields().contains(k))
}

/// Those of `keys` that a wire body is not known to have, in their order.
pub fn unknown_fields(keys: &Vec<String>) -> (r: Vec<String>)
    ensures
        text::views(r@) == unknown_of(text::views(keys@)),
{
    let known = known_wire_field_list();
    let ghost all = text::views(keys@);
    let ghost keep = |k: Seq<char>| !known_wire_fields().contains(k);
    let mut out: Vec<String> = Vec::new();
    let mut i: usize = 0;
    proof {
        assert(all.take(0) =~= Seq::empty());
        assert(text::views(out@) =~= all.take(0).filter(keep));
    }
    while i < keys.len()
        invariant
            i <= keys@.len(),
            all == text::views(keys@),
            text::views(known@) == known_wire_fields(),
            keep == (|k: Seq<char>| !known_wire_fields().contains(k)),
            text::views(out@) == all.take(i as int).filter(keep),
        decreases keys@.len() - i,
    {
        proof {
            assert(all[i as int] == keys@[i as int]@);
            assert(all.take(i + 1).drop_last() =~= all.take(i as int));
            reveal(Seq::filter);
        }
        if !text::listed(&known, keys[i].as_str()) {
            let ghost before = out@;
            out.push(keys[i].clone());
            assert(text::views(out@) =~= text::views(before).push(all[i as int]));
        }
        i = i + 1;
    }
    assert(all.take(i as int) =~= all);
    out
}

/// The fields of the wire body `body` that a wire body is not known to have.
/// A body that is no JSON object has none.
pub fn audit_unknown_fields(body: &str) -> (r: Vec<String>)
    ensures
        text::views(r@) == (match json::json_object_keys(body@) {
            Some(keys) => unknown_of(keys),
            None => Seq::empty(),
        }),
{
    match json::object_keys(body) {
        Some(keys) => unknown_fields(&keys),
        None => {
            let none: Vec<String> = Vec::new();
            assert(text::views(none@) =~= Seq::empty());
            none
        },
    }
}

// ---------------------------------------------------------------------------
// The table
// ---------------------------------------------------------------------------

/// The rejected parameters by provider and model.
pub type Rejections = Map<Seq<char>, Map<Seq<char>, Set<Seq<char>>>>;

/// The format version of [`ParamRejectionsFile`] that this crate writes.
pub const PARAM_REJECTIONS_SCHEMA_VERSION: u32 = 1;

/// The file of rejected parameters.
pub struct ParamRejectionsFile {
    pub schema_version: u32,
    pub providers: TextMap<TextMap<TextSet>>,
}

/// The parameters by model that a provider's part of the file holds.
pub open spec fn model_sets(models: TextMap<TextSet>) -> Map<Seq<char>, Set<Seq<char>>> {
    models@.map_values(|params: TextSet| params@.dom())
}

/// What the map of a file holds.
pub open spec fn held(providers: TextMap<TextMap<TextSet>>) -> Rejections {
    providers@.map_values(|models: TextMap<TextSet>| model_sets(models))
}

/// `r` holds that `model` of `provider` rejects `param`.
pub open spec fn rejects(
    r: Rejections,
    provider: Seq<char>,
    model: Seq<char>,
    param: Seq<char>,
) -> bool {
    r.dom().contains(provider) && r[provider].dom().contains(model) && r[provider][model].contains(
        param,
    )
}

/// `r` holds no rejection.
pub open spec fn holds_nothing(r: Rejections) -> bool {
    forall|p: Seq<char>, m: Seq<char>, q: Seq<char>| !rejects(r, p, m, q)
}

/// The models that `r` holds for a provider.
pub open spec fn models_of(r: Rejections, provider: Seq<char>) -> Map<Seq<char>, Set<Seq<char>>> {
    if r.dom().contains(provider) {
        r[provider]
    } else {
        Map::empty()
    }
}

/// The parameters that `m` holds for a model.
pub open spec fn params_of(m: Map<Seq<char>, Set<Seq<char>>>, model: Seq<char>) -> Set<Seq<char>> {
    if m.dom().contains(model) {
        m[model]
    } else {
        Set::empty()
    }
}

/// `r` with one more rejection.
pub open spec fn recorded(
    r: Rejections,
    provider: Seq<char>,
    model: Seq<char>,
    param: Seq<char>,
) -> Rejections {
    r.insert(
        provider,
        models_of(r, provider).insert(
            model,
            params_of(models_of(r, provider), model).insert(param),
        ),
    )
}

/// What two maps hold together.
pub open spec fn joined(a: Rejections, b: Rejections) -> Rejections {
    Map::new(
        |p: Seq<char>| a.dom().contains(p) || b.dom().contains(p),
        |p: Seq<char>| joined_models(models_of(a, p), models_of(b, p)),
    )
}

/// What two maps hold together of one provider.
pub open spec fn joined_models(
    a: Map<Seq<char>, Set<Seq<char>>>,
    b: Map<Seq<char>, Set<Seq<char>>>,
) -> Map<Seq<char>, Set<Seq<char>>> {
    Map::new(
        |m: Seq<char>| a.dom().contains(m) || b.dom().contains(m),
        |m: Seq<char>| params_of(a, m).union(params_of(b, m)),
    )
}

impl ParamRejectionsFile {
    /// What the file holds.
    pub open spec fn rejections(&self) -> Rejections {
        held(self.providers)
    }

    /// A file that holds nothing.
    pub fn new_empty() -> (r: Self)
        ensures
            r.schema_version == PARAM_REJECTIONS_SCHEMA_VERSION,
            r.rejections() == Rejections::empty(),
    {
        let r = ParamRejectionsFile {
            schema_version: PARAM_REJECTIONS_SCHEMA_VERSION,
            providers: TextMap::new(),
        };
        assert(r.rejections() =~= Map::empty());
        r
    }

    /// Takes what came of reading the file at `path`. A missing file holds
    /// nothing; a file from the future is refused.
    pub fn load(path: &str, read: FileRead<ParamRejectionsFile>) -> (r: Result<Self, Error>)
        ensures
            match read {
                FileRead::Missing => r matches Ok(f) && f.schema_version
                    == PARAM_REJECTIONS_SCHEMA_VERSION && f.rejections() == Rejections::empty(),
                FileRead::Unreadable(m) => r == Err::<Self, Error>(Error::Io(m)),
                FileRead::Malformed(m) => r matches Err(Error::Provider { message, http_status })
                    && message@ == sidecar::malformed_text("param_rejections.toml"@, path@, m@)
                    && http_status is None,
                FileRead::Parsed(f) => if f.schema_version > PARAM_REJECTIONS_SCHEMA_VERSION {
                    r matches Err(Error::Provider { message, http_status }) && message@
                        == sidecar::too_new_text(
                        "param_rejections.toml"@,
                        path@,
                        f.schema_version,
                        PARAM_REJECTIONS_SCHEMA_VERSION,
                    ) && http_status is None
                } else {
                    r == Ok::<Self, Error>(f)
                },
            },
    {
        match read {
            FileRead::Missing => Ok(ParamRejectionsFile::new_empty()),
            FileRead::Unreadable(m) => Err(Error::Io(m)),
            FileRead::Malformed(m) => Err(
                sidecar::malformed("param_rejections.toml", path, m.as_str()),
            ),
            FileRead::Parsed(f) => {
                if f.schema_version > PARAM_REJECTIONS_SCHEMA_VERSION {
                    Err(
                        sidecar::too_new(
                            "param_rejections.toml",
                            path,
                            f.schema_version,
                            PARAM_REJECTIONS_SCHEMA_VERSION,
                        ),
                    )
                } else {
                    Ok(f)
                }
            },
        }
    }

    /// Adds one rejection; tells whether it is new.
    pub fn insert(&mut self, provider: &str, model: &str, param: &str) -> (fresh: bool)
        ensures
            final(self).schema_version == old(self).schema_version,
            final(self).rejections() == recorded(
                old(self).rejections(),
                provider@,
                model@,
                param@,
            ),
            fresh == !rejects(old(self).rejections(), provider@, model@, param@),
    {
        let ghost before = held(self.providers);
        let mut models = match self.providers.remove(provider) {
            Some(m) => m,
            None => TextMap::new(),
        };
        let mut params = match models.remove(model) {
            Some(p) => p,
            None => TextMap::new(),
        };
        let ghost params_before = params@.dom();
        let fresh = params.insert(param.to_owned(), ()).is_none();
        let ghost params_after = params@.dom();
        let _ = models.insert(model.to_owned(), params);
        let ghost models_after = model_sets(models);
        let _ = self.providers.insert(provider.to_owned(), models);
        proof {
            assert(params_before =~= params_of(models_of(before, provider@), model@));
            assert(params_after =~= params_before.insert(param@));
            assert(models_after =~= models_of(before, provider@).insert(model@, params_after));
            assert(held(self.providers) =~= recorded(before, provider@, model@, param@));
        }
        fresh
    }

    /// Whether the file holds a rejection.
    pub fn contains(&self, provider: &str, model: &str, param: &str) -> (r: bool)
        ensures
            r == rejects(self.rejections(), provider@, model@, param@),
    {
        match self.providers.get(provider) {
            Some(models) => match models.get(model) {
                Some(params) => params.contains_key(param),
                None => false,
            },
            None => false,
        }
    }

    /// Adds everything that `other` holds.
    pub fn absorb(&mut self, other: &ParamRejectionsFile)
        ensures
            final(self).schema_version == old(self).schema_version,
            final(self).rejections() == joined(old(self).rejections(), other.rejections()),
    {
        let ghost mine = held(self.providers);
        let ghost theirs = held(other.providers);
        let n: usize = other.providers.len();
        let mut i: usize = 0;
        while i < n
            invariant
                i <= n,
                n == other.providers.keys().len(),
                other.providers.lists_keys(),
                theirs == held(other.providers),
                self.schema_version == old(self).schema_version,
                forall|p: Seq<char>| #[trigger]
                    held(self.providers).dom().contains(p) <==> mine.dom().contains(p)
                        || other.providers.keys().take(i as int).contains(p),
                forall|p: Seq<char>| #[trigger]
                    held(self.providers).dom().contains(p) ==> held(self.providers)[p] == (
                    if other.providers.keys().take(i as int).contains(p) {
                        joined_models(models_of(mine, p), theirs[p])
                    } else {
                        models_of(mine, p)
                    }),
            decreases n - i,
        {
            let ghost now = held(self.providers);
            let ghost keys = other.providers.keys();
            let provider = other.providers.key_at(i);
            let source = other.providers.value_at(i);
            let mut models = match self.providers.remove(provider) {
                Some(m) => m,
                None => TextMap::new(),
            };
            assert(!keys.take(i as int).contains(provider@)) by {
                if keys.take(i as int).contains(provider@) {
                    let j = choose|j: int| 0 <= j < i && keys.take(i as int)[j] == provider@;
                    assert(text::precedes(keys[j], keys[i as int]));
                    text::lemma_precedes_irreflexive(provider@);
                }
            }
            proof {
                assert(now.dom().contains(provider@) == mine.dom().contains(provider@));
                if now.dom().contains(provider@) {
                    assert(model_sets(models) == now[provider@]);
                } else {
                    assert(model_sets(models) =~= Map::empty());
                }
                assert(model_sets(models) == models_of(mine, provider@));
            }
            absorb_models(&mut models, source);
            let ghost merged = model_sets(models);
            let _ = self.providers.insert(provider.to_owned(), models);
            proof {
                assert(held(self.providers) =~= now.insert(provider@, merged));
                text::lemma_take_contains(keys, i as int);
            }
            i = i + 1;
        }
        proof {
            let keys = other.providers.keys();
            assert(keys.take(n as int) =~= keys);
            assert(held(self.providers) =~= joined(mine, theirs)) by {
                assert forall|p: Seq<char>| #[trigger]
                    held(self.providers).dom().contains(p) implies held(self.providers)[p]
                    == joined(mine, theirs)[p] by {
                    if !keys.contains(p) {
                        assert(models_of(mine, p) =~= joined_models(models_of(mine, p), Map::empty()))
                            by {
                            assert forall|m: Seq<char>| models_of(mine, p).dom().contains(m) implies
                            models_of(mine, p)[m] =~= params_of(models_of(mine, p), m).union(
                                params_of(Map::empty(), m),
                            ) by {}
                        }
                    }
                }
            }
        }
    }

    /// A copy of the file.
    pub fn copy(&self) -> (r: Self)
        ensures
            r.schema_version == self.schema_version,
            r.rejections() == self.rejections(),
    {
        let mut r = ParamRejectionsFile {
            schema_version: self.schema_version,
            providers: TextMap::new(),
        };
        proof {
            assert(r.rejections() =~= Map::empty());
        }
        r.absorb(self);
        proof {
            lemma_joined_empty(self.rejections());
        }
        r
    }
}

proof fn lemma_joined_empty(b: Rejections)
    ensures
        joined(Rejections::empty(), b) == b,
{
    let j = joined(Rejections::empty(), b);
    assert forall|p: Seq<char>| b.dom().contains(p) implies #[trigger] j[p] == b[p] by {
        assert(models_of(Rejections::empty(), p) == Map::<Seq<char>, Set<Seq<char>>>::empty());
        assert forall|m: Seq<char>| b[p].dom().contains(m) implies #[trigger] j[p][m] == b[p][m] by {
            assert(params_of(Map::empty(), m).union(b[p][m]) =~= b[p][m]);
        }
        assert(j[p] =~= b[p]);
    }
    assert(j =~= b);
}

/// Adds the models and parameters of `source` to `models`.
fn absorb_models(models: &mut TextMap<TextSet>, source: &TextMap<TextSet>)
    ensures
        model_sets(*final(models)) == joined_models(model_sets(*old(models)), model_sets(*source)),
{
    let ghost mine = model_sets(*models);
    let ghost theirs = model_sets(*source);
    let n: usize = source.len();
    let mut i: usize = 0;
    while i < n
        invariant
            i <= n,
            n == source.keys().len(),
            source.lists_keys(),
            theirs == model_sets(*source),
            forall|m: Seq<char>| #[trigger]
                model_sets(*models).dom().contains(m) <==> mine.dom().contains(m)
                    || source.keys().take(i as int).contains(m),
            forall|m: Seq<char>| #[trigger]
                model_sets(*models).dom().contains(m) ==> model_sets(*models)[m] == (
                if source.keys().take(i as int).contains(m) {
                    params_of(mine, m).union(theirs[m])
                } else {
                    params_of(mine, m)
                }),
        decreases n - i,
    {
        let ghost now = model_sets(*models);
        let ghost keys = source.keys();
        let model = source.key_at(i);
        let params = source.value_at(i);
        let mut set = match models.remove(model) {
            Some(s) => s,
            None => TextMap::new(),
        };
        assert(!keys.take(i as int).contains(model@)) by {
            if keys.take(i as int).contains(model@) {
                let j = choose|j: int| 0 <= j < i && keys.take(i as int)[j] == model@;
                assert(text::precedes(keys[j], keys[i as int]));
                text::lemma_precedes_irreflexive(model@);
            }
        }
        proof {
            assert(now.dom().contains(model@) == mine.dom().contains(model@));
            if now.dom().contains(model@) {
                assert(set@.dom() == now[model@]);
            } else {
                assert(set@.dom() =~= Set::empty());
            }
            assert(set@.dom() == params_of(mine, model@));
        }
        absorb_params(&mut set, params);
        let ghost merged = set@.dom();
        let _ = models.insert(model.to_owned(), set);
        proof {
            assert(model_sets(*models) =~= now.insert(model@, merged));
            text::lemma_take_contains(keys, i as int);
        }
        i = i + 1;
    }
    proof {
        let keys = source.keys();
        assert(keys.take(n as int) =~= keys);
        assert forall|m: Seq<char>| #[trigger]
            model_sets(*models).dom().contains(m) implies model_sets(*models)[m]
            == joined_models(mine, theirs)[m] by {
            assert(params_of(mine, m).union(Set::empty()) =~= params_of(mine, m));
        }
        assert(model_sets(*models) =~= joined_models(mine, theirs));
    }
}

/// Adds the members of `source` to `set`.
fn absorb_params(set: &mut TextSet, source: &TextSet)
    ensures
        final(set)@.dom() == old(set)@.dom().union(source@.dom()),
{
    let n: usize = source.len();
    let mut i: usize = 0;
    while i < n
        invariant
            i <= n,
            n == source.keys().len(),
            source.lists_keys(),
            forall|k: Seq<char>| #[trigger]
                set@.dom().contains(k) ==> old(set)@.dom().contains(k) || source@.dom().contains(k),
            forall|k: Seq<char>| #[trigger]
                old(set)@.dom().contains(k) ==> set@.dom().contains(k),
            forall|j: int| 0 <= j < i ==> set@.dom().contains(#[trigger] source.keys()[j]),
        decreases n - i,
    {
        let key = source.key_at(i).to_owned();
        let _ = set.insert(key, ());
        i = i + 1;
    }
    proof {
        assert forall|k: Seq<char>| source@.dom().contains(k) implies set@.dom().contains(k) by {
            assert(source.keys().contains(k));
            let j = choose|j: int| 0 <= j < source.keys().len() && source.keys()[j] == k;
            assert(source.keys()[j] == k);
        }
        assert(set@.dom() =~= old(set)@.dom().union(source@.dom()));
    }
}

/// The table of rejected parameters.
pub struct ParamRejectionsTable {
    file: ParamRejectionsFile,
    persist_path: Option<String>,
}

impl ParamRejectionsTable {
    /// What the table holds.
    pub closed spec fn rejections(&self) -> Rejections {
        self.file.rejections()
    }

    /// The format version of the table's file.
    pub closed spec fn version(&self) -> u32 {
        self.file.schema_version
    }

    /// The file that the table is kept in.
    pub closed spec fn path(&self) -> Option<String> {
        self.persist_path
    }

    /// The number of models that the table holds, over all providers in the
    /// order `keys`.
    pub open spec fn model_count(r: Rejections, keys: Seq<Seq<char>>) -> nat
        decreases keys.len(),
    {
        if keys.len() == 0 {
            0
        } else {
            Self::model_count(r, keys.drop_last()) + r[keys.last()].dom().len()
        }
    }

    /// The table at `path`, from what came of reading the file there.
    pub fn from_path(path: &str, read: FileRead<ParamRejectionsFile>) -> (r: Result<Self, Error>)
        ensures
            match read {
                FileRead::Missing => r matches Ok(t) && t.rejections() == Rejections::empty(),
                FileRead::Unreadable(m) => r == Err::<Self, Error>(Error::Io(m)),
                FileRead::Malformed(m) => r matches Err(Error::Provider { message, http_status })
                    && message@ == sidecar::malformed_text("param_rejections.toml"@, path@, m@)
                    && http_status is None,
                FileRead::Parsed(f) => if f.schema_version > PARAM_REJECTIONS_SCHEMA_VERSION {
                    r matches Err(Error::Provider { message, http_status }) && message@
                        == sidecar::too_new_text(
                        "param_rejections.toml"@,
                        path@,
                        f.schema_version,
                        PARAM_REJECTIONS_SCHEMA_VERSION,
                    ) && http_status is None
                } else {
                    r matches Ok(t) && t.rejections() == f.rejections() && t.version()
                        == f.schema_version
                },
            },
            r matches Ok(t) ==> (t.path() matches Some(p) && p@ == path@),
    {
        match ParamRejectionsFile::load(path, read) {
            Ok(file) => Ok(ParamRejectionsTable { file, persist_path: Some(path.to_owned()) }),
            Err(e) => Err(e),
        }
    }

    /// A table that holds nothing and is kept nowhere.
    pub fn empty() -> (t: Self)
        ensures
            t.rejections() == Rejections::empty(),
            t.version() == PARAM_REJECTIONS_SCHEMA_VERSION,
            t.path() is None,
    {
        ParamRejectionsTable { file: ParamRejectionsFile::new_empty(), persist_path: None }
    }

    /// Whether `param` is to be left out for a model.
    pub fn should_omit(&self, provider: &str, model: &str, param: &str) -> (r: bool)
        ensures
            r == rejects(self.rejections(), provider@, model@, param@),
    {
        self.file.contains(provider, model, param)
    }

    /// Remembers that a model rejects `param`. Hands back the path of the file
    /// that has to be written: only where the rejection is new, and the table
    /// is kept in a file.
    pub fn record(&mut self, provider: &str, model: &str, param: &str) -> (r: Option<String>)
        ensures
            final(self).rejections() == recorded(
                old(self).rejections(),
                provider@,
                model@,
                param@,
            ),
            final(self).version() == old(self).version(),
            final(self).path() == old(self).path(),
            r == if rejects(old(self).rejections(), provider@, model@, param@) {
                None
            } else {
                old(self).path()
            },
    {
        if self.file.insert(provider, model, param) {
            wire::clone_opt(&self.persist_path)
        } else {
            None
        }
    }

    /// The file to write in place of `on_disk`: what is there already stays.
    pub fn persist_to(&self, on_disk: ParamRejectionsFile) -> (r: ParamRejectionsFile)
        ensures
            r.schema_version == on_disk.schema_version,
            r.rejections() == joined(on_disk.rejections(), self.rejections()),
    {
        let mut file = on_disk;
        file.absorb(&self.file);
        file
    }

    /// What the table holds now.
    pub fn snapshot(&self) -> (r: ParamRejectionsFile)
        ensures
            r.rejections() == self.rejections(),
            r.schema_version == self.version(),
    {
        self.file.copy()
    }

    /// The providers of the table, in order.
    pub closed spec fn provider_keys(&self) -> Seq<Seq<char>> {
        self.file.providers.keys()
    }

    /// The number of models that the table holds, as far as a `usize` can
    /// tell it.
    pub fn len(&self) -> (n: usize)
        ensures
            ({
                let count = Self::model_count(self.rejections(), self.provider_keys());
                n == if count <= usize::MAX {
                    count
                } else {
                    usize::MAX as nat
                }
            }),
            self.provider_keys().no_duplicates(),
            self.provider_keys().to_set() == self.rejections().dom(),
    {
        let ghost keys = self.file.providers.keys();
        let ghost all = self.rejections();
        let k: usize = self.file.providers.len();
        let mut n: usize = 0;
        let mut i: usize = 0;
        assert(keys.take(0) =~= Seq::empty());
        while i < k
            invariant
                i <= k,
                k == keys.len(),
                keys == self.file.providers.keys(),
                self.file.providers.lists_keys(),
                all == self.rejections(),
                n <= Self::model_count(all, keys.take(i as int)),
                n < Self::model_count(all, keys.take(i as int)) ==> n == usize::MAX,
            decreases k - i,
        {
            let models = self.file.providers.value_at(i);
            let m: usize = models.len();
            proof {
                assert(all[keys[i as int]].dom() =~= models@.dom());
                assert(keys.take(i + 1).drop_last() =~= keys.take(i as int));
            }
            n = n.saturating_add(m);
            i = i + 1;
        }
        proof {
            assert(keys.take(i as int) =~= keys);
            assert forall|a: int, b: int| 0 <= a < b < keys.len() implies keys[a] != keys[b] by {
                text::lemma_precedes_irreflexive(keys[a]);
                assert(text::precedes(keys[a], keys[b]));
            }
            assert(keys.to_set() =~= all.dom());
        }
        n
    }

    /// Whether the table holds no rejection.
    pub fn is_empty(&self) -> (r: bool)
        ensures
            r == holds_nothing(self.rejections()),
    {
        let ghost all = self.rejections();
        let n: usize = self.file.providers.len();
        let ghost keys = self.file.providers.keys();
        let mut i: usize = 0;
        while i < n
            invariant
                i <= n,
                n == keys.len(),
                keys == self.file.providers.keys(),
                all == self.rejections(),
                forall|j: int| 0 <= j < i ==> no_params(#[trigger] keys[j], all),
            decreases n - i,
        {
            let models = self.file.providers.value_at(i);
            assert(all[keys[i as int]] == model_sets(*models));
            if let Some((model, param)) = first_param(models) {
                assert(rejects(all, keys[i as int], model@, param@));
                return false;
            }
            assert(no_params(keys[i as int], all));
            i = i + 1;
        }
        proof {
            assert(self.file.providers.lists_keys());
            assert forall|p: Seq<char>, m: Seq<char>, q: Seq<char>| !rejects(all, p, m, q) by {
                if rejects(all, p, m, q) {
                    assert(keys.contains(p));
                    let j = choose|j: int| 0 <= j < keys.len() && keys[j] == p;
                    assert(no_params(keys[j], all));
                }
            }
        }
        true
    }
}

/// No parameter is held for a provider.
spec fn no_params(provider: Seq<char>, r: Rejections) -> bool {
    forall|m: Seq<char>, q: Seq<char>| !rejects(r, provider, m, q)
}

/// Some parameter that a provider's part of the file holds, with its model.
fn first_param(models: &TextMap<TextSet>) -> (r: Option<(String, String)>)
    ensures
        match r {
            Some((m, q)) => model_sets(*models).dom().contains(m@) && model_sets(
                *models,
            )[m@].contains(q@),
            None => forall|m: Seq<char>, q: Seq<char>|
                model_sets(*models).dom().contains(m) ==> !#[trigger] model_sets(
                    *models,
                )[m].contains(q),
        },
{
    let n: usize = models.len();
    let ghost keys = models.keys();
    let mut i: usize = 0;
    while i < n
        invariant
            i <= n,
            n == keys.len(),
            keys == models.keys(),
            forall|j: int|
                0 <= j < i ==> model_sets(*models)[#[trigger] keys[j]] == Set::<Seq<char>>::empty(),
        decreases n - i,
    {
        let params = models.value_at(i);
        assert(model_sets(*models)[keys[i as int]] == params@.dom());
        if params.len() > 0 {
            let model = models.key_at(i).to_owned();
            let param = params.key_at(0).to_owned();
            return Some((model, param));
        }
        assert(params@.dom() =~= Set::empty());
        i = i + 1;
    }
    assert(models.lists_keys());
    assert forall|m: Seq<char>, q: Seq<char>| model_sets(*models).dom().contains(m) implies
        !#[trigger] model_sets(*models)[m].contains(q) by {
        assert(keys.contains(m));
        let j = choose|j: int| 0 <= j < keys.len() && keys[j] == m;
        assert(model_sets(*models)[keys[j]] == Set::<Seq<char>>::empty());
    }
    None
}

/// What is recorded is left out from then on; what was left out before still
/// is, and nothing else.
pub proof fn law_recorded_is_omitted(
    r: Rejections,
    provider: Seq<char>,
    model: Seq<char>,
    param: Seq<char>,
)
    ensures
        rejects(recorded(r, provider, model, param), provider, model, param),
        forall|p: Seq<char>, m: Seq<char>, q: Seq<char>|
            #![trigger rejects(recorded(r, provider, model, param), p, m, q)]
            (p, m, q) != (provider, model, param) ==> rejects(
                recorded(r, provider, model, param),
                p,
                m,
                q,
            ) == rejects(r, p, m, q),
{
}

/// Recording twice is recording once.
pub proof fn law_recording_is_idempotent(
    r: Rejections,
    provider: Seq<char>,
    model: Seq<char>,
    param: Seq<char>,
)
    ensures
        rejects(r, provider, model, param) ==> recorded(r, provider, model, param) == r,
        recorded(recorded(r, provider, model, param), provider, model, param) == recorded(
            r,
            provider,
            model,
            param,
        ),
{
    lemma_known_is_noop(r, provider, model, param);
    law_recorded_is_omitted(r, provider, model, param);
    lemma_known_is_noop(recorded(r, provider, model, param), provider, model, param);
}

proof fn lemma_known_is_noop(
    r: Rejections,
    provider: Seq<char>,
    model: Seq<char>,
    param: Seq<char>,
)
    ensures
        rejects(r, provider, model, param) ==> recorded(r, provider, model, param) == r,
{
    if rejects(r, provider, model, param) {
        let ms = r[provider];
        assert(ms[model].insert(param) =~= ms[model]);
        assert(ms.insert(model, ms[model]) =~= ms);
        assert(r.insert(provider, ms) =~= r);
    }
}

/// Writing a table over a file loses nothing of either and adds nothing.
pub proof fn law_persisting_merges(on_disk: Rejections, table: Rejections)
    ensures
        forall|p: Seq<char>, m: Seq<char>, q: Seq<char>|
            #![trigger rejects(joined(on_disk, table), p, m, q)]
            rejects(joined(on_disk, table), p, m, q) <==> rejects(on_disk, p, m, q) || rejects(
                table,
                p,
                m,
                q,
            ),
{
}

/// The models of a table are counted provider by provider.
pub proof fn law_models_are_counted(r: Rejections, keys: Seq<Seq<char>>, provider: Seq<char>)
    ensures
        ParamRejectionsTable::model_count(r, Seq::empty()) == 0,
        ParamRejectionsTable::model_count(r, keys.push(provider))
            == ParamRejectionsTable::model_count(r, keys) + r[provider].dom().len(),
{
    assert(keys.push(provider).drop_last() =~= keys);
}

/// A parameter is left out just where it was recorded for exactly this model
/// of exactly this provider: a fresh table leaves nothing out.
pub proof fn law_fresh_table_omits_nothing(
    provider: Seq<char>,
    model: Seq<char>,
    param: Seq<char>,
    p: Seq<char>,
    m: Seq<char>,
    q: Seq<char>,
)
    ensures
        !rejects(Map::empty(), p, m, q),
        holds_nothing(Map::empty()),
        rejects(recorded(Map::empty(), provider, model, param), p, m, q) <==> p == provider && m
            == model && q == param,
        !holds_nothing(recorded(Map::empty(), provider, model, param)),
{
    let r = recorded(Map::empty(), provider, model, param);
    assert(rejects(r, provider, model, param));
}

/// A file holds a rejection just where the provider is among its providers,
/// the model among the provider's and the parameter among the model's.
pub proof fn law_what_a_file_holds(
    file: ParamRejectionsFile,
    provider: Seq<char>,
    model: Seq<char>,
    param: Seq<char>,
)
    ensures
        rejects(file.rejections(), provider, model, param) <==> file.providers@.dom().contains(
            provider,
        ) && file.providers@[provider]@.dom().contains(model)
            && file.providers@[provider]@[model]@.dom().contains(param),
{
}

} // verus!
