//! How malformed JSON replies are recovered, by model.

use vstd::prelude::*;
use vstd::string::*;

use crate::text;
use crate::text_map::TextMap;

verus! {

/// What is done about a reply that does not parse.
#[derive(Debug, Clone, Copy, PartialEq, Eq, Hash, Structural)]
pub enum JsonRecoveryStrategy {
    /// Nothing: the direct parse decides.
    Strict,
    /// The full recovery chain.
    Lenient,
    /// The recovery chain, then the model is asked to go on.
    Continuation,
    /// The recovery chain, then the reply is started for the model.
    PromptPrefill,
}

impl Default for JsonRecoveryStrategy {
    fn default() -> (r: Self)
        ensures
            r == JsonRecoveryStrategy::Lenient,
    {
        JsonRecoveryStrategy::Lenient
    }
}

/// The strategy of a model that the table does not list.
pub const DEFAULT_STRATEGY: JsonRecoveryStrategy = JsonRecoveryStrategy::Lenient;

/// The table of models.
pub open spec fn strategy_rows() -> Seq<(Seq<char>, JsonRecoveryStrategy)> {
    seq![
        ("kimi-k2.7-code"@, JsonRecoveryStrategy::Lenient),
        ("kimi-k3"@, JsonRecoveryStrategy::Lenient),
        ("kimi-k2.6"@, JsonRecoveryStrategy::Lenient),
        ("glm-5.1"@, JsonRecoveryStrategy::Lenient),
        ("glm-5.2"@, JsonRecoveryStrategy::Lenient),
        ("hy3"@, JsonRecoveryStrategy::Lenient),
        ("mimo-v2.5"@, JsonRecoveryStrategy::Lenient),
        ("mimo-v2.5-pro"@, JsonRecoveryStrategy::Lenient),
        ("deepseek-v4-pro"@, JsonRecoveryStrategy::PromptPrefill),
        ("deepseek-v4-flash"@, JsonRecoveryStrategy::PromptPrefill),
        ("minimax-m3"@, JsonRecoveryStrategy::Continuation),
        ("minimax-m2.7"@, JsonRecoveryStrategy::Continuation),
        ("minimax-m2.5"@, JsonRecoveryStrategy::Continuation),
        ("gpt-5.6-luna"@, JsonRecoveryStrategy::Strict),
    ]
}

/// The rows of a table, as they are seen in contracts.
pub open spec fn row_views(rows: Seq<(&'static str, JsonRecoveryStrategy)>) -> Seq<
    (Seq<char>, JsonRecoveryStrategy),
> {
    rows.map_values(|row: (&'static str, JsonRecoveryStrategy)| (row.0@, row.1))
}

/// The table of models.
pub fn strategy_by_model() -> (r: Vec<(&'static str, JsonRecoveryStrategy)>)
    ensures
        row_views(r@) == strategy_rows(),
{
    let r: Vec<(&'static str, JsonRecoveryStrategy)> = vec![
        ("kimi-k2.7-code", JsonRecoveryStrategy::Lenient),
        ("kimi-k3", JsonRecoveryStrategy::Lenient),
        ("kimi-k2.6", JsonRecoveryStrategy::Lenient),
        ("glm-5.1", JsonRecoveryStrategy::Lenient),
        ("glm-5.2", JsonRecoveryStrategy::Lenient),
        ("hy3", JsonRecoveryStrategy::Lenient),
        ("mimo-v2.5", JsonRecoveryStrategy::Lenient),
        ("mimo-v2.5-pro", JsonRecoveryStrategy::Lenient),
        ("deepseek-v4-pro", JsonRecoveryStrategy::PromptPrefill),
        ("deepseek-v4-flash", JsonRecoveryStrategy::PromptPrefill),
        ("minimax-m3", JsonRecoveryStrategy::Continuation),
        ("minimax-m2.7", JsonRecoveryStrategy::Continuation),
        ("minimax-m2.5", JsonRecoveryStrategy::Continuation),
        ("gpt-5.6-luna", JsonRecoveryStrategy::Strict),
    ];
    assert(row_views(r@) =~= strategy_rows());
    r
}

/// The strategy of the first row whose model is `model` up to ASCII case, and
/// the default where there is none.
pub open spec fn row_for(
    rows: Seq<(Seq<char>, JsonRecoveryStrategy)>,
    model: Seq<char>,
) -> JsonRecoveryStrategy
    decreases rows.len(),
{
    if rows.len() == 0 {
        DEFAULT_STRATEGY
    } else if text::lower(rows[0].0) == text::lower(model) {
        rows[0].1
    } else {
        row_for(rows.skip(1), model)
    }
}

/// The strategy of a model: that of the override for exactly this name, else
/// that of the table.
pub open spec fn strategy_of(
    model: Seq<char>,
    overrides: Option<&TextMap<JsonRecoveryStrategy>>,
) -> JsonRecoveryStrategy {
    match overrides {
        Some(o) => if o@.dom().contains(model) {
            o@[model]
        } else {
            row_for(strategy_rows(), model)
        },
        None => row_for(strategy_rows(), model),
    }
}

/// The strategy of a model. A profile can override the table; an override
/// applies to the model of exactly its name.
pub fn strategy_for(model: &str, profile_overrides: Option<&TextMap<JsonRecoveryStrategy>>) -> (r:
    JsonRecoveryStrategy)
    ensures
        r == strategy_of(model@, profile_overrides),
{
    if let Some(overrides) = profile_overrides {
        if let Some(s) = overrides.get(model) {
            return *s;
        }
    }
    let rows = strategy_by_model();
    let ghost all = strategy_rows();
    let mut i: usize = 0;
    assert(all.skip(0) =~= all);
    while i < rows.len()
        invariant
            i <= rows@.len(),
            row_views(rows@) == all,
            strategy_of(model@, profile_overrides) == row_for(all, model@),
            row_for(all, model@) == row_for(all.skip(i as int), model@),
        decreases rows@.len() - i,
    {
        let (name, strategy) = rows[i];
        assert(row_views(rows@)[i as int] == (name@, strategy));
        if text::eq_ignoring_case(model, name) {
            return strategy;
        }
        assert(all.skip(i as int).skip(1) =~= all.skip(i + 1));
        i = i + 1;
    }
    DEFAULT_STRATEGY
}

/// Whether the reply is started for the model.
pub fn needs_assistant_prefill(s: JsonRecoveryStrategy) -> (r: bool)
    ensures
        r == (s == JsonRecoveryStrategy::PromptPrefill),
{
    match s {
        JsonRecoveryStrategy::PromptPrefill => true,
        _ => false,
    }
}

/// How often the model is asked to go on.
pub fn max_continuation_attempts(s: JsonRecoveryStrategy) -> (r: u8)
    ensures
        r == if s == JsonRecoveryStrategy::Continuation {
            2u8
        } else {
            0u8
        },
{
    match s {
        JsonRecoveryStrategy::Continuation => 2,
        _ => 0,
    }
}

proof fn lemma_row_ignores_case(
    rows: Seq<(Seq<char>, JsonRecoveryStrategy)>,
    a: Seq<char>,
    b: Seq<char>,
)
    requires
        text::lower(a) == text::lower(b),
    ensures
        row_for(rows, a) == row_for(rows, b),
    decreases rows.len(),
{
    if rows.len() > 0 {
        lemma_row_ignores_case(rows.skip(1), a, b);
    }
}

/// Without overrides the strategy does not depend on the case of the model's
/// name.
pub proof fn law_table_ignores_case(a: Seq<char>, b: Seq<char>)
    requires
        text::lower(a) == text::lower(b),
    ensures
        strategy_of(a, None) == strategy_of(b, None),
{
    lemma_row_ignores_case(strategy_rows(), a, b);
}

/// The length of a name and its last character tell the models of the table
/// apart.
proof fn lemma_rows_told_apart(i: int, j: int)
    requires
        0 <= i < j < strategy_rows().len(),
    ensures
        text::lower(strategy_rows()[i].0) != text::lower(strategy_rows()[j].0),
{
    reveal_strlit("kimi-k2.7-code");
    reveal_strlit("kimi-k3");
    reveal_strlit("kimi-k2.6");
    reveal_strlit("glm-5.1");
    reveal_strlit("glm-5.2");
    reveal_strlit("hy3");
    reveal_strlit("mimo-v2.5");
    reveal_strlit("mimo-v2.5-pro");
    reveal_strlit("deepseek-v4-pro");
    reveal_strlit("deepseek-v4-flash");
    reveal_strlit("minimax-m3");
    reveal_strlit("minimax-m2.7");
    reveal_strlit("minimax-m2.5");
    reveal_strlit("gpt-5.6-luna");
    let a = strategy_rows()[i].0;
    let b = strategy_rows()[j].0;
    assert(a.len() != b.len() || text::lower(a)[a.len() - 1] != text::lower(b)[b.len() - 1]);
    assert(text::lower(a).len() == a.len());
    assert(text::lower(b).len() == b.len());
}

proof fn lemma_row_found(rows: Seq<(Seq<char>, JsonRecoveryStrategy)>, i: int)
    requires
        0 <= i < rows.len(),
        forall|a: int, b: int|
            0 <= a < b < rows.len() ==> text::lower((#[trigger] rows[a]).0) != text::lower(
                (#[trigger] rows[b]).0,
            ),
    ensures
        row_for(rows, rows[i].0) == rows[i].1,
    decreases rows.len(),
{
    if i > 0 {
        assert(text::lower(rows[0].0) != text::lower(rows[i].0));
        assert forall|a: int, b: int| 0 <= a < b < rows.skip(1).len() implies text::lower(
            (#[trigger] rows.skip(1)[a]).0,
        ) != text::lower((#[trigger] rows.skip(1)[b]).0) by {
            assert(rows.skip(1)[a] == rows[a + 1]);
            assert(rows.skip(1)[b] == rows[b + 1]);
        }
        lemma_row_found(rows.skip(1), i - 1);
    }
}

/// No model is listed twice, so that each gets the strategy of its own row.
pub proof fn law_no_model_is_listed_twice(i: int, j: int)
    requires
        0 <= i < strategy_rows().len(),
        0 <= j < strategy_rows().len(),
    ensures
        i != j ==> text::lower(strategy_rows()[i].0) != text::lower(strategy_rows()[j].0),
        strategy_of(strategy_rows()[i].0, None) == strategy_rows()[i].1,
{
    let rows = strategy_rows();
    assert forall|a: int, b: int| 0 <= a < b < rows.len() implies text::lower(
        (#[trigger] rows[a]).0,
    ) != text::lower((#[trigger] rows[b]).0) by {
        lemma_rows_told_apart(a, b);
    }
    lemma_row_found(rows, i);
}

/// An override decides for its model, and for no other.
pub proof fn law_override_decides_for_its_model(
    overrides: &TextMap<JsonRecoveryStrategy>,
    model: Seq<char>,
)
    ensures
        overrides@.dom().contains(model) ==> strategy_of(model, Some(overrides))
            == overrides@[model],
        !overrides@.dom().contains(model) ==> strategy_of(model, Some(overrides)) == strategy_of(
            model,
            None,
        ),
{
}

/// A model is led into JSON, asked to go on, or taken at its word just where
/// it is one of these, in whatever case; every other reply goes through the
/// recovery chain alone.
pub proof fn law_strategies(model: Seq<char>)
    ensures
        ({
            let low = text::lower(model);
            let s = strategy_of(model, None);
            &&& s == JsonRecoveryStrategy::PromptPrefill <==> low == "deepseek-v4-pro"@ || low
                == "deepseek-v4-flash"@
            &&& s == JsonRecoveryStrategy::Continuation <==> low == "minimax-m3"@ || low
                == "minimax-m2.7"@ || low == "minimax-m2.5"@
            &&& s == JsonRecoveryStrategy::Strict <==> low == "gpt-5.6-luna"@
        }),
{
    let rows = strategy_rows();
    assert forall|i: int| 0 <= i < rows.len() implies text::lower((#[trigger] rows[i]).0)
        == rows[i].0 by {
        lemma_names_are_lower(i);
    }
    if exists|i: int| 0 <= i < rows.len() && (#[trigger] rows[i]).0 == text::lower(model) {
        let i = choose|i: int| 0 <= i < rows.len() && (#[trigger] rows[i]).0 == text::lower(model);
        law_no_model_is_listed_twice(i, i);
        lemma_row_ignores_case(rows, model, rows[i].0);
        assert forall|j: int| 0 <= j < rows.len() && (#[trigger] rows[j]).0 == rows[i].0 implies j
            == i by {
            law_no_model_is_listed_twice(i, j);
        }
    } else {
        lemma_unlisted(rows, model);
    }
    assert(rows[8].0 == "deepseek-v4-pro"@ && rows[9].0 == "deepseek-v4-flash"@ && rows[10].0
        == "minimax-m3"@ && rows[11].0 == "minimax-m2.7"@ && rows[12].0 == "minimax-m2.5"@
        && rows[13].0 == "gpt-5.6-luna"@);
}

proof fn lemma_names_are_lower(i: int)
    requires
        0 <= i < strategy_rows().len(),
    ensures
        text::lower(strategy_rows()[i].0) == strategy_rows()[i].0,
{
    reveal_strlit("kimi-k2.7-code");
    reveal_strlit("kimi-k3");
    reveal_strlit("kimi-k2.6");
    reveal_strlit("glm-5.1");
    reveal_strlit("glm-5.2");
    reveal_strlit("hy3");
    reveal_strlit("mimo-v2.5");
    reveal_strlit("mimo-v2.5-pro");
    reveal_strlit("deepseek-v4-pro");
    reveal_strlit("deepseek-v4-flash");
    reveal_strlit("minimax-m3");
    reveal_strlit("minimax-m2.7");
    reveal_strlit("minimax-m2.5");
    reveal_strlit("gpt-5.6-luna");
    let a = strategy_rows()[i].0;
    assert(text::lower(a) =~= a);
}

proof fn lemma_unlisted(rows: Seq<(Seq<char>, JsonRecoveryStrategy)>, model: Seq<char>)
    requires
        forall|i: int| 0 <= i < rows.len() ==> text::lower((#[trigger] rows[i]).0) != text::lower(
            model,
        ),
    ensures
        row_for(rows, model) == JsonRecoveryStrategy::Lenient,
    decreases rows.len(),
{
    if rows.len() > 0 {
        assert(text::lower(rows[0].0) != text::lower(model));
        assert forall|i: int| 0 <= i < rows.skip(1).len() implies text::lower(
            (#[trigger] rows.skip(1)[i]).0,
        ) != text::lower(model) by {
            assert(rows[i + 1] == rows.skip(1)[i]);
        }
        lemma_unlisted(rows.skip(1), model);
    }
}

} // verus!
