//! Discovery of the largest `max_tokens` that an upstream accepts.
//!
//! The discovery is a state machine. [`Detector::asks`] says which values to
//! probe next, [`Detector::feed`] takes the answers, and once nothing is asked
//! any more [`Detector::result`] has the outcome. It runs in three phases:
//!
//! * one probe far above any ceiling, in the hope that the upstream's error
//!   names its own ceiling; a named ceiling counts when the upstream accepts it;
//! * powers of two, up to the first one that is refused;
//! * rounds of up to 21 probes that narrow the gap in between.

use vstd::prelude::*;
use vstd::string::*;

use crate::error::Error;
use crate::probe::ProbeOutcome;
use crate::text;

verus! {

/// The largest power of two that is probed.
pub const MAX_AUTOPROBE_CEILING: u32 = 1_073_741_824;

/// The exponent of [`MAX_AUTOPROBE_CEILING`].
pub const MAX_PROBE_SHIFT: u32 = 30;

/// The smallest ceiling that is of any use.
pub const MIN_AUTOPROBE_FLOOR: u32 = 1024;

/// The number of narrowing rounds.
pub const MAX_ROUNDS: u32 = 32;

/// The gap that the narrowing rounds work on.
#[derive(Clone, Copy, PartialEq, Eq, Structural)]
pub struct Gap {
    /// The rounds that are over.
    pub round: u32,
    /// The largest power of two that was accepted, or zero.
    pub lo: u32,
    /// The lower end of the gap.
    pub low: u32,
    /// The upper end of the gap.
    pub high: u32,
    /// Whether a narrowing probe was accepted; the last one is then `low`.
    pub found: bool,
}

/// Where a discovery stands.
pub enum Stage {
    /// Waits for the answer to the opening probe.
    Opening,
    /// Waits for the answers at the ceiling that the upstream named and right
    /// above it.
    Validating { cap: u32 },
    /// Waits for the second answer right above the named ceiling.
    Rechecking { cap: u32 },
    /// Waits for the answer at the power of two `n`.
    Doubling { n: u32, lo: u32, again: bool },
    /// Waits for the answers of a round.
    Narrowing { gap: Gap },
    /// Waits for another answer at the first point of the round whose outcome
    /// is open.
    Settling { gap: Gap, outcomes: Vec<ProbeOutcome>, again: bool },
    /// Nothing more to ask.
    Done { named: bool, discovered: u32 },
}

/// The model of [`Stage`].
pub enum StageView {
    Opening,
    Validating { cap: u32 },
    Rechecking { cap: u32 },
    Doubling { n: u32, lo: u32, again: bool },
    Narrowing { gap: Gap },
    Settling { gap: Gap, outcomes: Seq<ProbeOutcome>, again: bool },
    Done { named: bool, discovered: u32 },
}

impl View for Stage {
    type V = StageView;

    open spec fn view(&self) -> StageView {
        match *self {
            Stage::Opening => StageView::Opening,
            Stage::Validating { cap } => StageView::Validating { cap },
            Stage::Rechecking { cap } => StageView::Rechecking { cap },
            Stage::Doubling { n, lo, again } => StageView::Doubling { n, lo, again },
            Stage::Narrowing { gap } => StageView::Narrowing { gap },
            Stage::Settling { gap, outcomes, again } => StageView::Settling {
                gap,
                outcomes: outcomes@,
                again,
            },
            Stage::Done { named, discovered } => StageView::Done { named, discovered },
        }
    }
}

// ---------------------------------------------------------------------------
// The model
// ---------------------------------------------------------------------------

/// One more than `n`, or the largest number.
pub open spec fn above(n: u32) -> u32 {
    if n == u32::MAX {
        n
    } else {
        (n + 1) as u32
    }
}

/// One less than `n`, or zero.
pub open spec fn below(n: u32) -> u32 {
    if n == 0 {
        n
    } else {
        (n - 1) as u32
    }
}

/// The points of a round: every value of a gap of at most 21 values, and 20
/// evenly spaced ones of a larger gap.
pub open spec fn points(low: u32, high: u32) -> Seq<u32> {
    if high - low <= 20 {
        Seq::new((high - low + 1) as nat, |i: int| (low + i) as u32)
    } else {
        Seq::new(20, |i: int| (low + (i + 1) * ((high - low) / 20)) as u32)
    }
}

/// The index of the first outcome that is not an acceptance.
pub open spec fn verdict(outcomes: Seq<ProbeOutcome>) -> int
    decreases outcomes.len(),
{
    if outcomes.len() == 0 || outcomes[0] != ProbeOutcome::Accepted {
        0
    } else {
        1 + verdict(outcomes.skip(1))
    }
}

/// What the powers of two and the rounds have found.
pub open spec fn best(gap: Gap) -> u32 {
    if gap.found {
        gap.low
    } else {
        gap.lo
    }
}

/// Begins the next round, if there is a gap left to narrow.
pub open spec fn begin_round(gap: Gap) -> StageView {
    if gap.round >= MAX_ROUNDS || gap.low >= gap.high || gap.high == 0 {
        StageView::Done { named: false, discovered: best(gap) }
    } else {
        StageView::Narrowing { gap }
    }
}

/// The gap between `lo`, accepted, and `hi`, out of reach.
pub open spec fn gap_between(lo: u32, hi: u32) -> Gap {
    Gap { round: 0, lo, low: above(lo), high: below(hi), found: false }
}

/// Goes on with the power of two `n`, if it is to be probed.
pub open spec fn begin_doubling(ceiling: u32, n: u32, lo: u32) -> StageView {
    if n <= ceiling {
        StageView::Doubling { n, lo, again: false }
    } else {
        begin_round(gap_between(lo, ceiling))
    }
}

/// Goes on with the power of two behind `n`.
pub open spec fn double(ceiling: u32, n: u32, lo: u32) -> StageView {
    if n >= MAX_AUTOPROBE_CEILING {
        begin_round(gap_between(lo, ceiling))
    } else {
        begin_doubling(ceiling, (n * 2) as u32, lo)
    }
}

/// The gap that is left when the outcomes of a round are settled.
pub open spec fn narrowed(gap: Gap, outcomes: Seq<ProbeOutcome>) -> Gap {
    let v = verdict(outcomes);
    let pts = points(gap.low, gap.high);
    Gap {
        round: (gap.round + 1) as u32,
        lo: gap.lo,
        low: if v > 0 {
            pts[v - 1]
        } else {
            gap.low
        },
        high: if v < outcomes.len() {
            below(pts[v])
        } else {
            gap.high
        },
        found: gap.found || v > 0,
    }
}

/// Ends a round whose outcomes are settled up to the first refusal; asks once
/// more where that outcome is open.
pub open spec fn settle(gap: Gap, outcomes: Seq<ProbeOutcome>) -> StageView {
    let v = verdict(outcomes);
    let next = narrowed(gap, outcomes);
    if v < outcomes.len() && outcomes[v] == ProbeOutcome::Indeterminate {
        StageView::Settling { gap, outcomes, again: false }
    } else if next.low == gap.low && next.high == gap.high {
        StageView::Done { named: false, discovered: best(next) }
    } else {
        begin_round(next)
    }
}

/// The values that are to be probed in a stage.
pub open spec fn asked(s: StageView) -> Seq<u32> {
    match s {
        StageView::Opening => seq![u32::MAX],
        StageView::Validating { cap } => seq![cap, above(cap)],
        StageView::Rechecking { cap } => seq![above(cap)],
        StageView::Doubling { n, .. } => seq![n],
        StageView::Narrowing { gap } => points(gap.low, gap.high),
        StageView::Settling { gap, outcomes, .. } => seq![
            points(gap.low, gap.high)[verdict(outcomes)],
        ],
        StageView::Done { .. } => Seq::empty(),
    }
}

/// The stage behind `s` once its probes were answered with `answers`.
/// `reported` is the ceiling that the body of the opening answer names.
pub open spec fn step(
    ceiling: u32,
    s: StageView,
    answers: Seq<ProbeOutcome>,
    reported: Option<u32>,
) -> StageView {
    match s {
        StageView::Opening => match reported {
            Some(cap) => StageView::Validating { cap },
            None => begin_doubling(ceiling, 2, 0),
        },
        StageView::Validating { cap } => {
            if answers[0] != ProbeOutcome::Accepted {
                begin_doubling(ceiling, 2, 0)
            } else if answers[1] == ProbeOutcome::Indeterminate {
                StageView::Rechecking { cap }
            } else {
                StageView::Done { named: true, discovered: cap }
            }
        },
        StageView::Rechecking { cap } => StageView::Done { named: true, discovered: cap },
        StageView::Doubling { n, lo, again } => {
            if answers[0] == ProbeOutcome::Accepted {
                double(ceiling, n, n)
            } else if answers[0] == ProbeOutcome::Indeterminate && !again {
                StageView::Doubling { n, lo, again: true }
            } else if lo > 0 {
                begin_round(gap_between(lo, n))
            } else {
                double(ceiling, n, lo)
            }
        },
        StageView::Narrowing { gap } => settle(gap, answers),
        StageView::Settling { gap, outcomes, again } => {
            if answers[0] == ProbeOutcome::Indeterminate && !again {
                StageView::Settling { gap, outcomes, again: true }
            } else if answers[0] == ProbeOutcome::Accepted {
                settle(gap, outcomes.update(verdict(outcomes), ProbeOutcome::Accepted))
            } else {
                settle(gap, outcomes.update(verdict(outcomes), ProbeOutcome::Rejected))
            }
        },
        StageView::Done { .. } => s,
    }
}

/// A gap that a round can narrow.
pub open spec fn gap_ok(ceiling: u32, gap: Gap) -> bool {
    &&& gap.round < MAX_ROUNDS
    &&& gap.lo < gap.low < gap.high < ceiling
}

/// What holds of every stage that a discovery reaches.
pub open spec fn stage_ok(ceiling: u32, s: StageView) -> bool {
    match s {
        StageView::Doubling { n, lo, .. } => 2 <= n <= ceiling && lo < n,
        StageView::Narrowing { gap } => gap_ok(ceiling, gap),
        StageView::Settling { gap, outcomes, .. } => {
            &&& gap_ok(ceiling, gap)
            &&& outcomes.len() == points(gap.low, gap.high).len()
            &&& verdict(outcomes) < outcomes.len()
            &&& outcomes[verdict(outcomes)] == ProbeOutcome::Indeterminate
        },
        StageView::Done { named, discovered } => !named ==> discovered <= ceiling,
        _ => true,
    }
}

/// The number of powers of two from `n` on.
pub open spec fn doublings(n: u32) -> nat
    decreases 2 * MAX_AUTOPROBE_CEILING - n,
{
    if n >= MAX_AUTOPROBE_CEILING || n == 0 {
        1
    } else {
        1 + doublings((n * 2) as u32)
    }
}

/// The number of probes that a discovery may still send.
pub open spec fn budget(s: StageView) -> int {
    match s {
        StageView::Opening => 2079,
        StageView::Validating { .. } => 2078,
        StageView::Rechecking { .. } => 1,
        StageView::Doubling { n, again, .. } => 2016 + 2 * doublings(n) - if again {
            1int
        } else {
            0
        },
        StageView::Narrowing { gap } => (MAX_ROUNDS - gap.round) * 63,
        StageView::Settling { gap, outcomes, again } => (MAX_ROUNDS - gap.round - 1) * 63 + (21
            - verdict(outcomes)) * 2 - if again {
            1int
        } else {
            0
        },
        StageView::Done { .. } => 0,
    }
}

/// The message of a discovery that found nothing of use.
pub open spec fn failure_text(discovered: u32) -> Seq<char> {
    "auto-probe failed to discover a usable max_tokens (got "@ + text::decimal(discovered as nat)
        + "); provider likely rejected every probe"@
}

/// `n`, held to the range of useful ceilings.
pub open spec fn useful(n: u32) -> u32 {
    if n < MIN_AUTOPROBE_FLOOR {
        MIN_AUTOPROBE_FLOOR
    } else if n > MAX_AUTOPROBE_CEILING {
        MAX_AUTOPROBE_CEILING
    } else {
        n
    }
}

/// `n`, held to the range of useful ceilings.
pub fn make_useful(n: u32) -> (r: u32)
    ensures
        r == useful(n),
{
    if n < MIN_AUTOPROBE_FLOOR {
        MIN_AUTOPROBE_FLOOR
    } else if n > MAX_AUTOPROBE_CEILING {
        MAX_AUTOPROBE_CEILING
    } else {
        n
    }
}

/// `n` raised to the floor, then cut to the ceiling, and held to the range of
/// useful ceilings in any case.
pub open spec fn fitted(n: u32, floor: u32, ceiling: u32) -> u32 {
    let raised = if n < floor {
        floor
    } else {
        n
    };
    if raised > ceiling {
        useful(ceiling)
    } else {
        useful(raised)
    }
}

proof fn lemma_verdict(outcomes: Seq<ProbeOutcome>)
    ensures
        0 <= verdict(outcomes) <= outcomes.len(),
        forall|i: int| 0 <= i < verdict(outcomes) ==> outcomes[i] == ProbeOutcome::Accepted,
        verdict(outcomes) < outcomes.len() ==> outcomes[verdict(outcomes)]
            != ProbeOutcome::Accepted,
    decreases outcomes.len(),
{
    if outcomes.len() > 0 && outcomes[0] == ProbeOutcome::Accepted {
        let rest = outcomes.skip(1);
        lemma_verdict(rest);
        assert forall|i: int| 0 <= i < verdict(outcomes) implies outcomes[i]
            == ProbeOutcome::Accepted by {
            if i > 0 {
                assert(rest[i - 1] == outcomes[i]);
            }
        }
    }
}

pub(crate) proof fn lemma_verdict_is(outcomes: Seq<ProbeOutcome>, v: int)
    requires
        0 <= v <= outcomes.len(),
        forall|i: int| 0 <= i < v ==> outcomes[i] == ProbeOutcome::Accepted,
        v < outcomes.len() ==> outcomes[v] != ProbeOutcome::Accepted,
    ensures
        verdict(outcomes) == v,
{
    lemma_verdict(outcomes);
    let w = verdict(outcomes);
    if w < v {
        assert(outcomes[w] == ProbeOutcome::Accepted);
    }
}

/// The points of a round lie in the gap, ascend, and reach above its lower end.
pub proof fn lemma_points(low: u32, high: u32)
    requires
        low < high,
    ensures
        2 <= points(low, high).len() <= 21,
        forall|i: int| 0 <= i < points(low, high).len() ==> low <= #[trigger] points(low, high)[i]
            <= high,
        high - low > 20 ==> points(low, high).len() == 20 && forall|i: int|
            0 <= i < 20 ==> #[trigger] points(low, high)[i] == low + (i + 1) * ((high - low) / 20),
        high - low <= 20 ==> points(low, high).len() == high - low + 1 && forall|i: int|
            0 <= i < points(low, high).len() ==> #[trigger] points(low, high)[i] == low + i,
{
    let pts = points(low, high);
    if high - low > 20 {
        let st = (high - low) / 20;
        assert forall|i: int| 0 <= i < 20 implies low <= #[trigger] pts[i] <= high && pts[i] == low
            + (i + 1) * st by {
            assert(0 <= (i + 1) * st <= 20 * st) by (nonlinear_arith)
                requires
                    0 <= i < 20,
                    st >= 0,
            ;
        }
    }
}

proof fn lemma_narrowed(ceiling: u32, gap: Gap, outcomes: Seq<ProbeOutcome>)
    requires
        gap_ok(ceiling, gap),
        outcomes.len() == points(gap.low, gap.high).len(),
    ensures
        narrowed(gap, outcomes).round == gap.round + 1,
        gap.lo < gap.low <= narrowed(gap, outcomes).low < ceiling,
        narrowed(gap, outcomes).high < ceiling,
{
    lemma_points(gap.low, gap.high);
    lemma_verdict(outcomes);
}

proof fn lemma_doublings(n: u32)
    requires
        2 <= n,
    ensures
        doublings(n) >= 1,
        2 <= n < MAX_AUTOPROBE_CEILING ==> doublings(n) == 1 + doublings((n * 2) as u32),
{
}

/// From 2 on there are thirty powers of two to probe.
proof fn lemma_all_doublings()
    ensures
        doublings(2) == 30,
{
    reveal_with_fuel(doublings, 31);
}

/// A stage leads to a stage that holds what every stage does, and the probes
/// that it asks for come out of the budget.
pub proof fn lemma_step(
    ceiling: u32,
    s: StageView,
    answers: Seq<ProbeOutcome>,
    reported: Option<u32>,
)
    requires
        ceiling >= MIN_AUTOPROBE_FLOOR,
        stage_ok(ceiling, s),
        answers.len() == asked(s).len(),
    ensures
        stage_ok(ceiling, step(ceiling, s, answers, reported)),
        budget(step(ceiling, s, answers, reported)) >= 0,
        budget(s) >= asked(s).len() + budget(step(ceiling, s, answers, reported)),
{
    lemma_all_doublings();
    match s {
        StageView::Doubling { n, lo, again } => {
            lemma_doublings(n);
        },
        StageView::Narrowing { gap } => {
            lemma_points(gap.low, gap.high);
            lemma_verdict(answers);
            lemma_narrowed(ceiling, gap, answers);
        },
        StageView::Settling { gap, outcomes, again } => {
            lemma_points(gap.low, gap.high);
            lemma_verdict(outcomes);
            let v = verdict(outcomes);
            let yes = outcomes.update(v, ProbeOutcome::Accepted);
            let no = outcomes.update(v, ProbeOutcome::Rejected);
            lemma_verdict(yes);
            lemma_narrowed(ceiling, gap, yes);
            lemma_verdict_is(no, v);
            lemma_narrowed(ceiling, gap, no);
            assert(verdict(yes) > v) by {
                if verdict(yes) <= v {
                    assert(yes[verdict(yes)] == ProbeOutcome::Accepted);
                }
            }
        },
        _ => {},
    }
}

// ---------------------------------------------------------------------------
// The machine
// ---------------------------------------------------------------------------

/// A discovery in progress.
pub struct Detector {
    floor: u32,
    ceiling: u32,
    stage: Stage,
    probes: u32,
}

fn begin_round_at(gap: Gap) -> (s: Stage)
    ensures
        s@ == begin_round(gap),
{
    if gap.round >= MAX_ROUNDS || gap.low >= gap.high || gap.high == 0 {
        Stage::Done {
            named: false,
            discovered: if gap.found {
                gap.low
            } else {
                gap.lo
            },
        }
    } else {
        Stage::Narrowing { gap }
    }
}

fn begin_gap(lo: u32, hi: u32) -> (s: Stage)
    ensures
        s@ == begin_round(gap_between(lo, hi)),
{
    begin_round_at(
        Gap { round: 0, lo, low: lo.saturating_add(1), high: hi.saturating_sub(1), found: false },
    )
}

fn begin_doubling_at(ceiling: u32, n: u32, lo: u32) -> (s: Stage)
    ensures
        s@ == begin_doubling(ceiling, n, lo),
{
    if n <= ceiling {
        Stage::Doubling { n, lo, again: false }
    } else {
        begin_gap(lo, ceiling)
    }
}

fn double_from(ceiling: u32, n: u32, lo: u32) -> (s: Stage)
    ensures
        s@ == double(ceiling, n, lo),
{
    if n >= MAX_AUTOPROBE_CEILING {
        begin_gap(lo, ceiling)
    } else {
        begin_doubling_at(ceiling, n * 2, lo)
    }
}

/// The points of a round.
fn points_of(low: u32, high: u32) -> (v: Vec<u32>)
    requires
        low < high,
    ensures
        v@ == points(low, high),
{
    proof {
        lemma_points(low, high);
    }
    let mut v: Vec<u32> = Vec::new();
    let span: u32 = high - low;
    if span <= 20 {
        let mut i: u32 = 0;
        while i <= span
            invariant
                i <= span + 1,
                span == high - low,
                span <= 20,
                v@ =~= points(low, high).take(i as int),
            decreases span + 1 - i,
        {
            v.push(low + i);
            i = i + 1;
        }
    } else {
        let st: u32 = span / 20;
        let mut i: u32 = 0;
        while i < 20
            invariant
                i <= 20,
                span == high - low,
                span > 20,
                st == span / 20,
                v@ =~= points(low, high).take(i as int),
            decreases 20 - i,
        {
            proof {
                lemma_points(low, high);
                assert(points(low, high)[i as int] == low + (i + 1) * st);
                assert((i + 1) * st <= 20 * st) by (nonlinear_arith)
                    requires
                        0 <= i < 20,
                        st >= 0,
                ;
            }
            v.push(low + (i + 1) * st);
            i = i + 1;
        }
    }
    v
}

fn verdict_of(outcomes: &Vec<ProbeOutcome>) -> (v: usize)
    ensures
        v == verdict(outcomes@),
        v <= outcomes@.len(),
{
    let mut i: usize = 0;
    while i < outcomes.len() && outcomes[i] == ProbeOutcome::Accepted
        invariant
            i <= outcomes@.len(),
            forall|j: int| 0 <= j < i ==> outcomes@[j] == ProbeOutcome::Accepted,
        ensures
            i <= outcomes@.len(),
            forall|j: int| 0 <= j < i ==> outcomes@[j] == ProbeOutcome::Accepted,
            i < outcomes@.len() ==> outcomes@[i as int] != ProbeOutcome::Accepted,
        decreases outcomes@.len() - i,
    {
        i = i + 1;
    }
    proof {
        lemma_verdict_is(outcomes@, i as int);
    }
    i
}

fn settle_round(ceiling: Ghost<u32>, gap: Gap, outcomes: Vec<ProbeOutcome>) -> (s: Stage)
    requires
        gap_ok(ceiling@, gap),
        outcomes@.len() == points(gap.low, gap.high).len(),
    ensures
        s@ == settle(gap, outcomes@),
{
    proof {
        lemma_points(gap.low, gap.high);
        lemma_narrowed(ceiling@, gap, outcomes@);
    }
    let v: usize = verdict_of(&outcomes);
    if v < outcomes.len() && outcomes[v] == ProbeOutcome::Indeterminate {
        return Stage::Settling { gap, outcomes, again: false };
    }
    let pts = points_of(gap.low, gap.high);
    let low: u32 = if v > 0 {
        pts[v - 1]
    } else {
        gap.low
    };
    let high: u32 = if v < outcomes.len() {
        pts[v].saturating_sub(1)
    } else {
        gap.high
    };
    let next = Gap { round: gap.round + 1, lo: gap.lo, low, high, found: gap.found || v > 0 };
    assert(next == narrowed(gap, outcomes@));
    if low == gap.low && high == gap.high {
        Stage::Done {
            named: false,
            discovered: if next.found {
                next.low
            } else {
                next.lo
            },
        }
    } else {
        begin_round_at(next)
    }
}

impl Detector {
    #[verifier::type_invariant]
    spec fn well_formed(self) -> bool {
        &&& self.ceiling >= MIN_AUTOPROBE_FLOOR
        &&& stage_ok(self.ceiling, self.stage@)
        &&& self.probes + budget(self.stage@) <= budget(StageView::Opening)
    }

    /// The smallest value that the discovery may yield.
    pub closed spec fn floor(&self) -> u32 {
        self.floor
    }

    /// The largest value that the discovery may yield.
    pub closed spec fn ceiling(&self) -> u32 {
        self.ceiling
    }

    /// Where the discovery stands.
    pub closed spec fn stage(&self) -> StageView {
        self.stage@
    }

    /// How many probes were answered so far.
    pub closed spec fn answered(&self) -> u32 {
        self.probes
    }

    /// What holds of every discovery.
    pub open spec fn is_valid(&self) -> bool {
        self.ceiling() >= MIN_AUTOPROBE_FLOOR && stage_ok(self.ceiling(), self.stage())
    }

    /// Begins a discovery.
    pub fn new(floor: u32, ceiling: u32) -> (d: Self)
        requires
            ceiling >= MIN_AUTOPROBE_FLOOR,
        ensures
            d.floor() == floor,
            d.ceiling() == ceiling,
            d.stage() == StageView::Opening,
            d.answered() == 0,
            d.is_valid(),
    {
        Detector { floor, ceiling, stage: Stage::Opening, probes: 0 }
    }

    /// How many probes were answered so far.
    pub fn probes(&self) -> (r: u32)
        ensures
            r == self.answered(),
    {
        self.probes
    }

    /// The values to probe next; none once the discovery is over.
    pub fn asks(&self) -> (v: Vec<u32>)
        ensures
            v@ == asked(self.stage()),
            self.is_valid(),
            v@.len() == 0 <==> self.stage() is Done,
    {
        proof {
            use_type_invariant(self);
        }
        match &self.stage {
            Stage::Opening => vec![u32::MAX],
            Stage::Validating { cap } => vec![*cap, (*cap).saturating_add(1)],
            Stage::Rechecking { cap } => vec![(*cap).saturating_add(1)],
            Stage::Doubling { n, .. } => vec![*n],
            Stage::Narrowing { gap } => {
                proof {
                    lemma_points(gap.low, gap.high);
                }
                points_of(gap.low, gap.high)
            },
            Stage::Settling { gap, outcomes, .. } => {
                proof {
                    lemma_points(gap.low, gap.high);
                }
                let pts = points_of(gap.low, gap.high);
                let v: usize = verdict_of(outcomes);
                vec![pts[v]]
            },
            Stage::Done { .. } => Vec::new(),
        }
    }

    /// Whether the next probe is sent with its body: the opening one is, whose
    /// body may name a ceiling, and so is the one that is sent again above a
    /// named ceiling.
    pub fn wants_body(&self) -> (r: bool)
        ensures
            r == (self.stage() is Opening || self.stage() is Rechecking),
    {
        match &self.stage {
            Stage::Opening => true,
            Stage::Rechecking { .. } => true,
            _ => false,
        }
    }

    /// Takes the answers to the values that [`Detector::asks`] gave, in their
    /// order, and the ceiling that the body of the opening answer names.
    pub fn feed(&mut self, answers: Vec<ProbeOutcome>, reported: Option<u32>)
        requires
            answers@.len() == asked(old(self).stage()).len(),
        ensures
            final(self).floor() == old(self).floor(),
            final(self).ceiling() == old(self).ceiling(),
            final(self).stage() == step(
                old(self).ceiling(),
                old(self).stage(),
                answers@,
                reported,
            ),
            final(self).answered() == old(self).answered() + answers@.len(),
            final(self).is_valid(),
            budget(old(self).stage()) >= asked(old(self).stage()).len() + budget(
                final(self).stage(),
            ),
            budget(final(self).stage()) >= 0,
    {
        proof {
            use_type_invariant(&*self);
            lemma_step(self.ceiling, self.stage@, answers@, reported);
        }
        let ceiling: u32 = self.ceiling;
        let mut stage = Stage::Done { named: false, discovered: 0 };
        let probes: u32 = self.probes + answers.len() as u32;
        std::mem::swap(&mut stage, &mut self.stage);
        let next = match stage {
            Stage::Opening => match reported {
                Some(cap) => Stage::Validating { cap },
                None => begin_doubling_at(ceiling, 2, 0),
            },
            Stage::Validating { cap } => {
                if answers[0] != ProbeOutcome::Accepted {
                    begin_doubling_at(ceiling, 2, 0)
                } else if answers[1] == ProbeOutcome::Indeterminate {
                    Stage::Rechecking { cap }
                } else {
                    Stage::Done { named: true, discovered: cap }
                }
            },
            Stage::Rechecking { cap } => Stage::Done { named: true, discovered: cap },
            Stage::Doubling { n, lo, again } => {
                if answers[0] == ProbeOutcome::Accepted {
                    double_from(ceiling, n, n)
                } else if answers[0] == ProbeOutcome::Indeterminate && !again {
                    Stage::Doubling { n, lo, again: true }
                } else if lo > 0 {
                    begin_gap(lo, n)
                } else {
                    double_from(ceiling, n, lo)
                }
            },
            Stage::Narrowing { gap } => settle_round(Ghost(ceiling), gap, answers),
            Stage::Settling { gap, outcomes, again } => {
                if answers[0] == ProbeOutcome::Indeterminate && !again {
                    Stage::Settling { gap, outcomes, again: true }
                } else {
                    let v: usize = verdict_of(&outcomes);
                    let mut outcomes = outcomes;
                    let committed = if answers[0] == ProbeOutcome::Accepted {
                        ProbeOutcome::Accepted
                    } else {
                        ProbeOutcome::Rejected
                    };
                    outcomes.set(v, committed);
                    settle_round(Ghost(ceiling), gap, outcomes)
                }
            },
            Stage::Done { named, discovered } => Stage::Done { named, discovered },
        };
        self.probes = probes;
        self.stage = next;
    }

    /// The ceiling that the upstream named itself, if the discovery took it.
    pub open spec fn named_cap_spec(&self) -> Option<u32> {
        match self.stage() {
            StageView::Done { named, discovered } => if named {
                Some(discovered)
            } else {
                None
            },
            _ => None,
        }
    }

    /// The ceiling that the upstream named itself, if the discovery took it.
    pub fn named_cap(&self) -> (r: Option<u32>)
        ensures
            r == self.named_cap_spec(),
    {
        match &self.stage {
            Stage::Done { named, discovered } => if *named {
                Some(*discovered)
            } else {
                None
            },
            _ => None,
        }
    }

    /// The outcome of the discovery: a useful ceiling, raised to the floor and
    /// cut to the ceiling, or an error where nothing of use was accepted.
    /// `None` as long as there is something to ask.
    pub fn result(&self) -> (r: Option<Result<u32, Error>>)
        ensures
            result_is(self.stage(), self.floor(), self.ceiling(), r),
    {
        match &self.stage {
            Stage::Done { named, discovered } => {
                if !*named && *discovered < MIN_AUTOPROBE_FLOOR {
                    let digits = text::decimal_of(*discovered as u64);
                    let message =
                        "auto-probe failed to discover a usable max_tokens (got ".to_owned().concat(
                        digits.as_str(),
                    ).concat("); provider likely rejected every probe");
                    Some(Err(Error::Provider { message, http_status: None }))
                } else {
                    let raised: u32 = if *discovered < self.floor {
                        self.floor
                    } else {
                        *discovered
                    };
                    if raised > self.ceiling {
                        Some(Ok(make_useful(self.ceiling)))
                    } else {
                        Some(Ok(make_useful(raised)))
                    }
                }
            },
            _ => None,
        }
    }
}

/// `r` is the outcome of a discovery in stage `s`.
pub open spec fn result_is(
    s: StageView,
    floor: u32,
    ceiling: u32,
    r: Option<Result<u32, Error>>,
) -> bool {
    match s {
        StageView::Done { named, discovered } => {
            if !named && discovered < MIN_AUTOPROBE_FLOOR {
                &&& r matches Some(Err(Error::Provider { message, http_status }))
                &&& message@ == failure_text(discovered)
                &&& http_status is None
            } else {
                r == Some(Ok::<u32, Error>(fitted(discovered, floor, ceiling)))
            }
        },
        _ => r is None,
    }
}

} // verus!
