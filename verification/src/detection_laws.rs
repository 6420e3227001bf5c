//! What a discovery guarantees, whatever the upstream answers, and what it
//! finds where the upstream has a fixed ceiling.

use vstd::prelude::*;

use crate::detection;
use crate::detection::{Gap, StageView, MAX_AUTOPROBE_CEILING, MAX_ROUNDS, MIN_AUTOPROBE_FLOOR};
use crate::probe::ProbeOutcome;

verus! {

// ---------------------------------------------------------------------------
// Any upstream
// ---------------------------------------------------------------------------

/// The answers to what one stage asked.
pub struct Reply {
    pub answers: Seq<ProbeOutcome>,
    pub reported: Option<u32>,
}

/// The stage that a discovery reaches with the replies `h`.
pub open spec fn replay(ceiling: u32, h: Seq<Reply>) -> StageView
    decreases h.len(),
{
    if h.len() == 0 {
        StageView::Opening
    } else {
        detection::step(
            ceiling,
            replay(ceiling, h.drop_last()),
            h.last().answers,
            h.last().reported,
        )
    }
}

/// Each reply answers what was asked.
pub open spec fn fits(ceiling: u32, h: Seq<Reply>) -> bool
    decreases h.len(),
{
    h.len() > 0 ==> fits(ceiling, h.drop_last()) && h.last().answers.len() == detection::asked(
        replay(ceiling, h.drop_last()),
    ).len()
}

/// In the replies `h` a probe of `n` was accepted.
pub open spec fn heard(ceiling: u32, h: Seq<Reply>, n: u32) -> bool
    decreases h.len(),
{
    h.len() > 0 && (heard(ceiling, h.drop_last(), n) || exists|j: int|
        0 <= j < h.last().answers.len() && #[trigger] h.last().answers[j] == ProbeOutcome::Accepted
            && detection::asked(replay(ceiling, h.drop_last()))[j] == n)
}

/// The number of probes that the replies `h` answer.
pub open spec fn probes(h: Seq<Reply>) -> nat
    decreases h.len(),
{
    if h.len() == 0 {
        0
    } else {
        probes(h.drop_last()) + h.last().answers.len()
    }
}

spec fn gap_backed(ceiling: u32, h: Seq<Reply>, gap: Gap) -> bool {
    (gap.lo > 0 ==> heard(ceiling, h, gap.lo)) && (gap.found ==> heard(ceiling, h, gap.low))
}

spec fn backed(ceiling: u32, h: Seq<Reply>, s: StageView) -> bool {
    match s {
        StageView::Rechecking { cap } => heard(ceiling, h, cap),
        StageView::Doubling { lo, .. } => lo > 0 ==> heard(ceiling, h, lo),
        StageView::Narrowing { gap } => gap_backed(ceiling, h, gap),
        StageView::Settling { gap, outcomes, .. } => {
            &&& gap_backed(ceiling, h, gap)
            &&& forall|i: int|
                0 <= i < outcomes.len() && #[trigger] outcomes[i] == ProbeOutcome::Accepted
                    ==> heard(ceiling, h, detection::points(gap.low, gap.high)[i])
        },
        StageView::Done { discovered, .. } => discovered > 0 ==> heard(ceiling, h, discovered),
        _ => true,
    }
}

proof fn lemma_heard_now(ceiling: u32, h: Seq<Reply>, j: int)
    requires
        h.len() > 0,
        0 <= j < h.last().answers.len(),
        h.last().answers[j] == ProbeOutcome::Accepted,
    ensures
        heard(ceiling, h, detection::asked(replay(ceiling, h.drop_last()))[j]),
{
}

proof fn lemma_verdict(outcomes: Seq<ProbeOutcome>)
    ensures
        0 <= detection::verdict(outcomes) <= outcomes.len(),
        forall|i: int|
            0 <= i < detection::verdict(outcomes) ==> outcomes[i] == ProbeOutcome::Accepted,
        detection::verdict(outcomes) < outcomes.len() ==> outcomes[detection::verdict(outcomes)]
            != ProbeOutcome::Accepted,
    decreases outcomes.len(),
{
    if outcomes.len() > 0 && outcomes[0] == ProbeOutcome::Accepted {
        let rest = outcomes.skip(1);
        lemma_verdict(rest);
        assert forall|i: int| 0 <= i < detection::verdict(outcomes) implies outcomes[i]
            == ProbeOutcome::Accepted by {
            if i > 0 {
                assert(rest[i - 1] == outcomes[i]);
            }
        }
    }
}

proof fn lemma_backed(ceiling: u32, h: Seq<Reply>)
    requires
        ceiling >= MIN_AUTOPROBE_FLOOR,
        fits(ceiling, h),
    ensures
        detection::stage_ok(ceiling, replay(ceiling, h)),
        backed(ceiling, h, replay(ceiling, h)),
        probes(h) + detection::budget(replay(ceiling, h)) <= 2079,
        detection::budget(replay(ceiling, h)) >= 0,
    decreases h.len(),
{
    if h.len() > 0 {
        let g = h.drop_last();
        let s = replay(ceiling, g);
        let a = h.last().answers;
        lemma_backed(ceiling, g);
        detection::lemma_step(ceiling, s, a, h.last().reported);
        assert(forall|n: u32| heard(ceiling, g, n) ==> heard(ceiling, h, n));
        assert forall|j: int| 0 <= j < a.len() && #[trigger] a[j] == ProbeOutcome::Accepted implies
        heard(ceiling, h, detection::asked(s)[j]) by {
            lemma_heard_now(ceiling, h, j);
        }
        match s {
            StageView::Validating { cap } => {
                assert(detection::asked(s)[0] == cap);
            },
            StageView::Doubling { n, .. } => {
                assert(detection::asked(s)[0] == n);
            },
            StageView::Narrowing { gap } => {
                lemma_verdict(a);
                detection::lemma_points(gap.low, gap.high);
                let v = detection::verdict(a);
                if v > 0 {
                    assert(a[v - 1] == ProbeOutcome::Accepted);
                }
            },
            StageView::Settling { gap, outcomes, again } => {
                let v = detection::verdict(outcomes);
                lemma_verdict(outcomes);
                detection::lemma_points(gap.low, gap.high);
                let yes = outcomes.update(v, ProbeOutcome::Accepted);
                let no = outcomes.update(v, ProbeOutcome::Rejected);
                lemma_verdict(yes);
                lemma_verdict(no);
                assert(forall|i: int| 0 <= i < yes.len() && i != v ==> yes[i] == outcomes[i]);
                assert(forall|i: int| 0 <= i < no.len() && i != v ==> no[i] == outcomes[i]);
                let pts = detection::points(gap.low, gap.high);
                if a[0] == ProbeOutcome::Accepted {
                    assert(heard(ceiling, h, pts[v]));
                    let w = detection::verdict(yes);
                    if w > 0 {
                        assert(yes[w - 1] == ProbeOutcome::Accepted);
                        assert(heard(ceiling, h, pts[w - 1]));
                    }
                } else {
                    let w = detection::verdict(no);
                    if w > 0 {
                        assert(no[w - 1] == ProbeOutcome::Accepted);
                        assert(heard(ceiling, h, pts[w - 1]));
                    }
                }
            },
            _ => {},
        }
    }
}

/// Replies that answer what was asked lead to a stage that makes sense.
pub proof fn lemma_stage_ok(ceiling: u32, h: Seq<Reply>)
    requires
        ceiling >= MIN_AUTOPROBE_FLOOR,
        fits(ceiling, h),
    ensures
        detection::stage_ok(ceiling, replay(ceiling, h)),
{
    lemma_backed(ceiling, h);
}

/// What a discovery yields, before floor and ceiling apply, was accepted by
/// the upstream in that very discovery.
pub proof fn law_discovered_was_accepted(ceiling: u32, h: Seq<Reply>)
    requires
        ceiling >= MIN_AUTOPROBE_FLOOR,
        fits(ceiling, h),
    ensures
        replay(ceiling, h) matches StageView::Done { discovered, .. } ==> discovered > 0 ==> heard(
            ceiling,
            h,
            discovered,
        ),
{
    lemma_backed(ceiling, h);
}

/// What a discovery comes to is a useful ceiling, never above that of the
/// discovery, and never below its floor where the floor leaves room.
pub proof fn law_result_is_useful(s: StageView, floor: u32, ceiling: u32, d: u32)
    requires
        ceiling >= MIN_AUTOPROBE_FLOOR,
        detection::result_is(s, floor, ceiling, Some(Ok(d))),
    ensures
        MIN_AUTOPROBE_FLOOR <= d <= MAX_AUTOPROBE_CEILING,
        d <= ceiling,
        floor <= ceiling && floor <= MAX_AUTOPROBE_CEILING ==> d >= floor,
{
}

/// A discovery sends at most 2079 probes.
pub proof fn law_probes_are_bounded(ceiling: u32, h: Seq<Reply>)
    requires
        ceiling >= MIN_AUTOPROBE_FLOOR,
        fits(ceiling, h),
    ensures
        probes(h) <= 2079,
{
    lemma_backed(ceiling, h);
}

/// Past the probes about a ceiling that the upstream names, no probe exceeds
/// the discovery's ceiling.
pub proof fn law_probes_stay_below_ceiling(ceiling: u32, h: Seq<Reply>, i: int)
    requires
        ceiling >= MIN_AUTOPROBE_FLOOR,
        fits(ceiling, h),
        replay(ceiling, h) is Doubling || replay(ceiling, h) is Narrowing || replay(
            ceiling,
            h,
        ) is Settling,
        0 <= i < detection::asked(replay(ceiling, h)).len(),
    ensures
        detection::asked(replay(ceiling, h))[i] <= ceiling,
{
    lemma_backed(ceiling, h);
    match replay(ceiling, h) {
        StageView::Narrowing { gap } => {
            detection::lemma_points(gap.low, gap.high);
        },
        StageView::Settling { gap, outcomes, .. } => {
            detection::lemma_points(gap.low, gap.high);
            lemma_verdict(outcomes);
        },
        _ => {},
    }
}

/// A ceiling that the upstream names and accepts is what the discovery yields,
/// whatever comes of the probe above it. One that it names and does not accept
/// leaves the discovery where it would be without it.
pub proof fn law_named_cap_is_taken(
    ceiling: u32,
    cap: u32,
    opening: Seq<ProbeOutcome>,
    at: ProbeOutcome,
    above: ProbeOutcome,
    again: ProbeOutcome,
)
    ensures
        ({
            let checked = detection::step(ceiling, StageView::Opening, opening, Some(cap));
            let judged = detection::step(ceiling, checked, seq![at, above], None);
            if at != ProbeOutcome::Accepted {
                judged == detection::step(ceiling, StageView::Opening, opening, None)
            } else if above == ProbeOutcome::Indeterminate {
                detection::step(ceiling, judged, seq![again], None) == (StageView::Done {
                    named: true,
                    discovered: cap,
                })
            } else {
                judged == (StageView::Done { named: true, discovered: cap })
            }
        }),
{
}

// ---------------------------------------------------------------------------
// An upstream with a fixed ceiling
// ---------------------------------------------------------------------------

/// How an upstream that takes up to `cap` answers a probe of `n`.
pub open spec fn judge(cap: u32, n: u32) -> ProbeOutcome {
    if n <= cap {
        ProbeOutcome::Accepted
    } else {
        ProbeOutcome::Rejected
    }
}

/// How that upstream answers a batch.
pub open spec fn judged(cap: u32, pts: Seq<u32>) -> Seq<ProbeOutcome> {
    pts.map_values(|n: u32| judge(cap, n))
}

/// The stage in which a discovery against that upstream ends.
pub open spec fn settled(ceiling: u32, cap: u32, s: StageView) -> StageView
    decreases detection::budget(s),
{
    if s is Done || ceiling < MIN_AUTOPROBE_FLOOR || !detection::stage_ok(ceiling, s) {
        s
    } else {
        proof {
            lemma_asks(ceiling, s);
            detection::lemma_step(ceiling, s, judged(cap, detection::asked(s)), None);
        }
        settled(
            ceiling,
            cap,
            detection::step(ceiling, s, judged(cap, detection::asked(s)), None),
        )
    }
}

/// Every stage but the last one asks for something.
pub proof fn lemma_asks(ceiling: u32, s: StageView)
    requires
        detection::stage_ok(ceiling, s),
        !(s is Done),
    ensures
        detection::asked(s).len() > 0,
{
    match s {
        StageView::Narrowing { gap } => {
            detection::lemma_points(gap.low, gap.high);
        },
        _ => {},
    }
}

/// `n` is a power of two.
pub open spec fn is_power(n: int) -> bool
    decreases n,
{
    n == 1 || (n > 1 && n % 2 == 0 && is_power(n / 2))
}

proof fn lemma_power_gap(n: int, m: int)
    requires
        is_power(n),
        is_power(m),
        n > m,
    ensures
        n >= 2 * m,
    decreases m,
{
    if m > 1 {
        lemma_power_gap(n / 2, m / 2);
    }
}

/// The largest value that the search can find.
spec fn reach(ceiling: u32, cap: u32) -> int {
    if cap < ceiling {
        cap as int
    } else {
        ceiling - 1
    }
}

/// The widest gap that is left after `round` rounds.
spec fn width(round: int) -> int
    decreases round,
{
    if round <= 0 {
        u32::MAX as int
    } else if width(round - 1) / 20 > 19 {
        width(round - 1) / 20
    } else {
        19
    }
}

spec fn lo_ok(ceiling: u32, cap: u32, lo: u32) -> bool {
    &&& lo <= cap
    &&& lo <= ceiling
    &&& cap >= MIN_AUTOPROBE_FLOOR ==> lo >= MIN_AUTOPROBE_FLOOR
}

/// What holds of the gap against that upstream.
spec fn gap_right(ceiling: u32, cap: u32, gap: Gap) -> bool {
    &&& lo_ok(ceiling, cap, gap.lo)
    &&& reach(ceiling, cap) <= gap.high || gap.lo >= reach(ceiling, cap)
    &&& gap.found ==> gap.lo < gap.low <= reach(ceiling, cap)
    &&& !gap.found ==> gap.low == detection::above(gap.lo)
    &&& gap.high - gap.low <= width(gap.round as int)
}

spec fn doubling_right(ceiling: u32, cap: u32, n: u32, lo: u32) -> bool {
    &&& is_power(n as int)
    &&& n <= MAX_AUTOPROBE_CEILING
    &&& lo == 0 ==> (n == 2 || cap < 2)
    &&& lo > 0 ==> n == 2 * lo && lo <= cap && is_power(lo as int)
}

/// The search found the upstream's ceiling, up to one.
pub open spec fn near(ceiling: u32, cap: u32, d: u32) -> bool {
    &&& d <= cap
    &&& d <= ceiling
    &&& d + 1 >= cap || d + 2 >= ceiling
    &&& cap >= MIN_AUTOPROBE_FLOOR ==> d >= MIN_AUTOPROBE_FLOOR
}

/// The search found the upstream's ceiling, up to one, and powers of two
/// exactly: that of the discovery where the upstream accepts everything up to
/// it, and that of the upstream within the discovery's reach. Where both go
/// beyond the largest useful ceiling, so does the search.
pub open spec fn close_enough(ceiling: u32, cap: u32, d: u32) -> bool {
    &&& near(ceiling, cap, d)
    &&& is_power(ceiling as int) && ceiling <= MAX_AUTOPROBE_CEILING && cap >= ceiling ==> d
        == ceiling
    &&& is_power(cap as int) && 2 <= cap <= ceiling && cap <= MAX_AUTOPROBE_CEILING ==> d == cap
    &&& cap >= MAX_AUTOPROBE_CEILING && ceiling >= MAX_AUTOPROBE_CEILING ==> d
        >= MAX_AUTOPROBE_CEILING
}

proof fn lemma_width(round: int)
    requires
        round >= 0,
    ensures
        width(round) >= 19,
        round >= 7 ==> width(round) == 19,
    decreases round,
{
    if round > 7 {
        lemma_width(round - 1);
    } else {
        reveal_with_fuel(width, 9);
    }
}

proof fn lemma_judged_verdict(cap: u32, pts: Seq<u32>)
    ensures
        ({
            let v = detection::verdict(judged(cap, pts));
            &&& 0 <= v <= pts.len()
            &&& forall|i: int| 0 <= i < v ==> pts[i] <= cap
            &&& v < pts.len() ==> pts[v] > cap && judged(cap, pts)[v] == ProbeOutcome::Rejected
        }),
{
    let out = judged(cap, pts);
    lemma_verdict(out);
    let v = detection::verdict(out);
    assert forall|i: int| 0 <= i < v implies pts[i] <= cap by {
        assert(out[i] == ProbeOutcome::Accepted);
    }
}

/// A round narrows the gap, keeps what holds of it, and always changes it.
proof fn lemma_round(ceiling: u32, cap: u32, gap: Gap)
    requires
        detection::gap_ok(ceiling, gap),
        gap_right(ceiling, cap, gap),
        gap.round < 10,
    ensures
        ({
            let next = detection::narrowed(
                gap,
                judged(cap, detection::points(gap.low, gap.high)),
            );
            &&& gap_right(ceiling, cap, next)
            &&& next.low != gap.low || next.high != gap.high
            &&& gap.high - gap.low <= 20 ==> next.low >= next.high
        }),
{
    let pts = detection::points(gap.low, gap.high);
    let out = judged(cap, pts);
    let next = detection::narrowed(gap, out);
    let v = detection::verdict(out);
    let span = gap.high - gap.low;
    detection::lemma_points(gap.low, gap.high);
    lemma_judged_verdict(cap, pts);
    lemma_width(gap.round as int);
    lemma_width(gap.round + 1);
    if span > 20 {
        let st = span / 20;
        assert(st >= 1);
        if v > 0 {
            assert(pts[v - 1] == gap.low + v * st);
            assert(v * st >= st) by (nonlinear_arith)
                requires
                    v >= 1,
                    st >= 1,
            ;
        }
        if v < 20 {
            assert(pts[v] == gap.low + (v + 1) * st);
            assert((v + 1) * st == v * st + st) by (nonlinear_arith);
            assert((v + 1) * st >= st) by (nonlinear_arith)
                requires
                    v >= 0,
                    st >= 1,
            ;
            if v == 0 {
                assert(v * st == 0) by (nonlinear_arith)
                    requires
                        v == 0,
                ;
            }
            assert(next.high - next.low == st - 1);
        } else {
            assert(v == 20);
            assert(v * st == 20 * st);
            assert(next.high - next.low == span - 20 * st);
        }
        assert(width(gap.round + 1) >= width(gap.round as int) / 20);
    } else {
        if v > 0 {
            assert(pts[v - 1] == gap.low + (v - 1));
        }
        if v < pts.len() {
            assert(pts[v] == gap.low + v);
        }
    }
    assert(gap_right(ceiling, cap, next));
    assert(next.low != gap.low || next.high != gap.high);
}

proof fn lemma_gap_settles(ceiling: u32, cap: u32, gap: Gap)
    requires
        ceiling >= MIN_AUTOPROBE_FLOOR,
        gap_right(ceiling, cap, gap),
        gap.round < 10,
        gap.high < ceiling,
        gap.low < gap.high ==> gap.lo < gap.low,
        gap.round >= 8 ==> gap.low >= gap.high,
    ensures
        settled(ceiling, cap, detection::begin_round(gap)) matches StageView::Done {
            named,
            discovered,
        } && !named && near(ceiling, cap, discovered) && discovered >= gap.lo && (gap.lo >= reach(
            ceiling,
            cap,
        ) ==> discovered == gap.lo),
    decreases 10 - gap.round,
{
    let s = detection::begin_round(gap);
    if s is Narrowing {
        let pts = detection::points(gap.low, gap.high);
        let out = judged(cap, pts);
        let next = detection::narrowed(gap, out);
        detection::lemma_points(gap.low, gap.high);
        lemma_judged_verdict(cap, pts);
        lemma_round(ceiling, cap, gap);
        lemma_width(gap.round as int);
        assert(detection::settle(gap, out) == detection::begin_round(next));
        assert(detection::stage_ok(ceiling, s));
        detection::lemma_step(ceiling, s, out, None);
        lemma_gap_settles(ceiling, cap, next);
    }
}

proof fn lemma_doubling_settles(ceiling: u32, cap: u32, n: u32, lo: u32)
    requires
        ceiling >= MIN_AUTOPROBE_FLOOR,
        2 <= n <= ceiling,
        doubling_right(ceiling, cap, n, lo),
    ensures
        settled(
            ceiling,
            cap,
            StageView::Doubling { n, lo, again: false },
        ) matches StageView::Done { named, discovered } && !named && close_enough(
            ceiling,
            cap,
            discovered,
        ),
    decreases MAX_AUTOPROBE_CEILING - n,
{
    let s = StageView::Doubling { n, lo, again: false };
    let out = judged(cap, detection::asked(s));
    assert(out[0] == judge(cap, n));
    detection::lemma_step(ceiling, s, out, None);
    lemma_power_facts();
    if n <= cap {
        lemma_next_power(ceiling, cap, n, n);
    } else if lo > 0 {
        if cap >= MIN_AUTOPROBE_FLOOR {
            lemma_power_gap(n as int, 1024);
        }
        if is_power(cap as int) && cap > lo {
            lemma_power_gap(cap as int, lo as int);
        }
        lemma_gap_settles(ceiling, cap, detection::gap_between(lo, n));
    } else {
        lemma_next_power(ceiling, cap, n, lo);
    }
}

proof fn lemma_power_facts()
    ensures
        is_power(2),
        is_power(1024),
        is_power(MAX_AUTOPROBE_CEILING as int),
        is_power(2147483648),
{
    reveal_with_fuel(is_power, 33);
}

proof fn lemma_next_power(ceiling: u32, cap: u32, n: u32, lo: u32)
    requires
        ceiling >= MIN_AUTOPROBE_FLOOR,
        2 <= n <= ceiling,
        n <= MAX_AUTOPROBE_CEILING,
        is_power(n as int),
        (lo == n && n <= cap) || (lo == 0 && cap < 2),
    ensures
        settled(ceiling, cap, detection::double(ceiling, n, lo)) matches StageView::Done {
            named,
            discovered,
        } && !named && close_enough(ceiling, cap, discovered),
    decreases MAX_AUTOPROBE_CEILING - n, 0nat,
{
    lemma_power_facts();
    if lo == n {
        if is_power(ceiling as int) && ceiling > n {
            lemma_power_gap(ceiling as int, n as int);
        }
        if is_power(cap as int) && cap > n {
            lemma_power_gap(cap as int, n as int);
        }
    }
    if n >= MAX_AUTOPROBE_CEILING {
        lemma_gap_settles(ceiling, cap, detection::gap_between(lo, ceiling));
    } else {
        let m = (n * 2) as u32;
        assert(is_power(m as int));
        lemma_power_gap(MAX_AUTOPROBE_CEILING as int, n as int);
        if m <= ceiling {
            lemma_doubling_settles(ceiling, cap, m, lo);
        } else {
            if lo == n && cap >= MIN_AUTOPROBE_FLOOR {
                lemma_power_gap(m as int, 1024);
            }
            lemma_gap_settles(ceiling, cap, detection::gap_between(lo, ceiling));
        }
    }
}

/// Against an upstream that accepts exactly the values up to `cap`, and does
/// not name its ceiling, a discovery ends with a value that the upstream
/// accepts, and that is at most one below the largest one within the
/// discovery's reach. What it ends with is of use just where `cap` is, and
/// powers of two are found exactly: an upstream that accepts everything gives
/// the largest ceiling itself.
pub proof fn law_discovery_converges(ceiling: u32, cap: u32)
    requires
        ceiling >= MIN_AUTOPROBE_FLOOR,
    ensures
        settled(ceiling, cap, StageView::Opening) matches StageView::Done { named, discovered }
            && !named && close_enough(ceiling, cap, discovered),
        cap >= ceiling && ceiling == MAX_AUTOPROBE_CEILING ==> settled(
            ceiling,
            cap,
            StageView::Opening,
        ) == (StageView::Done { named: false, discovered: ceiling }),
{
    let s = StageView::Opening;
    detection::lemma_step(ceiling, s, judged(cap, detection::asked(s)), None);
    lemma_power_facts();
    lemma_doubling_settles(ceiling, cap, 2, 0);
}

// ---------------------------------------------------------------------------
// An upstream that sometimes gives no clear answer
// ---------------------------------------------------------------------------

/// The last of the replies `h` left the probe of one value open, and the same
/// value is asked for again.
pub open spec fn asks_again(ceiling: u32, h: Seq<Reply>) -> bool {
    &&& h.len() > 0
    &&& h.last().answers == seq![ProbeOutcome::Indeterminate]
    &&& detection::asked(replay(ceiling, h)) == detection::asked(replay(ceiling, h.drop_last()))
}

/// The replies of an upstream that takes up to `cap` and names no ceiling. It
/// never accepts more. What it takes it accepts, or leaves open, but not when
/// a value is asked for again.
pub open spec fn tolerable(ceiling: u32, cap: u32, h: Seq<Reply>) -> bool
    decreases h.len(),
{
    h.len() > 0 ==> {
        let g = h.drop_last();
        let asked = detection::asked(replay(ceiling, g));
        &&& tolerable(ceiling, cap, g)
        &&& h.last().reported is None
        &&& forall|j: int|
            #![trigger h.last().answers[j]]
            0 <= j < h.last().answers.len() ==> if asked[j] > cap {
                h.last().answers[j] != ProbeOutcome::Accepted
            } else {
                h.last().answers[j] == ProbeOutcome::Accepted || (h.last().answers[j]
                    == ProbeOutcome::Indeterminate && !asks_again(ceiling, g))
            }
    }
}

/// The stage as it is before anything was left open.
spec fn clean(s: StageView) -> StageView {
    match s {
        StageView::Doubling { n, lo, .. } => StageView::Doubling { n, lo, again: false },
        StageView::Settling { gap, .. } => StageView::Narrowing { gap },
        _ => s,
    }
}

/// The outcomes of a round, some of them still open.
spec fn open_outcomes(cap: u32, pts: Seq<u32>, outcomes: Seq<ProbeOutcome>) -> bool {
    &&& outcomes.len() == pts.len()
    &&& forall|i: int|
        #![trigger outcomes[i]]
        0 <= i < pts.len() ==> if pts[i] > cap {
            outcomes[i] != ProbeOutcome::Accepted
        } else {
            outcomes[i] != ProbeOutcome::Rejected
        }
}

spec fn on_track(ceiling: u32, cap: u32, h: Seq<Reply>, s: StageView) -> bool {
    &&& settled(ceiling, cap, clean(s)) == settled(ceiling, cap, StageView::Opening)
    &&& match s {
        StageView::Validating { .. } | StageView::Rechecking { .. } => false,
        StageView::Doubling { again, .. } => again ==> asks_again(ceiling, h),
        StageView::Settling { gap, outcomes, again } => {
            &&& again ==> asks_again(ceiling, h)
            &&& open_outcomes(cap, detection::points(gap.low, gap.high), outcomes)
        },
        _ => true,
    }
}

/// Once nothing decisive is open, a round ends as against an upstream that
/// answers clearly.
proof fn lemma_settles_alike(cap: u32, gap: Gap, outcomes: Seq<ProbeOutcome>)
    requires
        open_outcomes(cap, detection::points(gap.low, gap.high), outcomes),
        detection::verdict(outcomes) < outcomes.len() ==> outcomes[detection::verdict(outcomes)]
            == ProbeOutcome::Rejected,
    ensures
        detection::settle(gap, outcomes) == detection::settle(
            gap,
            judged(cap, detection::points(gap.low, gap.high)),
        ),
{
    let pts = detection::points(gap.low, gap.high);
    let clear = judged(cap, pts);
    let v = detection::verdict(outcomes);
    let w = detection::verdict(clear);
    lemma_verdict(outcomes);
    lemma_verdict(clear);
    lemma_judged_verdict(cap, pts);
    if v < w {
        assert(clear[v] == ProbeOutcome::Accepted);
        assert(outcomes[v] == ProbeOutcome::Rejected);
    }
    if w < v {
        assert(outcomes[w] == ProbeOutcome::Accepted);
        assert(pts[w] > cap);
    }
}

proof fn lemma_on_track(ceiling: u32, cap: u32, h: Seq<Reply>)
    requires
        ceiling >= MIN_AUTOPROBE_FLOOR,
        fits(ceiling, h),
        tolerable(ceiling, cap, h),
    ensures
        on_track(ceiling, cap, h, replay(ceiling, h)),
    decreases h.len(),
{
    if h.len() > 0 {
        let g = h.drop_last();
        let s = replay(ceiling, g);
        let a = h.last().answers;
        let c = clean(s);
        let next = replay(ceiling, h);
        lemma_on_track(ceiling, cap, g);
        lemma_stage_ok(ceiling, g);
        if !(s is Done) {
            lemma_asked_clearly(ceiling, cap, c);
        }
        match s {
            StageView::Doubling { n, lo, again } => {
                assert(detection::asked(s)[0] == n);
                assert(detection::asked(c)[0] == n);
                assert(judged(cap, detection::asked(c))[0] == judge(cap, n));
                assert(a[0] == a[0]);
                if a[0] == ProbeOutcome::Indeterminate && !again {
                    assert(a =~= seq![ProbeOutcome::Indeterminate]);
                    assert(asks_again(ceiling, h));
                }
            },
            StageView::Narrowing { gap } => {
                let pts = detection::points(gap.low, gap.high);
                detection::lemma_points(gap.low, gap.high);
                assert(!asks_again(ceiling, g)) by {
                    if asks_again(ceiling, g) {
                        assert(detection::asked(replay(ceiling, g.drop_last())).len()
                            == g.last().answers.len());
                    }
                }
                assert(open_outcomes(cap, pts, a)) by {
                    assert forall|i: int| #![trigger a[i]] 0 <= i < pts.len() implies if pts[i]
                        > cap {
                        a[i] != ProbeOutcome::Accepted
                    } else {
                        a[i] != ProbeOutcome::Rejected
                    } by {
                        assert(h.last().answers[i] == a[i]);
                    }
                }
                lemma_verdict(a);
                let v = detection::verdict(a);
                if v == a.len() || a[v] == ProbeOutcome::Rejected {
                    lemma_settles_alike(cap, gap, a);
                    lemma_settled_is_clean(cap, gap);
                }
            },
            StageView::Settling { gap, outcomes, again } => {
                let pts = detection::points(gap.low, gap.high);
                let v = detection::verdict(outcomes);
                detection::lemma_points(gap.low, gap.high);
                lemma_verdict(outcomes);
                assert(detection::asked(s)[0] == pts[v]);
                assert(a[0] == a[0]);
                if a[0] == ProbeOutcome::Indeterminate && !again {
                    assert(a =~= seq![ProbeOutcome::Indeterminate]);
                    assert(asks_again(ceiling, h));
                } else {
                    let sure = if a[0] == ProbeOutcome::Accepted {
                        ProbeOutcome::Accepted
                    } else {
                        ProbeOutcome::Rejected
                    };
                    let now = outcomes.update(v, sure);
                    assert(open_outcomes(cap, pts, now)) by {
                        assert forall|i: int| #![trigger now[i]] 0 <= i < pts.len() implies if pts[i]
                            > cap {
                            now[i] != ProbeOutcome::Accepted
                        } else {
                            now[i] != ProbeOutcome::Rejected
                        } by {
                            assert(outcomes[i] == outcomes[i]);
                        }
                    }
                    lemma_verdict(now);
                    let w = detection::verdict(now);
                    if w == now.len() || now[w] == ProbeOutcome::Rejected {
                        lemma_settles_alike(cap, gap, now);
                        lemma_settled_is_clean(cap, gap);
                    }
                }
            },
            _ => {},
        }
    }
}

/// What a clear round leads to has nothing open.
proof fn lemma_settled_is_clean(cap: u32, gap: Gap)
    ensures
        ({
            let s = detection::settle(gap, judged(cap, detection::points(gap.low, gap.high)));
            s is Done || s is Narrowing
        }),
{
    lemma_judged_verdict(cap, detection::points(gap.low, gap.high));
}

/// A stage settles where the stage behind it settles.
proof fn lemma_asked_clearly(ceiling: u32, cap: u32, s: StageView)
    requires
        ceiling >= MIN_AUTOPROBE_FLOOR,
        !(s is Done),
        detection::stage_ok(ceiling, s),
    ensures
        settled(ceiling, cap, s) == settled(
            ceiling,
            cap,
            detection::step(ceiling, s, judged(cap, detection::asked(s)), None),
        ),
{
}

/// An answer that is left open does no harm as long as the value is accepted
/// when it is asked for again: the discovery ends where it ends against an
/// upstream that always answers clearly, with a value that is accepted and at
/// most one below the largest one within reach.
pub proof fn law_open_answers_change_nothing(ceiling: u32, cap: u32, h: Seq<Reply>)
    requires
        ceiling >= MIN_AUTOPROBE_FLOOR,
        fits(ceiling, h),
        tolerable(ceiling, cap, h),
        replay(ceiling, h) is Done,
    ensures
        replay(ceiling, h) == settled(ceiling, cap, StageView::Opening),
        replay(ceiling, h) matches StageView::Done { named, discovered } && !named && close_enough(
            ceiling,
            cap,
            discovered,
        ),
{
    lemma_on_track(ceiling, cap, h);
    law_discovery_converges(ceiling, cap);
}

/// A power of two whose probe is left open is asked for once more, and the
/// second answer decides as a first one would. Left open twice, it counts as
/// refused.
pub proof fn law_open_power_is_asked_again(ceiling: u32, n: u32, lo: u32, clear: ProbeOutcome)
    requires
        clear != ProbeOutcome::Indeterminate,
    ensures
        ({
            let open = seq![ProbeOutcome::Indeterminate];
            let first = StageView::Doubling { n, lo, again: false };
            let second = detection::step(ceiling, first, open, None);
            &&& detection::asked(second) == seq![n]
            &&& detection::step(ceiling, second, seq![clear], None) == detection::step(
                ceiling,
                first,
                seq![clear],
                None,
            )
            &&& detection::step(ceiling, second, open, None) == detection::step(
                ceiling,
                first,
                seq![ProbeOutcome::Rejected],
                None,
            )
        }),
{
}

/// A point of a round whose probe is left open is asked for twice more. An
/// answer settles the point, and the others stay as they were; left open to
/// the end, it counts as refused.
pub proof fn law_open_point_is_asked_again(
    ceiling: u32,
    gap: Gap,
    outcomes: Seq<ProbeOutcome>,
    v: int,
    clear: ProbeOutcome,
)
    requires
        detection::gap_ok(ceiling, gap),
        outcomes.len() == detection::points(gap.low, gap.high).len(),
        0 <= v < outcomes.len(),
        outcomes[v] == ProbeOutcome::Indeterminate,
        forall|i: int| 0 <= i < v ==> outcomes[i] == ProbeOutcome::Accepted,
        clear != ProbeOutcome::Indeterminate,
    ensures
        ({
            let open = seq![ProbeOutcome::Indeterminate];
            let round = StageView::Narrowing { gap };
            let point = detection::points(gap.low, gap.high)[v];
            let first = detection::step(ceiling, round, outcomes, None);
            let second = detection::step(ceiling, first, open, None);
            &&& detection::asked(first) == seq![point]
            &&& detection::asked(second) == seq![point]
            &&& detection::step(ceiling, first, seq![clear], None) == detection::step(
                ceiling,
                round,
                outcomes.update(v, clear),
                None,
            )
            &&& detection::step(ceiling, second, seq![clear], None) == detection::step(
                ceiling,
                round,
                outcomes.update(v, clear),
                None,
            )
            &&& detection::step(ceiling, second, open, None) == detection::step(
                ceiling,
                round,
                outcomes.update(v, ProbeOutcome::Rejected),
                None,
            )
        }),
{
    detection::lemma_verdict_is(outcomes, v);
}

/// Once a power of two is refused behind one that was accepted, every further
/// probe lies strictly between the two, and without one the accepted power is
/// what was found.
pub proof fn law_refused_power_bounds_the_search(ceiling: u32, n: u32, lo: u32, again: bool)
    requires
        0 < lo < n,
    ensures
        ({
            let s = detection::step(
                ceiling,
                StageView::Doubling { n, lo, again },
                seq![ProbeOutcome::Rejected],
                None,
            );
            &&& forall|i: int|
                #![trigger detection::asked(s)[i]]
                0 <= i < detection::asked(s).len() ==> lo < detection::asked(s)[i] < n
            &&& detection::asked(s).len() == 0 <==> n - lo <= 2
            &&& n - lo <= 2 ==> s == (StageView::Done { named: false, discovered: lo })
        }),
{
    if n - lo > 2 {
        detection::lemma_points(detection::above(lo), detection::below(n));
    }
}

/// An accepted power of two is followed by its double, while that is within
/// reach.
pub proof fn law_accepted_power_is_doubled(ceiling: u32, n: u32, lo: u32, again: bool)
    requires
        0 < n < MAX_AUTOPROBE_CEILING,
        2 * n <= ceiling,
    ensures
        detection::step(
            ceiling,
            StageView::Doubling { n, lo, again },
            seq![ProbeOutcome::Accepted],
            None,
        ) == (StageView::Doubling { n: (2 * n) as u32, lo: n, again: false }),
        detection::step(
            ceiling,
            StageView::Doubling { n, lo: 0, again },
            seq![ProbeOutcome::Rejected],
            None,
        ) == (StageView::Doubling { n: (2 * n) as u32, lo: 0, again: false }),
{
}

/// A round whose every point up to one was accepted, and whose next point was
/// refused, leaves just the values between the two.
pub proof fn law_round_narrows(ceiling: u32, gap: Gap, outcomes: Seq<ProbeOutcome>, v: int)
    requires
        detection::gap_ok(ceiling, gap),
        outcomes.len() == detection::points(gap.low, gap.high).len(),
        0 <= v <= outcomes.len(),
        forall|i: int| 0 <= i < v ==> outcomes[i] == ProbeOutcome::Accepted,
        v < outcomes.len() ==> outcomes[v] == ProbeOutcome::Rejected,
    ensures
        ({
            let pts = detection::points(gap.low, gap.high);
            let s = detection::step(ceiling, StageView::Narrowing { gap }, outcomes, None);
            let low = if v > 0 {
                pts[v - 1]
            } else {
                gap.low
            };
            let high = if v < pts.len() {
                pts[v] - 1
            } else {
                gap.high as int
            };
            let found = if v > 0 {
                pts[v - 1]
            } else if gap.found {
                gap.low
            } else {
                gap.lo
            };
            if gap.round + 1 < MAX_ROUNDS && low < high && (low != gap.low || high != gap.high) {
                s matches StageView::Narrowing { gap: left } && left.low == low && left.high == high
                    && left.round == gap.round + 1 && left.lo == gap.lo && left.found == (gap.found
                    || v > 0)
            } else {
                s == (StageView::Done { named: false, discovered: found })
            }
        }),
{
    detection::lemma_verdict_is(outcomes, v);
    detection::lemma_points(gap.low, gap.high);
}

/// A discovery opens with the largest number there is. A ceiling that the
/// upstream names is tried together with the value above it. Without one the
/// powers of two are tried from two on.
pub proof fn law_opening(ceiling: u32, cap: u32, opening: Seq<ProbeOutcome>, reported: Option<u32>)
    requires
        ceiling >= MIN_AUTOPROBE_FLOOR,
        cap < u32::MAX,
    ensures
        detection::asked(StageView::Opening) == seq![0xffff_ffffu32],
        detection::asked(
            detection::step(ceiling, StageView::Opening, opening, Some(cap)),
        ) == seq![cap, (cap + 1) as u32],
        detection::asked(detection::step(ceiling, StageView::Opening, opening, None)) == seq![2u32],
        detection::asked(
            detection::step(
                ceiling,
                detection::step(ceiling, StageView::Opening, opening, Some(cap)),
                seq![ProbeOutcome::Accepted, ProbeOutcome::Indeterminate],
                None,
            ),
        ) == seq![(cap + 1) as u32],
{
}

proof fn lemma_over_is_over(ceiling: u32, h: Seq<Reply>, k: int)
    requires
        0 <= k <= h.len(),
        replay(ceiling, h.take(k)) is Done,
    ensures
        replay(ceiling, h) == replay(ceiling, h.take(k)),
    decreases h.len() - k,
{
    if k == h.len() {
        assert(h.take(k) =~= h);
    } else {
        assert(h.take(k + 1).drop_last() =~= h.take(k));
        lemma_over_is_over(ceiling, h, k + 1);
    }
}

/// Where the upstream names its ceiling in answer to the opening probe and
/// accepts it, the discovery ends with that ceiling.
pub proof fn law_named_ceiling_ends_the_discovery(ceiling: u32, cap: u32, h: Seq<Reply>)
    requires
        fits(ceiling, h),
        replay(ceiling, h) is Done,
        h.len() >= 2,
        h[0].reported == Some(cap),
        h[1].answers.len() > 0,
        h[1].answers[0] == ProbeOutcome::Accepted,
    ensures
        replay(ceiling, h) == (StageView::Done { named: true, discovered: cap }),
{
    let one = h.take(1);
    let two = h.take(2);
    assert(replay(ceiling, one.drop_last()) == StageView::Opening);
    assert(one.last() == h[0]);
    assert(replay(ceiling, one) == (StageView::Validating { cap }));
    assert(two.drop_last() =~= one);
    assert(two.last() == h[1]);
    if replay(ceiling, two) is Done {
        lemma_over_is_over(ceiling, h, 2);
    } else {
        assert(replay(ceiling, two) == (StageView::Rechecking { cap }));
        if h.len() == 2 {
            assert(two =~= h);
        } else {
            let three = h.take(3);
            assert(three.drop_last() =~= two);
            lemma_over_is_over(ceiling, h, 3);
        }
    }
}

/// A named ceiling that the upstream then does not accept counts for nothing:
/// the discovery goes on as if none had been named.
pub proof fn law_refused_ceiling_is_ignored(
    ceiling: u32,
    cap: u32,
    opening: Seq<ProbeOutcome>,
    at: ProbeOutcome,
    above: ProbeOutcome,
)
    requires
        at != ProbeOutcome::Accepted,
    ensures
        detection::step(
            ceiling,
            detection::step(ceiling, StageView::Opening, opening, Some(cap)),
            seq![at, above],
            None,
        ) == detection::step(ceiling, StageView::Opening, opening, None),
{
}

/// A round tries every value of a small gap, and 20 values at equal distances
/// of a larger one, the last within one step of its end.
pub proof fn law_points(low: u32, high: u32, i: int)
    requires
        low < high,
        0 <= i < detection::points(low, high).len(),
    ensures
        high - low <= 20 ==> detection::points(low, high).len() == high - low + 1
            && detection::points(low, high)[i] == low + i,
        high - low > 20 ==> detection::points(low, high).len() == 20,
        high - low > 20 && i > 0 ==> detection::points(low, high)[i] - detection::points(
            low,
            high,
        )[i - 1] == (high - low) / 20,
        high - low > 20 ==> detection::points(low, high)[0] == low + (high - low) / 20,
        high - low > 20 ==> high - 20 < detection::points(low, high)[19] <= high,
{
    detection::lemma_points(low, high);
    if high - low > 20 {
        let st = (high - low) / 20;
        let pts = detection::points(low, high);
        assert(pts[i] == low + (i + 1) * st);
        if i > 0 {
            assert(pts[i - 1] == low + i * st);
            assert((i + 1) * st == i * st + st) by (nonlinear_arith);
        }
        assert(pts[0] == low + 1 * st);
        assert(pts[19] == low + 20 * st);
    }
}

/// The limits of every discovery.
pub proof fn law_limits()
    ensures
        MIN_AUTOPROBE_FLOOR == 1024,
        MAX_AUTOPROBE_CEILING == 1024 * 1024 * 1024,
        MAX_ROUNDS == 32,
{
}

} // verus!
