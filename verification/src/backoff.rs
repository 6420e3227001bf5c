//! How long to wait before another attempt. Durations are in nanoseconds.

use vstd::prelude::*;

verus! {

/// A millisecond.
pub const MILLI: u128 = 1_000_000;

/// The wait where the upstream suggests none: half a second.
pub const DEFAULT_WAIT: u128 = 500_000_000;

/// The longest duration.
pub const MAX_DURATION: u128 = 18_446_744_073_709_551_615_999_999_999;

/// The wait to start from.
pub open spec fn base_wait(suggested: Option<u128>) -> u128 {
    match suggested {
        Some(d) => d,
        None => DEFAULT_WAIT,
    }
}

/// The middle of the range that a wait is drawn from, by the draw `r`: up to a
/// quarter of a second more than the wait to start from.
pub open spec fn middle(suggested: Option<u128>, r: u64) -> int {
    base_wait(suggested) + (r % 250 + 1) * MILLI
}

/// The shortest wait around `middle`: half of it, rounded up.
pub open spec fn shortest(middle: int) -> int {
    middle - middle / 2
}

/// The end of the range of waits around `middle`: one and a half of it.
pub open spec fn end(middle: int) -> int {
    middle + middle / 2
}

/// The whole milliseconds between the ends of the range, as far as 64 bits
/// hold them.
pub open spec fn span(middle: int) -> int {
    (end(middle) / MILLI as int - shortest(middle) / MILLI as int) % 0x1_0000_0000_0000_0000
}

/// The wait by the draws `first` and `second`.
pub open spec fn wait(suggested: Option<u128>, first: u64, second: u64) -> int {
    let m = middle(suggested, first);
    if span(m) == 0 {
        shortest(m)
    } else {
        shortest(m) + (second as int % span(m)) * MILLI
    }
}

/// A suggestion that no draw takes past the longest duration.
pub open spec fn fits(suggested: Option<u128>) -> bool {
    end(base_wait(suggested) + 250 * MILLI) <= MAX_DURATION
}

/// A wait is at least half the middle of its range and less than one and a
/// half of it.
pub proof fn law_wait_is_within_half(suggested: Option<u128>, first: u64, second: u64)
    ensures
        shortest(middle(suggested, first)) <= wait(suggested, first, second) < end(
            middle(suggested, first),
        ),
        base_wait(suggested) < middle(suggested, first) <= base_wait(suggested) + 250 * MILLI,
{
    let m = middle(suggested, first);
    let low = shortest(m);
    let high = end(m);
    let whole = high / MILLI as int - low / MILLI as int;
    assert(low <= high);
    assert(0 <= whole);
    assert(span(m) <= whole) by {
        vstd::arithmetic::div_mod::lemma_mod_decreases(
            whole as nat,
            0x1_0000_0000_0000_0000nat,
        );
    }
    if span(m) != 0 {
        let k = second as int % span(m);
        assert(0 <= k < span(m)) by {
            vstd::arithmetic::div_mod::lemma_mod_bound(second as int, span(m));
        }
        assert(k * MILLI <= (whole - 1) * MILLI);
        assert(high >= (high / MILLI as int) * MILLI);
        assert(low < (low / MILLI as int) * MILLI + MILLI);
    } else {
        assert(low < high);
    }
}

/// The wait by two draws.
pub fn wait_for(suggested: Option<u128>, first: u64, second: u64) -> (r: u128)
    requires
        end(middle(suggested, first)) <= MAX_DURATION,
    ensures
        r == wait(suggested, first, second),
{
    proof {
        law_wait_is_within_half(suggested, first, second);
    }
    let base: u128 = match suggested {
        Some(d) => d,
        None => DEFAULT_WAIT,
    };
    let total: u128 = base + ((first % 250) + 1) as u128 * MILLI;
    let half: u128 = total / 2;
    let low: u128 = total - half;
    let high: u128 = total + half;
    let whole: u128 = high / MILLI - low / MILLI;
    let span: u64 = (whole % 0x1_0000_0000_0000_0000) as u64;
    if span == 0 {
        low
    } else {
        let k: u64 = second % span;
        low + k as u128 * MILLI
    }
}

/// `fastrand::u64` over all of its range. Nothing is claimed of the result.
#[verifier::external_body]
fn random_u64() -> (r: u64) {
    fastrand::u64(..)
}

/// A wait with random jitter around what the upstream suggests.
pub fn draw_wait(suggested: Option<u128>) -> (r: u128)
    requires
        fits(suggested),
    ensures
        exists|first: u64, second: u64| r == #[trigger] wait(suggested, first, second),
{
    let first: u64 = random_u64();
    let second: u64 = random_u64();
    wait_for(suggested, first, second)
}

/// The wait after attempt number `attempt` that grows with each, in
/// milliseconds.
pub fn growing_wait_ms(attempt: u32) -> (r: u64)
    ensures
        r == 500 * attempt,
{
    500 * attempt as u64
}

/// The middle of the range takes each whole number of milliseconds from one to
/// a quarter of a second above the wait to start from, by the draw's remainder;
/// without a suggestion that wait is half a second.
pub proof fn law_middle(suggested: Option<u128>, ms: u64, turns: u64)
    requires
        1 <= ms <= 250,
        turns * 250 + ms - 1 <= u64::MAX,
    ensures
        middle(suggested, (turns * 250 + ms - 1) as u64) == (match suggested {
            Some(d) => d as int,
            None => 500_000_000int,
        }) + ms * 1_000_000,
{
    let r = turns * 250 + (ms - 1);
    assert(r % 250 == ms - 1) by (nonlinear_arith)
        requires
            r == turns * 250 + (ms - 1),
            0 <= ms - 1 < 250,
            turns >= 0,
    ;
}

/// The range of waits lies evenly around its middle, from half of it to one
/// and a half. The second draw counts whole milliseconds from its beginning:
/// one more adds one, until the draw is past the range and starts over.
pub proof fn law_wait_steps(suggested: Option<u128>, first: u64, second: u64)
    requires
        second < u64::MAX,
        ({
            let m = middle(suggested, first);
            (m + m / 2) / 1_000_000 - (m - m / 2) / 1_000_000 <= u64::MAX
        }),
    ensures
        ({
            let m = middle(suggested, first);
            let low = m - m / 2;
            let high = m + m / 2;
            let whole = high / 1_000_000 - low / 1_000_000;
            &&& wait(suggested, first, 0) == low
            &&& second + 1 < whole ==> wait(suggested, first, (second + 1) as u64) == wait(
                suggested,
                first,
                second,
            ) + 1_000_000
            &&& second + 1 == whole ==> wait(suggested, first, (second + 1) as u64) == low
            &&& second < whole ==> wait(suggested, first, second) == low + second * 1_000_000
        }),
{
    let m = middle(suggested, first);
    let whole = end(m) / MILLI as int - shortest(m) / MILLI as int;
    assert(0 <= whole);
    assert(span(m) == whole) by {
        vstd::arithmetic::div_mod::lemma_small_mod(
            whole as nat,
            0x1_0000_0000_0000_0000nat,
        );
    }
    if whole > 0 {
        vstd::arithmetic::div_mod::lemma_small_mod(0, whole as nat);
        if second < whole {
            vstd::arithmetic::div_mod::lemma_small_mod(second as nat, whole as nat);
        }
        if second + 1 < whole {
            vstd::arithmetic::div_mod::lemma_small_mod((second + 1) as nat, whole as nat);
        }
        if second + 1 == whole {
            vstd::arithmetic::div_mod::lemma_mod_self_0(whole);
        }
    }
}

} // verus!
