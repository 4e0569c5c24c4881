//! The rate limit on console lines.
use vstd::prelude::*;

verus! {

/// The settings of the rate limit.
pub struct Throttles {
    pub enabled: bool,
    /// The line, counted from the start of a period, from which on lines are held back.
    pub lines: u64,
    /// The length of a period, in milliseconds.
    pub line_reset_interval: u64,
}

/// What becomes of a line.
#[derive(Debug, Clone, Copy, PartialEq, Eq, Structural)]
pub enum Verdict {
    /// The line is passed on.
    Pass,
    /// The line is held back, and this is the moment to say so.
    HoldAndAnnounce,
    /// The line is held back.
    Hold,
}

/// The state of the rate limit: how many lines came in the period, and when it began. Times are
/// nanoseconds on a monotonic clock.
pub struct RateLimiter {
    pub count: u64,
    pub start: u128,
}

/// The nanoseconds from `start` to `now`, or none where `now` does not come later.
pub open spec fn elapsed(start: u128, now: u128) -> int {
    if now >= start {
        now - start
    } else {
        0
    }
}

impl Throttles {
    /// The `count`th line of a period is one that is held back while the period lasts.
    pub open spec fn limits(self, count: int) -> bool {
        self.enabled && self.line_reset_interval > 0 && count >= self.lines
    }

    /// The period that began at `start` still lasts at `now`.
    pub open spec fn lasts(self, start: u128, now: u128) -> bool {
        elapsed(start, now) < self.line_reset_interval * 1_000_000
    }
}

/// What becomes of the `count`th line of the period that began at `start`.
pub open spec fn verdict(throttles: Throttles, count: int, start: u128, now: u128) -> Verdict {
    if throttles.limits(count) && throttles.lasts(start, now) {
        if count == throttles.lines {
            Verdict::HoldAndAnnounce
        } else {
            Verdict::Hold
        }
    } else {
        Verdict::Pass
    }
}

impl RateLimiter {
    /// A period that begins now.
    pub fn new(now: u128) -> (r: Self)
        ensures
            r.count == 0,
            r.start == now,
    {
        RateLimiter { count: 0, start: now }
    }

    /// Decides on one more line. A line that would be held back, but comes after the end of the
    /// period, begins a new period and is passed on.
    pub fn allow(&mut self, throttles: &Throttles, now: u128) -> (r: Verdict)
        requires
            old(self).count < u64::MAX,
        ensures
            r == verdict(*throttles, old(self).count + 1, old(self).start, now),
            (final(self).count as int, final(self).start) == after_line(
                *throttles,
                old(self).count as int,
                old(self).start,
                now,
            ),
    {
        self.count = self.count + 1;
        if throttles.enabled && throttles.line_reset_interval > 0 && self.count >= throttles.lines {
            let passed: u128 = if now >= self.start {
                now - self.start
            } else {
                0
            };
            if passed < throttles.line_reset_interval as u128 * 1_000_000 {
                if self.count == throttles.lines {
                    return Verdict::HoldAndAnnounce;
                }
                return Verdict::Hold;
            }
            self.count = 0;
            self.start = now;
        }
        Verdict::Pass
    }
}

/// The state of the rate limit after one more line: the lines of the period, and its beginning.
pub open spec fn after_line(throttles: Throttles, count: int, start: u128, now: u128) -> (
    int,
    u128,
) {
    if throttles.limits(count + 1) && !throttles.lasts(start, now) {
        (0, now)
    } else {
        (count + 1, start)
    }
}

/// When a line came, and the settings that were in force then.
pub struct Arrival {
    pub throttles: Throttles,
    pub now: u128,
}

/// The state of the rate limit after lines that came one after the other.
pub open spec fn after_lines(count: int, start: u128, arrivals: Seq<Arrival>) -> (int, u128)
    decreases arrivals.len(),
{
    if arrivals.len() == 0 {
        (count, start)
    } else {
        let (count, start) = after_lines(count, start, arrivals.drop_last());
        after_line(arrivals.last().throttles, count, start, arrivals.last().now)
    }
}

/// What becomes of the last of the lines that came one after the other.
pub open spec fn last_verdict(count: int, start: u128, arrivals: Seq<Arrival>) -> Verdict {
    let (before, since) = after_lines(count, start, arrivals.drop_last());
    verdict(arrivals.last().throttles, before + 1, since, arrivals.last().now)
}

/// What becomes of each of the lines that came one after the other.
pub open spec fn verdicts(count: int, start: u128, arrivals: Seq<Arrival>) -> Seq<Verdict>
    decreases arrivals.len(),
{
    if arrivals.len() == 0 {
        Seq::empty()
    } else {
        verdicts(count, start, arrivals.drop_last()).push(last_verdict(count, start, arrivals))
    }
}

/// The lines that are passed on, by what becomes of each.
pub open spec fn passed<T>(lines: Seq<T>, verdicts: Seq<Verdict>) -> Seq<T>
    recommends
        lines.len() == verdicts.len(),
    decreases lines.len(),
{
    if lines.len() == 0 {
        Seq::empty()
    } else {
        let earlier = passed(lines.drop_last(), verdicts.drop_last());
        if verdicts.last() == Verdict::Pass {
            earlier.push(lines.last())
        } else {
            earlier
        }
    }
}

/// The items of `part` stand in `whole` at the given places, one after the other.
pub open spec fn stand_at<T>(part: Seq<T>, whole: Seq<T>, places: Seq<int>) -> bool {
    &&& places.len() == part.len()
    &&& forall|i: int|
        0 <= i < part.len() ==> 0 <= #[trigger] places[i] < whole.len() && part[i]
            == whole[places[i]]
    &&& forall|i: int, j: int|
        0 <= i < j < part.len() ==> #[trigger] places[i] < #[trigger] places[j]
}

/// The items of `part` stand in `whole` in the same order, with others between them or none.
pub open spec fn is_subsequence<T>(part: Seq<T>, whole: Seq<T>) -> bool {
    exists|places: Seq<int>| stand_at(part, whole, places)
}

/// The places of the lines that are passed on.
proof fn lemma_passed_places<T>(lines: Seq<T>, verdicts: Seq<Verdict>) -> (places: Seq<int>)
    ensures
        stand_at(passed(lines, verdicts), lines, places),
    decreases lines.len(),
{
    if lines.len() == 0 {
        Seq::empty()
    } else {
        let earlier = lemma_passed_places(lines.drop_last(), verdicts.drop_last());
        if verdicts.last() == Verdict::Pass {
            earlier.push(lines.len() - 1)
        } else {
            earlier
        }
    }
}

/// The rate limit only leaves lines out: those that are passed on are some of the lines that came,
/// each at most once and in the order in which they came, whatever the settings were at each line.
pub proof fn law_passed_lines_are_some_of_all<T>(
    count: int,
    start: u128,
    arrivals: Seq<Arrival>,
    lines: Seq<T>,
)
    requires
        lines.len() == arrivals.len(),
    ensures
        is_subsequence(passed(lines, verdicts(count, start, arrivals)), lines),
{
    let places = lemma_passed_places(lines, verdicts(count, start, arrivals));
    assert(stand_at(passed(lines, verdicts(count, start, arrivals)), lines, places));
}

/// Where the rate limit is switched off at every line, all lines are passed on.
pub proof fn law_off_passes_all_lines<T>(
    count: int,
    start: u128,
    arrivals: Seq<Arrival>,
    lines: Seq<T>,
)
    requires
        lines.len() == arrivals.len(),
        forall|i: int|
            0 <= i < arrivals.len() ==> !(#[trigger] arrivals[i]).throttles.enabled
                || arrivals[i].throttles.line_reset_interval == 0,
    ensures
        passed(lines, verdicts(count, start, arrivals)) == lines,
    decreases lines.len(),
{
    if lines.len() > 0 {
        let earlier = arrivals.drop_last();
        assert(arrivals[arrivals.len() - 1] == arrivals.last());
        assert forall|i: int| 0 <= i < earlier.len() implies !(
        #[trigger] earlier[i]).throttles.enabled || earlier[i].throttles.line_reset_interval
            == 0 by {
            assert(earlier[i] == arrivals[i]);
        }
        law_off_passes_all_lines(count, start, earlier, lines.drop_last());
        let all = verdicts(count, start, arrivals);
        assert(all.drop_last() =~= verdicts(count, start, earlier));
        assert(lines =~= lines.drop_last().push(lines.last()));
    } else {
        assert(passed(lines, verdicts(count, start, arrivals)) =~= lines);
    }
}

/// The lines came under the given settings, in the period that began at `start`.
pub open spec fn in_one_period(throttles: Throttles, start: u128, arrivals: Seq<Arrival>) -> bool {
    forall|i: int|
        0 <= i < arrivals.len() ==> (#[trigger] arrivals[i]).throttles == throttles
            && throttles.lasts(start, arrivals[i].now)
}

/// Within one period the lines before the limit are passed on, the line at the limit is announced
/// as held back, and every later one is held back in silence: so it is announced once.
pub proof fn law_one_period(throttles: Throttles, start: u128, arrivals: Seq<Arrival>)
    requires
        throttles.enabled,
        throttles.line_reset_interval > 0,
        arrivals.len() > 0,
        in_one_period(throttles, start, arrivals),
    ensures
        after_lines(0, start, arrivals) == (arrivals.len() as int, start),
        last_verdict(0, start, arrivals) == if arrivals.len() < throttles.lines {
            Verdict::Pass
        } else if arrivals.len() == throttles.lines {
            Verdict::HoldAndAnnounce
        } else {
            Verdict::Hold
        },
    decreases arrivals.len(),
{
    let earlier = arrivals.drop_last();
    assert(arrivals[arrivals.len() - 1] == arrivals.last());
    if arrivals.len() > 1 {
        assert forall|i: int| 0 <= i < earlier.len() implies (
        #[trigger] earlier[i]).throttles == throttles && throttles.lasts(
            start,
            earlier[i].now,
        ) by {
            assert(earlier[i] == arrivals[i]);
        }
        law_one_period(throttles, start, earlier);
    } else {
        assert(earlier =~= Seq::empty());
    }
}

/// Within one period the lines before the limit are those that are passed on.
pub proof fn law_one_period_passes_the_first_lines<T>(
    throttles: Throttles,
    start: u128,
    arrivals: Seq<Arrival>,
    lines: Seq<T>,
)
    requires
        throttles.enabled,
        throttles.line_reset_interval > 0,
        in_one_period(throttles, start, arrivals),
        lines.len() == arrivals.len(),
    ensures
        passed(lines, verdicts(0, start, arrivals)) == if lines.len() < throttles.lines {
            lines
        } else if throttles.lines == 0 {
            Seq::empty()
        } else {
            lines.take(throttles.lines - 1)
        },
    decreases lines.len(),
{
    let all = verdicts(0, start, arrivals);
    if lines.len() > 0 {
        let earlier = arrivals.drop_last();
        assert forall|i: int| 0 <= i < earlier.len() implies (
        #[trigger] earlier[i]).throttles == throttles && throttles.lasts(
            start,
            earlier[i].now,
        ) by {
            assert(earlier[i] == arrivals[i]);
        }
        law_one_period(throttles, start, arrivals);
        law_one_period_passes_the_first_lines(throttles, start, earlier, lines.drop_last());
        assert(all.drop_last() =~= verdicts(0, start, earlier));
        assert(lines =~= lines.drop_last().push(lines.last()));
        if lines.len() > throttles.lines > 0 {
            assert(lines.drop_last().take(throttles.lines - 1) =~= lines.take(
                throttles.lines - 1,
            ));
        } else if lines.len() == throttles.lines {
            assert(lines.drop_last() =~= lines.take(throttles.lines - 1));
        }
    } else {
        assert(passed(lines, all) =~= lines);
    }
}

/// A rate limit that is switched off passes every line on.
pub proof fn law_off_passes_all(throttles: Throttles, count: int, start: u128, now: u128)
    requires
        !throttles.enabled || throttles.line_reset_interval == 0,
    ensures
        verdict(throttles, count, start, now) == Verdict::Pass,
{
}

/// The first line that comes after the end of a period is passed on.
pub proof fn law_new_period_passes(throttles: Throttles, count: int, start: u128, now: u128)
    requires
        !throttles.lasts(start, now),
    ensures
        verdict(throttles, count, start, now) == Verdict::Pass,
{
}

/// What one line does. It is held back where the limit is on, the line is the limit's or a later one
/// of its period, and less than the interval has passed since the period began; it is announced at
/// the limit's line. Where the interval has passed, such a line begins a new period. Every other
/// line is passed on, and each line that begins no period is counted, whenever it comes.
pub proof fn law_every_line_counts(throttles: Throttles, count: int, start: u128, now: u128)
    ensures
        ({
            let limited = throttles.enabled && throttles.line_reset_interval > 0 && count + 1
                >= throttles.lines;
            let over = now - start >= throttles.line_reset_interval * 1_000_000;
            &&& !limited ==> verdict(throttles, count + 1, start, now) == Verdict::Pass
            &&& limited && over ==> verdict(throttles, count + 1, start, now) == Verdict::Pass
            &&& limited && !over ==> verdict(throttles, count + 1, start, now) == if count + 1
                == throttles.lines {
                Verdict::HoldAndAnnounce
            } else {
                Verdict::Hold
            }
            &&& limited && over ==> after_line(throttles, count, start, now) == (0int, now)
            &&& !(limited && over) ==> after_line(throttles, count, start, now) == (
                count + 1,
                start,
            )
        }),
{
}

/// The lines came under the given settings, and less than the interval lies between any two.
pub open spec fn in_one_interval(throttles: Throttles, arrivals: Seq<Arrival>) -> bool {
    &&& forall|i: int| 0 <= i < arrivals.len() ==> (#[trigger] arrivals[i]).throttles == throttles
    &&& forall|i: int, j: int|
        0 <= i < arrivals.len() && 0 <= j < arrivals.len() ==> (#[trigger] arrivals[i]).now - (
        #[trigger] arrivals[j]).now < throttles.line_reset_interval * 1_000_000
}

/// How many lines have been passed on, and how far the period has come, after lines of one
/// interval: either the period that was found still runs, or one that began with one of the lines.
proof fn lemma_burst<T>(
    throttles: Throttles,
    count: int,
    start: u128,
    arrivals: Seq<Arrival>,
    lines: Seq<T>,
)
    requires
        throttles.enabled,
        throttles.line_reset_interval > 0,
        throttles.lines >= 1,
        count >= 0,
        in_one_interval(throttles, arrivals),
        lines.len() == arrivals.len(),
    ensures
        ({
            let kept = passed(lines, verdicts(count, start, arrivals)).len();
            let (reached, since) = after_lines(count, start, arrivals);
            let before = if count < throttles.lines {
                throttles.lines - 1 - count
            } else {
                0
            };
            let own = if reached < throttles.lines {
                reached
            } else {
                throttles.lines - 1
            };
            ||| reached == count + arrivals.len() && since == start && kept <= before && kept
                <= arrivals.len()
            ||| reached >= 0 && kept <= before + 1 + own && exists|i: int|
                0 <= i < arrivals.len() && (#[trigger] arrivals[i]).now == since
        }),
    decreases arrivals.len(),
{
    if arrivals.len() > 0 {
        let earlier = arrivals.drop_last();
        let last = arrivals.last();
        assert(arrivals[arrivals.len() - 1] == last);
        assert forall|i: int| 0 <= i < earlier.len() implies (
        #[trigger] earlier[i]).throttles == throttles by {
            assert(earlier[i] == arrivals[i]);
        }
        assert forall|i: int, j: int|
            0 <= i < earlier.len() && 0 <= j < earlier.len() implies (#[trigger] earlier[i]).now
            - (#[trigger] earlier[j]).now < throttles.line_reset_interval * 1_000_000 by {
            assert(earlier[i] == arrivals[i] && earlier[j] == arrivals[j]);
        }
        lemma_burst(throttles, count, start, earlier, lines.drop_last());
        let all = verdicts(count, start, arrivals);
        assert(all.drop_last() =~= verdicts(count, start, earlier));
        let (reached, since) = after_lines(count, start, earlier);
        law_every_line_counts(throttles, reached, since, last.now);
        if exists|i: int| 0 <= i < earlier.len() && (#[trigger] earlier[i]).now == since {
            let i = choose|i: int| 0 <= i < earlier.len() && (#[trigger] earlier[i]).now == since;
            assert(arrivals[i].now == since);
            assert(last.now - since < throttles.line_reset_interval * 1_000_000);
        }
    } else {
        assert(passed(lines, verdicts(count, start, arrivals)).len() == 0);
    }
}

/// However many lines come within one interval, and whatever came before them, fewer than twice the
/// limit are passed on.
pub proof fn law_bursts_are_limited<T>(
    throttles: Throttles,
    count: int,
    start: u128,
    arrivals: Seq<Arrival>,
    lines: Seq<T>,
)
    requires
        throttles.enabled,
        throttles.line_reset_interval > 0,
        throttles.lines >= 1,
        count >= 0,
        in_one_interval(throttles, arrivals),
        lines.len() == arrivals.len(),
    ensures
        passed(lines, verdicts(count, start, arrivals)).len() < 2 * throttles.lines,
{
    lemma_burst(throttles, count, start, arrivals, lines);
}

/// Lines that do not reach the limit are all passed on, whenever they come.
pub proof fn law_lines_below_the_limit_pass<T>(
    throttles: Throttles,
    count: int,
    start: u128,
    arrivals: Seq<Arrival>,
    lines: Seq<T>,
)
    requires
        count >= 0,
        count + arrivals.len() < throttles.lines,
        forall|i: int| 0 <= i < arrivals.len() ==> (#[trigger] arrivals[i]).throttles == throttles,
        lines.len() == arrivals.len(),
    ensures
        passed(lines, verdicts(count, start, arrivals)) == lines,
        after_lines(count, start, arrivals) == (count + arrivals.len(), start),
    decreases arrivals.len(),
{
    if lines.len() > 0 {
        let earlier = arrivals.drop_last();
        assert(arrivals[arrivals.len() - 1] == arrivals.last());
        assert forall|i: int| 0 <= i < earlier.len() implies (
        #[trigger] earlier[i]).throttles == throttles by {
            assert(earlier[i] == arrivals[i]);
        }
        law_lines_below_the_limit_pass(throttles, count, start, earlier, lines.drop_last());
        assert(verdicts(count, start, arrivals).drop_last() =~= verdicts(count, start, earlier));
        assert(lines =~= lines.drop_last().push(lines.last()));
    } else {
        assert(passed(lines, verdicts(count, start, arrivals)) =~= lines);
    }
}

} // verus!
