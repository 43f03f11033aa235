//! Sunrises and sunsets around a date: when they happen, as the `sunrise` crate computes
//! them, ordered by time, and which of them surround a given instant.
use vstd::prelude::*;

use crate::sun::{solar_event_time, SolarAnswer};

verus! {

/// Seconds in one UTC day.
pub const SECONDS_PER_DAY: i64 = 86400;

/// The UTC date that holds the instant `timestamp` (Unix seconds), as a
/// number of days since 1970-01-01: the floor of `timestamp / 86400`.
pub open spec fn spec_utc_day(timestamp: int) -> int {
    timestamp / (SECONDS_PER_DAY as int)
}

/// Computes the UTC date of a Unix timestamp, counted in days since 1970-01-01.
pub fn utc_day(timestamp: i64) -> (day: i64)
    ensures
        day == spec_utc_day(timestamp as int),
{
    if timestamp >= 0 {
        timestamp / SECONDS_PER_DAY
    } else {
        let shifted: i64 = -(timestamp + 1);
        let q: i64 = shifted / SECONDS_PER_DAY;
        assert(spec_utc_day(timestamp as int) == -q - 1) by (nonlinear_arith)
            requires shifted == -(timestamp + 1), q == shifted / 86400, timestamp < 0,
                     SECONDS_PER_DAY == 86400;
        -q - 1
    }
}


/// The two solar events that bound daylight.
#[derive(Clone, Copy, Debug, PartialEq, Eq, Structural)]
pub enum SolarEvent {
    Sunrise,
    Sunset,
}

/// A sunrise or sunset, with the instant (Unix seconds) at which it happens.
#[derive(Clone, Copy, Debug, PartialEq, Eq, Structural)]
pub struct SolarBoundary {
    pub time: i64,
    pub event: SolarEvent,
}

/// `sorted` with `b` placed after every element whose time is not later
/// than `b.time`: one step of a stable sort by time.
pub open spec fn insert_by_time(sorted: Seq<SolarBoundary>, b: SolarBoundary) -> Seq<SolarBoundary>
    decreases sorted.len(),
{
    if sorted.len() == 0 {
        seq![b]
    } else if sorted.last().time <= b.time {
        sorted.push(b)
    } else {
        insert_by_time(sorted.drop_last(), b).push(sorted.last())
    }
}

/// The stable sort of `s` by time: boundaries with equal times keep their order.
pub open spec fn sort_by_time(s: Seq<SolarBoundary>) -> Seq<SolarBoundary>
    decreases s.len(),
{
    if s.len() == 0 {
        s
    } else {
        insert_by_time(sort_by_time(s.drop_last()), s.last())
    }
}

/// Every boundary of `s` is at or after the boundaries before it.
pub open spec fn sorted_by_time(s: Seq<SolarBoundary>) -> bool {
    forall|i: int, j: int| 0 <= i <= j < s.len() ==> #[trigger] s[i].time <= #[trigger] s[j].time
}

proof fn lemma_insert_split(s: Seq<SolarBoundary>, b: SolarBoundary, j: int)
    requires
        0 < j <= s.len(),
        s[j - 1].time > b.time,
    ensures
        insert_by_time(s.take(j), b) + s.skip(j) == insert_by_time(s.take(j - 1), b) + s.skip(j - 1),
{
    let t = s.take(j);
    assert(t.last() == s[j - 1]);
    assert(t.drop_last() =~= s.take(j - 1));
    assert(insert_by_time(t, b) == insert_by_time(s.take(j - 1), b).push(s[j - 1]));
    assert(insert_by_time(s.take(j - 1), b).push(s[j - 1]) + s.skip(j) =~= insert_by_time(
        s.take(j - 1),
        b,
    ) + s.skip(j - 1));
}

/// Inserts `b` into `sorted` after every boundary whose time is not later than `b.time`.
fn insert_boundary(sorted: &mut Vec<SolarBoundary>, b: SolarBoundary)
    ensures
        final(sorted)@ == insert_by_time(old(sorted)@, b),
{
    let ghost s = sorted@;
    let mut j: usize = sorted.len();
    assert(s.take(j as int) =~= s);
    assert(s.skip(j as int) =~= Seq::<SolarBoundary>::empty());
    while j > 0 && sorted[j - 1].time > b.time
        invariant
            sorted@ == s,
            j <= s.len(),
            insert_by_time(s, b) == insert_by_time(s.take(j as int), b) + s.skip(j as int),
        decreases j,
    {
        proof {
            lemma_insert_split(s, b, j as int);
        }
        j -= 1;
    }
    let ghost t = s.take(j as int);
    assert(insert_by_time(t, b) == t.push(b)) by {
        if t.len() > 0 {
            assert(t.last() == s[j - 1]);
        }
    }
    sorted.insert(j, b);
    assert(sorted@ =~= t.push(b) + s.skip(j as int));
}

/// Sorts `boundaries` by time, keeping boundaries with equal times in their order.
pub fn sort_boundaries_by_time(boundaries: &mut Vec<SolarBoundary>)
    ensures
        final(boundaries)@ == sort_by_time(old(boundaries)@),
{
    let mut sorted: Vec<SolarBoundary> = Vec::new();
    let n: usize = boundaries.len();
    for i in 0..n
        invariant
            n == boundaries.len(),
            boundaries@ == old(boundaries)@,
            sorted@ == sort_by_time(boundaries@.take(i as int)),
    {
        proof {
            let t = boundaries@.take(i + 1);
            assert(t.drop_last() =~= boundaries@.take(i as int));
            assert(t.last() == boundaries@[i as int]);
        }
        insert_boundary(&mut sorted, boundaries[i]);
    }
    assert(boundaries@.take(n as int) =~= boundaries@);
    *boundaries = sorted;
}


/// The last boundary of `s` that happens at or before `now`.
pub open spec fn last_at_or_before(s: Seq<SolarBoundary>, now: int) -> Option<SolarBoundary>
    decreases s.len(),
{
    if s.len() == 0 {
        None
    } else if s.last().time <= now {
        Some(s.last())
    } else {
        last_at_or_before(s.drop_last(), now)
    }
}

/// The first boundary of `s` that happens after `now`.
pub open spec fn first_after(s: Seq<SolarBoundary>, now: int) -> Option<SolarBoundary>
    decreases s.len(),
{
    if s.len() == 0 {
        None
    } else if s[0].time > now {
        Some(s[0])
    } else {
        first_after(s.drop_first(), now)
    }
}

proof fn lemma_insert_by_time(s: Seq<SolarBoundary>, b: SolarBoundary)
    requires
        sorted_by_time(s),
    ensures
        sorted_by_time(insert_by_time(s, b)),
        insert_by_time(s, b).to_multiset() == s.to_multiset().insert(b),
        insert_by_time(s, b).len() == s.len() + 1,
        forall|i: int|
            0 <= i < insert_by_time(s, b).len() ==> (#[trigger] insert_by_time(s, b)[i] == b || s.contains(insert_by_time(s, b)[i])),
    decreases s.len(),
{
    broadcast use vstd::seq_lib::group_to_multiset_ensures;

    if s.len() > 0 && s.last().time > b.time {
        let d = s.drop_last();
        assert(sorted_by_time(d));
        lemma_insert_by_time(d, b);
        let r = insert_by_time(d, b);
        assert(s =~= d.push(s.last()));
        assert forall|i: int| 0 <= i < r.len() implies #[trigger] r[i].time <= s.last().time by {
            if r[i] != b {
                let k: int = choose|k: int| 0 <= k < d.len() && d[k] == r[i];
                assert(s[k] == d[k]);
            }
        }
        assert forall|i: int| 0 <= i < r.len() + 1 implies (#[trigger] r.push(s.last())[i] == b
            || s.contains(r.push(s.last())[i])) by {
            if i < r.len() && r[i] != b {
                let k: int = choose|k: int| 0 <= k < d.len() && d[k] == r[i];
                assert(s[k] == d[k]);
            } else if i == r.len() {
                assert(s[s.len() - 1] == s.last());
            }
        }
    }
}

/// Law: sorting by time yields a sequence ordered by time that holds exactly the
/// boundaries it was given, each as often as before.
pub proof fn lemma_sort_by_time(s: Seq<SolarBoundary>)
    ensures
        sorted_by_time(sort_by_time(s)),
        sort_by_time(s).to_multiset() == s.to_multiset(),
        sort_by_time(s).len() == s.len(),
    decreases s.len(),
{
    broadcast use vstd::seq_lib::group_to_multiset_ensures;

    if s.len() > 0 {
        lemma_sort_by_time(s.drop_last());
        lemma_insert_by_time(sort_by_time(s.drop_last()), s.last());
        assert(s =~= s.drop_last().push(s.last()));
    }
}

/// The boundaries of `s` that happen at `time`, in their order in `s`.
pub open spec fn at_time(s: Seq<SolarBoundary>, time: int) -> Seq<SolarBoundary>
    decreases s.len(),
{
    if s.len() == 0 {
        s
    } else if s.last().time == time {
        at_time(s.drop_last(), time).push(s.last())
    } else {
        at_time(s.drop_last(), time)
    }
}

proof fn lemma_insert_at_time(s: Seq<SolarBoundary>, b: SolarBoundary, time: int)
    ensures
        at_time(insert_by_time(s, b), time) == if b.time == time {
            at_time(s, time).push(b)
        } else {
            at_time(s, time)
        },
    decreases s.len(),
{
    if s.len() == 0 {
        assert(seq![b].drop_last() =~= s);
    } else if s.last().time <= b.time {
        assert(s.push(b).drop_last() =~= s);
    } else {
        let d = s.drop_last();
        lemma_insert_at_time(d, b, time);
        let r = insert_by_time(d, b);
        assert(r.push(s.last()).drop_last() =~= r);
    }
}

/// Law: sorting by time is stable: for every instant, the boundaries that happen at it
/// come out in the order they came in.
pub proof fn lemma_sort_by_time_stable(s: Seq<SolarBoundary>, time: int)
    ensures
        at_time(sort_by_time(s), time) == at_time(s, time),
    decreases s.len(),
{
    if s.len() > 0 {
        lemma_sort_by_time_stable(s.drop_last(), time);
        lemma_insert_at_time(sort_by_time(s.drop_last()), s.last(), time);
    }
}

/// Law: in a sequence ordered by time, the boundary found at or before `now` is one of
/// the sequence, at or before `now`, and no boundary at or before `now` is later than it;
/// when none is found, every boundary is after `now`.
pub proof fn lemma_last_at_or_before(s: Seq<SolarBoundary>, now: int)
    requires
        sorted_by_time(s),
    ensures
        match last_at_or_before(s, now) {
            Some(p) => s.contains(p) && p.time <= now && forall|i: int|
                0 <= i < s.len() && #[trigger] s[i].time <= now ==> s[i].time <= p.time,
            None => forall|i: int| 0 <= i < s.len() ==> #[trigger] s[i].time > now,
        },
    decreases s.len(),
{
    if s.len() > 0 {
        let d = s.drop_last();
        assert(sorted_by_time(d));
        lemma_last_at_or_before(d, now);
        if s.last().time > now {
            match last_at_or_before(d, now) {
                Some(p) => {
                    let k: int = choose|k: int| 0 <= k < d.len() && d[k] == p;
                    assert(s[k] == p);
                    assert forall|i: int| 0 <= i < s.len() && #[trigger] s[i].time <= now implies s[i].time <= p.time by {
                        assert(i < d.len());
                        assert(d[i] == s[i]);
                    }
                },
                None => {
                    assert forall|i: int| 0 <= i < s.len() implies #[trigger] s[i].time > now by {
                        if i < d.len() {
                            assert(d[i] == s[i]);
                        }
                    }
                },
            }
        } else {
            assert(s[s.len() - 1] == s.last());
        }
    }
}

/// Law: in a sequence ordered by time, the boundary found after `now` is one of the
/// sequence, after `now`, and no boundary after `now` is earlier than it; when none is
/// found, every boundary is at or before `now`.
pub proof fn lemma_first_after(s: Seq<SolarBoundary>, now: int)
    requires
        sorted_by_time(s),
    ensures
        match first_after(s, now) {
            Some(q) => s.contains(q) && q.time > now && forall|i: int|
                0 <= i < s.len() && #[trigger] s[i].time > now ==> q.time <= s[i].time,
            None => forall|i: int| 0 <= i < s.len() ==> #[trigger] s[i].time <= now,
        },
    decreases s.len(),
{
    if s.len() > 0 {
        let d = s.drop_first();
        assert(sorted_by_time(d)) by {
            assert forall|i: int, j: int| 0 <= i <= j < d.len() implies #[trigger] d[i].time <= #[trigger] d[j].time by {
                assert(d[i] == s[i + 1] && d[j] == s[j + 1]);
            }
        }
        lemma_first_after(d, now);
        if s[0].time <= now {
            match first_after(d, now) {
                Some(q) => {
                    let k: int = choose|k: int| 0 <= k < d.len() && d[k] == q;
                    assert(s[k + 1] == q);
                    assert forall|i: int| 0 <= i < s.len() && #[trigger] s[i].time > now implies q.time <= s[i].time by {
                        assert(i > 0);
                        assert(d[i - 1] == s[i]);
                    }
                },
                None => {
                    assert forall|i: int| 0 <= i < s.len() implies #[trigger] s[i].time <= now by {
                        if i > 0 {
                            assert(d[i - 1] == s[i]);
                        }
                    }
                },
            }
        }
    }
}

/// Finds, in `boundaries`, the last boundary at or before `now` and the first one after it.
pub fn find_surrounding_boundaries(now: i64, boundaries: &Vec<SolarBoundary>) -> (found: (
    Option<SolarBoundary>,
    Option<SolarBoundary>,
))
    ensures
        found.0 == last_at_or_before(boundaries@, now as int),
        found.1 == first_after(boundaries@, now as int),
{
    let ghost s = boundaries@;
    let mut previous: Option<SolarBoundary> = None;
    let mut i: usize = boundaries.len();
    assert(s.take(i as int) =~= s);
    assert(s.take(0) =~= Seq::<SolarBoundary>::empty());
    while i > 0
        invariant_except_break
            previous is None,
        invariant
            boundaries@ == s,
            s.take(0) == Seq::<SolarBoundary>::empty(),
            i <= s.len(),
            last_at_or_before(s, now as int) == last_at_or_before(s.take(i as int), now as int),
        ensures
            previous == last_at_or_before(s, now as int),
        decreases i,
    {
        let ghost t = s.take(i as int);
        assert(t.last() == s[i - 1]);
        assert(t.drop_last() =~= s.take(i - 1));
        if boundaries[i - 1].time <= now {
            previous = Some(boundaries[i - 1]);
            break;
        }
        i -= 1;
    }
    let mut next: Option<SolarBoundary> = None;
    let mut k: usize = 0;
    assert(s.skip(0) =~= s);
    assert(s.skip(s.len() as int) =~= Seq::<SolarBoundary>::empty());
    while k < boundaries.len()
        invariant_except_break
            next is None,
        invariant
            boundaries@ == s,
            s.skip(s.len() as int) == Seq::<SolarBoundary>::empty(),
            k <= s.len(),
            first_after(s, now as int) == first_after(s.skip(k as int), now as int),
        ensures
            next == first_after(s, now as int),
        decreases s.len() - k,
    {
        let ghost t = s.skip(k as int);
        assert(t[0] == s[k as int]);
        assert(t.drop_first() =~= s.skip(k + 1));
        if boundaries[k].time > now {
            next = Some(boundaries[k]);
            break;
        }
        k += 1;
    }
    (previous, next)
}


/// Days from 1970-01-01 to the first date that chrono represents (`NaiveDate::MIN`,
/// January 1 of the year -262143).
pub const FIRST_REPRESENTABLE_DAY: i64 = -96_465_293;

/// Days from 1970-01-01 to the last date that chrono represents (`NaiveDate::MAX`,
/// December 31 of the year 262142).
pub const LAST_REPRESENTABLE_DAY: i64 = 95_026_236;

/// How many days before and after the center date the boundary search looks at: adjacent
/// UTC dates matter at extreme longitudes, and neighbouring solar days at high latitudes
/// where a sunrise or sunset may be missing.
pub const SOLAR_BOUNDARY_SEARCH_DAYS: i64 = 2;

/// Seconds before the start of a UTC date at which its sunrise or sunset may at the
/// earliest happen: the mean solar noon moves at most half a day with the longitude, the
/// equation of time at most 0.0122 day, and the hour angle at most half a day, which
/// gives 44 254 seconds; the bound leaves a margin for rounding.
pub const SOLAR_WINDOW_BEFORE: i64 = 44300;

/// Seconds after the start of a UTC date at which its sunrise or sunset may at the
/// latest happen: the date's noon (43 200 seconds) and the same 44 254 seconds on either
/// side, with a margin for rounding.
pub const SOLAR_WINDOW_AFTER: i64 = 130700;

/// Seconds after the start of a UTC date by which its sunrise happens at the latest: a
/// sunrise comes before the solar transit, which lies at most half a day plus 0.0122 day
/// after the date's noon (87 454 seconds); the bound leaves a margin for rounding.
pub const SUNRISE_LATEST: i64 = 87500;

/// Seconds before the start of a UTC date after which its sunset happens at the earliest:
/// a sunset comes after the solar transit, which lies at most half a day plus 0.0122 day
/// before the date's noon (1 054 seconds before its start); with a margin for rounding.
pub const SUNSET_EARLIEST: i64 = 1100;

/// `time`, when there is one, lies in the window of the solar events of the UTC date `day`.
pub open spec fn within_solar_window(time: Option<i64>, day: int) -> bool {
    time matches Some(t) ==> day * SECONDS_PER_DAY - SOLAR_WINDOW_BEFORE <= t <= day
        * SECONDS_PER_DAY + SOLAR_WINDOW_AFTER
}

/// `time`, when there is one, lies where `event` of the UTC date `day` can happen: in the
/// date's solar window, a sunrise no later than the transit's latest instant and a sunset
/// no earlier than the transit's earliest instant.
pub open spec fn within_event_window(time: Option<i64>, day: int, event: SolarEvent) -> bool {
    &&& within_solar_window(time, day)
    &&& event == SolarEvent::Sunrise ==> (time matches Some(t) ==> t <= day * SECONDS_PER_DAY
        + SUNRISE_LATEST)
    &&& event == SolarEvent::Sunset ==> (time matches Some(t) ==> day * SECONDS_PER_DAY
        - SUNSET_EARLIEST <= t)
}

/// A date whose sunrise and sunset lie inside the range of instants that chrono
/// represents: one day away from either end of its date range, since the events of a
/// date lie within its solar window.
pub open spec fn solar_day_supported(day: int) -> bool {
    FIRST_REPRESENTABLE_DAY + 1 <= day <= LAST_REPRESENTABLE_DAY - 1
}

/// A date around which every date of the boundary search is supported.
pub open spec fn search_center_supported(day: int) -> bool {
    solar_day_supported(day - SOLAR_BOUNDARY_SEARCH_DAYS) && solar_day_supported(
        day + SOLAR_BOUNDARY_SEARCH_DAYS,
    )
}

/// The boundaries of one day, in the order sunrise, sunset, for those that happen.
pub open spec fn day_boundaries(sunrise: Option<i64>, sunset: Option<i64>) -> Seq<SolarBoundary> {
    let morning = match sunrise {
        Some(t) => seq![SolarBoundary { time: t, event: SolarEvent::Sunrise }],
        None => Seq::<SolarBoundary>::empty(),
    };
    match sunset {
        Some(t) => morning.push(SolarBoundary { time: t, event: SolarEvent::Sunset }),
        None => morning,
    }
}

/// The boundaries of consecutive days, each given as its (sunrise, sunset), in day order.
pub open spec fn collect_boundaries(days: Seq<(Option<i64>, Option<i64>)>) -> Seq<SolarBoundary>
    decreases days.len(),
{
    if days.len() == 0 {
        Seq::<SolarBoundary>::empty()
    } else {
        collect_boundaries(days.drop_last()) + day_boundaries(days.last().0, days.last().1)
    }
}

/// The number of days that the boundary search looks at.
pub open spec fn search_days() -> int {
    2 * SOLAR_BOUNDARY_SEARCH_DAYS + 1
}

/// The (sunrise, sunset) answered for the UTC date `day` lie where a sunrise and a sunset
/// of that date can happen.
pub open spec fn answers_fit_day(answers: (Option<i64>, Option<i64>), day: int) -> bool {
    within_event_window(answers.0, day, SolarEvent::Sunrise) && within_event_window(
        answers.1,
        day,
        SolarEvent::Sunset,
    )
}

/// `days` holds one (sunrise, sunset) for each date of the search around `center_day`, in
/// date order, each in the solar window of its date.
pub open spec fn answers_fit_search(days: Seq<(Option<i64>, Option<i64>)>, center_day: int) -> bool {
    &&& days.len() == search_days()
    &&& forall|k: int|
        0 <= k < days.len() ==> answers_fit_day(
            #[trigger] days[k],
            center_day - SOLAR_BOUNDARY_SEARCH_DAYS + k,
        )
}

/// The instants of a date's two answers, (sunrise, sunset).
pub open spec fn answer_pair_times(pair: (SolarAnswer, SolarAnswer)) -> (Option<i64>, Option<i64>) {
    (pair.0.answered_time(), pair.1.answered_time())
}

/// The instants of consecutive dates' answers.
pub open spec fn answer_times(answers: Seq<(SolarAnswer, SolarAnswer)>) -> Seq<(Option<i64>, Option<i64>)> {
    answers.map_values(|pair: (SolarAnswer, SolarAnswer)| answer_pair_times(pair))
}

/// `pair` holds the answers the solar computation gave when asked for the sunrise and for
/// the sunset of the UTC date `day`.
pub open spec fn answers_for_date(pair: (SolarAnswer, SolarAnswer), day: int) -> bool {
    &&& pair.0.answered_day() == day
    &&& pair.0.answered_event() == SolarEvent::Sunrise
    &&& pair.1.answered_day() == day
    &&& pair.1.answered_event() == SolarEvent::Sunset
    &&& answers_fit_day(answer_pair_times(pair), day)
}

/// `answers` holds, in date order, the answers for the sunrise and the sunset of each of
/// the five dates of the search around `center_day`.
pub open spec fn answers_for_search(answers: Seq<(SolarAnswer, SolarAnswer)>, center_day: int) -> bool {
    &&& answers.len() == search_days()
    &&& forall|k: int|
        0 <= k < answers.len() ==> answers_for_date(
            #[trigger] answers[k],
            center_day - SOLAR_BOUNDARY_SEARCH_DAYS + k,
        )
}

/// Answers for the search give instants that fit the search.
pub proof fn lemma_answers_fit_search(answers: Seq<(SolarAnswer, SolarAnswer)>, center_day: int)
    requires
        answers_for_search(answers, center_day),
    ensures
        answers_fit_search(answer_times(answers), center_day),
{
    assert forall|k: int| 0 <= k < answer_times(answers).len() implies answers_fit_day(
        #[trigger] answer_times(answers)[k],
        center_day - SOLAR_BOUNDARY_SEARCH_DAYS + k,
    ) by {
        assert(answers_for_date(answers[k], center_day - SOLAR_BOUNDARY_SEARCH_DAYS + k));
    }
}

/// `day` answers the boundary `b`: its sunrise is `b` when `b` is a sunrise, its sunset
/// when `b` is a sunset.
pub open spec fn day_answers(day: (Option<i64>, Option<i64>), b: SolarBoundary) -> bool {
    ||| b.event == SolarEvent::Sunrise && day.0 == Some(b.time)
    ||| b.event == SolarEvent::Sunset && day.1 == Some(b.time)
}

/// How many sunrises and sunsets `days` holds.
pub open spec fn answered_count(days: Seq<(Option<i64>, Option<i64>)>) -> nat
    decreases days.len(),
{
    if days.len() == 0 {
        0
    } else {
        answered_count(days.drop_last()) + (if days.last().0 is Some {
            1nat
        } else {
            0nat
        }) + (if days.last().1 is Some {
            1nat
        } else {
            0nat
        })
    }
}

/// The solar computation answered the boundary `b` for one of the dates of `answers`.
pub open spec fn answered_boundary(answers: Seq<(SolarAnswer, SolarAnswer)>, b: SolarBoundary) -> bool {
    exists|k: int| 0 <= k < answers.len() && #[trigger] day_answers(answer_times(answers)[k], b)
}

proof fn lemma_collect_boundaries(days: Seq<(Option<i64>, Option<i64>)>)
    ensures
        collect_boundaries(days).len() == answered_count(days),
        forall|b: SolarBoundary|
            #[trigger] collect_boundaries(days).contains(b) <==> exists|k: int|
                0 <= k < days.len() && #[trigger] day_answers(days[k], b),
    decreases days.len(),
{
    if days.len() > 0 {
        let prefix = days.drop_last();
        lemma_collect_boundaries(prefix);
        let c = collect_boundaries(prefix);
        let last = days.last();
        let d = day_boundaries(last.0, last.1);
        assert(collect_boundaries(days) == c + d);
        assert forall|b: SolarBoundary| #[trigger] collect_boundaries(days).contains(b) <==> exists|k: int|
            0 <= k < days.len() && #[trigger] day_answers(days[k], b) by {
            let all = c + d;
            if all.contains(b) {
                let i = choose|i: int| 0 <= i < all.len() && all[i] == b;
                if i < c.len() {
                    assert(c[i] == b);
                    assert(c.contains(b));
                    let k = choose|k: int| 0 <= k < prefix.len() && #[trigger] day_answers(prefix[k], b);
                    assert(days[k] == prefix[k]);
                } else {
                    assert(d[i - c.len()] == b);
                    assert(days[days.len() - 1] == last);
                    assert(day_answers(days[days.len() - 1], b));
                }
            }
            if exists|k: int| 0 <= k < days.len() && #[trigger] day_answers(days[k], b) {
                let k = choose|k: int| 0 <= k < days.len() && #[trigger] day_answers(days[k], b);
                if k < prefix.len() {
                    assert(prefix[k] == days[k]);
                    assert(day_answers(prefix[k], b));
                    assert(c.contains(b));
                    let i = choose|i: int| 0 <= i < c.len() && c[i] == b;
                    assert(all[i] == b);
                } else {
                    assert(days[k] == last);
                    if b.event == SolarEvent::Sunrise {
                        assert(d[0] == b);
                        assert(all[c.len() as int] == b);
                    } else {
                        assert(d[d.len() - 1] == b);
                        assert(all[all.len() - 1] == b);
                    }
                }
            }
        }
    }
}

/// Law: the boundaries collected from the answers of the search are ordered by time, hold
/// every sunrise and sunset that the solar computation answered for any of the five
/// dates, tagged with the event that was asked for, hold nothing else, and hold each
/// answer once: there are as many as there are answers that are not `None`.
pub proof fn lemma_boundaries_hold_every_answer(
    answers: Seq<(SolarAnswer, SolarAnswer)>,
    center_day: int,
)
    requires
        answers_for_search(answers, center_day),
    ensures
        ({
            let boundaries = sort_by_time(collect_boundaries(answer_times(answers)));
            &&& sorted_by_time(boundaries)
            &&& boundaries.len() == answered_count(answer_times(answers))
            &&& forall|b: SolarBoundary| #[trigger] boundaries.contains(b) <==> answered_boundary(answers, b)
            &&& forall|k: int|
                0 <= k < answers.len() ==> ((#[trigger] answers[k]).0.answered_time() matches Some(t)
                    ==> boundaries.contains(SolarBoundary { time: t, event: SolarEvent::Sunrise }))
            &&& forall|k: int|
                0 <= k < answers.len() ==> ((#[trigger] answers[k]).1.answered_time() matches Some(t)
                    ==> boundaries.contains(SolarBoundary { time: t, event: SolarEvent::Sunset }))
        }),
{
    broadcast use vstd::seq_lib::group_to_multiset_ensures;

    let days = answer_times(answers);
    let collected = collect_boundaries(days);
    let boundaries = sort_by_time(collected);
    lemma_sort_by_time(collected);
    lemma_collect_boundaries(days);
    assert forall|b: SolarBoundary| #[trigger] boundaries.contains(b) <==> answered_boundary(answers, b) by {
        assert(collected.to_multiset().count(b) == boundaries.to_multiset().count(b));
        if collected.contains(b) {
            let k = choose|k: int| 0 <= k < days.len() && #[trigger] day_answers(days[k], b);
            assert(day_answers(answer_times(answers)[k], b));
        }
        if answered_boundary(answers, b) {
            let k = choose|k: int| 0 <= k < answers.len() && #[trigger] day_answers(answer_times(answers)[k], b);
            assert(day_answers(days[k], b));
        }
    }
    assert forall|k: int|
        0 <= k < answers.len() && (#[trigger] answers[k]).0.answered_time() is Some implies boundaries.contains(
        SolarBoundary { time: answers[k].0.answered_time()->0, event: SolarEvent::Sunrise },
    ) by {
        let b = SolarBoundary { time: answers[k].0.answered_time()->0, event: SolarEvent::Sunrise };
        assert(days[k] == answer_pair_times(answers[k]));
        assert(day_answers(answer_times(answers)[k], b));
        assert(answered_boundary(answers, b));
    }
    assert forall|k: int|
        0 <= k < answers.len() && (#[trigger] answers[k]).1.answered_time() is Some implies boundaries.contains(
        SolarBoundary { time: answers[k].1.answered_time()->0, event: SolarEvent::Sunset },
    ) by {
        let b = SolarBoundary { time: answers[k].1.answered_time()->0, event: SolarEvent::Sunset };
        assert(days[k] == answer_pair_times(answers[k]));
        assert(day_answers(answer_times(answers)[k], b));
        assert(answered_boundary(answers, b));
    }
}

/// Law: around `now`, the previous boundary found among the answers of the search is an
/// answered sunrise or sunset at or before `now`, and no answered one at or before `now`
/// is later; the next one is an answered one after `now`, and no answered one after
/// `now` is earlier. So whenever the solar computation answered some boundary at or
/// before `now` for one of the five dates there is a previous boundary, and whenever it
/// answered one after `now` there is a next one, no later than it.
pub proof fn lemma_surrounding_over_answers(
    answers: Seq<(SolarAnswer, SolarAnswer)>,
    center_day: int,
    now: int,
)
    requires
        answers_for_search(answers, center_day),
    ensures
        ({
            let found = surrounding(sort_by_time(collect_boundaries(answer_times(answers))), now);
            &&& found.0 matches Some(p) ==> answered_boundary(answers, p) && p.time <= now
            &&& found.1 matches Some(q) ==> answered_boundary(answers, q) && q.time > now
            &&& forall|b: SolarBoundary|
                #[trigger] answered_boundary(answers, b) && b.time <= now ==> (found.0 matches Some(
                    p,
                ) && b.time <= p.time)
            &&& forall|b: SolarBoundary|
                #[trigger] answered_boundary(answers, b) && b.time > now ==> (found.1 matches Some(
                    q,
                ) && q.time <= b.time)
        }),
{
    let boundaries = sort_by_time(collect_boundaries(answer_times(answers)));
    lemma_boundaries_hold_every_answer(answers, center_day);
    lemma_last_at_or_before(boundaries, now);
    lemma_first_after(boundaries, now);
    let found = surrounding(boundaries, now);
    assert forall|b: SolarBoundary|
        #[trigger] answered_boundary(answers, b) && b.time <= now implies (found.0 matches Some(p)
        && b.time <= p.time) by {
        assert(boundaries.contains(b));
        let i = choose|i: int| 0 <= i < boundaries.len() && boundaries[i] == b;
        assert(boundaries[i].time <= now);
    }
    assert forall|b: SolarBoundary|
        #[trigger] answered_boundary(answers, b) && b.time > now implies (found.1 matches Some(q)
        && q.time <= b.time) by {
        assert(boundaries.contains(b));
        let i = choose|i: int| 0 <= i < boundaries.len() && boundaries[i] == b;
        assert(boundaries[i].time > now);
    }
}

/// Collects the sunrises and sunsets of the dates from `center_day - 2` to `center_day + 2`
/// at `coordinates` and sorts them by time (stably).
///
/// Whatever the `sunrise` crate answers, the result is the stable sort by time of what it
/// answered, when asked, for the sunrise and the sunset of each of those five dates, in
/// day order, sunrise before sunset; each answer lies in the solar window of its own date.
pub fn solar_boundaries(coordinates: &sunrise::Coordinates, center_day: i64) -> (boundaries: Vec<
    SolarBoundary,
>)
    requires
        search_center_supported(center_day as int),
    ensures
        exists|answers: Seq<(SolarAnswer, SolarAnswer)>|
            answers_for_search(answers, center_day as int) && boundaries@ == sort_by_time(
                #[trigger] collect_boundaries(answer_times(answers)),
            ),
        exists|days: Seq<(Option<i64>, Option<i64>)>|
            answers_fit_search(days, center_day as int) && boundaries@ == sort_by_time(
                #[trigger] collect_boundaries(days),
            ),
{
    let mut boundaries: Vec<SolarBoundary> = Vec::with_capacity(10);
    let ghost mut answers: Seq<(SolarAnswer, SolarAnswer)> = Seq::empty();
    let mut offset: i64 = -SOLAR_BOUNDARY_SEARCH_DAYS;
    while offset <= SOLAR_BOUNDARY_SEARCH_DAYS
        invariant
            search_center_supported(center_day as int),
            -SOLAR_BOUNDARY_SEARCH_DAYS <= offset <= SOLAR_BOUNDARY_SEARCH_DAYS + 1,
            answers.len() == offset + SOLAR_BOUNDARY_SEARCH_DAYS,
            forall|k: int|
                0 <= k < answers.len() ==> answers_for_date(
                    #[trigger] answers[k],
                    center_day - SOLAR_BOUNDARY_SEARCH_DAYS + k,
                ),
            boundaries@ == collect_boundaries(answer_times(answers)),
        decreases SOLAR_BOUNDARY_SEARCH_DAYS + 1 - offset,
    {
        let day: i64 = center_day + offset;
        let sunrise = solar_event_time(coordinates, day, SolarEvent::Sunrise);
        if let Some(time) = sunrise.time() {
            boundaries.push(SolarBoundary { time, event: SolarEvent::Sunrise });
        }
        let sunset = solar_event_time(coordinates, day, SolarEvent::Sunset);
        if let Some(time) = sunset.time() {
            boundaries.push(SolarBoundary { time, event: SolarEvent::Sunset });
        }
        proof {
            let pair = (sunrise, sunset);
            let next = answers.push(pair);
            assert(answer_times(next).drop_last() =~= answer_times(answers));
            assert(answer_times(next).last() == answer_pair_times(pair));
            assert(boundaries@ =~= collect_boundaries(answer_times(answers)) + day_boundaries(
                sunrise.answered_time(),
                sunset.answered_time(),
            ));
            assert(answers_for_date(next[next.len() - 1], day as int));
            answers = next;
        }
        offset += 1;
    }
    sort_boundaries_by_time(&mut boundaries);
    proof {
        lemma_answers_fit_search(answers, center_day as int);
    }
    assert(boundaries@ == sort_by_time(collect_boundaries(answer_times(answers))));
    boundaries
}

/// The boundaries that surround `now`: the last at or before it and the first after it.
pub open spec fn surrounding(boundaries: Seq<SolarBoundary>, now: int) -> (
    Option<SolarBoundary>,
    Option<SolarBoundary>,
) {
    (last_at_or_before(boundaries, now), first_after(boundaries, now))
}

/// Finds, among the sunrises and sunsets of the five dates around `center_day` at
/// `coordinates`, the last one at or before `now` and the first one after it.
pub fn surrounding_solar_boundaries(
    now: i64,
    coordinates: &sunrise::Coordinates,
    center_day: i64,
) -> (found: (Option<SolarBoundary>, Option<SolarBoundary>))
    requires
        search_center_supported(center_day as int),
    ensures
        exists|answers: Seq<(SolarAnswer, SolarAnswer)>|
            answers_for_search(answers, center_day as int) && found == surrounding(
                sort_by_time(#[trigger] collect_boundaries(answer_times(answers))),
                now as int,
            ),
        exists|days: Seq<(Option<i64>, Option<i64>)>|
            answers_fit_search(days, center_day as int) && found == surrounding(
                sort_by_time(#[trigger] collect_boundaries(days)),
                now as int,
            ),
{
    let boundaries = solar_boundaries(coordinates, center_day);
    find_surrounding_boundaries(now, &boundaries)
}

} // verus!
