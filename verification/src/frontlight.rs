//! Automatic frontlight levels that follow the solar day at a location: brightness
//! switches between a day and a night level, and warmth ramps up over a fixed window
//! before sunset and down over the same window before sunrise.
use vstd::prelude::*;

use crate::sun::{solar_event_time, SolarAnswer};
use crate::solar::{
    answer_times, answered_boundary, answers_for_date, answers_for_search, lemma_answers_fit_search,
    lemma_surrounding_over_answers,
    answers_fit_day, answers_fit_search, collect_boundaries, lemma_first_after, lemma_last_at_or_before, lemma_sort_by_time, search_center_supported, search_days, sort_by_time, spec_utc_day,
    surrounding, surrounding_solar_boundaries, utc_day, SolarBoundary, SolarEvent,
};

verus! {

/// Length of the warmth transition before sunrise and before sunset, in minutes.
pub const WARMTH_TRANSITION_MINUTES: i64 = 90;

/// Length of the warmth transition, in seconds. Warmth is counted in units of one
/// second of this window: 0 is fully cool, `WARMTH_TRANSITION_SECONDS` fully warm.
pub const WARMTH_TRANSITION_SECONDS: i64 = WARMTH_TRANSITION_MINUTES * 60;

/// Full warmth, in the units of `LightLevels::warmth`.
pub open spec fn full_warmth() -> int {
    WARMTH_TRANSITION_SECONDS as int
}

/// The frontlight levels to apply: an intensity and a warmth, the latter as a fraction
/// of full warmth in units of 1/`WARMTH_TRANSITION_SECONDS`.
pub struct LightLevels<L> {
    pub intensity: L,
    pub warmth: u32,
}

/// How far `now` is into the transition window that ends at `boundary`, in seconds,
/// clamped to the window: 0 up to its start, full at and after `boundary`.
pub open spec fn spec_transition_progress(now: int, boundary: int) -> int {
    let elapsed: int = now - (boundary - WARMTH_TRANSITION_SECONDS);
    if elapsed <= 0 {
        0
    } else if elapsed >= WARMTH_TRANSITION_SECONDS {
        WARMTH_TRANSITION_SECONDS as int
    } else {
        elapsed
    }
}

/// Computes how far `now` is into the transition window that ends at `boundary`
/// (both Unix seconds), in whole seconds clamped to the window.
pub fn transition_progress(now: i64, boundary: i64) -> (progress: u32)
    ensures
        progress == spec_transition_progress(now as int, boundary as int),
        progress <= WARMTH_TRANSITION_SECONDS,
{
    let start: i128 = boundary as i128 - WARMTH_TRANSITION_SECONDS as i128;
    let elapsed: i128 = now as i128 - start;
    if elapsed <= 0 {
        0
    } else if elapsed >= WARMTH_TRANSITION_SECONDS as i128 {
        WARMTH_TRANSITION_SECONDS as u32
    } else {
        elapsed as u32
    }
}

/// Builds the levels from an intensity and a warmth.
pub fn light_levels<L>(intensity: L, warmth: u32) -> (levels: LightLevels<L>)
    ensures
        levels.intensity == intensity,
        levels.warmth == warmth,
{
    LightLevels { intensity, warmth }
}

/// The sun is up between the boundaries that surround the current instant: the last
/// boundary was a sunrise, or, with no boundary before, the next one is a sunset.
pub open spec fn is_daytime(previous: Option<SolarBoundary>, next: Option<SolarBoundary>) -> bool {
    match previous {
        Some(b) => b.event == SolarEvent::Sunrise,
        None => match next {
            Some(b) => b.event == SolarEvent::Sunset,
            None => false,
        },
    }
}

/// Warmth at `now`: rising over the window before the coming sunset by day, falling
/// over the window before the coming sunrise by night, else none by day and full by night.
pub open spec fn spec_warmth(now: int, daytime: bool, next: Option<SolarBoundary>) -> int {
    match next {
        Some(b) => if daytime && b.event == SolarEvent::Sunset {
            spec_transition_progress(now, b.time as int)
        } else if !daytime && b.event == SolarEvent::Sunrise {
            full_warmth() - spec_transition_progress(now, b.time as int)
        } else if daytime {
            0
        } else {
            full_warmth()
        },
        None => if daytime {
            0
        } else {
            full_warmth()
        },
    }
}

/// Whether the sun stays up all day, when today lacks a sunrise or a sunset: with no
/// sunrise but a sunset the sun stays down (polar night), with a sunrise but no sunset
/// it stays up (polar day), and with neither it is `polar_day`. `None` on an ordinary day.
pub open spec fn polar_sun_up(sunrise_today: Option<i64>, sunset_today: Option<i64>, polar_day: bool) -> Option<bool> {
    match (sunrise_today, sunset_today) {
        (None, None) => Some(polar_day),
        (None, Some(_)) => Some(false),
        (Some(_), None) => Some(true),
        (Some(_), Some(_)) => None,
    }
}

/// The levels at `now`, given today's sunrise and sunset, whether the sun stays up when
/// today has neither (`polar_day`), and the boundaries that surround `now`. In polar night
/// the night brightness at full warmth; in polar day the current intensity with no
/// warmth; otherwise the current intensity by day and the night brightness by night, with
/// the warmth of `spec_warmth`.
pub open spec fn spec_levels<L>(
    now: int,
    sunrise_today: Option<i64>,
    sunset_today: Option<i64>,
    polar_day: bool,
    previous: Option<SolarBoundary>,
    next: Option<SolarBoundary>,
    night_brightness: L,
    current_intensity: L,
) -> LightLevels<L> {
    match polar_sun_up(sunrise_today, sunset_today, polar_day) {
        Some(true) => LightLevels { intensity: current_intensity, warmth: 0 },
        Some(false) => LightLevels { intensity: night_brightness, warmth: full_warmth() as u32 },
        None => {
            let daytime = is_daytime(previous, next);
            LightLevels {
                intensity: if daytime {
                    current_intensity
                } else {
                    night_brightness
                },
                warmth: spec_warmth(now, daytime, next) as u32,
            }
        },
    }
}

/// The constant levels of polar day (`sun_up`) or polar night.
fn polar_levels<L>(sun_up: bool, night_brightness: L, current_intensity: L) -> (levels: LightLevels<L>)
    ensures
        levels == (if sun_up {
            LightLevels { intensity: current_intensity, warmth: 0u32 }
        } else {
            LightLevels { intensity: night_brightness, warmth: full_warmth() as u32 }
        }),
{
    if sun_up {
        light_levels(current_intensity, 0)
    } else {
        light_levels(night_brightness, WARMTH_TRANSITION_SECONDS as u32)
    }
}

/// Decides the levels at `now` (Unix seconds) from what the solar computation gave:
/// today's sunrise and sunset, and the boundaries that surround `now`. `polar_day` tells
/// whether the sun stays up should today have neither a sunrise nor a sunset.
pub fn levels_for_solar_context<L>(
    now: i64,
    sunrise_today: Option<i64>,
    sunset_today: Option<i64>,
    polar_day: bool,
    previous: Option<SolarBoundary>,
    next: Option<SolarBoundary>,
    night_brightness: L,
    current_intensity: L,
) -> (levels: LightLevels<L>)
    ensures
        levels == spec_levels(
            now as int,
            sunrise_today,
            sunset_today,
            polar_day,
            previous,
            next,
            night_brightness,
            current_intensity,
        ),
        levels.warmth <= WARMTH_TRANSITION_SECONDS,
{
    if sunrise_today.is_none() || sunset_today.is_none() {
        let sun_up = if sunrise_today.is_none() && sunset_today.is_none() {
            polar_day
        } else {
            sunset_today.is_none()
        };
        return polar_levels(sun_up, night_brightness, current_intensity);
    }
    let is_daytime = match (previous, next) {
        (Some(boundary), _) => boundary.event == SolarEvent::Sunrise,
        (None, Some(boundary)) => boundary.event == SolarEvent::Sunset,
        (None, None) => false,
    };
    let intensity = if is_daytime {
        current_intensity
    } else {
        night_brightness
    };
    let warmth = match next {
        Some(boundary) => {
            if is_daytime && boundary.event == SolarEvent::Sunset {
                transition_progress(now, boundary.time)
            } else if !is_daytime && boundary.event == SolarEvent::Sunrise {
                WARMTH_TRANSITION_SECONDS as u32 - transition_progress(now, boundary.time)
            } else if is_daytime {
                0
            } else {
                WARMTH_TRANSITION_SECONDS as u32
            }
        },
        None => if is_daytime {
            0
        } else {
            WARMTH_TRANSITION_SECONDS as u32
        },
    };
    light_levels(intensity, warmth)
}

/// Instants whose UTC date lies far enough inside chrono's date range for every solar
/// computation of the boundary search to stay inside it.
pub open spec fn supported_instant(now: int) -> bool {
    search_center_supported(spec_utc_day(now))
}

/// The levels at `now` when the solar computation answered `sunrise_today` and
/// `sunset_today` for today's date and `days` (sunrise, sunset) for the five dates of
/// the boundary search, with `polar_day` telling whether the sun stays up on a day with
/// neither a sunrise nor a sunset.
pub open spec fn levels_from_solar_answers<L>(
    now: int,
    sunrise_today: Option<i64>,
    sunset_today: Option<i64>,
    polar_day: bool,
    days: Seq<(Option<i64>, Option<i64>)>,
    night_brightness: L,
    current_intensity: L,
) -> LightLevels<L> {
    let found = surrounding(sort_by_time(collect_boundaries(days)), now);
    spec_levels(
        now,
        sunrise_today,
        sunset_today,
        polar_day,
        found.0,
        found.1,
        night_brightness,
        current_intensity,
    )
}

/// The answers of the solar computation fit the instant `now`: today's sunrise and sunset
/// lie in the solar window of today's UTC date, and the five days of the boundary search
/// are the dates around it, each answer in the window of its own date.
pub open spec fn answers_fit_instant(
    now: int,
    sunrise_today: Option<i64>,
    sunset_today: Option<i64>,
    days: Seq<(Option<i64>, Option<i64>)>,
) -> bool {
    &&& answers_fit_day((sunrise_today, sunset_today), spec_utc_day(now))
    &&& answers_fit_search(days, spec_utc_day(now))
}

/// The levels follow the solar computation's answers: `today` holds its answers for
/// today's sunrise and sunset; where today lacks either, the polar levels; otherwise the
/// levels from the boundaries of its answers for the five dates around today.
pub open spec fn levels_follow_answers<L>(
    levels: LightLevels<L>,
    now: int,
    today: (SolarAnswer, SolarAnswer),
    polar_day: bool,
    night_brightness: L,
    current_intensity: L,
) -> bool {
    let sunrise_today = today.0.answered_time();
    let sunset_today = today.1.answered_time();
    &&& answers_for_date(today, spec_utc_day(now))
    &&& if polar_sun_up(sunrise_today, sunset_today, polar_day) is Some {
        levels == spec_levels(
            now,
            sunrise_today,
            sunset_today,
            polar_day,
            None,
            None,
            night_brightness,
            current_intensity,
        )
    } else {
        exists|answers: Seq<(SolarAnswer, SolarAnswer)>|
            answers_for_search(answers, spec_utc_day(now)) && levels == #[trigger] levels_from_solar_answers(
                now,
                sunrise_today,
                sunset_today,
                polar_day,
                answer_times(answers),
                night_brightness,
                current_intensity,
            )
    }
}

/// Computes the frontlight levels that should be active at `now` (Unix seconds, UTC)
/// at `coordinates`.
///
/// Brightness is `current_intensity` while the sun is up and `night_brightness` while it
/// is down. Warmth ramps over a fixed window before sunrise and before sunset, reaching
/// fully cool at sunrise and fully warm at sunset. Where the sun does not rise today
/// (polar night) the result is `night_brightness` at full warmth; where it does not set
/// (polar day), `current_intensity` with no warmth. The `sunrise` crate answers neither
/// a sunrise nor a sunset in both cases, so the caller tells them apart by `polar_day`:
/// whether the sun stays up, which depends on the hemisphere of the latitude and on the
/// season, floating-point quantities that this library does not hold.
///
/// The instants of the solar events come from the `sunrise` crate; whatever it answers
/// when asked about today and about each of the five dates around it, the result is
/// `levels_follow_answers` of those answers.
pub fn compute_auto_frontlight_levels<L>(
    now: i64,
    coordinates: &sunrise::Coordinates,
    polar_day: bool,
    night_brightness: L,
    current_intensity: L,
) -> (levels: LightLevels<L>)
    requires
        supported_instant(now as int),
    ensures
        exists|today: (SolarAnswer, SolarAnswer)|
            #[trigger] levels_follow_answers(
                levels,
                now as int,
                today,
                polar_day,
                night_brightness,
                current_intensity,
            ),
        exists|
            sunrise_today: Option<i64>,
            sunset_today: Option<i64>,
            days: Seq<(Option<i64>, Option<i64>)>,
        |
            answers_fit_instant(now as int, sunrise_today, sunset_today, days) && levels
                == #[trigger] levels_from_solar_answers(
                now as int,
                sunrise_today,
                sunset_today,
                polar_day,
                days,
                night_brightness,
                current_intensity,
            ),
        levels.intensity == night_brightness || levels.intensity == current_intensity,
        levels.warmth <= WARMTH_TRANSITION_SECONDS,
{
    let today: i64 = utc_day(now);
    let sunrise_answer = solar_event_time(coordinates, today, SolarEvent::Sunrise);
    let sunset_answer = solar_event_time(coordinates, today, SolarEvent::Sunset);
    let ghost today_answers = (sunrise_answer, sunset_answer);
    let sunrise = sunrise_answer.time();
    let sunset = sunset_answer.time();
    assert(answers_for_date(today_answers, today as int));
    if sunrise.is_none() || sunset.is_none() {
        let ghost no_days = Seq::new(search_days() as nat, |i: int| (None::<i64>, None::<i64>));
        let sun_up = if sunrise.is_none() && sunset.is_none() {
            polar_day
        } else {
            sunset.is_none()
        };
        let levels = polar_levels(sun_up, night_brightness, current_intensity);
        assert(answers_fit_instant(now as int, sunrise, sunset, no_days));
        assert(levels == levels_from_solar_answers(
            now as int,
            sunrise,
            sunset,
            polar_day,
            no_days,
            night_brightness,
            current_intensity,
        ));
        assert(levels_follow_answers(
            levels,
            now as int,
            today_answers,
            polar_day,
            night_brightness,
            current_intensity,
        ));
        return levels;
    }
    let (previous, next) = surrounding_solar_boundaries(now, coordinates, today);
    let ghost answers = choose|answers: Seq<(SolarAnswer, SolarAnswer)>|
        answers_for_search(answers, today as int) && (previous, next) == surrounding(
            sort_by_time(#[trigger] collect_boundaries(answer_times(answers))),
            now as int,
        );
    let levels = levels_for_solar_context(
        now,
        sunrise,
        sunset,
        polar_day,
        previous,
        next,
        night_brightness,
        current_intensity,
    );
    proof {
        lemma_answers_fit_search(answers, today as int);
    }
    assert(levels == levels_from_solar_answers(
        now as int,
        sunrise,
        sunset,
        polar_day,
        answer_times(answers),
        night_brightness,
        current_intensity,
    ));
    assert(answers_fit_instant(now as int, sunrise, sunset, answer_times(answers)));
    assert(levels_follow_answers(
        levels,
        now as int,
        today_answers,
        polar_day,
        night_brightness,
        current_intensity,
    ));
    levels
}

/// Law: the transition progress is none up to the start of the window, full from the
/// boundary on, half way at the middle of the window, and never more than full.
pub proof fn lemma_transition_endpoints(now: int, boundary: int)
    ensures
        0 <= spec_transition_progress(now, boundary) <= full_warmth(),
        now <= boundary - WARMTH_TRANSITION_SECONDS ==> spec_transition_progress(now, boundary) == 0,
        now >= boundary ==> spec_transition_progress(now, boundary) == full_warmth(),
        spec_transition_progress(boundary - WARMTH_TRANSITION_SECONDS / 2, boundary)
            == full_warmth() / 2,
{
}

/// Law: the transition progress never decreases as time goes on, and grows by at most
/// one unit per second, so the warmth ramps are continuous.
pub proof fn lemma_transition_monotone(earlier: int, later: int, boundary: int)
    requires
        earlier <= later,
    ensures
        spec_transition_progress(earlier, boundary) <= spec_transition_progress(later, boundary),
        spec_transition_progress(later, boundary) - spec_transition_progress(earlier, boundary)
            <= later - earlier,
{
}

/// Law: while the sun is up the warmth rises over the window before the coming sunset,
/// from none at its start to full at sunset; while it is down the warmth falls over the
/// window before the coming sunrise, from full at its start to none at sunrise.
pub proof fn lemma_warmth_ramps(now: int, next: SolarBoundary)
    ensures
        next.event == SolarEvent::Sunset ==> {
            &&& spec_warmth(now, true, Some(next)) == spec_transition_progress(now, next.time as int)
            &&& spec_warmth(next.time - WARMTH_TRANSITION_SECONDS, true, Some(next)) == 0
            &&& spec_warmth(next.time as int, true, Some(next)) == full_warmth()
        },
        next.event == SolarEvent::Sunrise ==> {
            &&& spec_warmth(now, false, Some(next)) == full_warmth() - spec_transition_progress(now, next.time as int)
            &&& spec_warmth(next.time - WARMTH_TRANSITION_SECONDS, false, Some(next)) == full_warmth()
            &&& spec_warmth(next.time as int, false, Some(next)) == 0
        },
{
}

/// Law: where the sun does not rise today (polar night) the levels are the night
/// brightness at full warmth, and where it does not set (polar day) the current
/// intensity with no warmth, whatever the surrounding boundaries. A day without either
/// event is polar day or polar night as `polar_day` says.
pub proof fn lemma_polar_levels<L>(
    now: int,
    sunrise_today: Option<i64>,
    sunset_today: Option<i64>,
    polar_day: bool,
    previous: Option<SolarBoundary>,
    next: Option<SolarBoundary>,
    night_brightness: L,
    current_intensity: L,
)
    ensures
        ({
            let levels = spec_levels(now, sunrise_today, sunset_today, polar_day, previous, next, night_brightness, current_intensity);
            let night = LightLevels { intensity: night_brightness, warmth: WARMTH_TRANSITION_SECONDS as u32 };
            let day = LightLevels { intensity: current_intensity, warmth: 0u32 };
            &&& sunrise_today is None && sunset_today is Some ==> levels == night
            &&& sunrise_today is Some && sunset_today is None ==> levels == day
            &&& sunrise_today is None && sunset_today is None ==> levels == (if polar_day { day } else { night })
        }),
{
}

/// Law: on an ordinary day the brightness is the current intensity while the sun is up
/// and the night brightness while it is down; the warmth is never full while the sun is
/// up nor none while it is down, provided the next boundary lies after `now`.
pub proof fn lemma_daylight_levels<L>(
    now: int,
    sunrise_today: Option<i64>,
    sunset_today: Option<i64>,
    polar_day: bool,
    previous: Option<SolarBoundary>,
    next: Option<SolarBoundary>,
    night_brightness: L,
    current_intensity: L,
)
    requires
        sunrise_today is Some,
        sunset_today is Some,
        next matches Some(b) ==> b.time > now,
    ensures
        ({
            let levels = spec_levels(now, sunrise_today, sunset_today, polar_day, previous, next, night_brightness, current_intensity);
            &&& levels.intensity == (if is_daytime(previous, next) { current_intensity } else { night_brightness })
            &&& levels.warmth as int == spec_warmth(now, is_daytime(previous, next), next)
            &&& is_daytime(previous, next) ==> levels.warmth < full_warmth()
            &&& !is_daytime(previous, next) ==> levels.warmth > 0
        }),
{
    lemma_warmth_bounds(now, is_daytime(previous, next), next);
}

proof fn lemma_warmth_bounds(now: int, daytime: bool, next: Option<SolarBoundary>)
    requires
        next matches Some(b) ==> b.time > now,
    ensures
        0 <= spec_warmth(now, daytime, next) <= full_warmth(),
        daytime ==> spec_warmth(now, daytime, next) < full_warmth(),
        !daytime ==> spec_warmth(now, daytime, next) > 0,
{
}

/// Law: the boundaries found around `now` come from what the solar computation answered;
/// the previous one is at or before `now` with no answered boundary between it and
/// `now`, the next one is after `now` with no answered boundary between `now` and it.
pub proof fn lemma_surrounding_answers(days: Seq<(Option<i64>, Option<i64>)>, now: int)
    ensures
        ({
            let collected = collect_boundaries(days);
            let found = surrounding(sort_by_time(collected), now);
            &&& found.0 matches Some(p) ==> {
                &&& collected.contains(p)
                &&& p.time <= now
                &&& forall|b: SolarBoundary| #[trigger] collected.contains(b) && b.time <= now ==> b.time <= p.time
            }
            &&& found.0 is None ==> forall|b: SolarBoundary| #[trigger] collected.contains(b) ==> b.time > now
            &&& found.1 matches Some(q) ==> {
                &&& collected.contains(q)
                &&& q.time > now
                &&& forall|b: SolarBoundary| #[trigger] collected.contains(b) && b.time > now ==> q.time <= b.time
            }
            &&& found.1 is None ==> forall|b: SolarBoundary| #[trigger] collected.contains(b) ==> b.time <= now
        }),
{
    broadcast use vstd::seq_lib::group_to_multiset_ensures;

    let collected = collect_boundaries(days);
    let sorted = sort_by_time(collected);
    lemma_sort_by_time(collected);
    lemma_last_at_or_before(sorted, now);
    lemma_first_after(sorted, now);
    assert forall|b: SolarBoundary| #[trigger] collected.contains(b) <==> sorted.contains(b) by {
        assert(collected.to_multiset().count(b) == sorted.to_multiset().count(b));
    }
}

/// Law: whatever the solar computation answered, on a day with a sunrise and a sunset
/// the warmth is never full while the sun is up nor none while it is down.
pub proof fn lemma_answers_daylight_warmth<L>(
    now: int,
    sunrise_today: Option<i64>,
    sunset_today: Option<i64>,
    polar_day: bool,
    days: Seq<(Option<i64>, Option<i64>)>,
    night_brightness: L,
    current_intensity: L,
)
    requires
        sunrise_today is Some,
        sunset_today is Some,
    ensures
        ({
            let found = surrounding(sort_by_time(collect_boundaries(days)), now);
            let levels = levels_from_solar_answers(now, sunrise_today, sunset_today, polar_day, days, night_brightness, current_intensity);
            &&& is_daytime(found.0, found.1) ==> levels.intensity == current_intensity && levels.warmth < full_warmth()
            &&& !is_daytime(found.0, found.1) ==> levels.intensity == night_brightness && levels.warmth > 0
        }),
{
    let found = surrounding(sort_by_time(collect_boundaries(days)), now);
    lemma_surrounding_answers(days, now);
    lemma_daylight_levels(now, sunrise_today, sunset_today, polar_day, found.0, found.1, night_brightness, current_intensity);
}


/// Law: on a day with a sunrise and a sunset, while the latest sunrise or sunset that the
/// solar computation answered for the five dates around today at or before `now` is a
/// sunrise `rise` (every answered sunset at or before `now` is earlier), the sun is up:
/// the levels are the current intensity, with less than full warmth. When, besides, the
/// first answered boundary after `now` is a sunset `set` (no answered boundary after
/// `now` is earlier, and no answered sunrise as early), the warmth is the progress of the
/// evening ramp towards `set`.
pub proof fn lemma_daylight_follows_answers<L>(
    now: int,
    sunrise_today: Option<i64>,
    sunset_today: Option<i64>,
    polar_day: bool,
    answers: Seq<(SolarAnswer, SolarAnswer)>,
    night_brightness: L,
    current_intensity: L,
    rise: SolarBoundary,
    set: Option<SolarBoundary>,
)
    requires
        sunrise_today is Some,
        sunset_today is Some,
        answers_for_search(answers, spec_utc_day(now)),
        rise.event == SolarEvent::Sunrise,
        answered_boundary(answers, rise),
        rise.time <= now,
        forall|b: SolarBoundary|
            #[trigger] answered_boundary(answers, b) && b.event == SolarEvent::Sunset && b.time <= now
                ==> b.time < rise.time,
        set matches Some(s) ==> {
            &&& s.event == SolarEvent::Sunset
            &&& answered_boundary(answers, s)
            &&& s.time > now
            &&& forall|b: SolarBoundary|
                #[trigger] answered_boundary(answers, b) && b.time > now ==> b.time >= s.time && (
                b.event == SolarEvent::Sunrise ==> b.time > s.time)
        },
    ensures
        ({
            let levels = levels_from_solar_answers(
                now,
                sunrise_today,
                sunset_today,
                polar_day,
                answer_times(answers),
                night_brightness,
                current_intensity,
            );
            &&& levels.intensity == current_intensity
            &&& levels.warmth < full_warmth()
            &&& set matches Some(s) ==> levels.warmth == spec_transition_progress(now, s.time as int)
        }),
{
    let center = spec_utc_day(now);
    lemma_surrounding_over_answers(answers, center, now);
    let found = surrounding(sort_by_time(collect_boundaries(answer_times(answers))), now);
    assert(answered_boundary(answers, rise));
    let p = found.0->0;
    assert(found.0 is Some && rise.time <= p.time);
    assert(answered_boundary(answers, p));
    assert(p.event == SolarEvent::Sunrise);
    lemma_daylight_levels(
        now,
        sunrise_today,
        sunset_today,
        polar_day,
        found.0,
        found.1,
        night_brightness,
        current_intensity,
    );
    if set is Some {
        let s = set->0;
        assert(answered_boundary(answers, s));
        let q = found.1->0;
        assert(found.1 is Some && q.time <= s.time);
        assert(answered_boundary(answers, q));
        assert(q.time >= s.time);
        assert(q.event == SolarEvent::Sunset);
    }
}

/// Law: on a day with a sunrise and a sunset, while the latest sunrise or sunset that the
/// solar computation answered for the five dates around today at or before `now` is a
/// sunset `set` (every answered sunrise at or before `now` is earlier), the sun is down:
/// the levels are the night brightness, with some warmth. When, besides, the first
/// answered boundary after `now` is a sunrise `rise` (no answered boundary after `now` is
/// earlier, and no answered sunset as early), the warmth is full less the progress of
/// the morning ramp towards `rise`.
pub proof fn lemma_night_follows_answers<L>(
    now: int,
    sunrise_today: Option<i64>,
    sunset_today: Option<i64>,
    polar_day: bool,
    answers: Seq<(SolarAnswer, SolarAnswer)>,
    night_brightness: L,
    current_intensity: L,
    set: SolarBoundary,
    rise: Option<SolarBoundary>,
)
    requires
        sunrise_today is Some,
        sunset_today is Some,
        answers_for_search(answers, spec_utc_day(now)),
        set.event == SolarEvent::Sunset,
        answered_boundary(answers, set),
        set.time <= now,
        forall|b: SolarBoundary|
            #[trigger] answered_boundary(answers, b) && b.event == SolarEvent::Sunrise && b.time <= now
                ==> b.time < set.time,
        rise matches Some(r) ==> {
            &&& r.event == SolarEvent::Sunrise
            &&& answered_boundary(answers, r)
            &&& r.time > now
            &&& forall|b: SolarBoundary|
                #[trigger] answered_boundary(answers, b) && b.time > now ==> b.time >= r.time && (
                b.event == SolarEvent::Sunset ==> b.time > r.time)
        },
    ensures
        ({
            let levels = levels_from_solar_answers(
                now,
                sunrise_today,
                sunset_today,
                polar_day,
                answer_times(answers),
                night_brightness,
                current_intensity,
            );
            &&& levels.intensity == night_brightness
            &&& levels.warmth > 0
            &&& rise matches Some(r) ==> levels.warmth == full_warmth() - spec_transition_progress(
                now,
                r.time as int,
            )
        }),
{
    let center = spec_utc_day(now);
    lemma_surrounding_over_answers(answers, center, now);
    let found = surrounding(sort_by_time(collect_boundaries(answer_times(answers))), now);
    assert(answered_boundary(answers, set));
    let p = found.0->0;
    assert(found.0 is Some && set.time <= p.time);
    assert(answered_boundary(answers, p));
    assert(p.event == SolarEvent::Sunset);
    lemma_daylight_levels(
        now,
        sunrise_today,
        sunset_today,
        polar_day,
        found.0,
        found.1,
        night_brightness,
        current_intensity,
    );
    if rise is Some {
        let r = rise->0;
        assert(answered_boundary(answers, r));
        let q = found.1->0;
        assert(found.1 is Some && q.time <= r.time);
        assert(answered_boundary(answers, q));
        assert(q.time >= r.time);
        assert(q.event == SolarEvent::Sunrise);
    }
}

} // verus!
