use chrono::{DateTime, Datelike, FixedOffset, NaiveDate, TimeDelta, TimeZone, Utc};
use frontlight_auto::frontlight::{compute_auto_frontlight_levels, WARMTH_TRANSITION_SECONDS};
use frontlight_auto::solar::{
    solar_boundaries, utc_day, SolarEvent, SOLAR_WINDOW_AFTER, SOLAR_WINDOW_BEFORE,
    SUNRISE_LATEST, SUNSET_EARLIEST,
};

struct Levels {
    intensity: f32,
    warmth: f32,
}

/// Whether the sun stays up at `latitude` on `date` should it neither rise nor set: the
/// latitude's hemisphere has summer, by the sign of the approximate solar declination.
fn sun_stays_up_when_polar(latitude: f64, date: NaiveDate) -> bool {
    let day_of_year = date.ordinal0() as f64;
    let declination = -(std::f64::consts::TAU * (day_of_year + 10.0) / 365.2422).cos();
    (latitude >= 0.0) == (declination >= 0.0)
}

/// Runs the library on an instant given in any time zone and turns its warmth into a
/// percentage, as the frontlight does.
fn compute<Tz: TimeZone>(
    now: DateTime<Tz>,
    coordinates: sunrise::Coordinates,
    night_brightness: f32,
    current_intensity: f32,
) -> Levels {
    let polar_day = sun_stays_up_when_polar(
        coordinates.lat(),
        now.with_timezone(&Utc).date_naive(),
    );
    let levels = compute_auto_frontlight_levels(
        now.timestamp(),
        &coordinates,
        polar_day,
        night_brightness,
        current_intensity,
    );
    Levels {
        intensity: levels.intensity,
        warmth: levels.warmth as f32 / WARMTH_TRANSITION_SECONDS as f32 * 100.0,
    }
}

fn test_timezone() -> FixedOffset {
    FixedOffset::east_opt(60 * 60).unwrap()
}

fn wrapped_test_timezone() -> FixedOffset {
    FixedOffset::west_opt(4 * 60 * 60).unwrap()
}

fn london() -> sunrise::Coordinates {
    sunrise::Coordinates::new(51.5074, -0.1278).unwrap()
}

fn tromso() -> sunrise::Coordinates {
    sunrise::Coordinates::new(69.6492, 18.9553).unwrap()
}

fn make_dt(date: &str, time: &str) -> DateTime<FixedOffset> {
    let naive =
        chrono::NaiveDateTime::parse_from_str(&format!("{date} {time}"), "%Y-%m-%d %H:%M:%S")
            .unwrap();
    test_timezone()
        .from_local_datetime(&naive)
        .single()
        .unwrap()
}

fn solar_event(
    date: NaiveDate,
    coords: sunrise::Coordinates,
    event: sunrise::SolarEvent,
    timezone: FixedOffset,
) -> DateTime<FixedOffset> {
    sunrise::SolarDay::new(coords, date)
        .event_time(event)
        .expect("test location must have the solar event")
        .with_timezone(&timezone)
}

fn sunrise_at(
    date: NaiveDate,
    coords: sunrise::Coordinates,
    timezone: FixedOffset,
) -> DateTime<FixedOffset> {
    solar_event(date, coords, sunrise::SolarEvent::Sunrise, timezone)
}

fn sunset_at(
    date: NaiveDate,
    coords: sunrise::Coordinates,
    timezone: FixedOffset,
) -> DateTime<FixedOffset> {
    solar_event(date, coords, sunrise::SolarEvent::Sunset, timezone)
}

fn midpoint(start: DateTime<FixedOffset>, end: DateTime<FixedOffset>) -> DateTime<FixedOffset> {
    start + (end - start) / 2
}

fn summer_solstice() -> NaiveDate {
    NaiveDate::from_ymd_opt(2025, 6, 21).unwrap()
}

fn levels_at<Tz: TimeZone>(now: DateTime<Tz>, coordinates: sunrise::Coordinates) -> Levels {
    compute(now, coordinates, 10.0, 50.0)
}

#[test]
fn night_brightness_is_applied_when_sun_is_down() {
    let sunset = sunset_at(summer_solstice(), london(), test_timezone());
    let sunrise = sunrise_at(
        summer_solstice().succ_opt().unwrap(),
        london(),
        test_timezone(),
    );
    let nighttime = midpoint(sunset, sunrise);
    let levels = levels_at(nighttime, london());
    assert_eq!(
        levels.intensity, 10.0,
        "night brightness should be night_brightness"
    );
}

#[test]
fn day_brightness_preserves_current_intensity() {
    let sunrise = sunrise_at(summer_solstice(), london(), test_timezone());
    let sunset = sunset_at(summer_solstice(), london(), test_timezone());
    let daytime = midpoint(sunrise, sunset);
    let levels = levels_at(daytime, london());
    assert_eq!(
        levels.intensity, 50.0,
        "day brightness should be current_intensity"
    );
}

#[test]
fn wrapped_solar_day_uses_daytime_levels() {
    let timezone = wrapped_test_timezone();
    let sunrise = sunrise_at(summer_solstice(), london(), timezone);
    let sunset = sunset_at(summer_solstice(), london(), timezone);
    assert!(
        sunrise.time() > sunset.time(),
        "test setup must produce a wrapped solar day"
    );

    let daytime = midpoint(sunrise, sunset);
    let levels = levels_at(daytime, london());

    assert_eq!(levels.intensity, 50.0);
    assert!(levels.warmth < 1.0);
}

#[test]
fn warmth_is_zero_at_sunrise() {
    let sunrise = sunrise_at(summer_solstice(), london(), test_timezone());
    let levels = levels_at(sunrise, london());
    assert!(
        levels.warmth < 1.0,
        "at sunrise warmth should be ~0, got {}",
        levels.warmth
    );
}

#[test]
fn warmth_is_one_hundred_at_sunset() {
    let sunset = sunset_at(summer_solstice(), london(), test_timezone());
    let levels = levels_at(sunset, london());
    assert!(
        (levels.warmth - 100.0).abs() < 1.0,
        "at sunset warmth should be ~100, got {}",
        levels.warmth
    );
}

#[test]
fn warmth_is_zero_during_middle_of_day() {
    let sunrise = sunrise_at(summer_solstice(), london(), test_timezone());
    let sunset = sunset_at(summer_solstice(), london(), test_timezone());
    let daytime = midpoint(sunrise, sunset);
    let levels = levels_at(daytime, london());
    assert!(
        levels.warmth < 1.0,
        "midday warmth should be ~0, got {}",
        levels.warmth
    );
}

#[test]
fn warmth_is_one_hundred_during_middle_of_night() {
    let sunset = sunset_at(summer_solstice(), london(), test_timezone());
    let sunrise = sunrise_at(
        summer_solstice().succ_opt().unwrap(),
        london(),
        test_timezone(),
    );
    let nighttime = midpoint(sunset, sunrise);
    let levels = levels_at(nighttime, london());
    assert!(
        (levels.warmth - 100.0).abs() < 1.0,
        "midnight warmth should be ~100, got {}",
        levels.warmth
    );
}

#[test]
fn warmth_ramps_from_zero_to_one_hundred_in_evening_transition() {
    let sunset = sunset_at(summer_solstice(), london(), test_timezone());
    let transition = TimeDelta::minutes(90);

    let t = sunset - transition;
    let levels = levels_at(t, london());
    assert!(
        levels.warmth < 2.0,
        "evening ramp start: warmth should be ~0, got {}",
        levels.warmth
    );

    let t = sunset - transition / 2;
    let levels = levels_at(t, london());
    assert!(
        (levels.warmth - 50.0).abs() < 6.0,
        "evening ramp midpoint: warmth should be ~50, got {}",
        levels.warmth
    );
}

#[test]
fn warmth_ramps_from_one_hundred_to_zero_in_morning_transition() {
    let sunrise = sunrise_at(summer_solstice(), london(), test_timezone());
    let transition = TimeDelta::minutes(90);

    let t = sunrise - transition;
    let levels = levels_at(t, london());
    assert!(
        (levels.warmth - 100.0).abs() < 2.0,
        "morning ramp start: warmth should be ~100, got {}",
        levels.warmth
    );

    let t = sunrise - transition / 2;
    let levels = levels_at(t, london());
    assert!(
        (levels.warmth - 50.0).abs() < 6.0,
        "morning ramp midpoint: warmth should be ~50, got {}",
        levels.warmth
    );
}

#[test]
fn evening_brightness_is_night_level() {
    let sunset = sunset_at(summer_solstice(), london(), test_timezone());
    let t = sunset + TimeDelta::minutes(30);
    let levels = levels_at(t, london());
    assert_eq!(
        levels.intensity, 10.0,
        "post-sunset brightness should be night_brightness"
    );
}

#[test]
fn morning_brightness_is_night_level_before_sunrise() {
    let sunrise = sunrise_at(summer_solstice(), london(), test_timezone());
    let t = sunrise - TimeDelta::minutes(120);
    let levels = levels_at(t, london());
    assert_eq!(
        levels.intensity, 10.0,
        "pre-sunrise brightness should be night_brightness"
    );
}

#[test]
fn same_instant_produces_same_levels_in_different_timezones() {
    let sunrise = sunrise_at(summer_solstice(), london(), test_timezone());
    let sunset = sunset_at(summer_solstice(), london(), test_timezone());
    let now = midpoint(sunrise, sunset);

    let local_levels = levels_at(now, london());
    let shifted_levels = levels_at(now.with_timezone(&wrapped_test_timezone()), london());

    assert_eq!(local_levels.intensity, shifted_levels.intensity);
    assert_eq!(local_levels.warmth, shifted_levels.warmth);
}

#[test]
fn warmth_stays_continuous_across_midnight_when_morning_ramp_wraps() {
    let coordinates = tromso();
    let before_midnight = make_dt("2025-05-15", "23:59:00");
    let after_midnight = make_dt("2025-05-16", "00:00:00");

    let before_levels = levels_at(before_midnight, coordinates);
    let after_levels = levels_at(after_midnight, coordinates);

    assert!(
        (f32::from(before_levels.warmth) - f32::from(after_levels.warmth)).abs() < 4.0,
        "warmth should stay continuous across midnight, got {} then {}",
        before_levels.warmth,
        after_levels.warmth
    );
}

#[test]
fn polar_night_uses_night_brightness_at_full_warmth() {
    let midwinter = make_dt("2025-12-21", "12:00:00");
    let levels = levels_at(midwinter, tromso());
    assert_eq!(levels.intensity, 10.0);
    assert_eq!(levels.warmth, 100.0);
}

#[test]
fn polar_day_uses_current_intensity_without_warmth() {
    // In polar day `sunrise` answers neither a sunrise nor a sunset.
    let midsummer = make_dt("2025-06-21", "13:00:00");
    let date = midsummer.with_timezone(&Utc).date_naive();
    let day = sunrise::SolarDay::new(tromso(), date);
    assert!(day.event_time(sunrise::SolarEvent::Sunrise).is_none());
    assert!(day.event_time(sunrise::SolarEvent::Sunset).is_none());
    let levels = levels_at(midsummer, tromso());
    assert_eq!(levels.intensity, 50.0);
    assert_eq!(levels.warmth, 0.0);
}

#[test]
fn southern_winter_solstice_is_polar_night() {
    let antarctic = sunrise::Coordinates::new(-75.0, 0.0).unwrap();
    let levels = levels_at(make_dt("2025-06-21", "13:00:00"), antarctic);
    assert_eq!(levels.intensity, 10.0);
    assert_eq!(levels.warmth, 100.0);
    let levels = levels_at(make_dt("2025-12-21", "13:00:00"), antarctic);
    assert_eq!(levels.intensity, 50.0);
    assert_eq!(levels.warmth, 0.0);
}

#[test]
fn warmth_is_exact_at_evening_ramp_points() {
    let sunset = sunset_at(summer_solstice(), london(), test_timezone());
    let start = levels_at(sunset - TimeDelta::minutes(90), london());
    assert_eq!(start.warmth, 0.0);
    assert_eq!(start.intensity, 50.0);
    let middle = levels_at(sunset - TimeDelta::minutes(45), london());
    assert_eq!(middle.warmth, 50.0);
    let last_second = levels_at(sunset - TimeDelta::seconds(1), london());
    assert_eq!(last_second.intensity, 50.0);
    assert!(last_second.warmth < 100.0);
    let at_sunset = levels_at(sunset, london());
    assert_eq!(at_sunset.intensity, 10.0);
    assert_eq!(at_sunset.warmth, 100.0);
}

#[test]
fn warmth_is_exact_at_morning_ramp_points() {
    let sunrise = sunrise_at(summer_solstice(), london(), test_timezone());
    let start = levels_at(sunrise - TimeDelta::minutes(90), london());
    assert_eq!(start.warmth, 100.0);
    assert_eq!(start.intensity, 10.0);
    let middle = levels_at(sunrise - TimeDelta::minutes(45), london());
    assert_eq!(middle.warmth, 50.0);
    let at_sunrise = levels_at(sunrise, london());
    assert_eq!(at_sunrise.intensity, 50.0);
    assert_eq!(at_sunrise.warmth, 0.0);
}

#[test]
fn sub_second_part_of_now_does_not_matter() {
    let sunset = sunset_at(summer_solstice(), london(), test_timezone());
    let a = levels_at(sunset - TimeDelta::seconds(1), london());
    let b = levels_at(sunset - TimeDelta::milliseconds(1), london());
    assert_eq!(a.intensity, b.intensity);
    assert_eq!(a.warmth, b.warmth);
}

#[test]
fn collected_boundaries_lie_in_their_event_windows() {
    for coordinates in [london(), tromso(), sunrise::Coordinates::new(-33.9, 151.2).unwrap()] {
        let center = utc_day(make_dt("2025-03-01", "12:00:00").timestamp());
        let boundaries = solar_boundaries(&coordinates, center);
        assert!(!boundaries.is_empty());
        assert!(boundaries.windows(2).all(|pair| pair[0].time <= pair[1].time));
        for boundary in &boundaries {
            let fits = (center - 2..=center + 2).any(|day| {
                let start = day * 86400;
                let in_window =
                    start - SOLAR_WINDOW_BEFORE <= boundary.time && boundary.time <= start + SOLAR_WINDOW_AFTER;
                in_window
                    && match boundary.event {
                        SolarEvent::Sunrise => boundary.time <= start + SUNRISE_LATEST,
                        SolarEvent::Sunset => start - SUNSET_EARLIEST <= boundary.time,
                    }
            });
            assert!(fits);
        }
    }
}
