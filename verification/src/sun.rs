//! The solar computation of the `sunrise` crate, and the answers it gives. An answer can
//! only be had by asking: its fields are private to this module, so every answer that the
//! rest of the library holds records the date and the event that the `sunrise` crate was
//! asked about.
use vstd::prelude::*;

use crate::solar::{solar_day_supported, within_event_window, SolarEvent};

verus! {

/// What the `sunrise` crate answered when asked when `event` happens on the UTC date `day`
/// (days since 1970-01-01): the instant as a Unix timestamp, or `None` if the event does
/// not happen that day.
pub struct SolarAnswer {
    day: i64,
    event: SolarEvent,
    time: Option<i64>,
}

impl SolarAnswer {
    /// The date that was asked about.
    pub closed spec fn answered_day(self) -> int {
        self.day as int
    }

    /// The event that was asked about.
    pub closed spec fn answered_event(self) -> SolarEvent {
        self.event
    }

    /// When the event happens, if it does.
    pub closed spec fn answered_time(self) -> Option<i64> {
        self.time
    }

    /// When the event happens, if it does.
    pub fn time(&self) -> (time: Option<i64>)
        ensures
            time == self.answered_time(),
    {
        self.time
    }
}

#[verifier::external_type_specification]
#[verifier::external_body]
pub struct ExCoordinates(sunrise::Coordinates);

/// Asks the `sunrise` crate when `event` happens on the UTC date `day` (days since
/// 1970-01-01) at `coordinates`: `sunrise::SolarDay::new(coordinates, date).event_time(event)`,
/// with the date built by `chrono::NaiveDate::from_epoch_days` and the instant returned as
/// its Unix timestamp (`DateTime::timestamp`).
///
/// `None` means the event does not happen that day (polar day or night). The contract
/// states that an instant lies in the date's solar window: `SolarDay::new` starts from the
/// date's noon moved by the longitude (at most half a day), `solar_transit` adds at most
/// 0.0053 + 0.0069 day, and `event_time` adds the hour angle, an `acos` in [0, pi] with
/// the sign -1 for a sunrise and +1 for a sunset (`hour_angle`), over 2 pi: at most half a
/// day, before the transit for a sunrise and after it for a sunset. It states nothing
/// more of the instant: `sunrise`
/// computes it in floating point from the latitude and longitude, which this library can
/// only carry as an opaque value, with platform-dependent `sin`, `cos` and `acos`.
/// `event_time` builds its result with `DateTime::from_timestamp(t, 0).expect(..)`, which
/// panics outside chrono's range; `requires` keeps the date's whole solar window inside it.
///
/// The answer records the date and the event it was asked for.
#[verifier::external_body]
pub fn solar_event_time(coordinates: &sunrise::Coordinates, day: i64, event: SolarEvent) -> (answer:
    SolarAnswer)
    requires
        solar_day_supported(day as int),
    ensures
        answer.answered_day() == day,
        answer.answered_event() == event,
        within_event_window(answer.answered_time(), day as int, event),
{
    let asked = match event {
        SolarEvent::Sunrise => sunrise::SolarEvent::Sunrise,
        SolarEvent::Sunset => sunrise::SolarEvent::Sunset,
    };
    let time = match chrono::NaiveDate::from_epoch_days(day as i32) {
        Some(date) => match sunrise::SolarDay::new(*coordinates, date).event_time(asked) {
            Some(time) => Some(time.timestamp()),
            None => None,
        },
        None => None,
    };
    SolarAnswer { day, event, time }
}


} // verus!
