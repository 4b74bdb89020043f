//! Tasks that fire a light command once, every day or every week, and the
//! arithmetic of their next firing.
//!
//! An instant is a number of milliseconds since the Unix epoch, in UTC. A
//! weekday is a number from 1, Monday, to 7, Sunday.

use chrono::{DateTime, Datelike};
use vstd::prelude::*;
use crate::light::LightControl;

verus! {

/// Milliseconds in a day.
pub const DAY_MS: i64 = 86_400_000;

/// Milliseconds in a week.
pub const WEEK_MS: i64 = 604_800_000;

/// The longest a wait loop sleeps before it looks at the clock again.
pub const POLL_CEILING_MS: i64 = 60_000;

/// Why no firing time can be computed.
#[derive(Debug, Clone, Copy, PartialEq, Eq, Structural)]
pub enum TimeError {
    /// An instant or a delay is outside what the calendar or 64 bits hold.
    InvalidTime,
}

/// Midnight of the day that holds instant `t`.
pub open spec fn day_start(t: int) -> int {
    (t / 86_400_000) * 86_400_000
}

/// Milliseconds from midnight to instant `t`.
pub open spec fn time_of_day(t: int) -> int {
    t % 86_400_000
}

/// The weekday of instant `t`; the epoch fell on a Thursday.
pub open spec fn weekday_of(t: int) -> int {
    (t / 86_400_000 + 3) % 7 + 1
}

/// A delay, where 64 bits hold it.
pub open spec fn fitted(d: int) -> Result<i64, TimeError> {
    if i64::MIN <= d <= i64::MAX {
        Ok(d as i64)
    } else {
        Err(TimeError::InvalidTime)
    }
}

/// The delay from `now` to the next daily firing, where `same_day` is the
/// firing time on the day of `now`: a firing time that is not still ahead
/// moves to the next day.
pub open spec fn day_delta(now: int, same_day: int) -> int {
    if same_day > now {
        same_day - now
    } else {
        same_day - now + 86_400_000
    }
}

/// Days from weekday `weekday` to the next weekday `day_of_week`, none if
/// they are the same.
pub open spec fn days_until(day_of_week: int, weekday: int) -> int {
    (day_of_week + 7 - weekday) % 7
}

/// The delay from `now` to the next weekly firing, where `weekday` is the
/// weekday of `now` and `same_day` the firing time on the day of `now`: a
/// firing time that is not still ahead moves to the next week.
pub open spec fn week_delta(day_of_week: int, weekday: int, now: int, same_day: int) -> int {
    let target = same_day + days_until(day_of_week, weekday) * 86_400_000;
    if target > now {
        target - now
    } else {
        target - now + 604_800_000
    }
}

/// What chrono gives as the weekday, counted from Monday as 1, of the UTC
/// date of an instant; `None` where the instant is outside its calendar.
pub uninterp spec fn utc_weekday(now: i64) -> Option<u32>;

/// What chrono gives as the instant on the UTC date of `now` at the UTC
/// time of day of `delay`; `None` where either is outside its calendar.
pub uninterp spec fn utc_with_time(now: i64, delay: i64) -> Option<i64>;

/// `Datelike::weekday` and `Weekday::number_from_monday` of chrono, on the
/// `DateTime<Utc>` that `DateTime::from_timestamp_millis` makes of `now`.
/// Trusted: whenever chrono knows the date, the number is the weekday that
/// follows from the epoch having been a Thursday.
#[verifier::external_body]
fn weekday_number(now: i64) -> (r: Option<u32>)
    ensures
        r == utc_weekday(now),
        r matches Some(w) ==> w == weekday_of(now as int),
{
    let at = DateTime::from_timestamp_millis(now)?;
    Some(at.weekday().number_from_monday())
}

/// `DateTime::with_time` of chrono: the date of `now` with the time of day
/// of `delay`, both taken as `DateTime<Utc>` by
/// `DateTime::from_timestamp_millis`, and given back by
/// `DateTime::timestamp_millis`. Trusted: whenever chrono has a result, it
/// is midnight of the day of `now` plus the time of day of `delay`.
#[verifier::external_body]
fn with_time_of(now: i64, delay: i64) -> (r: Option<i64>)
    ensures
        r == utc_with_time(now, delay),
        r matches Some(t) ==> t == day_start(now as int) + time_of_day(delay as int),
{
    let today = DateTime::from_timestamp_millis(now)?;
    let at = DateTime::from_timestamp_millis(delay)?;
    let target = today.with_time(at.time()).single()?;
    Some(target.timestamp_millis())
}

/// Fires once, at or after `end_time`.
#[derive(Debug, Clone, Copy, PartialEq, Eq, Structural)]
pub struct OnceTask {
    pub end_time: i64,
}

/// Fires every day at the time of day of the instant `delay`.
#[derive(Debug, Clone, Copy, PartialEq, Eq, Structural)]
pub struct DayTask {
    pub delay: i64,
}

/// Fires every week on weekday `day_of_week`, at the time of day of the
/// instant `delay`.
#[derive(Debug, Clone, Copy, PartialEq, Eq, Structural)]
pub struct WeekTask {
    pub day_of_week: u32,
    pub delay: i64,
}

/// When a task fires.
#[derive(Debug, Clone, Copy, PartialEq, Eq, Structural)]
pub enum TimeFrequency {
    Once(OnceTask),
    Day(DayTask),
    Week(WeekTask),
}

/// A light command under a name, with the times at which it fires.
#[derive(Debug, Clone, PartialEq, Eq)]
pub struct TimeTask {
    pub name: String,
    pub operation: LightControl,
    pub frequency: TimeFrequency,
}

/// The delay to the next firing of a task, as seen from a given instant.
pub trait GetDelta {
    /// The delay from `now` to the next firing as the calendar has it,
    /// whatever size it has.
    spec fn calendar_delta(&self, now: i64) -> int;

    /// The delay from `now` to the next firing, or why there is none.
    spec fn delta(&self, now: i64) -> Result<i64, TimeError>;

    /// The delay from `now` to the next firing. Where there is one, it is
    /// the delay that the calendar has.
    fn get_delta(&self, now: i64) -> (r: Result<i64, TimeError>)
        ensures
            r == self.delta(now),
            r matches Ok(d) ==> d == self.calendar_delta(now),
    ;
}

/// Narrows a delay to 64 bits.
fn fit(d: i128) -> (r: Result<i64, TimeError>)
    ensures
        r == fitted(d as int),
{
    if d < -9_223_372_036_854_775_808i128 || d > 9_223_372_036_854_775_807i128 {
        Err(TimeError::InvalidTime)
    } else {
        Ok(d as i64)
    }
}

impl GetDelta for OnceTask {
    open spec fn calendar_delta(&self, now: i64) -> int {
        self.end_time - now
    }

    open spec fn delta(&self, now: i64) -> Result<i64, TimeError> {
        fitted(self.end_time - now)
    }

    /// The time left until `end_time`; zero or less once it has come.
    fn get_delta(&self, now: i64) -> (r: Result<i64, TimeError>) {
        fit(self.end_time as i128 - now as i128)
    }
}

impl DayTask {
    /// The delay for a given answer of the calendar: none, no delay.
    pub open spec fn delta_given(now: i64, same_day: Option<i64>) -> Result<i64, TimeError> {
        match same_day {
            Some(t) => fitted(day_delta(now as int, t as int)),
            None => Err(TimeError::InvalidTime),
        }
    }

    /// The delay from `now` to the next firing, where `same_day` is the
    /// firing time on the day of `now` as the calendar gave it.
    pub fn delta_from(now: i64, same_day: Option<i64>) -> (r: Result<i64, TimeError>)
        ensures
            r == Self::delta_given(now, same_day),
    {
        match same_day {
            Some(t) => {
                let ahead: i128 = t as i128 - now as i128;
                if t > now {
                    fit(ahead)
                } else {
                    fit(ahead + DAY_MS as i128)
                }
            },
            None => Err(TimeError::InvalidTime),
        }
    }
}

impl GetDelta for DayTask {
    open spec fn calendar_delta(&self, now: i64) -> int {
        day_delta(now as int, day_start(now as int) + time_of_day(self.delay as int))
    }

    open spec fn delta(&self, now: i64) -> Result<i64, TimeError> {
        Self::delta_given(now, utc_with_time(now, self.delay))
    }

    /// The time left until the next firing: today's, or tomorrow's where
    /// today's is not still ahead.
    fn get_delta(&self, now: i64) -> (r: Result<i64, TimeError>) {
        Self::delta_from(now, with_time_of(now, self.delay))
    }
}

impl WeekTask {
    /// The delay for given answers of the calendar: without both, or with
    /// a weekday that is none, no delay.
    pub open spec fn delta_given(
        day_of_week: u32,
        now: i64,
        weekday: Option<u32>,
        same_day: Option<i64>,
    ) -> Result<i64, TimeError> {
        match (weekday, same_day) {
            (Some(w), Some(t)) => if 1 <= w <= 7 {
                fitted(week_delta(day_of_week as int, w as int, now as int, t as int))
            } else {
                Err(TimeError::InvalidTime)
            },
            _ => Err(TimeError::InvalidTime),
        }
    }

    /// The delay from `now` to the next firing on `day_of_week`, where
    /// `weekday` is the weekday of `now` and `same_day` the firing time on
    /// the day of `now`, as the calendar gave them.
    pub fn delta_from(
        day_of_week: u32,
        now: i64,
        weekday: Option<u32>,
        same_day: Option<i64>,
    ) -> (r: Result<i64, TimeError>)
        ensures
            r == Self::delta_given(day_of_week, now, weekday, same_day),
    {
        match (weekday, same_day) {
            (Some(w), Some(t)) => {
                if w < 1 || w > 7 {
                    return Err(TimeError::InvalidTime);
                }
                let days: u64 = (day_of_week as u64 + 7 - w as u64) % 7;
                let target: i128 = t as i128 + days as i128 * DAY_MS as i128;
                if target > now as i128 {
                    fit(target - now as i128)
                } else {
                    fit(target - now as i128 + WEEK_MS as i128)
                }
            },
            _ => Err(TimeError::InvalidTime),
        }
    }
}

impl GetDelta for WeekTask {
    open spec fn calendar_delta(&self, now: i64) -> int {
        week_delta(
            self.day_of_week as int,
            weekday_of(now as int),
            now as int,
            day_start(now as int) + time_of_day(self.delay as int),
        )
    }

    open spec fn delta(&self, now: i64) -> Result<i64, TimeError> {
        Self::delta_given(
            self.day_of_week,
            now,
            utc_weekday(now),
            utc_with_time(now, self.delay),
        )
    }

    /// The time left until the next firing: this week's, or next week's
    /// where this week's is not still ahead.
    fn get_delta(&self, now: i64) -> (r: Result<i64, TimeError>) {
        let weekday = weekday_number(now);
        let same_day = with_time_of(now, self.delay);
        Self::delta_from(self.day_of_week, now, weekday, same_day)
    }
}

impl GetDelta for TimeFrequency {
    open spec fn calendar_delta(&self, now: i64) -> int {
        match self {
            TimeFrequency::Once(task) => task.calendar_delta(now),
            TimeFrequency::Day(task) => task.calendar_delta(now),
            TimeFrequency::Week(task) => task.calendar_delta(now),
        }
    }

    open spec fn delta(&self, now: i64) -> Result<i64, TimeError> {
        match self {
            TimeFrequency::Once(task) => task.delta(now),
            TimeFrequency::Day(task) => task.delta(now),
            TimeFrequency::Week(task) => task.delta(now),
        }
    }

    fn get_delta(&self, now: i64) -> (r: Result<i64, TimeError>) {
        match self {
            TimeFrequency::Once(task) => task.get_delta(now),
            TimeFrequency::Day(task) => task.get_delta(now),
            TimeFrequency::Week(task) => task.get_delta(now),
        }
    }
}

/// A daily task fires next at its time of day, strictly after `now` and no
/// later than a day from `now`: today where that time is still ahead, and
/// tomorrow, not today, where it has passed or is just now.
pub proof fn lemma_day_rolls_over(now: int, delay: int)
    ensures
        ({
            let same_day = day_start(now) + time_of_day(delay);
            let next = now + day_delta(now, same_day);
            &&& now < next <= now + 86_400_000
            &&& time_of_day(next) == time_of_day(delay)
            &&& time_of_day(delay) > time_of_day(now) ==> next == same_day
            &&& time_of_day(delay) <= time_of_day(now) ==> next == same_day + 86_400_000
                && day_start(next) == day_start(now) + 86_400_000
        }),
{
}

/// An instant that lies `t` milliseconds into day `m` has that day and that
/// time of day.
proof fn lemma_instant_of_day(m: int, t: int)
    requires
        0 <= t < 86_400_000,
    ensures
        (m * 86_400_000 + t) / 86_400_000 == m,
        (m * 86_400_000 + t) % 86_400_000 == t,
{
}

/// Going on from weekday `weekday` by the days until `day_of_week` arrives
/// at `day_of_week`.
proof fn lemma_days_until_arrives(day_of_week: int, day: int)
    requires
        1 <= day_of_week <= 7,
    ensures
        0 <= days_until(day_of_week, (day + 3) % 7 + 1) <= 6,
        (day + days_until(day_of_week, (day + 3) % 7 + 1) + 3) % 7 + 1 == day_of_week,
        (day + days_until(day_of_week, (day + 3) % 7 + 1) + 7 + 3) % 7 + 1 == day_of_week,
        day_of_week == (day + 3) % 7 + 1 ==> days_until(day_of_week, (day + 3) % 7 + 1) == 0,
{
    let a = (day + 3) % 7;
    let b = (day + 3) / 7;
    assert(day + 3 == 7 * b + a);
    let k = days_until(day_of_week, a + 1);
    assert(k == (day_of_week + 6 - a) % 7);
    if day_of_week - 1 >= a {
        assert(k == day_of_week - 1 - a);
        assert(day + k + 3 == 7 * b + (day_of_week - 1));
    } else {
        assert(k == day_of_week - 1 - a + 7);
        assert(day + k + 3 == 7 * (b + 1) + (day_of_week - 1));
    }
}

/// A weekly task fires next on its weekday at its time of day, strictly
/// after `now` and no later than a week from `now`; where that is the day
/// of `now` and the time has passed or is just now, a week later.
pub proof fn lemma_week_rolls_over(day_of_week: int, now: int, delay: int)
    requires
        1 <= day_of_week <= 7,
    ensures
        ({
            let same_day = day_start(now) + time_of_day(delay);
            let next = now + week_delta(day_of_week, weekday_of(now), now, same_day);
            &&& now < next <= now + 604_800_000
            &&& time_of_day(next) == time_of_day(delay)
            &&& weekday_of(next) == day_of_week
            &&& day_of_week == weekday_of(now) && time_of_day(delay) <= time_of_day(now) ==> next
                == same_day + 604_800_000
        }),
{
    let day = now / 86_400_000;
    let t = time_of_day(delay);
    let k = days_until(day_of_week, weekday_of(now));
    let same_day = day_start(now) + t;
    let target = same_day + k * 86_400_000;
    let next = now + week_delta(day_of_week, weekday_of(now), now, same_day);
    lemma_days_until_arrives(day_of_week, day);
    assert(target == (day + k) * 86_400_000 + t);
    if target > now {
        assert(next == (day + k) * 86_400_000 + t);
        lemma_instant_of_day(day + k, t);
    } else {
        assert(next == (day + k + 7) * 86_400_000 + t);
        lemma_instant_of_day(day + k + 7, t);
    }
}

/// What a wait loop does next.
#[derive(Debug, Clone, Copy, PartialEq, Eq, Structural)]
pub enum WaitStep {
    /// Sleep this long, then look at the clock again.
    Sleep { millis: u64 },
    /// The task is due: deliver its command.
    Fire,
}

/// The step of a wait loop whose task fires next at `next_fire`, as seen at
/// `now`.
pub open spec fn step_at(next_fire: i64, now: i64) -> WaitStep {
    if next_fire <= now {
        WaitStep::Fire
    } else if next_fire - now < 60_000 {
        WaitStep::Sleep { millis: (next_fire - now) as u64 }
    } else {
        WaitStep::Sleep { millis: 60_000 }
    }
}

/// One turn of a wait loop: a task is due once its firing time has come;
/// until then the loop sleeps for the time that is left, and never longer
/// than the ceiling, so that a clock that was set meanwhile is noticed.
pub fn wait_step(next_fire: i64, now: i64) -> (step: WaitStep)
    ensures
        step == step_at(next_fire, now),
        step matches WaitStep::Sleep { millis } ==> 0 < millis <= POLL_CEILING_MS && millis
            <= next_fire - now,
        step is Fire <==> next_fire <= now,
{
    if next_fire <= now {
        WaitStep::Fire
    } else {
        let left: i128 = next_fire as i128 - now as i128;
        if left < POLL_CEILING_MS as i128 {
            WaitStep::Sleep { millis: left as u64 }
        } else {
            WaitStep::Sleep { millis: 60_000 }
        }
    }
}

impl TimeFrequency {
    /// The instant of the next firing, as seen from `now`.
    pub open spec fn fire_time(&self, now: i64) -> Result<i64, TimeError> {
        match self.delta(now) {
            Ok(d) => fitted(now + d),
            Err(e) => Err(e),
        }
    }

    /// The instant at which a wait loop started at `now` fires first:
    /// `now` plus the delay that the calendar has.
    pub fn next_fire_time(&self, now: i64) -> (r: Result<i64, TimeError>)
        ensures
            r == self.fire_time(now),
            r matches Ok(t) ==> t == now + self.calendar_delta(now),
    {
        match self.get_delta(now) {
            Ok(d) => fit(now as i128 + d as i128),
            Err(e) => Err(e),
        }
    }

    /// What a wait loop does after its task fired at `now`: a task that
    /// fires once is over; a recurring one waits for its next occurrence.
    pub fn after_fire(&self, now: i64) -> (r: Result<Option<i64>, TimeError>)
        ensures
            r == match *self {
                TimeFrequency::Once(_) => Ok::<Option<i64>, TimeError>(None),
                _ => match self.fire_time(now) {
                    Ok(t) => Ok(Some(t)),
                    Err(e) => Err(e),
                },
            },
            r matches Ok(Some(t)) ==> t == now + self.calendar_delta(now) && t > now,
    {
        match self {
            TimeFrequency::Once(_) => Ok(None),
            _ => match self.next_fire_time(now) {
                Ok(t) => Ok(Some(t)),
                Err(e) => Err(e),
            },
        }
    }
}

impl TimeTask {
    /// An equal task that owns its own name.
    pub fn duplicate(&self) -> (copy: TimeTask)
        ensures
            copy == *self,
    {
        TimeTask {
            name: self.name.clone(),
            operation: self.operation,
            frequency: self.frequency,
        }
    }
}

} // verus!
