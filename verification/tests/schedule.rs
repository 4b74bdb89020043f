use chrono::{DateTime, Datelike, Utc};
use smart_brite::store::time_task::{
    wait_step, DayTask, GetDelta, OnceTask, TimeError, TimeFrequency, WaitStep, WeekTask, DAY_MS,
    POLL_CEILING_MS, WEEK_MS,
};

const HOUR: i64 = 3_600_000;
/// 2024-01-10T12:00:00Z, a Wednesday.
const NOON: i64 = 1_704_888_000_000;

fn utc(millis: i64) -> DateTime<Utc> {
    DateTime::from_timestamp_millis(millis).unwrap()
}

#[test]
fn the_reference_instant_is_a_wednesday_noon() {
    assert_eq!(utc(NOON).to_rfc3339(), "2024-01-10T12:00:00+00:00");
    assert_eq!(utc(NOON).weekday().number_from_monday(), 3);
}

#[test]
fn once_waits_until_its_end_time() {
    let task = OnceTask { end_time: NOON + 90_000 };
    assert_eq!(task.get_delta(NOON), Ok(90_000));
    assert_eq!(task.get_delta(NOON + 90_000), Ok(0));
    assert_eq!(task.get_delta(NOON + 100_000), Ok(-10_000));
}

#[test]
fn once_delay_outside_64_bits_is_an_error() {
    let task = OnceTask { end_time: i64::MAX };
    assert_eq!(task.get_delta(-1), Err(TimeError::InvalidTime));
    assert_eq!(task.get_delta(0), Ok(i64::MAX));
    let task = OnceTask { end_time: i64::MIN };
    assert_eq!(task.get_delta(1), Err(TimeError::InvalidTime));
}

#[test]
fn day_task_later_today_fires_today() {
    let task = DayTask { delay: 18 * HOUR };
    assert_eq!(task.get_delta(NOON), Ok(6 * HOUR));
    assert_eq!(utc(NOON + 6 * HOUR).to_rfc3339(), "2024-01-10T18:00:00+00:00");
}

#[test]
fn day_task_that_has_passed_rolls_to_tomorrow() {
    let task = DayTask { delay: 8 * HOUR };
    assert_eq!(task.get_delta(NOON), Ok(20 * HOUR));
    assert_eq!(utc(NOON + 20 * HOUR).to_rfc3339(), "2024-01-11T08:00:00+00:00");
}

#[test]
fn day_task_that_is_due_just_now_rolls_to_tomorrow() {
    let task = DayTask { delay: 12 * HOUR };
    assert_eq!(task.get_delta(NOON), Ok(DAY_MS));
    assert_eq!(task.get_delta(NOON - 1), Ok(1));
    assert_eq!(task.get_delta(NOON + 1), Ok(DAY_MS - 1));
}

#[test]
fn day_task_reads_only_the_time_of_day_of_its_delay() {
    let a = DayTask { delay: 8 * HOUR + 30 };
    let b = DayTask { delay: NOON - 4 * HOUR + 30 + 55 * DAY_MS };
    assert_eq!(a.get_delta(NOON), b.get_delta(NOON));
    assert_eq!(a.get_delta(NOON), Ok(20 * HOUR + 30));
}

#[test]
fn day_task_before_the_epoch() {
    let task = DayTask { delay: -HOUR };
    let now = -DAY_MS - 2 * HOUR;
    assert_eq!(utc(now).to_rfc3339(), "1969-12-30T22:00:00+00:00");
    assert_eq!(task.get_delta(now), Ok(HOUR));
}

#[test]
fn day_task_follows_the_calendar() {
    let mut now = NOON - 3 * DAY_MS;
    let task = DayTask { delay: 7 * HOUR + 15 * 60_000 };
    for _ in 0..200 {
        let delta = task.get_delta(now).unwrap();
        assert!(delta > 0 && delta <= DAY_MS);
        let fire = utc(now + delta);
        assert_eq!(fire.format("%H:%M:%S%.3f").to_string(), "07:15:00.000");
        now += 7 * HOUR + 1_234_567;
    }
}

#[test]
fn day_task_outside_the_calendar_is_an_error() {
    let task = DayTask { delay: 0 };
    assert_eq!(task.get_delta(i64::MAX), Err(TimeError::InvalidTime));
    assert_eq!(task.get_delta(i64::MIN), Err(TimeError::InvalidTime));
    let task = DayTask { delay: i64::MAX };
    assert_eq!(task.get_delta(NOON), Err(TimeError::InvalidTime));
}

#[test]
fn day_delay_from_a_given_target() {
    assert_eq!(DayTask::delta_from(1000, Some(1500)), Ok(500));
    assert_eq!(DayTask::delta_from(1000, Some(1000)), Ok(DAY_MS));
    assert_eq!(DayTask::delta_from(1000, Some(500)), Ok(DAY_MS - 500));
    assert_eq!(DayTask::delta_from(1000, None), Err(TimeError::InvalidTime));
    assert_eq!(DayTask::delta_from(i64::MIN, Some(i64::MAX)), Err(TimeError::InvalidTime));
}

#[test]
fn week_task_later_this_week() {
    let task = WeekTask { day_of_week: 5, delay: 8 * HOUR };
    assert_eq!(task.get_delta(NOON), Ok(2 * DAY_MS - 4 * HOUR));
    assert_eq!(utc(NOON + 2 * DAY_MS - 4 * HOUR).to_rfc3339(), "2024-01-12T08:00:00+00:00");
}

#[test]
fn week_task_earlier_in_the_week_fires_next_week() {
    let task = WeekTask { day_of_week: 1, delay: 8 * HOUR };
    assert_eq!(task.get_delta(NOON), Ok(5 * DAY_MS - 4 * HOUR));
    assert_eq!(utc(NOON + 5 * DAY_MS - 4 * HOUR).to_rfc3339(), "2024-01-15T08:00:00+00:00");
}

#[test]
fn week_task_today_still_ahead() {
    let task = WeekTask { day_of_week: 3, delay: 18 * HOUR };
    assert_eq!(task.get_delta(NOON), Ok(6 * HOUR));
}

#[test]
fn week_task_today_but_passed_rolls_a_week() {
    let task = WeekTask { day_of_week: 3, delay: 8 * HOUR };
    assert_eq!(task.get_delta(NOON), Ok(WEEK_MS - 4 * HOUR));
    let task = WeekTask { day_of_week: 3, delay: 12 * HOUR };
    assert_eq!(task.get_delta(NOON), Ok(WEEK_MS));
}

#[test]
fn week_task_follows_the_calendar() {
    for day_of_week in 1..=7u32 {
        let task = WeekTask { day_of_week, delay: 23 * HOUR + 59 * 60_000 };
        let mut now = NOON - 10 * DAY_MS;
        for _ in 0..60 {
            let delta = task.get_delta(now).unwrap();
            assert!(delta > 0 && delta <= WEEK_MS);
            let fire = utc(now + delta);
            assert_eq!(fire.weekday().number_from_monday(), day_of_week);
            assert_eq!(fire.format("%H:%M:%S%.3f").to_string(), "23:59:00.000");
            now += 11 * HOUR + 7_654_321;
        }
    }
}

#[test]
fn week_task_outside_the_calendar_is_an_error() {
    let task = WeekTask { day_of_week: 1, delay: 0 };
    assert_eq!(task.get_delta(i64::MAX), Err(TimeError::InvalidTime));
}

#[test]
fn week_delay_from_given_answers() {
    // Thursday at midnight; Monday is four days on.
    assert_eq!(WeekTask::delta_from(1, 0, Some(4), Some(0)), Ok(4 * DAY_MS));
    assert_eq!(WeekTask::delta_from(4, 0, Some(4), Some(0)), Ok(WEEK_MS));
    assert_eq!(WeekTask::delta_from(4, 0, Some(4), Some(1)), Ok(1));
    assert_eq!(WeekTask::delta_from(7, 10, Some(1), Some(5)), Ok(6 * DAY_MS - 5));
    assert_eq!(WeekTask::delta_from(u32::MAX, 0, Some(7), Some(0)), Ok(3 * DAY_MS));
    assert_eq!(WeekTask::delta_from(1, 0, None, Some(0)), Err(TimeError::InvalidTime));
    assert_eq!(WeekTask::delta_from(1, 0, Some(4), None), Err(TimeError::InvalidTime));
    assert_eq!(WeekTask::delta_from(1, 0, Some(0), Some(0)), Err(TimeError::InvalidTime));
    assert_eq!(WeekTask::delta_from(1, 0, Some(8), Some(0)), Err(TimeError::InvalidTime));
    assert_eq!(
        WeekTask::delta_from(1, i64::MIN, Some(4), Some(i64::MAX)),
        Err(TimeError::InvalidTime)
    );
}

#[test]
fn frequency_gives_the_delay_of_its_kind() {
    assert_eq!(TimeFrequency::Once(OnceTask { end_time: NOON + 5 }).get_delta(NOON), Ok(5));
    assert_eq!(TimeFrequency::Day(DayTask { delay: 8 * HOUR }).get_delta(NOON), Ok(20 * HOUR));
    assert_eq!(
        TimeFrequency::Week(WeekTask { day_of_week: 5, delay: 8 * HOUR }).get_delta(NOON),
        Ok(2 * DAY_MS - 4 * HOUR)
    );
}

#[test]
fn next_fire_time_is_an_instant() {
    assert_eq!(TimeFrequency::Once(OnceTask { end_time: 77 }).next_fire_time(NOON), Ok(77));
    assert_eq!(
        TimeFrequency::Day(DayTask { delay: 8 * HOUR }).next_fire_time(NOON),
        Ok(NOON + 20 * HOUR)
    );
    assert_eq!(
        TimeFrequency::Week(WeekTask { day_of_week: 3, delay: 8 * HOUR }).next_fire_time(NOON),
        Ok(NOON + WEEK_MS - 4 * HOUR)
    );
    assert_eq!(
        TimeFrequency::Day(DayTask { delay: 0 }).next_fire_time(i64::MAX),
        Err(TimeError::InvalidTime)
    );
}

#[test]
fn wait_loop_sleeps_no_longer_than_the_ceiling() {
    assert_eq!(POLL_CEILING_MS, 60_000);
    assert_eq!(wait_step(NOON + HOUR, NOON), WaitStep::Sleep { millis: 60_000 });
    assert_eq!(wait_step(NOON + 60_000, NOON), WaitStep::Sleep { millis: 60_000 });
    assert_eq!(wait_step(NOON + 59_999, NOON), WaitStep::Sleep { millis: 59_999 });
    assert_eq!(wait_step(NOON + 1, NOON), WaitStep::Sleep { millis: 1 });
    assert_eq!(wait_step(i64::MAX, i64::MIN), WaitStep::Sleep { millis: 60_000 });
}

#[test]
fn wait_loop_fires_at_or_after_the_time() {
    assert_eq!(wait_step(NOON, NOON), WaitStep::Fire);
    assert_eq!(wait_step(NOON, NOON + 1), WaitStep::Fire);
    assert_eq!(wait_step(NOON, NOON + WEEK_MS), WaitStep::Fire);
    assert_eq!(wait_step(i64::MIN, i64::MAX), WaitStep::Fire);
}

#[test]
fn once_is_over_after_it_fired() {
    let once = TimeFrequency::Once(OnceTask { end_time: NOON });
    assert_eq!(once.after_fire(NOON + 3), Ok(None));
}

#[test]
fn recurring_tasks_wait_for_their_next_occurrence() {
    let day = TimeFrequency::Day(DayTask { delay: 12 * HOUR });
    assert_eq!(day.after_fire(NOON), Ok(Some(NOON + DAY_MS)));
    assert_eq!(day.after_fire(NOON + 17), Ok(Some(NOON + DAY_MS)));
    let week = TimeFrequency::Week(WeekTask { day_of_week: 3, delay: 12 * HOUR });
    assert_eq!(week.after_fire(NOON + 17), Ok(Some(NOON + WEEK_MS)));
    assert_eq!(
        TimeFrequency::Day(DayTask { delay: 0 }).after_fire(i64::MIN),
        Err(TimeError::InvalidTime)
    );
}

#[test]
fn a_clock_set_back_is_noticed_at_the_next_turn() {
    let fire = NOON + 10 * 60_000;
    assert_eq!(wait_step(fire, NOON + 9 * 60_000), WaitStep::Sleep { millis: 60_000 });
    assert_eq!(wait_step(fire, NOON - HOUR), WaitStep::Sleep { millis: 60_000 });
    assert_eq!(wait_step(fire, NOON + 2 * HOUR), WaitStep::Fire);
}

#[test]
fn week_task_before_the_epoch() {
    // 1969-12-31 was a Wednesday.
    let now = -2 * HOUR;
    assert_eq!(utc(now).weekday().number_from_monday(), 3);
    let task = WeekTask { day_of_week: 4, delay: HOUR };
    assert_eq!(task.get_delta(now), Ok(3 * HOUR));
    let task = WeekTask { day_of_week: 3, delay: 23 * HOUR };
    assert_eq!(task.get_delta(now), Ok(HOUR));
    let task = WeekTask { day_of_week: 2, delay: 23 * HOUR };
    assert_eq!(task.get_delta(now), Ok(6 * DAY_MS + HOUR));
}
