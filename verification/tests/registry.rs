use smart_brite::light::LightControl;
use smart_brite::store::time_task::{DayTask, OnceTask, TimeFrequency, TimeTask, WeekTask};
use smart_brite::timer::{TimeTaskManager, TimerAction, TimerError, TimerEvent};

fn daily(name: &str, delay: i64) -> TimeTask {
    TimeTask {
        name: name.to_string(),
        operation: LightControl::Open,
        frequency: TimeFrequency::Day(DayTask { delay }),
    }
}

fn weekly(name: &str, day_of_week: u32) -> TimeTask {
    TimeTask {
        name: name.to_string(),
        operation: LightControl::Close,
        frequency: TimeFrequency::Week(WeekTask { day_of_week, delay: 0 }),
    }
}

fn once(name: &str, end_time: i64) -> TimeTask {
    TimeTask {
        name: name.to_string(),
        operation: LightControl::Reset,
        frequency: TimeFrequency::Once(OnceTask { end_time }),
    }
}

#[test]
fn new_registry_keeps_its_tasks_unarmed() {
    let tasks = vec![daily("a", 1), weekly("b", 2)];
    let mut m = TimeTaskManager::new(tasks.clone());
    assert_eq!(m.tasks(), tasks);
    assert_eq!(m.abort("a"), Vec::<u64>::new());
    assert_eq!(m.tasks(), vec![weekly("b", 2)]);
}

#[test]
fn add_task_arms_a_new_handle() {
    let mut m = TimeTaskManager::new(vec![]);
    let a = m.add_task(daily("a", 1)).unwrap();
    assert_eq!(a.handle, 0);
    assert_eq!(a.task, daily("a", 1));
    assert!(a.cancelled.is_empty());
    let b = m.add_task(weekly("b", 2)).unwrap();
    assert_eq!(b.handle, 1);
    assert!(b.cancelled.is_empty());
    assert_eq!(m.tasks(), vec![daily("a", 1), weekly("b", 2)]);
}

#[test]
fn add_task_twice_replaces_the_first() {
    let mut m = TimeTaskManager::new(vec![]);
    m.add_task(weekly("other", 1)).unwrap();
    let first = m.add_task(daily("lamp", 1)).unwrap();
    let second = m.add_task(weekly("lamp", 5)).unwrap();
    assert_eq!(second.cancelled, vec![first.handle]);
    assert_ne!(second.handle, first.handle);
    assert_eq!(second.task, weekly("lamp", 5));
    assert_eq!(m.tasks(), vec![weekly("other", 1), weekly("lamp", 5)]);
    assert_eq!(m.tasks().iter().filter(|t| t.name == "lamp").count(), 1);
    assert_eq!(m.abort("lamp"), vec![second.handle]);
}

#[test]
fn add_task_replaces_in_place_of_registration_order() {
    let mut m = TimeTaskManager::new(vec![]);
    m.add_task(daily("a", 1)).unwrap();
    m.add_task(daily("b", 2)).unwrap();
    m.add_task(daily("a", 3)).unwrap();
    assert_eq!(m.tasks(), vec![daily("b", 2), daily("a", 3)]);
}

#[test]
fn abort_cancels_and_erases() {
    let mut m = TimeTaskManager::new(vec![]);
    let a = m.add_task(daily("a", 1)).unwrap();
    m.add_task(daily("b", 2)).unwrap();
    assert_eq!(m.abort("a"), vec![a.handle]);
    assert_eq!(m.tasks(), vec![daily("b", 2)]);
}

#[test]
fn abort_of_an_unknown_name_does_nothing() {
    let mut m = TimeTaskManager::new(vec![]);
    m.add_task(daily("a", 1)).unwrap();
    assert_eq!(m.abort("zzz"), Vec::<u64>::new());
    assert_eq!(m.abort(""), Vec::<u64>::new());
    assert_eq!(m.tasks(), vec![daily("a", 1)]);
}

#[test]
fn handles_are_not_given_out_again() {
    let mut m = TimeTaskManager::new(vec![]);
    let a = m.add_task(daily("a", 1)).unwrap();
    m.abort("a");
    let b = m.add_task(daily("a", 1)).unwrap();
    assert_ne!(a.handle, b.handle);
    assert!(b.cancelled.is_empty());
}

#[test]
fn run_arms_every_kept_task() {
    let mut m = TimeTaskManager::new(vec![daily("a", 1), weekly("b", 2), once("c", 3)]);
    let armed = m.run().unwrap();
    assert_eq!(armed.len(), 3);
    for (i, one) in armed.iter().enumerate() {
        assert_eq!(one.handle, i as u64);
        assert!(one.cancelled.is_empty());
    }
    assert_eq!(armed[0].task, daily("a", 1));
    assert_eq!(armed[1].task, weekly("b", 2));
    assert_eq!(armed[2].task, once("c", 3));
    assert_eq!(m.tasks(), vec![daily("a", 1), weekly("b", 2), once("c", 3)]);
    assert_eq!(m.abort("b"), vec![1]);
}

#[test]
fn run_keeps_the_last_of_a_repeated_name() {
    let mut m = TimeTaskManager::new(vec![daily("a", 1), weekly("b", 2), daily("a", 9)]);
    let armed = m.run().unwrap();
    assert_eq!(armed.len(), 3);
    assert!(armed[0].cancelled.is_empty());
    assert!(armed[1].cancelled.is_empty());
    assert_eq!(armed[2].cancelled, vec![0]);
    assert_eq!(m.tasks(), vec![weekly("b", 2), daily("a", 9)]);
}

#[test]
fn run_again_rearms_and_cancels() {
    let mut m = TimeTaskManager::new(vec![daily("a", 1)]);
    m.run().unwrap();
    let again = m.run().unwrap();
    assert_eq!(again.len(), 1);
    assert_eq!(again[0].handle, 1);
    assert_eq!(again[0].cancelled, vec![0]);
    assert_eq!(m.tasks(), vec![daily("a", 1)]);
}

#[test]
fn run_of_an_empty_registry() {
    let mut m = TimeTaskManager::new(vec![]);
    assert!(m.run().unwrap().is_empty());
    assert!(m.tasks().is_empty());
}

#[test]
fn completed_task_leaves_the_registry() {
    let mut m = TimeTaskManager::new(vec![]);
    m.add_task(daily("a", 1)).unwrap();
    let x = m.add_task(once("x", 5)).unwrap();
    m.complete(x.handle);
    assert_eq!(m.tasks(), vec![daily("a", 1)]);
    assert_eq!(m.abort("x"), Vec::<u64>::new());
}

#[test]
fn completion_of_a_replaced_task_is_ignored() {
    let mut m = TimeTaskManager::new(vec![]);
    let old = m.add_task(once("x", 5)).unwrap();
    let new = m.add_task(once("x", 9)).unwrap();
    m.complete(old.handle);
    assert_eq!(m.tasks(), vec![once("x", 9)]);
    m.complete(77);
    assert_eq!(m.tasks(), vec![once("x", 9)]);
    m.complete(new.handle);
    assert!(m.tasks().is_empty());
}

#[test]
fn events_add_and_remove() {
    let mut m = TimeTaskManager::new(vec![]);
    let handle = match m.handle_event(TimerEvent::AddTask(daily("a", 1))) {
        Ok(TimerAction::Spawn(armed)) => {
            assert_eq!(armed.task, daily("a", 1));
            assert!(armed.cancelled.is_empty());
            armed.handle
        }
        other => panic!("no spawn: {:?}", other),
    };
    match m.handle_event(TimerEvent::AddTask(weekly("a", 2))) {
        Ok(TimerAction::Spawn(armed)) => assert_eq!(armed.cancelled, vec![handle]),
        other => panic!("no spawn: {:?}", other),
    }
    match m.handle_event(TimerEvent::RemoveTask("a".to_string())) {
        Ok(TimerAction::Cancel(cancelled)) => assert_eq!(cancelled, vec![1]),
        other => panic!("no cancel: {:?}", other),
    }
    assert!(m.tasks().is_empty());
    match m.handle_event(TimerEvent::RemoveTask("a".to_string())) {
        Ok(TimerAction::Cancel(cancelled)) => assert!(cancelled.is_empty()),
        other => panic!("no cancel: {:?}", other),
    }
}

#[test]
fn task_copies_are_equal() {
    let t = weekly("copy", 4);
    assert_eq!(t.duplicate(), t);
    assert_eq!(TimerError::HandlesExhausted, TimerError::HandlesExhausted);
}

#[test]
fn add_task_without_a_handle_left_changes_nothing() {
    let mut m = TimeTaskManager::with_first_handle(vec![daily("a", 1)], u64::MAX);
    assert_eq!(m.add_task(daily("a", 2)).unwrap_err(), TimerError::HandlesExhausted);
    assert_eq!(m.add_task(daily("b", 2)).unwrap_err(), TimerError::HandlesExhausted);
    assert_eq!(m.tasks(), vec![daily("a", 1)]);
    match m.handle_event(TimerEvent::AddTask(daily("c", 3))) {
        Err(TimerError::HandlesExhausted) => {}
        other => panic!("no error: {:?}", other),
    }
    assert_eq!(m.tasks(), vec![daily("a", 1)]);
}

#[test]
fn last_handle_is_given_out() {
    let mut m = TimeTaskManager::with_first_handle(vec![], u64::MAX - 1);
    let a = m.add_task(daily("a", 1)).unwrap();
    assert_eq!(a.handle, u64::MAX - 1);
    assert_eq!(m.add_task(daily("b", 1)).unwrap_err(), TimerError::HandlesExhausted);
    assert_eq!(m.abort("a"), vec![u64::MAX - 1]);
}

#[test]
fn run_without_handles_for_all_changes_nothing() {
    let kept = vec![daily("a", 1), weekly("b", 2)];
    let mut m = TimeTaskManager::with_first_handle(kept.clone(), u64::MAX - 1);
    assert_eq!(m.run().unwrap_err(), TimerError::HandlesExhausted);
    assert_eq!(m.tasks(), kept);
    assert_eq!(m.abort("a"), Vec::<u64>::new());
    let mut m = TimeTaskManager::with_first_handle(kept.clone(), u64::MAX - 2);
    let armed = m.run().unwrap();
    assert_eq!(armed[0].handle, u64::MAX - 2);
    assert_eq!(armed[1].handle, u64::MAX - 1);
}
