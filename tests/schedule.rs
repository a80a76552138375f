use plant_tracker::models::{Plant, TaskKind};
use plant_tracker::registry::Registry;
use plant_tracker::schedule::get_schedule;

fn plant(id: u128, name: &str, watering: u32, fertilizing: u32, created_at: i32) -> Plant {
    Plant {
        id,
        name: name.to_string(),
        watering_frequency_days: watering,
        fertilizing_frequency_days: fertilizing,
        last_watered: None,
        last_fertilized: None,
        image_filenames: Vec::new(),
        created_at,
    }
}

fn registry_of(plants: Vec<Plant>) -> Registry {
    Registry::from_plants(plants).expect("identifiers are unique")
}

#[test]
fn never_watered_plant_is_overdue_by_one_day() {
    let reg = registry_of(vec![plant(1, "Fern", 7, 100, 0)]);
    let s = get_schedule(&reg, 8);
    assert_eq!(s.overdue_tasks.len(), 1);
    assert!(s.upcoming_tasks.is_empty());
    let t = &s.overdue_tasks[0];
    assert_eq!(t.plant_id, 1);
    assert_eq!(t.plant_name, "Fern");
    assert_eq!(t.task_type, TaskKind::Watering);
    assert_eq!(t.due_date, 7);
    assert_eq!(t.days_overdue, Some(1));
}

#[test]
fn watered_plant_is_upcoming_from_last_watering() {
    let mut p = plant(2, "Cactus", 7, 100, 0);
    p.last_watered = Some(5);
    let reg = registry_of(vec![p]);
    let s = get_schedule(&reg, 11);
    assert!(s.overdue_tasks.is_empty());
    assert_eq!(s.upcoming_tasks.len(), 1);
    let t = &s.upcoming_tasks[0];
    assert_eq!(t.task_type, TaskKind::Watering);
    assert_eq!(t.due_date, 12);
    assert_eq!(t.days_overdue, None);
}

#[test]
fn due_today_is_upcoming_not_overdue() {
    let reg = registry_of(vec![plant(3, "Ivy", 4, 100, 10)]);
    let s = get_schedule(&reg, 14);
    assert!(s.overdue_tasks.is_empty());
    assert_eq!(s.upcoming_tasks.len(), 1);
    assert_eq!(s.upcoming_tasks[0].due_date, 14);
    assert_eq!(s.upcoming_tasks[0].days_overdue, None);
}

#[test]
fn window_ends_three_days_after_today() {
    let reg = registry_of(vec![plant(4, "A", 3, 4, 0)]);
    let s = get_schedule(&reg, 0);
    assert!(s.overdue_tasks.is_empty());
    assert_eq!(s.upcoming_tasks.len(), 1);
    assert_eq!(s.upcoming_tasks[0].due_date, 3);
    assert_eq!(s.upcoming_tasks[0].task_type, TaskKind::Watering);
}

#[test]
fn lists_are_sorted_by_due_day_stably() {
    let mut a = plant(10, "A", 5, 2, 0);
    a.last_fertilized = Some(1);
    let b = plant(11, "B", 2, 9, 0);
    let c = plant(12, "C", 3, 3, 0);
    let reg = registry_of(vec![a, b, c]);
    let s = get_schedule(&reg, 2);
    let up: Vec<(u128, TaskKind, i64)> =
        s.upcoming_tasks.iter().map(|t| (t.plant_id, t.task_type, t.due_date)).collect();
    assert_eq!(
        up,
        vec![
            (11, TaskKind::Watering, 2),
            (10, TaskKind::Fertilizing, 3),
            (12, TaskKind::Watering, 3),
            (12, TaskKind::Fertilizing, 3),
            (10, TaskKind::Watering, 5),
        ]
    );
    assert!(s.overdue_tasks.is_empty());

    let s = get_schedule(&reg, 6);
    let over: Vec<(u128, TaskKind, i64, Option<i64>)> = s
        .overdue_tasks
        .iter()
        .map(|t| (t.plant_id, t.task_type, t.due_date, t.days_overdue))
        .collect();
    assert_eq!(
        over,
        vec![
            (11, TaskKind::Watering, 2, Some(4)),
            (10, TaskKind::Fertilizing, 3, Some(3)),
            (12, TaskKind::Watering, 3, Some(3)),
            (12, TaskKind::Fertilizing, 3, Some(3)),
            (10, TaskKind::Watering, 5, Some(1)),
        ]
    );
    let up: Vec<i64> = s.upcoming_tasks.iter().map(|t| t.due_date).collect();
    assert_eq!(up, vec![9]);
}

#[test]
fn far_future_tasks_are_omitted() {
    let reg = registry_of(vec![plant(5, "Oak", 30, 60, 100)]);
    let s = get_schedule(&reg, 100);
    assert!(s.overdue_tasks.is_empty());
    assert!(s.upcoming_tasks.is_empty());
}

#[test]
fn empty_registry_has_empty_schedule() {
    let reg = Registry::new();
    let s = get_schedule(&reg, 500);
    assert!(s.overdue_tasks.is_empty());
    assert!(s.upcoming_tasks.is_empty());
}

#[test]
fn due_dates_follow_last_action_or_creation() {
    let mut p = plant(6, "Rose", 7, 14, 100);
    assert_eq!(p.next_watering_due(), 107);
    assert_eq!(p.next_fertilizing_due(), 114);
    p.last_watered = Some(90);
    p.last_fertilized = Some(120);
    assert_eq!(p.next_watering_due(), 97);
    assert_eq!(p.next_fertilizing_due(), 134);
    assert_eq!(p.watering_days_overdue(100), Some(3));
    assert_eq!(p.watering_days_overdue(97), None);
    assert_eq!(p.fertilizing_days_overdue(135), Some(1));
    assert_eq!(p.fertilizing_days_overdue(134), None);
}

#[test]
fn extreme_dates_do_not_overflow() {
    let mut p = plant(7, "Old", u32::MAX, u32::MAX, i32::MAX);
    assert_eq!(p.next_watering_due(), i32::MAX as i64 + u32::MAX as i64);
    assert_eq!(p.watering_days_overdue(i32::MIN), None);
    p.last_fertilized = Some(i32::MIN);
    p.fertilizing_frequency_days = 0;
    assert_eq!(p.fertilizing_days_overdue(i32::MAX), Some(i32::MAX as i64 - i32::MIN as i64));
}

#[test]
fn task_kind_names() {
    assert_eq!(TaskKind::Watering.as_str(), "Watering");
    assert_eq!(TaskKind::Fertilizing.as_str(), "Fertilizing");
}
