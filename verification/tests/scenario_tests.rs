// End-to-end scenarios for the store's stated behaviour: the full
// lifecycle on one record, clamping at both ends, the documented
// high-water count, the no-op update, the size ceiling, and the
// notification log.

use tasks::store::{Event, TaskManager};
use tasks::task::Error;

#[test]
fn lifecycle_of_one_task() {
    let mut m = TaskManager::new();
    let id = m.create_task("Test Task".to_string(), "Description".to_string(), 3).unwrap();
    assert_eq!(id, 1);

    let t = m.get_task(1).unwrap();
    assert_eq!(t.title, "Test Task");
    assert_eq!(t.priority, 3);
    assert_eq!(t.completed, false);

    assert!(m.complete_task(1).is_ok());
    assert_eq!(m.complete_task(1), Err(Error::AlreadyCompleted));
    assert!(m.get_task(1).unwrap().completed);

    assert!(m.delete_task(1).is_ok());
    assert_eq!(m.get_task(1).err(), Some(Error::NotFound));
}

#[test]
fn priority_clamped_at_both_ends() {
    let mut m = TaskManager::new();
    let a = m.create_task("A".to_string(), "D".to_string(), 0).unwrap();
    let b = m.create_task("B".to_string(), "D".to_string(), 10).unwrap();
    assert_eq!(m.get_task(a).unwrap().priority, 1);
    assert_eq!(m.get_task(b).unwrap().priority, 5);

    assert!(m.update_priority(a, 200).is_ok());
    assert_eq!(m.get_task(a).unwrap().priority, 5);
    assert!(m.update_task(b, None, Some(0)).is_ok());
    assert_eq!(m.get_task(b).unwrap().priority, 1);
}

#[test]
fn count_is_a_high_water_mark() {
    // the count is the number ever created, as documented: deleting
    // does not lower it
    let mut m = TaskManager::new();
    assert_eq!(m.get_total_tasks(), 0);
    m.create_task("A".to_string(), "D".to_string(), 1).unwrap();
    m.create_task("B".to_string(), "D".to_string(), 2).unwrap();
    assert_eq!(m.get_total_tasks(), 2);
    m.delete_task(1).unwrap();
    assert_eq!(m.get_total_tasks(), 2);
    // and the freed id is not reused
    let c = m.create_task("C".to_string(), "D".to_string(), 3).unwrap();
    assert_eq!(c, 3);
}

#[test]
fn update_with_no_fields_changes_nothing() {
    let mut m = TaskManager::new();
    m.set_clock(77);
    let id = m.create_task("Keep".to_string(), "Desc".to_string(), 2).unwrap();
    m.set_clock(99);

    assert!(m.update_task(id, None, None).is_ok());

    let t = m.get_task(id).unwrap();
    assert_eq!(t.title, "Keep");
    assert_eq!(t.description, "Desc");
    assert_eq!(t.priority, 2);
    assert_eq!(t.completed, false);
    assert_eq!(t.created_at, 77);
}

#[test]
fn created_at_comes_from_the_clock() {
    let mut m = TaskManager::new();
    m.set_clock(41);
    let a = m.create_task("A".to_string(), "D".to_string(), 3).unwrap();
    m.set_clock(42);
    let b = m.create_task("B".to_string(), "D".to_string(), 3).unwrap();
    assert_eq!(m.get_task(a).unwrap().created_at, 41);
    assert_eq!(m.get_task(b).unwrap().created_at, 42);
    // a later update does not restamp
    assert!(m.update_task(a, Some("A2".to_string()), None).is_ok());
    assert_eq!(m.get_task(a).unwrap().created_at, 41);
}

#[test]
fn oversized_fields_are_refused() {
    let mut m = TaskManager::new();
    let long_title = "x".repeat(257);
    let ok_title = "x".repeat(256);
    let long_desc = "y".repeat(1025);
    let ok_desc = "y".repeat(1024);

    assert_eq!(
        m.create_task(long_title.clone(), "D".to_string(), 3),
        Err(Error::FieldTooLarge)
    );
    assert_eq!(
        m.create_task("T".to_string(), long_desc, 3),
        Err(Error::FieldTooLarge)
    );
    assert_eq!(m.get_total_tasks(), 0);

    let id = m.create_task(ok_title, ok_desc, 3).unwrap();
    assert_eq!(m.update_task(id, Some(long_title), None), Err(Error::FieldTooLarge));
    assert_eq!(m.get_task(id).unwrap().title.len(), 256);
}

#[test]
fn notifications_follow_committed_transitions() {
    let mut m = TaskManager::new();
    let id = m.create_task("T".to_string(), "D".to_string(), 9).unwrap();
    assert!(m.update_task(id, Some("T2".to_string()), Some(1)).is_ok());
    assert!(m.update_priority(id, 4).is_ok());
    assert!(m.complete_task(id).is_ok());
    assert!(m.delete_task(id).is_ok());
    // refused calls commit nothing and log nothing
    assert!(m.complete_task(id).is_err());

    let events = m.events();
    assert_eq!(events.len(), 3);
    match &events[0] {
        Event::TaskCreated(c) => {
            assert_eq!(c.task_id, id);
            assert_eq!(c.title, "T");
            assert_eq!(c.priority, 5); // the clamped priority is announced
        }
        _ => panic!("expected a creation event"),
    }
    match &events[1] {
        Event::TaskCompleted(c) => assert_eq!(c.task_id, id),
        _ => panic!("expected a completion event"),
    }
    match &events[2] {
        Event::TaskDeleted(d) => assert_eq!(d.task_id, id),
        _ => panic!("expected a deletion event"),
    }
}

#[test]
fn list_is_ascending_and_complete() {
    let mut m = TaskManager::new();
    m.create_task("A".to_string(), "D".to_string(), 1).unwrap();
    m.create_task("B".to_string(), "D".to_string(), 2).unwrap();
    m.create_task("C".to_string(), "D".to_string(), 3).unwrap();
    m.delete_task(2).unwrap();

    let all = m.list();
    assert_eq!(all.len(), 2);
    assert_eq!(all[0].0, 1);
    assert_eq!(all[0].1.title, "A");
    assert_eq!(all[1].0, 3);
    assert_eq!(all[1].1.title, "C");
}

#[test]
fn default_is_empty() {
    let m = TaskManager::default();
    assert_eq!(m.get_total_tasks(), 0);
    assert!(m.events().is_empty());
    assert!(m.list().is_empty());
}
