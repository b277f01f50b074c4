use rust_hpc_communication_test::events::{Event, EventsManager};
use std::collections::HashMap;

struct SimpleEvent;

struct AnotherEvent;

impl Event for SimpleEvent {
    fn kind(&self) -> u64 {
        1
    }
}

impl Event for AnotherEvent {
    fn kind(&self) -> u64 {
        2
    }
}

fn names(selected: Vec<&&'static str>) -> Vec<&'static str> {
    selected.into_iter().map(|name| *name).collect()
}

#[test]
fn empty_manager_reaches_no_handler() {
    let manager: EventsManager<&'static str> = EventsManager::new(HashMap::new(), Vec::new());
    assert!(manager.emit(&SimpleEvent).is_empty());
    assert!(manager.handlers_for(42).is_empty());
}

#[test]
fn handlers_of_the_kind_come_first_in_order_of_subscription() {
    let mut manager: EventsManager<&'static str> = EventsManager::new(HashMap::new(), Vec::new());
    manager.on_any("any-1");
    manager.on(1, "simple-1");
    manager.on(2, "another-1");
    manager.on(1, "simple-2");
    manager.on_any("any-2");
    assert_eq!(names(manager.emit(&SimpleEvent)), ["simple-1", "simple-2", "any-1", "any-2"]);
    assert_eq!(names(manager.emit(&AnotherEvent)), ["another-1", "any-1", "any-2"]);
    assert_eq!(names(manager.handlers_for(3)), ["any-1", "any-2"]);
}

#[test]
fn manager_starts_from_the_tables_given() {
    let mut per_type = HashMap::new();
    per_type.insert(2u64, vec!["b", "c"]);
    let mut manager = EventsManager::new(per_type, vec!["z"]);
    assert_eq!(names(manager.emit(&AnotherEvent)), ["b", "c", "z"]);
    assert_eq!(names(manager.emit(&SimpleEvent)), ["z"]);
    manager.on(2, "d");
    assert_eq!(names(manager.handlers_for(2)), ["b", "c", "d", "z"]);
}

#[test]
fn emitting_twice_reaches_the_same_handlers() {
    let mut manager: EventsManager<u32> = EventsManager::new(HashMap::new(), Vec::new());
    manager.on(1, 10);
    manager.on(1, 11);
    let first: Vec<u32> = manager.emit(&SimpleEvent).into_iter().copied().collect();
    let second: Vec<u32> = manager.emit(&SimpleEvent).into_iter().copied().collect();
    assert_eq!(first, [10, 11]);
    assert_eq!(first, second);
}
