use std::cell::RefCell;
use std::rc::Rc;

use fragments::data_map::DataMap;
use fragments::data_set::DataSet;
use fragments::event::Event;
use fragments::ifc_relations_map::relation_mapping;

#[test]
fn event_add_remove_trigger() {
    let mut event: Event<i32> = Event::new();
    let counter = Rc::new(RefCell::new(0));
    let counter_clone = Rc::clone(&counter);
    let handler_id = event.add(move |value: &i32| {
        *counter_clone.borrow_mut() += *value;
    });

    event.trigger(&2);
    event.trigger(&3);
    assert_eq!(*counter.borrow(), 5);

    event.remove(handler_id);
    event.trigger(&4);
    assert_eq!(*counter.borrow(), 5);
}

#[test]
fn data_set_guard_and_events() {
    let mut set: DataSet<i32> = DataSet::new();
    set.guard = Box::new(|value: &i32| *value % 2 == 0);

    let added = Rc::new(RefCell::new(Vec::new()));
    let added_clone = Rc::clone(&added);
    set.on_item_added.add(move |value: &i32| {
        added_clone.borrow_mut().push(*value);
    });

    set.add(vec![1, 2, 2, 4]);
    assert!(set.contains(&2));
    assert!(set.contains(&4));
    assert_eq!(set.len(), 2);
    assert_eq!(added.borrow().as_slice(), &[2, 4]);
    assert_eq!(set.get_index(&4), 1);

    assert!(set.delete(&2));
    assert_eq!(set.len(), 1);
}

#[test]
fn data_map_set_update_replace() {
    let mut map: DataMap<String, i32> = DataMap::new();
    let updates = Rc::new(RefCell::new(Vec::new()));
    let updates_clone = Rc::clone(&updates);
    map.on_item_updated.add(move |payload: &fragments::data_map::MapItem<String, i32>| {
        updates_clone.borrow_mut().push((payload.key.clone(), payload.value));
    });

    map.set("a".to_string(), 1);
    map.set("a".to_string(), 2);
    assert_eq!(updates.borrow().as_slice(), &[("a".to_string(), 2)]);

    assert!(map.replace_key(&"a".to_string(), "b".to_string(), false));
    assert!(map.contains_key(&"b".to_string()));
    assert_eq!(map.len(), 1);
}

#[test]
fn ifc_maps_resolve_known_entries() {
    let relation = relation_mapping(160246688).expect("expected relation mapping");
    assert_eq!(relation.for_relating, "IsDecomposedBy");
    assert_eq!(relation.for_related, "Decomposes");
}

#[test]
fn relation_mapping_unknown_entry_is_none() {
    assert!(relation_mapping(42).is_none());
}

#[test]
fn event_disabled_skips_handlers() {
    let mut event: Event<i32> = Event::new();
    let counter = Rc::new(RefCell::new(0));
    let counter_clone = Rc::clone(&counter);
    event.add(move |value: &i32| {
        *counter_clone.borrow_mut() += *value;
    });
    event.enabled = false;
    event.trigger(&7);
    assert_eq!(*counter.borrow(), 0);
    event.enabled = true;
    event.trigger(&7);
    assert_eq!(*counter.borrow(), 7);
}

#[test]
fn event_reset_drops_handlers() {
    let mut event: Event<i32> = Event::new();
    let counter = Rc::new(RefCell::new(0));
    let counter_clone = Rc::clone(&counter);
    event.add(move |value: &i32| {
        *counter_clone.borrow_mut() += *value;
    });
    event.reset();
    event.trigger(&7);
    assert_eq!(*counter.borrow(), 0);
}

#[test]
fn data_set_with_iter_keeps_first_occurrences() {
    let set: DataSet<i32> = DataSet::with_iter(vec![3, 1, 3, 2, 1]);
    assert_eq!(set.len(), 3);
    assert_eq!(set.iter(), &[3, 1, 2]);
}

#[test]
fn data_set_delete_if_filters() {
    let mut set: DataSet<i32> = DataSet::new();
    set.add(vec![1, 2, 3, 4, 5]);
    set.delete_if(|value: &i32| *value > 3);
    assert_eq!(set.iter(), &[1, 2, 3]);
}

#[test]
fn data_set_clear_and_dispose_empty_it() {
    let mut set: DataSet<i32> = DataSet::new();
    set.add(vec![1, 2]);
    set.clear();
    assert_eq!(set.len(), 0);
    set.add(vec![9]);
    set.dispose();
    assert_eq!(set.len(), 0);
}

#[test]
fn data_map_delete_and_contains() {
    let mut map: DataMap<String, i32> = DataMap::new();
    map.set("x".to_string(), 10);
    map.set("y".to_string(), 20);
    assert!(map.contains_key(&"x".to_string()));
    assert!(map.delete(&"x".to_string()));
    assert!(!map.delete(&"x".to_string()));
    assert!(!map.contains_key(&"x".to_string()));
    assert_eq!(map.len(), 1);
}

#[test]
fn data_map_get_key_and_update() {
    let mut map: DataMap<String, i32> = DataMap::new();
    map.set("a".to_string(), 1);
    map.set("b".to_string(), 2);
    assert_eq!(map.get_key(&2), Some("b".to_string()));
    assert_eq!(map.get_key(&9), None);
}

#[test]
fn data_map_with_iter_and_guard() {
    let map: DataMap<String, i32> = DataMap::with_iter(vec![
        ("a".to_string(), 1),
        ("b".to_string(), 2),
        ("a".to_string(), 3),
    ]);
    assert_eq!(map.len(), 2);

    let mut guarded: DataMap<String, i32> = DataMap::new();
    guarded.guard = Box::new(|_key: &String, value: &i32| *value > 0);
    guarded.set("p".to_string(), -1);
    guarded.set("q".to_string(), 1);
    assert_eq!(guarded.len(), 1);
    assert!(guarded.contains_key(&"q".to_string()));
}
