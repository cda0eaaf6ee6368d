use voice_channel_manager::cache::FamilyState;
use voice_channel_manager::family::{Family, TemplateRoom};
use voice_channel_manager::removal::{
    deleted_rooms, plan_removal, settle_cascade, AggregateFailure, DeleteOutcome, Removal,
};

fn family_with_two_siblings() -> Family {
    let mut family =
        Family::new(TemplateRoom { id: 10, pattern: "Room {#}".to_string(), capacity: None });
    family.insert(11, 1);
    family.insert(12, 2);
    family
}

fn cache_with_two_siblings() -> FamilyState {
    let mut cache = FamilyState::new();
    cache.upsert_template(TemplateRoom { id: 10, pattern: "Room {#}".to_string(), capacity: None });
    cache.insert_sibling(10, 11, 1);
    cache.insert_sibling(10, 12, 2);
    cache
}

#[test]
fn removed_template_takes_its_siblings_along() {
    let family = family_with_two_siblings();
    assert_eq!(
        plan_removal(Some(&family), 10),
        Removal::Template { template: 10, siblings: vec![11, 12] }
    );
}

#[test]
fn removed_sibling_gives_its_number_back() {
    let family = family_with_two_siblings();
    assert_eq!(
        plan_removal(Some(&family), 12),
        Removal::Sibling { template: 10, room: 12, number: 2 }
    );
}

#[test]
fn removed_stranger_means_nothing() {
    let family = family_with_two_siblings();
    assert_eq!(plan_removal(Some(&family), 99), Removal::Unknown);
    assert_eq!(plan_removal(None, 10), Removal::Unknown);
}

#[test]
fn cascade_with_one_failure_names_both_outcomes() {
    let mut cache = cache_with_two_siblings();
    let family = family_with_two_siblings();
    let targets = match plan_removal(Some(&family), 10) {
        Removal::Template { siblings, .. } => siblings,
        other => panic!("unexpected plan {:?}", other),
    };
    assert_eq!(targets.len(), 2);
    let outcomes = vec![
        DeleteOutcome { room: targets[0], deleted: false },
        DeleteOutcome { room: targets[1], deleted: true },
    ];
    let settled = settle_cascade(&mut cache, 10, outcomes.clone());
    assert_eq!(settled, Err(AggregateFailure { template: 10, outcomes }));
    assert!(cache.family_of(12).is_none());
    assert_eq!(cache.family_of(11).unwrap().id(), 10);
    assert_eq!(cache.get_family(10).unwrap().len(), 1);
    let message = settled.unwrap_err().message();
    assert_eq!(
        message,
        "not every sibling of template room 10 could be closed; room 11 was not closed; room 12 was closed"
    );
}

#[test]
fn cascade_without_failure_is_ok() {
    let mut cache = cache_with_two_siblings();
    let outcomes =
        vec![DeleteOutcome { room: 11, deleted: true }, DeleteOutcome { room: 12, deleted: true }];
    assert_eq!(settle_cascade(&mut cache, 10, outcomes), Ok(()));
    assert_eq!(cache.get_family(10).unwrap().len(), 0);
    assert!(cache.remove_template(10).is_some());
    assert!(cache.get_family(10).is_none());
}

#[test]
fn cascade_with_only_failures_forgets_nothing() {
    let mut cache = cache_with_two_siblings();
    let outcomes =
        vec![DeleteOutcome { room: 11, deleted: false }, DeleteOutcome { room: 12, deleted: false }];
    assert!(settle_cascade(&mut cache, 10, outcomes).is_err());
    assert_eq!(cache.get_family(10).unwrap().len(), 2);
}

#[test]
fn cascade_of_a_family_without_siblings_is_ok() {
    let mut cache = FamilyState::new();
    cache.upsert_template(TemplateRoom { id: 10, pattern: "x".to_string(), capacity: None });
    assert_eq!(settle_cascade(&mut cache, 10, vec![]), Ok(()));
}

#[test]
fn deleted_rooms_are_those_that_were_closed() {
    let outcomes = vec![
        DeleteOutcome { room: 11, deleted: true },
        DeleteOutcome { room: 12, deleted: false },
        DeleteOutcome { room: 13, deleted: true },
    ];
    assert_eq!(deleted_rooms(&outcomes), vec![11, 13]);
    assert_eq!(deleted_rooms(&vec![]), Vec::<u64>::new());
}
