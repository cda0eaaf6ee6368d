use voice_channel_manager::cache::FamilyState;
use voice_channel_manager::family::{contains, Family, Member, TemplateRoom};

fn template(id: u64, pattern: &str, capacity: Option<u64>) -> TemplateRoom {
    TemplateRoom { id, pattern: pattern.to_string(), capacity }
}

fn members(family: &Family) -> Vec<(u64, u64)> {
    (0..family.len()).map(|i| (family.member(i).id, family.member(i).number)).collect()
}

#[test]
fn family_keeps_siblings_in_order() {
    let mut family = Family::new(template(10, "Room {#}", Some(5)));
    assert_eq!(family.id(), 10);
    assert_eq!(family.len(), 0);
    assert!(family.insert(11, 1));
    assert!(family.insert(12, 2));
    assert_eq!(members(&family), vec![(11, 1), (12, 2)]);
    assert_eq!(family.ids(), vec![11, 12]);
    assert_eq!(family.numbers(), vec![1, 2]);
    assert_eq!(family.position_of(12), Some(1));
    assert_eq!(family.position_of(13), None);
    assert!(family.holds_number(2));
    assert!(!family.holds_number(3));
    assert_eq!(family.template().pattern, "Room {#}");
    assert_eq!(family.template().capacity, Some(5));
}

#[test]
fn family_refuses_what_it_knows_already() {
    let mut family = Family::new(template(10, "x", None));
    assert!(family.insert(11, 1));
    assert!(!family.insert(11, 2));
    assert!(!family.insert(12, 1));
    assert!(!family.insert(10, 3));
    assert_eq!(members(&family), vec![(11, 1)]);
}

#[test]
fn family_removes_a_sibling() {
    let mut family = Family::new(template(10, "x", None));
    family.insert(11, 1);
    family.insert(12, 2);
    family.insert(13, 3);
    assert_eq!(family.remove(12), Some(Member { id: 12, number: 2 }));
    assert_eq!(family.remove(12), None);
    assert_eq!(members(&family), vec![(11, 1), (13, 3)]);
    assert!(family.insert(14, 2));
}

#[test]
fn siblings_carry_the_pattern_and_the_size_of_the_family() {
    let mut family = Family::new(template(10, "Room {#} of {%}", Some(5)));
    family.insert(11, 1);
    family.insert(12, 2);
    let sibling = family.sibling(1);
    assert_eq!(sibling.id, 12);
    assert_eq!(sibling.template_id, 10);
    assert_eq!(sibling.number, 2);
    assert_eq!(sibling.total, 2);
    assert_eq!(sibling.pattern, "Room {#} of {%}");
    let all = family.siblings();
    assert_eq!(all.len(), 2);
    assert_eq!(all[0].id, 11);
    assert_eq!(all[0].total, 2);
}

#[test]
fn family_retains_existing_rooms() {
    let mut family = Family::new(template(10, "x", None));
    for (room, number) in [(11, 1), (12, 2), (13, 3), (14, 4)] {
        family.insert(room, number);
    }
    let gone = family.retain(&vec![14, 10, 12, 99]);
    assert_eq!(gone, vec![11, 13]);
    assert_eq!(members(&family), vec![(12, 2), (14, 4)]);
}

#[test]
fn family_duplicate_and_set_template() {
    let mut family = Family::new(template(10, "a", None));
    family.insert(11, 1);
    let copy = family.duplicate();
    family.set_template("b".to_string(), Some(3));
    assert_eq!(copy.template().pattern, "a");
    assert_eq!(copy.template().capacity, None);
    assert_eq!(members(&copy), vec![(11, 1)]);
    assert_eq!(family.template().pattern, "b");
    assert_eq!(family.template().capacity, Some(3));
    assert_eq!(template(1, "p", Some(2)).duplicate().pattern, "p");
}

#[test]
fn contains_searches_a_list() {
    assert!(contains(&vec![3, 1, 2], 1));
    assert!(!contains(&vec![3, 1, 2], 4));
    assert!(!contains(&vec![], 4));
}

#[test]
fn cache_starts_empty() {
    let state = FamilyState::new();
    assert!(state.get_family(10).is_none());
    assert!(state.family_of(10).is_none());
    assert!(state.list_families().is_empty());
    assert!(state.templates().is_empty());
}

#[test]
fn cache_upserts_templates() {
    let mut state = FamilyState::new();
    assert!(state.upsert_template(template(10, "a", None)));
    assert!(state.upsert_template(template(20, "b", Some(2))));
    assert!(state.insert_sibling(10, 11, 1));
    assert!(state.upsert_template(template(10, "c", Some(9))));
    let family = state.get_family(10).unwrap();
    assert_eq!(family.template().pattern, "c");
    assert_eq!(family.template().capacity, Some(9));
    assert_eq!(members(family), vec![(11, 1)]);
    assert!(!state.upsert_template(template(11, "d", None)));
    assert!(state.get_family(11).is_none());
    let mut ids = state.templates();
    ids.sort();
    assert_eq!(ids, vec![10, 20]);
}

#[test]
fn cache_finds_the_family_of_a_room() {
    let mut state = FamilyState::new();
    state.upsert_template(template(10, "a", None));
    state.upsert_template(template(20, "b", None));
    state.insert_sibling(10, 11, 1);
    state.insert_sibling(20, 21, 1);
    assert_eq!(state.family_of(10).unwrap().id(), 10);
    assert_eq!(state.family_of(11).unwrap().id(), 10);
    assert_eq!(state.family_of(21).unwrap().id(), 20);
    assert!(state.family_of(99).is_none());
}

#[test]
fn cache_admits_a_room_once() {
    let mut state = FamilyState::new();
    state.upsert_template(template(10, "a", None));
    state.upsert_template(template(20, "b", None));
    assert!(state.insert_sibling(10, 11, 1));
    assert!(!state.insert_sibling(10, 11, 2));
    assert!(!state.insert_sibling(20, 11, 1));
    assert!(!state.insert_sibling(10, 12, 1));
    assert!(!state.insert_sibling(10, 20, 2));
    assert!(!state.insert_sibling(30, 31, 1));
    assert!(state.insert_sibling(20, 12, 1));
    assert_eq!(members(state.get_family(10).unwrap()), vec![(11, 1)]);
    assert_eq!(members(state.get_family(20).unwrap()), vec![(12, 1)]);
}

#[test]
fn cache_removes_siblings_and_templates() {
    let mut state = FamilyState::new();
    state.upsert_template(template(10, "a", None));
    state.insert_sibling(10, 11, 1);
    state.insert_sibling(10, 12, 2);
    assert_eq!(state.remove_sibling(11), Some((10, Member { id: 11, number: 1 })));
    assert_eq!(state.remove_sibling(11), None);
    assert_eq!(state.remove_sibling(10), None);
    assert!(state.family_of(11).is_none());
    let family = state.remove_template(10).unwrap();
    assert_eq!(members(&family), vec![(12, 2)]);
    assert!(state.remove_template(10).is_none());
    assert!(state.family_of(12).is_none());
    assert!(state.upsert_template(template(12, "now a template", None)));
}

#[test]
fn cache_lists_every_family_once() {
    let mut state = FamilyState::new();
    for id in [30u64, 10, 20] {
        state.upsert_template(template(id, "p", None));
        state.insert_sibling(id, id + 1, 1);
    }
    let mut listed: Vec<(u64, Vec<(u64, u64)>)> =
        state.list_families().iter().map(|f| (f.id(), members(f))).collect();
    listed.sort();
    assert_eq!(
        listed,
        vec![(10, vec![(11, 1)]), (20, vec![(21, 1)]), (30, vec![(31, 1)])]
    );
}

#[test]
fn cache_sets_pattern_and_capacity() {
    let mut state = FamilyState::new();
    assert_eq!(state.set_template(10, "Room {#}".to_string()), Ok(true));
    assert!(state.set_capacity(10, 4));
    assert_eq!(state.set_template(10, "Lobby {#}".to_string()), Ok(true));
    let family = state.get_family(10).unwrap();
    assert_eq!(family.template().pattern, "Lobby {#}");
    assert_eq!(family.template().capacity, Some(4));
    assert!(state.clear_capacity(10));
    assert_eq!(state.get_family(10).unwrap().template().capacity, None);
    assert!(!state.set_capacity(99, 1));
    assert!(!state.clear_capacity(99));
    assert!(state.get_family(99).is_none());
}

#[test]
fn cache_refuses_a_pattern_that_does_not_compile() {
    let mut state = FamilyState::new();
    state.set_template(10, "ok".to_string()).unwrap();
    let refused = state.set_template(10, "bad {".to_string());
    assert!(refused.is_err());
    assert_eq!(state.get_family(10).unwrap().template().pattern, "ok");
    state.insert_sibling(10, 11, 1);
    assert_eq!(state.set_template(11, "x".to_string()), Ok(false));
}

#[test]
fn purge_forgets_what_exists_no_more() {
    let mut state = FamilyState::new();
    state.upsert_template(template(10, "a", None));
    state.upsert_template(template(20, "b", None));
    state.upsert_template(template(30, "c", None));
    state.insert_sibling(10, 11, 1);
    state.insert_sibling(10, 12, 2);
    state.insert_sibling(20, 21, 1);
    state.insert_sibling(20, 22, 2);
    state.insert_sibling(30, 31, 1);
    let mut dead = state.purge(&vec![10, 11, 21, 22, 30, 31, 77]);
    dead.templates.sort();
    dead.siblings.sort();
    assert_eq!(dead.templates, vec![20]);
    assert_eq!(dead.siblings, vec![12, 21, 22]);
    assert_eq!(members(state.get_family(10).unwrap()), vec![(11, 1)]);
    assert!(state.get_family(20).is_none());
    assert_eq!(members(state.get_family(30).unwrap()), vec![(31, 1)]);
    assert!(state.family_of(12).is_none());
    assert!(state.family_of(21).is_none());
    assert!(state.insert_sibling(10, 12, 2));
}

#[test]
fn retain_siblings_cuts_one_family() {
    let mut state = FamilyState::new();
    state.upsert_template(template(10, "a", None));
    state.insert_sibling(10, 11, 1);
    state.insert_sibling(10, 12, 2);
    assert_eq!(state.retain_siblings(10, &vec![12]), vec![11]);
    assert_eq!(state.retain_siblings(99, &vec![12]), Vec::<u64>::new());
    assert_eq!(members(state.get_family(10).unwrap()), vec![(12, 2)]);
    assert!(state.family_of(11).is_none());
}

#[test]
fn family_knows_the_number_of_its_next_sibling() {
    let mut family = Family::new(template(10, "x", None));
    assert_eq!(family.next_number(), Ok(1));
    family.insert(11, 1);
    family.insert(12, 2);
    family.insert(13, 4);
    assert_eq!(family.next_number(), Ok(3));
    family.remove(11);
    assert_eq!(family.next_number(), Ok(1));
}
