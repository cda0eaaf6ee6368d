use voice_channel_manager::family::Family;
use voice_channel_manager::topology::{
    all_to_store, apply_row, from_store, load, resolve_family, to_store, ChannelRow,
};
use voice_channel_manager::cache::FamilyState;

fn row(template: i64, pattern: &str, capacity: Option<i64>, child: Option<(i64, i64)>) -> ChannelRow {
    ChannelRow {
        channel_id: template,
        channel_template: pattern.to_string(),
        capacity,
        child_id: child.map(|c| c.0),
        child_number: child.map(|c| c.1),
    }
}

fn members(family: &Family) -> Vec<(u64, u64)> {
    (0..family.len()).map(|i| (family.member(i).id, family.member(i).number)).collect()
}

#[test]
fn stored_integers_keep_their_bits() {
    assert_eq!(from_store(5), 5);
    assert_eq!(from_store(-1), u64::MAX);
    assert_eq!(from_store(i64::MIN), 1u64 << 63);
    assert_eq!(to_store(5), 5);
    assert_eq!(to_store(u64::MAX), -1);
    assert_eq!(from_store(to_store(0xFEDC_BA98_7654_3210)), 0xFEDC_BA98_7654_3210);
    assert_eq!(all_to_store(&vec![1, u64::MAX, 1u64 << 63]), vec![1, -1, i64::MIN]);
}

#[test]
fn load_groups_rows_by_template() {
    let rows = vec![
        row(10, "Room {#}", Some(5), Some((11, 1))),
        row(20, "Lobby", None, None),
        row(10, "Room {#}", Some(5), Some((12, 2))),
    ];
    let state = load(&rows);
    let first = state.get_family(10).unwrap();
    assert_eq!(first.template().pattern, "Room {#}");
    assert_eq!(first.template().capacity, Some(5));
    assert_eq!(members(first), vec![(11, 1), (12, 2)]);
    let second = state.get_family(20).unwrap();
    assert_eq!(second.template().pattern, "Lobby");
    assert_eq!(second.template().capacity, None);
    assert_eq!(second.len(), 0);
    assert_eq!(state.templates().len(), 2);
}

#[test]
fn load_keeps_the_first_record_of_a_template() {
    let rows = vec![row(10, "first", Some(1), None), row(10, "second", Some(2), Some((11, 1)))];
    let state = load(&rows);
    let family = state.get_family(10).unwrap();
    assert_eq!(family.template().pattern, "first");
    assert_eq!(family.template().capacity, Some(1));
    assert_eq!(members(family), vec![(11, 1)]);
}

#[test]
fn load_passes_over_rows_that_contradict_earlier_ones() {
    let rows = vec![
        row(10, "a", None, Some((11, 1))),
        row(10, "a", None, Some((12, 1))),
        row(20, "b", None, Some((11, 1))),
        row(11, "c", None, Some((13, 1))),
        row(10, "a", None, Some((20, 2))),
    ];
    let state = load(&rows);
    assert_eq!(members(state.get_family(10).unwrap()), vec![(11, 1)]);
    assert_eq!(state.get_family(20).unwrap().len(), 0);
    assert!(state.get_family(11).is_none());
    assert!(state.family_of(13).is_none());
}

#[test]
fn load_passes_over_half_a_sibling() {
    let mut half = row(10, "a", None, None);
    half.child_id = Some(11);
    let state = load(&vec![half]);
    assert_eq!(state.get_family(10).unwrap().len(), 0);
}

#[test]
fn apply_row_adds_to_a_cache() {
    let mut state = FamilyState::new();
    apply_row(&mut state, &row(-1, "wide", Some(-1), Some((-2, 3))));
    let family = state.get_family(u64::MAX).unwrap();
    assert_eq!(family.template().capacity, Some(u64::MAX));
    assert_eq!(members(family), vec![(u64::MAX - 1, 3)]);
}

#[test]
fn resolve_family_reads_the_family_of_the_first_row() {
    assert!(resolve_family(&vec![]).is_none());
    let rows = vec![
        row(10, "Room {#}", None, Some((11, 1))),
        row(10, "Room {#}", None, Some((12, 2))),
        row(20, "other", None, Some((21, 1))),
    ];
    let family = resolve_family(&rows).unwrap();
    assert_eq!(family.id(), 10);
    assert_eq!(members(&family), vec![(11, 1), (12, 2)]);
}
