use voice_channel_manager::family::TemplateRoom;
use voice_channel_manager::listing::{list_message, ChildListing, ParentListing};

fn child(number: u64, name: &str) -> ChildListing {
    ChildListing { number, name: name.to_string() }
}

#[test]
fn empty_list_is_an_empty_block() {
    assert_eq!(list_message("<@7>", &vec![]), "<@7>:\n``");
}

#[test]
fn list_counts_parents_from_one_and_names_children_by_number() {
    let parents = vec![
        ParentListing {
            name: "Lobby".to_string(),
            children: vec![child(1, "Room 1 of 2"), child(2, "Room 2 of 2")],
        },
        ParentListing { name: "Quiet \"zone\"".to_string(), children: vec![] },
        ParentListing { name: "Games".to_string(), children: vec![child(12, "Table 12")] },
    ];
    let expected = "<@7>:\n`\tParent 1: \"Lobby\"\n\t\tChild 1: \"Room 1 of 2\"\n\t\tChild 2: \"Room 2 of \
                    2\"\n\tParent 2: \"Quiet \"zone\"\"\n\tParent 3: \"Games\"\n\t\tChild 12: \"Table \
                    12\"\n`";
    assert_eq!(list_message("<@7>", &parents), expected);
}

#[test]
fn template_room_from_id_knows_nothing_yet() {
    let room = TemplateRoom::from_id(42);
    assert_eq!(room.id, 42);
    assert_eq!(room.pattern, "");
    assert_eq!(room.capacity, None);
}
