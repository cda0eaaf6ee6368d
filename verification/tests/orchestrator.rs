use std::collections::BTreeMap;

use serde_json::Value;
use voice_channel_manager::cache::FamilyState;
use voice_channel_manager::events::ParsedVoiceStateEvent;
use voice_channel_manager::family::{Family, TemplateRoom};
use voice_channel_manager::numbering::Numbering;
use voice_channel_manager::orchestrator::{Action, Failure, Operation, Reply, RoomInfo, Run, Stage};
use voice_channel_manager::template::CompileError;

const GROUP: u64 = 1;
const T: u64 = 100;

struct Room {
    name: String,
    occupants: Vec<u64>,
    capacity: Option<u64>,
}

/// A platform and a persistence layer that live in memory.
struct World {
    pattern: String,
    capacity: Option<u64>,
    rooms: BTreeMap<u64, Room>,
    records: Vec<(u64, u64)>,
    numbering: Numbering,
    next_room: u64,
    calls: Vec<String>,
    fail_on: Option<&'static str>,
}

impl World {
    fn new(pattern: &str, capacity: Option<u64>) -> World {
        let mut rooms = BTreeMap::new();
        rooms.insert(T, Room { name: "Template".to_string(), occupants: vec![], capacity: None });
        World {
            pattern: pattern.to_string(),
            capacity,
            rooms,
            records: vec![],
            numbering: Numbering::new(),
            next_room: 200,
            calls: vec![],
            fail_on: None,
        }
    }

    fn family(&self) -> Family {
        let mut family =
            Family::new(TemplateRoom { id: T, pattern: self.pattern.clone(), capacity: self.capacity });
        for (room, number) in &self.records {
            assert!(family.insert(*room, *number));
        }
        family
    }

    fn name(&self, room: u64) -> &str {
        &self.rooms[&room].name
    }

    fn enter(&mut self, occupant: u64, room: u64) {
        for other in self.rooms.values_mut() {
            other.occupants.retain(|o| *o != occupant);
        }
        if let Some(entered) = self.rooms.get_mut(&room) {
            entered.occupants.push(occupant);
        }
    }

    fn leave(&mut self, occupant: u64) {
        for other in self.rooms.values_mut() {
            other.occupants.retain(|o| *o != occupant);
        }
    }

    fn fails(&self, what: &str) -> bool {
        self.fail_on == Some(what)
    }

    fn answer(&mut self, action: Action) -> Reply {
        match action {
            Action::Resolve { group, room } => {
                assert_eq!(group, GROUP);
                if self.fails("resolve") {
                    return Reply::Failed;
                }
                if room == T || self.records.iter().any(|(r, _)| *r == room) {
                    Reply::Family(Some(self.family()))
                } else {
                    Reply::Family(None)
                }
            }
            Action::Inspect { room, .. } => {
                if self.fails("inspect") {
                    return Reply::Failed;
                }
                let known = &self.rooms[&room];
                Reply::Room(RoomInfo {
                    name: known.name.clone(),
                    category: Some(9),
                    occupants: known.occupants.len() as u64,
                })
            }
            Action::Allocate { template, .. } => {
                assert_eq!(template, T);
                if self.fails("allocate") {
                    return Reply::Failed;
                }
                Reply::Number(self.numbering.allocate().unwrap())
            }
            Action::CreateRoom { request, .. } => {
                self.calls.push("create".to_string());
                if self.fails("create") {
                    return Reply::Failed;
                }
                assert_eq!(request.get("type"), Some(&Value::from(2u64)));
                assert_eq!(request.get("parent_id"), Some(&Value::from("9")));
                let name = request.get("name").unwrap().as_str().unwrap().to_string();
                let capacity = request.get("user_limit").map(|v| v.as_u64().unwrap());
                let room = self.next_room;
                self.next_room += 1;
                self.rooms.insert(room, Room { name, occupants: vec![], capacity });
                Reply::Created(room)
            }
            Action::Register { template, room, number, .. } => {
                assert_eq!(template, T);
                if self.fails("register") {
                    return Reply::Failed;
                }
                self.records.push((room, number));
                Reply::Done
            }
            Action::MoveOccupant { occupant, room, .. } => {
                self.calls.push(format!("move {} to {}", occupant, room));
                if self.fails("move") {
                    return Reply::Failed;
                }
                self.enter(occupant, room);
                Reply::Done
            }
            Action::DeleteRoom { room, .. } => {
                self.calls.push(format!("delete {}", room));
                if self.fails("delete") {
                    return Reply::Failed;
                }
                self.rooms.remove(&room);
                Reply::Done
            }
            Action::Release { template, room, number, .. } => {
                assert_eq!(template, T);
                if self.fails("release") {
                    return Reply::Failed;
                }
                self.records.retain(|(r, _)| *r != room);
                assert!(self.numbering.release(number));
                Reply::Done
            }
            Action::Rename { room, name, .. } => {
                self.calls.push(format!("rename {} to {}", room, name));
                if self.fails("rename") {
                    return Reply::Failed;
                }
                self.rooms.get_mut(&room).unwrap().name = name;
                Reply::Done
            }
            Action::Finished | Action::Failed(_) => unreachable!(),
        }
    }

    fn handle(&mut self, cache: &mut FamilyState, event: ParsedVoiceStateEvent) -> Result<(), Failure> {
        self.calls.clear();
        let (mut run, mut action) = Run::begin(event);
        loop {
            match action {
                Action::Finished => {
                    assert!(run.is_over());
                    return Ok(());
                }
                Action::Failed(failure) => {
                    assert!(run.is_over());
                    return Err(failure);
                }
                other => {
                    let reply = self.answer(other);
                    let (next_run, next_action) = run.step(cache, reply);
                    run = next_run;
                    action = next_action;
                }
            }
        }
    }

    fn join(&mut self, cache: &mut FamilyState, occupant: u64, room: u64) -> Result<(), Failure> {
        self.enter(occupant, room);
        self.handle(
            cache,
            ParsedVoiceStateEvent::Joined { joined_channel_id: room, guild_id: GROUP, member: occupant },
        )
    }

    fn part(&mut self, cache: &mut FamilyState, occupant: u64, room: u64) -> Result<(), Failure> {
        self.leave(occupant);
        self.handle(
            cache,
            ParsedVoiceStateEvent::Left { left_channel_id: room, guild_id: GROUP, member: occupant },
        )
    }
}

fn cache_with_template(pattern: &str, capacity: Option<u64>) -> FamilyState {
    let mut cache = FamilyState::new();
    assert!(cache.upsert_template(TemplateRoom { id: T, pattern: pattern.to_string(), capacity }));
    cache
}

fn cached(cache: &FamilyState) -> Vec<(u64, u64)> {
    let family = cache.get_family(T).unwrap();
    (0..family.len()).map(|i| (family.member(i).id, family.member(i).number)).collect()
}

#[test]
fn rooms_are_opened_renamed_closed_and_numbers_reused() {
    let mut world = World::new("Room {#} of {%}", Some(5));
    let mut cache = cache_with_template("Room {#} of {%}", Some(5));

    // First join: sibling one is opened, under number one.
    world.join(&mut cache, 1, T).unwrap();
    let s1 = 200;
    assert_eq!(world.records, vec![(s1, 1)]);
    assert_eq!(world.name(s1), "Room 1 of 1");
    assert_eq!(world.rooms[&s1].occupants, vec![1]);
    assert_eq!(world.rooms[&s1].capacity, Some(5));
    assert_eq!(cached(&cache), vec![(s1, 1)]);
    assert_eq!(world.calls, vec!["create", "move 1 to 200"]);

    // Second join, by another occupant: sibling two, and both names read two.
    world.join(&mut cache, 2, T).unwrap();
    let s2 = 201;
    assert_eq!(world.records, vec![(s1, 1), (s2, 2)]);
    assert_eq!(world.name(s1), "Room 1 of 2");
    assert_eq!(world.name(s2), "Room 2 of 2");
    assert_eq!(cached(&cache), vec![(s1, 1), (s2, 2)]);
    assert_eq!(world.calls, vec!["create", "move 2 to 201", "rename 200 to Room 1 of 2"]);

    // Sibling one empties: it is closed and number one is free again.
    world.part(&mut cache, 1, s1).unwrap();
    assert!(!world.rooms.contains_key(&s1));
    assert_eq!(world.records, vec![(s2, 2)]);
    assert_eq!(world.numbering.next_number(), 1);
    assert_eq!(cached(&cache), vec![(s2, 2)]);
    assert_eq!(world.name(s2), "Room 2 of 1");
    assert_eq!(world.calls, vec!["delete 200", "rename 201 to Room 2 of 1"]);

    // Third join: the new sibling bears number one again, not three.
    world.join(&mut cache, 3, T).unwrap();
    let s3 = 202;
    assert_eq!(world.records, vec![(s2, 2), (s3, 1)]);
    assert_eq!(world.numbering.next_number(), 3);
    assert_eq!(world.name(s3), "Room 1 of 2");
    assert_eq!(world.name(s2), "Room 2 of 2");
    assert_eq!(cached(&cache), vec![(s2, 2), (s3, 1)]);
}

#[test]
fn a_room_with_the_right_name_is_not_renamed() {
    let mut world = World::new("Room {#}", None);
    let mut cache = cache_with_template("Room {#}", None);
    world.join(&mut cache, 1, T).unwrap();
    world.join(&mut cache, 2, T).unwrap();
    assert_eq!(world.calls, vec!["create", "move 2 to 201"]);
    world.join(&mut cache, 3, 200).unwrap();
    assert_eq!(world.calls, Vec::<String>::new());
}

#[test]
fn occupancy_is_kept_up_to_date_without_opening_or_closing() {
    let mut world = World::new("{#}: {@}/{^}", Some(4));
    let mut cache = cache_with_template("{#}: {@}/{^}", Some(4));
    world.join(&mut cache, 1, T).unwrap();
    assert_eq!(world.name(200), "1: 1/4");
    world.join(&mut cache, 2, 200).unwrap();
    assert_eq!(world.name(200), "1: 2/4");
    assert_eq!(world.calls, vec!["rename 200 to 1: 2/4"]);
    world.part(&mut cache, 2, 200).unwrap();
    assert_eq!(world.name(200), "1: 1/4");
    assert_eq!(world.calls, vec!["rename 200 to 1: 1/4"]);
}

#[test]
fn a_sibling_with_occupants_is_not_closed() {
    let mut world = World::new("Room {#}", None);
    let mut cache = cache_with_template("Room {#}", None);
    world.join(&mut cache, 1, T).unwrap();
    world.join(&mut cache, 2, 200).unwrap();
    world.part(&mut cache, 1, 200).unwrap();
    assert!(world.rooms.contains_key(&200));
    assert_eq!(world.records, vec![(200, 1)]);
    assert_eq!(world.calls, Vec::<String>::new());
}

#[test]
fn a_room_that_no_family_knows_is_passed_over() {
    let mut world = World::new("Room {#}", None);
    let mut cache = cache_with_template("Room {#}", None);
    world.rooms.insert(555, Room { name: "elsewhere".to_string(), occupants: vec![], capacity: None });
    world.join(&mut cache, 1, 555).unwrap();
    assert_eq!(world.calls, Vec::<String>::new());
    assert_eq!(world.records, vec![]);
}

#[test]
fn a_change_handles_the_joined_room_and_then_the_left_room() {
    let mut world = World::new("Room {#} of {%}", None);
    let mut cache = cache_with_template("Room {#} of {%}", None);
    world.join(&mut cache, 1, T).unwrap();
    // Occupant one goes from the sibling back into the template room.
    world.enter(1, T);
    world
        .handle(
            &mut cache,
            ParsedVoiceStateEvent::Changed {
                old_channel_id: 200,
                new_channel_id: T,
                guild_id: GROUP,
                member: 1,
            },
        )
        .unwrap();
    assert!(!world.rooms.contains_key(&200));
    assert_eq!(world.records, vec![(201, 2)]);
    assert_eq!(world.rooms[&201].occupants, vec![1]);
    assert_eq!(world.name(201), "Room 2 of 1");
    assert_eq!(world.numbering.next_number(), 1);
    assert_eq!(cached(&cache), vec![(201, 2)]);
}

#[test]
fn failed_work_ends_the_run_and_names_the_room() {
    let cases: Vec<(&'static str, Failure)> = vec![
        ("resolve", Failure::LookupFailed { room: T }),
        ("inspect", Failure::TransportFailed { room: T, operation: Operation::Inspect }),
        ("allocate", Failure::AllocationFailed { template: T }),
        ("create", Failure::TransportFailed { room: T, operation: Operation::CreateRoom }),
        ("register", Failure::AllocationFailed { template: T }),
        ("move", Failure::TransportFailed { room: 200, operation: Operation::MoveOccupant }),
    ];
    for (what, expected) in cases {
        let mut world = World::new("Room {#}", None);
        let mut cache = cache_with_template("Room {#}", None);
        world.fail_on = Some(what);
        assert_eq!(world.join(&mut cache, 1, T), Err(expected), "{}", what);
    }
}

#[test]
fn a_reserved_number_is_not_given_back_when_opening_fails() {
    let mut world = World::new("Room {#}", None);
    let mut cache = cache_with_template("Room {#}", None);
    world.fail_on = Some("create");
    assert!(world.join(&mut cache, 1, T).is_err());
    assert_eq!(world.calls, vec!["create"]);
    assert_eq!(world.numbering.next_number(), 2);
    assert!(world.numbering.is_live(1));
    assert_eq!(cached(&cache), vec![]);
}

#[test]
fn failed_closing_and_renaming_are_reported() {
    let mut world = World::new("Room {#} of {%}", None);
    let mut cache = cache_with_template("Room {#} of {%}", None);
    world.join(&mut cache, 1, T).unwrap();
    world.join(&mut cache, 2, T).unwrap();
    world.fail_on = Some("delete");
    assert_eq!(
        world.part(&mut cache, 1, 200),
        Err(Failure::TransportFailed { room: 200, operation: Operation::DeleteRoom })
    );
    assert_eq!(world.calls, vec!["delete 200"]);
    assert_eq!(cached(&cache), vec![(200, 1), (201, 2)]);
    world.fail_on = Some("release");
    assert_eq!(world.part(&mut cache, 1, 200), Err(Failure::AllocationFailed { template: T }));
    world.fail_on = Some("rename");
    world.records.retain(|(room, _)| *room != 200);
    world.rooms.get_mut(&201).unwrap().name = "stale".to_string();
    assert_eq!(
        world.join(&mut cache, 3, 201),
        Err(Failure::TransportFailed { room: 201, operation: Operation::Rename })
    );
}

#[test]
fn a_pattern_that_does_not_compile_fails_the_run() {
    let mut world = World::new("Room {", None);
    let mut cache = FamilyState::new();
    let failure = world.join(&mut cache, 1, T).unwrap_err();
    assert_eq!(
        failure,
        Failure::Compile { template: T, error: CompileError::Unclosed { line: 1, column: 6 } }
    );
    assert_eq!(world.calls, Vec::<String>::new());
    assert_eq!(world.numbering.next_number(), 1);
    assert_eq!(
        failure.message(),
        "the pattern of template room 100 does not compile: no '}' closes the '{' at 1:6"
    );
}

#[test]
fn a_reply_out_of_turn_fails_the_run() {
    let mut cache = FamilyState::new();
    let event = ParsedVoiceStateEvent::Joined { joined_channel_id: T, guild_id: GROUP, member: 1 };
    let (run, action) = Run::begin(event);
    assert!(matches!(action, Action::Resolve { group: GROUP, room: T }));
    assert_eq!(run.stage(), Stage::Resolving { joined: true, room: T });
    let (run, action) = run.step(&mut cache, Reply::Number(3));
    assert!(matches!(action, Action::Failed(Failure::OutOfTurn)));
    assert!(run.is_over());
    let (run, action) = run.step(&mut cache, Reply::Done);
    assert!(matches!(action, Action::Failed(Failure::OutOfTurn)));
    assert_eq!(run.stage(), Stage::Over);
}

#[test]
fn failures_have_messages() {
    assert_eq!(
        Failure::LookupFailed { room: 7 }.message(),
        "the family of room 7 could not be looked up"
    );
    assert_eq!(
        Failure::AllocationFailed { template: 8 }.message(),
        "the numbers of the family of template room 8 could not be changed"
    );
    assert_eq!(
        Failure::TransportFailed { room: 9, operation: Operation::Rename }.message(),
        "the platform failed to rename room 9"
    );
    assert_eq!(
        Failure::TransportFailed { room: 9, operation: Operation::CreateRoom }.message(),
        "the platform failed to open a sibling of room 9"
    );
    assert_eq!(
        Failure::TransportFailed { room: 9, operation: Operation::MoveOccupant }.message(),
        "the platform failed to move the occupant into room 9"
    );
    assert_eq!(
        Failure::TransportFailed { room: 9, operation: Operation::DeleteRoom }.message(),
        "the platform failed to close room 9"
    );
    assert_eq!(
        Failure::TransportFailed { room: 9, operation: Operation::Inspect }.message(),
        "the platform failed to look at room 9"
    );
    assert_eq!(Failure::OutOfTurn.message(), "a reply came that answers nothing that was asked");
}
