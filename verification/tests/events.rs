use voice_channel_manager::events::{
    classify, parse_voice_event, ClassificationError, ParsedVoiceStateEvent, Presence, Transition,
};

#[test]
fn absent_to_room_is_joined() {
    assert_eq!(classify(None, Some(7)), Ok(Some(Transition::Joined(7))));
}

#[test]
fn room_to_absent_is_left() {
    assert_eq!(classify(Some(7), None), Ok(Some(Transition::Left(7))));
}

#[test]
fn room_to_other_room_is_changed() {
    assert_eq!(classify(Some(7), Some(8)), Ok(Some(Transition::Changed(7, 8))));
}

#[test]
fn room_to_same_room_is_no_event() {
    assert_eq!(classify(Some(7), Some(7)), Ok(None));
}

#[test]
fn absent_to_absent_is_an_error() {
    assert_eq!(classify(None, None), Err(ClassificationError::BothAbsent));
}

#[test]
fn classification_is_total() {
    let places = [None, Some(1u64), Some(2u64)];
    for old in places {
        for new in places {
            let result = classify(old, new);
            match (old, new) {
                (None, None) => assert!(result.is_err()),
                _ => assert!(result.is_ok()),
            }
        }
    }
}

fn presence(guild_id: Option<u64>, channel_id: Option<u64>, member: Option<u64>) -> Presence {
    Presence { guild_id, channel_id, member }
}

#[test]
fn notification_without_old_presence_is_joined() {
    let event = parse_voice_event(None, presence(Some(1), Some(20), Some(300)));
    let expected = ParsedVoiceStateEvent::Joined { joined_channel_id: 20, guild_id: 1, member: 300 };
    assert_eq!(event, Ok(Some(expected)));
    assert_eq!(expected.member(), 300);
    assert_eq!(expected.guild_id(), 1);
    assert_eq!(expected.joined(), Some(20));
    assert_eq!(expected.left(), None);
}

#[test]
fn notification_from_roomless_presence_is_joined() {
    let old = presence(Some(1), None, Some(300));
    let event = parse_voice_event(Some(old), presence(Some(1), Some(20), Some(300)));
    assert_eq!(
        event,
        Ok(Some(ParsedVoiceStateEvent::Joined { joined_channel_id: 20, guild_id: 1, member: 300 }))
    );
}

#[test]
fn notification_to_nowhere_is_left() {
    let old = presence(Some(1), Some(20), Some(300));
    let event = parse_voice_event(Some(old), presence(Some(1), None, Some(300)));
    let expected = ParsedVoiceStateEvent::Left { left_channel_id: 20, guild_id: 1, member: 300 };
    assert_eq!(event, Ok(Some(expected)));
    assert_eq!(expected.left(), Some(20));
    assert_eq!(expected.joined(), None);
}

#[test]
fn notification_between_rooms_is_changed() {
    let old = presence(Some(1), Some(20), Some(300));
    let event = parse_voice_event(Some(old), presence(Some(1), Some(21), Some(300)));
    let expected = ParsedVoiceStateEvent::Changed {
        old_channel_id: 20,
        new_channel_id: 21,
        guild_id: 1,
        member: 300,
    };
    assert_eq!(event, Ok(Some(expected)));
    assert_eq!(expected.left(), Some(20));
    assert_eq!(expected.joined(), Some(21));
}

#[test]
fn notification_within_one_room_is_filtered() {
    let old = presence(Some(1), Some(20), Some(300));
    assert_eq!(parse_voice_event(Some(old), presence(Some(1), Some(20), Some(300))), Ok(None));
}

#[test]
fn notification_from_nowhere_to_nowhere_is_rejected() {
    assert_eq!(
        parse_voice_event(None, presence(Some(1), None, Some(300))),
        Err(ClassificationError::BothAbsent)
    );
    let old = presence(Some(1), None, Some(300));
    assert_eq!(
        parse_voice_event(Some(old), presence(Some(1), None, Some(300))),
        Err(ClassificationError::BothAbsent)
    );
}

#[test]
fn notification_without_occupant_or_group_is_rejected() {
    assert_eq!(
        parse_voice_event(None, presence(Some(1), Some(20), None)),
        Err(ClassificationError::MissingOccupant)
    );
    assert_eq!(
        parse_voice_event(None, presence(None, Some(20), Some(300))),
        Err(ClassificationError::MissingGroup)
    );
    assert_eq!(
        parse_voice_event(None, presence(None, Some(20), None)),
        Err(ClassificationError::MissingOccupant)
    );
}
