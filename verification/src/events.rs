//! The event classifier: what a presence transition means.
//!
//! The platform reports where an occupant was and where they are now. Each
//! place is a room or nowhere. The classifier names what happened; it keeps
//! no state and changes nothing.

use vstd::prelude::*;

verus! {

/// What an occupant did.
#[derive(Debug, Clone, Copy, PartialEq, Eq, Structural)]
pub enum Transition {
    /// They came from nowhere into this room.
    Joined(u64),
    /// They went from this room to nowhere.
    Left(u64),
    /// They went from the first room into the second, another one.
    Changed(u64, u64),
}

/// Why a notification names no transition.
#[derive(Debug, Clone, Copy, PartialEq, Eq, Structural)]
pub enum ClassificationError {
    /// The occupant was nowhere and is nowhere.
    BothAbsent,
    /// The notification does not say which group it is about.
    MissingGroup,
    /// The notification does not say which occupant it is about.
    MissingOccupant,
}

/// What the step from `old` to `new` is: a transition; nothing, where the
/// occupant stayed in their room; or an error, where they were and are
/// nowhere.
pub open spec fn classified(old: Option<u64>, new: Option<u64>) -> Result<
    Option<Transition>,
    ClassificationError,
> {
    match (old, new) {
        (None, None) => Err(ClassificationError::BothAbsent),
        (None, Some(room)) => Ok(Some(Transition::Joined(room))),
        (Some(room), None) => Ok(Some(Transition::Left(room))),
        (Some(from), Some(to)) => if from == to {
            Ok(None)
        } else {
            Ok(Some(Transition::Changed(from, to)))
        },
    }
}

/// Names the step from `old` to `new`.
///
/// Every pair but nowhere-to-nowhere gives exactly one of joined, left,
/// changed or nothing; nowhere-to-nowhere always gives an error.
pub fn classify(old: Option<u64>, new: Option<u64>) -> (r: Result<
    Option<Transition>,
    ClassificationError,
>)
    ensures
        r == classified(old, new),
        r is Err <==> old is None && new is None,
        r == Ok::<Option<Transition>, ClassificationError>(None) <==> old is Some && old == new,
{
    match (old, new) {
        (None, None) => Err(ClassificationError::BothAbsent),
        (None, Some(room)) => Ok(Some(Transition::Joined(room))),
        (Some(room), None) => Ok(Some(Transition::Left(room))),
        (Some(from), Some(to)) => if from == to {
            Ok(None)
        } else {
            Ok(Some(Transition::Changed(from, to)))
        },
    }
}

/// Where the platform saw an occupant, as one notification states it.
#[derive(Debug, Clone, Copy, PartialEq, Eq, Structural)]
pub struct Presence {
    /// The group, if the notification names one.
    pub guild_id: Option<u64>,
    /// The room; `None` for nowhere.
    pub channel_id: Option<u64>,
    /// The occupant, if the notification names one.
    pub member: Option<u64>,
}

/// A presence transition, with the group and the occupant it is about.
#[derive(Debug, Clone, Copy, PartialEq, Eq, Structural)]
pub enum ParsedVoiceStateEvent {
    Joined { joined_channel_id: u64, guild_id: u64, member: u64 },
    Left { left_channel_id: u64, guild_id: u64, member: u64 },
    Changed { old_channel_id: u64, new_channel_id: u64, guild_id: u64, member: u64 },
}

impl ParsedVoiceStateEvent {
    /// The transition alone.
    pub open spec fn transition(&self) -> Transition {
        match self {
            ParsedVoiceStateEvent::Joined { joined_channel_id, .. } => Transition::Joined(
                *joined_channel_id,
            ),
            ParsedVoiceStateEvent::Left { left_channel_id, .. } => Transition::Left(
                *left_channel_id,
            ),
            ParsedVoiceStateEvent::Changed { old_channel_id, new_channel_id, .. } => Transition::Changed(
                *old_channel_id,
                *new_channel_id,
            ),
        }
    }

    /// The occupant.
    pub open spec fn spec_member(&self) -> u64 {
        match self {
            ParsedVoiceStateEvent::Joined { member, .. } => *member,
            ParsedVoiceStateEvent::Left { member, .. } => *member,
            ParsedVoiceStateEvent::Changed { member, .. } => *member,
        }
    }

    /// The group.
    pub open spec fn spec_guild_id(&self) -> u64 {
        match self {
            ParsedVoiceStateEvent::Joined { guild_id, .. } => *guild_id,
            ParsedVoiceStateEvent::Left { guild_id, .. } => *guild_id,
            ParsedVoiceStateEvent::Changed { guild_id, .. } => *guild_id,
        }
    }

    /// The room that the occupant left, if any.
    pub open spec fn spec_left(&self) -> Option<u64> {
        match self {
            ParsedVoiceStateEvent::Joined { .. } => None,
            ParsedVoiceStateEvent::Left { left_channel_id, .. } => Some(*left_channel_id),
            ParsedVoiceStateEvent::Changed { old_channel_id, .. } => Some(*old_channel_id),
        }
    }

    /// The room that the occupant joined, if any.
    pub open spec fn spec_joined(&self) -> Option<u64> {
        match self {
            ParsedVoiceStateEvent::Joined { joined_channel_id, .. } => Some(*joined_channel_id),
            ParsedVoiceStateEvent::Left { .. } => None,
            ParsedVoiceStateEvent::Changed { new_channel_id, .. } => Some(*new_channel_id),
        }
    }

    /// The occupant.
    #[verifier::when_used_as_spec(spec_member)]
    pub fn member(&self) -> (member: u64)
        ensures
            member == self.spec_member(),
    {
        match self {
            ParsedVoiceStateEvent::Joined { member, .. } => *member,
            ParsedVoiceStateEvent::Left { member, .. } => *member,
            ParsedVoiceStateEvent::Changed { member, .. } => *member,
        }
    }

    /// The group.
    #[verifier::when_used_as_spec(spec_guild_id)]
    pub fn guild_id(&self) -> (guild_id: u64)
        ensures
            guild_id == self.spec_guild_id(),
    {
        match self {
            ParsedVoiceStateEvent::Joined { guild_id, .. } => *guild_id,
            ParsedVoiceStateEvent::Left { guild_id, .. } => *guild_id,
            ParsedVoiceStateEvent::Changed { guild_id, .. } => *guild_id,
        }
    }

    /// The room that the occupant left, if any.
    #[verifier::when_used_as_spec(spec_left)]
    pub fn left(&self) -> (room: Option<u64>)
        ensures
            room == self.spec_left(),
    {
        match self {
            ParsedVoiceStateEvent::Joined { .. } => None,
            ParsedVoiceStateEvent::Left { left_channel_id, .. } => Some(*left_channel_id),
            ParsedVoiceStateEvent::Changed { old_channel_id, .. } => Some(*old_channel_id),
        }
    }

    /// The room that the occupant joined, if any.
    #[verifier::when_used_as_spec(spec_joined)]
    pub fn joined(&self) -> (room: Option<u64>)
        ensures
            room == self.spec_joined(),
    {
        match self {
            ParsedVoiceStateEvent::Joined { joined_channel_id, .. } => Some(*joined_channel_id),
            ParsedVoiceStateEvent::Left { .. } => None,
            ParsedVoiceStateEvent::Changed { new_channel_id, .. } => Some(*new_channel_id),
        }
    }
}

/// The room that `presence` names, where there is a presence at all.
pub open spec fn room_of(presence: Option<Presence>) -> Option<u64> {
    match presence {
        Some(p) => p.channel_id,
        None => None,
    }
}

/// What a notification means: the earlier presence `old`, if the platform
/// had one, and the present one, `new`.
pub open spec fn parsed(old: Option<Presence>, new: Presence) -> Result<
    Option<ParsedVoiceStateEvent>,
    ClassificationError,
> {
    match (new.member, new.guild_id) {
        (None, _) => Err(ClassificationError::MissingOccupant),
        (Some(_), None) => Err(ClassificationError::MissingGroup),
        (Some(member), Some(guild_id)) => match classified(room_of(old), new.channel_id) {
            Err(e) => Err(e),
            Ok(None) => Ok(None),
            Ok(Some(Transition::Joined(joined_channel_id))) => Ok(
                Some(ParsedVoiceStateEvent::Joined { joined_channel_id, guild_id, member }),
            ),
            Ok(Some(Transition::Left(left_channel_id))) => Ok(
                Some(ParsedVoiceStateEvent::Left { left_channel_id, guild_id, member }),
            ),
            Ok(Some(Transition::Changed(old_channel_id, new_channel_id))) => Ok(
                Some(
                    ParsedVoiceStateEvent::Changed {
                        old_channel_id,
                        new_channel_id,
                        guild_id,
                        member,
                    },
                ),
            ),
        },
    }
}

/// Reads one notification: which occupant of which group did what.
///
/// A notification without occupant or group is an error, and so is one
/// from nowhere to nowhere. One that leaves the occupant in their room is
/// no event: `Ok(None)`.
pub fn parse_voice_event(old: Option<Presence>, new: Presence) -> (r: Result<
    Option<ParsedVoiceStateEvent>,
    ClassificationError,
>)
    ensures
        r == parsed(old, new),
        r matches Ok(Some(event)) ==> classified(room_of(old), new.channel_id) == Ok::<
            Option<Transition>,
            ClassificationError,
        >(Some(event.transition())),
{
    let member = match new.member {
        Some(member) => member,
        None => {
            return Err(ClassificationError::MissingOccupant);
        },
    };
    let guild_id = match new.guild_id {
        Some(guild_id) => guild_id,
        None => {
            return Err(ClassificationError::MissingGroup);
        },
    };
    let before = match old {
        Some(presence) => presence.channel_id,
        None => None,
    };
    match classify(before, new.channel_id) {
        Err(e) => Err(e),
        Ok(None) => Ok(None),
        Ok(Some(Transition::Joined(joined_channel_id))) => Ok(
            Some(ParsedVoiceStateEvent::Joined { joined_channel_id, guild_id, member }),
        ),
        Ok(Some(Transition::Left(left_channel_id))) => Ok(
            Some(ParsedVoiceStateEvent::Left { left_channel_id, guild_id, member }),
        ),
        Ok(Some(Transition::Changed(old_channel_id, new_channel_id))) => Ok(
            Some(
                ParsedVoiceStateEvent::Changed { old_channel_id, new_channel_id, guild_id, member },
            ),
        ),
    }
}

} // verus!
